use nannou_manager_core::config::{config_path, effective_config, join, Config};

#[test]
fn save_and_load_config_via_env_override() {
    let file = "/tmp/sandbox/cfg.json".to_string();
    assert_eq!(
        config_path(Some(file.clone()), Some("/home/u".to_string())),
        file
    );
    let cfg = Config {
        projects_dir: "/sandbox/projects".into(),
        editor_cmd: "neovim".into(),
    };
    let loaded = effective_config(Some(cfg), Some("/home/u".to_string()));
    assert_eq!(loaded.projects_dir, "/sandbox/projects");
    assert_eq!(loaded.editor_cmd, "neovim");
}

#[test]
fn config_path_defaults_to_home() {
    assert_eq!(
        config_path(None, Some("/home/u".to_string())),
        "/home/u/.config/nannou-manager/config.json"
    );
    assert_eq!(
        config_path(None, Some("/home/u/".to_string())),
        "/home/u/.config/nannou-manager/config.json"
    );
    assert_eq!(
        config_path(None, None),
        "./.config/nannou-manager/config.json"
    );
}

#[test]
fn default_config_uses_home() {
    let c = Config::for_home(Some("/home/u".to_string()));
    assert_eq!(c.projects_dir, "/home/u/nannou-projects");
    assert_eq!(c.editor_cmd, "code");
    let c = Config::for_home(None);
    assert_eq!(c.projects_dir, "./nannou-projects");
}

#[test]
fn missing_config_falls_back_to_defaults() {
    let c = effective_config(None, Some("/h".to_string()));
    assert_eq!(c.projects_dir, "/h/nannou-projects");
    assert_eq!(c.editor_cmd, "code");
}

#[test]
fn join_follows_pathbuf() {
    assert_eq!(join("/a", "b"), "/a/b");
    assert_eq!(join("/a/", "b"), "/a/b");
    assert_eq!(join("", "b"), "b");
    assert_eq!(join("/a", "/b"), "/b");
    assert_eq!(join("a", ""), "a/");
    for (base, rel) in [("/a", "b"), ("/a/", "b/c"), ("", "x"), ("rel", "/abs"), ("a", "")] {
        let expected = std::path::Path::new(base).join(rel);
        assert_eq!(join(base, rel), expected.to_str().unwrap());
    }
}
