use nannou_manager_core::command::{project_not_found_in_message, project_not_found_message};
use nannou_manager_core::projects::{
    find_project, name_precedes, select_projects, sort_by_name, ProjectInfo, ScanEntry,
};

fn dir(name: &str, manifest: bool) -> ScanEntry {
    ScanEntry {
        name: Some(name.to_string()),
        path: format!("/projects/{name}"),
        is_dir: true,
        has_manifest: manifest,
    }
}

fn names(projects: &[ProjectInfo]) -> Vec<String> {
    projects.iter().map(|p| p.name.clone()).collect()
}

#[test]
fn list_finds_projects_alphabetical() {
    let found = select_projects(&vec![dir("beta", true), dir("alpha", true)]);
    assert_eq!(names(&found), vec!["alpha", "beta"]);
    assert_eq!(found[0].path, "/projects/alpha");
    assert_eq!(found[1].path, "/projects/beta");
}

#[test]
fn scan_ignores_directories_without_cargo_toml() {
    let found = select_projects(&vec![dir("real", true), dir("imposter", false)]);
    assert_eq!(names(&found), vec!["real"]);
}

#[test]
fn scan_ignores_files_and_nameless_entries() {
    let file = ScanEntry {
        name: Some("notes.txt".to_string()),
        path: "/projects/notes.txt".to_string(),
        is_dir: false,
        has_manifest: true,
    };
    let nameless = ScanEntry {
        name: None,
        path: "/projects/..".to_string(),
        is_dir: true,
        has_manifest: true,
    };
    let found = select_projects(&vec![file, nameless, dir("only", true)]);
    assert_eq!(names(&found), vec!["only"]);
}

#[test]
fn list_empty_projects_dir() {
    assert!(select_projects(&Vec::new()).is_empty());
}

#[test]
fn names_order_by_code_point() {
    let found = select_projects(&vec![
        dir("b", true),
        dir("B", true),
        dir("ab", true),
        dir("a", true),
        dir("é", true),
        dir("_x", true),
        dir("Z9", true),
    ]);
    assert_eq!(names(&found), vec!["B", "Z9", "_x", "a", "ab", "b", "é"]);
}

#[test]
fn equal_names_keep_listing_order() {
    let ps = vec![
        ProjectInfo { name: "b".into(), path: "1".into() },
        ProjectInfo { name: "a".into(), path: "2".into() },
        ProjectInfo { name: "b".into(), path: "3".into() },
        ProjectInfo { name: "a".into(), path: "4".into() },
    ];
    let sorted = sort_by_name(ps);
    let paths: Vec<String> = sorted.iter().map(|p| p.path.clone()).collect();
    assert_eq!(paths, vec!["2", "4", "1", "3"]);
}

#[test]
fn precedes_matches_string_order() {
    let words = ["", "a", "ab", "b", "B", "é", "z", "zz", "日本"];
    for x in words {
        for y in words {
            assert_eq!(name_precedes(x, y), x < y, "{x:?} < {y:?}");
        }
    }
}

#[test]
fn find_returns_first_match() {
    let ps = vec![
        ProjectInfo { name: "a".into(), path: "1".into() },
        ProjectInfo { name: "b".into(), path: "2".into() },
        ProjectInfo { name: "b".into(), path: "3".into() },
    ];
    assert_eq!(find_project(&ps, "b"), Some(1));
    assert_eq!(find_project(&ps, "a"), Some(0));
    assert_eq!(find_project(&ps, "c"), None);
}

#[test]
fn delete_missing_project_exits_nonzero() {
    let ps = select_projects(&Vec::new());
    assert_eq!(find_project(&ps, "ghost"), None);
    let msg = project_not_found_in_message("ghost", "/projects");
    assert!(msg.contains("not found"));
    assert_eq!(msg, "Project 'ghost' not found in /projects");
    assert_eq!(project_not_found_message("ghost"), "Project 'ghost' not found");
}
