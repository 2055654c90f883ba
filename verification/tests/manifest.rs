use nannou_manager_core::manifest::{copied_entry, rename_package};

const ORIG: &str = "[package]\nname = \"orig\"\nversion = \"0.1.0\"\nedition = \"2021\"\n";

#[test]
fn copy_creates_new_project_with_renamed_package() {
    let src = "[package]\nname = \"src\"\nversion = \"0.1.0\"\nedition = \"2021\"\n";
    let toml = rename_package(src, "clone");
    assert!(toml.contains("name = \"clone\""));
}

#[test]
fn copy_renames_package() {
    let toml = rename_package(ORIG, "renamed");
    assert!(toml.contains("name = \"renamed\""));
    assert!(!toml.contains("name = \"orig\""));
    assert_eq!(
        toml,
        "[package]\nname = \"renamed\"\nversion = \"0.1.0\"\nedition = \"2021\"\n"
    );
}

#[test]
fn rename_only_touches_the_package_table() {
    let text = "[dependencies]\nname = \"dep\"\n\n[package]\n  name=\"orig\" # old\nversion = \"1\"\n[[bin]]\nname = \"tool\"\n";
    assert_eq!(
        rename_package(text, "new"),
        "[dependencies]\nname = \"dep\"\n\n[package]\nname = \"new\"\nversion = \"1\"\n[[bin]]\nname = \"tool\"\n"
    );
}

#[test]
fn keys_that_merely_start_with_name_are_kept() {
    let text = "[package]\nnames = 1\nname_x = 2\nname = \"a\"";
    assert_eq!(rename_package(text, "b"), "[package]\nnames = 1\nname_x = 2\nname = \"b\"");
}

#[test]
fn manifest_without_package_name_is_unchanged() {
    for text in ["", "[workspace]\nmembers = []\n", "[package]\nversion = \"1\"", "name = \"x\"\n"] {
        assert_eq!(rename_package(text, "new"), text);
    }
}

#[test]
fn renaming_twice_is_renaming_once() {
    let once = rename_package(ORIG, "x");
    assert_eq!(rename_package(&once, "x"), once);
}

#[test]
fn copy_preserves_nested_files_and_skips_target() {
    assert!(copied_entry("src"));
    assert!(copied_entry("README.md"));
    assert!(!copied_entry("target"));
    let toml = rename_package(ORIG, "renamed");
    assert!(toml.contains("name = \"renamed\""));
    assert!(!toml.contains("name = \"orig\""));
}

#[test]
fn target_directory_is_not_copied() {
    assert!(!copied_entry("target"));
    assert!(copied_entry("src"));
    assert!(copied_entry("Cargo.toml"));
    assert!(copied_entry("targets"));
}
