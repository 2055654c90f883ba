use nannou_manager_core::git_url::{clone_folder, name_from_git_url};

#[test]
fn https_url_with_git_suffix() {
    assert_eq!(name_from_git_url("https://github.com/foo/bar.git"), "bar");
}

#[test]
fn https_url_without_git_suffix() {
    assert_eq!(name_from_git_url("https://github.com/foo/bar"), "bar");
}

#[test]
fn ssh_url() {
    assert_eq!(name_from_git_url("git@github.com:foo/bar.git"), "bar");
}

#[test]
fn url_with_trailing_slash() {
    assert_eq!(name_from_git_url("https://github.com/foo/bar.git/"), "bar");
}

#[test]
fn url_with_surrounding_whitespace() {
    assert_eq!(name_from_git_url("  https://github.com/foo/bar.git \n"), "bar");
}

#[test]
fn bare_repo_name() {
    assert_eq!(name_from_git_url("bar.git"), "bar");
}

#[test]
fn nested_path() {
    assert_eq!(
        name_from_git_url("https://gitlab.com/group/sub/proj.git"),
        "proj"
    );
}

#[test]
fn repeated_git_suffixes_are_all_removed() {
    assert_eq!(name_from_git_url("https://example.com/x/repo.git.git"), "repo");
}

#[test]
fn slashes_after_git_suffix_are_not_stripped_again() {
    assert_eq!(name_from_git_url("https://example.com/x/.git"), "");
}

#[test]
fn empty_and_blank_urls_give_empty_name() {
    assert_eq!(name_from_git_url(""), "");
    assert_eq!(name_from_git_url(" \t\n"), "");
    assert_eq!(name_from_git_url("https://example.com/"), "example.com");
}

#[test]
fn non_ascii_names_are_kept_whole() {
    assert_eq!(name_from_git_url("\u{3000}https://example.com/ünï/ñame.git\u{2003}"), "ñame");
}

#[test]
fn clone_folder_prefers_explicit_name() {
    assert_eq!(
        clone_folder(Some("mine".to_string()), "https://github.com/foo/bar.git"),
        Some("mine".to_string())
    );
}

#[test]
fn clone_folder_derives_name_from_url() {
    assert_eq!(
        clone_folder(None, "git@github.com:foo/bar.git"),
        Some("bar".to_string())
    );
}

#[test]
fn clone_folder_rejects_empty_name() {
    assert_eq!(clone_folder(None, "https://github.com/.git"), None);
    assert_eq!(clone_folder(Some(String::new()), "https://github.com/foo/bar"), None);
}
