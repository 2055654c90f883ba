use nannou_manager_core::git::{
    commit_message, decimal, git_status_lines, parse_count_pair, status_from_outputs, GitStatus,
};

fn status(remote: Option<&str>) -> GitStatus {
    GitStatus {
        initialized: true,
        branch: Some("main".into()),
        remote: remote.map(String::from),
        dirty: false,
        ahead: 2,
        behind: 10,
    }
}

#[test]
fn git_status_on_non_repo_reports_no_repository() {
    let s = GitStatus {
        initialized: false,
        branch: None,
        remote: None,
        dirty: false,
        ahead: 0,
        behind: 0,
    };
    assert_eq!(git_status_lines(&s), vec!["No git repository"]);
}

#[test]
fn status_without_remote_omits_counts() {
    assert_eq!(
        git_status_lines(&status(None)),
        vec!["Branch  : main", "Remote  : (none)", "Working : clean"]
    );
}

#[test]
fn status_with_remote_shows_counts() {
    let mut s = status(Some("https://example.com/p.git"));
    s.dirty = true;
    s.branch = None;
    assert_eq!(
        git_status_lines(&s),
        vec![
            "Branch  : (detached)",
            "Remote  : https://example.com/p.git",
            "Working : dirty",
            "Ahead   : 2",
            "Behind  : 10",
        ]
    );
}

#[test]
fn decimal_matches_to_string() {
    for n in [0usize, 7, 9, 10, 42, 100, 1234567890, usize::MAX] {
        assert_eq!(decimal(n), n.to_string());
    }
}

#[test]
fn blank_commit_message_becomes_update() {
    assert_eq!(commit_message("".into()), "Update");
    assert_eq!(commit_message("  \n".into()), "Update");
    assert_eq!(commit_message(" fix ".into()), " fix ");
}

#[test]
fn count_pairs_are_read() {
    assert_eq!(parse_count_pair("3\t5\n"), Some((3, 5)));
    assert_eq!(parse_count_pair("  0 \t 12 "), Some((0, 12)));
    assert_eq!(parse_count_pair("3"), None);
    assert_eq!(parse_count_pair("3\t"), None);
    assert_eq!(parse_count_pair("a\t5"), None);
    assert_eq!(parse_count_pair("3\t5x"), None);
    assert_eq!(parse_count_pair("3,5"), None);
    assert_eq!(parse_count_pair("99999999999999999999999\t1"), None);
}

#[test]
fn status_is_assembled_from_git_output() {
    let s = status_from_outputs(
        true,
        Some("main\n".into()),
        Some("https://example.com/p.git\n".into()),
        " M src/main.rs\n",
        Some("1\t4\n".into()),
    );
    assert!(s.initialized);
    assert_eq!(s.branch.as_deref(), Some("main"));
    assert_eq!(s.remote.as_deref(), Some("https://example.com/p.git"));
    assert!(s.dirty);
    assert_eq!((s.ahead, s.behind), (1, 4));

    let s = status_from_outputs(true, None, None, "\n", Some("1\t4".into()));
    assert!(s.branch.is_none());
    assert!(s.remote.is_none());
    assert!(!s.dirty);
    assert_eq!((s.ahead, s.behind), (0, 0));

    let s = status_from_outputs(false, Some("main".into()), None, "x", None);
    assert!(!s.initialized);
    assert!(s.branch.is_none());
    assert!(!s.dirty);
}
