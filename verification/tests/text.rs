use nannou_manager_core::text::{is_affirmative, text_eq};

#[test]
fn affirmative_answers() {
    for a in ["y", "Y", "yes", "YES", " yes\n", "\ty\r\n"] {
        assert!(is_affirmative(a), "{a:?} should confirm");
    }
}

#[test]
fn other_answers_decline() {
    for a in ["", "n", "no", "Yes", "yES", "ye", "yess", "y y", "\n"] {
        assert!(!is_affirmative(a), "{a:?} should not confirm");
    }
}

#[test]
fn text_equality() {
    assert!(text_eq("abc", "abc"));
    assert!(!text_eq("abc", "abd"));
    assert!(!text_eq("abc", "ab"));
}
