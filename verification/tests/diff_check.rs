use git_warden::checker::util::{is_all_uppercase_ascii, is_path_like_string, is_technical_string, truncate};

#[test]
fn truncate_appends_ellipsis() {
    assert_eq!(truncate("hello", 80), "hello");
    assert_eq!(truncate("abcdef", 3), "abc…");
    // multibyte safe.
    assert_eq!(truncate("한국어테스트", 3), "한국어…");
}

#[test]
fn technical_strings() {
    assert!(is_path_like_string("/api/v1"));
    assert!(is_path_like_string("application/json"));
    assert!(!is_path_like_string("hello"));
    assert!(is_all_uppercase_ascii("ERR_TOKEN"));
    assert!(is_all_uppercase_ascii("MAX_SIZE"));
    assert!(!is_all_uppercase_ascii("Hello"));
    assert!(!is_all_uppercase_ascii("한국어"));
    assert!(is_technical_string("/path"));
    assert!(is_technical_string("CONST_NAME"));
    assert!(!is_technical_string("hello world"));
}
