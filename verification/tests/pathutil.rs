use git_warden::pathutil::{base, fnmatch, match_path, matches_any};

fn base_of(p: &str) -> String {
    let cs: Vec<char> = p.chars().collect();
    base(&cs).into_iter().collect()
}

fn pats(v: &[&str]) -> Vec<String> {
    v.iter().map(|s| s.to_string()).collect()
}

#[test]
fn matches_any_cases() {
    let cases: &[(&str, &[&str], bool)] = &[
        ("main.go", &["main.go"], true),
        ("foo.pb.go", &["*.pb.go"], true),
        ("vendor/github.com/pkg/foo.go", &["vendor/**"], true),
        ("internal/generated/foo.go", &["**/generated/**"], true),
        ("internal/checker/diff.go", &["vendor/**", "*.pb.go"], false),
        ("any/path.go", &[], false),
        ("deep/dir/generated.go", &["generated.go"], true),
    ];
    for (path, p, want) in cases {
        assert_eq!(
            matches_any(path, &pats(p)),
            *want,
            "matches_any({path:?}, {p:?})"
        );
    }
}

#[test]
fn match_path_cases() {
    let cases: &[(&str, &str, bool)] = &[
        ("/home/user/work/repo", "/home/user/work/**", true),
        ("/home/user/work", "/home/user/work/**", true),
        ("/home/user/work/team/sub/repo", "/home/user/work/**", true),
        ("/home/user/personal/repo", "/home/user/work/**", false),
        ("/home/user/deep/repo", "repo", false),
        ("/home/user/work", "/home/user/work", true),
    ];
    for (path, pat, want) in cases {
        assert_eq!(
            match_path(path, pat),
            *want,
            "match_path({path:?}, {pat:?})"
        );
    }
}

// Additional filepath.Match boundary behaviour
#[test]
fn fnmatch_star_does_not_cross_slash() {
    assert!(fnmatch("*.go", "main.go"));
    assert!(!fnmatch("*.go", "dir/main.go")); // * does not cross '/'
    assert!(fnmatch("a/*.go", "a/main.go"));
    assert!(!fnmatch("*", "a/b"));
    assert!(fnmatch("*", "abc"));
}

#[test]
fn fnmatch_question_and_class() {
    assert!(fnmatch("?.go", "a.go"));
    assert!(!fnmatch("?.go", "/.go")); // ? does not match '/'
    assert!(fnmatch("[abc].go", "b.go"));
    assert!(!fnmatch("[abc].go", "d.go"));
    assert!(fnmatch("[a-z].go", "m.go"));
    assert!(fnmatch("[^0-9].go", "a.go"));
    assert!(!fnmatch("[^0-9].go", "5.go"));
}

#[test]
fn fnmatch_escape() {
    assert!(fnmatch("\\*.go", "*.go"));
    assert!(!fnmatch("\\*.go", "a.go"));
}

#[test]
fn doublestar_boundaries() {
    assert!(match_path("a/b/c", "a/**"));
    assert!(match_path("a", "a/**")); // ** matches zero segments
    assert!(match_path("a/b/c/d", "**/d"));
    assert!(match_path("x/generated/y/z", "**/generated/**"));
    assert!(!match_path("a/b", "a/c/**"));
    assert!(match_path("a/foo.go", "a/*.go"));
    assert!(!match_path("a/b/foo.go", "a/*.go")); // * within a segment matches only one segment
}

#[test]
fn base_name() {
    assert_eq!(base_of("a/b/c.go"), "c.go");
    assert_eq!(base_of("c.go"), "c.go");
    assert_eq!(base_of("a/b/"), "b");
}

#[test]
fn malformed_pattern_is_false() {
    // Unclosed class etc. returns false (error absorbed)
    assert!(!fnmatch("[a-", "a"));
}

#[test]
fn base_edge_cases() {
    assert_eq!(base_of(""), ".");
    assert_eq!(base_of("///"), "/");
}

#[test]
fn doublestar_only_pattern_matches_everything() {
    assert!(match_path("x/y/z", "**"));
    assert!(match_path("", "**"));
    assert!(!match_path("x", ""));
    assert!(fnmatch("[!a]", "!"));
    assert!(!fnmatch("a\\", "a"));
}
