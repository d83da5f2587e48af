use git_warden::comment::base::{Comment, Kind};
use git_warden::directive::{analyze, is_directive};

fn comments(texts: &[&str]) -> Vec<Comment> {
    texts
        .iter()
        .enumerate()
        .map(|(i, t)| Comment {
            text: t.to_string(),
            line: (i + 1) as i64,
            end_line: (i + 1) as i64,
            is_block: false,
            kind: Kind::Comment,
        })
        .collect()
}

#[test]
fn no_directives_all_checked() {
    let cs = comments(&["한국어 주석", "또 다른 주석"]);
    for s in analyze(&cs, "korean") {
        assert!(!s.skip);
        assert_eq!(s.language, "korean");
    }
}

#[test]
fn ignore_skips_next() {
    let cs = comments(&[
        "git-warden:ignore",
        "This English comment should be skipped",
        "한국어 주석은 체크됨",
    ]);
    let s = analyze(&cs, "korean");
    assert!(s[0].skip);
    assert!(s[1].skip);
    assert!(!s[2].skip);
    assert_eq!(s[2].language, "korean");
}

#[test]
fn ignore_only_one() {
    let cs = comments(&[
        "git-warden:ignore",
        "skipped",
        "also checked",
        "also checked",
    ]);
    let s = analyze(&cs, "korean");
    assert!(s[1].skip);
    assert!(!s[2].skip);
    assert!(!s[3].skip);
}

#[test]
fn disable_enable() {
    let cs = comments(&[
        "한국어",
        "git-warden:disable",
        "English comment",
        "another English",
        "git-warden:enable",
        "한국어 재개",
    ]);
    let s = analyze(&cs, "korean");
    assert!(!s[0].skip && s[0].language == "korean");
    assert!(s[1].skip);
    assert!(s[2].skip);
    assert!(s[3].skip);
    assert!(s[4].skip);
    assert!(!s[5].skip && s[5].language == "korean");
}

#[test]
fn disable_with_lang() {
    let cs = comments(&[
        "git-warden:disable:lang=english",
        "This English comment is allowed",
        "Another English comment",
        "git-warden:enable",
        "한국어 재개",
    ]);
    let s = analyze(&cs, "korean");
    assert!(s[0].skip);
    assert!(!s[1].skip);
    assert_eq!(s[1].language, "english");
    assert_eq!(s[2].language, "english");
    assert_eq!(s[4].language, "korean");
}

#[test]
fn lang_switch() {
    let cs = comments(&[
        "한국어 주석",
        "git-warden:lang=english",
        "This English is now required",
        "Another English comment",
    ]);
    let s = analyze(&cs, "korean");
    assert_eq!(s[0].language, "korean");
    assert!(s[1].skip);
    assert_eq!(s[2].language, "english");
    assert_eq!(s[3].language, "english");
}

#[test]
fn lang_locale_code() {
    let cs = comments(&["git-warden:lang=ja", "これは日本語のコメントです"]);
    let s = analyze(&cs, "korean");
    assert_eq!(s[1].language, "japanese");
}

#[test]
fn file_lang() {
    let cs = comments(&[
        "git-warden:file-lang=english",
        "This English comment should pass",
        "Another English line",
    ]);
    let s = analyze(&cs, "korean");
    assert!(s[0].skip);
    for st in &s[1..] {
        assert!(!st.skip);
        assert_eq!(st.language, "english");
    }
}

#[test]
fn file_lang_locale_code() {
    let cs = comments(&["git-warden:file-lang=zh", "这是一个中文注释内容示例"]);
    let s = analyze(&cs, "korean");
    assert_eq!(s[1].language, "chinese");
}

#[test]
fn file_lang_with_disable() {
    let cs = comments(&[
        "git-warden:file-lang=english",
        "English comment",
        "git-warden:disable",
        "skipped comment",
        "git-warden:enable",
        "English resumed",
    ]);
    let s = analyze(&cs, "korean");
    assert_eq!(s[1].language, "english");
    assert!(s[3].skip);
    assert_eq!(s[5].language, "english");
}

#[test]
fn case_insensitive() {
    let cs = comments(&[
        "Git-Warden:Ignore",
        "This should be skipped",
        "GIT-WARDEN:DISABLE",
        "Also skipped",
        "git-warden:enable",
        "Checked",
    ]);
    let s = analyze(&cs, "korean");
    assert!(s[1].skip);
    assert!(s[3].skip);
    assert!(!s[5].skip);
}

#[test]
fn is_directive_helper() {
    for s in [
        "git-warden:ignore",
        "git-warden:disable",
        "git-warden:enable",
        "git-warden:lang=english",
        "git-warden:file-lang=ko",
        "GIT-WARDEN:DISABLE",
        "  git-warden:ignore  ",
    ] {
        assert!(is_directive(s), "{s}");
    }
    for s in [
        "한국어 주석입니다",
        "This is a comment",
        "// nolint",
        "commit",
        "checker:ignore",
    ] {
        assert!(!is_directive(s), "{s}");
    }
}
