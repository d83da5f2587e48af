use git_warden::comment::base::{Kind, Parser};
use git_warden::comment::go::GoParser;

// Comments are only extracted when a valid package clause exists.
fn count(src: &str) -> usize {
    GoParser.parse_file(src).unwrap().len()
}

#[test]
fn no_package_clause_yields_no_comments() {
    // Leading comment + non-package token → zero comments.
    assert_eq!(count("// english comment here\nfunc main() {}\n"), 0);
    assert_eq!(count("// just a comment\n"), 0);
    assert_eq!(count("@@@bad\n// english comment\n"), 0);
}

#[test]
fn valid_package_yields_comments() {
    assert_eq!(
        count("package main\n// english comment\nfunc main(){}\n"),
        1
    );
    // Even if the body is malformed, comments are collected as long as the package clause is valid.
    assert_eq!(count("package main\n// c1\nfunc (\n"), 1);
    // Leading comment + valid package clause: the leading comment is also collected.
    assert_eq!(count("// header\npackage main\n// c1\n"), 2);
    // Block comment before the package clause.
    assert_eq!(count("/* license */\npackage main\n// c\n"), 2);
}

#[test]
fn packagex_is_not_keyword() {
    // `packagex` is an identifier — not a valid package clause.
    assert_eq!(count("packagex main\n// c\n"), 0);
}

#[test]
fn empty_line_comments_preserved() {
    // Empty `//` comments are preserved to maintain line continuity (grouping accuracy).
    assert_eq!(count("package main\n//\n//\n//\nvar x=1\n"), 3);
}

#[test]
fn interpreted_string_escapes_unquoted() {
    // Escape sequences are decoded (value preservation).
    let p = GoParser;
    let cs = Parser::parse_file(&p, "package main\nvar s = \"a\\tb\\u00e9c\"\n").unwrap();
    let s = cs.iter().find(|c| c.kind == Kind::String).unwrap();
    assert_eq!(s.text, "a\tbéc");
}

#[test]
fn import_alias_classified_as_import() {
    let p = GoParser;
    let cs =
        Parser::parse_file(&p, "package main\nimport f \"fmt\"\nimport _ \"io\"\n").unwrap();
    assert!(cs
        .iter()
        .all(|c| c.kind == Kind::Import || c.kind == Kind::Comment));
    assert_eq!(cs.iter().filter(|c| c.kind == Kind::Import).count(), 2);
}
