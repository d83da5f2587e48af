use std::collections::HashSet;
use std::sync::atomic::AtomicBool;

use git_warden::checker::append_only::{
    check_append_only, check_file_content, check_filename_order, natural_less, needs_file_versions,
    BaseContent, FileVersions, ERR_NOT_IN_FROM_TREE,
};
use git_warden::checker::cache_dir::{check_cache_dir_committed, check_cache_dir_staged};
use git_warden::checker::custom::{check_diff_custom_rules, check_msg_custom_rules};
use git_warden::config::defaults::apply_defaults;
use git_warden::config::types::{Config, CustomRule};
use git_warden::gitdiff::FileDiff;

fn base_cfg() -> Config {
    let mut cfg = Config::default();
    apply_defaults(&mut cfg);
    cfg
}

fn no_cancel() -> AtomicBool {
    AtomicBool::new(false)
}

fn diff(path: &str, added: &[i64], is_new: bool, is_deleted: bool) -> FileDiff {
    FileDiff {
        path: path.to_string(),
        added_lines: added.iter().copied().collect::<HashSet<i64>>(),
        is_deleted,
        is_new,
        ..Default::default()
    }
}

fn unchanged() -> FileVersions {
    FileVersions { base: BaseContent::Absent, staged: Err("not read".to_string()) }
}

fn versions(head: &str, staged: &str) -> FileVersions {
    FileVersions { base: BaseContent::Present(head.to_string()), staged: Ok(staged.to_string()) }
}

fn append_cfg() -> Config {
    let mut cfg = base_cfg();
    cfg.append_only.enabled = true;
    cfg.append_only.paths = vec!["migrations/**".into()];
    cfg
}

fn rule(name: &str, pattern: &str, message: &str, required: bool) -> CustomRule {
    CustomRule {
        name: name.to_string(),
        pattern: pattern.to_string(),
        message: message.to_string(),
        required,
    }
}

#[test]
fn natural_less_cases() {
    assert!(natural_less("9.sql", "10.sql"));
    assert!(!natural_less("10.sql", "9.sql"));
    assert!(natural_less("001.sql", "002.sql"));
    assert!(natural_less("a", "b"));
    assert!(!natural_less("b", "a"));
    assert!(natural_less("", "x"));
    assert!(!natural_less("x", ""));
    assert!(natural_less("v1_2", "v1_10"));
}

#[test]
fn natural_less_is_irreflexive_and_asymmetric() {
    for s in ["", "a", "10", "v1_10", "001.sql"] {
        assert!(!natural_less(s, s));
    }
    assert!(natural_less("v2", "v10") && !natural_less("v10", "v2"));
    // Equal numbers with different zero padding: neither comes first.
    assert!(!natural_less("01", "1") && !natural_less("1", "01"));
    // Numbers past u64 wrap around.
    assert!(natural_less("18446744073709551616", "1"));
}

#[test]
fn append_only_new_file_allowed() {
    let cfg = append_cfg();
    let diffs = vec![diff("migrations/002_next.sql", &[1], true, false)];
    let tree = vec!["migrations/001_init.sql".to_string()];
    let errs = check_append_only(&cfg, "HEAD", &tree, &diffs, &[unchanged()], &no_cancel()).unwrap();
    assert!(errs.is_empty(), "expected no violation, got {errs:?}");
}

#[test]
fn append_only_modify_existing_blocked() {
    let cfg = append_cfg();
    let diffs = vec![diff("migrations/001_init.sql", &[1], false, false)];
    let tree = vec!["migrations/001_init.sql".to_string()];
    let v = versions("CREATE TABLE a (id INT);\n", "CREATE TABLE changed (id INT);\n");
    assert!(needs_file_versions(&cfg, &diffs[0]));
    let errs = check_append_only(&cfg, "HEAD", &tree, &diffs, &[v], &no_cancel()).unwrap();
    assert!(!errs.is_empty(), "expected modify violation");
    assert!(errs[0].contains("migrations/001_init.sql"));
}

#[test]
fn append_only_append_at_end_allowed() {
    let cfg = append_cfg();
    let diffs = vec![diff("migrations/001.sql", &[2], false, false)];
    let tree = vec!["migrations/001.sql".to_string()];
    let v = versions("line1\n", "line1\nline2\n");
    let errs = check_append_only(&cfg, "HEAD", &tree, &diffs, &[v], &no_cancel()).unwrap();
    assert!(errs.is_empty(), "expected append allowed, got {errs:?}");
}

#[test]
fn append_only_delete_blocked() {
    let cfg = append_cfg();
    let diffs = vec![diff("migrations/001.sql", &[], false, true)];
    let tree = vec!["migrations/001.sql".to_string()];
    let errs = check_append_only(&cfg, "HEAD", &tree, &diffs, &[unchanged()], &no_cancel()).unwrap();
    assert_eq!(errs.len(), 1, "expected delete violation");
}

#[test]
fn append_only_disabled_or_unmatched() {
    let mut cfg = append_cfg();
    let diffs = vec![diff("src/main.rs", &[1], false, true)];
    let errs = check_append_only(&cfg, "HEAD", &[], &diffs, &[unchanged()], &no_cancel()).unwrap();
    assert!(errs.is_empty());
    cfg.append_only.enabled = false;
    let diffs = vec![diff("migrations/001.sql", &[], false, true)];
    let errs = check_append_only(&cfg, "HEAD", &[], &diffs, &[unchanged()], &no_cancel()).unwrap();
    assert!(errs.is_empty());
}

#[test]
fn append_only_filename_order() {
    let pats = vec!["migrations/**".to_string()];
    let tree = vec![
        "migrations/9_b.sql".to_string(),
        "migrations/10_c.sql".to_string(),
        "other/99.sql".to_string(),
    ];
    assert_eq!(check_filename_order("HEAD", "migrations/11_d.sql", &pats, &tree), None);
    let m = check_filename_order("HEAD", "migrations/2_a.sql", &pats, &tree).unwrap();
    assert!(m.contains("migrations/10_c.sql"), "{m}");
    assert_eq!(check_filename_order("", "migrations/2_a.sql", &pats, &tree), None);
    assert_eq!(check_filename_order("HEAD", "fresh/1.sql", &pats, &tree), None);
    // With the order check off, a new file is never reported.
    let mut cfg = append_cfg();
    cfg.append_only.filename_order = "none".into();
    let diffs = vec![diff("migrations/2_a.sql", &[1], true, false)];
    let errs = check_append_only(&cfg, "HEAD", &tree, &diffs, &[unchanged()], &no_cancel()).unwrap();
    assert!(errs.is_empty());
    let cfg = append_cfg();
    let errs = check_append_only(&cfg, "HEAD", &tree, &diffs, &[unchanged()], &no_cancel()).unwrap();
    assert_eq!(errs.len(), 1);
}

#[test]
fn append_only_file_content_outcomes() {
    let v = versions("a\n", "a\nb\n");
    assert_eq!(check_file_content("", &v), Ok(None));
    assert_eq!(check_file_content("HEAD", &v), Ok(None));
    let v = versions("a\n", "b\na\n");
    assert_eq!(check_file_content("HEAD", &v), Ok(Some("diff.append_only_modified".to_string())));
    let v = FileVersions { base: BaseContent::Absent, staged: Ok(String::new()) };
    assert_eq!(check_file_content("HEAD", &v), Err(ERR_NOT_IN_FROM_TREE.to_string()));
    let v = FileVersions { base: BaseContent::Unreadable("git cat-file HEAD:x".into()), staged: Ok(String::new()) };
    assert_eq!(check_file_content("HEAD", &v), Err("git cat-file HEAD:x".to_string()));
    let v = FileVersions { base: BaseContent::Present("a".into()), staged: Err("boom".into()) };
    assert_eq!(check_file_content("HEAD", &v), Err("boom".to_string()));
}

#[test]
fn append_only_errors_stop_the_check() {
    let cfg = append_cfg();
    let diffs = vec![
        diff("migrations/1.sql", &[1], false, false),
        diff("migrations/2.sql", &[1], false, false),
    ];
    let vs = vec![
        FileVersions { base: BaseContent::Absent, staged: Ok(String::new()) },
        FileVersions { base: BaseContent::Present("x".into()), staged: Err("boom".into()) },
    ];
    let r = check_append_only(&cfg, "HEAD", &[], &diffs, &vs, &no_cancel());
    assert_eq!(r, Err("append-only check migrations/2.sql: boom".to_string()));
    let r = check_append_only(&cfg, "HEAD", &[], &diffs, &vs, &AtomicBool::new(true));
    assert_eq!(r, Err("interrupted".to_string()));
}

#[test]
fn forbidden_rule_matches_line() {
    let rules = vec![rule("no_wip", "(?i)wip", "WIP 금지", false)];
    let errs = check_msg_custom_rules("WIP: something\nbody", &rules);
    assert_eq!(errs.len(), 1);
}

#[test]
fn required_rule_missing() {
    let rules = vec![rule("need_ticket", r"\[#\d+\]", "티켓 필요", true)];
    let errs = check_msg_custom_rules("feat: no ticket", &rules);
    assert_eq!(errs.len(), 1);
    let errs2 = check_msg_custom_rules("feat: has [#123]", &rules);
    assert!(errs2.is_empty());
}

#[test]
fn empty_pattern_skipped() {
    let rules = vec![rule("x", "", "m", false)];
    assert!(check_msg_custom_rules("anything", &rules).is_empty());
}

#[test]
fn custom_rules_diff_forbidden() {
    let mut cfg = base_cfg();
    cfg.custom_rules.diff = vec![CustomRule {
        name: "no_console".into(),
        pattern: r"console\.log".into(),
        message: "console.log not allowed".into(),
        required: false,
    }];
    let diffs = vec![diff("app.js", &[1], true, false)];
    let contents = vec![Some("function f(){ console.log('x'); }\n".to_string())];
    let errs = check_diff_custom_rules(&cfg, &diffs, &contents, &no_cancel()).unwrap();
    assert!(!errs.is_empty(), "console.log should be flagged");
}

#[test]
fn custom_rules_diff_only_added_lines_in_order() {
    let mut cfg = base_cfg();
    cfg.custom_rules.diff = vec![
        rule("todo", "TODO", "", false),
        rule("needed", "x", "", true),
        rule("bad", "(", "", false),
    ];
    let diffs = vec![diff("a.rs", &[3, 1, 9], false, false)];
    let contents = vec![Some("TODO one\nTODO two\nTODO three".to_string())];
    let errs = check_diff_custom_rules(&cfg, &diffs, &contents, &no_cancel()).unwrap();
    assert_eq!(errs.len(), 2);
    assert!(errs[0].contains("pattern: TODO"), "{}", errs[0]);
    assert!(errs[0].contains('1') && errs[1].contains('3'));
    // Ignored or unreadable files give nothing.
    cfg.exceptions.global_ignore = vec!["*.rs".into()];
    let errs = check_diff_custom_rules(&cfg, &diffs, &contents, &no_cancel()).unwrap();
    assert!(errs.is_empty());
    cfg.exceptions.global_ignore = vec![];
    let errs = check_diff_custom_rules(&cfg, &diffs, &[None], &no_cancel()).unwrap();
    assert!(errs.is_empty());
    let r = check_diff_custom_rules(&cfg, &diffs, &contents, &AtomicBool::new(true));
    assert_eq!(r, Err("interrupted".to_string()));
}

#[test]
fn cache_dir_staged_blocked() {
    let mut cfg = base_cfg();
    cfg.cache_dir.enabled = Some(true);
    let diffs = vec![
        diff("package.json", &[1], true, false),
        diff("node_modules/lib/index.js", &[1], true, false),
        diff("node_modules/other.js", &[1], true, false),
    ];
    let ancestors = vec![None, Some("node_modules".to_string()), Some("node_modules".to_string())];
    let errs = check_cache_dir_staged(&cfg, true, &diffs, &ancestors, &no_cancel()).unwrap();
    assert_eq!(errs.len(), 1, "node_modules staged file should be blocked once");
    let errs = check_cache_dir_staged(&cfg, false, &diffs, &ancestors, &no_cancel()).unwrap();
    assert!(errs.is_empty());
    cfg.cache_dir.ignore_dirs = vec!["node_modules".into()];
    let errs = check_cache_dir_staged(&cfg, true, &diffs, &ancestors, &no_cancel()).unwrap();
    assert!(errs.is_empty());
}

#[test]
fn cache_dir_committed_counts() {
    let mut cfg = base_cfg();
    cfg.cache_dir.enabled = Some(true);
    let dirs = vec![
        ("target".to_string(), Some(3usize)),
        ("build".to_string(), Some(0usize)),
        ("dist".to_string(), None),
    ];
    let errs = check_cache_dir_committed(&cfg, true, &dirs, &no_cancel()).unwrap();
    assert_eq!(errs.len(), 1);
    assert!(errs[0].contains("target") && errs[0].contains('3'), "{}", errs[0]);
}
