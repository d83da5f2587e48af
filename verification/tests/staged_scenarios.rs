//! Staged-change scenarios: the diffs and staged contents that git would report are
//! written out by hand and handed to the checks.

use std::collections::HashSet;
use std::sync::atomic::AtomicBool;

use git_warden::checker::binary::check_binary_files;
use git_warden::checker::diff_check::check_diff;
use git_warden::checker::files::check_encoding;
use git_warden::checker::protected::check_protected_paths;
use git_warden::config::defaults::apply_defaults;
use git_warden::config::types::Config;
use git_warden::gitdiff::FileDiff;

fn base_cfg() -> Config {
    let mut cfg = Config::default();
    apply_defaults(&mut cfg);
    cfg
}

fn no_cancel() -> AtomicBool {
    AtomicBool::new(false)
}

fn diff(path: &str, added: &[i64], is_new: bool) -> FileDiff {
    FileDiff {
        path: path.to_string(),
        added_lines: added.iter().copied().collect::<HashSet<i64>>(),
        is_new,
        ..Default::default()
    }
}

#[test]
fn protected_paths_modify_blocked() {
    let mut cfg = base_cfg();
    cfg.protected_paths.enabled = true;
    cfg.protected_paths.paths = vec!["generated/**".into()];
    // "package gen\n" became "package gen\n// changed\n".
    let diffs = vec![diff("generated/api.go", &[2], false)];
    let errs = check_protected_paths(&cfg, &diffs, &no_cancel()).unwrap();
    assert!(!errs.is_empty(), "expected protected path violation");
}

#[test]
fn protected_paths_unmatched_allowed() {
    let mut cfg = base_cfg();
    cfg.protected_paths.enabled = true;
    cfg.protected_paths.paths = vec!["generated/**".into()];
    let diffs = vec![diff("src/app.go", &[1], true)];
    let errs = check_protected_paths(&cfg, &diffs, &no_cancel()).unwrap();
    assert!(errs.is_empty(), "unmatched path should be allowed, got {errs:?}");
}

#[test]
fn binary_file_blocked_by_default() {
    let mut cfg = base_cfg();
    cfg.binary_file.enabled = Some(true);
    cfg.binary_file.default_policy = "block".into();
    let files = vec!["blob.bin".to_string()];
    let errs = check_binary_files(&cfg, &files, &[false], &no_cancel()).unwrap();
    assert!(!errs.is_empty(), "binary file should be blocked");
}

#[test]
fn binary_file_image_allowed_by_builtin() {
    let mut cfg = base_cfg();
    cfg.binary_file.enabled = Some(true);
    cfg.binary_file.default_policy = "block".into();
    let files = vec!["logo.png".to_string()];
    let errs = check_binary_files(&cfg, &files, &[false], &no_cancel()).unwrap();
    assert!(errs.is_empty(), "png should be allowed, got {errs:?}");
}

#[test]
fn comment_language_diff_english_flagged_korean_ok() {
    let mut cfg = base_cfg();
    cfg.comment_language.enabled = Some(true);
    cfg.comment_language.locale = "korean".into();

    let english = "package main\n\n// This is an English comment to flag\nfunc main() {}\n";
    let diffs = vec![diff("main.go", &[1, 2, 3, 4], true)];
    let errs = check_diff(&cfg, &diffs, &[Some(english.to_string())], &no_cancel()).unwrap();
    assert!(!errs.is_empty(), "english comment should be flagged");

    let korean = "package main\n\n// 한국어 주석입니다 정상\nfunc main() {}\n";
    let errs = check_diff(&cfg, &diffs, &[Some(korean.to_string())], &no_cancel()).unwrap();
    assert!(errs.is_empty(), "korean comment should pass, got {errs:?}");
}

#[test]
fn encoding_non_utf8_flagged() {
    let mut cfg = base_cfg();
    cfg.encoding.enabled = Some(true);
    cfg.encoding.require_utf8 = Some(true);
    let files = vec!["latin.txt".to_string()];
    let contents = vec![Some(vec![0xC4u8, 0xD6, 0xDC, b'\n'])];
    let errs = check_encoding(&cfg, &files, &[None], &contents, &no_cancel()).unwrap();
    assert!(!errs.is_empty(), "non-utf8 file should be flagged");
}

#[test]
fn encoding_skips_utf8_and_ignored_files() {
    let mut cfg = base_cfg();
    cfg.encoding.enabled = Some(true);
    cfg.encoding.require_utf8 = Some(true);
    cfg.encoding.ignore_files = vec!["legacy/**".into()];
    let files = vec!["ok.txt".to_string(), "legacy/latin.txt".to_string(), "gone.txt".to_string()];
    let contents = vec![Some("héllo\n".as_bytes().to_vec()), Some(vec![0xC4u8, 0xD6]), None];
    let errs = check_encoding(&cfg, &files, &[None, None, None], &contents, &no_cancel()).unwrap();
    assert!(errs.is_empty(), "got {errs:?}");
    // A charset other than UTF-8 in .editorconfig leaves the file alone too.
    let files = vec!["latin.txt".to_string()];
    let contents = vec![Some(vec![0xC4u8, 0xD6, 0xDC, b'\n'])];
    let errs = check_encoding(&cfg, &files, &[Some("latin1".to_string())], &contents, &no_cancel()).unwrap();
    assert!(errs.is_empty(), "got {errs:?}");
}

#[test]
fn checks_succeed_when_off_or_given_nothing() {
    let cancelled = AtomicBool::new(true);
    let mut cfg = base_cfg();
    cfg.comment_language.enabled = Some(false);
    cfg.protected_paths.enabled = false;
    let diffs = vec![diff("main.go", &[1], true)];
    // Off: no cancellation point is reached.
    assert_eq!(check_diff(&cfg, &diffs, &[None], &cancelled), Ok(vec![]));
    assert_eq!(check_protected_paths(&cfg, &diffs, &cancelled), Ok(vec![]));
    // On, but nothing to look at.
    let cfg = base_cfg();
    assert_eq!(check_diff(&cfg, &[], &[], &cancelled), Ok(vec![]));
    assert_eq!(check_binary_files(&cfg, &[], &[], &cancelled), Ok(vec![]));
    // On, with work to do, and cancelled.
    let mut cfg = base_cfg();
    cfg.comment_language.enabled = Some(true);
    assert_eq!(check_diff(&cfg, &diffs, &[None], &cancelled), Err("interrupted".to_string()));
}
