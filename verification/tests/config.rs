use git_warden::config::accessors::extract_coauthor_email;
use git_warden::config::defaults::apply_defaults;
use git_warden::config::error::{
    extract_expected_any, extract_expected_struct, extract_line, extract_type_value, format_config_error,
    map_yaml_type, type_hint,
};
use git_warden::config::merge::merge_configs;
use git_warden::config::types::{
    BinaryFilePolicyRule, CommitMessageConfig, Config, ConventionalCommitConfig, FileLanguageRule,
};
use git_warden::config::validate::{glob_pattern_invalid, parse_word_lines, validate};

#[test]
fn default_accessors() {
    let cfg = Config::default();
    assert!(cfg.is_enabled());
    assert!(cfg.comment_language.is_enabled());
    assert!(cfg.commit_message.is_enabled());
    assert!(cfg.commit_message.is_no_ai_coauthor());
    assert!(!cfg.commit_message.is_no_emoji());
    assert!(cfg.binary_file.is_enabled());
    assert!(cfg.lint.is_enabled());
    assert!(cfg.encoding.is_enabled());
    assert!(cfg.encoding.is_require_utf8());
    assert!(!cfg.encoding.is_no_invisible_chars());
    assert!(cfg.cache_dir.is_enabled());
    assert!(cfg.guide.is_enabled());
    assert!(!cfg.commit_message.conventional_commit.is_enabled());
    assert!(!cfg.protected_paths.is_enabled());
    assert!(!cfg.append_only.is_enabled());
}

#[test]
fn apply_defaults_locale_and_extensions() {
    let mut cfg = Config::default();
    apply_defaults(&mut cfg);
    assert_eq!(cfg.comment_language.locale, "korean");
    assert_eq!(cfg.comment_language.min_length, 5);
    assert_eq!(cfg.comment_language.check_mode, "diff");
    assert!(cfg.comment_language.extensions.contains(&".go".to_string()));
    assert_eq!(cfg.encoding.locale, "ko");
    assert_eq!(
        cfg.commit_message.language_check.skip_prefixes,
        vec!["Merge", "Revert", "fixup!", "squash!"]
    );
}

#[test]
fn binary_policy_for() {
    let mut cfg = Config::default();
    cfg.binary_file.default_policy = "block".to_string();
    assert_eq!(cfg.binary_file.policy_for("a.png"), "allow");
    assert_eq!(cfg.binary_file.policy_for("a.out"), "block");
}

#[test]
fn coauthor_should_remove_builtin() {
    let cfg = CommitMessageConfig::default();
    assert!(cfg.coauthor_should_remove("noreply@anthropic.com"));
    assert!(cfg.coauthor_should_remove("foo-copilot@users.noreply.github.com"));
    assert!(!cfg.coauthor_should_remove("human@example.com"));
}

#[test]
fn extract_email() {
    assert_eq!(extract_coauthor_email("Co-authored-by: X <x@y.com>"), "x@y.com");
    assert_eq!(extract_coauthor_email("no email here"), "");
}

#[test]
fn merge_overlay_wins_lists_concat() {
    let mut base = Config::default();
    base.comment_language.allowed_words = vec!["Base".into()];
    base.comment_language.locale = "english".into();
    let mut overlay = Config::default();
    overlay.comment_language.allowed_words = vec!["Over".into()];
    overlay.comment_language.locale = "korean".into();
    let merged = merge_configs(&base, &overlay);
    assert_eq!(merged.comment_language.locale, "korean");
    assert_eq!(
        merged.comment_language.allowed_words,
        vec!["Base".to_string(), "Over".to_string()]
    );
}

#[test]
fn merge_switches_and_fallback_lists() {
    let mut base = Config::default();
    base.enabled = Some(false);
    base.comment_language.min_length = 7;
    base.comment_language.extensions = vec![".go".into()];
    base.protected_paths.enabled = true;
    let overlay = Config::default();
    let merged = merge_configs(&base, &overlay);
    assert_eq!(merged.enabled, Some(false));
    assert_eq!(merged.comment_language.min_length, 7);
    assert_eq!(merged.comment_language.extensions, vec![".go".to_string()]);
    assert!(merged.protected_paths.enabled);
}

#[test]
fn policy_rules_and_lfs() {
    let mut cfg = Config::default();
    cfg.binary_file.rules = vec![BinaryFilePolicyRule {
        extensions: vec![".ZIP".into()],
        policy: " LFS ".into(),
    }];
    assert_eq!(cfg.binary_file.policy_for("dir/data.zip"), "lfs");
    assert_eq!(cfg.binary_file.policy_for("noext"), "block");
}

#[test]
fn conventional_types_and_aliases() {
    let mut c = ConventionalCommitConfig::default();
    assert_eq!(c.get_types().len(), 11);
    c.locale = "ko".into();
    assert_eq!(c.resolve_type("기능"), "feat");
    assert_eq!(c.resolve_type("feat"), "feat");
    let all = c.get_all_allowed_types();
    assert_eq!(all.len(), 11 + 12);
    c.type_aliases.insert("zeta".into(), "fix".into());
    c.type_aliases.insert("alpha".into(), "feat".into());
    let all = c.get_all_allowed_types();
    assert_eq!(&all[11..], &["alpha".to_string(), "zeta".to_string()]);
    assert_eq!(c.resolve_type("기능"), "기능");
}

#[test]
fn locales_fall_back() {
    let mut r = FileLanguageRule::default();
    r.language = "ja".into();
    assert_eq!(r.get_locale(), "japanese");
    let cfg = Config::default();
    assert_eq!(cfg.comment_language.get_locale(), "korean");
    assert_eq!(cfg.commit_message.subject_limit.get_max_length(), 72);
    assert_eq!(cfg.commit_message.body_line_limit.get_max_length(), 100);
}

#[test]
fn word_lines_and_globs() {
    assert_eq!(parse_word_lines(" a \n# c\n\nb"), vec!["a".to_string(), "b".to_string()]);
    let g = |p: &str| glob_pattern_invalid(&p.chars().collect::<Vec<char>>());
    assert!(g("[abc"));
    assert!(g("a\\"));
    assert!(!g("[]a]"));
    assert!(!g("*.go"));
}

#[test]
fn validate_reports_unknown_values() {
    let mut cfg = Config::default();
    cfg.comment_language.locale = "klingon".into();
    cfg.exceptions.global_ignore = vec!["[bad".into()];
    cfg.comment_language.allowed_words_file = "words.txt".into();
    let w = validate(&cfg, "c.yml", false);
    assert_eq!(w.len(), 3);
    assert!(w[0].contains("comment_language.locale unknown value: \"klingon\""));
    assert!(w[1].contains("exceptions.global_ignore invalid glob pattern"));
    assert!(w[2].contains("file not found"));
    assert!(validate(&Config::default(), "c.yml", true).is_empty());
}

#[test]
fn syntax_error_path() {
    let m = format_config_error("c.yml", "did not find expected key at line 3 column 1");
    assert!(m.contains("c.yml"));
    assert!(m.contains("did not find expected key"));
}

#[test]
fn type_error_object_required_with_example() {
    let serde = "lint: invalid type: boolean `true`, expected struct LintConfig at line 1 column 7";
    let m = format_config_error("c.yml", serde);
    assert!(m.contains("c.yml"));
    assert!(m.contains("'lint'"));
    assert!(m.contains("bool(true)"));
    assert!(m.contains("enabled: true"));
}

#[test]
fn type_error_string_value() {
    let serde = "binary_file: invalid type: string \"nope\", expected struct BinaryFileConfig at line 2 column 14";
    let m = format_config_error("c.yml", serde);
    assert!(m.contains("'binary_file'"));
    assert!(m.contains("str(nope)"));
    assert!(m.contains("binary_file:\n"));
}

#[test]
fn type_helpers() {
    assert_eq!(extract_line("x at line 7 column 1"), "7");
    assert_eq!(map_yaml_type("boolean"), "bool");
    assert_eq!(map_yaml_type("string"), "str");
    let (t, v) = extract_type_value("invalid type: boolean `true`, expected struct X at line 1 column 1");
    assert_eq!((t.as_str(), v.as_str()), ("bool", "true"));
    assert_eq!(
        extract_expected_struct("... expected struct LintConfig at line 1").as_deref(),
        Some("LintConfig")
    );
}

#[test]
fn type_error_generic_and_fallbacks() {
    assert_eq!(extract_line("no line here"), "?");
    assert_eq!(extract_line("at line x"), "?");
    assert_eq!(map_yaml_type("unit value"), "null");
    assert_eq!(map_yaml_type("  u64 value"), "u64");
    assert_eq!(map_yaml_type(""), "");
    assert_eq!(extract_type_value("plain"), (String::new(), String::new()));
    assert_eq!(extract_type_value("invalid type: sequence, expected x"), ("seq".to_string(), String::new()));
    assert_eq!(extract_expected_struct("expected struct !"), None);
    assert_eq!(extract_expected_any("x: expected a a string at line 2"), "string");
    assert_eq!(extract_expected_any("x: expected an integer"), "integer");
    let m = format_config_error("c.yml", "x: invalid type: string \"a\", expected a boolean at line 4 column 2");
    assert_eq!(m, "c.yml: configuration type error\n  line 4: expected boolean, got str(a)");
    assert!(type_hint("LintConfig").is_some());
    assert!(type_hint("Nope").is_none());
}
