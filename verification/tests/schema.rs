use git_warden::config::schema::{
    apply_rule, detect_version, has_any_yaml_path, migrate, migrate_up_descriptions,
    remove_key_if_peer_exists, rename_yaml_key, yaml_path_exists, Version, YamlNode,
    RENAME_NO_COAUTHOR, RENAME_REQUIRED_LANGUAGE,
};

#[test]
fn version_names() {
    assert_eq!(Version::Current.as_str(), "v1.2.0");
    assert_eq!(Version::V110.as_str(), "v1.1.0");
    assert_eq!(Version::V102.as_str(), "v1.0.2");
    assert_eq!(Version::V101.as_str(), "v1.0.1");
    assert_eq!(Version::V100.as_str(), "v1.0.0");
    assert_eq!(Version::Unknown.as_str(), "unknown");
}

#[test]
fn rules_by_version() {
    assert_eq!(migrate_up_descriptions(Version::V100), vec![RENAME_NO_COAUTHOR, RENAME_REQUIRED_LANGUAGE]);
    assert_eq!(migrate_up_descriptions(Version::V101), vec![RENAME_NO_COAUTHOR, RENAME_REQUIRED_LANGUAGE]);
    assert_eq!(migrate_up_descriptions(Version::V102), vec![RENAME_REQUIRED_LANGUAGE]);
    assert_eq!(migrate_up_descriptions(Version::V110), vec![RENAME_REQUIRED_LANGUAGE]);
    assert!(migrate_up_descriptions(Version::Current).is_empty());
    assert!(migrate_up_descriptions(Version::Unknown).is_empty());
}

#[test]
fn rename_key_keeps_layout_and_comments() {
    let src = b"# top\ncommit_message:\n  no_coauthor: true # keep\n  other: no_coauthor:\n";
    let out = rename_yaml_key(src, "no_coauthor", "no_ai_coauthor");
    assert_eq!(
        String::from_utf8(out).unwrap(),
        "# top\ncommit_message:\n  no_ai_coauthor: true # keep\n  other: no_coauthor:\n"
    );
    assert_eq!(rename_yaml_key(b"a: 1", "b", "c"), b"a: 1".to_vec());
}

#[test]
fn remove_key_only_with_peer_in_block() {
    let src = b"a:\n  required_language: ko\n  # note\n  locale: ko\nb:\n  required_language: en\n";
    let out = remove_key_if_peer_exists(src, "required_language", "locale");
    assert_eq!(
        String::from_utf8(out).unwrap(),
        "a:\n  # note\n  locale: ko\nb:\n  required_language: en\n"
    );
    let src = b"a:\n  locale: ko\n  deep:\n    x: 1\n  required_language: ko\n";
    let out = remove_key_if_peer_exists(src, "required_language", "locale");
    assert_eq!(String::from_utf8(out).unwrap(), "a:\n  locale: ko\n  deep:\n    x: 1\n");
    // No stale key: the bytes come back unchanged, invalid UTF-8 included.
    let raw = vec![0xffu8, b'\n'];
    assert_eq!(remove_key_if_peer_exists(&raw, "required_language", "locale"), raw);
}

#[test]
fn apply_locale_rule() {
    let src = b"comment_language:\n  required_language: korean\ncommit_message:\n  language_check:\n    language: english\n    locale: en\n";
    let out = apply_rule(RENAME_REQUIRED_LANGUAGE, src);
    assert_eq!(
        String::from_utf8(out).unwrap(),
        "comment_language:\n  locale: korean\ncommit_message:\n  language_check:\n    locale: en\n"
    );
    assert_eq!(apply_rule("other", b"x: 1"), b"x: 1".to_vec());
}

#[test]
fn detect_by_strict_parses_and_markers() {
    let text = b"encoding:\n  locale: ko\n";
    assert_eq!(detect_version(text, &[false, true, true, true, true]), Version::Current);
    assert_eq!(detect_version(text, &[false, true, false, false, false]), Version::V101);
    assert_eq!(detect_version(b"a: 1\n", &[true, true, true, true, true]), Version::V100);
    assert_eq!(detect_version(b"commit_message:\n  no_ai_coauthor: true\n", &[false, false, true, true, true]), Version::V102);
    assert_eq!(detect_version(text, &[false; 5]), Version::Unknown);
}

#[test]
fn migrate_old_file() {
    let src = b"commit_message:\n  no_coauthor: true\ncomment_language:\n  required_language: korean\n";
    let r = migrate(src, &[true, true, false, false, false], |_: &Vec<u8>| true).unwrap();
    assert_eq!(r.detected_version, Version::V100);
    assert_eq!(r.applied.len(), 2);
    assert_eq!(
        String::from_utf8(r.data.clone()).unwrap(),
        "commit_message:\n  no_ai_coauthor: true\ncomment_language:\n  locale: korean\n"
    );
    // The migrated text is what the strict parse of the current format is asked about.
    let r = migrate(src, &[true, true, false, false, false], |d: &Vec<u8>| {
        String::from_utf8_lossy(d).contains("no_coauthor")
    });
    assert_eq!(r.err(), Some("validation failed after migration".to_string()));
}

#[test]
fn migrate_current_is_noop_and_unknown_fails() {
    let src = b"comment_language:\n  locale: korean\n";
    // A current file is kept as it is, without asking the strict parse again.
    let r = migrate(src, &[false, false, false, false, true], |_: &Vec<u8>| false).unwrap();
    assert_eq!(r.detected_version, Version::Current);
    assert!(r.applied.is_empty());
    assert_eq!(r.data, src.to_vec());
    assert_eq!(
        migrate(src, &[false; 5], |_: &Vec<u8>| true).err(),
        Some("unrecognized config file format".to_string())
    );
}

#[test]
fn yaml_paths() {
    let doc = YamlNode::Mapping(vec![
        (Some("lint".to_string()), YamlNode::Mapping(vec![(Some("yaml".to_string()), YamlNode::Scalar)])),
        (Some("rules".to_string()), YamlNode::Sequence(vec![
            YamlNode::Scalar,
            YamlNode::Mapping(vec![(Some("name".to_string()), YamlNode::Scalar)]),
        ])),
        (None, YamlNode::Scalar),
    ]);
    let p = |s: &str| s.split('.').map(|x| x.chars().collect::<Vec<char>>()).collect::<Vec<_>>();
    assert!(yaml_path_exists(&doc, &p("lint.yaml")));
    assert!(!yaml_path_exists(&doc, &p("lint.json")));
    assert!(yaml_path_exists(&doc, &p("rules[].name")));
    assert!(!yaml_path_exists(&doc, &p("rules[].other")));
    assert!(!yaml_path_exists(&doc, &p("lint[].yaml")));
    assert!(has_any_yaml_path(&doc, &["nope", "lint"]));
    assert!(!has_any_yaml_path(&doc, &["nope"]));
}

#[test]
fn detect_version_invalid() {
    // Neither text parses strictly as any version of the configuration.
    assert_eq!(detect_version(b":::invalid yaml:::", &[false; 5]), Version::Unknown);
    assert_eq!(detect_version(b"completely_unknown_field: true\n", &[false; 5]), Version::Unknown);
}
