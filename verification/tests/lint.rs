use git_warden::lint::{
    has_lint_disable_comment, strip_json5_comments, strip_trailing_commas, validate_json, validate_json5,
    validate_jsonc, validate_toml, validate_xml, validate_yaml, ValidationError,
};

#[test]
fn yaml_valid_invalid_empty_multidoc() {
    assert!(validate_yaml("t.yaml", "key: value\nlist:\n  - a\n  - b\n").is_empty());
    assert!(!validate_yaml("t.yaml", "key: [invalid: yaml: here").is_empty());
    assert!(validate_yaml("t.yaml", "").is_empty());
    assert!(validate_yaml("t.yaml", "---\nfoo: bar\n---\nbaz: qux\n").is_empty());
}

#[test]
fn json_cases() {
    assert!(validate_json("t.json", r#"{"key": "value", "list": [1,2,3]}"#).is_empty());
    assert!(!validate_json("t.json", r#"{"key": "value",}"#).is_empty());
    assert!(!validate_json("t.json", r#"{key: value}"#).is_empty());
    assert!(validate_json("t.json", "").is_empty());
}

#[test]
fn json5_cases() {
    let c =
        "{\n  // single\n  \"key\": \"value\",\n  /* multi\n  line */\n  \"list\": [1,2,3],\n}";
    assert!(validate_json5("t.json", c).is_empty());
    assert!(validate_json5("t.json", r#"{"key": "value", "list": [1,2,3,],}"#).is_empty());
    assert!(!validate_json5("t.json", r#"{key: }"#).is_empty());
    assert!(validate_json5("t.json", r#"{"url": "http://example.com"}"#).is_empty());
    assert!(!validate_json5("t.json", r#"{"key": "value" /* unterminated"#).is_empty());
}

#[test]
fn jsonc_cases() {
    assert!(validate_jsonc("t.jsonc", "{\n// c\n\"key\": \"value\"\n}").is_empty());
    assert!(validate_jsonc("t.jsonc", "{\n/* b */\n\"key\": \"value\"\n}").is_empty());
    assert!(!validate_jsonc("t.jsonc", r#"{"key": "value",}"#).is_empty());
    assert!(!validate_jsonc("t.jsonc", r#"{key: value}"#).is_empty());
}

#[test]
fn xml_cases() {
    assert!(validate_xml(
        "t.xml",
        r#"<?xml version="1.0"?><root><item>v</item></root>"#
    )
    .is_empty());
    assert!(!validate_xml("t.xml", "<root><unclosed>").is_empty());
    assert!(validate_xml("t.xml", "").is_empty());
}

#[test]
fn toml_cases() {
    assert!(validate_toml("t.toml", "[section]\nkey = \"value\"\nnumber = 42\n").is_empty());
    assert!(!validate_toml("t.toml", "invalid = [unclosed\n").is_empty());
    assert!(validate_toml("t.toml", "").is_empty());
}

#[test]
fn has_disable_comment() {
    assert!(has_lint_disable_comment(
        "# git-warden: skip-lint\nkey: value\n",
        "#"
    ));
    assert!(has_lint_disable_comment(
        "{\n// git-warden: skip-lint\n\"key\": \"value\"\n}",
        "//"
    ));
    assert!(!has_lint_disable_comment("key: value\n# normal\n", "#"));
}

#[test]
fn strip_json5_preserves_strings_and_strips_comments() {
    let r = strip_json5_comments("{\n// comment\n\"key\": \"value\"\n}").unwrap();
    assert!(!r.contains("// comment"));
    assert!(r.contains("\"key\""));
    let r2 = strip_json5_comments(r#"{"url": "http://example.com/path"}"#).unwrap();
    assert_eq!(r2, r#"{"url": "http://example.com/path"}"#);
}

#[test]
fn strip_trailing_commas_cases() {
    assert_eq!(strip_trailing_commas("[1, 2, 3,]"), "[1, 2, 3]");
    assert_eq!(strip_trailing_commas(r#"{"a": 1,}"#), r#"{"a": 1}"#);
    assert_eq!(strip_trailing_commas("[1, 2, 3]"), "[1, 2, 3]");
    assert_eq!(
        strip_trailing_commas(r#"{"a": 1, "b": 2,}"#),
        r#"{"a": 1, "b": 2}"#
    );
}

#[test]
fn validation_error_string() {
    assert_eq!(
        ValidationError::new("test.json", 5, "syntax error".into()).to_string(),
        "test.json:5: syntax error"
    );
    assert_eq!(
        ValidationError::new("test.json", 0, "error".into()).to_string(),
        "test.json: error"
    );
}
