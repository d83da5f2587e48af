use git_warden::checker::binary::{evaluate_binary_policy, is_lfs_filter_output, staged_binary_paths};
use git_warden::config::types::{BinaryFileConfig, BinaryFilePolicyRule};

fn cfg_with(default_policy: &str, rules: Vec<BinaryFilePolicyRule>) -> BinaryFileConfig {
    BinaryFileConfig {
        enabled: Some(true),
        default_policy: default_policy.to_string(),
        rules,
        ignore_files: vec![],
    }
}

#[test]
fn block_policy_reports() {
    let cfg = cfg_with("block", vec![]);
    let msg = evaluate_binary_policy(&cfg, "a.out", false);
    assert!(msg.contains("a.out"));
}

#[test]
fn allow_policy_silent() {
    let cfg = cfg_with("allow", vec![]);
    assert_eq!(evaluate_binary_policy(&cfg, "a.out", false), "");
}

#[test]
fn image_extension_allowed_by_default() {
    let cfg = cfg_with("block", vec![]);
    // Built-in image extensions are allowed by default.
    assert_eq!(evaluate_binary_policy(&cfg, "logo.png", false), "");
}

#[test]
fn rule_overrides_default() {
    let cfg = cfg_with(
        "block",
        vec![BinaryFilePolicyRule {
            extensions: vec![".zip".to_string()],
            policy: "allow".to_string(),
        }],
    );
    assert_eq!(evaluate_binary_policy(&cfg, "data.zip", false), "");
}

#[test]
fn lfs_policy_depends_on_tracking() {
    let cfg = cfg_with("lfs", vec![]);
    assert_eq!(evaluate_binary_policy(&cfg, "model.bin", true), "");
    let msg = evaluate_binary_policy(&cfg, "model.bin", false);
    assert!(msg.contains("model.bin"));
    assert_ne!(msg, evaluate_binary_policy(&cfg_with("block", vec![]), "model.bin", false));
}

#[test]
fn lfs_filter_output_parsing() {
    assert!(is_lfs_filter_output(b"model.bin\x00filter\x00lfs\x00"));
    assert!(!is_lfs_filter_output(b"model.bin\x00filter\x00unspecified\x00"));
    assert!(!is_lfs_filter_output(b""));
}

#[test]
fn numstat_binary_records() {
    let fields: Vec<String> = vec![
        "-\t-\timg.png".into(),
        "3\t1\tsrc/main.rs".into(),
        "-\t-\t".into(),
        "old.bin".into(),
        "new.bin".into(),
        "garbage".into(),
    ];
    assert_eq!(staged_binary_paths(&fields), vec!["img.png".to_string(), "new.bin".to_string()]);
}
