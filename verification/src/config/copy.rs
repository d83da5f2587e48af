//! Copies of configuration values with the guarantee that they agree with the original.

use vstd::prelude::*;
use super::aliases::TypeAliases;
use super::types::{IncludeRule,
    PresetConfig,
    AllowedWordsCacheConfig,
    CommentLanguageConfig,
    FileLanguageRule,
    CommitMessageConfig,
    CommitMessageLanguageConfig,
    ConventionalCommitConfig,
    SubjectLimitConfig,
    BodyLineLimitConfig,
    BinaryFileConfig,
    BinaryFilePolicyRule,
    LintConfig,
    LintRuleConfig,
    YamlLintConfig,
    JsonLintConfig,
    EncodingConfig,
    EditorConfigConfig,
    ExceptionsConfig,
    AppendOnlyConfig,
    ProtectedPathsConfig,
    CacheDirConfig,
    GuideConfig,
    CustomRulesConfig,
    CustomRule,
    Config,
    same_include_rule,
    same_preset_config,
    same_allowed_words_cache_config,
    same_comment_language_config,
    same_file_language_rule,
    same_commit_message_config,
    same_commit_message_language_config,
    same_conventional_commit_config,
    same_subject_limit_config,
    same_body_line_limit_config,
    same_binary_file_config,
    same_binary_file_policy_rule,
    same_lint_config,
    same_lint_rule_config,
    same_yaml_lint_config,
    same_json_lint_config,
    same_encoding_config,
    same_editor_config_config,
    same_exceptions_config,
    same_append_only_config,
    same_protected_paths_config,
    same_cache_dir_config,
    same_guide_config,
    same_custom_rules_config,
    same_custom_rule,
    same_config,
    same_seq_binary_file_policy_rule,
    same_seq_custom_rule,
    same_seq_file_language_rule,
    same_seq_include_rule};

verus! {

/// A copy of a list of strings.
pub fn copy_strings(v: &Vec<String>) -> (r: Vec<String>)
    ensures
        r@ == v@,
{
    let mut out: Vec<String> = Vec::new();
    let mut i: usize = 0;
    while i < v.len()
        invariant
            i <= v@.len(),
            out@ == v@.take(i as int),
        decreases v.len() - i,
    {
        out.push(v[i].clone());
        assert(v@.take(i + 1) =~= v@.take(i as int).push(v@[i as int]));
        i += 1;
    }
    assert(v@.take(v@.len() as int) =~= v@);
    out
}

pub fn copy_include_rule(c: &IncludeRule) -> (r: IncludeRule)
    ensures
        same_include_rule(r, *c),
{
    IncludeRule {
        path: c.path.clone(),
        gitdir: c.gitdir.clone(),
    }
}

pub fn copy_preset_config(c: &PresetConfig) -> (r: PresetConfig)
    ensures
        same_preset_config(r, *c),
{
    PresetConfig {
        url: c.url.clone(),
        cache: copy_allowed_words_cache_config(&c.cache),
    }
}

pub fn copy_allowed_words_cache_config(c: &AllowedWordsCacheConfig) -> (r: AllowedWordsCacheConfig)
    ensures
        same_allowed_words_cache_config(r, *c),
{
    AllowedWordsCacheConfig {
        enabled: c.enabled,
        ttl: c.ttl.clone(),
        dir: c.dir.clone(),
    }
}

pub fn copy_comment_language_config(c: &CommentLanguageConfig) -> (r: CommentLanguageConfig)
    ensures
        same_comment_language_config(r, *c),
{
    CommentLanguageConfig {
        enabled: c.enabled,
        required_language: c.required_language.clone(),
        languages: copy_strings(&c.languages),
        extensions: copy_strings(&c.extensions),
        min_length: c.min_length,
        skip_directives: copy_strings(&c.skip_directives),
        check_mode: c.check_mode.clone(),
        ignore_files: copy_strings(&c.ignore_files),
        locale: c.locale.clone(),
        file_languages: copy_file_language_rule_list(&c.file_languages),
        no_emoji: c.no_emoji,
        check_strings: c.check_strings,
        skip_technical_strings: c.skip_technical_strings,
        allowed_words: copy_strings(&c.allowed_words),
        allowed_words_file: c.allowed_words_file.clone(),
        allowed_words_url: c.allowed_words_url.clone(),
        allowed_words_cache: copy_allowed_words_cache_config(&c.allowed_words_cache),
    }
}

pub fn copy_file_language_rule(c: &FileLanguageRule) -> (r: FileLanguageRule)
    ensures
        same_file_language_rule(r, *c),
{
    FileLanguageRule {
        pattern: c.pattern.clone(),
        locale: c.locale.clone(),
        language: c.language.clone(),
    }
}

pub fn copy_commit_message_config(c: &CommitMessageConfig) -> (r: CommitMessageConfig)
    ensures
        same_commit_message_config(r, *c),
{
    CommitMessageConfig {
        enabled: c.enabled,
        no_ai_coauthor: c.no_ai_coauthor,
        coauthor_remove_emails: copy_strings(&c.coauthor_remove_emails),
        no_unicode_spaces: c.no_unicode_spaces,
        no_ambiguous_chars: c.no_ambiguous_chars,
        no_bad_runes: c.no_bad_runes,
        no_emoji: c.no_emoji,
        locale: c.locale.clone(),
        language_check: copy_commit_message_language_config(&c.language_check),
        conventional_commit: copy_conventional_commit_config(&c.conventional_commit),
        subject_limit: copy_subject_limit_config(&c.subject_limit),
        body_line_limit: copy_body_line_limit_config(&c.body_line_limit),
    }
}

pub fn copy_commit_message_language_config(c: &CommitMessageLanguageConfig) -> (r: CommitMessageLanguageConfig)
    ensures
        same_commit_message_language_config(r, *c),
{
    CommitMessageLanguageConfig {
        enabled: c.enabled,
        locale: c.locale.clone(),
        required_language: c.required_language.clone(),
        min_length: c.min_length,
        skip_prefixes: copy_strings(&c.skip_prefixes),
    }
}

pub fn copy_conventional_commit_config(c: &ConventionalCommitConfig) -> (r: ConventionalCommitConfig)
    ensures
        same_conventional_commit_config(r, *c),
{
    ConventionalCommitConfig {
        enabled: c.enabled,
        types: copy_strings(&c.types),
        type_aliases: c.type_aliases.clone(),
        locale: c.locale.clone(),
        require_scope: c.require_scope,
        allow_merge_commits: c.allow_merge_commits,
        allow_revert_commits: c.allow_revert_commits,
    }
}

pub fn copy_subject_limit_config(c: &SubjectLimitConfig) -> (r: SubjectLimitConfig)
    ensures
        same_subject_limit_config(r, *c),
{
    SubjectLimitConfig {
        enabled: c.enabled,
        max_length: c.max_length,
    }
}

pub fn copy_body_line_limit_config(c: &BodyLineLimitConfig) -> (r: BodyLineLimitConfig)
    ensures
        same_body_line_limit_config(r, *c),
{
    BodyLineLimitConfig {
        enabled: c.enabled,
        max_length: c.max_length,
    }
}

pub fn copy_binary_file_config(c: &BinaryFileConfig) -> (r: BinaryFileConfig)
    ensures
        same_binary_file_config(r, *c),
{
    BinaryFileConfig {
        enabled: c.enabled,
        default_policy: c.default_policy.clone(),
        rules: copy_binary_file_policy_rule_list(&c.rules),
        ignore_files: copy_strings(&c.ignore_files),
    }
}

pub fn copy_binary_file_policy_rule(c: &BinaryFilePolicyRule) -> (r: BinaryFilePolicyRule)
    ensures
        same_binary_file_policy_rule(r, *c),
{
    BinaryFilePolicyRule {
        extensions: copy_strings(&c.extensions),
        policy: c.policy.clone(),
    }
}

pub fn copy_lint_config(c: &LintConfig) -> (r: LintConfig)
    ensures
        same_lint_config(r, *c),
{
    LintConfig {
        enabled: c.enabled,
        yaml: copy_yaml_lint_config(&c.yaml),
        json: copy_json_lint_config(&c.json),
        xml: copy_lint_rule_config(&c.xml),
        toml: copy_lint_rule_config(&c.toml),
    }
}

pub fn copy_lint_rule_config(c: &LintRuleConfig) -> (r: LintRuleConfig)
    ensures
        same_lint_rule_config(r, *c),
{
    LintRuleConfig {
        enabled: c.enabled,
        ignore_files: copy_strings(&c.ignore_files),
    }
}

pub fn copy_yaml_lint_config(c: &YamlLintConfig) -> (r: YamlLintConfig)
    ensures
        same_yaml_lint_config(r, *c),
{
    YamlLintConfig {
        enabled: c.enabled,
        comment_filter: c.comment_filter,
        ignore_files: copy_strings(&c.ignore_files),
    }
}

pub fn copy_json_lint_config(c: &JsonLintConfig) -> (r: JsonLintConfig)
    ensures
        same_json_lint_config(r, *c),
{
    JsonLintConfig {
        enabled: c.enabled,
        allow_json5: c.allow_json5,
        comment_filter: c.comment_filter,
        ignore_files: copy_strings(&c.ignore_files),
    }
}

pub fn copy_encoding_config(c: &EncodingConfig) -> (r: EncodingConfig)
    ensures
        same_encoding_config(r, *c),
{
    EncodingConfig {
        enabled: c.enabled,
        require_utf8: c.require_utf8,
        no_invisible_chars: c.no_invisible_chars,
        no_ambiguous_chars: c.no_ambiguous_chars,
        locale: c.locale.clone(),
        ignore_files: copy_strings(&c.ignore_files),
    }
}

pub fn copy_editor_config_config(c: &EditorConfigConfig) -> (r: EditorConfigConfig)
    ensures
        same_editor_config_config(r, *c),
{
    EditorConfigConfig {
        enabled: c.enabled,
        ignore_files: copy_strings(&c.ignore_files),
    }
}

pub fn copy_exceptions_config(c: &ExceptionsConfig) -> (r: ExceptionsConfig)
    ensures
        same_exceptions_config(r, *c),
{
    ExceptionsConfig {
        global_ignore: copy_strings(&c.global_ignore),
        comment_language_ignore: copy_strings(&c.comment_language_ignore),
    }
}

pub fn copy_append_only_config(c: &AppendOnlyConfig) -> (r: AppendOnlyConfig)
    ensures
        same_append_only_config(r, *c),
{
    AppendOnlyConfig {
        enabled: c.enabled,
        paths: copy_strings(&c.paths),
        filename_order: c.filename_order.clone(),
    }
}

pub fn copy_protected_paths_config(c: &ProtectedPathsConfig) -> (r: ProtectedPathsConfig)
    ensures
        same_protected_paths_config(r, *c),
{
    ProtectedPathsConfig {
        enabled: c.enabled,
        paths: copy_strings(&c.paths),
    }
}

pub fn copy_cache_dir_config(c: &CacheDirConfig) -> (r: CacheDirConfig)
    ensures
        same_cache_dir_config(r, *c),
{
    CacheDirConfig {
        enabled: c.enabled,
        ignore_dirs: copy_strings(&c.ignore_dirs),
    }
}

pub fn copy_guide_config(c: &GuideConfig) -> (r: GuideConfig)
    ensures
        same_guide_config(r, *c),
{
    GuideConfig {
        enabled: c.enabled,
    }
}

pub fn copy_custom_rules_config(c: &CustomRulesConfig) -> (r: CustomRulesConfig)
    ensures
        same_custom_rules_config(r, *c),
{
    CustomRulesConfig {
        commit_message: copy_custom_rule_list(&c.commit_message),
        diff: copy_custom_rule_list(&c.diff),
    }
}

pub fn copy_custom_rule(c: &CustomRule) -> (r: CustomRule)
    ensures
        same_custom_rule(r, *c),
{
    CustomRule {
        name: c.name.clone(),
        pattern: c.pattern.clone(),
        message: c.message.clone(),
        required: c.required,
    }
}

pub fn copy_config(c: &Config) -> (r: Config)
    ensures
        same_config(r, *c),
{
    Config {
        enabled: c.enabled,
        includes: copy_include_rule_list(&c.includes),
        preset: copy_preset_config(&c.preset),
        comment_language: copy_comment_language_config(&c.comment_language),
        commit_message: copy_commit_message_config(&c.commit_message),
        binary_file: copy_binary_file_config(&c.binary_file),
        lint: copy_lint_config(&c.lint),
        encoding: copy_encoding_config(&c.encoding),
        editorconfig: copy_editor_config_config(&c.editorconfig),
        exceptions: copy_exceptions_config(&c.exceptions),
        custom_rules: copy_custom_rules_config(&c.custom_rules),
        protected_paths: copy_protected_paths_config(&c.protected_paths),
        append_only: copy_append_only_config(&c.append_only),
        cache_dir: copy_cache_dir_config(&c.cache_dir),
        guide: copy_guide_config(&c.guide),
    }
}

pub fn copy_binary_file_policy_rule_list(v: &Vec<BinaryFilePolicyRule>) -> (r: Vec<BinaryFilePolicyRule>)
    ensures
        same_seq_binary_file_policy_rule(r@, v@),
{
    let mut out: Vec<BinaryFilePolicyRule> = Vec::new();
    let mut i: usize = 0;
    while i < v.len()
        invariant
            i <= v@.len(),
            out@.len() == i,
            forall|j: int| 0 <= j < i ==> same_binary_file_policy_rule(#[trigger] out@[j], v@[j]),
        decreases v.len() - i,
    {
        out.push(copy_binary_file_policy_rule(&v[i]));
        i += 1;
    }
    out
}

pub fn copy_custom_rule_list(v: &Vec<CustomRule>) -> (r: Vec<CustomRule>)
    ensures
        same_seq_custom_rule(r@, v@),
{
    let mut out: Vec<CustomRule> = Vec::new();
    let mut i: usize = 0;
    while i < v.len()
        invariant
            i <= v@.len(),
            out@.len() == i,
            forall|j: int| 0 <= j < i ==> same_custom_rule(#[trigger] out@[j], v@[j]),
        decreases v.len() - i,
    {
        out.push(copy_custom_rule(&v[i]));
        i += 1;
    }
    out
}

pub fn copy_file_language_rule_list(v: &Vec<FileLanguageRule>) -> (r: Vec<FileLanguageRule>)
    ensures
        same_seq_file_language_rule(r@, v@),
{
    let mut out: Vec<FileLanguageRule> = Vec::new();
    let mut i: usize = 0;
    while i < v.len()
        invariant
            i <= v@.len(),
            out@.len() == i,
            forall|j: int| 0 <= j < i ==> same_file_language_rule(#[trigger] out@[j], v@[j]),
        decreases v.len() - i,
    {
        out.push(copy_file_language_rule(&v[i]));
        i += 1;
    }
    out
}

pub fn copy_include_rule_list(v: &Vec<IncludeRule>) -> (r: Vec<IncludeRule>)
    ensures
        same_seq_include_rule(r@, v@),
{
    let mut out: Vec<IncludeRule> = Vec::new();
    let mut i: usize = 0;
    while i < v.len()
        invariant
            i <= v@.len(),
            out@.len() == i,
            forall|j: int| 0 <= j < i ==> same_include_rule(#[trigger] out@[j], v@[j]),
        decreases v.len() - i,
    {
        out.push(copy_include_rule(&v[i]));
        i += 1;
    }
    out
}

} // verus!
