//! The configuration types. An unset switch is `None`; each accessor says what it defaults to.

use vstd::prelude::*;
use super::aliases::TypeAliases;

verus! {

/// Conditional include of another configuration file.
#[derive(Debug, Clone, Default)]
pub struct IncludeRule {
    pub path: String,
    pub gitdir: String,
}

/// Remote preset configuration.
#[derive(Debug, Clone, Default)]
pub struct PresetConfig {
    pub url: String,
    pub cache: AllowedWordsCacheConfig,
}

/// Caching of downloaded word lists and presets.
#[derive(Debug, Clone, Default)]
pub struct AllowedWordsCacheConfig {
    pub enabled: Option<bool>,
    pub ttl: String,
    pub dir: String,
}

/// Comment language check.
#[derive(Debug, Clone, Default)]
pub struct CommentLanguageConfig {
    pub enabled: Option<bool>,
    pub required_language: String,
    pub languages: Vec<String>,
    pub extensions: Vec<String>,
    pub min_length: i64,
    pub skip_directives: Vec<String>,
    pub check_mode: String,
    pub ignore_files: Vec<String>,
    pub locale: String,
    pub file_languages: Vec<FileLanguageRule>,
    pub no_emoji: Option<bool>,
    pub check_strings: Option<bool>,
    pub skip_technical_strings: Option<bool>,
    pub allowed_words: Vec<String>,
    pub allowed_words_file: String,
    pub allowed_words_url: String,
    pub allowed_words_cache: AllowedWordsCacheConfig,
}

/// Required language for the files matching a pattern.
#[derive(Debug, Clone, Default)]
pub struct FileLanguageRule {
    pub pattern: String,
    pub locale: String,
    pub language: String,
}

/// Commit message checks.
#[derive(Debug, Clone, Default)]
pub struct CommitMessageConfig {
    pub enabled: Option<bool>,
    pub no_ai_coauthor: Option<bool>,
    pub coauthor_remove_emails: Vec<String>,
    pub no_unicode_spaces: Option<bool>,
    pub no_ambiguous_chars: Option<bool>,
    pub no_bad_runes: Option<bool>,
    pub no_emoji: Option<bool>,
    pub locale: String,
    pub language_check: CommitMessageLanguageConfig,
    pub conventional_commit: ConventionalCommitConfig,
    pub subject_limit: SubjectLimitConfig,
    pub body_line_limit: BodyLineLimitConfig,
}

/// Language of the commit message body.
#[derive(Debug, Clone, Default)]
pub struct CommitMessageLanguageConfig {
    pub enabled: Option<bool>,
    pub locale: String,
    pub required_language: String,
    pub min_length: i64,
    pub skip_prefixes: Vec<String>,
}

/// Conventional Commits format.
#[derive(Debug, Clone, Default)]
pub struct ConventionalCommitConfig {
    pub enabled: Option<bool>,
    pub types: Vec<String>,
    pub type_aliases: TypeAliases,
    pub locale: String,
    pub require_scope: Option<bool>,
    pub allow_merge_commits: Option<bool>,
    pub allow_revert_commits: Option<bool>,
}

/// Length limit of the subject line.
#[derive(Debug, Clone, Default)]
pub struct SubjectLimitConfig {
    pub enabled: Option<bool>,
    pub max_length: i64,
}

/// Length limit of each body line.
#[derive(Debug, Clone, Default)]
pub struct BodyLineLimitConfig {
    pub enabled: Option<bool>,
    pub max_length: i64,
}

/// Binary file detection.
#[derive(Debug, Clone, Default)]
pub struct BinaryFileConfig {
    pub enabled: Option<bool>,
    pub default_policy: String,
    pub rules: Vec<BinaryFilePolicyRule>,
    pub ignore_files: Vec<String>,
}

/// Policy for binary files with the given extensions.
#[derive(Debug, Clone, Default)]
pub struct BinaryFilePolicyRule {
    pub extensions: Vec<String>,
    pub policy: String,
}

/// Lint of data files.
#[derive(Debug, Clone, Default)]
pub struct LintConfig {
    pub enabled: Option<bool>,
    pub yaml: YamlLintConfig,
    pub json: JsonLintConfig,
    pub xml: LintRuleConfig,
    pub toml: LintRuleConfig,
}

/// One lint rule.
#[derive(Debug, Clone, Default)]
pub struct LintRuleConfig {
    pub enabled: Option<bool>,
    pub ignore_files: Vec<String>,
}

/// YAML lint.
#[derive(Debug, Clone, Default)]
pub struct YamlLintConfig {
    pub enabled: Option<bool>,
    pub comment_filter: Option<bool>,
    pub ignore_files: Vec<String>,
}

/// JSON lint.
#[derive(Debug, Clone, Default)]
pub struct JsonLintConfig {
    pub enabled: Option<bool>,
    pub allow_json5: Option<bool>,
    pub comment_filter: Option<bool>,
    pub ignore_files: Vec<String>,
}

/// File encoding check.
#[derive(Debug, Clone, Default)]
pub struct EncodingConfig {
    pub enabled: Option<bool>,
    pub require_utf8: Option<bool>,
    pub no_invisible_chars: Option<bool>,
    pub no_ambiguous_chars: Option<bool>,
    pub locale: String,
    pub ignore_files: Vec<String>,
}

/// `.editorconfig` check.
#[derive(Debug, Clone, Default)]
pub struct EditorConfigConfig {
    pub enabled: Option<bool>,
    pub ignore_files: Vec<String>,
}

/// Exclusion patterns.
#[derive(Debug, Clone, Default)]
pub struct ExceptionsConfig {
    pub global_ignore: Vec<String>,
    pub comment_language_ignore: Vec<String>,
}

/// Paths whose files may only be appended to.
#[derive(Debug, Clone, Default)]
pub struct AppendOnlyConfig {
    pub enabled: bool,
    pub paths: Vec<String>,
    pub filename_order: String,
}

/// Paths that may not be changed.
#[derive(Debug, Clone, Default)]
pub struct ProtectedPathsConfig {
    pub enabled: bool,
    pub paths: Vec<String>,
}

/// Cache and build directory check.
#[derive(Debug, Clone, Default)]
pub struct CacheDirConfig {
    pub enabled: Option<bool>,
    pub ignore_dirs: Vec<String>,
}

/// Improvement guide output.
#[derive(Debug, Clone, Default)]
pub struct GuideConfig {
    pub enabled: Option<bool>,
}

/// Regular-expression rules.
#[derive(Debug, Clone, Default)]
pub struct CustomRulesConfig {
    pub commit_message: Vec<CustomRule>,
    pub diff: Vec<CustomRule>,
}

/// One regular-expression rule: forbidden when `required` is false, required otherwise.
#[derive(Debug, Clone, Default)]
pub struct CustomRule {
    pub name: String,
    pub pattern: String,
    pub message: String,
    pub required: bool,
}

/// The whole configuration.
#[derive(Debug, Clone, Default)]
pub struct Config {
    pub enabled: Option<bool>,
    pub includes: Vec<IncludeRule>,
    pub preset: PresetConfig,
    pub comment_language: CommentLanguageConfig,
    pub commit_message: CommitMessageConfig,
    pub binary_file: BinaryFileConfig,
    pub lint: LintConfig,
    pub encoding: EncodingConfig,
    pub editorconfig: EditorConfigConfig,
    pub exceptions: ExceptionsConfig,
    pub custom_rules: CustomRulesConfig,
    pub protected_paths: ProtectedPathsConfig,
    pub append_only: AppendOnlyConfig,
    pub cache_dir: CacheDirConfig,
    pub guide: GuideConfig,
}

/// Whether two values agree field by field (strings and lists by their contents).
pub open spec fn same_include_rule(a: IncludeRule, b: IncludeRule) -> bool {
    a.path == b.path
    && a.gitdir == b.gitdir
}

/// Whether two values agree field by field (strings and lists by their contents).
pub open spec fn same_preset_config(a: PresetConfig, b: PresetConfig) -> bool {
    a.url == b.url
    && same_allowed_words_cache_config(a.cache, b.cache)
}

/// Whether two values agree field by field (strings and lists by their contents).
pub open spec fn same_allowed_words_cache_config(a: AllowedWordsCacheConfig, b: AllowedWordsCacheConfig) -> bool {
    a.enabled == b.enabled
    && a.ttl == b.ttl
    && a.dir == b.dir
}

/// Whether two values agree field by field (strings and lists by their contents).
pub open spec fn same_comment_language_config(a: CommentLanguageConfig, b: CommentLanguageConfig) -> bool {
    a.enabled == b.enabled
    && a.required_language == b.required_language
    && a.languages@ == b.languages@
    && a.extensions@ == b.extensions@
    && a.min_length == b.min_length
    && a.skip_directives@ == b.skip_directives@
    && a.check_mode == b.check_mode
    && a.ignore_files@ == b.ignore_files@
    && a.locale == b.locale
    && same_seq_file_language_rule(a.file_languages@, b.file_languages@)
    && a.no_emoji == b.no_emoji
    && a.check_strings == b.check_strings
    && a.skip_technical_strings == b.skip_technical_strings
    && a.allowed_words@ == b.allowed_words@
    && a.allowed_words_file == b.allowed_words_file
    && a.allowed_words_url == b.allowed_words_url
    && same_allowed_words_cache_config(a.allowed_words_cache, b.allowed_words_cache)
}

/// Whether two values agree field by field (strings and lists by their contents).
pub open spec fn same_file_language_rule(a: FileLanguageRule, b: FileLanguageRule) -> bool {
    a.pattern == b.pattern
    && a.locale == b.locale
    && a.language == b.language
}

/// Whether two values agree field by field (strings and lists by their contents).
pub open spec fn same_commit_message_config(a: CommitMessageConfig, b: CommitMessageConfig) -> bool {
    a.enabled == b.enabled
    && a.no_ai_coauthor == b.no_ai_coauthor
    && a.coauthor_remove_emails@ == b.coauthor_remove_emails@
    && a.no_unicode_spaces == b.no_unicode_spaces
    && a.no_ambiguous_chars == b.no_ambiguous_chars
    && a.no_bad_runes == b.no_bad_runes
    && a.no_emoji == b.no_emoji
    && a.locale == b.locale
    && same_commit_message_language_config(a.language_check, b.language_check)
    && same_conventional_commit_config(a.conventional_commit, b.conventional_commit)
    && same_subject_limit_config(a.subject_limit, b.subject_limit)
    && same_body_line_limit_config(a.body_line_limit, b.body_line_limit)
}

/// Whether two values agree field by field (strings and lists by their contents).
pub open spec fn same_commit_message_language_config(a: CommitMessageLanguageConfig, b: CommitMessageLanguageConfig) -> bool {
    a.enabled == b.enabled
    && a.locale == b.locale
    && a.required_language == b.required_language
    && a.min_length == b.min_length
    && a.skip_prefixes@ == b.skip_prefixes@
}

/// Whether two values agree field by field (strings and lists by their contents).
pub open spec fn same_conventional_commit_config(a: ConventionalCommitConfig, b: ConventionalCommitConfig) -> bool {
    a.enabled == b.enabled
    && a.types@ == b.types@
    && a.type_aliases.view() == b.type_aliases.view()
    && a.locale == b.locale
    && a.require_scope == b.require_scope
    && a.allow_merge_commits == b.allow_merge_commits
    && a.allow_revert_commits == b.allow_revert_commits
}

/// Whether two values agree field by field (strings and lists by their contents).
pub open spec fn same_subject_limit_config(a: SubjectLimitConfig, b: SubjectLimitConfig) -> bool {
    a.enabled == b.enabled
    && a.max_length == b.max_length
}

/// Whether two values agree field by field (strings and lists by their contents).
pub open spec fn same_body_line_limit_config(a: BodyLineLimitConfig, b: BodyLineLimitConfig) -> bool {
    a.enabled == b.enabled
    && a.max_length == b.max_length
}

/// Whether two values agree field by field (strings and lists by their contents).
pub open spec fn same_binary_file_config(a: BinaryFileConfig, b: BinaryFileConfig) -> bool {
    a.enabled == b.enabled
    && a.default_policy == b.default_policy
    && same_seq_binary_file_policy_rule(a.rules@, b.rules@)
    && a.ignore_files@ == b.ignore_files@
}

/// Whether two values agree field by field (strings and lists by their contents).
pub open spec fn same_binary_file_policy_rule(a: BinaryFilePolicyRule, b: BinaryFilePolicyRule) -> bool {
    a.extensions@ == b.extensions@
    && a.policy == b.policy
}

/// Whether two values agree field by field (strings and lists by their contents).
pub open spec fn same_lint_config(a: LintConfig, b: LintConfig) -> bool {
    a.enabled == b.enabled
    && same_yaml_lint_config(a.yaml, b.yaml)
    && same_json_lint_config(a.json, b.json)
    && same_lint_rule_config(a.xml, b.xml)
    && same_lint_rule_config(a.toml, b.toml)
}

/// Whether two values agree field by field (strings and lists by their contents).
pub open spec fn same_lint_rule_config(a: LintRuleConfig, b: LintRuleConfig) -> bool {
    a.enabled == b.enabled
    && a.ignore_files@ == b.ignore_files@
}

/// Whether two values agree field by field (strings and lists by their contents).
pub open spec fn same_yaml_lint_config(a: YamlLintConfig, b: YamlLintConfig) -> bool {
    a.enabled == b.enabled
    && a.comment_filter == b.comment_filter
    && a.ignore_files@ == b.ignore_files@
}

/// Whether two values agree field by field (strings and lists by their contents).
pub open spec fn same_json_lint_config(a: JsonLintConfig, b: JsonLintConfig) -> bool {
    a.enabled == b.enabled
    && a.allow_json5 == b.allow_json5
    && a.comment_filter == b.comment_filter
    && a.ignore_files@ == b.ignore_files@
}

/// Whether two values agree field by field (strings and lists by their contents).
pub open spec fn same_encoding_config(a: EncodingConfig, b: EncodingConfig) -> bool {
    a.enabled == b.enabled
    && a.require_utf8 == b.require_utf8
    && a.no_invisible_chars == b.no_invisible_chars
    && a.no_ambiguous_chars == b.no_ambiguous_chars
    && a.locale == b.locale
    && a.ignore_files@ == b.ignore_files@
}

/// Whether two values agree field by field (strings and lists by their contents).
pub open spec fn same_editor_config_config(a: EditorConfigConfig, b: EditorConfigConfig) -> bool {
    a.enabled == b.enabled
    && a.ignore_files@ == b.ignore_files@
}

/// Whether two values agree field by field (strings and lists by their contents).
pub open spec fn same_exceptions_config(a: ExceptionsConfig, b: ExceptionsConfig) -> bool {
    a.global_ignore@ == b.global_ignore@
    && a.comment_language_ignore@ == b.comment_language_ignore@
}

/// Whether two values agree field by field (strings and lists by their contents).
pub open spec fn same_append_only_config(a: AppendOnlyConfig, b: AppendOnlyConfig) -> bool {
    a.enabled == b.enabled
    && a.paths@ == b.paths@
    && a.filename_order == b.filename_order
}

/// Whether two values agree field by field (strings and lists by their contents).
pub open spec fn same_protected_paths_config(a: ProtectedPathsConfig, b: ProtectedPathsConfig) -> bool {
    a.enabled == b.enabled
    && a.paths@ == b.paths@
}

/// Whether two values agree field by field (strings and lists by their contents).
pub open spec fn same_cache_dir_config(a: CacheDirConfig, b: CacheDirConfig) -> bool {
    a.enabled == b.enabled
    && a.ignore_dirs@ == b.ignore_dirs@
}

/// Whether two values agree field by field (strings and lists by their contents).
pub open spec fn same_guide_config(a: GuideConfig, b: GuideConfig) -> bool {
    a.enabled == b.enabled
}

/// Whether two values agree field by field (strings and lists by their contents).
pub open spec fn same_custom_rules_config(a: CustomRulesConfig, b: CustomRulesConfig) -> bool {
    same_seq_custom_rule(a.commit_message@, b.commit_message@)
    && same_seq_custom_rule(a.diff@, b.diff@)
}

/// Whether two values agree field by field (strings and lists by their contents).
pub open spec fn same_custom_rule(a: CustomRule, b: CustomRule) -> bool {
    a.name == b.name
    && a.pattern == b.pattern
    && a.message == b.message
    && a.required == b.required
}

/// Whether two values agree field by field (strings and lists by their contents).
pub open spec fn same_config(a: Config, b: Config) -> bool {
    a.enabled == b.enabled
    && same_seq_include_rule(a.includes@, b.includes@)
    && same_preset_config(a.preset, b.preset)
    && same_comment_language_config(a.comment_language, b.comment_language)
    && same_commit_message_config(a.commit_message, b.commit_message)
    && same_binary_file_config(a.binary_file, b.binary_file)
    && same_lint_config(a.lint, b.lint)
    && same_encoding_config(a.encoding, b.encoding)
    && same_editor_config_config(a.editorconfig, b.editorconfig)
    && same_exceptions_config(a.exceptions, b.exceptions)
    && same_custom_rules_config(a.custom_rules, b.custom_rules)
    && same_protected_paths_config(a.protected_paths, b.protected_paths)
    && same_append_only_config(a.append_only, b.append_only)
    && same_cache_dir_config(a.cache_dir, b.cache_dir)
    && same_guide_config(a.guide, b.guide)
}

pub open spec fn same_seq_binary_file_policy_rule(a: Seq<BinaryFilePolicyRule>, b: Seq<BinaryFilePolicyRule>) -> bool {
    a.len() == b.len() && forall|i: int| 0 <= i < a.len() ==> same_binary_file_policy_rule(#[trigger] a[i], b[i])
}

pub open spec fn same_seq_custom_rule(a: Seq<CustomRule>, b: Seq<CustomRule>) -> bool {
    a.len() == b.len() && forall|i: int| 0 <= i < a.len() ==> same_custom_rule(#[trigger] a[i], b[i])
}

pub open spec fn same_seq_file_language_rule(a: Seq<FileLanguageRule>, b: Seq<FileLanguageRule>) -> bool {
    a.len() == b.len() && forall|i: int| 0 <= i < a.len() ==> same_file_language_rule(#[trigger] a[i], b[i])
}

pub open spec fn same_seq_include_rule(a: Seq<IncludeRule>, b: Seq<IncludeRule>) -> bool {
    a.len() == b.len() && forall|i: int| 0 <= i < a.len() ==> same_include_rule(#[trigger] a[i], b[i])
}

} // verus!
