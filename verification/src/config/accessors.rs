//! Getters of the configuration with their defaults, and the built-in lists they fall back on.

use vstd::prelude::*;
use super::aliases::{entry_get, keys_sorted, TypeAliases};
use super::copy::copy_strings;
use super::types::{
    AllowedWordsCacheConfig, AppendOnlyConfig, BinaryFileConfig, BodyLineLimitConfig,
    CacheDirConfig, CommentLanguageConfig, CommitMessageConfig, CommitMessageLanguageConfig,
    Config, ConventionalCommitConfig, EditorConfigConfig, EncodingConfig, FileLanguageRule,
    GuideConfig, JsonLintConfig, LintConfig, LintRuleConfig, ProtectedPathsConfig,
    SubjectLimitConfig, YamlLintConfig,
};
use crate::langdetect::{normalize_locale, normalized_locale, KOREAN};
use crate::pathutil::{fnmatch, glob_match};
use crate::text::{
    chars_of, lowercase, owned, rfind_char, rfind_char_spec, slice_chars, str_eq, string_of,
    trim_seq, trim_str, lower_chars,
};

verus! {

/// The value of an optional switch, or `d` when it is unset.
pub open spec fn opt_or(o: Option<bool>, d: bool) -> bool {
    match o {
        Some(b) => b,
        None => d,
    }
}

pub open spec fn strs(v: Seq<String>) -> Seq<Seq<char>> {
    v.map_values(|s: String| s@)
}

/// Owned strings of a list of string slices.
pub fn owned_all(v: &[&str]) -> (r: Vec<String>)
    ensures
        strs(r@) == v@.map_values(|s: &str| s@),
{
    let mut out: Vec<String> = Vec::new();
    let mut i: usize = 0;
    while i < v.len()
        invariant
            i <= v@.len(),
            strs(out@) == v@.take(i as int).map_values(|s: &str| s@),
        decreases v.len() - i,
    {
        let s = owned(v[i]);
        proof {
            assert(strs(out@.push(s)) =~= strs(out@).push(s@));
            assert(v@.take(i + 1).map_values(|s: &str| s@) =~= v@.take(i as int).map_values(
                |s: &str| s@,
            ).push(v@[i as int]@));
        }
        out.push(s);
        i += 1;
    }
    assert(v@.take(v@.len() as int) =~= v@);
    out
}

// ---------------------------------------------------------------------------
// Built-in lists.
// ---------------------------------------------------------------------------

/// The standard Conventional Commits types.
pub open spec fn default_types_spec() -> Seq<Seq<char>> {
    seq![
        "feat"@,
        "fix"@,
        "docs"@,
        "style"@,
        "refactor"@,
        "perf"@,
        "test"@,
        "build"@,
        "ci"@,
        "chore"@,
        "revert"@,
    ]
}

/// The standard Conventional Commits types.
pub fn default_conventional_types() -> (r: Vec<String>)
    ensures
        strs(r@) == default_types_spec(),
{
    let v = [
        "feat",
        "fix",
        "docs",
        "style",
        "refactor",
        "perf",
        "test",
        "build",
        "ci",
        "chore",
        "revert",
    ];
    let r = owned_all(&v);
    assert(strs(r@) =~= default_types_spec());
    r
}

/// E-mail patterns of AI tools.
pub open spec fn ai_coauthor_patterns() -> Seq<Seq<char>> {
    seq![
        "*copilot*@*"@,
        "noreply@anthropic.com"@,
        "*@cursor.sh"@,
        "*@codeium.com"@,
        "*@tabnine.com"@,
        "*amazon-q*@*"@,
        "*@sourcegraph.com"@,
        "*gemini*@*"@,
    ]
}

/// E-mail patterns of AI tools.
pub fn builtin_ai_coauthor_patterns() -> (r: Vec<String>)
    ensures
        strs(r@) == ai_coauthor_patterns(),
{
    let v = [
        "*copilot*@*",
        "noreply@anthropic.com",
        "*@cursor.sh",
        "*@codeium.com",
        "*@tabnine.com",
        "*amazon-q*@*",
        "*@sourcegraph.com",
        "*gemini*@*",
    ];
    let r = owned_all(&v);
    assert(strs(r@) =~= ai_coauthor_patterns());
    r
}

/// Image extensions that binary checks allow by default.
pub open spec fn image_extensions() -> Seq<Seq<char>> {
    seq![
        ".png"@,
        ".jpg"@,
        ".jpeg"@,
        ".gif"@,
        ".webp"@,
        ".bmp"@,
        ".ico"@,
        ".tiff"@,
        ".tif"@,
        ".heic"@,
        ".heif"@,
        ".avif"@,
    ]
}

/// Image extensions that binary checks allow by default.
pub fn builtin_image_extensions() -> (r: Vec<String>)
    ensures
        strs(r@) == image_extensions(),
{
    let v = [
        ".png",
        ".jpg",
        ".jpeg",
        ".gif",
        ".webp",
        ".bmp",
        ".ico",
        ".tiff",
        ".tif",
        ".heic",
        ".heif",
        ".avif",
    ];
    let r = owned_all(&v);
    assert(strs(r@) =~= image_extensions());
    r
}

/// Localized type names and the standard types they stand for, by locale (`ko`, `ja`, `zh`).
pub open spec fn localized_types_spec(locale: Seq<char>) -> Option<Seq<(Seq<char>, Seq<char>)>> {
    if locale == "ko"@ {
        Some(
            seq![
                ("기능"@, "feat"@),
                ("수정"@, "fix"@),
                ("문서"@, "docs"@),
                ("스타일"@, "style"@),
                ("리팩터"@, "refactor"@),
                ("리팩토링"@, "refactor"@),
                ("성능"@, "perf"@),
                ("테스트"@, "test"@),
                ("빌드"@, "build"@),
                ("배포"@, "ci"@),
                ("잡일"@, "chore"@),
                ("되돌리기"@, "revert"@),
            ],
        )
    } else if locale == "ja"@ {
        Some(
            seq![
                ("機能"@, "feat"@),
                ("修正"@, "fix"@),
                ("ドキュメント"@, "docs"@),
                ("スタイル"@, "style"@),
                ("リファクタリング"@, "refactor"@),
                ("パフォーマンス"@, "perf"@),
                ("テスト"@, "test"@),
                ("ビルド"@, "build"@),
                ("デプロイ"@, "ci"@),
                ("雑務"@, "chore"@),
                ("リバート"@, "revert"@),
            ],
        )
    } else if locale == "zh"@ {
        Some(
            seq![
                ("功能"@, "feat"@),
                ("修复"@, "fix"@),
                ("文档"@, "docs"@),
                ("样式"@, "style"@),
                ("重构"@, "refactor"@),
                ("性能"@, "perf"@),
                ("测试"@, "test"@),
                ("构建"@, "build"@),
                ("部署"@, "ci"@),
                ("杂务"@, "chore"@),
                ("回退"@, "revert"@),
            ],
        )
    } else {
        None
    }
}

pub open spec fn pair_views(v: Seq<(&str, &str)>) -> Seq<(Seq<char>, Seq<char>)> {
    v.map_values(|p: (&str, &str)| (p.0@, p.1@))
}

/// The localized type names of a locale, paired with the standard types they stand for.
pub fn localized_conventional_types(locale: &str) -> (r: Option<Vec<(&'static str, &'static str)>>)
    ensures
        r matches Some(v) ==> localized_types_spec(locale@) == Some(pair_views(v@)),
        r is None ==> localized_types_spec(locale@) is None,
{
    if str_eq(locale, "ko") {
        let v = vec![
            ("기능", "feat"),
            ("수정", "fix"),
            ("문서", "docs"),
            ("스타일", "style"),
            ("리팩터", "refactor"),
            ("리팩토링", "refactor"),
            ("성능", "perf"),
            ("테스트", "test"),
            ("빌드", "build"),
            ("배포", "ci"),
            ("잡일", "chore"),
            ("되돌리기", "revert"),
        ];
        assert(localized_types_spec(locale@) == Some(pair_views(v@))) by {
            assert(pair_views(v@) =~= localized_types_spec(locale@)->0);
        }
        Some(v)
    } else if str_eq(locale, "ja") {
        let v = vec![
            ("機能", "feat"),
            ("修正", "fix"),
            ("ドキュメント", "docs"),
            ("スタイル", "style"),
            ("リファクタリング", "refactor"),
            ("パフォーマンス", "perf"),
            ("テスト", "test"),
            ("ビルド", "build"),
            ("デプロイ", "ci"),
            ("雑務", "chore"),
            ("リバート", "revert"),
        ];
        assert(localized_types_spec(locale@) == Some(pair_views(v@))) by {
            assert(pair_views(v@) =~= localized_types_spec(locale@)->0);
        }
        Some(v)
    } else if str_eq(locale, "zh") {
        let v = vec![
            ("功能", "feat"),
            ("修复", "fix"),
            ("文档", "docs"),
            ("样式", "style"),
            ("重构", "refactor"),
            ("性能", "perf"),
            ("测试", "test"),
            ("构建", "build"),
            ("部署", "ci"),
            ("杂务", "chore"),
            ("回退", "revert"),
        ];
        assert(localized_types_spec(locale@) == Some(pair_views(v@))) by {
            assert(pair_views(v@) =~= localized_types_spec(locale@)->0);
        }
        Some(v)
    } else {
        None
    }
}

// ---------------------------------------------------------------------------
// Switches.
// ---------------------------------------------------------------------------

impl Config {
    /// Whether the checks are enabled at all (default yes).
    pub fn is_enabled(&self) -> (r: bool)
        ensures
            r == opt_or(self.enabled, true),
    {
        match self.enabled {
            Some(b) => b,
            None => true,
        }
    }
}

impl CommentLanguageConfig {
    /// Whether the comment language check runs (default yes).
    pub fn is_enabled(&self) -> (r: bool)
        ensures
            r == opt_or(self.enabled, true),
    {
        match self.enabled {
            Some(b) => b,
            None => true,
        }
    }

    /// Whether emoji in comments are reported (default no).
    pub fn is_no_emoji(&self) -> (r: bool)
        ensures
            r == opt_or(self.no_emoji, false),
    {
        match self.no_emoji {
            Some(b) => b,
            None => false,
        }
    }

    /// Whether string literals are checked too (default no).
    pub fn is_check_strings(&self) -> (r: bool)
        ensures
            r == opt_or(self.check_strings, false),
    {
        match self.check_strings {
            Some(b) => b,
            None => false,
        }
    }

    /// Whether technical strings are skipped (default yes).
    pub fn is_skip_technical_strings(&self) -> (r: bool)
        ensures
            r == opt_or(self.skip_technical_strings, true),
    {
        match self.skip_technical_strings {
            Some(b) => b,
            None => true,
        }
    }
}

impl CommitMessageLanguageConfig {
    /// Whether the commit message language check runs (default no).
    pub fn is_enabled(&self) -> (r: bool)
        ensures
            r == opt_or(self.enabled, false),
    {
        match self.enabled {
            Some(b) => b,
            None => false,
        }
    }
}

impl ConventionalCommitConfig {
    /// Whether the Conventional Commits check runs (default no).
    pub fn is_enabled(&self) -> (r: bool)
        ensures
            r == opt_or(self.enabled, false),
    {
        match self.enabled {
            Some(b) => b,
            None => false,
        }
    }

    /// Whether a scope is required (default no).
    pub fn is_require_scope(&self) -> (r: bool)
        ensures
            r == opt_or(self.require_scope, false),
    {
        match self.require_scope {
            Some(b) => b,
            None => false,
        }
    }

    /// Whether merge commits are exempt (default yes).
    pub fn is_allow_merge_commits(&self) -> (r: bool)
        ensures
            r == opt_or(self.allow_merge_commits, true),
    {
        match self.allow_merge_commits {
            Some(b) => b,
            None => true,
        }
    }

    /// Whether revert commits are exempt (default yes).
    pub fn is_allow_revert_commits(&self) -> (r: bool)
        ensures
            r == opt_or(self.allow_revert_commits, true),
    {
        match self.allow_revert_commits {
            Some(b) => b,
            None => true,
        }
    }
}

impl SubjectLimitConfig {
    /// Whether the subject length limit applies (default no).
    pub fn is_enabled(&self) -> (r: bool)
        ensures
            r == opt_or(self.enabled, false),
    {
        match self.enabled {
            Some(b) => b,
            None => false,
        }
    }
}

impl BodyLineLimitConfig {
    /// Whether the body line length limit applies (default no).
    pub fn is_enabled(&self) -> (r: bool)
        ensures
            r == opt_or(self.enabled, false),
    {
        match self.enabled {
            Some(b) => b,
            None => false,
        }
    }
}

impl CommitMessageConfig {
    /// Whether commit messages are checked (default yes).
    pub fn is_enabled(&self) -> (r: bool)
        ensures
            r == opt_or(self.enabled, true),
    {
        match self.enabled {
            Some(b) => b,
            None => true,
        }
    }

    /// Whether AI co-author trailers are reported (default yes).
    pub fn is_no_ai_coauthor(&self) -> (r: bool)
        ensures
            r == opt_or(self.no_ai_coauthor, true),
    {
        match self.no_ai_coauthor {
            Some(b) => b,
            None => true,
        }
    }

    /// Whether invisible characters are reported (default yes).
    pub fn is_no_unicode_spaces(&self) -> (r: bool)
        ensures
            r == opt_or(self.no_unicode_spaces, true),
    {
        match self.no_unicode_spaces {
            Some(b) => b,
            None => true,
        }
    }

    /// Whether confusable characters are reported (default yes).
    pub fn is_no_ambiguous_chars(&self) -> (r: bool)
        ensures
            r == opt_or(self.no_ambiguous_chars, true),
    {
        match self.no_ambiguous_chars {
            Some(b) => b,
            None => true,
        }
    }

    /// Whether invalid UTF-8 is reported (default yes).
    pub fn is_no_bad_runes(&self) -> (r: bool)
        ensures
            r == opt_or(self.no_bad_runes, true),
    {
        match self.no_bad_runes {
            Some(b) => b,
            None => true,
        }
    }

    /// Whether emoji are reported (default no).
    pub fn is_no_emoji(&self) -> (r: bool)
        ensures
            r == opt_or(self.no_emoji, false),
    {
        match self.no_emoji {
            Some(b) => b,
            None => false,
        }
    }
}

impl BinaryFileConfig {
    /// Whether binary files are checked (default yes).
    pub fn is_enabled(&self) -> (r: bool)
        ensures
            r == opt_or(self.enabled, true),
    {
        match self.enabled {
            Some(b) => b,
            None => true,
        }
    }
}

impl LintConfig {
    /// Whether data files are linted (default yes).
    pub fn is_enabled(&self) -> (r: bool)
        ensures
            r == opt_or(self.enabled, true),
    {
        match self.enabled {
            Some(b) => b,
            None => true,
        }
    }
}

impl LintRuleConfig {
    /// Whether the rule runs (default yes).
    pub fn is_enabled(&self) -> (r: bool)
        ensures
            r == opt_or(self.enabled, true),
    {
        match self.enabled {
            Some(b) => b,
            None => true,
        }
    }
}

impl YamlLintConfig {
    /// Whether YAML files are linted (default yes).
    pub fn is_enabled(&self) -> (r: bool)
        ensures
            r == opt_or(self.enabled, true),
    {
        match self.enabled {
            Some(b) => b,
            None => true,
        }
    }

    /// Whether YAML comments are filtered (default no).
    pub fn is_comment_filter(&self) -> (r: bool)
        ensures
            r == opt_or(self.comment_filter, false),
    {
        match self.comment_filter {
            Some(b) => b,
            None => false,
        }
    }
}

impl JsonLintConfig {
    /// Whether JSON files are linted (default yes).
    pub fn is_enabled(&self) -> (r: bool)
        ensures
            r == opt_or(self.enabled, true),
    {
        match self.enabled {
            Some(b) => b,
            None => true,
        }
    }

    /// Whether JSON5 syntax is accepted (default no).
    pub fn is_allow_json5(&self) -> (r: bool)
        ensures
            r == opt_or(self.allow_json5, false),
    {
        match self.allow_json5 {
            Some(b) => b,
            None => false,
        }
    }

    /// Whether JSON comments are filtered (default no).
    pub fn is_comment_filter(&self) -> (r: bool)
        ensures
            r == opt_or(self.comment_filter, false),
    {
        match self.comment_filter {
            Some(b) => b,
            None => false,
        }
    }
}

impl EncodingConfig {
    /// Whether file encodings are checked (default yes).
    pub fn is_enabled(&self) -> (r: bool)
        ensures
            r == opt_or(self.enabled, true),
    {
        match self.enabled {
            Some(b) => b,
            None => true,
        }
    }

    /// Whether UTF-8 is required (default yes).
    pub fn is_require_utf8(&self) -> (r: bool)
        ensures
            r == opt_or(self.require_utf8, true),
    {
        match self.require_utf8 {
            Some(b) => b,
            None => true,
        }
    }

    /// Whether invisible characters in files are reported (default no).
    pub fn is_no_invisible_chars(&self) -> (r: bool)
        ensures
            r == opt_or(self.no_invisible_chars, false),
    {
        match self.no_invisible_chars {
            Some(b) => b,
            None => false,
        }
    }

    /// Whether confusable characters in files are reported (default no).
    pub fn is_no_ambiguous_chars(&self) -> (r: bool)
        ensures
            r == opt_or(self.no_ambiguous_chars, false),
    {
        match self.no_ambiguous_chars {
            Some(b) => b,
            None => false,
        }
    }
}

impl EditorConfigConfig {
    /// Whether `.editorconfig` rules are checked (default yes).
    pub fn is_enabled(&self) -> (r: bool)
        ensures
            r == opt_or(self.enabled, true),
    {
        match self.enabled {
            Some(b) => b,
            None => true,
        }
    }
}

impl CacheDirConfig {
    /// Whether cache directories are checked (default yes).
    pub fn is_enabled(&self) -> (r: bool)
        ensures
            r == opt_or(self.enabled, true),
    {
        match self.enabled {
            Some(b) => b,
            None => true,
        }
    }
}

impl GuideConfig {
    /// Whether improvement guides are printed (default yes).
    pub fn is_enabled(&self) -> (r: bool)
        ensures
            r == opt_or(self.enabled, true),
    {
        match self.enabled {
            Some(b) => b,
            None => true,
        }
    }
}

impl AllowedWordsCacheConfig {
    /// Whether downloaded word lists are cached (default no).
    pub fn is_enabled(&self) -> (r: bool)
        ensures
            r == opt_or(self.enabled, false),
    {
        match self.enabled {
            Some(b) => b,
            None => false,
        }
    }
}

// ---------------------------------------------------------------------------
// Locales.
// ---------------------------------------------------------------------------

/// The first of the candidate values that normalises to a language, else Korean.
pub open spec fn first_locale(a: Seq<char>, b: Seq<char>) -> Seq<char> {
    if normalized_locale(a).len() > 0 {
        normalized_locale(a)
    } else if normalized_locale(b).len() > 0 {
        normalized_locale(b)
    } else {
        KOREAN@
    }
}

impl FileLanguageRule {
    /// The rule's language: `locale` if it normalises to one, otherwise `language` normalised
    /// (possibly empty).
    pub fn get_locale(&self) -> (r: String)
        ensures
            r@ == (if normalized_locale(self.locale@).len() > 0 {
                normalized_locale(self.locale@)
            } else {
                normalized_locale(self.language@)
            }),
    {
        let v = normalize_locale(self.locale.as_str());
        if chars_of(v.as_str()).len() > 0 {
            return v;
        }
        normalize_locale(self.language.as_str())
    }
}

impl CommentLanguageConfig {
    /// The required language: `locale`, else `required_language`, else Korean.
    pub fn get_locale(&self) -> (r: String)
        ensures
            r@ == first_locale(self.locale@, self.required_language@),
    {
        let v = normalize_locale(self.locale.as_str());
        if chars_of(v.as_str()).len() > 0 {
            return v;
        }
        let v = normalize_locale(self.required_language.as_str());
        if chars_of(v.as_str()).len() > 0 {
            return v;
        }
        owned(KOREAN)
    }

    /// Whether every file is checked (`check_mode` is `"full"`) rather than the diff.
    pub fn is_full_mode(&self) -> (r: bool)
        ensures
            r == (self.check_mode@ == "full"@),
    {
        str_eq(self.check_mode.as_str(), "full")
    }
}

impl CommitMessageLanguageConfig {
    /// The required language: `locale`, else `required_language`, else Korean.
    pub fn get_locale(&self) -> (r: String)
        ensures
            r@ == first_locale(self.locale@, self.required_language@),
    {
        let v = normalize_locale(self.locale.as_str());
        if chars_of(v.as_str()).len() > 0 {
            return v;
        }
        let v = normalize_locale(self.required_language.as_str());
        if chars_of(v.as_str()).len() > 0 {
            return v;
        }
        owned(KOREAN)
    }
}

// ---------------------------------------------------------------------------
// Conventional commit types.
// ---------------------------------------------------------------------------

/// The value of the last pair with key `k`.
pub open spec fn pairs_last(p: Seq<(Seq<char>, Seq<char>)>, k: Seq<char>) -> Option<Seq<char>>
    decreases p.len(),
{
    if p.len() == 0 {
        None
    } else if p.last().0 == k {
        Some(p.last().1)
    } else {
        pairs_last(p.drop_last(), k)
    }
}

/// The standard type an alias stands for: the configured aliases when there are any,
/// otherwise the localized names of the configured locale.
pub open spec fn alias_lookup(c: ConventionalCommitConfig, k: Seq<char>) -> Option<Seq<char>> {
    if c.type_aliases.view().len() > 0 {
        entry_get(c.type_aliases.view(), k)
    } else if c.locale@.len() > 0 && localized_types_spec(c.locale@) is Some {
        pairs_last(localized_types_spec(c.locale@)->0, k)
    } else {
        None
    }
}

/// The configured types, or the standard ones when none are configured.
pub open spec fn types_spec(c: ConventionalCommitConfig) -> Seq<Seq<char>> {
    if c.types@.len() > 0 {
        strs(c.types@)
    } else {
        default_types_spec()
    }
}

/// Whether `ks` lists the aliases in ascending order.
pub open spec fn alias_keys_ok(c: ConventionalCommitConfig, ks: Seq<Seq<char>>) -> bool {
    &&& super::aliases::strictly_sorted(ks)
    &&& forall|k: Seq<char>| ks.contains(k) <==> alias_lookup(c, k) is Some
}

/// The aliases in ascending order.
pub open spec fn alias_keys(c: ConventionalCommitConfig) -> Seq<Seq<char>> {
    choose|ks: Seq<Seq<char>>| alias_keys_ok(c, ks)
}

/// The allowed types: the types followed by the aliases in ascending order.
pub open spec fn allowed_types_spec(c: ConventionalCommitConfig) -> Seq<Seq<char>> {
    types_spec(c) + alias_keys(c)
}

/// A map holding the given pairs (a later pair wins over an earlier one with the same key).
pub fn aliases_from_pairs(p: &Vec<(&'static str, &'static str)>) -> (r: TypeAliases)
    ensures
        forall|k: Seq<char>| entry_get(r.view(), k) == pairs_last(pair_views(p@), k),
        keys_sorted(r.view()),
{
    let mut m = TypeAliases::new();
    let mut i: usize = 0;
    while i < p.len()
        invariant
            i <= p@.len(),
            forall|k: Seq<char>| entry_get(m.view(), k) == pairs_last(pair_views(p@.take(i as int)), k),
        decreases p.len() - i,
    {
        let (a, b) = p[i];
        let ghost before = m.view();
        m.insert(owned(a), owned(b));
        proof {
            assert(pair_views(p@.take(i + 1)).drop_last() =~= pair_views(p@.take(i as int)));
            assert(pair_views(p@.take(i + 1)).last() == (a@, b@));
        }
        i += 1;
    }
    assert(p@.take(p@.len() as int) =~= p@);
    proof {
        use_type_invariant(&m);
    }
    m
}

impl ConventionalCommitConfig {
    /// The configured types, or the standard ones when none are configured.
    pub fn get_types(&self) -> (r: Vec<String>)
        ensures
            strs(r@) == types_spec(*self),
    {
        if self.types.len() > 0 {
            return copy_strings(&self.types);
        }
        default_conventional_types()
    }

    /// The aliases: the configured ones, else the localized names of `locale`, else none.
    pub fn get_type_aliases(&self) -> (r: TypeAliases)
        ensures
            forall|k: Seq<char>| entry_get(r.view(), k) == alias_lookup(*self, k),
            keys_sorted(r.view()),
    {
        if !self.type_aliases.is_empty() {
            let r = self.type_aliases.clone();
            proof {
                use_type_invariant(&r);
            }
            return r;
        }
        if chars_of(self.locale.as_str()).len() > 0 {
            match localized_conventional_types(self.locale.as_str()) {
                Some(m) => {
                    return aliases_from_pairs(&m);
                },
                None => {},
            }
        }
        let r = TypeAliases::new();
        proof {
            use_type_invariant(&r);
        }
        r
    }

    /// The allowed types: the types followed by the aliases in ascending order.
    pub fn get_all_allowed_types(&self) -> (r: Vec<String>)
        ensures
            strs(r@) == allowed_types_spec(*self),
    {
        let types = self.get_types();
        let aliases = self.get_type_aliases();
        let keys = aliases.keys();
        let ghost kv = aliases.view().map_values(|e: (Seq<char>, Seq<char>)| e.0);
        proof {
            assert forall|k: Seq<char>| kv.contains(k) <==> alias_lookup(*self, k) is Some by {
                if kv.contains(k) {
                    let i = choose|i: int| 0 <= i < kv.len() && kv[i] == k;
                    assert(aliases.view()[i].0 == k);
                }
                if alias_lookup(*self, k) is Some {
                    assert(entry_get(aliases.view(), k) is Some);
                    let i = choose|i: int| 0 <= i < aliases.view().len() && aliases.view()[i].0 == k;
                    assert(kv[i] == k);
                }
            }
        }
        let mut all = types;
        let ghost n = all@.len();
        let mut i: usize = 0;
        while i < keys.len()
            invariant
                i <= keys@.len(),
                n == types_spec(*self).len(),
                strs(all@) == types_spec(*self) + strs(keys@).take(i as int),
            decreases keys.len() - i,
        {
            let k = keys[i].clone();
            proof {
                assert(strs(all@.push(k)) =~= strs(all@).push(k@));
                assert(strs(keys@).take(i + 1) =~= strs(keys@).take(i as int).push(k@));
            }
            all.push(k);
            i += 1;
        }
        proof {
            assert(strs(keys@).take(keys@.len() as int) =~= strs(keys@));
            assert(strs(keys@) == kv);
            assert forall|i: int, j: int| 0 <= i < j < kv.len() implies super::aliases::seq_lt(#[trigger] kv[i], #[trigger] kv[j]) by {
                assert(kv[i] == aliases.view()[i].0);
                assert(kv[j] == aliases.view()[j].0);
            }
            let ks = alias_keys(*self);
            assert(alias_keys_ok(*self, kv));
            assert(alias_keys_ok(*self, ks));
            super::aliases::lemma_sorted_unique(kv, ks);
        }
        all
    }

    /// The standard type that `commit_type` stands for, or `commit_type` itself.
    pub fn resolve_type(&self, commit_type: &str) -> (r: String)
        ensures
            r@ == (match alias_lookup(*self, commit_type@) {
                Some(v) => v,
                None => commit_type@,
            }),
    {
        let aliases = self.get_type_aliases();
        match aliases.get(commit_type) {
            Some(v) => v,
            None => owned(commit_type),
        }
    }
}

// ---------------------------------------------------------------------------
// Limits.
// ---------------------------------------------------------------------------

impl SubjectLimitConfig {
    /// The maximum subject length (72 unless a positive value is configured).
    pub fn get_max_length(&self) -> (r: i64)
        ensures
            r == (if self.max_length <= 0 {
                72
            } else {
                self.max_length
            }),
    {
        if self.max_length <= 0 {
            72
        } else {
            self.max_length
        }
    }
}

impl BodyLineLimitConfig {
    /// The maximum body line length (100 unless a positive value is configured).
    pub fn get_max_length(&self) -> (r: i64)
        ensures
            r == (if self.max_length <= 0 {
                100
            } else {
                self.max_length
            }),
    {
        if self.max_length <= 0 {
            100
        } else {
            self.max_length
        }
    }
}

impl ProtectedPathsConfig {
    /// Enabled and with at least one path.
    pub fn is_enabled(&self) -> (r: bool)
        ensures
            r == (self.enabled && self.paths@.len() > 0),
    {
        self.enabled && self.paths.len() > 0
    }
}

impl AppendOnlyConfig {
    /// Enabled and with at least one path.
    pub fn is_enabled(&self) -> (r: bool)
        ensures
            r == (self.enabled && self.paths@.len() > 0),
    {
        self.enabled && self.paths.len() > 0
    }

    /// Whether new files must sort after the existing ones (unless `filename_order` is `"none"`).
    pub fn is_filename_order_numeric(&self) -> (r: bool)
        ensures
            r == (self.filename_order@ != "none"@),
    {
        !str_eq(self.filename_order.as_str(), "none")
    }
}

// ---------------------------------------------------------------------------
// Co-authors.
// ---------------------------------------------------------------------------

/// Whether an e-mail address (trimmed, lower-cased) matches a built-in AI pattern or one of
/// the configured removal patterns (trimmed, lower-cased).
pub open spec fn coauthor_removed(removals: Seq<String>, email: Seq<char>) -> bool {
    let e = lowercase(trim_seq(email));
    ||| exists|i: int| 0 <= i < ai_coauthor_patterns().len() && glob_match(#[trigger] ai_coauthor_patterns()[i], e)
    ||| exists|i: int| 0 <= i < removals.len() && glob_match(lowercase(trim_seq(#[trigger] removals[i]@)), e)
}

impl CommitMessageConfig {
    /// Whether a co-author with this e-mail address is to be removed (see `coauthor_removed`).
    pub fn coauthor_should_remove(&self, email: &str) -> (r: bool)
        ensures
            r == coauthor_removed(self.coauthor_remove_emails@, email@),
    {
        let t = trim_str(email);
        let el = lower_chars(&t);
        let es = string_of(&el);
        let builtin = builtin_ai_coauthor_patterns();
        let mut i: usize = 0;
        while i < builtin.len()
            invariant
                i <= builtin@.len(),
                strs(builtin@) == ai_coauthor_patterns(),
                es@ == lowercase(trim_seq(email@)),
                forall|j: int| 0 <= j < i ==> !glob_match(#[trigger] ai_coauthor_patterns()[j], es@),
            decreases builtin.len() - i,
        {
            if fnmatch(builtin[i].as_str(), es.as_str()) {
                assert(ai_coauthor_patterns()[i as int] == builtin@[i as int]@);
                return true;
            }
            i += 1;
        }
        let mut k: usize = 0;
        while k < self.coauthor_remove_emails.len()
            invariant
                k <= self.coauthor_remove_emails@.len(),
                es@ == lowercase(trim_seq(email@)),
                forall|j: int| 0 <= j < k ==> !glob_match(lowercase(trim_seq(#[trigger] self.coauthor_remove_emails@[j]@)), es@),
            decreases self.coauthor_remove_emails.len() - k,
        {
            let pt = trim_str(self.coauthor_remove_emails[k].as_str());
            let pl = string_of(&lower_chars(&pt));
            if fnmatch(pl.as_str(), es.as_str()) {
                return true;
            }
            k += 1;
        }
        false
    }
}

/// The address between the last `<` and the last `>` of a trailer, when `>` comes after `<`;
/// empty otherwise.
pub open spec fn coauthor_email(line: Seq<char>) -> Seq<char> {
    match (rfind_char_spec(line, '<'), rfind_char_spec(line, '>')) {
        (Some(lt), Some(gt)) => if gt > lt {
            line.subrange(lt + 1, gt)
        } else {
            Seq::empty()
        },
        _ => Seq::empty(),
    }
}

/// Extracts the e-mail address from a `Co-authored-by:` trailer.
pub fn extract_coauthor_email(line: &str) -> (r: String)
    ensures
        r@ == coauthor_email(line@),
{
    let lc = chars_of(line);
    let lt = rfind_char(&lc, '<');
    let gt = rfind_char(&lc, '>');
    match (lt, gt) {
        (Some(a), Some(b)) => {
            if b > a {
                proof {
                    crate::pathutil::lemma_rfind_bounds(lc@, '>');
                }
                string_of(&slice_chars(&lc, a + 1, b))
            } else {
                String::new()
            }
        },
        _ => String::new(),
    }
}

// ---------------------------------------------------------------------------
// Binary file policy.
// ---------------------------------------------------------------------------

/// The lower-cased extension (from the last `.` of the base name), or empty.
pub open spec fn ext_of(path: Seq<char>) -> Seq<char> {
    let b = match rfind_char_spec(path, '/') {
        Some(i) => path.skip(i + 1),
        None => path,
    };
    match rfind_char_spec(b, '.') {
        Some(i) => lowercase(b.skip(i)),
        None => Seq::empty(),
    }
}

fn ext_lower(path: &[char]) -> (r: Vec<char>)
    ensures
        r@ == ext_of(path@),
{
    let b = match rfind_char(path, '/') {
        Some(i) => {
            proof {
                crate::pathutil::lemma_rfind_bounds(path@, '/');
            }
            let n = path.len();
            assert(i < n);
            slice_chars(path, i + 1, n)
        },
        None => crate::text::copy_chars(path),
    };
    match rfind_char(&b, '.') {
        Some(i) => {
            proof {
                crate::pathutil::lemma_rfind_bounds(b@, '.');
            }
            lower_chars(&slice_chars(&b, i, b.len()))
        },
        None => Vec::new(),
    }
}

/// `allow` or `lfs` (after trimming and lower-casing), anything else `block`.
pub open spec fn policy_name(p: Seq<char>) -> Seq<char> {
    let v = lowercase(trim_seq(p));
    if v == "allow"@ {
        "allow"@
    } else if v == "lfs"@ {
        "lfs"@
    } else {
        "block"@
    }
}

fn normalize_policy(p: &str) -> (r: String)
    ensures
        r@ == policy_name(p@),
{
    let v = lower_chars(&trim_str(p));
    if crate::text::chars_eq_str(&v, "allow") {
        owned("allow")
    } else if crate::text::chars_eq_str(&v, "lfs") {
        owned("lfs")
    } else {
        owned("block")
    }
}

/// The policy of the first rule (from `i` on) that lists the extension, up to ASCII case.
pub open spec fn rule_policy(rules: Seq<super::types::BinaryFilePolicyRule>, i: int, ext: Seq<char>) -> Option<
    Seq<char>,
>
    decreases rules.len() - i,
{
    if i < 0 || i >= rules.len() {
        None
    } else if exists|j: int|
        0 <= j < rules[i].extensions@.len() && crate::text::eq_ascii_ci(
            ext,
            #[trigger] rules[i].extensions@[j]@,
        ) {
        Some(rules[i].policy@)
    } else {
        rule_policy(rules, i + 1, ext)
    }
}

/// The policy for a path: the first matching rule's, else `allow` for an image extension,
/// else the default policy.
pub open spec fn policy_for_spec(c: BinaryFileConfig, path: Seq<char>) -> Seq<char> {
    let ext = ext_of(path);
    match rule_policy(c.rules@, 0, ext) {
        Some(p) => policy_name(p),
        None => if image_extensions().contains(ext) {
            "allow"@
        } else {
            policy_name(c.default_policy@)
        },
    }
}

impl BinaryFileConfig {
    /// The policy (`allow`, `lfs` or `block`) for a path (see `policy_for_spec`).
    pub fn policy_for(&self, path: &str) -> (r: String)
        ensures
            r@ == policy_for_spec(*self, path@),
    {
        let ext = ext_lower(&chars_of(path));
        let mut i: usize = 0;
        while i < self.rules.len()
            invariant
                i <= self.rules@.len(),
                ext@ == ext_of(path@),
                rule_policy(self.rules@, i as int, ext@) == rule_policy(self.rules@, 0, ext@),
            decreases self.rules.len() - i,
        {
            let rule = &self.rules[i];
            let mut j: usize = 0;
            while j < rule.extensions.len()
                invariant
                    j <= rule.extensions@.len(),
                    i < self.rules@.len(),
                    *rule == self.rules@[i as int],
                    ext@ == ext_of(path@),
                    rule_policy(self.rules@, i as int, ext@) == rule_policy(self.rules@, 0, ext@),
                    forall|q: int| 0 <= q < j ==> !crate::text::eq_ascii_ci(ext@, #[trigger] rule.extensions@[q]@),
                decreases rule.extensions.len() - j,
            {
                if crate::text::eq_ignore_ascii_case(&ext, &chars_of(rule.extensions[j].as_str())) {
                    assert(crate::text::eq_ascii_ci(ext@, rule.extensions@[j as int]@));
                    return normalize_policy(rule.policy.as_str());
                }
                j += 1;
            }
            i += 1;
        }
        let images = builtin_image_extensions();
        let mut k: usize = 0;
        while k < images.len()
            invariant
                k <= images@.len(),
                strs(images@) == image_extensions(),
                ext@ == ext_of(path@),
                rule_policy(self.rules@, 0, ext@) is None,
                forall|q: int| 0 <= q < k ==> image_extensions()[q] != ext@,
            decreases images.len() - k,
        {
            if crate::text::chars_eq_str(&ext, images[k].as_str()) {
                assert(image_extensions()[k as int] == ext@);
                return owned("allow");
            }
            k += 1;
        }
        normalize_policy(self.default_policy.as_str())
    }
}

} // verus!
