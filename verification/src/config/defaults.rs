//! Defaults and locale normalisation of a loaded configuration.

use vstd::prelude::*;
use super::accessors::{first_locale, owned_all, strs};
use super::copy::copy_strings;
use super::types::{Config, FileLanguageRule, same_allowed_words_cache_config, same_append_only_config, same_binary_file_config, same_body_line_limit_config, same_cache_dir_config, same_conventional_commit_config, same_custom_rules_config, same_editor_config_config, same_exceptions_config, same_guide_config, same_lint_config, same_preset_config, same_protected_paths_config, same_seq_include_rule, same_subject_limit_config};
use crate::langdetect::{normalize_locale, normalized_locale, KOREAN};
use crate::text::{chars_of, owned};

verus! {

/// A string, or `d` when it is empty.
pub open spec fn or_default(s: Seq<char>, d: Seq<char>) -> Seq<char> {
    if s.len() == 0 {
        d
    } else {
        s
    }
}

/// The extensions checked when neither extensions nor languages are configured.
pub open spec fn default_extensions() -> Seq<Seq<char>> {
    seq![
        ".go"@,
        ".ts"@,
        ".tsx"@,
        ".js"@,
        ".jsx"@,
        ".mjs"@,
        ".java"@,
        ".kt"@,
        ".py"@,
        ".c"@,
        ".cpp"@,
        ".cs"@,
        ".swift"@,
        ".rs"@,
        ".hcl"@,
        ".tf"@,
        ".tfvars"@,
        "dockerfile"@,
    ]
}

/// The language of a file rule: its locale or language normalised; when that is empty the
/// rule is unchanged.
pub open spec fn normalized_rule(n: FileLanguageRule, o: FileLanguageRule) -> bool {
    let lang = if normalized_locale(o.locale@).len() > 0 {
        normalized_locale(o.locale@)
    } else {
        normalized_locale(o.language@)
    };
    &&& n.pattern == o.pattern
    &&& if lang.len() > 0 {
        n.locale@ == lang && n.language@ == lang
    } else {
        n.locale == o.locale && n.language == o.language
    }
}

/// The commit message language: the language check's locale, else its required language,
/// else the commit message locale (`ko` when empty), else Korean.
pub open spec fn message_locale(c: Config) -> Seq<char> {
    let lc = c.commit_message.language_check;
    if normalized_locale(lc.locale@).len() > 0 {
        normalized_locale(lc.locale@)
    } else if normalized_locale(lc.required_language@).len() > 0 {
        normalized_locale(lc.required_language@)
    } else if normalized_locale(or_default(c.commit_message.locale@, "ko"@)).len() > 0 {
        normalized_locale(or_default(c.commit_message.locale@, "ko"@))
    } else {
        KOREAN@
    }
}

fn first_normalized(a: &String, b: &String) -> (r: String)
    ensures
        r@ == (if normalized_locale(a@).len() > 0 {
            normalized_locale(a@)
        } else {
            normalized_locale(b@)
        }),
{
    let v = normalize_locale(a.as_str());
    if chars_of(v.as_str()).len() > 0 {
        v
    } else {
        normalize_locale(b.as_str())
    }
}

fn normalize_rule(o: &FileLanguageRule) -> (r: FileLanguageRule)
    ensures
        normalized_rule(r, *o),
{
    let lang = first_normalized(&o.locale, &o.language);
    if chars_of(lang.as_str()).len() > 0 {
        FileLanguageRule { pattern: o.pattern.clone(), locale: lang.clone(), language: lang }
    } else {
        FileLanguageRule {
            pattern: o.pattern.clone(),
            locale: o.locale.clone(),
            language: o.language.clone(),
        }
    }
}

/// Fills in defaults and normalises locales: the comment language (locale, else required
/// language, else Korean) in both fields; each file rule's language; the default extension
/// list when neither extensions nor languages are set; minimum lengths of 5; check mode
/// `diff`; locales `ko`; the commit message language (see `message_locale`) in both fields;
/// the skip prefixes `Merge`, `Revert`, `fixup!`, `squash!`. Everything else is unchanged.
pub fn apply_defaults(cfg: &mut Config)
    ensures
        final(cfg).comment_language.locale@ == first_locale(
            old(cfg).comment_language.locale@,
            old(cfg).comment_language.required_language@,
        ),
        final(cfg).comment_language.required_language@ == first_locale(
            old(cfg).comment_language.locale@,
            old(cfg).comment_language.required_language@,
        ),
        final(cfg).comment_language.file_languages@.len() == old(cfg).comment_language.file_languages@.len(),
        forall|i: int|
            0 <= i < old(cfg).comment_language.file_languages@.len() ==> normalized_rule(
                #[trigger] final(cfg).comment_language.file_languages@[i],
                old(cfg).comment_language.file_languages@[i],
            ),
        strs(final(cfg).comment_language.extensions@) == (if old(cfg).comment_language.extensions@.len()
            == 0 && old(cfg).comment_language.languages@.len() == 0 {
            default_extensions()
        } else {
            strs(old(cfg).comment_language.extensions@)
        }),
        final(cfg).comment_language.min_length == (if old(cfg).comment_language.min_length == 0 {
            5
        } else {
            old(cfg).comment_language.min_length
        }),
        final(cfg).comment_language.check_mode@ == or_default(
            old(cfg).comment_language.check_mode@,
            "diff"@,
        ),
        final(cfg).encoding.locale@ == or_default(old(cfg).encoding.locale@, "ko"@),
        final(cfg).commit_message.locale@ == or_default(old(cfg).commit_message.locale@, "ko"@),
        final(cfg).commit_message.language_check.locale@ == message_locale(*old(cfg)),
        final(cfg).commit_message.language_check.required_language@ == message_locale(*old(cfg)),
        final(cfg).commit_message.language_check.min_length == (if old(cfg).commit_message.language_check.min_length
            == 0 {
            5
        } else {
            old(cfg).commit_message.language_check.min_length
        }),
        strs(final(cfg).commit_message.language_check.skip_prefixes@) == (if old(cfg).commit_message.language_check.skip_prefixes@.len()
            == 0 {
            seq!["Merge"@, "Revert"@, "fixup!"@, "squash!"@]
        } else {
            strs(old(cfg).commit_message.language_check.skip_prefixes@)
        }),
        final(cfg).enabled == old(cfg).enabled,
        same_seq_include_rule(final(cfg).includes@, old(cfg).includes@),
        same_preset_config(final(cfg).preset, old(cfg).preset),
        final(cfg).comment_language.enabled == old(cfg).comment_language.enabled,
        final(cfg).comment_language.languages@ == old(cfg).comment_language.languages@,
        final(cfg).comment_language.skip_directives@ == old(cfg).comment_language.skip_directives@,
        final(cfg).comment_language.ignore_files@ == old(cfg).comment_language.ignore_files@,
        final(cfg).comment_language.no_emoji == old(cfg).comment_language.no_emoji,
        final(cfg).comment_language.check_strings == old(cfg).comment_language.check_strings,
        final(cfg).comment_language.skip_technical_strings == old(cfg).comment_language.skip_technical_strings,
        final(cfg).comment_language.allowed_words@ == old(cfg).comment_language.allowed_words@,
        final(cfg).comment_language.allowed_words_file == old(cfg).comment_language.allowed_words_file,
        final(cfg).comment_language.allowed_words_url == old(cfg).comment_language.allowed_words_url,
        same_allowed_words_cache_config(final(cfg).comment_language.allowed_words_cache, old(cfg).comment_language.allowed_words_cache),
        final(cfg).commit_message.enabled == old(cfg).commit_message.enabled,
        final(cfg).commit_message.no_ai_coauthor == old(cfg).commit_message.no_ai_coauthor,
        final(cfg).commit_message.coauthor_remove_emails@ == old(cfg).commit_message.coauthor_remove_emails@,
        final(cfg).commit_message.no_unicode_spaces == old(cfg).commit_message.no_unicode_spaces,
        final(cfg).commit_message.no_ambiguous_chars == old(cfg).commit_message.no_ambiguous_chars,
        final(cfg).commit_message.no_bad_runes == old(cfg).commit_message.no_bad_runes,
        final(cfg).commit_message.no_emoji == old(cfg).commit_message.no_emoji,
        final(cfg).commit_message.language_check.enabled == old(cfg).commit_message.language_check.enabled,
        same_conventional_commit_config(final(cfg).commit_message.conventional_commit, old(cfg).commit_message.conventional_commit),
        same_subject_limit_config(final(cfg).commit_message.subject_limit, old(cfg).commit_message.subject_limit),
        same_body_line_limit_config(final(cfg).commit_message.body_line_limit, old(cfg).commit_message.body_line_limit),
        same_binary_file_config(final(cfg).binary_file, old(cfg).binary_file),
        same_lint_config(final(cfg).lint, old(cfg).lint),
        final(cfg).encoding.enabled == old(cfg).encoding.enabled,
        final(cfg).encoding.require_utf8 == old(cfg).encoding.require_utf8,
        final(cfg).encoding.no_invisible_chars == old(cfg).encoding.no_invisible_chars,
        final(cfg).encoding.no_ambiguous_chars == old(cfg).encoding.no_ambiguous_chars,
        final(cfg).encoding.ignore_files@ == old(cfg).encoding.ignore_files@,
        same_editor_config_config(final(cfg).editorconfig, old(cfg).editorconfig),
        same_exceptions_config(final(cfg).exceptions, old(cfg).exceptions),
        same_custom_rules_config(final(cfg).custom_rules, old(cfg).custom_rules),
        same_protected_paths_config(final(cfg).protected_paths, old(cfg).protected_paths),
        same_append_only_config(final(cfg).append_only, old(cfg).append_only),
        same_cache_dir_config(final(cfg).cache_dir, old(cfg).cache_dir),
        same_guide_config(final(cfg).guide, old(cfg).guide),
{
    let lang = first_normalized(&cfg.comment_language.locale, &cfg.comment_language.required_language);
    let lang = if chars_of(lang.as_str()).len() > 0 {
        lang
    } else {
        owned(KOREAN)
    };
    cfg.comment_language.locale = lang.clone();
    cfg.comment_language.required_language = lang;

    let mut rules: Vec<FileLanguageRule> = Vec::new();
    let mut i: usize = 0;
    while i < cfg.comment_language.file_languages.len()
        invariant
            i <= cfg.comment_language.file_languages@.len(),
            rules@.len() == i,
            forall|j: int|
                0 <= j < i ==> normalized_rule(#[trigger] rules@[j], cfg.comment_language.file_languages@[j]),
        decreases cfg.comment_language.file_languages.len() - i,
    {
        rules.push(normalize_rule(&cfg.comment_language.file_languages[i]));
        i += 1;
    }
    cfg.comment_language.file_languages = rules;

    if cfg.comment_language.extensions.len() == 0 && cfg.comment_language.languages.len() == 0 {
        let exts = [
            ".go",
            ".ts",
            ".tsx",
            ".js",
            ".jsx",
            ".mjs",
            ".java",
            ".kt",
            ".py",
            ".c",
            ".cpp",
            ".cs",
            ".swift",
            ".rs",
            ".hcl",
            ".tf",
            ".tfvars",
            "dockerfile",
        ];
        let v = owned_all(&exts);
        assert(strs(v@) =~= default_extensions());
        cfg.comment_language.extensions = v;
    }
    if cfg.comment_language.min_length == 0 {
        cfg.comment_language.min_length = 5;
    }
    if crate::text::is_empty_str(cfg.comment_language.check_mode.as_str()) {
        cfg.comment_language.check_mode = owned("diff");
    }
    if crate::text::is_empty_str(cfg.encoding.locale.as_str()) {
        cfg.encoding.locale = owned("ko");
    }
    if crate::text::is_empty_str(cfg.commit_message.locale.as_str()) {
        cfg.commit_message.locale = owned("ko");
    }

    let lc = first_normalized(
        &cfg.commit_message.language_check.locale,
        &cfg.commit_message.language_check.required_language,
    );
    let lc = if chars_of(lc.as_str()).len() > 0 {
        lc
    } else {
        let m = normalize_locale(cfg.commit_message.locale.as_str());
        if chars_of(m.as_str()).len() > 0 {
            m
        } else {
            owned(KOREAN)
        }
    };
    cfg.commit_message.language_check.locale = lc.clone();
    cfg.commit_message.language_check.required_language = lc;
    if cfg.commit_message.language_check.min_length == 0 {
        cfg.commit_message.language_check.min_length = 5;
    }
    if cfg.commit_message.language_check.skip_prefixes.len() == 0 {
        let p = ["Merge", "Revert", "fixup!", "squash!"];
        let v = owned_all(&p);
        assert(strs(v@) =~= seq!["Merge"@, "Revert"@, "fixup!"@, "squash!"@]);
        cfg.commit_message.language_check.skip_prefixes = v;
    }
}

} // verus!
