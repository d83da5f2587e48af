//! Merging of a base configuration (preset or included file) under an overlay.

use vstd::prelude::*;
use super::copy::{copy_config, copy_custom_rule, copy_strings, copy_file_language_rule_list};
use super::types::{
    same_seq_custom_rule, same_seq_file_language_rule, same_seq_include_rule, same_preset_config,
    same_allowed_words_cache_config, same_commit_message_language_config,
    same_conventional_commit_config, same_subject_limit_config, same_body_line_limit_config,
    same_seq_binary_file_policy_rule, same_lint_config, same_append_only_config,
    same_cache_dir_config, same_custom_rule, Config, CustomRule,
};

verus! {

/// An overlay switch wins when it is set.
pub open spec fn merged_bool(o: Option<bool>, b: Option<bool>) -> Option<bool> {
    if o is None {
        b
    } else {
        o
    }
}

/// A non-empty overlay string wins.
pub open spec fn merged_str(o: Seq<char>, b: Seq<char>) -> Seq<char> {
    if o.len() == 0 {
        b
    } else {
        o
    }
}

/// A non-zero overlay number wins.
pub open spec fn merged_int(o: i64, b: i64) -> i64 {
    if o == 0 {
        b
    } else {
        o
    }
}

fn merge_bool(dst: Option<bool>, src: Option<bool>) -> (r: Option<bool>)
    ensures
        r == merged_bool(dst, src),
{
    if dst.is_none() && src.is_some() {
        src
    } else {
        dst
    }
}

fn merge_string(dst: &String, src: &String) -> (r: String)
    ensures
        r@ == merged_str(dst@, src@),
{
    if crate::text::is_empty_str(dst.as_str()) && !crate::text::is_empty_str(src.as_str()) {
        src.clone()
    } else {
        dst.clone()
    }
}

fn merge_int(dst: i64, src: i64) -> (r: i64)
    ensures
        r == merged_int(dst, src),
{
    if dst == 0 && src != 0 {
        src
    } else {
        dst
    }
}

/// `base` followed by `overlay`.
pub fn concat_strings(base: &Vec<String>, overlay: &Vec<String>) -> (r: Vec<String>)
    ensures
        r@ == base@ + overlay@,
{
    let mut v = copy_strings(base);
    let mut i: usize = 0;
    while i < overlay.len()
        invariant
            i <= overlay@.len(),
            v@ == base@ + overlay@.take(i as int),
        decreases overlay.len() - i,
    {
        v.push(overlay[i].clone());
        assert(overlay@.take(i + 1) =~= overlay@.take(i as int).push(overlay@[i as int]));
        i += 1;
    }
    assert(overlay@.take(overlay@.len() as int) =~= overlay@);
    v
}

/// `base` followed by `overlay`.
pub fn concat_custom_rule_lists(base: &Vec<CustomRule>, overlay: &Vec<CustomRule>) -> (r: Vec<CustomRule>)
    ensures
        same_seq_custom_rule(r@, base@ + overlay@),
{
    let mut v: Vec<CustomRule> = Vec::new();
    let mut i: usize = 0;
    while i < base.len()
        invariant
            i <= base@.len(),
            v@.len() == i,
            forall|j: int| 0 <= j < i ==> same_custom_rule(#[trigger] v@[j], base@[j]),
        decreases base.len() - i,
    {
        v.push(copy_custom_rule(&base[i]));
        i += 1;
    }
    let mut k: usize = 0;
    while k < overlay.len()
        invariant
            k <= overlay@.len(),
            v@.len() == base@.len() + k,
            forall|j: int| 0 <= j < base@.len() ==> same_custom_rule(#[trigger] v@[j], base@[j]),
            forall|j: int| 0 <= j < k ==> same_custom_rule(#[trigger] v@[base@.len() + j], overlay@[j]),
        decreases overlay.len() - k,
    {
        v.push(copy_custom_rule(&overlay[k]));
        k += 1;
    }
    proof {
        let c = base@ + overlay@;
        assert forall|j: int| 0 <= j < v@.len() implies same_custom_rule(#[trigger] v@[j], c[j]) by {
            if j >= base@.len() {
                assert(v@[base@.len() + (j - base@.len())] == v@[j]);
            }
        }
    }
    v
}

/// `r` is `overlay` merged over `base` (see `merge_configs`).
pub open spec fn merged(base: Config, overlay: Config, r: Config) -> bool {
    &&& r.enabled == merged_bool(overlay.enabled, base.enabled)
    &&& same_seq_include_rule(r.includes@, overlay.includes@)
    &&& same_preset_config(r.preset, overlay.preset)
    &&& r.comment_language.enabled == merged_bool(overlay.comment_language.enabled, base.comment_language.enabled)
    &&& r.comment_language.required_language@ == merged_str(overlay.comment_language.required_language@, base.comment_language.required_language@)
    &&& r.comment_language.languages@ == (if overlay.comment_language.languages@.len() == 0 { base.comment_language.languages@ } else { overlay.comment_language.languages@ })
    &&& r.comment_language.extensions@ == (if overlay.comment_language.extensions@.len() == 0 { base.comment_language.extensions@ } else { overlay.comment_language.extensions@ })
    &&& r.comment_language.min_length == merged_int(overlay.comment_language.min_length, base.comment_language.min_length)
    &&& r.comment_language.skip_directives@ == base.comment_language.skip_directives@ + overlay.comment_language.skip_directives@
    &&& r.comment_language.check_mode@ == merged_str(overlay.comment_language.check_mode@, base.comment_language.check_mode@)
    &&& r.comment_language.ignore_files@ == base.comment_language.ignore_files@ + overlay.comment_language.ignore_files@
    &&& r.comment_language.locale@ == merged_str(overlay.comment_language.locale@, base.comment_language.locale@)
    &&& same_seq_file_language_rule(r.comment_language.file_languages@, if overlay.comment_language.file_languages@.len() == 0 { base.comment_language.file_languages@ } else { overlay.comment_language.file_languages@ })
    &&& r.comment_language.no_emoji == merged_bool(overlay.comment_language.no_emoji, base.comment_language.no_emoji)
    &&& r.comment_language.check_strings == merged_bool(overlay.comment_language.check_strings, base.comment_language.check_strings)
    &&& r.comment_language.skip_technical_strings == merged_bool(overlay.comment_language.skip_technical_strings, base.comment_language.skip_technical_strings)
    &&& r.comment_language.allowed_words@ == base.comment_language.allowed_words@ + overlay.comment_language.allowed_words@
    &&& r.comment_language.allowed_words_file@ == merged_str(overlay.comment_language.allowed_words_file@, base.comment_language.allowed_words_file@)
    &&& r.comment_language.allowed_words_url@ == merged_str(overlay.comment_language.allowed_words_url@, base.comment_language.allowed_words_url@)
    &&& same_allowed_words_cache_config(r.comment_language.allowed_words_cache, overlay.comment_language.allowed_words_cache)
    &&& r.commit_message.enabled == merged_bool(overlay.commit_message.enabled, base.commit_message.enabled)
    &&& r.commit_message.no_ai_coauthor == merged_bool(overlay.commit_message.no_ai_coauthor, base.commit_message.no_ai_coauthor)
    &&& r.commit_message.coauthor_remove_emails@ == base.commit_message.coauthor_remove_emails@ + overlay.commit_message.coauthor_remove_emails@
    &&& r.commit_message.no_unicode_spaces == merged_bool(overlay.commit_message.no_unicode_spaces, base.commit_message.no_unicode_spaces)
    &&& r.commit_message.no_ambiguous_chars == merged_bool(overlay.commit_message.no_ambiguous_chars, base.commit_message.no_ambiguous_chars)
    &&& r.commit_message.no_bad_runes == merged_bool(overlay.commit_message.no_bad_runes, base.commit_message.no_bad_runes)
    &&& r.commit_message.no_emoji == merged_bool(overlay.commit_message.no_emoji, base.commit_message.no_emoji)
    &&& r.commit_message.locale@ == merged_str(overlay.commit_message.locale@, base.commit_message.locale@)
    &&& same_commit_message_language_config(r.commit_message.language_check, overlay.commit_message.language_check)
    &&& same_conventional_commit_config(r.commit_message.conventional_commit, overlay.commit_message.conventional_commit)
    &&& same_subject_limit_config(r.commit_message.subject_limit, overlay.commit_message.subject_limit)
    &&& same_body_line_limit_config(r.commit_message.body_line_limit, overlay.commit_message.body_line_limit)
    &&& r.binary_file.enabled == merged_bool(overlay.binary_file.enabled, base.binary_file.enabled)
    &&& r.binary_file.default_policy == overlay.binary_file.default_policy
    &&& same_seq_binary_file_policy_rule(r.binary_file.rules@, overlay.binary_file.rules@)
    &&& r.binary_file.ignore_files@ == base.binary_file.ignore_files@ + overlay.binary_file.ignore_files@
    &&& same_lint_config(r.lint, overlay.lint)
    &&& r.encoding.enabled == merged_bool(overlay.encoding.enabled, base.encoding.enabled)
    &&& r.encoding.require_utf8 == merged_bool(overlay.encoding.require_utf8, base.encoding.require_utf8)
    &&& r.encoding.no_invisible_chars == merged_bool(overlay.encoding.no_invisible_chars, base.encoding.no_invisible_chars)
    &&& r.encoding.no_ambiguous_chars == merged_bool(overlay.encoding.no_ambiguous_chars, base.encoding.no_ambiguous_chars)
    &&& r.encoding.locale@ == merged_str(overlay.encoding.locale@, base.encoding.locale@)
    &&& r.encoding.ignore_files@ == base.encoding.ignore_files@ + overlay.encoding.ignore_files@
    &&& r.editorconfig.enabled == merged_bool(overlay.editorconfig.enabled, base.editorconfig.enabled)
    &&& r.editorconfig.ignore_files@ == base.editorconfig.ignore_files@ + overlay.editorconfig.ignore_files@
    &&& r.exceptions.global_ignore@ == base.exceptions.global_ignore@ + overlay.exceptions.global_ignore@
    &&& r.exceptions.comment_language_ignore@ == base.exceptions.comment_language_ignore@ + overlay.exceptions.comment_language_ignore@
    &&& same_seq_custom_rule(r.custom_rules.commit_message@, base.custom_rules.commit_message@ + overlay.custom_rules.commit_message@)
    &&& same_seq_custom_rule(r.custom_rules.diff@, base.custom_rules.diff@ + overlay.custom_rules.diff@)
    &&& r.protected_paths.enabled == (overlay.protected_paths.enabled || base.protected_paths.enabled)
    &&& r.protected_paths.paths@ == base.protected_paths.paths@ + overlay.protected_paths.paths@
    &&& same_append_only_config(r.append_only, overlay.append_only)
    &&& same_cache_dir_config(r.cache_dir, overlay.cache_dir)
    &&& r.guide.enabled == merged_bool(overlay.guide.enabled, base.guide.enabled)
}

/// The overlay's explicit switches win: every switch the overlay sets (`Some`) is the merged
/// one, and every switch it leaves unset (`None`) is the base's.
pub proof fn law_overlay_switches_win(base: Config, overlay: Config, r: Config)
    requires
        merged(base, overlay, r),
    ensures
        overlay.enabled is Some ==> r.enabled == overlay.enabled,
        overlay.enabled is None ==> r.enabled == base.enabled,
        overlay.comment_language.enabled is Some ==> r.comment_language.enabled == overlay.comment_language.enabled,
        overlay.comment_language.enabled is None ==> r.comment_language.enabled == base.comment_language.enabled,
        overlay.comment_language.no_emoji is Some ==> r.comment_language.no_emoji == overlay.comment_language.no_emoji,
        overlay.comment_language.no_emoji is None ==> r.comment_language.no_emoji == base.comment_language.no_emoji,
        overlay.comment_language.check_strings is Some ==> r.comment_language.check_strings == overlay.comment_language.check_strings,
        overlay.comment_language.check_strings is None ==> r.comment_language.check_strings == base.comment_language.check_strings,
        overlay.comment_language.skip_technical_strings is Some ==> r.comment_language.skip_technical_strings == overlay.comment_language.skip_technical_strings,
        overlay.comment_language.skip_technical_strings is None ==> r.comment_language.skip_technical_strings == base.comment_language.skip_technical_strings,
        overlay.commit_message.enabled is Some ==> r.commit_message.enabled == overlay.commit_message.enabled,
        overlay.commit_message.enabled is None ==> r.commit_message.enabled == base.commit_message.enabled,
        overlay.commit_message.no_ai_coauthor is Some ==> r.commit_message.no_ai_coauthor == overlay.commit_message.no_ai_coauthor,
        overlay.commit_message.no_ai_coauthor is None ==> r.commit_message.no_ai_coauthor == base.commit_message.no_ai_coauthor,
        overlay.commit_message.no_unicode_spaces is Some ==> r.commit_message.no_unicode_spaces == overlay.commit_message.no_unicode_spaces,
        overlay.commit_message.no_unicode_spaces is None ==> r.commit_message.no_unicode_spaces == base.commit_message.no_unicode_spaces,
        overlay.commit_message.no_ambiguous_chars is Some ==> r.commit_message.no_ambiguous_chars == overlay.commit_message.no_ambiguous_chars,
        overlay.commit_message.no_ambiguous_chars is None ==> r.commit_message.no_ambiguous_chars == base.commit_message.no_ambiguous_chars,
        overlay.commit_message.no_bad_runes is Some ==> r.commit_message.no_bad_runes == overlay.commit_message.no_bad_runes,
        overlay.commit_message.no_bad_runes is None ==> r.commit_message.no_bad_runes == base.commit_message.no_bad_runes,
        overlay.commit_message.no_emoji is Some ==> r.commit_message.no_emoji == overlay.commit_message.no_emoji,
        overlay.commit_message.no_emoji is None ==> r.commit_message.no_emoji == base.commit_message.no_emoji,
        overlay.binary_file.enabled is Some ==> r.binary_file.enabled == overlay.binary_file.enabled,
        overlay.binary_file.enabled is None ==> r.binary_file.enabled == base.binary_file.enabled,
        overlay.encoding.enabled is Some ==> r.encoding.enabled == overlay.encoding.enabled,
        overlay.encoding.enabled is None ==> r.encoding.enabled == base.encoding.enabled,
        overlay.encoding.require_utf8 is Some ==> r.encoding.require_utf8 == overlay.encoding.require_utf8,
        overlay.encoding.require_utf8 is None ==> r.encoding.require_utf8 == base.encoding.require_utf8,
        overlay.encoding.no_invisible_chars is Some ==> r.encoding.no_invisible_chars == overlay.encoding.no_invisible_chars,
        overlay.encoding.no_invisible_chars is None ==> r.encoding.no_invisible_chars == base.encoding.no_invisible_chars,
        overlay.encoding.no_ambiguous_chars is Some ==> r.encoding.no_ambiguous_chars == overlay.encoding.no_ambiguous_chars,
        overlay.encoding.no_ambiguous_chars is None ==> r.encoding.no_ambiguous_chars == base.encoding.no_ambiguous_chars,
        overlay.editorconfig.enabled is Some ==> r.editorconfig.enabled == overlay.editorconfig.enabled,
        overlay.editorconfig.enabled is None ==> r.editorconfig.enabled == base.editorconfig.enabled,
        overlay.guide.enabled is Some ==> r.guide.enabled == overlay.guide.enabled,
        overlay.guide.enabled is None ==> r.guide.enabled == base.guide.enabled,
{
}

/// The overlay's non-empty strings and non-zero numbers win; an empty string or a zero
/// leaves the base's value.
pub proof fn law_overlay_values_win(base: Config, overlay: Config, r: Config)
    requires
        merged(base, overlay, r),
    ensures
        overlay.comment_language.required_language@.len() > 0 ==> r.comment_language.required_language@ == overlay.comment_language.required_language@,
        overlay.comment_language.required_language@.len() == 0 ==> r.comment_language.required_language@ == base.comment_language.required_language@,
        overlay.comment_language.check_mode@.len() > 0 ==> r.comment_language.check_mode@ == overlay.comment_language.check_mode@,
        overlay.comment_language.check_mode@.len() == 0 ==> r.comment_language.check_mode@ == base.comment_language.check_mode@,
        overlay.comment_language.locale@.len() > 0 ==> r.comment_language.locale@ == overlay.comment_language.locale@,
        overlay.comment_language.locale@.len() == 0 ==> r.comment_language.locale@ == base.comment_language.locale@,
        overlay.comment_language.allowed_words_file@.len() > 0 ==> r.comment_language.allowed_words_file@ == overlay.comment_language.allowed_words_file@,
        overlay.comment_language.allowed_words_file@.len() == 0 ==> r.comment_language.allowed_words_file@ == base.comment_language.allowed_words_file@,
        overlay.comment_language.allowed_words_url@.len() > 0 ==> r.comment_language.allowed_words_url@ == overlay.comment_language.allowed_words_url@,
        overlay.comment_language.allowed_words_url@.len() == 0 ==> r.comment_language.allowed_words_url@ == base.comment_language.allowed_words_url@,
        overlay.commit_message.locale@.len() > 0 ==> r.commit_message.locale@ == overlay.commit_message.locale@,
        overlay.commit_message.locale@.len() == 0 ==> r.commit_message.locale@ == base.commit_message.locale@,
        overlay.encoding.locale@.len() > 0 ==> r.encoding.locale@ == overlay.encoding.locale@,
        overlay.encoding.locale@.len() == 0 ==> r.encoding.locale@ == base.encoding.locale@,
        overlay.comment_language.min_length != 0 ==> r.comment_language.min_length == overlay.comment_language.min_length,
        overlay.comment_language.min_length == 0 ==> r.comment_language.min_length == base.comment_language.min_length,
{
}

/// The overlay configuration on top of the base one: a set switch, a non-empty string or a
/// non-zero number of the overlay wins; the lists of words, directives, ignore patterns,
/// co-author removals, custom rules and protected paths are concatenated (base first);
/// `languages`, `extensions` and `file_languages` come from the base when the overlay's are
/// empty; protected paths are enabled when either enables them; every other part is the
/// overlay's.
pub fn merge_configs(base: &Config, overlay: &Config) -> (r: Config)
    ensures
        merged(*base, *overlay, r),

{
    let mut r = copy_config(overlay);
    r.enabled = merge_bool(overlay.enabled, base.enabled);
    r.comment_language.enabled = merge_bool(overlay.comment_language.enabled, base.comment_language.enabled);
    r.comment_language.required_language = merge_string(&overlay.comment_language.required_language, &base.comment_language.required_language);
    if overlay.comment_language.languages.len() == 0 {
        r.comment_language.languages = copy_strings(&base.comment_language.languages);
    }
    if overlay.comment_language.extensions.len() == 0 {
        r.comment_language.extensions = copy_strings(&base.comment_language.extensions);
    }
    r.comment_language.min_length = merge_int(overlay.comment_language.min_length, base.comment_language.min_length);
    r.comment_language.skip_directives = concat_strings(&base.comment_language.skip_directives, &overlay.comment_language.skip_directives);
    r.comment_language.check_mode = merge_string(&overlay.comment_language.check_mode, &base.comment_language.check_mode);
    r.comment_language.ignore_files = concat_strings(&base.comment_language.ignore_files, &overlay.comment_language.ignore_files);
    r.comment_language.locale = merge_string(&overlay.comment_language.locale, &base.comment_language.locale);
    if overlay.comment_language.file_languages.len() == 0 {
        r.comment_language.file_languages = copy_file_language_rule_list(&base.comment_language.file_languages);
    }
    r.comment_language.no_emoji = merge_bool(overlay.comment_language.no_emoji, base.comment_language.no_emoji);
    r.comment_language.check_strings = merge_bool(overlay.comment_language.check_strings, base.comment_language.check_strings);
    r.comment_language.skip_technical_strings = merge_bool(overlay.comment_language.skip_technical_strings, base.comment_language.skip_technical_strings);
    r.comment_language.allowed_words = concat_strings(&base.comment_language.allowed_words, &overlay.comment_language.allowed_words);
    r.comment_language.allowed_words_file = merge_string(&overlay.comment_language.allowed_words_file, &base.comment_language.allowed_words_file);
    r.comment_language.allowed_words_url = merge_string(&overlay.comment_language.allowed_words_url, &base.comment_language.allowed_words_url);
    r.commit_message.enabled = merge_bool(overlay.commit_message.enabled, base.commit_message.enabled);
    r.commit_message.no_ai_coauthor = merge_bool(overlay.commit_message.no_ai_coauthor, base.commit_message.no_ai_coauthor);
    r.commit_message.coauthor_remove_emails = concat_strings(&base.commit_message.coauthor_remove_emails, &overlay.commit_message.coauthor_remove_emails);
    r.commit_message.no_unicode_spaces = merge_bool(overlay.commit_message.no_unicode_spaces, base.commit_message.no_unicode_spaces);
    r.commit_message.no_ambiguous_chars = merge_bool(overlay.commit_message.no_ambiguous_chars, base.commit_message.no_ambiguous_chars);
    r.commit_message.no_bad_runes = merge_bool(overlay.commit_message.no_bad_runes, base.commit_message.no_bad_runes);
    r.commit_message.no_emoji = merge_bool(overlay.commit_message.no_emoji, base.commit_message.no_emoji);
    r.commit_message.locale = merge_string(&overlay.commit_message.locale, &base.commit_message.locale);
    r.binary_file.enabled = merge_bool(overlay.binary_file.enabled, base.binary_file.enabled);
    r.binary_file.ignore_files = concat_strings(&base.binary_file.ignore_files, &overlay.binary_file.ignore_files);
    r.encoding.enabled = merge_bool(overlay.encoding.enabled, base.encoding.enabled);
    r.encoding.require_utf8 = merge_bool(overlay.encoding.require_utf8, base.encoding.require_utf8);
    r.encoding.no_invisible_chars = merge_bool(overlay.encoding.no_invisible_chars, base.encoding.no_invisible_chars);
    r.encoding.no_ambiguous_chars = merge_bool(overlay.encoding.no_ambiguous_chars, base.encoding.no_ambiguous_chars);
    r.encoding.locale = merge_string(&overlay.encoding.locale, &base.encoding.locale);
    r.encoding.ignore_files = concat_strings(&base.encoding.ignore_files, &overlay.encoding.ignore_files);
    r.editorconfig.enabled = merge_bool(overlay.editorconfig.enabled, base.editorconfig.enabled);
    r.editorconfig.ignore_files = concat_strings(&base.editorconfig.ignore_files, &overlay.editorconfig.ignore_files);
    r.exceptions.global_ignore = concat_strings(&base.exceptions.global_ignore, &overlay.exceptions.global_ignore);
    r.exceptions.comment_language_ignore = concat_strings(&base.exceptions.comment_language_ignore, &overlay.exceptions.comment_language_ignore);
    r.custom_rules.commit_message = concat_custom_rule_lists(&base.custom_rules.commit_message, &overlay.custom_rules.commit_message);
    r.custom_rules.diff = concat_custom_rule_lists(&base.custom_rules.diff, &overlay.custom_rules.diff);
    r.protected_paths.enabled = overlay.protected_paths.enabled || base.protected_paths.enabled;
    r.protected_paths.paths = concat_strings(&base.protected_paths.paths, &overlay.protected_paths.paths);
    r.guide.enabled = merge_bool(overlay.guide.enabled, base.guide.enabled);
    r
}

} // verus!
