//! Warnings about suspicious configuration values, and word-list parsing.

use vstd::prelude::*;
use super::types::{Config, FileLanguageRule};
use crate::text::{
    chars_of, extend_chars, has_prefix, lower_chars, lowercase, owned, string_of, trim_seq,
    trim_str,
};

verus! {

// ---------------------------------------------------------------------------
// Word lists.
// ---------------------------------------------------------------------------

/// The trimmed lines of `lines` that are neither empty nor start with `#`.
pub open spec fn word_lines(lines: Seq<Seq<char>>) -> Seq<Seq<char>>
    decreases lines.len(),
{
    if lines.len() == 0 {
        Seq::empty()
    } else {
        let w = trim_seq(lines.last());
        if w.len() == 0 || w[0] == '#' {
            word_lines(lines.drop_last())
        } else {
            word_lines(lines.drop_last()).push(w)
        }
    }
}

/// The words of a word list: one per line, trimmed, skipping empty lines and `#` comments.
pub fn parse_word_lines(text: &str) -> (r: Vec<String>)
    ensures
        r@.map_values(|s: String| s@) == word_lines(crate::text::split_seq(text@, '\n')),
{
    let tc = chars_of(text);
    let lines = crate::text::split(&tc, '\n');
    let ghost lv = lines@.map_values(|v: Vec<char>| v@);
    let mut words: Vec<String> = Vec::new();
    let mut i: usize = 0;
    while i < lines.len()
        invariant
            i <= lines@.len(),
            lv == lines@.map_values(|v: Vec<char>| v@),
            words@.map_values(|s: String| s@) == word_lines(lv.take(i as int)),
        decreases lines.len() - i,
    {
        let w = crate::text::trim(&lines[i]);
        assert(lv.take(i + 1).drop_last() =~= lv.take(i as int));
        if w.len() == 0 || w[0] == '#' {
        } else {
            let ws = string_of(&w);
            proof {
                assert(words@.push(ws).map_values(|s: String| s@) =~= words@.map_values(
                    |s: String| s@,
                ).push(ws@));
            }
            words.push(ws);
        }
        i += 1;
    }
    assert(lv.take(lines@.len() as int) =~= lv);
    words
}

// ---------------------------------------------------------------------------
// Glob syntax.
// ---------------------------------------------------------------------------

/// The index after the `]` that closes a class whose body starts at `j` (a `\` protects the
/// character after it), or `None` when the class is not closed.
pub open spec fn class_close(p: Seq<char>, j: int) -> Option<int>
    decreases p.len() + 2 - j,
{
    if j < 0 || j >= p.len() {
        None
    } else if p[j] == '\\' {
        class_close(p, j + 2)
    } else if p[j] == ']' {
        Some(j + 1)
    } else {
        class_close(p, j + 1)
    }
}

pub proof fn lemma_class_close(p: Seq<char>, j: int)
    ensures
        class_close(p, j) matches Some(k) ==> j < k <= p.len(),
    decreases p.len() + 2 - j,
{
    if 0 <= j < p.len() {
        if p[j] == '\\' {
            lemma_class_close(p, j + 2);
        } else if p[j] != ']' {
            lemma_class_close(p, j + 1);
        }
    }
}

/// Whether `p[i..]` has a syntax error that makes the glob fail: a trailing `\` or a class
/// `[` that is never closed (after an optional `^`/`!` and a leading literal `]`).
pub open spec fn glob_bad_from(p: Seq<char>, i: int) -> bool
    decreases p.len() - i,
{
    if i < 0 || i >= p.len() {
        false
    } else if p[i] == '\\' {
        if i + 1 >= p.len() {
            true
        } else {
            glob_bad_from(p, i + 2)
        }
    } else if p[i] == '[' {
        let j0 = i + 1;
        let j1 = if j0 < p.len() && (p[j0] == '^' || p[j0] == '!') {
            j0 + 1
        } else {
            j0
        };
        let j2 = if j1 < p.len() && p[j1] == ']' {
            j1 + 1
        } else {
            j1
        };
        match class_close(p, j2) {
            Some(k) => {
                proof {
                    lemma_class_close(p, j2);
                }
                glob_bad_from(p, k)
            },
            None => true,
        }
    } else {
        glob_bad_from(p, i + 1)
    }
}

fn class_close_exec(p: &[char], j: usize) -> (r: Option<usize>)
    ensures
        r matches Some(k) ==> class_close(p@, j as int) == Some(k as int) && k <= p@.len(),
        r is None ==> class_close(p@, j as int) is None,
{
    let n = p.len();
    let mut i = j;
    while i < n
        invariant
            n == p@.len(),
            class_close(p@, i as int) == class_close(p@, j as int),
        decreases n + 2 - i,
    {
        if p[i] == '\\' {
            if n - i < 2 {
                proof {
                    assert(class_close(p@, i + 2) is None);
                }
                return None;
            }
            i += 2;
        } else if p[i] == ']' {
            return Some(i + 1);
        } else {
            i += 1;
        }
    }
    None
}

/// Whether a glob pattern is malformed (see `glob_bad_from`).
pub fn glob_pattern_invalid(p: &[char]) -> (r: bool)
    ensures
        r == glob_bad_from(p@, 0),
{
    let n = p.len();
    let mut i: usize = 0;
    while i < n
        invariant
            n == p@.len(),
            glob_bad_from(p@, i as int) == glob_bad_from(p@, 0),
        decreases n - i,
    {
        if p[i] == '\\' {
            if i + 1 >= n {
                return true;
            }
            i += 2;
            if i > n {
                i = n;
            }
        } else if p[i] == '[' {
            let mut j = i + 1;
            if j < n && (p[j] == '^' || p[j] == '!') {
                j += 1;
            }
            if j < n && p[j] == ']' {
                j += 1;
            }
            match class_close_exec(p, j) {
                Some(k) => {
                    proof {
                        lemma_class_close(p@, j as int);
                    }
                    i = k;
                },
                None => {
                    return true;
                },
            }
        } else {
            i += 1;
        }
    }
    false
}

// ---------------------------------------------------------------------------
// Warnings.
// ---------------------------------------------------------------------------

/// The language names and codes accepted in the configuration (compared lower-cased).
pub open spec fn valid_language(v: Seq<char>) -> bool {
    let l = lowercase(v);
    l == "korean"@ || l == "english"@ || l == "japanese"@ || l == "chinese"@ || l == "any"@ || l
        == "ko"@ || l == "en"@ || l == "ja"@ || l == "zh"@ || l == "zh-hans"@ || l == "zh-hant"@
}

fn is_valid_language(v: &str) -> (r: bool)
    ensures
        r == valid_language(v@),
{
    let l = lower_chars(&chars_of(v));
    let eq = |s: &str| -> (b: bool)
        ensures
            b == (l@ == s@),
        { crate::text::chars_eq_str(&l, s) };
    eq("korean") || eq("english") || eq("japanese") || eq("chinese") || eq("any") || eq("ko")
        || eq("en") || eq("ja") || eq("zh") || eq("zh-hans") || eq("zh-hant")
}

/// `Debug` rendering of a string: quoted, with special characters escaped.
pub uninterp spec fn debug_quoted(s: Seq<char>) -> Seq<char>;

/// `format!("{:?}", s)`: the string in double quotes with `Debug` escapes. The result is a
/// fixed function of the text, named `debug_quoted`.
#[verifier::external_body]
pub fn debug_quote(s: &str) -> (r: String)
    ensures
        r@ == debug_quoted(s@),
{
    format!("{:?}", s)
}

fn push_str(v: &mut Vec<char>, s: &str)
    ensures
        final(v)@ == old(v)@ + s@,
{
    let c = chars_of(s);
    extend_chars(v, &c);
}

/// The warning for an unknown language value (none for an empty or valid value).
pub open spec fn locale_warnings(path: Seq<char>, section: Seq<char>, field: Seq<char>, value: Seq<char>) -> Seq<
    Seq<char>,
> {
    if value.len() == 0 || valid_language(value) {
        Seq::empty()
    } else {
        seq![
            path + ": "@ + section + "."@ + field + " unknown value: "@ + debug_quoted(value)
                + " (ko/en/ja/zh or korean/english/japanese/chinese/any)"@,
        ]
    }
}

fn check_locale(warns: &mut Vec<String>, cfg_path: &str, section: &str, field: &str, value: &str)
    ensures
        strs(final(warns)@) == strs(old(warns)@) + locale_warnings(cfg_path@, section@, field@, value@),
{
    if crate::text::is_empty_str(value) || is_valid_language(value) {
        assert(strs(warns@) =~= strs(warns@) + Seq::<Seq<char>>::empty());
        return;
    }
    let mut m: Vec<char> = Vec::new();
    push_str(&mut m, cfg_path);
    push_str(&mut m, ": ");
    push_str(&mut m, section);
    push_str(&mut m, ".");
    push_str(&mut m, field);
    push_str(&mut m, " unknown value: ");
    push_str(&mut m, debug_quote(value).as_str());
    push_str(&mut m, " (ko/en/ja/zh or korean/english/japanese/chinese/any)");
    let s = string_of(&m);
    proof {
        assert(strs(warns@.push(s)) =~= strs(warns@).push(s@));
    }
    warns.push(s);
}

pub open spec fn strs(v: Seq<String>) -> Seq<Seq<char>> {
    v.map_values(|s: String| s@)
}

/// The warning for a malformed glob pattern; `shown` is the pattern as written.
pub open spec fn glob_warning(path: Seq<char>, section: Seq<char>, shown: Seq<char>) -> Seq<char> {
    path + ": "@ + section + " invalid glob pattern: "@ + debug_quoted(shown)
        + " (syntax error in pattern)"@
}

/// The warnings for the malformed patterns of a list, in order.
pub open spec fn glob_warnings(path: Seq<char>, section: Seq<char>, patterns: Seq<String>) -> Seq<
    Seq<char>,
>
    decreases patterns.len(),
{
    if patterns.len() == 0 {
        Seq::empty()
    } else {
        let rest = glob_warnings(path, section, patterns.drop_last());
        if glob_bad_from(patterns.last()@, 0) {
            rest.push(glob_warning(path, section, patterns.last()@))
        } else {
            rest
        }
    }
}

fn glob_message(cfg_path: &str, section: &str, shown: &str) -> (r: String)
    ensures
        r@ == glob_warning(cfg_path@, section@, shown@),
{
    let mut m: Vec<char> = Vec::new();
    push_str(&mut m, cfg_path);
    push_str(&mut m, ": ");
    push_str(&mut m, section);
    push_str(&mut m, " invalid glob pattern: ");
    push_str(&mut m, debug_quote(shown).as_str());
    push_str(&mut m, " (syntax error in pattern)");
    string_of(&m)
}

fn check_globs(warns: &mut Vec<String>, cfg_path: &str, section: &str, patterns: &Vec<String>)
    ensures
        strs(final(warns)@) == strs(old(warns)@) + glob_warnings(cfg_path@, section@, patterns@),
{
    let ghost w0 = strs(warns@);
    let mut i: usize = 0;
    while i < patterns.len()
        invariant
            i <= patterns@.len(),
            strs(warns@) == w0 + glob_warnings(cfg_path@, section@, patterns@.take(i as int)),
        decreases patterns.len() - i,
    {
        assert(patterns@.take(i + 1).drop_last() =~= patterns@.take(i as int));
        let pc = chars_of(patterns[i].as_str());
        if glob_pattern_invalid(&pc) {
            let m = glob_message(cfg_path, section, patterns[i].as_str());
            proof {
                assert(strs(warns@.push(m)) =~= strs(warns@).push(m@));
            }
            warns.push(m);
        }
        i += 1;
    }
    assert(patterns@.take(patterns@.len() as int) =~= patterns@);
}

/// The warnings for malformed co-author patterns (checked trimmed and lower-cased, shown as
/// written), in order.
pub open spec fn coauthor_warnings(path: Seq<char>, patterns: Seq<String>) -> Seq<Seq<char>>
    decreases patterns.len(),
{
    if patterns.len() == 0 {
        Seq::empty()
    } else {
        let rest = coauthor_warnings(path, patterns.drop_last());
        if glob_bad_from(lowercase(trim_seq(patterns.last()@)), 0) {
            rest.push(glob_warning(path, "commit_message.coauthor_remove_emails"@, patterns.last()@))
        } else {
            rest
        }
    }
}

/// The section name of the `i`-th file language rule.
pub open spec fn rule_section(i: nat) -> Seq<char> {
    "comment_language.file_languages["@ + crate::text::dec_seq(i) + "]"@
}

/// The warnings for the file language rules from the first `n`: locale, language, pattern.
pub open spec fn rule_warnings(path: Seq<char>, rules: Seq<FileLanguageRule>) -> Seq<Seq<char>>
    decreases rules.len(),
{
    if rules.len() == 0 {
        Seq::empty()
    } else {
        let i = (rules.len() - 1) as nat;
        let r = rules.last();
        let sec = rule_section(i);
        rule_warnings(path, rules.drop_last()) + locale_warnings(path, sec, "locale"@, r.locale@)
            + locale_warnings(path, sec, "language"@, r.language@) + if glob_bad_from(
            r.pattern@,
            0,
        ) {
            seq![
                path + ": "@ + sec + ".pattern invalid glob pattern: "@ + debug_quoted(r.pattern@)
                    + " (syntax error in pattern)"@,
            ]
        } else {
            Seq::empty()
        }
    }
}

/// All warnings of a configuration, in order: the comment language locales; the commit
/// message language locales when that check is enabled; the file language rules; the
/// malformed ignore patterns of each section; the malformed co-author patterns; and a
/// missing word list file.
pub open spec fn validate_spec(cfg: Config, path: Seq<char>, words_file_exists: bool) -> Seq<
    Seq<char>,
> {
    let cl = cfg.comment_language;
    let lc = cfg.commit_message.language_check;
    locale_warnings(path, "comment_language"@, "locale"@, cl.locale@) + locale_warnings(
        path,
        "comment_language"@,
        "required_language"@,
        cl.required_language@,
    ) + (if super::accessors::opt_or(lc.enabled, false) {
        locale_warnings(path, "commit_message.language_check"@, "locale"@, lc.locale@)
            + locale_warnings(
            path,
            "commit_message.language_check"@,
            "required_language"@,
            lc.required_language@,
        )
    } else {
        Seq::empty()
    }) + rule_warnings(path, cl.file_languages@) + glob_warnings(
        path,
        "comment_language.ignore_files"@,
        cl.ignore_files@,
    ) + glob_warnings(path, "binary_file.ignore_files"@, cfg.binary_file.ignore_files@)
        + glob_warnings(path, "encoding.ignore_files"@, cfg.encoding.ignore_files@) + glob_warnings(
        path,
        "editorconfig.ignore_files"@,
        cfg.editorconfig.ignore_files@,
    ) + glob_warnings(path, "exceptions.global_ignore"@, cfg.exceptions.global_ignore@)
        + glob_warnings(
        path,
        "exceptions.comment_language_ignore"@,
        cfg.exceptions.comment_language_ignore@,
    ) + glob_warnings(path, "lint.yaml.ignore_files"@, cfg.lint.yaml.ignore_files@)
        + glob_warnings(path, "lint.json.ignore_files"@, cfg.lint.json.ignore_files@)
        + glob_warnings(path, "lint.xml.ignore_files"@, cfg.lint.xml.ignore_files@)
        + coauthor_warnings(path, cfg.commit_message.coauthor_remove_emails@) + (if cl.allowed_words_file@.len()
        > 0 && !words_file_exists {
        seq![
            path + ": comment_language.allowed_words_file file not found: "@ + debug_quoted(
                cl.allowed_words_file@,
            ),
        ]
    } else {
        Seq::empty()
    })
}

/// Validates configuration values and returns warnings (see `validate_spec`);
/// `allowed_words_file_exists` tells whether the configured word list file exists.
pub fn validate(cfg: &Config, cfg_path: &str, allowed_words_file_exists: bool) -> (r: Vec<String>)
    ensures
        strs(r@) == validate_spec(*cfg, cfg_path@, allowed_words_file_exists),
{
    let mut warns: Vec<String> = Vec::new();
    assert(strs(warns@) =~= Seq::<Seq<char>>::empty());
    let ghost w0 = strs(warns@);
    check_locale(&mut warns, cfg_path, "comment_language", "locale", cfg.comment_language.locale.as_str());
    check_locale(
        &mut warns,
        cfg_path,
        "comment_language",
        "required_language",
        cfg.comment_language.required_language.as_str(),
    );
    let ghost w1 = strs(warns@);
    if cfg.commit_message.language_check.is_enabled() {
        check_locale(
            &mut warns,
            cfg_path,
            "commit_message.language_check",
            "locale",
            cfg.commit_message.language_check.locale.as_str(),
        );
        check_locale(
            &mut warns,
            cfg_path,
            "commit_message.language_check",
            "required_language",
            cfg.commit_message.language_check.required_language.as_str(),
        );
    } else {
        assert(strs(warns@) =~= strs(warns@) + Seq::<Seq<char>>::empty());
    }
    let ghost w2 = strs(warns@);
    let rules = &cfg.comment_language.file_languages;
    let mut i: usize = 0;
    while i < rules.len()
        invariant
            i <= rules@.len(),
            strs(warns@) == w2 + rule_warnings(cfg_path@, rules@.take(i as int)),
        decreases rules.len() - i,
    {
        let fl = &rules[i];
        let mut sec: Vec<char> = Vec::new();
        push_str(&mut sec, "comment_language.file_languages[");
        extend_chars(&mut sec, &crate::text::fmt_u64(i as u64));
        push_str(&mut sec, "]");
        let secs = string_of(&sec);
        assert(secs@ == rule_section(i as nat));
        let ghost before = strs(warns@);
        check_locale(&mut warns, cfg_path, secs.as_str(), "locale", fl.locale.as_str());
        check_locale(&mut warns, cfg_path, secs.as_str(), "language", fl.language.as_str());
        let pc = chars_of(fl.pattern.as_str());
        if glob_pattern_invalid(&pc) {
            let mut m: Vec<char> = Vec::new();
            push_str(&mut m, cfg_path);
            push_str(&mut m, ": ");
            push_str(&mut m, secs.as_str());
            push_str(&mut m, ".pattern invalid glob pattern: ");
            push_str(&mut m, debug_quote(fl.pattern.as_str()).as_str());
            push_str(&mut m, " (syntax error in pattern)");
            let ms = string_of(&m);
            proof {
                assert(strs(warns@.push(ms)) =~= strs(warns@).push(ms@));
            }
            warns.push(ms);
        }
        proof {
            assert(rules@.take(i + 1).drop_last() =~= rules@.take(i as int));
            assert(rules@.take(i + 1).last() == *fl);
            assert(strs(warns@) =~= w2 + rule_warnings(cfg_path@, rules@.take(i + 1)));
        }
        i += 1;
    }
    assert(rules@.take(rules@.len() as int) =~= rules@);
    check_globs(&mut warns, cfg_path, "comment_language.ignore_files", &cfg.comment_language.ignore_files);
    check_globs(&mut warns, cfg_path, "binary_file.ignore_files", &cfg.binary_file.ignore_files);
    check_globs(&mut warns, cfg_path, "encoding.ignore_files", &cfg.encoding.ignore_files);
    check_globs(&mut warns, cfg_path, "editorconfig.ignore_files", &cfg.editorconfig.ignore_files);
    check_globs(&mut warns, cfg_path, "exceptions.global_ignore", &cfg.exceptions.global_ignore);
    check_globs(
        &mut warns,
        cfg_path,
        "exceptions.comment_language_ignore",
        &cfg.exceptions.comment_language_ignore,
    );
    check_globs(&mut warns, cfg_path, "lint.yaml.ignore_files", &cfg.lint.yaml.ignore_files);
    check_globs(&mut warns, cfg_path, "lint.json.ignore_files", &cfg.lint.json.ignore_files);
    check_globs(&mut warns, cfg_path, "lint.xml.ignore_files", &cfg.lint.xml.ignore_files);
    let ghost w3 = strs(warns@);
    let emails = &cfg.commit_message.coauthor_remove_emails;
    let mut k: usize = 0;
    while k < emails.len()
        invariant
            k <= emails@.len(),
            strs(warns@) == w3 + coauthor_warnings(cfg_path@, emails@.take(k as int)),
        decreases emails.len() - k,
    {
        assert(emails@.take(k + 1).drop_last() =~= emails@.take(k as int));
        let low = lower_chars(&trim_str(emails[k].as_str()));
        if glob_pattern_invalid(&low) {
            let m = glob_message(cfg_path, "commit_message.coauthor_remove_emails", emails[k].as_str());
            proof {
                assert(strs(warns@.push(m)) =~= strs(warns@).push(m@));
            }
            warns.push(m);
        }
        k += 1;
    }
    assert(emails@.take(emails@.len() as int) =~= emails@);
    let ghost w4 = strs(warns@);
    if !crate::text::is_empty_str(cfg.comment_language.allowed_words_file.as_str())
        && !allowed_words_file_exists {
        let mut m: Vec<char> = Vec::new();
        push_str(&mut m, cfg_path);
        push_str(&mut m, ": comment_language.allowed_words_file file not found: ");
        push_str(&mut m, debug_quote(cfg.comment_language.allowed_words_file.as_str()).as_str());
        let ms = string_of(&m);
        proof {
            assert(strs(warns@.push(ms)) =~= strs(warns@).push(ms@));
        }
        warns.push(ms);
    }
    proof {
        assert(strs(warns@) =~= validate_spec(*cfg, cfg_path@, allowed_words_file_exists));
    }
    warns
}

} // verus!
