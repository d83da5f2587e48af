//! Natural-language detection by script (Korean, English, Japanese, Chinese).
//!
//! A language is named by a plain string (`"korean"`, `"english"`, ...); an unrecognised
//! value is the empty string.

use vstd::prelude::*;
use crate::text::{
    alphabetic, chars_eq_str, chars_of, has_prefix, is_alphabetic, lower_chars, lowercase,
    owned, starts_with, starts_with_str, str_eq, trim, trim_seq, trim_str, lemma_trim_len,
    find_char,
};

verus! {

pub const KOREAN: &'static str = "korean";

pub const ENGLISH: &'static str = "english";

pub const JAPANESE: &'static str = "japanese";

pub const CHINESE: &'static str = "chinese";

pub const ANY: &'static str = "any";

// ---------------------------------------------------------------------------
// Scripts.
// ---------------------------------------------------------------------------

/// Hangul syllables, jamo and compatibility jamo.
pub open spec fn korean_char(c: char) -> bool {
    let r = c as u32;
    (0xAC00 <= r <= 0xD7A3) || (0x1100 <= r <= 0x11FF) || (0x3130 <= r <= 0x318F) || (0xA960
        <= r <= 0xA97F) || (0xD7B0 <= r <= 0xD7FF)
}

/// Hiragana, katakana and katakana phonetic extensions.
pub open spec fn japanese_char(c: char) -> bool {
    let r = c as u32;
    (0x3041 <= r <= 0x309F) || (0x30A0 <= r <= 0x30FF) || (0x31F0 <= r <= 0x31FF)
}

/// CJK unified ideographs (main block and extensions A and B).
pub open spec fn chinese_char(c: char) -> bool {
    let r = c as u32;
    (0x4E00 <= r <= 0x9FFF) || (0x3400 <= r <= 0x4DBF) || (0x20000 <= r <= 0x2A6DF)
}

/// ASCII letters.
pub open spec fn latin_char(c: char) -> bool {
    ('a' <= c <= 'z') || ('A' <= c <= 'Z')
}

pub fn is_korean(c: char) -> (r: bool)
    ensures
        r == korean_char(c),
{
    let r = c as u32;
    (0xAC00 <= r && r <= 0xD7A3) || (0x1100 <= r && r <= 0x11FF) || (0x3130 <= r && r <= 0x318F)
        || (0xA960 <= r && r <= 0xA97F) || (0xD7B0 <= r && r <= 0xD7FF)
}

pub fn is_japanese(c: char) -> (r: bool)
    ensures
        r == japanese_char(c),
{
    let r = c as u32;
    (0x3041 <= r && r <= 0x309F) || (0x30A0 <= r && r <= 0x30FF) || (0x31F0 <= r && r <= 0x31FF)
}

pub fn is_chinese(c: char) -> (r: bool)
    ensures
        r == chinese_char(c),
{
    let r = c as u32;
    (0x4E00 <= r && r <= 0x9FFF) || (0x3400 <= r && r <= 0x4DBF) || (0x20000 <= r && r
        <= 0x2A6DF)
}

pub fn is_latin(c: char) -> (r: bool)
    ensures
        r == latin_char(c),
{
    ('a' <= c && c <= 'z') || ('A' <= c && c <= 'Z')
}

// ---------------------------------------------------------------------------
// Locale names.
// ---------------------------------------------------------------------------

/// The language of a BCP-47 code (`"ko"`, `"en"`, `"ja"`, `"zh"`, `"zh-hans"`, `"zh-hant"`);
/// empty for any other value.
pub open spec fn locale_language(s: Seq<char>) -> Seq<char> {
    if s == "ko"@ {
        KOREAN@
    } else if s == "en"@ {
        ENGLISH@
    } else if s == "ja"@ {
        JAPANESE@
    } else if s == "zh"@ || s == "zh-hans"@ || s == "zh-hant"@ {
        CHINESE@
    } else {
        Seq::empty()
    }
}

/// Converts a BCP-47 code to a language; the empty string for an unrecognised code.
pub fn locale_to_language(locale: &str) -> (r: &'static str)
    ensures
        r@ == locale_language(locale@),
{
    if str_eq(locale, "ko") {
        KOREAN
    } else if str_eq(locale, "en") {
        ENGLISH
    } else if str_eq(locale, "ja") {
        JAPANESE
    } else if str_eq(locale, "zh") || str_eq(locale, "zh-hans") || str_eq(locale, "zh-hant") {
        CHINESE
    } else {
        proof {
            reveal_strlit("");
        }
        ""
    }
}

/// Whether `v` names a language (or `"any"`).
pub open spec fn is_language_name(v: Seq<char>) -> bool {
    v == KOREAN@ || v == ENGLISH@ || v == JAPANESE@ || v == CHINESE@ || v == ANY@
}

/// The canonical language of a BCP-47 code or a language name, after trimming and
/// lower-casing; empty when unrecognised.
pub open spec fn normalized_locale(s: Seq<char>) -> Seq<char> {
    let v = lowercase(trim_seq(s));
    if v.len() == 0 {
        Seq::empty()
    } else if locale_language(v).len() > 0 {
        locale_language(v)
    } else if is_language_name(v) {
        v
    } else {
        Seq::empty()
    }
}

/// A language name is its own canonical form: no white space to trim, already lower-case,
/// and not a BCP-47 code.
proof fn lemma_name_fixed(n: Seq<char>)
    requires
        n.len() > 2,
        forall|i: int| 0 <= i < n.len() ==> 'a' <= #[trigger] n[i] <= 'z',
    ensures
        trim_seq(n) == n,
        lowercase(n) == n,
        locale_language(n).len() == 0,
{
    assert(!crate::text::is_ws(n[0]));
    assert(crate::text::first_non_ws(n, 0) == 0);
    assert(n.skip(0) =~= n);
    assert(!crate::text::is_ws(n[n.len() - 1]));
    assert(crate::text::end_non_ws(n, n.len() as int) == n.len());
    assert(n.take(n.len() as int) =~= n);
    assert(crate::text::is_ascii_seq(n));
    assert(n.map_values(|c: char| crate::text::ascii_lower_char(c)) =~= n);
    reveal_strlit("zh-hans");
    reveal_strlit("zh-hant");
    assert(n != "zh-hans"@) by {
        if n.len() == 7 {
            assert("zh-hans"@[2] == '-');
        }
    }
    assert(n != "zh-hant"@) by {
        if n.len() == 7 {
            assert("zh-hant"@[2] == '-');
        }
    }
    reveal_strlit("ko");
    reveal_strlit("en");
    reveal_strlit("ja");
    reveal_strlit("zh");
}

/// Normalising gives the empty string or a language name, and normalising that again gives
/// it back.
pub proof fn law_normalize_locale_canonical(s: Seq<char>)
    ensures
        normalized_locale(s).len() == 0 || is_language_name(normalized_locale(s)),
        normalized_locale(normalized_locale(s)) == normalized_locale(s),
{
    reveal_strlit("korean");
    reveal_strlit("english");
    reveal_strlit("japanese");
    reveal_strlit("chinese");
    reveal_strlit("any");
    let r = normalized_locale(s);
    if r.len() == 0 {
        let e = Seq::<char>::empty();
        assert(r =~= e);
        assert(crate::text::first_non_ws(e, 0) == 0);
        assert(e.skip(0) =~= e);
        assert(crate::text::end_non_ws(e, 0) == 0);
        assert(e.take(0) =~= e);
        assert(trim_seq(e) =~= e);
        assert(e.map_values(|c: char| crate::text::ascii_lower_char(c)) =~= e);
        assert(lowercase(e) =~= e);
    } else {
        assert(is_language_name(r));
        assert forall|i: int| 0 <= i < r.len() implies 'a' <= #[trigger] r[i] <= 'z' by {}
        lemma_name_fixed(r);
    }
}

/// Normalises a BCP-47 code (`"ko"`) or a language name (`"korean"`) to a language.
pub fn normalize_locale(s: &str) -> (r: String)
    ensures
        r@ == normalized_locale(s@),
{
    let t = trim_str(s);
    let v = lower_chars(&t);
    if v.len() == 0 {
        return String::new();
    }
    let vs = crate::text::string_of(&v);
    let lang = locale_to_language(vs.as_str());
    if chars_of(lang).len() > 0 {
        return owned(lang);
    }
    if chars_eq_str(&v, KOREAN) || chars_eq_str(&v, ENGLISH) || chars_eq_str(&v, JAPANESE)
        || chars_eq_str(&v, CHINESE) || chars_eq_str(&v, ANY) {
        vs
    } else {
        String::new()
    }
}

/// The BCP-47 code of a language; any other value unchanged.
pub open spec fn bcp47(lang: Seq<char>) -> Seq<char> {
    if lang == KOREAN@ {
        "ko"@
    } else if lang == ENGLISH@ {
        "en"@
    } else if lang == JAPANESE@ {
        "ja"@
    } else if lang == CHINESE@ {
        "zh"@
    } else {
        lang
    }
}

/// Converts a language to its BCP-47 code; an unrecognised value is returned unchanged.
pub fn language_to_bcp47(lang: &str) -> (r: String)
    ensures
        r@ == bcp47(lang@),
{
    if str_eq(lang, KOREAN) {
        owned("ko")
    } else if str_eq(lang, ENGLISH) {
        owned("en")
    } else if str_eq(lang, JAPANESE) {
        owned("ja")
    } else if str_eq(lang, CHINESE) {
        owned("zh")
    } else {
        owned(lang)
    }
}


// ---------------------------------------------------------------------------
// Natural-language content.
// ---------------------------------------------------------------------------

/// Whether the (lower-cased, trimmed) text starts with one of the built-in prefixes of
/// technical or directive comments.
pub open spec fn builtin_skip(l: Seq<char>) -> bool {
    has_prefix(l, "todo"@) || has_prefix(l, "fixme"@) || has_prefix(l, "hack"@) || has_prefix(
        l,
        "note:"@,
    ) || has_prefix(l, "xxx"@) || has_prefix(l, "bug"@) || has_prefix(l, "nolint"@) || has_prefix(
        l,
        "noqa"@,
    ) || has_prefix(l, "nosec"@) || has_prefix(l, "noinspection"@) || has_prefix(
        l,
        "go:generate"@,
    ) || has_prefix(l, "go:build"@) || has_prefix(l, "go:embed"@) || has_prefix(
        l,
        "go:linkname"@,
    ) || has_prefix(l, "+build"@) || has_prefix(l, "eslint-"@) || has_prefix(l, "tslint:"@)
        || has_prefix(l, "prettier-ignore"@) || has_prefix(l, "http://"@) || has_prefix(
        l,
        "https://"@,
    ) || has_prefix(l, "ftp://"@) || has_prefix(l, "@param"@) || has_prefix(l, "@return"@)
        || has_prefix(l, "@throws"@) || has_prefix(l, "@type"@) || has_prefix(l, "@deprecated"@)
        || has_prefix(l, "@ts-ignore"@) || has_prefix(l, "@ts-nocheck"@) || has_prefix(
        l,
        "@ts-expect-error"@,
    ) || has_prefix(l, "suppress warnings"@)
}

fn has_builtin_skip_prefix(l: &[char]) -> (r: bool)
    ensures
        r == builtin_skip(l@),
{
    starts_with_str(l, "todo") || starts_with_str(l, "fixme") || starts_with_str(l, "hack")
        || starts_with_str(l, "note:") || starts_with_str(l, "xxx") || starts_with_str(l, "bug")
        || starts_with_str(l, "nolint") || starts_with_str(l, "noqa") || starts_with_str(
        l,
        "nosec",
    ) || starts_with_str(l, "noinspection") || starts_with_str(l, "go:generate")
        || starts_with_str(l, "go:build") || starts_with_str(l, "go:embed") || starts_with_str(
        l,
        "go:linkname",
    ) || starts_with_str(l, "+build") || starts_with_str(l, "eslint-") || starts_with_str(
        l,
        "tslint:",
    ) || starts_with_str(l, "prettier-ignore") || starts_with_str(l, "http://")
        || starts_with_str(l, "https://") || starts_with_str(l, "ftp://") || starts_with_str(
        l,
        "@param",
    ) || starts_with_str(l, "@return") || starts_with_str(l, "@throws") || starts_with_str(
        l,
        "@type",
    ) || starts_with_str(l, "@deprecated") || starts_with_str(l, "@ts-ignore")
        || starts_with_str(l, "@ts-nocheck") || starts_with_str(l, "@ts-expect-error")
        || starts_with_str(l, "suppress warnings")
}

/// Number of alphabetic characters of `s`.
pub open spec fn alpha_count(s: Seq<char>) -> nat
    decreases s.len(),
{
    if s.len() == 0 {
        0
    } else {
        alpha_count(s.drop_last()) + if alphabetic(s.last()) {
            1nat
        } else {
            0nat
        }
    }
}

fn count_alphabetic(s: &[char]) -> (r: usize)
    ensures
        r == alpha_count(s@),
{
    let mut n: usize = 0;
    let mut i: usize = 0;
    while i < s.len()
        invariant
            i <= s@.len(),
            n == alpha_count(s@.take(i as int)),
            n <= i,
        decreases s.len() - i,
    {
        assert(s@.take(i + 1).drop_last() =~= s@.take(i as int));
        if is_alphabetic(s[i]) {
            n += 1;
        }
        i += 1;
    }
    assert(s@.take(s@.len() as int) =~= s@);
    n
}

/// Whether what remains of `s` after trimming is a run of complete `<...>` tags.
pub open spec fn tags_only_from(s: Seq<char>) -> bool
    decreases s.len(),
{
    let t = trim_seq(s);
    if t.len() == 0 {
        true
    } else if t[0] != '<' {
        false
    } else {
        match first_index(t, '>') {
            Some(e) => {
                proof {
                    lemma_trim_len(s);
                    lemma_first_index_bounds(t, '>');
                }
                tags_only_from(t.skip(e + 1))
            },
            None => false,
        }
    }
}

/// Index of the first `c` in `s`.
pub open spec fn first_index(s: Seq<char>, c: char) -> Option<int> {
    if exists|i: int| 0 <= i < s.len() && s[i] == c {
        Some(choose|i: int| 0 <= i < s.len() && s[i] == c && forall|j: int| 0 <= j < i ==> s[j] != c)
    } else {
        None
    }
}

proof fn lemma_first_index(s: Seq<char>, c: char, i: int)
    requires
        0 <= i < s.len(),
        s[i] == c,
        forall|j: int| 0 <= j < i ==> s[j] != c,
    ensures
        first_index(s, c) == Some(i),
{
    let k = choose|k: int| 0 <= k < s.len() && s[k] == c && forall|j: int| 0 <= j < k ==> s[j] != c;
    assert(0 <= k < s.len() && s[k] == c && forall|j: int| 0 <= j < k ==> s[j] != c);
    assert(k == i);
}

pub proof fn lemma_first_index_bounds(s: Seq<char>, c: char)
    ensures
        first_index(s, c) matches Some(i) ==> 0 <= i < s.len() && s[i] == c && forall|j: int|
            0 <= j < i ==> s[j] != c,
{
    if exists|i: int| 0 <= i < s.len() && s[i] == c {
        let i0 = choose|i: int| 0 <= i < s.len() && s[i] == c;
        lemma_exists_first(s, c, i0);
    }
}

pub proof fn lemma_exists_first(s: Seq<char>, c: char, i0: int)
    requires
        0 <= i0 < s.len(),
        s[i0] == c,
    ensures
        exists|i: int| 0 <= i < s.len() && s[i] == c && forall|j: int| 0 <= j < i ==> s[j] != c,
    decreases i0,
{
    if exists|j: int| 0 <= j < i0 && s[j] == c {
        let j0 = choose|j: int| 0 <= j < i0 && s[j] == c;
        lemma_exists_first(s, c, j0);
    } else {
        assert(forall|j: int| 0 <= j < i0 ==> s[j] != c);
    }
}

/// Index of the first `c` in `s`.
pub fn index_of(s: &[char], c: char) -> (r: Option<usize>)
    ensures
        r matches Some(i) ==> first_index(s@, c) == Some(i as int),
        r is None ==> first_index(s@, c) is None,
{
    let r = find_char(s, c);
    proof {
        match r {
            Some(i) => lemma_first_index(s@, c, i as int),
            None => {},
        }
    }
    r
}

/// Whether the text consists only of XML/HTML tags (such as a C# documentation comment),
/// after removing one leading `/` (a `///` comment stripped of `//`).
pub open spec fn xml_tag_only(text: Seq<char>) -> bool {
    let s0 = trim_seq(text);
    let s = if has_prefix(s0, "/ "@) {
        trim_seq(s0.skip(2))
    } else if has_prefix(s0, "/"@) {
        trim_seq(s0.skip(1))
    } else {
        s0
    };
    s.len() > 0 && s[0] == '<' && tags_only_from(s)
}

fn tags_only_exec(s: Vec<char>) -> (r: bool)
    ensures
        r == tags_only_from(s@),
{
    let mut cur = s;
    loop
        invariant
            tags_only_from(cur@) == tags_only_from(s@),
        decreases cur@.len(),
    {
        let t = trim(&cur);
        proof {
            lemma_trim_len(cur@);
        }
        if t.len() == 0 {
            return true;
        }
        if t[0] != '<' {
            return false;
        }
        match index_of(&t, '>') {
            Some(e) => {
                proof {
                    lemma_first_index_bounds(t@, '>');
                }
                cur = crate::text::slice_chars(&t, e + 1, t.len());
                assert(cur@ == t@.skip(e + 1));
            },
            None => {
                return false;
            },
        }
    }
}

fn is_xml_tag_only(text: &[char]) -> (r: bool)
    ensures
        r == xml_tag_only(text@),
{
    let s0 = trim(text);
    let s = if starts_with_str(&s0, "/ ") {
        proof {
            reveal_strlit("/ ");
        }
        let rest = crate::text::slice_chars(&s0, 2, s0.len());
        trim(&rest)
    } else if starts_with_str(&s0, "/") {
        proof {
            reveal_strlit("/");
        }
        let rest = crate::text::slice_chars(&s0, 1, s0.len());
        trim(&rest)
    } else {
        s0
    };
    if s.len() == 0 || s[0] != '<' {
        return false;
    }
    tags_only_exec(s)
}

/// Whether a comment text is long enough for a language check and is not a directive:
/// at least `min_letters` characters, not only tags, not starting (trimmed, lower-cased)
/// with a built-in or an extra skip prefix, and with at least `min_letters` alphabetic
/// characters.
pub open spec fn natural_content(text: Seq<char>, min_letters: int, extra: Seq<Seq<char>>) -> bool {
    let lower = lowercase(trim_seq(text));
    &&& text.len() >= min_letters
    &&& !xml_tag_only(text)
    &&& !builtin_skip(lower)
    &&& forall|k: int| 0 <= k < extra.len() ==> !has_prefix(lower, lowercase(#[trigger] extra[k]))
    &&& alpha_count(text) >= min_letters
}

/// Text whose trimmed, lower-cased form begins with one of the built-in technical prefixes
/// (`todo`, `fixme`, `hack`, `note:`, ..., `suppress warnings`) has no natural-language
/// content, so the language check passes it without looking at its language.
pub proof fn law_builtin_prefixes_are_skipped(
    text: Seq<char>,
    required: Seq<char>,
    min_letters: int,
    extra: Seq<Seq<char>>,
    p: Seq<char>,
)
    requires
        p == "todo"@
            || p == "fixme"@
            || p == "hack"@
            || p == "note:"@
            || p == "xxx"@
            || p == "bug"@
            || p == "nolint"@
            || p == "noqa"@
            || p == "nosec"@
            || p == "noinspection"@
            || p == "go:generate"@
            || p == "go:build"@
            || p == "go:embed"@
            || p == "go:linkname"@
            || p == "+build"@
            || p == "eslint-"@
            || p == "tslint:"@
            || p == "prettier-ignore"@
            || p == "http://"@
            || p == "https://"@
            || p == "ftp://"@
            || p == "@param"@
            || p == "@return"@
            || p == "@throws"@
            || p == "@type"@
            || p == "@deprecated"@
            || p == "@ts-ignore"@
            || p == "@ts-nocheck"@
            || p == "@ts-expect-error"@
            || p == "suppress warnings"@,
        has_prefix(lowercase(trim_seq(text)), p),
    ensures
        !natural_content(text, min_letters, extra),
        required_language_spec(text, required, min_letters, extra) == (true, false),
{
}

pub open spec fn string_views(v: Seq<String>) -> Seq<Seq<char>> {
    v.map_values(|s: String| s@)
}

/// Whether `text` has enough natural-language content for a language check
/// (see `natural_content`); `extra_skip` lists project-specific prefixes to skip.
pub fn has_natural_language_content(text: &str, min_letters: usize, extra_skip: &[String]) -> (r:
    bool)
    ensures
        r == natural_content(text@, min_letters as int, string_views(extra_skip@)),
{
    let tc = chars_of(text);
    if tc.len() < min_letters {
        return false;
    }
    if is_xml_tag_only(&tc) {
        return false;
    }
    let tt = trim(&tc);
    let lower = lower_chars(&tt);
    if has_builtin_skip_prefix(&lower) {
        return false;
    }
    let mut k: usize = 0;
    while k < extra_skip.len()
        invariant
            k <= extra_skip@.len(),
            lower@ == lowercase(trim_seq(text@)),
            forall|j: int|
                0 <= j < k ==> !has_prefix(lower@, lowercase(#[trigger] string_views(extra_skip@)[j])),
        decreases extra_skip.len() - k,
    {
        let pc = chars_of(extra_skip[k].as_str());
        let pl = lower_chars(&pc);
        if starts_with(&lower, &pl) {
            assert(string_views(extra_skip@)[k as int] == extra_skip@[k as int]@);
            return false;
        }
        k += 1;
    }
    count_alphabetic(&tc) >= min_letters
}

// ---------------------------------------------------------------------------
// Script detection.
// ---------------------------------------------------------------------------

/// Whether the character belongs to the script of the language.
pub open spec fn script_hit(lang: Seq<char>, c: char) -> bool {
    if lang == KOREAN@ {
        korean_char(c)
    } else if lang == JAPANESE@ {
        japanese_char(c)
    } else if lang == CHINESE@ {
        chinese_char(c)
    } else if lang == ENGLISH@ {
        latin_char(c)
    } else {
        false
    }
}

/// Whether some character of `text` belongs to the script of `lang`.
pub open spec fn has_script_spec(text: Seq<char>, lang: Seq<char>) -> bool {
    exists|i: int| 0 <= i < text.len() && script_hit(lang, #[trigger] text[i])
}

/// Whether the text contains at least one character of the given language's script.
pub fn has_script(text: &str, lang: &str) -> (r: bool)
    ensures
        r == has_script_spec(text@, lang@),
{
    let tc = chars_of(text);
    let ko = str_eq(lang, KOREAN);
    let ja = str_eq(lang, JAPANESE);
    let zh = str_eq(lang, CHINESE);
    let en = str_eq(lang, ENGLISH);
    let mut i: usize = 0;
    while i < tc.len()
        invariant
            i <= tc@.len(),
            tc@ == text@,
            ko == (lang@ == KOREAN@),
            ja == (lang@ == JAPANESE@),
            zh == (lang@ == CHINESE@),
            en == (lang@ == ENGLISH@),
            forall|j: int| 0 <= j < i ==> !script_hit(lang@, #[trigger] text@[j]),
        decreases tc.len() - i,
    {
        let c = tc[i];
        let hit = if ko {
            is_korean(c)
        } else if ja {
            is_japanese(c)
        } else if zh {
            is_chinese(c)
        } else if en {
            is_latin(c)
        } else {
            false
        };
        if hit {
            assert(script_hit(lang@, text@[i as int]));
            return true;
        }
        i += 1;
    }
    false
}

/// Counts of Korean, Japanese, Chinese and Latin characters; a character is counted in the
/// first of these scripts it belongs to.
pub open spec fn script_counts(s: Seq<char>) -> (nat, nat, nat, nat)
    decreases s.len(),
{
    if s.len() == 0 {
        (0, 0, 0, 0)
    } else {
        let (k, j, z, l) = script_counts(s.drop_last());
        let c = s.last();
        if korean_char(c) {
            (k + 1, j, z, l)
        } else if japanese_char(c) {
            (k, j + 1, z, l)
        } else if chinese_char(c) {
            (k, j, z + 1, l)
        } else if latin_char(c) {
            (k, j, z, l + 1)
        } else {
            (k, j, z, l)
        }
    }
}

proof fn lemma_script_counts_bound(s: Seq<char>)
    ensures
        script_counts(s).0 + script_counts(s).1 + script_counts(s).2 + script_counts(s).3 <= s.len(),
    decreases s.len(),
{
    if s.len() > 0 {
        lemma_script_counts_bound(s.drop_last());
    }
}

/// The language with the most characters (ties go to the earlier of Korean, Japanese,
/// Chinese, English); empty when the text has none of these scripts.
pub open spec fn dominant_spec(s: Seq<char>) -> Seq<char> {
    let (k, j, z, l) = script_counts(s);
    let (m1, d1) = if j > k {
        (j, JAPANESE@)
    } else {
        (k, KOREAN@)
    };
    let (m2, d2) = if z > m1 {
        (z, CHINESE@)
    } else {
        (m1, d1)
    };
    let (m3, d3) = if l > m2 {
        (l, ENGLISH@)
    } else {
        (m2, d2)
    };
    if m3 == 0 {
        Seq::empty()
    } else {
        d3
    }
}

fn dominant(text: &[char]) -> (r: String)
    ensures
        r@ == dominant_spec(text@),
{
    let mut korean: usize = 0;
    let mut japanese: usize = 0;
    let mut chinese: usize = 0;
    let mut latin: usize = 0;
    let mut i: usize = 0;
    while i < text.len()
        invariant
            i <= text@.len(),
            (korean as nat, japanese as nat, chinese as nat, latin as nat) == script_counts(
                text@.take(i as int),
            ),
        decreases text.len() - i,
    {
        proof {
            lemma_script_counts_bound(text@.take(i as int));
        }
        assert(text@.take(i + 1).drop_last() =~= text@.take(i as int));
        let c = text[i];
        if is_korean(c) {
            korean += 1;
        } else if is_japanese(c) {
            japanese += 1;
        } else if is_chinese(c) {
            chinese += 1;
        } else if is_latin(c) {
            latin += 1;
        }
        i += 1;
    }
    assert(text@.take(text@.len() as int) =~= text@);
    let mut max = korean;
    let mut dom = KOREAN;
    if japanese > max {
        max = japanese;
        dom = JAPANESE;
    }
    if chinese > max {
        max = chinese;
        dom = CHINESE;
    }
    if latin > max {
        max = latin;
        dom = ENGLISH;
    }
    if max == 0 {
        return String::new();
    }
    owned(dom)
}

/// The dominant language of the text, or `"unknown"` when it has none of the four scripts.
pub fn dominant_language(text: &str) -> (r: String)
    ensures
        r@ == (if dominant_spec(text@).len() == 0 {
            "unknown"@
        } else {
            dominant_spec(text@)
        }),
{
    let tc = chars_of(text);
    let d = dominant(&tc);
    if chars_of(d.as_str()).len() == 0 {
        owned("unknown")
    } else {
        d
    }
}


/// The outcome of a language check as `(ok, has_content)`: `(true, false)` when the text has
/// no natural-language content or only punctuation and digits; `(true, true)` when any
/// language is accepted or the text has a character of the required script; `(false, true)`
/// otherwise.
pub open spec fn required_language_spec(
    text: Seq<char>,
    required: Seq<char>,
    min_letters: int,
    extra: Seq<Seq<char>>,
) -> (bool, bool) {
    if !natural_content(text, min_letters, extra) {
        (true, false)
    } else if required == ANY@ || required.len() == 0 {
        (true, true)
    } else if has_script_spec(text, required) {
        (true, true)
    } else if dominant_spec(text).len() == 0 {
        (true, false)
    } else {
        (false, true)
    }
}

/// Whether a comment text satisfies the required language, as `(ok, has_content)`
/// (see `required_language_spec`); mixed text passes when it has the required script.
pub fn is_required_language(
    text: &str,
    required: &str,
    min_letters: usize,
    extra_skip: &[String],
) -> (r: (bool, bool))
    ensures
        r == required_language_spec(text@, required@, min_letters as int, string_views(extra_skip@)),
{
    if !has_natural_language_content(text, min_letters, extra_skip) {
        return (true, false);
    }
    if str_eq(required, ANY) || chars_of(required).len() == 0 {
        return (true, true);
    }
    if has_script(text, required) {
        return (true, true);
    }
    let tc = chars_of(text);
    let dom = dominant(&tc);
    if chars_of(dom.as_str()).len() == 0 {
        return (true, false);
    }
    (false, true)
}

/// Whether some character of `text` is Korean, Japanese or Chinese.
pub open spec fn has_cjk_spec(text: Seq<char>) -> bool {
    exists|i: int|
        0 <= i < text.len() && (korean_char(#[trigger] text[i]) || japanese_char(text[i])
            || chinese_char(text[i]))
}

/// Whether the text has a Korean, Japanese or Chinese character.
pub fn has_cjk(text: &str) -> (r: bool)
    ensures
        r == has_cjk_spec(text@),
{
    let tc = chars_of(text);
    let mut i: usize = 0;
    while i < tc.len()
        invariant
            i <= tc@.len(),
            tc@ == text@,
            forall|j: int|
                0 <= j < i ==> !(korean_char(#[trigger] text@[j]) || japanese_char(text@[j])
                    || chinese_char(text@[j])),
        decreases tc.len() - i,
    {
        let c = tc[i];
        if is_korean(c) || is_japanese(c) || is_chinese(c) {
            return true;
        }
        i += 1;
    }
    false
}


/// Index of the first occurrence of `u` in `s`.
pub open spec fn first_index_u32(s: Seq<u32>, u: u32) -> Option<int> {
    if exists|i: int| 0 <= i < s.len() && s[i] == u {
        Some(choose|i: int| 0 <= i < s.len() && s[i] == u && forall|j: int| 0 <= j < i ==> s[j] != u)
    } else {
        None
    }
}

pub proof fn lemma_first_index_u32(s: Seq<u32>, u: u32, i: int)
    requires
        0 <= i < s.len(),
        s[i] == u,
        forall|j: int| 0 <= j < i ==> s[j] != u,
    ensures
        first_index_u32(s, u) == Some(i),
{
    let k = choose|k: int| 0 <= k < s.len() && s[k] == u && forall|j: int| 0 <= j < k ==> s[j] != u;
    assert(0 <= k < s.len() && s[k] == u && forall|j: int| 0 <= j < k ==> s[j] != u);
    assert(k == i);
}


// ---------------------------------------------------------------------------
// Allowed words.
// ---------------------------------------------------------------------------


/// Where `x` goes among words sorted by decreasing length: after every word at least as long.
pub open spec fn len_insert_pos(s: Seq<Seq<char>>, x: Seq<char>, j: int) -> int
    decreases s.len() - j,
{
    if j < 0 || j >= s.len() {
        s.len() as int
    } else if s[j].len() < x.len() {
        j
    } else {
        len_insert_pos(s, x, j + 1)
    }
}

proof fn lemma_len_insert_pos(s: Seq<Seq<char>>, x: Seq<char>, j: int)
    requires
        0 <= j <= s.len(),
    ensures
        j <= len_insert_pos(s, x, j) <= s.len(),
    decreases s.len() - j,
{
    if j < s.len() && s[j].len() >= x.len() {
        lemma_len_insert_pos(s, x, j + 1);
    }
}

/// The words sorted by decreasing length, words of equal length in their given order.
pub open spec fn by_length_desc(ws: Seq<Seq<char>>) -> Seq<Seq<char>>
    decreases ws.len(),
{
    if ws.len() == 0 {
        Seq::empty()
    } else {
        let s = by_length_desc(ws.drop_last());
        s.insert(len_insert_pos(s, ws.last(), 0), ws.last())
    }
}

/// The marks after trying the lower-cased word `w` at each position from `i`: a position
/// not yet marked where `w` occurs in the lower-cased text `lower`, with no ASCII letter of
/// the text just before or just after, gets its `w.len()` characters marked. A match that
/// would run past the end of the text (lower-casing can lengthen it) is not applied.
pub open spec fn mark_word(t: Seq<char>, lower: Seq<char>, w: Seq<char>, i: int, marks: Seq<bool>) -> Seq<bool>
    decreases lower.len() + 1 - i,
{
    if i < 0 || i + w.len() > lower.len() {
        marks
    } else {
        let ok = i < t.len() && !marks[i] && lower.subrange(i, i + w.len()) == w && !(i > 0 && latin_char(
            t[i - 1],
        )) && !(i + w.len() < t.len() && latin_char(t[i + w.len()])) && i + w.len() <= t.len();
        let m2 = if ok {
            Seq::new(marks.len(), |k: int| marks[k] || (i <= k < i + w.len()))
        } else {
            marks
        };
        mark_word(t, lower, w, i + 1, m2)
    }
}

/// The marks after the words `ws[k..]` (each lower-cased; empty ones skipped).
pub open spec fn mark_words(t: Seq<char>, lower: Seq<char>, ws: Seq<Seq<char>>, k: int, marks: Seq<bool>) -> Seq<
    bool,
>
    decreases ws.len() - k,
{
    if k < 0 || k >= ws.len() {
        marks
    } else {
        let w = lowercase(ws[k]);
        let m2 = if w.len() == 0 {
            marks
        } else {
            mark_word(t, lower, w, 0, marks)
        };
        mark_words(t, lower, ws, k + 1, m2)
    }
}

/// The text with each allowed word, longest first and matched ignoring case between
/// non-letters, replaced by spaces.
pub open spec fn strip_allowed_spec(t: Seq<char>, words: Seq<Seq<char>>) -> Seq<char> {
    if words.len() == 0 {
        t
    } else {
        let marks = mark_words(t, lowercase(t), by_length_desc(words), 0, Seq::new(t.len(), |k: int| false));
        Seq::new(
            t.len(),
            |k: int|
                if marks[k] {
                    ' '
                } else {
                    t[k]
                },
        )
    }
}

proof fn lemma_mark_word_len(t: Seq<char>, lower: Seq<char>, w: Seq<char>, i: int, marks: Seq<bool>)
    ensures
        mark_word(t, lower, w, i, marks).len() == marks.len(),
    decreases lower.len() + 1 - i,
{
    if !(i < 0 || i + w.len() > lower.len()) {
        let ok = i < t.len() && !marks[i] && lower.subrange(i, i + w.len()) == w && !(i > 0 && latin_char(
            t[i - 1],
        )) && !(i + w.len() < t.len() && latin_char(t[i + w.len()])) && i + w.len() <= t.len();
        let m2 = if ok {
            Seq::new(marks.len(), |k: int| marks[k] || (i <= k < i + w.len()))
        } else {
            marks
        };
        lemma_mark_word_len(t, lower, w, i + 1, m2);
    }
}

proof fn lemma_mark_words_len(t: Seq<char>, lower: Seq<char>, ws: Seq<Seq<char>>, k: int, marks: Seq<bool>)
    ensures
        mark_words(t, lower, ws, k, marks).len() == marks.len(),
    decreases ws.len() - k,
{
    if !(k < 0 || k >= ws.len()) {
        let w = lowercase(ws[k]);
        let m2 = if w.len() == 0 {
            marks
        } else {
            mark_word(t, lower, w, 0, marks)
        };
        lemma_mark_word_len(t, lower, w, 0, marks);
        lemma_mark_words_len(t, lower, ws, k + 1, m2);
    }
}

fn sort_by_length_desc(words: &[String]) -> (r: Vec<Vec<char>>)
    ensures
        r@.map_values(|v: Vec<char>| v@) == by_length_desc(words@.map_values(|w: String| w@)),
{
    let ghost wv = words@.map_values(|w: String| w@);
    let mut out: Vec<Vec<char>> = Vec::new();
    let mut k: usize = 0;
    assert(out@.map_values(|v: Vec<char>| v@) =~= Seq::<Seq<char>>::empty());
    while k < words.len()
        invariant
            k <= words@.len(),
            wv == words@.map_values(|w: String| w@),
            out@.map_values(|v: Vec<char>| v@) == by_length_desc(wv.take(k as int)),
        decreases words.len() - k,
    {
        let w = chars_of(words[k].as_str());
        let ghost s = out@.map_values(|v: Vec<char>| v@);
        assert(wv.take(k + 1).drop_last() =~= wv.take(k as int));
        assert(wv.take(k + 1).last() == w@);
        let mut j: usize = 0;
        while j < out.len()
            invariant
                j <= out@.len(),
                s == out@.map_values(|v: Vec<char>| v@),
                len_insert_pos(s, w@, j as int) == len_insert_pos(s, w@, 0),
            ensures
                j <= out@.len(),
                len_insert_pos(s, w@, 0) == j as int,
            decreases out.len() - j,
        {
            assert(s[j as int] == out@[j as int]@);
            if out[j].len() < w.len() {
                break;
            }
            j += 1;
        }
        proof {
            lemma_len_insert_pos(s, w@, 0);
        }
        out.insert(j, w);
        assert(out@.map_values(|v: Vec<char>| v@) =~= s.insert(j as int, w@));
        k += 1;
    }
    assert(wv.take(words@.len() as int) =~= wv);
    out
}

/// The text with the allowed words replaced by spaces (see `strip_allowed_spec`).
pub fn strip_allowed_words(text: &str, words: &[String]) -> (r: String)
    ensures
        r@ == strip_allowed_spec(text@, words@.map_values(|w: String| w@)),
{
    if words.len() == 0 {
        return owned(text);
    }
    let sorted = sort_by_length_desc(words);
    let ghost sv = sorted@.map_values(|v: Vec<char>| v@);
    let t = chars_of(text);
    let lower = lower_chars(&t);
    let n = t.len();
    let ln = lower.len();
    let mut marks: Vec<bool> = Vec::new();
    let mut q: usize = 0;
    while q < n
        invariant
            q <= n,
            marks@ == Seq::new(q as nat, |k: int| false),
        decreases n - q,
    {
        marks.push(false);
        q += 1;
        assert(marks@ =~= Seq::new(q as nat, |k: int| false));
    }
    let ghost m0 = marks@;
    let mut k: usize = 0;
    while k < sorted.len()
        invariant
            k <= sorted@.len(),
            sv == sorted@.map_values(|v: Vec<char>| v@),
            t@ == text@,
            lower@ == lowercase(t@),
            n == t@.len(),
            ln == lower@.len(),
            marks@.len() == n,
            mark_words(t@, lower@, sv, k as int, marks@) == mark_words(t@, lower@, sv, 0, m0),
        decreases sorted.len() - k,
    {
        let w = lower_chars(&sorted[k]);
        assert(sv[k as int] == sorted@[k as int]@);
        let wl = w.len();
        if wl > 0 && ln >= wl {
            let ghost mstart = marks@;
            let mut i: usize = 0;
            while i <= ln - wl
                invariant
                    wl == w@.len(),
                    wl > 0,
                    ln >= wl,
                    i <= ln - wl + 1,
                    ln == lower@.len(),
                    n == t@.len(),
                    marks@.len() == n,
                    mark_word(t@, lower@, w@, i as int, marks@) == mark_word(t@, lower@, w@, 0, mstart),
                decreases ln - wl + 1 - i,
            {
                let ghost before = marks@;
                let ok = i < n && !marks[i] && crate::text::matches_at(&lower, &w, i) && !(i > 0
                    && is_latin(t[i - 1])) && !(wl < n - i && is_latin(t[i + wl])) && wl <= n - i;
                proof {
                    if i < n && !before[i as int] {
                        assert(crate::text::occurs_at(lower@, w@, i as int) == (lower@.subrange(
                            i as int,
                            i + wl,
                        ) == w@));
                    }
                }
                if ok {
                    let mut j: usize = 0;
                    while j < wl
                        invariant
                            j <= wl,
                            i + wl <= n,
                            marks@.len() == n,
                            forall|q: int|
                                0 <= q < n ==> #[trigger] marks@[q] == (before[q] || (i <= q < i + j)),
                        decreases wl - j,
                    {
                        marks.set(i + j, true);
                        j += 1;
                    }
                    assert(marks@ =~= Seq::new(before.len(), |q: int| before[q] || (i <= q < i + wl)));
                }
                i += 1;
            }
            proof {
                lemma_mark_word_len(t@, lower@, w@, 0, mstart);
            }
        }
        k += 1;
    }
    proof {
        lemma_mark_words_len(t@, lower@, sv, 0, m0);
    }
    let ghost fm = marks@;
    let mut out: Vec<char> = Vec::new();
    let mut p: usize = 0;
    while p < n
        invariant
            p <= n,
            n == t@.len(),
            marks@ == fm,
            fm.len() == n,
            out@ == Seq::new(
                p as nat,
                |k: int|
                    if fm[k] {
                        ' '
                    } else {
                        t@[k]
                    },
            ),
        decreases n - p,
    {
        out.push(if marks[p] {
            ' '
        } else {
            t[p]
        });
        p += 1;
        assert(out@ =~= Seq::new(
            p as nat,
            |k: int|
                if fm[k] {
                    ' '
                } else {
                    t@[k]
                },
        ));
    }
    crate::text::string_of(&out)
}

/// Stripping allowed words keeps every position: the text keeps its length, and each
/// character is either kept or replaced by a space.
pub proof fn law_strip_keeps_positions(t: Seq<char>, words: Seq<Seq<char>>)
    ensures
        strip_allowed_spec(t, words).len() == t.len(),
        forall|k: int| 0 <= k < t.len() ==> #[trigger] strip_allowed_spec(t, words)[k] == t[k]
            || strip_allowed_spec(t, words)[k] == ' ',
{
}
} // verus!
