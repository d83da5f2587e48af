//! Unicode character classes used by the commit-message and file checks: invisible
//! (zero-width or non-standard space) characters and characters that can be confused with
//! ASCII in a given locale.

use vstd::prelude::*;
use crate::text::{chars_eq_str, chars_of, owned, rfind_before};

verus! {

// ---------------------------------------------------------------------------
// Invisible characters.
// ---------------------------------------------------------------------------

/// Whether `u` lies in the strided range `lo..=hi` with step `stride`.
pub open spec fn in_strided(u: u32, lo: u32, hi: u32, stride: u32) -> bool {
    lo <= u <= hi && (u - lo) % (stride as int) == 0
}

fn in_strided_exec(u: u32, lo: u32, hi: u32, stride: u32) -> (r: bool)
    requires
        stride > 0,
    ensures
        r == in_strided(u, lo, hi, stride),
{
    lo <= u && u <= hi && (u - lo) % stride == 0
}

/// The table of invisible code points (strided ranges; U+FEFF, the byte-order mark, is not in it).
pub open spec fn in_invisible_ranges(u: u32) -> bool {
    in_strided(u, 11, 13, 1)
    || in_strided(u, 127, 160, 33)
    || in_strided(u, 173, 847, 674)
    || in_strided(u, 1564, 4447, 2883)
    || in_strided(u, 4448, 6068, 1620)
    || in_strided(u, 6069, 6155, 86)
    || in_strided(u, 6156, 6158, 1)
    || in_strided(u, 7355, 7356, 1)
    || in_strided(u, 8192, 8207, 1)
    || in_strided(u, 8234, 8239, 1)
    || in_strided(u, 8287, 8303, 1)
    || in_strided(u, 10240, 12288, 2048)
    || in_strided(u, 12644, 65024, 52380)
    || in_strided(u, 65025, 65039, 1)
    || in_strided(u, 65440, 65440, 1)
    || in_strided(u, 65520, 65528, 1)
    || in_strided(u, 65532, 65532, 1)
    || in_strided(u, 78844, 119155, 40311)
    || in_strided(u, 119156, 119162, 1)
    || in_strided(u, 917504, 917631, 1)
    || in_strided(u, 917760, 917999, 1)
}

fn in_ranges(u: u32) -> (r: bool)
    ensures
        r == in_invisible_ranges(u),
{
    in_strided_exec(u, 11, 13, 1)
        || in_strided_exec(u, 127, 160, 33)
        || in_strided_exec(u, 173, 847, 674)
        || in_strided_exec(u, 1564, 4447, 2883)
        || in_strided_exec(u, 4448, 6068, 1620)
        || in_strided_exec(u, 6069, 6155, 86)
        || in_strided_exec(u, 6156, 6158, 1)
        || in_strided_exec(u, 7355, 7356, 1)
        || in_strided_exec(u, 8192, 8207, 1)
        || in_strided_exec(u, 8234, 8239, 1)
        || in_strided_exec(u, 8287, 8303, 1)
        || in_strided_exec(u, 10240, 12288, 2048)
        || in_strided_exec(u, 12644, 65024, 52380)
        || in_strided_exec(u, 65025, 65039, 1)
        || in_strided_exec(u, 65440, 65440, 1)
        || in_strided_exec(u, 65520, 65528, 1)
        || in_strided_exec(u, 65532, 65532, 1)
        || in_strided_exec(u, 78844, 119155, 40311)
        || in_strided_exec(u, 119156, 119162, 1)
        || in_strided_exec(u, 917504, 917631, 1)
        || in_strided_exec(u, 917760, 917999, 1)
}

/// Invisible characters: the table's code points, except space, tab, line feed and carriage
/// return.
pub open spec fn invisible(c: char) -> bool {
    c != ' ' && c != '\t' && c != '\n' && c != '\r' && in_invisible_ranges(c as u32)
}

/// Whether the character is an invisible or zero-width character (the byte-order mark is not).
pub fn is_invisible(c: char) -> (r: bool)
    ensures
        r == invisible(c),
{
    if c == ' ' || c == '\t' || c == '\n' || c == '\r' {
        return false;
    }
    in_ranges(c as u32)
}

/// The Unicode name of a well-known invisible character; empty for any other code point.
pub open spec fn invisible_name_spec(u: u32) -> Seq<char> {
    if u == 0x00A0 {
        "NO-BREAK SPACE"@
    }     else if u == 0x00AD {
        "SOFT HYPHEN"@
    }     else if u == 0x034F {
        "COMBINING GRAPHEME JOINER"@
    }     else if u == 0x1680 {
        "OGHAM SPACE MARK"@
    }     else if u == 0x180E {
        "MONGOLIAN VOWEL SEPARATOR"@
    }     else if u == 0x2000 {
        "EN QUAD"@
    }     else if u == 0x2001 {
        "EM QUAD"@
    }     else if u == 0x2002 {
        "EN SPACE"@
    }     else if u == 0x2003 {
        "EM SPACE"@
    }     else if u == 0x2004 {
        "THREE-PER-EM SPACE"@
    }     else if u == 0x2005 {
        "FOUR-PER-EM SPACE"@
    }     else if u == 0x2006 {
        "SIX-PER-EM SPACE"@
    }     else if u == 0x2007 {
        "FIGURE SPACE"@
    }     else if u == 0x2008 {
        "PUNCTUATION SPACE"@
    }     else if u == 0x2009 {
        "THIN SPACE"@
    }     else if u == 0x200A {
        "HAIR SPACE"@
    }     else if u == 0x200B {
        "ZERO WIDTH SPACE"@
    }     else if u == 0x200C {
        "ZERO WIDTH NON-JOINER"@
    }     else if u == 0x200D {
        "ZERO WIDTH JOINER"@
    }     else if u == 0x200E {
        "LEFT-TO-RIGHT MARK"@
    }     else if u == 0x200F {
        "RIGHT-TO-LEFT MARK"@
    }     else if u == 0x202A {
        "LEFT-TO-RIGHT EMBEDDING"@
    }     else if u == 0x202B {
        "RIGHT-TO-LEFT EMBEDDING"@
    }     else if u == 0x202C {
        "POP DIRECTIONAL FORMATTING"@
    }     else if u == 0x202D {
        "LEFT-TO-RIGHT OVERRIDE"@
    }     else if u == 0x202E {
        "RIGHT-TO-LEFT OVERRIDE"@
    }     else if u == 0x202F {
        "NARROW NO-BREAK SPACE"@
    }     else if u == 0x205F {
        "MEDIUM MATHEMATICAL SPACE"@
    }     else if u == 0x2060 {
        "WORD JOINER"@
    }     else if u == 0x2061 {
        "FUNCTION APPLICATION"@
    }     else if u == 0x2062 {
        "INVISIBLE TIMES"@
    }     else if u == 0x2063 {
        "INVISIBLE SEPARATOR"@
    }     else if u == 0x2064 {
        "INVISIBLE PLUS"@
    }     else if u == 0x206A {
        "INHIBIT SYMMETRIC SWAPPING"@
    }     else if u == 0x206B {
        "ACTIVATE SYMMETRIC SWAPPING"@
    }     else if u == 0x206C {
        "INHIBIT ARABIC FORM SHAPING"@
    }     else if u == 0x206D {
        "ACTIVATE ARABIC FORM SHAPING"@
    }     else if u == 0x206E {
        "NATIONAL DIGIT SHAPES"@
    }     else if u == 0x206F {
        "NOMINAL DIGIT SHAPES"@
    }     else if u == 0x2800 {
        "BRAILLE PATTERN BLANK"@
    }     else if u == 0x3000 {
        "IDEOGRAPHIC SPACE"@
    }     else if u == 0xFFA0 {
        "HALFWIDTH HANGUL FILLER"@
    } else {
        Seq::empty()
    }
}

/// The name of an invisible character, or the empty string when it has none here.
pub fn invisible_name(c: char) -> (r: &'static str)
    ensures
        r@ == invisible_name_spec(c as u32),
{
    let u = c as u32;
    if u == 0x00A0 {
        "NO-BREAK SPACE"
    }     else if u == 0x00AD {
        "SOFT HYPHEN"
    }     else if u == 0x034F {
        "COMBINING GRAPHEME JOINER"
    }     else if u == 0x1680 {
        "OGHAM SPACE MARK"
    }     else if u == 0x180E {
        "MONGOLIAN VOWEL SEPARATOR"
    }     else if u == 0x2000 {
        "EN QUAD"
    }     else if u == 0x2001 {
        "EM QUAD"
    }     else if u == 0x2002 {
        "EN SPACE"
    }     else if u == 0x2003 {
        "EM SPACE"
    }     else if u == 0x2004 {
        "THREE-PER-EM SPACE"
    }     else if u == 0x2005 {
        "FOUR-PER-EM SPACE"
    }     else if u == 0x2006 {
        "SIX-PER-EM SPACE"
    }     else if u == 0x2007 {
        "FIGURE SPACE"
    }     else if u == 0x2008 {
        "PUNCTUATION SPACE"
    }     else if u == 0x2009 {
        "THIN SPACE"
    }     else if u == 0x200A {
        "HAIR SPACE"
    }     else if u == 0x200B {
        "ZERO WIDTH SPACE"
    }     else if u == 0x200C {
        "ZERO WIDTH NON-JOINER"
    }     else if u == 0x200D {
        "ZERO WIDTH JOINER"
    }     else if u == 0x200E {
        "LEFT-TO-RIGHT MARK"
    }     else if u == 0x200F {
        "RIGHT-TO-LEFT MARK"
    }     else if u == 0x202A {
        "LEFT-TO-RIGHT EMBEDDING"
    }     else if u == 0x202B {
        "RIGHT-TO-LEFT EMBEDDING"
    }     else if u == 0x202C {
        "POP DIRECTIONAL FORMATTING"
    }     else if u == 0x202D {
        "LEFT-TO-RIGHT OVERRIDE"
    }     else if u == 0x202E {
        "RIGHT-TO-LEFT OVERRIDE"
    }     else if u == 0x202F {
        "NARROW NO-BREAK SPACE"
    }     else if u == 0x205F {
        "MEDIUM MATHEMATICAL SPACE"
    }     else if u == 0x2060 {
        "WORD JOINER"
    }     else if u == 0x2061 {
        "FUNCTION APPLICATION"
    }     else if u == 0x2062 {
        "INVISIBLE TIMES"
    }     else if u == 0x2063 {
        "INVISIBLE SEPARATOR"
    }     else if u == 0x2064 {
        "INVISIBLE PLUS"
    }     else if u == 0x206A {
        "INHIBIT SYMMETRIC SWAPPING"
    }     else if u == 0x206B {
        "ACTIVATE SYMMETRIC SWAPPING"
    }     else if u == 0x206C {
        "INHIBIT ARABIC FORM SHAPING"
    }     else if u == 0x206D {
        "ACTIVATE ARABIC FORM SHAPING"
    }     else if u == 0x206E {
        "NATIONAL DIGIT SHAPES"
    }     else if u == 0x206F {
        "NOMINAL DIGIT SHAPES"
    }     else if u == 0x2800 {
        "BRAILLE PATTERN BLANK"
    }     else if u == 0x3000 {
        "IDEOGRAPHIC SPACE"
    }     else if u == 0xFFA0 {
        "HALFWIDTH HANGUL FILLER"
    } else {
        proof {
            reveal_strlit("");
        }
        ""
    }
}

// ---------------------------------------------------------------------------
// Confusable characters.
// ---------------------------------------------------------------------------

/// For one locale, the code points that can be confused with an ASCII character
/// (`confusable`, ascending) and that character's code (`with_`, at the same index).
#[derive(Debug, Clone, PartialEq, Eq)]
pub struct AmbiguousTable {
    pub confusable: Vec<u32>,
    pub with_: Vec<u32>,
    pub locale: String,
}

/// Code points of the `common` group.
pub open spec fn common_points() -> Seq<u32> {
    seq![0x2010u32, 0x2011u32, 0x2012u32, 0x2013u32, 0x201Au32, 0x2024u32, 0x2044u32, 0x2212u32, 0x2215u32, 0x2223u32, 0x2236u32, 0x2571u32, 0x3008u32, 0x3009u32, 0xFF01u32, 0xFF0Cu32, 0xFF1Au32, 0xFF1Bu32]
}

/// ASCII codes of the `common` group, index by index.
pub open spec fn common_ascii() -> Seq<u32> {
    seq![45u32, 45u32, 45u32, 45u32, 44u32, 46u32, 47u32, 45u32, 47u32, 124u32, 58u32, 47u32, 60u32, 62u32, 33u32, 44u32, 58u32, 59u32]
}

fn common_data() -> (r: (Vec<u32>, Vec<u32>))
    ensures
        r.0@ == common_points(),
        r.1@ == common_ascii(),
{
    let a: Vec<u32> = vec![0x2010u32, 0x2011u32, 0x2012u32, 0x2013u32, 0x201Au32, 0x2024u32, 0x2044u32, 0x2212u32, 0x2215u32, 0x2223u32, 0x2236u32, 0x2571u32, 0x3008u32, 0x3009u32, 0xFF01u32, 0xFF0Cu32, 0xFF1Au32, 0xFF1Bu32];
    let b: Vec<u32> = vec![45u32, 45u32, 45u32, 45u32, 44u32, 46u32, 47u32, 45u32, 47u32, 124u32, 58u32, 47u32, 60u32, 62u32, 33u32, 44u32, 58u32, 59u32];
    (a, b)
}

/// Code points of the `latin_lookalikes` group.
pub open spec fn latin_lookalikes_points() -> Seq<u32> {
    seq![0x0391u32, 0x0392u32, 0x0395u32, 0x0396u32, 0x0397u32, 0x0399u32, 0x039Au32, 0x039Cu32, 0x039Du32, 0x039Fu32, 0x03A1u32, 0x03A4u32, 0x03A5u32, 0x03A7u32, 0x03BDu32, 0x03BFu32, 0x0405u32, 0x0406u32, 0x0408u32, 0x0410u32, 0x0412u32, 0x0415u32, 0x041Au32, 0x041Cu32, 0x041Du32, 0x041Eu32, 0x0420u32, 0x0421u32, 0x0422u32, 0x0425u32, 0x0430u32, 0x0435u32, 0x043Eu32, 0x0440u32, 0x0441u32, 0x0443u32, 0x0445u32, 0x0455u32, 0x0456u32, 0x0458u32]
}

/// ASCII codes of the `latin_lookalikes` group, index by index.
pub open spec fn latin_lookalikes_ascii() -> Seq<u32> {
    seq![65u32, 66u32, 69u32, 90u32, 72u32, 73u32, 75u32, 77u32, 78u32, 79u32, 80u32, 84u32, 89u32, 88u32, 118u32, 111u32, 83u32, 73u32, 74u32, 65u32, 66u32, 69u32, 75u32, 77u32, 72u32, 79u32, 80u32, 67u32, 84u32, 88u32, 97u32, 101u32, 111u32, 112u32, 99u32, 121u32, 120u32, 115u32, 105u32, 106u32]
}

fn latin_lookalikes_data() -> (r: (Vec<u32>, Vec<u32>))
    ensures
        r.0@ == latin_lookalikes_points(),
        r.1@ == latin_lookalikes_ascii(),
{
    let a: Vec<u32> = vec![0x0391u32, 0x0392u32, 0x0395u32, 0x0396u32, 0x0397u32, 0x0399u32, 0x039Au32, 0x039Cu32, 0x039Du32, 0x039Fu32, 0x03A1u32, 0x03A4u32, 0x03A5u32, 0x03A7u32, 0x03BDu32, 0x03BFu32, 0x0405u32, 0x0406u32, 0x0408u32, 0x0410u32, 0x0412u32, 0x0415u32, 0x041Au32, 0x041Cu32, 0x041Du32, 0x041Eu32, 0x0420u32, 0x0421u32, 0x0422u32, 0x0425u32, 0x0430u32, 0x0435u32, 0x043Eu32, 0x0440u32, 0x0441u32, 0x0443u32, 0x0445u32, 0x0455u32, 0x0456u32, 0x0458u32];
    let b: Vec<u32> = vec![65u32, 66u32, 69u32, 90u32, 72u32, 73u32, 75u32, 77u32, 78u32, 79u32, 80u32, 84u32, 89u32, 88u32, 118u32, 111u32, 83u32, 73u32, 74u32, 65u32, 66u32, 69u32, 75u32, 77u32, 72u32, 79u32, 80u32, 67u32, 84u32, 88u32, 97u32, 101u32, 111u32, 112u32, 99u32, 121u32, 120u32, 115u32, 105u32, 106u32];
    (a, b)
}

/// Code points of the `greek_lookalikes` group.
pub open spec fn greek_lookalikes_points() -> Seq<u32> {
    seq![0x0391u32, 0x0392u32, 0x0395u32, 0x0396u32, 0x0397u32, 0x0399u32, 0x039Au32, 0x039Cu32, 0x039Du32, 0x039Fu32, 0x03A1u32, 0x03A4u32, 0x03A5u32, 0x03A7u32, 0x03BDu32, 0x03BFu32]
}

/// ASCII codes of the `greek_lookalikes` group, index by index.
pub open spec fn greek_lookalikes_ascii() -> Seq<u32> {
    seq![65u32, 66u32, 69u32, 90u32, 72u32, 73u32, 75u32, 77u32, 78u32, 79u32, 80u32, 84u32, 89u32, 88u32, 118u32, 111u32]
}

fn greek_lookalikes_data() -> (r: (Vec<u32>, Vec<u32>))
    ensures
        r.0@ == greek_lookalikes_points(),
        r.1@ == greek_lookalikes_ascii(),
{
    let a: Vec<u32> = vec![0x0391u32, 0x0392u32, 0x0395u32, 0x0396u32, 0x0397u32, 0x0399u32, 0x039Au32, 0x039Cu32, 0x039Du32, 0x039Fu32, 0x03A1u32, 0x03A4u32, 0x03A5u32, 0x03A7u32, 0x03BDu32, 0x03BFu32];
    let b: Vec<u32> = vec![65u32, 66u32, 69u32, 90u32, 72u32, 73u32, 75u32, 77u32, 78u32, 79u32, 80u32, 84u32, 89u32, 88u32, 118u32, 111u32];
    (a, b)
}

/// The keys of the known tables.
pub open spec fn table_key(key: Seq<char>) -> bool {
    key == "_common"@ || key == "_default"@ || key == "ja"@ || key == "ko"@ || key == "ru"@
        || key == "zh-hans"@ || key == "zh-hant"@
}

/// The data of the table with a known key: `_common` holds punctuation look-alikes, `ru` the
/// Greek ones, every other table the Greek and Cyrillic ones.
pub open spec fn table_points(key: Seq<char>) -> (Seq<u32>, Seq<u32>) {
    if key == "_common"@ {
        (common_points(), common_ascii())
    } else if key == "ru"@ {
        (greek_lookalikes_points(), greek_lookalikes_ascii())
    } else {
        (latin_lookalikes_points(), latin_lookalikes_ascii())
    }
}

/// Whether `t` is the table stored under `key`.
pub open spec fn is_table(t: AmbiguousTable, key: Seq<char>) -> bool {
    &&& table_key(key)
    &&& t.locale@ == key
    &&& t.confusable@ == table_points(key).0
    &&& t.with_@ == table_points(key).1
}

/// Looks up a table by key (`_common`, `_default`, `ja`, `ko`, `ru`, `zh-hans`, `zh-hant`).
pub fn lookup(key: &str) -> (r: Option<AmbiguousTable>)
    ensures
        r matches Some(t) ==> is_table(t, key@),
        r is None <==> !table_key(key@),
{
    let is_common = str_eq_lit(key, "_common");
    let is_ru = str_eq_lit(key, "ru");
    if !(is_common || is_ru || str_eq_lit(key, "_default") || str_eq_lit(key, "ja") || str_eq_lit(
        key,
        "ko",
    ) || str_eq_lit(key, "zh-hans") || str_eq_lit(key, "zh-hant")) {
        return None;
    }
    let (a, b) = if is_common {
        common_data()
    } else if is_ru {
        greek_lookalikes_data()
    } else {
        latin_lookalikes_data()
    };
    Some(AmbiguousTable { confusable: a, with_: b, locale: owned(key) })
}

fn str_eq_lit(a: &str, b: &str) -> (r: bool)
    ensures
        r == (a@ == b@),
{
    crate::text::str_eq(a, b)
}


// ---------------------------------------------------------------------------
// Choosing tables for a locale.
// ---------------------------------------------------------------------------

/// Index of the last `-` or `_` before `j`.
pub open spec fn last_sep_before(s: Seq<char>, j: int) -> Option<int>
    decreases j,
{
    if j <= 0 || j > s.len() {
        None
    } else if s[j - 1] == '-' || s[j - 1] == '_' {
        Some(j - 1)
    } else {
        last_sep_before(s, j - 1)
    }
}

pub proof fn lemma_last_sep_bounds(s: Seq<char>, j: int)
    ensures
        last_sep_before(s, j) matches Some(i) ==> 0 <= i < j,
    decreases j,
{
    if j > 0 && j <= s.len() && !(s[j - 1] == '-' || s[j - 1] == '_') {
        lemma_last_sep_bounds(s, j - 1);
    }
}

/// The first known table key among `key` and its shorter forms (cut at the last `-` or `_`).
pub open spec fn subtag_key(key: Seq<char>) -> Option<Seq<char>>
    decreases key.len(),
{
    if key.len() == 0 {
        None
    } else if table_key(key) {
        Some(key)
    } else {
        match last_sep_before(key, key.len() as int) {
            Some(i) => {
                proof {
                    lemma_last_sep_bounds(key, key.len() as int);
                }
                subtag_key(key.take(i))
            },
            None => None,
        }
    }
}

/// The key of the locale-specific table: by subtag fallback; else `zh-hans` for `zh-CN` or
/// `zh_CN`; else `zh-hant` for any other `zh` locale; else `_default`.
pub open spec fn locale_table_key(locale: Seq<char>) -> Seq<char> {
    match subtag_key(locale) {
        Some(k) => k,
        None => if locale == "zh-CN"@ || locale == "zh_CN"@ {
            "zh-hans"@
        } else if crate::text::has_prefix(locale, "zh"@) {
            "zh-hant"@
        } else {
            "_default"@
        },
    }
}

fn last_sep(s: &[char]) -> (r: Option<usize>)
    ensures
        r matches Some(i) ==> last_sep_before(s@, s@.len() as int) == Some(i as int) && i < s@.len(),
        r is None ==> last_sep_before(s@, s@.len() as int) is None,
{
    let mut j = s.len();
    while j > 0
        invariant
            j <= s@.len(),
            last_sep_before(s@, j as int) == last_sep_before(s@, s@.len() as int),
        decreases j,
    {
        if s[j - 1] == '-' || s[j - 1] == '_' {
            return Some(j - 1);
        }
        j -= 1;
    }
    None
}

/// The confusable-character tables for a locale: the locale's table (see
/// `locale_table_key`) followed by the `_common` table.
pub fn tables_for_locale(locale: &str) -> (r: Vec<AmbiguousTable>)
    ensures
        r@.len() == 2,
        is_table(r@[0], locale_table_key(locale@)),
        is_table(r@[1], "_common"@),
        table_views(r@) == locale_tables(locale@),
{
    let mut key = chars_of(locale);
    let mut table: Option<AmbiguousTable> = None;
    while key.len() > 0
        invariant_except_break
            table is None,
            subtag_key(key@) == subtag_key(locale@),
        ensures
            match table {
                Some(t) => subtag_key(locale@) matches Some(k) && is_table(t, k),
                None => subtag_key(locale@) is None,
            },
        decreases key@.len(),
    {
        let ks = crate::text::string_of(&key);
        match lookup(ks.as_str()) {
            Some(t) => {
                table = Some(t);
                break;
            },
            None => {},
        }
        match last_sep(&key) {
            Some(i) => {
                key = crate::text::slice_chars(&key, 0, i);
                assert(key@ =~= key@.take(i as int));
            },
            None => {
                key = Vec::new();
            },
        }
    }
    if table.is_none() && (str_eq_lit(locale, "zh-CN") || str_eq_lit(locale, "zh_CN")) {
        table = lookup("zh-hans");
    }
    if table.is_none() && crate::text::starts_with_str(&chars_of(locale), "zh") {
        table = lookup("zh-hant");
    }
    if table.is_none() {
        table = lookup("_default");
    }
    let mut out: Vec<AmbiguousTable> = Vec::new();
    match table {
        Some(t) => out.push(t),
        None => {},
    }
    match lookup("_common") {
        Some(c) => out.push(c),
        None => {},
    }
    assert(table_views(out@) =~= locale_tables(locale@));
    out
}

/// Whether the table's confusable and replacement lists have the same length.
pub open spec fn table_wf(t: AmbiguousTable) -> bool {
    t.confusable@.len() == t.with_@.len()
}

/// The data of the tables: each table's confusable code points and replacement codes.
pub open spec fn table_views(ts: Seq<AmbiguousTable>) -> Seq<(Seq<u32>, Seq<u32>)> {
    ts.map_values(|t: AmbiguousTable| (t.confusable@, t.with_@))
}

/// The tables used for a locale: its own table and the `_common` one.
pub open spec fn locale_tables(locale: Seq<char>) -> Seq<(Seq<u32>, Seq<u32>)> {
    seq![table_points(locale_table_key(locale)), table_points("_common"@)]
}

/// The replacement code of `u` in the first table of `ts[k..]` that lists it (first position
/// within that table).
pub open spec fn confusable_code(ts: Seq<(Seq<u32>, Seq<u32>)>, k: int, u: u32) -> Option<u32>
    decreases ts.len() - k,
{
    if k < 0 || k >= ts.len() {
        None
    } else {
        match crate::langdetect::first_index_u32(ts[k].0, u) {
            Some(i) => Some(ts[k].1[i]),
            None => confusable_code(ts, k + 1, u),
        }
    }
}

/// Whether `u` is a Unicode scalar value.
pub open spec fn scalar_value(u: u32) -> bool {
    u < 0xD800 || (0xE000 <= u && u <= 0x10FFFF)
}

/// `char::from_u32`: the character with code `u`, or `None` when `u` is a surrogate or
/// above U+10FFFF.
#[verifier::external_body]
pub fn char_from_u32(u: u32) -> (r: Option<char>)
    ensures
        r matches Some(c) ==> scalar_value(u) && c as u32 == u && c == u as char,
        r is None ==> !scalar_value(u),
{
    char::from_u32(u)
}

/// The ASCII character that `c` resembles according to the tables, if any.
pub open spec fn ambiguous_spec(tables: Seq<(Seq<u32>, Seq<u32>)>, c: char) -> Option<char> {
    match confusable_code(tables, 0, c as u32) {
        Some(w) => if scalar_value(w) {
            Some(w as char)
        } else {
            None
        },
        None => None,
    }
}

fn position_in(v: &Vec<u32>, u: u32) -> (r: Option<usize>)
    ensures
        r matches Some(i) ==> crate::langdetect::first_index_u32(v@, u) == Some(i as int) && i < v@.len(),
        r is None ==> crate::langdetect::first_index_u32(v@, u) is None,
{
    let mut i: usize = 0;
    while i < v.len()
        invariant
            i <= v@.len(),
            forall|j: int| 0 <= j < i ==> v@[j] != u,
        decreases v.len() - i,
    {
        if v[i] == u {
            proof {
                crate::langdetect::lemma_first_index_u32(v@, u, i as int);
            }
            return Some(i);
        }
        i += 1;
    }
    None
}

/// Returns the ASCII character that `c` resembles in the first table listing it.
pub fn is_ambiguous(c: char, tables: &[AmbiguousTable]) -> (r: Option<char>)
    requires
        forall|k: int| 0 <= k < tables@.len() ==> table_wf(#[trigger] tables@[k]),
    ensures
        r == ambiguous_spec(table_views(tables@), c),
{
    let u = c as u32;
    let mut k: usize = 0;
    while k < tables.len()
        invariant
            k <= tables@.len(),
            u == c as u32,
            forall|j: int| 0 <= j < tables@.len() ==> table_wf(#[trigger] tables@[j]),
            confusable_code(table_views(tables@), k as int, u) == confusable_code(table_views(tables@), 0, u),
        decreases tables.len() - k,
    {
        match position_in(&tables[k].confusable, u) {
            Some(i) => {
                assert(table_wf(tables@[k as int]));
                let w = tables[k].with_[i];
                return char_from_u32(w);
            },
            None => {},
        }
        k += 1;
    }
    None
}

} // verus!
