//! Small text helpers shared by the checks.

use vstd::prelude::*;
use crate::text::{chars_of, extend_chars, string_of, trim_end_set, split_seq};

verus! {

/// At most `max` characters of `s`, followed by `…` when characters were cut.
pub open spec fn truncated(s: Seq<char>, max: int) -> Seq<char> {
    if s.len() > max {
        s.take(max).push('…')
    } else {
        s
    }
}

/// Truncates to at most `max` characters, appending an ellipsis when something was cut.
pub fn truncate(s: &str, max: usize) -> (r: String)
    ensures
        r@ == truncated(s@, max as int),
{
    let c = chars_of(s);
    if c.len() > max {
        let mut out = crate::text::slice_chars(&c, 0, max);
        out.push('…');
        string_of(&out)
    } else {
        string_of(&c)
    }
}

/// A string with a `/` (a path or a MIME type).
pub open spec fn path_like(s: Seq<char>) -> bool {
    s.contains('/')
}

/// Whether the string contains a slash.
pub fn is_path_like_string(s: &str) -> (r: bool)
    ensures
        r == path_like(s@),
{
    let c = chars_of(s);
    crate::text::find_char(&c, '/').is_some()
}

/// ASCII without lower-case letters (a constant identifier).
pub open spec fn all_uppercase_ascii(s: Seq<char>) -> bool {
    forall|i: int| 0 <= i < s.len() ==> (s[i] as u32) <= 0x7F && !('a' <= #[trigger] s[i] <= 'z')
}

/// Whether the string is ASCII with no lower-case letter.
pub fn is_all_uppercase_ascii(s: &str) -> (r: bool)
    ensures
        r == all_uppercase_ascii(s@),
{
    let c = chars_of(s);
    let mut i: usize = 0;
    while i < c.len()
        invariant
            i <= c@.len(),
            c@ == s@,
            forall|j: int| 0 <= j < i ==> (s@[j] as u32) <= 0x7F && !('a' <= #[trigger] s@[j] <= 'z'),
        decreases c.len() - i,
    {
        let r = c[i];
        if r as u32 > 0x7F {
            return false;
        }
        if 'a' <= r && r <= 'z' {
            return false;
        }
        i += 1;
    }
    true
}

/// A technical string: path-like or an upper-case constant.
pub open spec fn technical(s: Seq<char>) -> bool {
    path_like(s) || all_uppercase_ascii(s)
}

/// Whether a string is technical and excluded from language checks.
pub fn is_technical_string(s: &str) -> (r: bool)
    ensures
        r == technical(s@),
{
    is_path_like_string(s) || is_all_uppercase_ascii(s)
}

/// The lines of a text after trailing line feeds are removed.
pub open spec fn trimmed_lines(s: Seq<char>) -> Seq<Seq<char>> {
    split_seq(trim_end_set(s, seq!['\n']), '\n')
}

/// The lines of a text after trailing line feeds are removed.
pub fn lines_trimmed(s: &[char]) -> (r: Vec<Vec<char>>)
    ensures
        r@.map_values(|v: Vec<char>| v@) == trimmed_lines(s@),
        r@.len() >= 1,
{
    let nl = ['\n'];
    assert(nl@ == seq!['\n']);
    let t = crate::text::trim_end_matches(s, &nl);
    crate::text::split(&t, '\n')
}

/// Decimal rendering of a count.
pub fn dec_string(n: u64) -> (r: String)
    ensures
        r@ == crate::text::dec_seq(n as nat),
{
    string_of(&crate::text::fmt_u64(n))
}

/// Decimal rendering of a signed number.
pub fn int_string(n: i64) -> (r: String)
    ensures
        r@ == crate::text::int_seq(n as int),
{
    string_of(&crate::text::fmt_i64(n))
}

/// Upper-case hex rendering, zero-padded to `w` digits.
pub fn hex_string(n: u64, w: usize) -> (r: String)
    ensures
        r@ == crate::text::hex_pad(n as nat, w as nat),
{
    string_of(&crate::text::fmt_hex_pad(n, w))
}

/// A one-character string.
pub fn char_string(c: char) -> (r: String)
    ensures
        r@ == seq![c],
{
    let mut s = String::new();
    crate::text::push_char(&mut s, c);
    assert(s@ =~= seq![c]);
    s
}

} // verus!
