//! Go source helpers: the package clause and the unquoting of interpreted strings.

use vstd::prelude::*;
use crate::text::{alphabetic, alphanumeric, is_alphabetic, is_alphanumeric, is_whitespace, is_ws, utf8_lossy};
use crate::charset::scalar_value;

verus! {

// ---------------------------------------------------------------------------
// Package clause.
// ---------------------------------------------------------------------------

/// First index at or after `i` that is not white space.
pub open spec fn skip_ws(r: Seq<char>, i: int) -> int
    decreases r.len() - i,
{
    if 0 <= i < r.len() && is_ws(r[i]) {
        skip_ws(r, i + 1)
    } else {
        i
    }
}

/// Index of the first line feed at or after `i` (or the end).
pub open spec fn line_end(r: Seq<char>, i: int) -> int
    decreases r.len() - i,
{
    if 0 <= i < r.len() && r[i] != '\n' {
        line_end(r, i + 1)
    } else {
        i
    }
}

/// Index of the first `*/` at or after `i`; when there is none, the last index (or `i`).
pub open spec fn block_end(r: Seq<char>, i: int) -> int
    decreases r.len() - i,
{
    if 0 <= i && i + 1 < r.len() && !(r[i] == '*' && r[i + 1] == '/') {
        block_end(r, i + 1)
    } else {
        i
    }
}

pub proof fn lemma_scan_bounds(r: Seq<char>, i: int)
    requires
        0 <= i <= r.len(),
    ensures
        i <= skip_ws(r, i) <= r.len(),
        i <= line_end(r, i) <= r.len(),
        i <= block_end(r, i),
        i < r.len() ==> block_end(r, i) < r.len(),
    decreases r.len() - i,
{
    if i < r.len() {
        lemma_scan_bounds(r, i + 1);
    }
}

/// The index after white space and `//` and `/* */` comments from `i` (an unclosed block
/// comment runs to the end).
pub open spec fn skip_ws_comments_spec(r: Seq<char>, i: int) -> int
    decreases r.len() - i,
{
    if i < 0 || i > r.len() {
        i
    } else {
        let j = skip_ws(r, i);
        proof {
            lemma_scan_bounds(r, i);
        }
        if j + 1 < r.len() && r[j] == '/' && r[j + 1] == '/' {
            proof {
                lemma_scan_bounds(r, j + 2);
            }
            skip_ws_comments_spec(r, line_end(r, j + 2))
        } else if j + 1 < r.len() && r[j] == '/' && r[j + 1] == '*' {
            proof {
                lemma_scan_bounds(r, j + 2);
            }
            let k = block_end(r, j + 2);
            skip_ws_comments_spec(r, if k + 2 < r.len() {
                k + 2
            } else {
                r.len() as int
            })
        } else {
            j
        }
    }
}

fn skip_ws_comments(r: &[char], start: usize) -> (res: usize)
    requires
        start <= r@.len(),
    ensures
        res == skip_ws_comments_spec(r@, start as int),
        start <= res <= r@.len(),
{
    let n = r.len();
    let mut i = start;
    loop
        invariant
            start <= i <= n,
            n == r@.len(),
            skip_ws_comments_spec(r@, i as int) == skip_ws_comments_spec(r@, start as int),
        decreases n - i,
    {
        let i0 = i;
        while i < n && is_whitespace(r[i])
            invariant
                i0 <= i <= n,
                n == r@.len(),
                skip_ws(r@, i as int) == skip_ws(r@, i0 as int),
            decreases n - i,
        {
            i += 1;
        }
        proof {
            lemma_scan_bounds(r@, i0 as int);
        }
        let ghost j = i as int;
        assert(j == skip_ws(r@, i0 as int));
        if n - i > 1 && r[i] == '/' && r[i + 1] == '/' {
            i += 2;
            while i < n && r[i] != '\n'
                invariant
                    j + 2 <= i <= n,
                    n == r@.len(),
                    line_end(r@, i as int) == line_end(r@, j + 2),
                decreases n - i,
            {
                i += 1;
            }
            continue;
        }
        if n - i > 1 && r[i] == '/' && r[i + 1] == '*' {
            i += 2;
            while n - i > 1 && !(r[i] == '*' && r[i + 1] == '/')
                invariant
                    j + 2 <= i <= n,
                    n == r@.len(),
                    block_end(r@, i as int) == block_end(r@, j + 2),
                decreases n - i,
            {
                i += 1;
            }
            i = if n - i > 2 {
                i + 2
            } else {
                n
            };
            continue;
        }
        return i;
    }
}

/// Whether the source starts (after white space and comments) with `package` followed by
/// a name: the keyword must not run into an identifier character, and the name must start
/// with a letter or `_`.
pub open spec fn valid_package_clause(r: Seq<char>) -> bool {
    let i = skip_ws_comments_spec(r, 0);
    let after = i + 7;
    &&& 0 <= i && after <= r.len()
    &&& r.subrange(i, after) == "package"@
    &&& !(after < r.len() && (alphanumeric(r[after]) || r[after] == '_'))
    &&& {
        let j = skip_ws_comments_spec(r, after);
        0 <= j < r.len() && (alphabetic(r[j]) || r[j] == '_')
    }
}

/// Whether the source has a valid package clause (see `valid_package_clause`).
pub fn has_valid_package_clause(r: &[char]) -> (res: bool)
    ensures
        res == valid_package_clause(r@),
{
    let n = r.len();
    let i = skip_ws_comments(r, 0);
    if n - i < 7 {
        return false;
    }
    let kw = crate::text::slice_chars(r, i, i + 7);
    if !crate::text::chars_eq_str(&kw, "package") {
        return false;
    }
    let after = i + 7;
    if after < n && (is_alphanumeric(r[after]) || r[after] == '_') {
        return false;
    }
    let j = skip_ws_comments(r, after);
    j < n && (is_alphabetic(r[j]) || r[j] == '_')
}

// ---------------------------------------------------------------------------
// Interpreted strings.
// ---------------------------------------------------------------------------

/// The UTF-8 encoding of a character.
pub open spec fn utf8_of(c: char) -> Seq<u8> {
    let u = c as u32 as int;
    if u < 0x80 {
        seq![u as u8]
    } else if u < 0x800 {
        seq![(0xC0 + u / 64) as u8, (0x80 + u % 64) as u8]
    } else if u < 0x10000 {
        seq![(0xE0 + u / 4096) as u8, (0x80 + (u / 64) % 64) as u8, (0x80 + u % 64) as u8]
    } else {
        seq![
            (0xF0 + u / 262144) as u8,
            (0x80 + (u / 4096) % 64) as u8,
            (0x80 + (u / 64) % 64) as u8,
            (0x80 + u % 64) as u8,
        ]
    }
}

/// Appends the UTF-8 encoding of a character.
pub fn push_utf8(out: &mut Vec<u8>, c: char)
    ensures
        final(out)@ == old(out)@ + utf8_of(c),
{
    let u = c as u32;
    if u < 0x80 {
        out.push(u as u8);
    } else if u < 0x800 {
        out.push((0xC0 + u / 64) as u8);
        out.push((0x80 + u % 64) as u8);
    } else if u < 0x10000 {
        out.push((0xE0 + u / 4096) as u8);
        out.push((0x80 + (u / 64) % 64) as u8);
        out.push((0x80 + u % 64) as u8);
    } else {
        assert(u <= 0x10FFFF);
        out.push((0xF0 + u / 262144) as u8);
        out.push((0x80 + (u / 4096) % 64) as u8);
        out.push((0x80 + (u / 64) % 64) as u8);
        out.push((0x80 + u % 64) as u8);
    }
    assert(out@ =~= old(out)@ + utf8_of(c));
}

/// The value of a digit in the given radix (at most 16).
pub open spec fn digit_value(c: char, radix: int) -> Option<int> {
    let v = if '0' <= c <= '9' {
        c as int - '0' as int
    } else if 'a' <= c <= 'f' {
        c as int - 'a' as int + 10
    } else if 'A' <= c <= 'F' {
        c as int - 'A' as int + 10
    } else {
        99
    };
    if v < radix {
        Some(v)
    } else {
        None
    }
}

/// The value of the digits `d` in the given radix, accumulated onto `acc`.
pub open spec fn digits_value(d: Seq<char>, radix: int, acc: int) -> Option<int>
    decreases d.len(),
{
    if d.len() == 0 {
        Some(acc)
    } else {
        match digit_value(d[0], radix) {
            Some(v) => digits_value(d.skip(1), radix, acc * radix + v),
            None => None,
        }
    }
}

/// `from_str_radix`: an optional `+` and at least one digit.
pub open spec fn radix_value(h: Seq<char>, radix: int) -> Option<int> {
    let d = if h.len() > 0 && h[0] == '+' {
        h.skip(1)
    } else {
        h
    };
    if d.len() == 0 {
        None
    } else {
        digits_value(d, radix, 0)
    }
}

fn digit_exec(c: char, radix: u32) -> (r: Option<u32>)
    requires
        radix <= 16,
    ensures
        r matches Some(v) ==> digit_value(c, radix as int) == Some(v as int),
        r is None ==> digit_value(c, radix as int) is None,
{
    let v: u32 = if '0' <= c && c <= '9' {
        c as u32 - '0' as u32
    } else if 'a' <= c && c <= 'f' {
        c as u32 - 'a' as u32 + 10
    } else if 'A' <= c && c <= 'F' {
        c as u32 - 'A' as u32 + 10
    } else {
        99
    };
    if v < radix {
        Some(v)
    } else {
        None
    }
}

/// Parses `s[lo..hi]` (at most 8 characters) as a number in the given radix (see `radix_value`).
pub fn parse_radix(s: &[char], lo: usize, hi: usize, radix: u32) -> (r: Option<u64>)
    requires
        lo <= hi <= s@.len(),
        hi - lo <= 8,
        2 <= radix <= 16,
    ensures
        r matches Some(v) ==> radix_value(s@.subrange(lo as int, hi as int), radix as int) == Some(v as int),
        r is None ==> radix_value(s@.subrange(lo as int, hi as int), radix as int) is None,
{
    let ghost h = s@.subrange(lo as int, hi as int);
    let mut i = lo;
    if i < hi && s[i] == '+' {
        i += 1;
    }
    let ghost d = s@.subrange(i as int, hi as int);
    assert(d =~= (if h.len() > 0 && h[0] == '+' { h.skip(1) } else { h }));
    if i >= hi {
        return None;
    }
    let ghost i0 = i;
    let mut acc: u64 = 0;
    assert(radix_value(h, radix as int) == digits_value(d, radix as int, 0));
    assert(s@.subrange(i as int, hi as int) == d);
    while i < hi
        invariant
            lo <= i0 <= i <= hi <= s@.len(),
            h == s@.subrange(lo as int, hi as int),
            radix_value(h, radix as int) == digits_value(d, radix as int, 0),
            hi - i0 <= 8,
            2 <= radix <= 16,
            acc < pow_bound((i - i0) as nat),
            digits_value(s@.subrange(i as int, hi as int), radix as int, acc as int) == digits_value(
                d,
                radix as int,
                0,
            ),
        decreases hi - i,
    {
        assert(s@.subrange(i as int, hi as int).skip(1) =~= s@.subrange(i + 1, hi as int));
        match digit_exec(s[i], radix) {
            Some(v) => {
                proof {
                    lemma_pow_bound((i - i0) as nat);
                    let pb = pow_bound((i - i0) as nat);
                    assert(acc * radix + v < 16 * pb) by (nonlinear_arith)
                        requires
                            acc < pb,
                            radix <= 16,
                            v < radix,
                            pb >= 1,
                    ;
                }
                acc = acc * (radix as u64) + (v as u64);
            },
            None => {
                return None;
            },
        }
        i += 1;
    }
    Some(acc)
}

pub open spec fn pow_bound(k: nat) -> int
    decreases k,
{
    if k == 0 {
        1
    } else {
        16 * pow_bound((k - 1) as nat)
    }
}

proof fn lemma_pow_bound(k: nat)
    requires
        k < 8,
    ensures
        16 * pow_bound(k) <= 0x1_0000_0000,
        pow_bound(k + 1) == 16 * pow_bound(k),
{
    reveal_with_fuel(pow_bound, 9);
}

/// Whether the characters are octal digits.
pub open spec fn all_octal(h: Seq<char>) -> bool {
    forall|k: int| 0 <= k < h.len() ==> '0' <= #[trigger] h[k] <= '7'
}

fn all_octal_exec(s: &[char], lo: usize, hi: usize) -> (r: bool)
    requires
        lo <= hi <= s@.len(),
    ensures
        r == all_octal(s@.subrange(lo as int, hi as int)),
{
    let mut k = lo;
    while k < hi
        invariant
            lo <= k <= hi <= s@.len(),
            forall|q: int| lo <= q < k ==> '0' <= #[trigger] s@[q] <= '7',
        decreases hi - k,
    {
        if !('0' <= s[k] && s[k] <= '7') {
            assert(!('0' <= s@.subrange(lo as int, hi as int)[k - lo] <= '7'));
            return false;
        }
        k += 1;
    }
    assert forall|q: int| 0 <= q < hi - lo implies '0' <= #[trigger] s@.subrange(lo as int, hi as int)[q] <= '7' by {
        assert(s@.subrange(lo as int, hi as int)[q] == s@[lo + q]);
    }
    true
}

/// The bytes of an interpreted string's interior from `i` on, with Go escapes decoded
/// (onto `out`); `None` for an invalid escape.
pub open spec fn unquote_go(s: Seq<char>, i: int, out: Seq<u8>) -> Option<Seq<u8>>
    decreases s.len() - i,
{
    if i < 0 || i >= s.len() {
        Some(out)
    } else if s[i] != '\\' {
        unquote_go(s, i + 1, out + utf8_of(s[i]))
    } else if i + 1 >= s.len() {
        None
    } else {
        let e = s[i + 1];
        if e == 'a' {
            unquote_go(s, i + 2, out.push(7))
        } else if e == 'b' {
            unquote_go(s, i + 2, out.push(8))
        } else if e == 'f' {
            unquote_go(s, i + 2, out.push(12))
        } else if e == 'n' {
            unquote_go(s, i + 2, out.push(10))
        } else if e == 'r' {
            unquote_go(s, i + 2, out.push(13))
        } else if e == 't' {
            unquote_go(s, i + 2, out.push(9))
        } else if e == 'v' {
            unquote_go(s, i + 2, out.push(11))
        } else if e == '\\' {
            unquote_go(s, i + 2, out.push(92))
        } else if e == '"' {
            unquote_go(s, i + 2, out.push(34))
        } else if e == '\'' {
            unquote_go(s, i + 2, out.push(39))
        } else if e == 'x' {
            if i + 4 > s.len() {
                None
            } else {
                match radix_value(s.subrange(i + 2, i + 4), 16) {
                    Some(v) => unquote_go(s, i + 4, out.push(v as u8)),
                    None => None,
                }
            }
        } else if e == 'u' || e == 'U' {
            let len = if e == 'u' {
                4int
            } else {
                8int
            };
            if i + 2 + len > s.len() {
                None
            } else {
                match radix_value(s.subrange(i + 2, i + 2 + len), 16) {
                    Some(cp) => if 0 <= cp <= 0xFFFF_FFFF && scalar_value(cp as u32) {
                        unquote_go(s, i + 2 + len, out + utf8_of(cp as u32 as char))
                    } else {
                        None
                    },
                    None => None,
                }
            }
        } else if '0' <= e <= '7' {
            if i + 4 > s.len() || !all_octal(s.subrange(i + 1, i + 4)) {
                None
            } else {
                match radix_value(s.subrange(i + 1, i + 4), 8) {
                    Some(v) => if v > 0xff {
                        None
                    } else {
                        unquote_go(s, i + 4, out.push(v as u8))
                    },
                    None => None,
                }
            }
        } else {
            None
        }
    }
}

/// The decoded text of an interpreted string's interior (invalid UTF-8 from `\x` escapes
/// replaced), or `None` for an invalid escape.
pub open spec fn unquoted(s: Seq<char>) -> Option<Seq<char>> {
    match unquote_go(s, 0, Seq::empty()) {
        Some(b) => Some(utf8_lossy(b)),
        None => None,
    }
}

/// Decodes the escapes of an interpreted Go string's interior (see `unquoted`).
pub fn try_unquote_interpreted(s: &[char]) -> (r: Option<String>)
    ensures
        r matches Some(v) ==> unquoted(s@) == Some(v@),
        r is None ==> unquoted(s@) is None,
{
    let n = s.len();
    let mut out: Vec<u8> = Vec::new();
    let mut i: usize = 0;
    while i < n
        invariant
            i <= n,
            n == s@.len(),
            unquote_go(s@, i as int, out@) == unquote_go(s@, 0, Seq::empty()),
        decreases n - i,
    {
        if s[i] != '\\' {
            push_utf8(&mut out, s[i]);
            i += 1;
            continue;
        }
        if n - i < 2 {
            return None;
        }
        let e = s[i + 1];
        let simple: Option<u8> = if e == 'a' {
            Some(7)
        } else if e == 'b' {
            Some(8)
        } else if e == 'f' {
            Some(12)
        } else if e == 'n' {
            Some(10)
        } else if e == 'r' {
            Some(13)
        } else if e == 't' {
            Some(9)
        } else if e == 'v' {
            Some(11)
        } else if e == '\\' {
            Some(92)
        } else if e == '"' {
            Some(34)
        } else if e == '\'' {
            Some(39)
        } else {
            None
        };
        match simple {
            Some(b) => {
                out.push(b);
                i += 2;
                continue;
            },
            None => {},
        }
        if e == 'x' {
            if n - i < 4 {
                return None;
            }
            match parse_radix(s, i + 2, i + 4, 16) {
                Some(v) => {
                    out.push(v as u8);
                    i += 4;
                },
                None => {
                    return None;
                },
            }
        } else if e == 'u' || e == 'U' {
            let len: usize = if e == 'u' {
                4
            } else {
                8
            };
            if n - i < 2 + len {
                return None;
            }
            match parse_radix(s, i + 2, i + 2 + len, 16) {
                Some(cp) => {
                    if cp > 0xFFFF_FFFF {
                        return None;
                    }
                    match crate::charset::char_from_u32(cp as u32) {
                        Some(c) => {
                            push_utf8(&mut out, c);
                            i += 2 + len;
                        },
                        None => {
                            return None;
                        },
                    }
                },
                None => {
                    return None;
                },
            }
        } else if '0' <= e && e <= '7' {
            if n - i < 4 {
                return None;
            }
            if !all_octal_exec(s, i + 1, i + 4) {
                return None;
            }
            match parse_radix(s, i + 1, i + 4, 8) {
                Some(v) => {
                    if v > 0xff {
                        return None;
                    }
                    out.push(v as u8);
                    i += 4;
                },
                None => {
                    return None;
                },
            }
        } else {
            return None;
        }
    }
    Some(crate::text::from_utf8_lossy(out.as_slice()))
}

} // verus!
