//! Commit message checks.

use vstd::prelude::*;
use crate::charset::{
    ambiguous_spec, invisible, invisible_name, invisible_name_spec, is_ambiguous, is_invisible,
    is_table, locale_table_key, tables_for_locale, table_wf, AmbiguousTable,
};
use crate::config::accessors::{coauthor_email, coauthor_removed, extract_coauthor_email, first_locale, opt_or, strs};
use crate::config::types::{CommitMessageConfig, CommitMessageLanguageConfig, Config};
use crate::langdetect::{
    dominant_spec, has_cjk, has_cjk_spec, is_required_language, required_language_spec, ENGLISH,
};
use crate::messages::{arg_views, message, tr};
use crate::text::{
    alphanumeric, chars_of, dec_seq, has_prefix, hex_pad, int_seq, is_alphanumeric, lowercase,
    split_seq, string_of, trim, trim_seq, trim_start_set,
};
use super::util::{
    char_string, dec_string, hex_string, int_string, lines_trimmed, trimmed_lines, truncate,
    truncated,
};

verus! {

fn push_msg(errs: &mut Vec<String>, m: String)
    ensures
        strs(final(errs)@) == strs(old(errs)@).push(m@),
{
    proof {
        assert(strs(errs@.push(m)) =~= strs(errs@).push(m@));
    }
    errs.push(m);
}

fn append_msgs(errs: &mut Vec<String>, more: Vec<String>)
    ensures
        strs(final(errs)@) == strs(old(errs)@) + strs(more@),
{
    let ghost e0 = strs(errs@);
    let mut i: usize = 0;
    while i < more.len()
        invariant
            i <= more@.len(),
            strs(errs@) == e0 + strs(more@).take(i as int),
        decreases more.len() - i,
    {
        let m = more[i].clone();
        assert(strs(more@).take(i + 1) =~= strs(more@).take(i as int).push(m@));
        push_msg(errs, m);
        assert(strs(errs@) =~= e0 + strs(more@).take(i + 1));
        i += 1;
    }
    assert(strs(more@).take(more@.len() as int) =~= strs(more@));
}

// ---------------------------------------------------------------------------
// Co-author trailers.
// ---------------------------------------------------------------------------

/// The error of a line (number `n`) that is an AI co-author trailer.
pub open spec fn coauthor_line_errors(n: nat, line: Seq<char>, removals: Seq<String>) -> Seq<Seq<char>> {
    let t = trim_seq(line);
    if has_prefix(lowercase(t), "co-authored-by:"@) && coauthor_removed(removals, coauthor_email(t)) {
        seq![message("msg.ai_coauthor_error"@, seq![("Line"@, dec_seq(n)), ("Trailer"@, t)])]
    } else {
        Seq::empty()
    }
}

/// The co-author errors of the lines, in order.
pub open spec fn coauthor_errors(ls: Seq<Seq<char>>, removals: Seq<String>) -> Seq<Seq<char>>
    decreases ls.len(),
{
    if ls.len() == 0 {
        Seq::empty()
    } else {
        coauthor_errors(ls.drop_last(), removals) + coauthor_line_errors(ls.len(), ls.last(), removals)
    }
}

fn check_coauthor(text: &[char], cfg: &CommitMessageConfig) -> (r: Vec<String>)
    ensures
        strs(r@) == coauthor_errors(split_seq(text@, '\n'), cfg.coauthor_remove_emails@),
{
    let lines = crate::text::split(text, '\n');
    let ghost lv = lines@.map_values(|v: Vec<char>| v@);
    let mut errs: Vec<String> = Vec::new();
    assert(strs(errs@) =~= Seq::<Seq<char>>::empty());
    let mut i: usize = 0;
    while i < lines.len()
        invariant
            i <= lines@.len(),
            lv == lines@.map_values(|v: Vec<char>| v@),
            strs(errs@) == coauthor_errors(lv.take(i as int), cfg.coauthor_remove_emails@),
        decreases lines.len() - i,
    {
        assert(lv.take(i + 1).drop_last() =~= lv.take(i as int));
        let t = trim(&lines[i]);
        let ts = string_of(&t);
        let low = crate::text::lower_chars(&t);
        if crate::text::starts_with_str(&low, "co-authored-by:") {
            let email = extract_coauthor_email(ts.as_str());
            if cfg.coauthor_should_remove(email.as_str()) {
                let mut args: Vec<(&str, String)> = Vec::new();
                args.push(("Line", dec_string((i + 1) as u64)));
                args.push(("Trailer", ts));
                let m = tr("msg.ai_coauthor_error", &args);
                assert(arg_views(args@) =~= seq![("Line"@, dec_seq((i + 1) as nat)), ("Trailer"@, t@)]);
                push_msg(&mut errs, m);
            }
        }
        assert(strs(errs@) =~= coauthor_errors(lv.take(i + 1), cfg.coauthor_remove_emails@));
        i += 1;
    }
    assert(lv.take(lines@.len() as int) =~= lv);
    errs
}

// ---------------------------------------------------------------------------
// Invisible and confusable characters.
// ---------------------------------------------------------------------------

/// `U+XXXX` followed by the character's name when it has one.
pub open spec fn invisible_desc(c: char) -> Seq<char> {
    let name = invisible_name_spec(c as u32);
    if name.len() > 0 {
        "U+"@ + hex_pad(c as u32 as nat, 4) + " "@ + name
    } else {
        "U+"@ + hex_pad(c as u32 as nat, 4)
    }
}

pub fn describe_invisible(c: char) -> (r: String)
    ensures
        r@ == invisible_desc(c),
{
    let mut v = chars_of("U+");
    crate::text::extend_chars(&mut v, &crate::text::fmt_hex_pad(c as u32 as u64, 4));
    let name = invisible_name(c);
    let nc = chars_of(name);
    proof {
        reveal_strlit(" ");
        reveal_strlit("U+");
    }
    if nc.len() > 0 {
        v.push(' ');
        crate::text::extend_chars(&mut v, &nc);
        assert(v@ =~= "U+"@ + hex_pad(c as u32 as nat, 4) + " "@ + invisible_name_spec(c as u32));
    } else {
        assert(v@ =~= "U+"@ + hex_pad(c as u32 as nat, 4));
    }
    string_of(&v)
}

/// The invisible-character errors of line `n`, one per invisible character of `line`
/// (columns counted in characters from 1).
pub open spec fn invisible_line_errors(n: nat, line: Seq<char>) -> Seq<Seq<char>>
    decreases line.len(),
{
    if line.len() == 0 {
        Seq::empty()
    } else {
        invisible_line_errors(n, line.drop_last()) + if invisible(line.last()) {
            seq![
                message(
                    "msg.invisible_char_error"@,
                    seq![
                        ("Line"@, dec_seq(n)),
                        ("Col"@, dec_seq(line.len())),
                        ("Desc"@, invisible_desc(line.last())),
                    ],
                ),
            ]
        } else {
            Seq::empty()
        }
    }
}

/// The invisible-character errors of the lines, in order.
pub open spec fn invisible_errors(ls: Seq<Seq<char>>) -> Seq<Seq<char>>
    decreases ls.len(),
{
    if ls.len() == 0 {
        Seq::empty()
    } else {
        invisible_errors(ls.drop_last()) + invisible_line_errors(ls.len(), ls.last())
    }
}

fn check_invisible_chars(text: &[char]) -> (r: Vec<String>)
    ensures
        strs(r@) == invisible_errors(split_seq(text@, '\n')),
{
    let lines = crate::text::split(text, '\n');
    let ghost lv = lines@.map_values(|v: Vec<char>| v@);
    let mut errs: Vec<String> = Vec::new();
    assert(strs(errs@) =~= Seq::<Seq<char>>::empty());
    let mut i: usize = 0;
    while i < lines.len()
        invariant
            i <= lines@.len(),
            lv == lines@.map_values(|v: Vec<char>| v@),
            strs(errs@) == invisible_errors(lv.take(i as int)),
        decreases lines.len() - i,
    {
        assert(lv.take(i + 1).drop_last() =~= lv.take(i as int));
        let line = &lines[i];
        let ghost e0 = strs(errs@);
        let ln = i + 1;
        let mut j: usize = 0;
        while j < line.len()
            invariant
                j <= line@.len(),
                i < lines@.len(),
                ln == i + 1,
                *line == lines@[i as int],
                strs(errs@) == e0 + invisible_line_errors((i + 1) as nat, line@.take(j as int)),
            decreases line.len() - j,
        {
            let c = line[j];
            assert(line@.take(j + 1).drop_last() =~= line@.take(j as int));
            if is_invisible(c) {
                let mut args: Vec<(&str, String)> = Vec::new();
                args.push(("Line", dec_string(ln as u64)));
                args.push(("Col", dec_string((j + 1) as u64)));
                args.push(("Desc", describe_invisible(c)));
                let m = tr("msg.invisible_char_error", &args);
                assert(arg_views(args@) =~= seq![
                    ("Line"@, dec_seq((i + 1) as nat)),
                    ("Col"@, dec_seq((j + 1) as nat)),
                    ("Desc"@, invisible_desc(c)),
                ]);
                push_msg(&mut errs, m);
            }
            assert(strs(errs@) =~= e0 + invisible_line_errors((i + 1) as nat, line@.take(j + 1)));
            j += 1;
        }
        assert(line@.take(line@.len() as int) =~= line@);
        assert(strs(errs@) =~= invisible_errors(lv.take(i + 1)));
        i += 1;
    }
    assert(lv.take(lines@.len() as int) =~= lv);
    errs
}

/// The confusable-character errors of line `n`.
pub open spec fn ambiguous_line_errors(n: nat, line: Seq<char>, tables: Seq<(Seq<u32>, Seq<u32>)>) -> Seq<
    Seq<char>,
>
    decreases line.len(),
{
    if line.len() == 0 {
        Seq::empty()
    } else {
        ambiguous_line_errors(n, line.drop_last(), tables) + match ambiguous_spec(tables, line.last()) {
            Some(a) => seq![
                message(
                    "msg.ambiguous_char_error"@,
                    seq![
                        ("Line"@, dec_seq(n)),
                        ("Col"@, dec_seq(line.len())),
                        ("CharCode"@, hex_pad(line.last() as u32 as nat, 4)),
                        ("Char"@, seq![line.last()]),
                        ("ASCII"@, seq![a]),
                        ("ASCIICode"@, hex_pad(a as u32 as nat, 4)),
                    ],
                ),
            ],
            None => Seq::empty(),
        }
    }
}

/// The confusable-character errors of the lines, in order.
pub open spec fn ambiguous_errors(ls: Seq<Seq<char>>, tables: Seq<(Seq<u32>, Seq<u32>)>) -> Seq<Seq<char>>
    decreases ls.len(),
{
    if ls.len() == 0 {
        Seq::empty()
    } else {
        ambiguous_errors(ls.drop_last(), tables) + ambiguous_line_errors(ls.len(), ls.last(), tables)
    }
}

fn check_ambiguous_chars(text: &[char], tables: &Vec<AmbiguousTable>) -> (r: Vec<String>)
    requires
        forall|k: int| 0 <= k < tables@.len() ==> table_wf(#[trigger] tables@[k]),
    ensures
        strs(r@) == ambiguous_errors(split_seq(text@, '\n'), crate::charset::table_views(tables@)),
{
    let lines = crate::text::split(text, '\n');
    let ghost lv = lines@.map_values(|v: Vec<char>| v@);
    let mut errs: Vec<String> = Vec::new();
    assert(strs(errs@) =~= Seq::<Seq<char>>::empty());
    let mut i: usize = 0;
    while i < lines.len()
        invariant
            i <= lines@.len(),
            lv == lines@.map_values(|v: Vec<char>| v@),
            forall|k: int| 0 <= k < tables@.len() ==> table_wf(#[trigger] tables@[k]),
            strs(errs@) == ambiguous_errors(lv.take(i as int), crate::charset::table_views(tables@)),
        decreases lines.len() - i,
    {
        assert(lv.take(i + 1).drop_last() =~= lv.take(i as int));
        let line = &lines[i];
        let ghost e0 = strs(errs@);
        let ln = i + 1;
        let mut j: usize = 0;
        while j < line.len()
            invariant
                j <= line@.len(),
                i < lines@.len(),
                ln == i + 1,
                *line == lines@[i as int],
                forall|k: int| 0 <= k < tables@.len() ==> table_wf(#[trigger] tables@[k]),
                strs(errs@) == e0 + ambiguous_line_errors((i + 1) as nat, line@.take(j as int), crate::charset::table_views(tables@)),
            decreases line.len() - j,
        {
            let c = line[j];
            assert(line@.take(j + 1).drop_last() =~= line@.take(j as int));
            match is_ambiguous(c, tables.as_slice()) {
                Some(a) => {
                    let mut args: Vec<(&str, String)> = Vec::new();
                    args.push(("Line", dec_string(ln as u64)));
                    args.push(("Col", dec_string((j + 1) as u64)));
                    args.push(("CharCode", hex_string(c as u32 as u64, 4)));
                    args.push(("Char", char_string(c)));
                    args.push(("ASCII", char_string(a)));
                    args.push(("ASCIICode", hex_string(a as u32 as u64, 4)));
                    let m = tr("msg.ambiguous_char_error", &args);
                    assert(arg_views(args@) =~= seq![
                        ("Line"@, dec_seq((i + 1) as nat)),
                        ("Col"@, dec_seq((j + 1) as nat)),
                        ("CharCode"@, hex_pad(c as u32 as nat, 4)),
                        ("Char"@, seq![c]),
                        ("ASCII"@, seq![a]),
                        ("ASCIICode"@, hex_pad(a as u32 as nat, 4)),
                    ]);
                    push_msg(&mut errs, m);
                },
                None => {},
            }
            assert(strs(errs@) =~= e0 + ambiguous_line_errors((i + 1) as nat, line@.take(j + 1), crate::charset::table_views(tables@)));
            j += 1;
        }
        assert(line@.take(line@.len() as int) =~= line@);
        assert(strs(errs@) =~= ambiguous_errors(lv.take(i + 1), crate::charset::table_views(tables@)));
        i += 1;
    }
    assert(lv.take(lines@.len() as int) =~= lv);
    errs
}

// ---------------------------------------------------------------------------
// UTF-8 decoding.
// ---------------------------------------------------------------------------

/// The code point of `n` continuation bytes from `i` added to `cp`, or `None` when one of
/// them is not a continuation byte (`10xxxxxx`).
pub open spec fn continuation(b: Seq<u8>, i: int, n: nat, cp: int) -> Option<int>
    decreases n,
{
    if n == 0 {
        Some(cp)
    } else if 0 <= i < b.len() && 0x80 <= b[i] < 0xC0 {
        continuation(b, i + 1, (n - 1) as nat, cp * 64 + (b[i] - 0x80))
    } else {
        None
    }
}

/// The length, the smallest code point and the payload of the lead byte of a multi-byte
/// sequence; zeros for a byte that cannot lead one.
pub open spec fn lead(b0: u8) -> (int, int, int) {
    if 0xC0 <= b0 < 0xE0 {
        (2int, 0x80int, b0 - 0xC0)
    } else if 0xE0 <= b0 < 0xF0 {
        (3int, 0x800int, b0 - 0xE0)
    } else if 0xF0 <= b0 < 0xF8 {
        (4int, 0x10000int, b0 - 0xF0)
    } else {
        (0int, 0int, 0int)
    }
}

/// Decodes one UTF-8 sequence at `i`: the character and its length, or `(None, 1)` for an
/// invalid, truncated, overlong or surrogate sequence or a code point above U+10FFFF.
pub open spec fn decode_at(b: Seq<u8>, i: int) -> (Option<char>, int) {
    if i < 0 || i >= b.len() {
        (None, 0)
    } else {
        let b0 = b[i];
        if b0 < 0x80 {
            (Some(b0 as char), 1)
        } else {
            let (size, min, init) = lead(b0);
            if size == 0 || i + size > b.len() {
                (None, 1)
            } else {
                match continuation(b, i + 1, (size - 1) as nat, init) {
                    Some(cp) => if cp < min || (0xD800 <= cp && cp <= 0xDFFF) || cp > 0x10FFFF {
                        (None, 1)
                    } else {
                        (Some(cp as char), size)
                    },
                    None => (None, 1),
                }
            }
        }
    }
}

/// Decodes the UTF-8 sequence at `i` (see `decode_at`); `(None, 0)` past the end.
pub fn decode_rune(b: &[u8], i: usize) -> (r: (Option<char>, usize))
    ensures
        (r.0, r.1 as int) == decode_at(b@, i as int),
        i < b@.len() ==> 1 <= r.1 <= b@.len() - i,
{
    let n = b.len();
    if i >= n {
        return (None, 0);
    }
    let b0 = b[i];
    if b0 < 0x80 {
        return (Some(b0 as char), 1);
    }
    let (size, min, init): (usize, u32, u32) = if 0xC0 <= b0 && b0 < 0xE0 {
        (2, 0x80, (b0 - 0xC0) as u32)
    } else if 0xE0 <= b0 && b0 < 0xF0 {
        (3, 0x800, (b0 - 0xE0) as u32)
    } else if 0xF0 <= b0 && b0 < 0xF8 {
        (4, 0x10000, (b0 - 0xF0) as u32)
    } else {
        return (None, 1);
    };
    if n - i < size {
        return (None, 1);
    }
    let mut cp: u32 = init;
    let mut k: usize = 1;
    while k < size
        invariant
            1 <= k <= size <= 4,
            i < n,
            i + size <= n,
            n == b@.len(),
            lead(b@[i as int]) == (size as int, min as int, init as int),
            b@[i as int] >= 0x80,
            k == 1 ==> cp < 32,
            k == 2 ==> cp < 2048,
            k == 3 ==> cp < 131072,
            continuation(b@, i + 1, (size - 1) as nat, init as int) == continuation(
                b@,
                i + k,
                (size - k) as nat,
                cp as int,
            ),
        decreases size - k,
    {
        let cb = b[i + k];
        if !(0x80 <= cb && cb < 0xC0) {
            return (None, 1);
        }
        cp = cp * 64 + (cb - 0x80) as u32;
        k += 1;
    }
    if cp < min || (0xD800 <= cp && cp <= 0xDFFF) || cp > 0x10FFFF {
        return (None, 1);
    }
    match crate::charset::char_from_u32(cp) {
        Some(c) => (Some(c), size),
        None => (None, 1),
    }
}

/// The invalid-byte errors of `b[i..]`, at line `line` and column `col`.
pub open spec fn bad_rune_go(b: Seq<u8>, i: int, line: nat, col: nat) -> Seq<Seq<char>>
    decreases b.len() - i,
{
    if i < 0 || i >= b.len() {
        Seq::empty()
    } else {
        let (ch, size) = decode_at(b, i);
        if size <= 0 {
            Seq::empty()
        } else {
            match ch {
                None => seq![
                    message(
                        "msg.bad_rune_error"@,
                        seq![
                            ("Line"@, dec_seq(line)),
                            ("Col"@, dec_seq(col)),
                            ("Byte"@, hex_pad(b[i] as nat, 2)),
                        ],
                    ),
                ] + bad_rune_go(b, i + size, line, col + 1),
                Some(c) => if c == '\n' {
                    bad_rune_go(b, i + size, line + 1, 1)
                } else {
                    bad_rune_go(b, i + size, line, col + 1)
                },
            }
        }
    }
}

fn check_bad_runes(content: &[u8]) -> (r: Vec<String>)
    ensures
        strs(r@) == bad_rune_go(content@, 0, 1, 1),
{
    let mut errs: Vec<String> = Vec::new();
    let mut line0: usize = 0;
    let mut col0: usize = 0;
    let mut i: usize = 0;
    assert(strs(errs@) =~= Seq::<Seq<char>>::empty());
    while i < content.len()
        invariant
            i <= content@.len(),
            line0 <= i,
            col0 <= i,
            strs(errs@) + bad_rune_go(content@, i as int, (line0 + 1) as nat, (col0 + 1) as nat) == bad_rune_go(
                content@,
                0,
                1,
                1,
            ),
        decreases content.len() - i,
    {
        let (ch, size) = decode_rune(content, i);
        let ghost e0 = strs(errs@);
        match ch {
            None => {
                let mut args: Vec<(&str, String)> = Vec::new();
                args.push(("Line", dec_string((line0 + 1) as u64)));
                args.push(("Col", dec_string((col0 + 1) as u64)));
                args.push(("Byte", hex_string(content[i] as u64, 2)));
                let m = tr("msg.bad_rune_error", &args);
                assert(arg_views(args@) =~= seq![
                    ("Line"@, dec_seq((line0 + 1) as nat)),
                    ("Col"@, dec_seq((col0 + 1) as nat)),
                    ("Byte"@, hex_pad(content@[i as int] as nat, 2)),
                ]);
                push_msg(&mut errs, m);
                assert(strs(errs@) + bad_rune_go(content@, i + size, (line0 + 1) as nat, (col0 + 2) as nat)
                    =~= e0 + bad_rune_go(content@, i as int, (line0 + 1) as nat, (col0 + 1) as nat));
                col0 += 1;
            },
            Some(c) => {
                if c == '\n' {
                    line0 += 1;
                    col0 = 0;
                } else {
                    col0 += 1;
                }
            },
        }
        i += size;
    }
    assert(strs(errs@) =~= strs(errs@) + bad_rune_go(content@, i as int, (line0 + 1) as nat, (col0 + 1) as nat));
    errs
}

// ---------------------------------------------------------------------------
// Language of the message.
// ---------------------------------------------------------------------------

/// Index of the first character at or after `i` that is not alphanumeric, `-` or `_`.
pub open spec fn first_non_type(s: Seq<char>, i: int) -> Option<int>
    decreases s.len() - i,
{
    if i < 0 || i >= s.len() {
        None
    } else if !alphanumeric(s[i]) && s[i] != '-' && s[i] != '_' {
        Some(i)
    } else {
        first_non_type(s, i + 1)
    }
}

/// The description of a subject of the form `type(scope)!: description` (the scope and `!`
/// optional), without the spaces after the colon; `None` when there is no such prefix.
pub open spec fn strip_cc(s: Seq<char>) -> Option<Seq<char>> {
    match first_non_type(s, 0) {
        None => None,
        Some(te) => if te == 0 {
            None
        } else {
            let rest = s.skip(te);
            let rest2 = if rest.len() > 0 && rest[0] == '(' {
                match crate::langdetect::first_index(rest, ')') {
                    Some(c) => Some(rest.skip(c + 1)),
                    None => None,
                }
            } else {
                Some(rest)
            };
            match rest2 {
                None => None,
                Some(r2) => {
                    let r3 = if r2.len() > 0 && r2[0] == '!' {
                        r2.skip(1)
                    } else {
                        r2
                    };
                    if r3.len() > 0 && r3[0] == ':' {
                        Some(trim_start_set(r3.skip(1), seq![' ']))
                    } else {
                        None
                    }
                },
            }
        },
    }
}

proof fn lemma_first_non_type(s: Seq<char>, i: int)
    requires
        0 <= i,
    ensures
        first_non_type(s, i) matches Some(k) ==> i <= k < s.len(),
    decreases s.len() - i,
{
    if i < s.len() && !(!alphanumeric(s[i]) && s[i] != '-' && s[i] != '_') {
        lemma_first_non_type(s, i + 1);
    }
}

/// Strips a Conventional Commits prefix from a subject (see `strip_cc`).
pub fn strip_cc_prefix(s: &[char]) -> (r: Option<Vec<char>>)
    ensures
        r matches Some(v) ==> strip_cc(s@) == Some(v@),
        r is None ==> strip_cc(s@) is None,
{
    let n = s.len();
    let mut te: usize = 0;
    while te < n && (is_alphanumeric(s[te]) || s[te] == '-' || s[te] == '_')
        invariant
            te <= n,
            n == s@.len(),
            first_non_type(s@, te as int) == first_non_type(s@, 0),
        decreases n - te,
    {
        te += 1;
    }
    if te >= n || te == 0 {
        return None;
    }
    let rest = crate::text::slice_chars(s, te, n);
    assert(rest@ == s@.skip(te as int));
    let rest2 = if rest.len() > 0 && rest[0] == '(' {
        match crate::langdetect::index_of(&rest, ')') {
            Some(c) => {
                proof {
                    crate::langdetect::lemma_first_index_bounds(rest@, ')');
                }
                let r = crate::text::slice_chars(&rest, c + 1, rest.len());
                assert(r@ == rest@.skip(c + 1));
                r
            },
            None => {
                return None;
            },
        }
    } else {
        rest
    };
    let r3 = if rest2.len() > 0 && rest2[0] == '!' {
        let r = crate::text::slice_chars(&rest2, 1, rest2.len());
        assert(r@ == rest2@.skip(1));
        r
    } else {
        rest2
    };
    if r3.len() > 0 && r3[0] == ':' {
        let after = crate::text::slice_chars(&r3, 1, r3.len());
        assert(after@ == r3@.skip(1));
        let sp = [' '];
        assert(sp@ == seq![' ']);
        Some(crate::text::trim_start_matches(&after, &sp))
    } else {
        None
    }
}

/// Whether a line fails the language requirement: it has natural-language content without the
/// required script, or (for English) it also has Korean, Japanese or Chinese characters.
pub open spec fn line_fails(t: Seq<char>, required: Seq<char>, min: int) -> bool {
    let (ok, has) = required_language_spec(t, required, min, Seq::empty());
    has && (!ok || (required == ENGLISH@ && has_cjk_spec(t)))
}

/// The language error of line `n` (trimmed), if it fails.
pub open spec fn language_line_errors(n: nat, text: Seq<char>, required: Seq<char>, min: int) -> Seq<
    Seq<char>,
> {
    let t = trim_seq(text);
    if line_fails(t, required, min) {
        seq![
            message(
                "msg.language_error"@,
                seq![
                    ("Line"@, dec_seq(n)),
                    ("Language"@, required),
                    ("Detected"@, if dominant_spec(t).len() == 0 {
                        "unknown"@
                    } else {
                        dominant_spec(t)
                    }),
                    ("Text"@, truncated(t, 80)),
                ],
            ),
        ]
    } else {
        Seq::empty()
    }
}

/// The language errors of the body lines `ls[1..k]`.
pub open spec fn body_language_errors(ls: Seq<Seq<char>>, k: int, required: Seq<char>, min: int) -> Seq<
    Seq<char>,
>
    decreases k,
{
    if k <= 1 || k > ls.len() {
        Seq::empty()
    } else {
        body_language_errors(ls, k - 1, required, min) + language_line_errors(
            k as nat,
            ls[k - 1],
            required,
            min,
        )
    }
}

/// The minimum number of letters of the language check (`min_length`, at least 0).
pub open spec fn min_letters(c: CommitMessageLanguageConfig) -> usize {
    (if c.min_length < 0 {
        0
    } else {
        c.min_length
    }) as usize
}

/// The language errors of a commit message: none when the subject starts with a skip
/// prefix; otherwise the subject (without its Conventional Commits prefix) and every
/// body line are checked against the required language.
pub open spec fn language_errors(content: Seq<char>, c: CommitMessageLanguageConfig) -> Seq<Seq<char>> {
    let ls = trimmed_lines(content);
    let subject = trim_seq(ls[0]);
    let required = first_locale(c.locale@, c.required_language@);
    let min = min_letters(c) as int;
    if exists|i: int| 0 <= i < c.skip_prefixes@.len() && has_prefix(subject, #[trigger] c.skip_prefixes@[i]@) {
        Seq::empty()
    } else {
        let st = match strip_cc(subject) {
            Some(r) => r,
            None => subject,
        };
        language_line_errors(1, st, required, min) + body_language_errors(
            ls,
            ls.len() as int,
            required,
            min,
        )
    }
}

fn language_line(n: usize, text: &[char], required: &String, min: usize) -> (r: Vec<String>)
    ensures
        strs(r@) == language_line_errors(n as nat, text@, required@, min as int),
{
    let t = trim(text);
    let ts = string_of(&t);
    let (ok, has) = is_required_language(ts.as_str(), required.as_str(), min, &[]);
    assert(Seq::<String>::empty().map_values(|s: String| s@) =~= Seq::<Seq<char>>::empty());
    let strict = has && ok && crate::text::str_eq(required.as_str(), ENGLISH) && has_cjk(ts.as_str());
    if has && (!ok || strict) {
        let mut args: Vec<(&str, String)> = Vec::new();
        args.push(("Line", dec_string(n as u64)));
        args.push(("Language", required.clone()));
        args.push(("Detected", crate::langdetect::dominant_language(ts.as_str())));
        args.push(("Text", truncate(ts.as_str(), 80)));
        let m = tr("msg.language_error", &args);
        let ghost d = dominant_spec(t@);
        assert(arg_views(args@) =~= seq![
            ("Line"@, dec_seq(n as nat)),
            ("Language"@, required@),
            ("Detected"@, if d.len() == 0 {
                "unknown"@
            } else {
                d
            }),
            ("Text"@, truncated(t@, 80)),
        ]);
        let mut v: Vec<String> = Vec::new();
        push_msg(&mut v, m);
        assert(strs(v@) =~= seq![m@]);
        v
    } else {
        Vec::new()
    }
}

fn check_msg_language(text: &[char], cfg: &CommitMessageLanguageConfig) -> (r: Vec<String>)
    ensures
        strs(r@) == language_errors(text@, *cfg),
{
    let lines = lines_trimmed(text);
    let ghost lv = lines@.map_values(|v: Vec<char>| v@);
    let subject = trim(&lines[0]);
    let mut k: usize = 0;
    while k < cfg.skip_prefixes.len()
        invariant
            k <= cfg.skip_prefixes@.len(),
            lv == trimmed_lines(text@),
            subject@ == trim_seq(lv[0]),
            forall|j: int| 0 <= j < k ==> !has_prefix(subject@, #[trigger] cfg.skip_prefixes@[j]@),
        decreases cfg.skip_prefixes.len() - k,
    {
        if crate::text::starts_with(&subject, &chars_of(cfg.skip_prefixes[k].as_str())) {
            assert(has_prefix(subject@, cfg.skip_prefixes@[k as int]@));
            return Vec::new();
        }
        k += 1;
    }
    let required = cfg.get_locale();
    let min: usize = if cfg.min_length < 0 {
        0
    } else {
        cfg.min_length as usize
    };
    let st = match strip_cc_prefix(&subject) {
        Some(r) => r,
        None => subject,
    };
    let mut errs = language_line(1, &st, &required, min);
    let mut i: usize = 1;
    while i < lines.len()
        invariant
            1 <= i <= lines@.len(),
            lv == lines@.map_values(|v: Vec<char>| v@),
            strs(errs@) == language_line_errors(1, st@, required@, min as int) + body_language_errors(
                lv,
                i as int,
                required@,
                min as int,
            ),
        decreases lines.len() - i,
    {
        let more = language_line(i + 1, &lines[i], &required, min);
        append_msgs(&mut errs, more);
        assert(strs(errs@) =~= language_line_errors(1, st@, required@, min as int)
            + body_language_errors(lv, i + 1, required@, min as int));
        i += 1;
    }
    errs
}

// ---------------------------------------------------------------------------
// Length limits and emoji.
// ---------------------------------------------------------------------------

/// A configured limit, or `d` when it is not positive.
pub open spec fn limit_or(v: i64, d: i64) -> i64 {
    if v <= 0 {
        d
    } else {
        v
    }
}

/// The subject-length error when the subject is longer than the limit.
pub open spec fn subject_limit_errors(content: Seq<char>, max: i64) -> Seq<Seq<char>> {
    let subject = trim_seq(trimmed_lines(content)[0]);
    let len = subject.len() as i64;
    if len > max {
        seq![
            message(
                "msg.subject_too_long"@,
                seq![("Length"@, int_seq(len as int)), ("Max"@, int_seq(max as int))],
            ),
        ]
    } else {
        Seq::empty()
    }
}

fn check_subject_limit(text: &[char], cm: &CommitMessageConfig) -> (r: Vec<String>)
    ensures
        strs(r@) == subject_limit_errors(text@, limit_or(cm.subject_limit.max_length, 72)),
{
    let lines = lines_trimmed(text);
    let subject = trim(&lines[0]);
    let max = cm.subject_limit.get_max_length();
    let len = subject.len() as i64;
    if len > max {
        let mut args: Vec<(&str, String)> = Vec::new();
        args.push(("Length", int_string(len)));
        args.push(("Max", int_string(max)));
        let m = tr("msg.subject_too_long", &args);
        assert(arg_views(args@) =~= seq![("Length"@, int_seq(len as int)), ("Max"@, int_seq(max as int))]);
        let mut v: Vec<String> = Vec::new();
        push_msg(&mut v, m);
        assert(strs(v@) =~= seq![m@]);
        v
    } else {
        Vec::new()
    }
}

/// The body-line-length errors of lines `ls[start..k]`.
pub open spec fn body_limit_go(ls: Seq<Seq<char>>, start: int, k: int, max: i64) -> Seq<Seq<char>>
    decreases k,
{
    if start < 0 || k <= start || k > ls.len() {
        Seq::empty()
    } else {
        let len = ls[k - 1].len() as i64;
        body_limit_go(ls, start, k - 1, max) + if len > max {
            seq![
                message(
                    "msg.body_line_too_long"@,
                    seq![
                        ("Line"@, dec_seq(k as nat)),
                        ("Length"@, int_seq(len as int)),
                        ("Max"@, int_seq(max as int)),
                    ],
                ),
            ]
        } else {
            Seq::empty()
        }
    }
}

/// The body-line-length errors: every line after the subject (and after the blank separator
/// line when there is one) longer than the limit.
pub open spec fn body_limit_errors(content: Seq<char>, max: i64) -> Seq<Seq<char>> {
    let ls = trimmed_lines(content);
    let start = if ls.len() > 1 && trim_seq(ls[1]).len() == 0 {
        2int
    } else {
        1int
    };
    body_limit_go(ls, start, ls.len() as int, max)
}

fn check_body_line_limit(text: &[char], cm: &CommitMessageConfig) -> (r: Vec<String>)
    ensures
        strs(r@) == body_limit_errors(text@, limit_or(cm.body_line_limit.max_length, 100)),
{
    let lines = lines_trimmed(text);
    let ghost lv = lines@.map_values(|v: Vec<char>| v@);
    let max = cm.body_line_limit.get_max_length();
    let mut start: usize = 1;
    if lines.len() > 1 && trim(&lines[1]).len() == 0 {
        start = 2;
    }
    let mut errs: Vec<String> = Vec::new();
    assert(strs(errs@) =~= Seq::<Seq<char>>::empty());
    let mut i: usize = start;
    if i > lines.len() {
        i = lines.len();
        assert(body_limit_go(lv, start as int, i as int, max) =~= Seq::<Seq<char>>::empty());
    }
    while i < lines.len()
        invariant
            start <= 2,
            i <= lines@.len(),
            lv == lines@.map_values(|v: Vec<char>| v@),
            i >= start || i == lines@.len(),
            strs(errs@) == body_limit_go(lv, start as int, i as int, max),
        decreases lines.len() - i,
    {
        let len = lines[i].len() as i64;
        if len > max {
            let mut args: Vec<(&str, String)> = Vec::new();
            args.push(("Line", dec_string((i + 1) as u64)));
            args.push(("Length", int_string(len)));
            args.push(("Max", int_string(max)));
            let m = tr("msg.body_line_too_long", &args);
            assert(arg_views(args@) =~= seq![
                ("Line"@, dec_seq((i + 1) as nat)),
                ("Length"@, int_seq(len as int)),
                ("Max"@, int_seq(max as int)),
            ]);
            push_msg(&mut errs, m);
        }
        assert(strs(errs@) =~= body_limit_go(lv, start as int, i + 1, max));
        i += 1;
    }
    errs
}

/// The emoji errors of a commit message, one per reported emoji.
pub open spec fn emoji_errors(es: Seq<crate::emoji::EmojiInfo>) -> Seq<Seq<char>>
    decreases es.len(),
{
    if es.len() == 0 {
        Seq::empty()
    } else {
        let e = es.last();
        emoji_errors(es.drop_last()) + seq![
            message(
                "msg.emoji_error"@,
                seq![
                    ("Line"@, dec_seq(e.line as nat)),
                    ("Col"@, dec_seq(e.col as nat)),
                    ("Char"@, seq![e.char]),
                    ("CharCode"@, hex_pad(e.code as nat, 4)),
                ],
            ),
        ]
    }
}

fn check_msg_emoji(text: &str) -> (r: Vec<String>)
    ensures
        strs(r@) == emoji_errors(crate::emoji::emojis_of(text@)),
{
    let es = crate::emoji::find_emojis(text);
    let mut errs: Vec<String> = Vec::new();
    assert(strs(errs@) =~= Seq::<Seq<char>>::empty());
    let mut i: usize = 0;
    while i < es.len()
        invariant
            i <= es@.len(),
            es@ == crate::emoji::emojis_of(text@),
            strs(errs@) == emoji_errors(es@.take(i as int)),
        decreases es.len() - i,
    {
        let e = es[i];
        assert(es@.take(i + 1).drop_last() =~= es@.take(i as int));
        let mut args: Vec<(&str, String)> = Vec::new();
        args.push(("Line", dec_string(e.line as u64)));
        args.push(("Col", dec_string(e.col as u64)));
        args.push(("Char", char_string(e.char)));
        args.push(("CharCode", hex_string(e.code as u64, 4)));
        let m = tr("msg.emoji_error", &args);
        assert(arg_views(args@) =~= seq![
            ("Line"@, dec_seq(e.line as nat)),
            ("Col"@, dec_seq(e.col as nat)),
            ("Char"@, seq![e.char]),
            ("CharCode"@, hex_pad(e.code as nat, 4)),
        ]);
        push_msg(&mut errs, m);
        assert(strs(errs@) =~= emoji_errors(es@.take(i + 1)));
        i += 1;
    }
    assert(es@.take(es@.len() as int) =~= es@);
    errs
}

// ---------------------------------------------------------------------------
// All checks.
// ---------------------------------------------------------------------------

/// All errors of a commit message, check by check: AI co-authors, invisible characters,
/// confusable characters (tables of the message locale), invalid UTF-8, emoji, language,
/// Conventional Commits, subject length, body line length and custom rules, each when
/// enabled. Character checks work on the text decoded with replacement characters.
pub open spec fn check_msg_spec(cfg: Config, content: Seq<u8>) -> Seq<Seq<char>> {
    let cm = cfg.commit_message;
    let text = crate::text::utf8_lossy(content);
    if !opt_or(cm.enabled, true) {
        Seq::empty()
    } else {
        (if opt_or(cm.no_ai_coauthor, true) {
            coauthor_errors(split_seq(text, '\n'), cm.coauthor_remove_emails@)
        } else {
            Seq::empty()
        }) + (if opt_or(cm.no_unicode_spaces, true) {
            invisible_errors(split_seq(text, '\n'))
        } else {
            Seq::empty()
        }) + (if opt_or(cm.no_ambiguous_chars, true) {
            ambiguous_errors(split_seq(text, '\n'), crate::charset::locale_tables(cm.locale@))
        } else {
            Seq::empty()
        }) + (if opt_or(cm.no_bad_runes, true) {
            bad_rune_go(content, 0, 1, 1)
        } else {
            Seq::empty()
        }) + (if opt_or(cm.no_emoji, false) {
            emoji_errors(crate::emoji::emojis_of(text))
        } else {
            Seq::empty()
        }) + (if opt_or(cm.language_check.enabled, false) {
            language_errors(text, cm.language_check)
        } else {
            Seq::empty()
        }) + (if opt_or(cm.conventional_commit.enabled, false) {
            super::conventional::conventional_errors(text, cm.conventional_commit)
        } else {
            Seq::empty()
        }) + (if opt_or(cm.subject_limit.enabled, false) {
            subject_limit_errors(text, limit_or(cm.subject_limit.max_length, 72))
        } else {
            Seq::empty()
        }) + (if opt_or(cm.body_line_limit.enabled, false) {
            body_limit_errors(text, limit_or(cm.body_line_limit.max_length, 100))
        } else {
            Seq::empty()
        }) + (if cfg.custom_rules.commit_message@.len() > 0 {
            super::custom::custom_errors(text, cfg.custom_rules.commit_message@)
        } else {
            Seq::empty()
        })
    }
}

/// Checks a commit message against every enabled policy (see `check_msg_spec`).
pub fn check_msg(cfg: &Config, content: &[u8]) -> (r: Vec<String>)
    ensures
        strs(r@) == check_msg_spec(*cfg, content@),
{
    if !cfg.commit_message.is_enabled() {
        return Vec::new();
    }
    let text = crate::text::from_utf8_lossy(content);
    let tc = chars_of(text.as_str());
    let cm = &cfg.commit_message;
    let mut errs: Vec<String> = Vec::new();
    let ghost e = Seq::<Seq<char>>::empty();
    assert(strs(errs@) =~= e);
    if cm.is_no_ai_coauthor() {
        append_msgs(&mut errs, check_coauthor(&tc, cm));
    } else {
        assert(strs(errs@) =~= strs(errs@) + e);
    }
    let ghost p1 = strs(errs@);
    if cm.is_no_unicode_spaces() {
        append_msgs(&mut errs, check_invisible_chars(&tc));
    } else {
        assert(strs(errs@) =~= strs(errs@) + e);
    }
    let ghost p2 = strs(errs@);
    if cm.is_no_ambiguous_chars() {
        let tables = tables_for_locale(cm.locale.as_str());
        append_msgs(&mut errs, check_ambiguous_chars(&tc, &tables));
    } else {
        assert(strs(errs@) =~= strs(errs@) + e);
    }
    let ghost p3 = strs(errs@);
    if cm.is_no_bad_runes() {
        append_msgs(&mut errs, check_bad_runes(content));
    } else {
        assert(strs(errs@) =~= strs(errs@) + e);
    }
    let ghost p4 = strs(errs@);
    if cm.is_no_emoji() {
        append_msgs(&mut errs, check_msg_emoji(text.as_str()));
    } else {
        assert(strs(errs@) =~= strs(errs@) + e);
    }
    let ghost p5 = strs(errs@);
    if cm.language_check.is_enabled() {
        append_msgs(&mut errs, check_msg_language(&tc, &cm.language_check));
    } else {
        assert(strs(errs@) =~= strs(errs@) + e);
    }
    let ghost p6 = strs(errs@);
    if cm.conventional_commit.is_enabled() {
        append_msgs(&mut errs, super::conventional::check_conventional(text.as_str(), &cm.conventional_commit));
    } else {
        assert(strs(errs@) =~= strs(errs@) + e);
    }
    let ghost p7 = strs(errs@);
    if cm.subject_limit.is_enabled() {
        append_msgs(&mut errs, check_subject_limit(&tc, cm));
    } else {
        assert(strs(errs@) =~= strs(errs@) + e);
    }
    let ghost p8 = strs(errs@);
    if cm.body_line_limit.is_enabled() {
        append_msgs(&mut errs, check_body_line_limit(&tc, cm));
    } else {
        assert(strs(errs@) =~= strs(errs@) + e);
    }
    let ghost p9 = strs(errs@);
    if cfg.custom_rules.commit_message.len() > 0 {
        append_msgs(
            &mut errs,
            super::custom::check_msg_custom_rules(text.as_str(), &cfg.custom_rules.commit_message),
        );
    } else {
        assert(strs(errs@) =~= strs(errs@) + e);
    }
    proof {
        let t = crate::text::utf8_lossy(content@);
        assert(strs(errs@) =~= check_msg_spec(*cfg, content@));
    }
    errs
}

} // verus!
