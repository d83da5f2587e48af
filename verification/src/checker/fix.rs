//! Automatic fixes for commit messages and file contents.

use vstd::prelude::*;
use crate::charset::{
    ambiguous_spec, invisible, is_ambiguous, is_invisible, locale_tables, table_views,
    table_wf, tables_for_locale, AmbiguousTable,
};
use crate::config::accessors::{coauthor_email, coauthor_removed, extract_coauthor_email, opt_or, strs};
use crate::config::types::{CommitMessageConfig, Config};
use crate::messages::{arg_views, message, tr};
use crate::text::{
    chars_of, dec_seq, has_prefix, has_suffix, hex_pad, join_seq, lowercase, split_seq,
    string_of, trim, trim_seq, utf8_lossy,
};
use super::msg::{decode_at, decode_rune, describe_invisible, invisible_desc};
use super::util::{char_string, dec_string, hex_string};

verus! {

/// The outcome of a fix: the text before and after, and a description of each change.
#[derive(Debug, Clone)]
pub struct FixResult {
    pub original: String,
    pub fixed: String,
    pub changes: Vec<String>,
}

impl FixResult {
    /// Whether anything was fixed.
    pub fn needs_fixing(&self) -> (r: bool)
        ensures
            r == (self.changes@.len() > 0),
    {
        self.changes.len() > 0
    }
}

fn push_msg(errs: &mut Vec<String>, m: String)
    ensures
        strs(final(errs)@) == strs(old(errs)@).push(m@),
{
    proof {
        assert(strs(errs@.push(m)) =~= strs(errs@).push(m@));
    }
    errs.push(m);
}

// ---------------------------------------------------------------------------
// Invalid UTF-8.
// ---------------------------------------------------------------------------

/// The text of `b[i..]` with invalid bytes dropped, and one change per dropped byte
/// (line `line`, column `col`; a dropped byte does not advance the column).
pub open spec fn fix_bad_go(b: Seq<u8>, i: int, line: nat, col: nat) -> (Seq<char>, Seq<Seq<char>>)
    decreases b.len() - i,
{
    if i < 0 || i >= b.len() {
        (Seq::empty(), Seq::empty())
    } else {
        let (ch, size) = decode_at(b, i);
        if size <= 0 {
            (Seq::empty(), Seq::empty())
        } else {
            match ch {
                None => {
                    let (t, cs) = fix_bad_go(b, i + 1, line, col);
                    (
                        t,
                        seq![
                            message(
                                "fix.removed_bad_rune"@,
                                seq![
                                    ("Line"@, dec_seq(line)),
                                    ("Col"@, dec_seq(col)),
                                    ("Byte"@, hex_pad(b[i] as nat, 2)),
                                ],
                            ),
                        ] + cs,
                    )
                },
                Some(c) => if c == '\n' {
                    let (t, cs) = fix_bad_go(b, i + size, line + 1, 1);
                    (seq!['\n'] + t, cs)
                } else {
                    let (t, cs) = fix_bad_go(b, i + size, line, col + 1);
                    (seq![c] + t, cs)
                },
            }
        }
    }
}

fn fix_bad_runes(content: &[u8], changes: &mut Vec<String>) -> (r: String)
    ensures
        r@ == fix_bad_go(content@, 0, 1, 1).0,
        strs(final(changes)@) == strs(old(changes)@) + fix_bad_go(content@, 0, 1, 1).1,
{
    let ghost c0 = strs(changes@);
    let mut out: Vec<char> = Vec::new();
    let mut line0: usize = 0;
    let mut col0: usize = 0;
    let mut i: usize = 0;
    while i < content.len()
        invariant
            i <= content@.len(),
            line0 <= i,
            col0 <= i,
            out@ + fix_bad_go(content@, i as int, (line0 + 1) as nat, (col0 + 1) as nat).0 == fix_bad_go(
                content@,
                0,
                1,
                1,
            ).0,
            strs(changes@) + fix_bad_go(content@, i as int, (line0 + 1) as nat, (col0 + 1) as nat).1
                == c0 + fix_bad_go(content@, 0, 1, 1).1,
        decreases content.len() - i,
    {
        let (ch, size) = decode_rune(content, i);
        match ch {
            None => {
                let mut args: Vec<(&str, String)> = Vec::new();
                args.push(("Line", dec_string((line0 + 1) as u64)));
                args.push(("Col", dec_string((col0 + 1) as u64)));
                args.push(("Byte", hex_string(content[i] as u64, 2)));
                let m = tr("fix.removed_bad_rune", &args);
                assert(arg_views(args@) =~= seq![
                    ("Line"@, dec_seq((line0 + 1) as nat)),
                    ("Col"@, dec_seq((col0 + 1) as nat)),
                    ("Byte"@, hex_pad(content@[i as int] as nat, 2)),
                ]);
                let ghost before = strs(changes@);
                push_msg(changes, m);
                assert(strs(changes@) + fix_bad_go(content@, i + 1, (line0 + 1) as nat, (col0 + 1) as nat).1
                    =~= before + fix_bad_go(content@, i as int, (line0 + 1) as nat, (col0 + 1) as nat).1);
                i += 1;
            },
            Some(c) => {
                let ghost o0 = out@;
                out.push(c);
                if c == '\n' {
                    assert(out@ + fix_bad_go(content@, i + size, (line0 + 2) as nat, 1).0 =~= o0
                        + fix_bad_go(content@, i as int, (line0 + 1) as nat, (col0 + 1) as nat).0);
                    line0 += 1;
                    col0 = 0;
                } else {
                    assert(out@ + fix_bad_go(content@, i + size, (line0 + 1) as nat, (col0 + 2) as nat).0
                        =~= o0 + fix_bad_go(content@, i as int, (line0 + 1) as nat, (col0 + 1) as nat).0);
                    col0 += 1;
                }
                i += size;
            },
        }
    }
    assert(out@ =~= out@ + fix_bad_go(content@, i as int, (line0 + 1) as nat, (col0 + 1) as nat).0);
    assert(strs(changes@) =~= strs(changes@) + fix_bad_go(content@, i as int, (line0 + 1) as nat, (col0 + 1) as nat).1);
    string_of(&out)
}

// ---------------------------------------------------------------------------
// Co-author trailers.
// ---------------------------------------------------------------------------

/// Whether a line is an AI co-author trailer that is to be removed.
pub open spec fn removable_trailer(line: Seq<char>, removals: Seq<String>) -> bool {
    let t = trim_seq(line);
    has_prefix(lowercase(t), "co-authored-by:"@) && coauthor_removed(removals, coauthor_email(t))
}

/// The kept lines of `ls` and one change per removed line (numbered from 1).
pub open spec fn coauthor_fix_go(ls: Seq<Seq<char>>, removals: Seq<String>) -> (Seq<Seq<char>>, Seq<
    Seq<char>,
>)
    decreases ls.len(),
{
    if ls.len() == 0 {
        (Seq::empty(), Seq::empty())
    } else {
        let (kept, cs) = coauthor_fix_go(ls.drop_last(), removals);
        if removable_trailer(ls.last(), removals) {
            (
                kept,
                cs.push(
                    message(
                        "fix.removed_ai_coauthor"@,
                        seq![("Line"@, dec_seq(ls.len())), ("Trailer"@, trim_seq(ls.last()))],
                    ),
                ),
            )
        } else {
            (kept.push(ls.last()), cs)
        }
    }
}

/// `s` with trailing line feeds reduced to at most one.
pub open spec fn collapse_newlines(s: Seq<char>) -> Seq<char>
    decreases s.len(),
{
    if s.len() >= 2 && s[s.len() - 1] == '\n' && s[s.len() - 2] == '\n' {
        collapse_newlines(s.drop_last())
    } else {
        s
    }
}

fn fix_coauthor(content: &[char], changes: &mut Vec<String>, cfg: &CommitMessageConfig) -> (r: Vec<char>)
    ensures
        r@ == collapse_newlines(
            join_seq(coauthor_fix_go(split_seq(content@, '\n'), cfg.coauthor_remove_emails@).0, "\n"@),
        ),
        strs(final(changes)@) == strs(old(changes)@) + coauthor_fix_go(
            split_seq(content@, '\n'),
            cfg.coauthor_remove_emails@,
        ).1,
{
    let lines = crate::text::split(content, '\n');
    let ghost lv = lines@.map_values(|v: Vec<char>| v@);
    let ghost c0 = strs(changes@);
    let mut kept: Vec<Vec<char>> = Vec::new();
    let mut i: usize = 0;
    while i < lines.len()
        invariant
            i <= lines@.len(),
            lv == lines@.map_values(|v: Vec<char>| v@),
            kept@.map_values(|v: Vec<char>| v@) == coauthor_fix_go(lv.take(i as int), cfg.coauthor_remove_emails@).0,
            strs(changes@) == c0 + coauthor_fix_go(lv.take(i as int), cfg.coauthor_remove_emails@).1,
        decreases lines.len() - i,
    {
        assert(lv.take(i + 1).drop_last() =~= lv.take(i as int));
        let t = trim(&lines[i]);
        let ts = string_of(&t);
        let low = crate::text::lower_chars(&t);
        let mut removed = false;
        if crate::text::starts_with_str(&low, "co-authored-by:") {
            let email = extract_coauthor_email(ts.as_str());
            if cfg.coauthor_should_remove(email.as_str()) {
                let mut args: Vec<(&str, String)> = Vec::new();
                args.push(("Line", dec_string((i + 1) as u64)));
                args.push(("Trailer", ts));
                let m = tr("fix.removed_ai_coauthor", &args);
                assert(arg_views(args@) =~= seq![("Line"@, dec_seq((i + 1) as nat)), ("Trailer"@, t@)]);
                let ghost before = strs(changes@);
                push_msg(changes, m);
                assert(strs(changes@) =~= c0 + coauthor_fix_go(lv.take(i + 1), cfg.coauthor_remove_emails@).1);
                removed = true;
            }
        }
        if !removed {
            let l = crate::text::copy_chars(&lines[i]);
            proof {
                assert(kept@.push(l).map_values(|v: Vec<char>| v@) =~= kept@.map_values(
                    |v: Vec<char>| v@,
                ).push(l@));
            }
            kept.push(l);
        }
        i += 1;
    }
    assert(lv.take(lines@.len() as int) =~= lv);
    let nl = ['\n'];
    proof {
        reveal_strlit("\n");
    }
    assert(nl@ =~= "\n"@);
    let mut result = crate::text::join(&kept, &nl);
    while result.len() >= 2 && result[result.len() - 1] == '\n' && result[result.len() - 2] == '\n'
        invariant
            collapse_newlines(result@) == collapse_newlines(
                join_seq(coauthor_fix_go(lv, cfg.coauthor_remove_emails@).0, "\n"@),
            ),
        decreases result@.len(),
    {
        result.pop();
    }
    result
}

// ---------------------------------------------------------------------------
// Invisible and confusable characters.
// ---------------------------------------------------------------------------

/// Invisible characters that stand for a space and are replaced by one (the others are
/// removed).
pub open spec fn space_variant(c: char) -> bool {
    let u = c as u32;
    u == 0x00A0 || u == 0x1680 || (0x2000 <= u && u <= 0x200A) || u == 0x202F || u == 0x205F || u
        == 0x3000
}

pub fn is_space_variant(c: char) -> (r: bool)
    ensures
        r == space_variant(c),
{
    let u = c as u32;
    u == 0x00A0 || u == 0x1680 || (0x2000 <= u && u <= 0x200A) || u == 0x202F || u == 0x205F || u
        == 0x3000
}

/// The first `line.len()` characters of line `n` with invisible characters replaced by a
/// space or removed, and one change per such character.
pub open spec fn invisible_fix_line(n: nat, line: Seq<char>) -> (Seq<char>, Seq<Seq<char>>)
    decreases line.len(),
{
    if line.len() == 0 {
        (Seq::empty(), Seq::empty())
    } else {
        let (t, cs) = invisible_fix_line(n, line.drop_last());
        let c = line.last();
        let args = seq![
            ("Line"@, dec_seq(n)),
            ("Col"@, dec_seq(line.len())),
            ("Desc"@, invisible_desc(c)),
        ];
        if invisible(c) {
            if space_variant(c) {
                (t.push(' '), cs.push(message("fix.replaced_invisible_space"@, args)))
            } else {
                (t, cs.push(message("fix.removed_invisible_char"@, args)))
            }
        } else {
            (t.push(c), cs)
        }
    }
}

/// The fixed lines and the changes of the first `ls.len()` lines.
pub open spec fn invisible_fix_lines(ls: Seq<Seq<char>>) -> (Seq<Seq<char>>, Seq<Seq<char>>)
    decreases ls.len(),
{
    if ls.len() == 0 {
        (Seq::empty(), Seq::empty())
    } else {
        let (fl, cs) = invisible_fix_lines(ls.drop_last());
        let (t, c) = invisible_fix_line(ls.len(), ls.last());
        (fl.push(t), cs + c)
    }
}

fn fix_invisible_chars(content: &[char], changes: &mut Vec<String>) -> (r: Vec<char>)
    ensures
        r@ == join_seq(invisible_fix_lines(split_seq(content@, '\n')).0, "\n"@),
        strs(final(changes)@) == strs(old(changes)@) + invisible_fix_lines(split_seq(content@, '\n')).1,
{
    let lines = crate::text::split(content, '\n');
    let ghost lv = lines@.map_values(|v: Vec<char>| v@);
    let ghost c0 = strs(changes@);
    let mut fixed: Vec<Vec<char>> = Vec::new();
    let mut i: usize = 0;
    while i < lines.len()
        invariant
            i <= lines@.len(),
            lv == lines@.map_values(|v: Vec<char>| v@),
            fixed@.map_values(|v: Vec<char>| v@) == invisible_fix_lines(lv.take(i as int)).0,
            strs(changes@) == c0 + invisible_fix_lines(lv.take(i as int)).1,
        decreases lines.len() - i,
    {
        assert(lv.take(i + 1).drop_last() =~= lv.take(i as int));
        let line = &lines[i];
        let ln = i + 1;
        let ghost cl = strs(changes@);
        let mut out: Vec<char> = Vec::new();
        let mut j: usize = 0;
        while j < line.len()
            invariant
                j <= line@.len(),
                ln == i + 1,
                out@ == invisible_fix_line(ln as nat, line@.take(j as int)).0,
                strs(changes@) == cl + invisible_fix_line(ln as nat, line@.take(j as int)).1,
            decreases line.len() - j,
        {
            let c = line[j];
            assert(line@.take(j + 1).drop_last() =~= line@.take(j as int));
            if is_invisible(c) {
                let mut args: Vec<(&str, String)> = Vec::new();
                args.push(("Line", dec_string(ln as u64)));
                args.push(("Col", dec_string((j + 1) as u64)));
                args.push(("Desc", describe_invisible(c)));
                assert(arg_views(args@) =~= seq![
                    ("Line"@, dec_seq(ln as nat)),
                    ("Col"@, dec_seq((j + 1) as nat)),
                    ("Desc"@, invisible_desc(c)),
                ]);
                if is_space_variant(c) {
                    let m = tr("fix.replaced_invisible_space", &args);
                    push_msg(changes, m);
                    out.push(' ');
                } else {
                    let m = tr("fix.removed_invisible_char", &args);
                    push_msg(changes, m);
                }
                assert(strs(changes@) =~= cl + invisible_fix_line(ln as nat, line@.take(j + 1)).1);
            } else {
                out.push(c);
            }
            j += 1;
        }
        assert(line@.take(line@.len() as int) =~= line@);
        proof {
            assert(fixed@.push(out).map_values(|v: Vec<char>| v@) =~= fixed@.map_values(
                |v: Vec<char>| v@,
            ).push(out@));
        }
        fixed.push(out);
        assert(strs(changes@) =~= c0 + invisible_fix_lines(lv.take(i + 1)).1);
        i += 1;
    }
    assert(lv.take(lines@.len() as int) =~= lv);
    let nl = ['\n'];
    proof {
        reveal_strlit("\n");
    }
    assert(nl@ =~= "\n"@);
    crate::text::join(&fixed, &nl)
}

/// The first `line.len()` characters of line `n` with confusable characters replaced by
/// their ASCII look-alike, and one change per replacement.
pub open spec fn ambiguous_fix_line(n: nat, line: Seq<char>, tables: Seq<(Seq<u32>, Seq<u32>)>) -> (
    Seq<char>,
    Seq<Seq<char>>,
)
    decreases line.len(),
{
    if line.len() == 0 {
        (Seq::empty(), Seq::empty())
    } else {
        let (t, cs) = ambiguous_fix_line(n, line.drop_last(), tables);
        let c = line.last();
        match ambiguous_spec(tables, c) {
            Some(a) => (
                t.push(a),
                cs.push(
                    message(
                        "fix.replaced_ambiguous_char"@,
                        seq![
                            ("Line"@, dec_seq(n)),
                            ("Col"@, dec_seq(line.len())),
                            ("CharCode"@, hex_pad(c as u32 as nat, 4)),
                            ("Char"@, seq![c]),
                            ("ASCII"@, seq![a]),
                            ("ASCIICode"@, hex_pad(a as u32 as nat, 4)),
                        ],
                    ),
                ),
            ),
            None => (t.push(c), cs),
        }
    }
}

/// The fixed lines and the changes of the first `ls.len()` lines.
pub open spec fn ambiguous_fix_lines(ls: Seq<Seq<char>>, tables: Seq<(Seq<u32>, Seq<u32>)>) -> (
    Seq<Seq<char>>,
    Seq<Seq<char>>,
)
    decreases ls.len(),
{
    if ls.len() == 0 {
        (Seq::empty(), Seq::empty())
    } else {
        let (fl, cs) = ambiguous_fix_lines(ls.drop_last(), tables);
        let (t, c) = ambiguous_fix_line(ls.len(), ls.last(), tables);
        (fl.push(t), cs + c)
    }
}

fn fix_ambiguous_chars(content: &[char], changes: &mut Vec<String>, tables: &Vec<AmbiguousTable>) -> (r:
    Vec<char>)
    requires
        forall|k: int| 0 <= k < tables@.len() ==> table_wf(#[trigger] tables@[k]),
    ensures
        r@ == join_seq(ambiguous_fix_lines(split_seq(content@, '\n'), table_views(tables@)).0, "\n"@),
        strs(final(changes)@) == strs(old(changes)@) + ambiguous_fix_lines(
            split_seq(content@, '\n'),
            table_views(tables@),
        ).1,
{
    let lines = crate::text::split(content, '\n');
    let ghost lv = lines@.map_values(|v: Vec<char>| v@);
    let ghost tv = table_views(tables@);
    let ghost c0 = strs(changes@);
    let mut fixed: Vec<Vec<char>> = Vec::new();
    let mut i: usize = 0;
    while i < lines.len()
        invariant
            i <= lines@.len(),
            lv == lines@.map_values(|v: Vec<char>| v@),
            tv == table_views(tables@),
            forall|k: int| 0 <= k < tables@.len() ==> table_wf(#[trigger] tables@[k]),
            fixed@.map_values(|v: Vec<char>| v@) == ambiguous_fix_lines(lv.take(i as int), tv).0,
            strs(changes@) == c0 + ambiguous_fix_lines(lv.take(i as int), tv).1,
        decreases lines.len() - i,
    {
        assert(lv.take(i + 1).drop_last() =~= lv.take(i as int));
        let line = &lines[i];
        let ln = i + 1;
        let ghost cl = strs(changes@);
        let mut out: Vec<char> = Vec::new();
        let mut j: usize = 0;
        while j < line.len()
            invariant
                j <= line@.len(),
                ln == i + 1,
                tv == table_views(tables@),
                forall|k: int| 0 <= k < tables@.len() ==> table_wf(#[trigger] tables@[k]),
                out@ == ambiguous_fix_line(ln as nat, line@.take(j as int), tv).0,
                strs(changes@) == cl + ambiguous_fix_line(ln as nat, line@.take(j as int), tv).1,
            decreases line.len() - j,
        {
            let c = line[j];
            assert(line@.take(j + 1).drop_last() =~= line@.take(j as int));
            match is_ambiguous(c, tables.as_slice()) {
                Some(a) => {
                    let mut args: Vec<(&str, String)> = Vec::new();
                    args.push(("Line", dec_string(ln as u64)));
                    args.push(("Col", dec_string((j + 1) as u64)));
                    args.push(("CharCode", hex_string(c as u32 as u64, 4)));
                    args.push(("Char", char_string(c)));
                    args.push(("ASCII", char_string(a)));
                    args.push(("ASCIICode", hex_string(a as u32 as u64, 4)));
                    let m = tr("fix.replaced_ambiguous_char", &args);
                    assert(arg_views(args@) =~= seq![
                        ("Line"@, dec_seq(ln as nat)),
                        ("Col"@, dec_seq((j + 1) as nat)),
                        ("CharCode"@, hex_pad(c as u32 as nat, 4)),
                        ("Char"@, seq![c]),
                        ("ASCII"@, seq![a]),
                        ("ASCIICode"@, hex_pad(a as u32 as nat, 4)),
                    ]);
                    push_msg(changes, m);
                    out.push(a);
                },
                None => {
                    out.push(c);
                },
            }
            j += 1;
        }
        assert(line@.take(line@.len() as int) =~= line@);
        proof {
            assert(fixed@.push(out).map_values(|v: Vec<char>| v@) =~= fixed@.map_values(
                |v: Vec<char>| v@,
            ).push(out@));
        }
        fixed.push(out);
        assert(strs(changes@) =~= c0 + ambiguous_fix_lines(lv.take(i + 1), tv).1);
        i += 1;
    }
    assert(lv.take(lines@.len() as int) =~= lv);
    let nl = ['\n'];
    proof {
        reveal_strlit("\n");
    }
    assert(nl@ =~= "\n"@);
    crate::text::join(&fixed, &nl)
}

// ---------------------------------------------------------------------------
// Whole fixes.
// ---------------------------------------------------------------------------

/// The fixed text and changes of a text after the invisible-character fix, when `on`.
pub open spec fn then_invisible(s: (Seq<char>, Seq<Seq<char>>), on: bool) -> (Seq<char>, Seq<Seq<char>>) {
    if on {
        let f = invisible_fix_lines(split_seq(s.0, '\n'));
        (join_seq(f.0, "\n"@), s.1 + f.1)
    } else {
        s
    }
}

/// The fixed text and changes of a text after the confusable-character fix, when `on`.
pub open spec fn then_ambiguous(s: (Seq<char>, Seq<Seq<char>>), on: bool, tables: Seq<(Seq<u32>, Seq<u32>)>) -> (
    Seq<char>,
    Seq<Seq<char>>,
) {
    if on {
        let f = ambiguous_fix_lines(split_seq(s.0, '\n'), tables);
        (join_seq(f.0, "\n"@), s.1 + f.1)
    } else {
        s
    }
}

/// The fixed text and changes of a commit message: invalid bytes dropped (when enabled;
/// otherwise the text is decoded with replacement characters), AI co-author trailers
/// removed, invisible characters fixed and confusable characters replaced, each when enabled.
pub open spec fn fix_msg_spec(cfg: Config, content: Seq<u8>) -> (Seq<char>, Seq<Seq<char>>) {
    let cm = cfg.commit_message;
    let s0 = if opt_or(cm.no_bad_runes, true) {
        fix_bad_go(content, 0, 1, 1)
    } else {
        (utf8_lossy(content), Seq::empty())
    };
    let s1 = if opt_or(cm.no_ai_coauthor, true) {
        let f = coauthor_fix_go(split_seq(s0.0, '\n'), cm.coauthor_remove_emails@);
        (collapse_newlines(join_seq(f.0, "\n"@)), s0.1 + f.1)
    } else {
        s0
    };
    let s2 = then_invisible(s1, opt_or(cm.no_unicode_spaces, true));
    then_ambiguous(s2, opt_or(cm.no_ambiguous_chars, true), locale_tables(cm.locale@))
}

/// Applies the automatic fixes to a commit message (see `fix_msg_spec`).
pub fn fix_msg(cfg: &Config, content: &[u8]) -> (r: FixResult)
    ensures
        r.original@ == utf8_lossy(content@),
        r.fixed@ == fix_msg_spec(*cfg, content@).0,
        strs(r.changes@) == fix_msg_spec(*cfg, content@).1,
{
    let cm = &cfg.commit_message;
    let mut changes: Vec<String> = Vec::new();
    assert(strs(changes@) =~= Seq::<Seq<char>>::empty());
    let original = crate::text::from_utf8_lossy(content);
    let fixed0 = if cm.is_no_bad_runes() {
        fix_bad_runes(content, &mut changes)
    } else {
        crate::text::from_utf8_lossy(content)
    };
    let mut fixed = chars_of(fixed0.as_str());
    if cm.is_no_ai_coauthor() {
        fixed = fix_coauthor(&fixed, &mut changes, cm);
    }
    if cm.is_no_unicode_spaces() {
        fixed = fix_invisible_chars(&fixed, &mut changes);
    }
    if cm.is_no_ambiguous_chars() {
        let tables = tables_for_locale(cm.locale.as_str());
        fixed = fix_ambiguous_chars(&fixed, &mut changes, &tables);
    }
    FixResult { original, fixed: string_of(&fixed), changes }
}

/// The fixed text and changes of a file: invalid bytes dropped, then invisible and
/// confusable characters fixed when the encoding check enables it (confusables by the
/// tables of the commit message locale).
pub open spec fn fix_file_spec(cfg: Config, content: Seq<u8>) -> (Seq<char>, Seq<Seq<char>>) {
    let s0 = fix_bad_go(content, 0, 1, 1);
    let s1 = then_invisible(s0, opt_or(cfg.encoding.no_invisible_chars, false));
    then_ambiguous(
        s1,
        opt_or(cfg.encoding.no_ambiguous_chars, false),
        locale_tables(cfg.commit_message.locale@),
    )
}

/// Fixes the Unicode problems of a file's content (see `fix_file_spec`).
pub fn fix_file_content(cfg: &Config, content: &[u8]) -> (r: FixResult)
    ensures
        r.original@ == utf8_lossy(content@),
        r.fixed@ == fix_file_spec(*cfg, content@).0,
        strs(r.changes@) == fix_file_spec(*cfg, content@).1,
{
    let mut changes: Vec<String> = Vec::new();
    assert(strs(changes@) =~= Seq::<Seq<char>>::empty());
    let fixed0 = fix_bad_runes(content, &mut changes);
    let mut fixed = chars_of(fixed0.as_str());
    if cfg.encoding.is_no_invisible_chars() {
        fixed = fix_invisible_chars(&fixed, &mut changes);
    }
    if cfg.encoding.is_no_ambiguous_chars() {
        let tables = tables_for_locale(cfg.commit_message.locale.as_str());
        fixed = fix_ambiguous_chars(&fixed, &mut changes, &tables);
    }
    FixResult {
        original: crate::text::from_utf8_lossy(content),
        fixed: string_of(&fixed),
        changes,
    }
}

/// Fixing invisible characters leaves none behind: every character of a fixed line is
/// visible (the replacement is a plain space).
pub proof fn law_invisible_fix_leaves_none(n: nat, line: Seq<char>)
    ensures
        forall|k: int| 0 <= k < invisible_fix_line(n, line).0.len() ==> !invisible(#[trigger] invisible_fix_line(n, line).0[k]),
    decreases line.len(),
{
    if line.len() > 0 {
        law_invisible_fix_leaves_none(n, line.drop_last());
        assert(!invisible(' ')) by {
            assert((' ' as u32) == 0x20);
        }
        let t = invisible_fix_line(n, line.drop_last()).0;
        let r = invisible_fix_line(n, line).0;
        let c = line.last();
        assert forall|k: int| 0 <= k < r.len() implies !invisible(#[trigger] r[k]) by {
            if k < t.len() {
                assert(!invisible(t[k]));
                if invisible(c) && !space_variant(c) {
                    assert(r == t);
                } else {
                    assert(r[k] == t[k]);
                }
            } else if invisible(c) {
                assert(r == t.push(' '));
            } else {
                assert(r == t.push(c));
            }
        }
    }
}

/// A line without invisible characters is left as it is, with no change reported.
pub proof fn law_invisible_fix_keeps_clean_line(n: nat, line: Seq<char>)
    requires
        forall|k: int| 0 <= k < line.len() ==> !invisible(#[trigger] line[k]),
    ensures
        invisible_fix_line(n, line) == (line, Seq::<Seq<char>>::empty()),
    decreases line.len(),
{
    if line.len() > 0 {
        law_invisible_fix_keeps_clean_line(n, line.drop_last());
        assert(!invisible(line.last()));
        assert(line.drop_last().push(line.last()) =~= line);
    }
}
} // verus!
