//! Invisible and confusable characters in whole files.

use vstd::prelude::*;
use std::sync::atomic::AtomicBool;
use crate::charset::{
    ambiguous_spec, invisible, invisible_name, invisible_name_spec, is_ambiguous, is_invisible, locale_tables,
    table_views, table_wf, tables_for_locale, AmbiguousTable,
};
use crate::config::accessors::{opt_or, strs};
use crate::config::types::Config;
use crate::encoding::{binary_spec, is_binary};
use crate::messages::{arg_views, message, tr};
use crate::pathutil::{matches_any, matches_any_spec};
use crate::text::{chars_of, dec_seq, hex_pad, split, split_seq, string_of, utf8_lossy};
use super::cancel::check_cancelled;
use super::util::dec_string;

verus! {

/// `U+XXXX` for a character.
pub open spec fn code_of(c: char) -> Seq<char> {
    "U+"@ + hex_pad(c as u32 as nat, 4)
}

/// The name of an invisible character, or its code when it has none.
pub open spec fn name_or_code(c: char) -> Seq<char> {
    if invisible_name_spec(c as u32).len() > 0 {
        invisible_name_spec(c as u32)
    } else {
        code_of(c)
    }
}

fn code_exec(c: char) -> (r: String)
    ensures
        r@ == code_of(c),
{
    let mut v = chars_of("U+");
    crate::text::extend_chars(&mut v, &crate::text::fmt_hex_pad(c as u32 as u64, 4));
    string_of(&v)
}

/// The messages for the characters `line[..]` of line `n` of file `path`: one for each
/// invisible character when `inv`, one for each confusable one (by `tables`) when `amb`.
pub open spec fn line_char_messages(
    path: Seq<char>,
    n: nat,
    line: Seq<char>,
    inv: bool,
    amb: bool,
    tables: Seq<(Seq<u32>, Seq<u32>)>,
) -> Seq<Seq<char>>
    decreases line.len(),
{
    if line.len() == 0 {
        Seq::empty()
    } else {
        let c = line.last();
        let prev = line_char_messages(path, n, line.drop_last(), inv, amb, tables);
        let a = if inv && invisible(c) {
            seq![
                message(
                    "diff.file_invisible_char"@,
                    seq![("Path"@, path), ("Line"@, dec_seq(n)), ("Char"@, code_of(c)), ("Name"@, name_or_code(c))],
                ),
            ]
        } else {
            Seq::empty()
        };
        let b = if amb {
            match ambiguous_spec(tables, c) {
                Some(w) => seq![
                    message(
                        "diff.file_ambiguous_char"@,
                        seq![("Path"@, path), ("Line"@, dec_seq(n)), ("Char"@, code_of(c)), ("LooksAs"@, seq![w])],
                    ),
                ],
                None => Seq::empty(),
            }
        } else {
            Seq::empty()
        };
        prev + a + b
    }
}

/// The messages for the lines `ls[..]`, numbered from 1.
pub open spec fn lines_char_messages(
    path: Seq<char>,
    ls: Seq<Seq<char>>,
    inv: bool,
    amb: bool,
    tables: Seq<(Seq<u32>, Seq<u32>)>,
) -> Seq<Seq<char>>
    decreases ls.len(),
{
    if ls.len() == 0 {
        Seq::empty()
    } else {
        lines_char_messages(path, ls.drop_last(), inv, amb, tables) + line_char_messages(
            path,
            ls.len(),
            ls.last(),
            inv,
            amb,
            tables,
        )
    }
}

/// The patterns of the files the check leaves out: the global ones, then the encoding ones.
pub open spec fn unicode_ignores(cfg: Config) -> Seq<Seq<char>> {
    strs(cfg.exceptions.global_ignore@) + strs(cfg.encoding.ignore_files@)
}

/// The messages for the files `files[..k]` with their contents (`None`: not readable):
/// ignored, unreadable and binary files are skipped; the others are read as UTF-8, invalid
/// bytes replaced.
pub open spec fn files_char_messages(
    cfg: Config,
    files: Seq<Seq<char>>,
    cs: Seq<Option<Seq<u8>>>,
    k: int,
) -> Seq<Seq<char>>
    decreases k,
{
    if k <= 0 {
        Seq::empty()
    } else {
        let prev = files_char_messages(cfg, files, cs, k - 1);
        let p = files[k - 1];
        if matches_any_spec(p, unicode_ignores(cfg)) {
            prev
        } else {
            match cs[k - 1] {
                None => prev,
                Some(raw) => if binary_spec(raw) {
                    prev
                } else {
                    prev + lines_char_messages(
                        p,
                        split_seq(utf8_lossy(raw), '\n'),
                        opt_or(cfg.encoding.no_invisible_chars, false),
                        opt_or(cfg.encoding.no_ambiguous_chars, false),
                        if opt_or(cfg.encoding.no_ambiguous_chars, false) {
                            locale_tables(cfg.encoding.locale@)
                        } else {
                            Seq::empty()
                        },
                    )
                },
            }
        }
    }
}

pub open spec fn bytes_view(v: Seq<Option<Vec<u8>>>) -> Seq<Option<Seq<u8>>> {
    v.map_values(
        |c: Option<Vec<u8>>|
            match c {
                Some(b) => Some(b@),
                None => None,
            },
    )
}

fn push_one(errs: &mut Vec<String>, m: String)
    ensures
        strs(final(errs)@) == strs(old(errs)@) + seq![m@],
{
    proof {
        assert(strs(errs@.push(m)) =~= strs(errs@) + seq![m@]);
    }
    errs.push(m);
}

fn line_messages(
    errs: &mut Vec<String>,
    path: &str,
    n: usize,
    line: &Vec<char>,
    inv: bool,
    amb: bool,
    tables: &Vec<AmbiguousTable>,
)
    requires
        forall|k: int| 0 <= k < tables@.len() ==> table_wf(#[trigger] tables@[k]),
    ensures
        strs(final(errs)@) == strs(old(errs)@) + line_char_messages(
            path@,
            n as nat,
            line@,
            inv,
            amb,
            table_views(tables@),
        ),
{
    let ghost e0 = strs(errs@);
    let ghost tv = table_views(tables@);
    assert(line@.take(0) =~= Seq::<char>::empty());
    assert(e0 + Seq::<Seq<char>>::empty() =~= e0);
    let mut j: usize = 0;
    while j < line.len()
        invariant
            j <= line@.len(),
            tv == table_views(tables@),
            forall|k: int| 0 <= k < tables@.len() ==> table_wf(#[trigger] tables@[k]),
            strs(errs@) == e0 + line_char_messages(path@, n as nat, line@.take(j as int), inv, amb, tv),
        decreases line.len() - j,
    {
        let c = line[j];
        assert(line@.take(j + 1).drop_last() =~= line@.take(j as int));
        assert(line@.take(j + 1).last() == c);
        let ghost before = strs(errs@);
        let ghost pre = line_char_messages(path@, n as nat, line@.take(j as int), inv, amb, tv);
        let ghost a: Seq<Seq<char>> = Seq::empty();
        if inv && is_invisible(c) {
            let code = code_exec(c);
            let nm = invisible_name(c);
            let name = if chars_of(nm).len() > 0 {
                nm.to_string()
            } else {
                code_exec(c)
            };
            let mut args: Vec<(&str, String)> = Vec::new();
            args.push(("Path", path.to_string()));
            args.push(("Line", dec_string(n as u64)));
            args.push(("Char", code));
            args.push(("Name", name));
            assert(arg_views(args@) =~= seq![
                ("Path"@, path@),
                ("Line"@, dec_seq(n as nat)),
                ("Char"@, code_of(c)),
                ("Name"@, name_or_code(c)),
            ]);
            let m = tr("diff.file_invisible_char", &args);
            push_one(errs, m);
            proof {
                a = seq![m@];
            }
        }
        assert(strs(errs@) == before + a);
        let ghost mid = strs(errs@);
        let ghost b: Seq<Seq<char>> = Seq::empty();
        if amb {
            match is_ambiguous(c, tables) {
                Some(w) => {
                    let mut args: Vec<(&str, String)> = Vec::new();
                    args.push(("Path", path.to_string()));
                    args.push(("Line", dec_string(n as u64)));
                    args.push(("Char", code_exec(c)));
                    let mut wv: Vec<char> = Vec::new();
                    wv.push(w);
                    args.push(("LooksAs", string_of(&wv)));
                    assert(arg_views(args@) =~= seq![
                        ("Path"@, path@),
                        ("Line"@, dec_seq(n as nat)),
                        ("Char"@, code_of(c)),
                        ("LooksAs"@, seq![w]),
                    ]);
                    let m = tr("diff.file_ambiguous_char", &args);
                    push_one(errs, m);
                    proof {
                        b = seq![m@];
                    }
                },
                None => {},
            }
        }
        assert(strs(errs@) == mid + b);
        assert(strs(errs@) =~= e0 + line_char_messages(path@, n as nat, line@.take(j + 1), inv, amb, tv));
        j += 1;
    }
    assert(line@.take(line@.len() as int) =~= line@);
}

/// The invisible and confusable characters of the files (see `files_char_messages`);
/// `contents[i]` is the content of `files[i]`, `None` when it could not be read.
/// `Err("interrupted")` when cancelled.
pub fn check_unicode_files(
    cfg: &Config,
    files: &[String],
    contents: &[Option<Vec<u8>>],
    cancel: &AtomicBool,
) -> (r: Result<Vec<String>, String>)
    requires
        contents@.len() == files@.len(),
    ensures
        files@.len() == 0 ==> r is Ok,
        match r {
            Ok(v) => strs(v@) == files_char_messages(*cfg, strs(files@), bytes_view(contents@), files@.len() as int),
            Err(e) => e@ == "interrupted"@,
        },
{
    let mut ignore = crate::config::copy::copy_strings(&cfg.exceptions.global_ignore);
    let extra = crate::config::copy::copy_strings(&cfg.encoding.ignore_files);
    super::diff_check::extend_strings(&mut ignore, &extra);
    let inv = cfg.encoding.is_no_invisible_chars();
    let amb = cfg.encoding.is_no_ambiguous_chars();
    let tables: Vec<AmbiguousTable> = if amb {
        tables_for_locale(cfg.encoding.locale.as_str())
    } else {
        Vec::new()
    };
    let ghost tv = if amb {
        locale_tables(cfg.encoding.locale@)
    } else {
        Seq::empty()
    };
    assert(table_views(tables@) =~= tv);
    assert(forall|k: int| 0 <= k < tables@.len() ==> table_wf(#[trigger] tables@[k]));
    let ghost fv = strs(files@);
    let ghost cv = bytes_view(contents@);
    let mut errs: Vec<String> = Vec::new();
    assert(strs(errs@) =~= Seq::<Seq<char>>::empty());
    let mut i: usize = 0;
    while i < files.len()
        invariant
            i <= files@.len(),
            contents@.len() == files@.len(),
            fv == strs(files@),
            cv == bytes_view(contents@),
            strs(ignore@) == unicode_ignores(*cfg),
            inv == opt_or(cfg.encoding.no_invisible_chars, false),
            amb == opt_or(cfg.encoding.no_ambiguous_chars, false),
            table_views(tables@) == tv,
            tv == (if amb {
                locale_tables(cfg.encoding.locale@)
            } else {
                Seq::empty()
            }),
            forall|k: int| 0 <= k < tables@.len() ==> table_wf(#[trigger] tables@[k]),
            strs(errs@) == files_char_messages(*cfg, fv, cv, i as int),
        decreases files.len() - i,
    {
        match check_cancelled(cancel) {
            Err(e) => {
                return Err(e);
            },
            Ok(()) => {},
        }
        let path = &files[i];
        assert(fv[i as int] == path@);
        assert(ignore@.map_values(|p: String| p@) == strs(ignore@));
        if !matches_any(path.as_str(), &ignore) {
            match &contents[i] {
                None => {},
                Some(raw) => {
                    assert(cv[i as int] == Some(raw@));
                    if !is_binary(raw) {
                        let text = crate::text::from_utf8_lossy(raw);
                        let lines = split(&chars_of(text.as_str()), '\n');
                        let ghost lv = lines@.map_values(|v: Vec<char>| v@);
                        let ghost e0 = strs(errs@);
                        let mut k: usize = 0;
                        assert(lv.take(0) =~= Seq::<Seq<char>>::empty());
                        assert(e0 + Seq::<Seq<char>>::empty() =~= e0);
                        while k < lines.len()
                            invariant
                                k <= lines@.len(),
                                lv == lines@.map_values(|v: Vec<char>| v@),
                                forall|t: int| 0 <= t < tables@.len() ==> table_wf(#[trigger] tables@[t]),
                                strs(errs@) == e0 + lines_char_messages(
                                    path@,
                                    lv.take(k as int),
                                    inv,
                                    amb,
                                    table_views(tables@),
                                ),
                            decreases lines.len() - k,
                        {
                            assert(lv.take(k + 1).drop_last() =~= lv.take(k as int));
                            assert(lv.take(k + 1).last() == lines@[k as int]@);
                            let ghost b = strs(errs@);
                            line_messages(&mut errs, path.as_str(), k + 1, &lines[k], inv, amb, &tables);
                            assert(strs(errs@) =~= e0 + lines_char_messages(
                                path@,
                                lv.take(k + 1),
                                inv,
                                amb,
                                table_views(tables@),
                            ));
                            k += 1;
                        }
                        assert(lv.take(lines@.len() as int) =~= lv);
                    }
                },
            }
        }
        i += 1;
    }
    Ok(errs)
}

/// The invisible and confusable characters of the files (see `check_unicode_files`), when
/// the encoding check is on and at least one of the two character checks is enabled.
pub fn check_unicode(
    cfg: &Config,
    files: &[String],
    contents: &[Option<Vec<u8>>],
    cancel: &AtomicBool,
) -> (r: Result<Vec<String>, String>)
    requires
        contents@.len() == files@.len(),
    ensures
        files@.len() == 0 ==> r is Ok,
        !(opt_or(cfg.encoding.enabled, true) && (opt_or(cfg.encoding.no_invisible_chars, false) || opt_or(
            cfg.encoding.no_ambiguous_chars,
            false,
        ))) ==> (r matches Ok(v) && v@.len() == 0),
        (opt_or(cfg.encoding.enabled, true) && (opt_or(cfg.encoding.no_invisible_chars, false) || opt_or(
            cfg.encoding.no_ambiguous_chars,
            false,
        ))) ==> match r {
            Ok(v) => strs(v@) == files_char_messages(*cfg, strs(files@), bytes_view(contents@), files@.len() as int),
            Err(e) => e@ == "interrupted"@,
        },
{
    if !cfg.encoding.is_enabled() {
        return Ok(Vec::new());
    }
    if !cfg.encoding.is_no_invisible_chars() && !cfg.encoding.is_no_ambiguous_chars() {
        return Ok(Vec::new());
    }
    check_unicode_files(cfg, files, contents, cancel)
}

} // verus!
