//! The comment language check on changed files: comments are grouped into units, and each
//! unit that touches an added line must be in the required language.

use vstd::prelude::*;
use std::sync::atomic::AtomicBool;
use crate::comment::base::{items, Comment, Item, Kind};
use crate::comment::registry::{all_lang_exts, dedup_first, extensions_for_languages, get_parser, kind_items, parser_for};
use crate::config::accessors::{first_locale, opt_or, strs};
use crate::config::types::{CommentLanguageConfig, Config, FileLanguageRule};
use crate::directive::{analyze, analyze_spec, item_states, lemma_analyze_items, state_view, states_view, CommentState};
use crate::emoji::{emojis_of, find_emojis, EmojiInfo};
use crate::gitdiff::{diff_view, diffs_view, has_extension, has_extension_spec, DiffView, FileDiff};
use crate::langdetect::{
    dominant_language, dominant_spec, is_required_language, normalized_locale, required_language_spec,
    strip_allowed_spec, strip_allowed_words,
};
use crate::messages::{arg_views, message, tr};
use crate::pathutil::{matches_any, matches_any_spec, matches_pattern};
use crate::text::{int_seq, join, join_seq, string_of, trim_seq, trim_str};
use super::cancel::check_cancelled;
use super::util::{char_string, hex_string, int_string, truncate, truncated};

verus! {

/// A piece of text whose language is checked: a block comment, a string literal, or a run of
/// consecutive line comments in the same required language.
pub struct CommentUnit {
    pub text: String,
    pub line: i64,
    pub end_line: i64,
    pub lang: String,
    pub kind: Kind,
}

/// A unit as plain values.
pub struct UnitView {
    pub text: Seq<char>,
    pub line: i64,
    pub end_line: i64,
    pub lang: Seq<char>,
    pub kind: Kind,
}

pub open spec fn unit_view(u: CommentUnit) -> UnitView {
    UnitView { text: u.text@, line: u.line, end_line: u.end_line, lang: u.lang@, kind: u.kind }
}

pub open spec fn units_view(v: Seq<CommentUnit>) -> Seq<UnitView> {
    v.map_values(|u: CommentUnit| unit_view(u))
}

/// Whether comment `c` in state `s` ends a run of line comments in `lang` whose texts so far
/// are `texts` and whose last comment ends on line `prev_end`: it is skipped, an import, a
/// block comment or string, in another language, or (after some text) not on the next line.
pub open spec fn ends_group(c: Item, s: (bool, Seq<char>), lang: Seq<char>, texts: Seq<Seq<char>>, prev_end: i64) -> bool {
    s.0 || c.kind == Kind::Import || c.is_block || c.kind == Kind::String || s.1 != lang || (texts.len() > 0
        && c.line > prev_end + 1)
}

/// The run of line comments from `j` on: where it stops, its non-empty trimmed texts, and
/// the line where its last comment ends.
pub open spec fn group_go(
    cs: Seq<Item>,
    ss: Seq<(bool, Seq<char>)>,
    j: int,
    lang: Seq<char>,
    texts: Seq<Seq<char>>,
    prev_end: i64,
) -> (int, Seq<Seq<char>>, i64)
    decreases cs.len() - j,
{
    if j < 0 || j >= cs.len() || ends_group(cs[j], ss[j], lang, texts, prev_end) {
        (j, texts, prev_end)
    } else {
        let t = trim_seq(cs[j].text);
        group_go(
            cs,
            ss,
            j + 1,
            lang,
            if t.len() > 0 {
                texts.push(t)
            } else {
                texts
            },
            cs[j].end_line,
        )
    }
}

pub proof fn lemma_group_go(
    cs: Seq<Item>,
    ss: Seq<(bool, Seq<char>)>,
    j: int,
    lang: Seq<char>,
    texts: Seq<Seq<char>>,
    prev_end: i64,
)
    requires
        0 <= j <= cs.len(),
    ensures
        j <= group_go(cs, ss, j, lang, texts, prev_end).0 <= cs.len(),
    decreases cs.len() - j,
{
    if j < cs.len() && !ends_group(cs[j], ss[j], lang, texts, prev_end) {
        let t = trim_seq(cs[j].text);
        lemma_group_go(
            cs,
            ss,
            j + 1,
            lang,
            if t.len() > 0 {
                texts.push(t)
            } else {
                texts
            },
            cs[j].end_line,
        );
    }
}

/// Whether a comment is left out of every unit: skipped by a directive, an import, or a
/// string when strings are not checked.
pub open spec fn excluded(c: Item, s: (bool, Seq<char>), check_strings: bool) -> bool {
    s.0 || c.kind == Kind::Import || (c.kind == Kind::String && !check_strings)
}

/// The units of the comments from `i` on (with their directive states `ss`).
pub open spec fn units_go(
    cs: Seq<Item>,
    ss: Seq<(bool, Seq<char>)>,
    check_strings: bool,
    i: int,
    acc: Seq<UnitView>,
) -> Seq<UnitView>
    decreases cs.len() - i,
{
    if i < 0 || i >= cs.len() {
        acc
    } else {
        let c = cs[i];
        let s = ss[i];
        if excluded(c, s, check_strings) {
            units_go(cs, ss, check_strings, i + 1, acc)
        } else if c.is_block || c.kind == Kind::String {
            units_go(
                cs,
                ss,
                check_strings,
                i + 1,
                acc.push(UnitView { text: trim_seq(c.text), line: c.line, end_line: c.end_line, lang: s.1, kind: c.kind }),
            )
        } else {
            let g = group_go(cs, ss, i, s.1, Seq::empty(), c.end_line);
            proof {
                lemma_group_go(cs, ss, i + 1, s.1, if trim_seq(c.text).len() > 0 {
                    Seq::<Seq<char>>::empty().push(trim_seq(c.text))
                } else {
                    Seq::<Seq<char>>::empty()
                }, c.end_line);
            }
            let acc2 = if g.1.len() > 0 {
                acc.push(
                    UnitView { text: join_seq(g.1, "\n"@), line: c.line, end_line: g.2, lang: s.1, kind: Kind::Comment },
                )
            } else {
                acc
            };
            units_go(cs, ss, check_strings, g.0, acc2)
        }
    }
}

/// The units of the comments.
pub open spec fn units_spec(cs: Seq<Item>, ss: Seq<(bool, Seq<char>)>, check_strings: bool) -> Seq<UnitView> {
    units_go(cs, ss, check_strings, 0, Seq::empty())
}

fn push_unit(units: &mut Vec<CommentUnit>, u: CommentUnit)
    ensures
        units_view(final(units)@) == units_view(old(units)@).push(unit_view(u)),
{
    proof {
        assert(units_view(units@.push(u)) =~= units_view(units@).push(unit_view(u)));
    }
    units.push(u);
}

/// The units of the comments (see `units_spec`); `states[i]` is the directive state of
/// `comments[i]`.
pub fn build_comment_units(comments: &[Comment], states: &[CommentState], check_strings: bool) -> (r: Vec<
    CommentUnit,
>)
    requires
        states@.len() >= comments@.len(),
    ensures
        units_view(r@) == units_spec(items(comments@), states_view(states@), check_strings),
{
    let ghost cs = items(comments@);
    let ghost ss = states_view(states@);
    let n = comments.len();
    let mut units: Vec<CommentUnit> = Vec::new();
    let mut i: usize = 0;
    assert(units_view(units@) =~= Seq::<UnitView>::empty());
    while i < n
        invariant
            i <= n,
            n == comments@.len(),
            states@.len() >= n,
            cs == items(comments@),
            ss == states_view(states@),
            units_go(cs, ss, check_strings, i as int, units_view(units@)) == units_spec(cs, ss, check_strings),
        decreases n - i,
    {
        let c = &comments[i];
        let s = &states[i];
        assert(cs[i as int] == c.item());
        assert(ss[i as int] == state_view(*s));
        if s.skip || c.kind == Kind::Import || (c.kind == Kind::String && !check_strings) {
            i += 1;
        } else if c.is_block || c.kind == Kind::String {
            let t = trim_str(c.text.as_str());
            push_unit(
                &mut units,
                CommentUnit {
                    text: string_of(&t),
                    line: c.line,
                    end_line: c.end_line,
                    lang: s.language.clone(),
                    kind: c.kind,
                },
            );
            i += 1;
        } else {
            let start_line = c.line;
            let lang = s.language.clone();
            let ghost i0 = i;
            let mut prev_end: i64 = c.end_line;
            let mut texts: Vec<Vec<char>> = Vec::new();
            assert(texts@.map_values(|v: Vec<char>| v@) =~= Seq::<Seq<char>>::empty());
            while i < n
                invariant
                    i0 <= i <= n,
                    n == comments@.len(),
                    states@.len() >= n,
                    cs == items(comments@),
                    ss == states_view(states@),
                    group_go(cs, ss, i as int, lang@, texts@.map_values(|v: Vec<char>| v@), prev_end)
                        == group_go(cs, ss, i0 as int, lang@, Seq::empty(), cs[i0 as int].end_line),
                    i0 < n,
                    i == i0 ==> texts@.len() == 0 && prev_end == cs[i0 as int].end_line,
                    !ss[i0 as int].0,
                    cs[i0 as int].kind != Kind::Import,
                    !cs[i0 as int].is_block,
                    cs[i0 as int].kind != Kind::String,
                    ss[i0 as int].1 == lang@,
                ensures
                    i0 < i <= n,
                    group_go(cs, ss, i0 as int, lang@, Seq::empty(), cs[i0 as int].end_line) == (
                        i as int,
                        texts@.map_values(|v: Vec<char>| v@),
                        prev_end,
                    ),
                decreases n - i,
            {
                let ci = &comments[i];
                let si = &states[i];
                assert(cs[i as int] == ci.item());
                assert(ss[i as int] == state_view(*si));
                if si.skip || ci.kind == Kind::Import || ci.is_block || ci.kind == Kind::String {
                    break;
                }
                if !crate::text::str_eq(si.language.as_str(), lang.as_str()) {
                    break;
                }
                if texts.len() > 0 && prev_end < i64::MAX && ci.line > prev_end + 1 {
                    break;
                }
                let t = trim_str(ci.text.as_str());
                if t.len() > 0 {
                    let ghost before = texts@.map_values(|v: Vec<char>| v@);
                    texts.push(t);
                    assert(texts@.map_values(|v: Vec<char>| v@) =~= before.push(trim_seq(ci.text@)));
                }
                prev_end = ci.end_line;
                i += 1;
            }
            proof {
                lemma_group_go(cs, ss, i0 + 1, ss[i0 as int].1, if trim_seq(cs[i0 as int].text).len() > 0 {
                    Seq::<Seq<char>>::empty().push(trim_seq(cs[i0 as int].text))
                } else {
                    Seq::<Seq<char>>::empty()
                }, cs[i0 as int].end_line);
            }
            if texts.len() > 0 {
                let nl = ['\n'];
                assert(nl@ == "\n"@) by {
                    reveal_strlit("\n");
                }
                let joined = join(&texts, &nl);
                push_unit(
                    &mut units,
                    CommentUnit {
                        text: string_of(&joined),
                        line: start_line,
                        end_line: prev_end,
                        lang,
                        kind: Kind::Comment,
                    },
                );
            }
        }
    }
    units
}


// ---------------------------------------------------------------------------
// The language each file requires.
// ---------------------------------------------------------------------------

/// The language a file rule names (possibly none).
pub open spec fn rule_lang(r: FileLanguageRule) -> Seq<char> {
    if normalized_locale(r.locale@).len() > 0 {
        normalized_locale(r.locale@)
    } else {
        normalized_locale(r.language@)
    }
}

/// The language of the first rule from `i` on whose pattern matches and that names one;
/// `dflt` when there is none.
pub open spec fn file_lang_from(path: Seq<char>, rules: Seq<FileLanguageRule>, i: int, dflt: Seq<char>) -> Seq<
    char,
>
    decreases rules.len() - i,
{
    if i < 0 || i >= rules.len() {
        dflt
    } else if matches_pattern(path, rules[i].pattern@) && rule_lang(rules[i]).len() > 0 {
        rule_lang(rules[i])
    } else {
        file_lang_from(path, rules, i + 1, dflt)
    }
}

/// The language the comments of a file must be in.
pub open spec fn file_lang_spec(path: Seq<char>, cl: CommentLanguageConfig) -> Seq<char> {
    file_lang_from(path, cl.file_languages@, 0, first_locale(cl.locale@, cl.required_language@))
}

/// The language the comments of the file must be in (see `file_lang_spec`).
pub fn resolve_file_lang(path: &str, cfg: &Config) -> (r: String)
    ensures
        r@ == file_lang_spec(path@, cfg.comment_language),
{
    let rules = &cfg.comment_language.file_languages;
    let mut i: usize = 0;
    while i < rules.len()
        invariant
            i <= rules@.len(),
            rules@ == cfg.comment_language.file_languages@,
            file_lang_from(path@, rules@, i as int, first_locale(
                cfg.comment_language.locale@,
                cfg.comment_language.required_language@,
            )) == file_lang_spec(path@, cfg.comment_language),
        decreases rules.len() - i,
    {
        let one = vec![rules[i].pattern.clone()];
        proof {
            assert(one@.map_values(|p: String| p@) =~= seq![rules@[i as int].pattern@]);
            if matches_pattern(path@, rules@[i as int].pattern@) {
                assert(matches_any_spec(path@, seq![rules@[i as int].pattern@]) == matches_pattern(
                    path@,
                    seq![rules@[i as int].pattern@][0],
                ));
            }
        }
        if matches_any(path, &one) {
            let v = rules[i].get_locale();
            if !crate::text::is_empty_str(v.as_str()) {
                return v;
            }
        }
        i += 1;
    }
    cfg.comment_language.get_locale()
}

// ---------------------------------------------------------------------------
// Messages.
// ---------------------------------------------------------------------------

/// Whether a unit's lines include an added line.
pub open spec fn overlaps(u: UnitView, added: Set<i64>) -> bool {
    exists|ln: i64| u.line <= ln <= u.end_line && #[trigger] added.contains(ln)
}

/// The line of an emoji found on line `el` of a unit's text that starts on line `l`.
pub open spec fn emoji_line(l: i64, el: usize) -> i64 {
    (l + el - 1) as i64
}

/// The emoji messages for the emojis `es` of a unit starting on line `l` of file `path`.
pub open spec fn emoji_messages(path: Seq<char>, l: i64, es: Seq<EmojiInfo>) -> Seq<Seq<char>>
    decreases es.len(),
{
    if es.len() == 0 {
        Seq::empty()
    } else {
        let e = es.last();
        emoji_messages(path, l, es.drop_last()).push(
            message(
                "diff.emoji_error"@,
                seq![
                    ("Path"@, path),
                    ("Line"@, int_seq(emoji_line(l, e.line) as int)),
                    ("Kind"@, message("diff.kind_comment"@, Seq::empty())),
                    ("Char"@, seq![e.char]),
                    ("CharCode"@, crate::text::hex_pad(e.code as nat, 4)),
                ],
            ),
        )
    }
}

/// The messages for one unit of file `path` (`added`: the file's added lines; `full`: every
/// unit is checked): none for a unit off the added lines or a string; otherwise, when the
/// text (allowed words removed) has content, a language error when it is not in the unit's
/// language, and with `no_emoji` one message per emoji.
pub open spec fn unit_messages(cl: CommentLanguageConfig, path: Seq<char>, added: Set<i64>, full: bool, u: UnitView) -> Seq<
    Seq<char>,
> {
    if !full && !overlaps(u, added) {
        Seq::empty()
    } else if u.kind == Kind::String {
        Seq::empty()
    } else {
        let text = strip_allowed_spec(u.text, strs(cl.allowed_words@));
        let min_length = (if cl.min_length > 0 {
            cl.min_length as int
        } else {
            0
        }) as usize;
        let (ok, has_content) = required_language_spec(
            text,
            u.lang,
            min_length as int,
            strs(cl.skip_directives@),
        );
        if !has_content {
            Seq::empty()
        } else {
            let detected = if dominant_spec(text).len() == 0 {
                "unknown"@
            } else {
                dominant_spec(text)
            };
            let lang_err = if !ok {
                seq![
                    message(
                        "diff.comment_language_error"@,
                        seq![
                            ("Path"@, path),
                            ("Line"@, int_seq(u.line as int)),
                            ("Kind"@, message("diff.kind_comment"@, Seq::empty())),
                            ("Language"@, u.lang),
                            ("Detected"@, detected),
                            ("Text"@, truncated(text, 80)),
                        ],
                    ),
                ]
            } else {
                Seq::empty()
            };
            let emoji = if opt_or(cl.no_emoji, false) {
                emoji_messages(path, u.line, emojis_of(text))
            } else {
                Seq::empty()
            };
            lang_err + emoji
        }
    }
}

/// The messages for the units `us[..k]`, in order.
pub open spec fn units_messages(cl: CommentLanguageConfig, path: Seq<char>, added: Set<i64>, full: bool, us: Seq<UnitView>) -> Seq<
    Seq<char>,
>
    decreases us.len(),
{
    if us.len() == 0 {
        Seq::empty()
    } else {
        units_messages(cl, path, added, full, us.drop_last()) + unit_messages(cl, path, added, full, us.last())
    }
}

fn unit_overlaps(u: &CommentUnit, added: &std::collections::HashSet<i64>) -> (r: bool)
    ensures
        r == overlaps(unit_view(*u), added@),
{
    if u.line > u.end_line {
        return false;
    }
    let mut ln = u.line;
    loop
        invariant
            u.line <= ln <= u.end_line,
            forall|l: i64| u.line <= l < ln ==> !#[trigger] added@.contains(l),
        decreases u.end_line - ln,
    {
        if added.contains(&ln) {
            return true;
        }
        if ln == u.end_line {
            return false;
        }
        ln += 1;
    }
}

/// Appends copies of the strings of `w`.
pub fn extend_strings(v: &mut Vec<String>, w: &[String])
    ensures
        strs(final(v)@) == strs(old(v)@) + strs(w@),
{
    let mut i: usize = 0;
    let ghost v0 = strs(v@);
    assert(strs(w@).take(0) =~= Seq::<Seq<char>>::empty());
    assert(v0 + Seq::<Seq<char>>::empty() =~= v0);
    while i < w.len()
        invariant
            i <= w@.len(),
            strs(v@) == v0 + strs(w@).take(i as int),
        decreases w.len() - i,
    {
        let ghost before = strs(v@);
        let x = w[i].clone();
        v.push(x);
        assert(strs(v@) =~= before.push(x@));
        assert(strs(w@).take(i + 1) =~= strs(w@).take(i as int).push(w@[i as int]@));
        i += 1;
    }
    assert(strs(w@).take(w@.len() as int) =~= strs(w@));
}

/// The messages for one unit (see `unit_messages`).
pub fn check_unit(cfg: &Config, path: &str, added: &std::collections::HashSet<i64>, full: bool, u: &CommentUnit) -> (r: Vec<
    String,
>)
    ensures
        strs(r@) == unit_messages(cfg.comment_language, path@, added@, full, unit_view(*u)),
{
    let cl = &cfg.comment_language;
    let mut errs: Vec<String> = Vec::new();
    assert(strs(errs@) =~= Seq::<Seq<char>>::empty());
    if !full && !unit_overlaps(u, added) {
        return errs;
    }
    if u.kind == Kind::String {
        return errs;
    }
    let text = strip_allowed_words(u.text.as_str(), &cl.allowed_words);
    let min_length: usize = if cl.min_length > 0 {
        cl.min_length as usize
    } else {
        0
    };
    let (ok, has_content) = is_required_language(text.as_str(), u.lang.as_str(), min_length, &cl.skip_directives);
    if !has_content {
        return errs;
    }
    let no_args: Vec<(&str, String)> = Vec::new();
    assert(arg_views(no_args@) =~= Seq::<(Seq<char>, Seq<char>)>::empty());
    if !ok {
        let detected = dominant_language(text.as_str());
        let mut args: Vec<(&str, String)> = Vec::new();
        args.push(("Path", crate::text::owned(path)));
        args.push(("Line", int_string(u.line)));
        args.push(("Kind", tr("diff.kind_comment", &no_args)));
        args.push(("Language", u.lang.clone()));
        args.push(("Detected", detected));
        args.push(("Text", truncate(text.as_str(), 80)));
        assert(arg_views(args@) =~= seq![
            ("Path"@, path@),
            ("Line"@, int_seq(u.line as int)),
            ("Kind"@, message("diff.kind_comment"@, Seq::empty())),
            ("Language"@, u.lang@),
            ("Detected"@, detected@),
            ("Text"@, truncated(text@, 80)),
        ]);
        let m = tr("diff.comment_language_error", &args);
        let ghost before = strs(errs@);
        errs.push(m);
        assert(strs(errs@) =~= before.push(m@));
    }
    let ghost after_lang = strs(errs@);
    if cl.is_no_emoji() {
        let es = find_emojis(text.as_str());
        let mut k: usize = 0;
        assert(es@.take(0) =~= Seq::<EmojiInfo>::empty());
        assert(after_lang + Seq::<Seq<char>>::empty() =~= after_lang);
        while k < es.len()
            invariant
                k <= es@.len(),
                es@ == emojis_of(text@),
                strs(errs@) == after_lang + emoji_messages(path@, u.line, es@.take(k as int)),
                arg_views(no_args@) == Seq::<(Seq<char>, Seq<char>)>::empty(),
            decreases es.len() - k,
        {
            let e = es[k];
            let line: i64 = ((u.line as i128) + (e.line as i128) - 1) as i64;
            assert(line == emoji_line(u.line, e.line));
            let mut args: Vec<(&str, String)> = Vec::new();
            args.push(("Path", crate::text::owned(path)));
            args.push(("Line", int_string(line)));
            args.push(("Kind", tr("diff.kind_comment", &no_args)));
            args.push(("Char", char_string(e.char)));
            args.push(("CharCode", hex_string(e.code as u64, 4)));
            assert(arg_views(args@) =~= seq![
                ("Path"@, path@),
                ("Line"@, int_seq(emoji_line(u.line, e.line) as int)),
                ("Kind"@, message("diff.kind_comment"@, Seq::empty())),
                ("Char"@, seq![e.char]),
                ("CharCode"@, crate::text::hex_pad(e.code as nat, 4)),
            ]);
            let m = tr("diff.emoji_error", &args);
            let ghost before = strs(errs@);
            errs.push(m);
            assert(strs(errs@) =~= before.push(m@));
            assert(es@.take(k + 1).drop_last() =~= es@.take(k as int));
            assert(es@.take(k + 1).last() == e);
            assert(after_lang + emoji_messages(path@, u.line, es@.take(k + 1)) =~= before.push(m@));
            k += 1;
        }
        assert(es@.take(es@.len() as int) =~= es@);
    } else {
        assert(after_lang + Seq::<Seq<char>>::empty() =~= after_lang);
    }
    errs
}


// ---------------------------------------------------------------------------
// Files.
// ---------------------------------------------------------------------------

/// The messages for the comments of a file with the given content: the items its parser
/// extracts, their directive states (defaulting to the file's language), their units, and
/// each unit's messages. None for a file without a parser.
pub open spec fn file_messages(cfg: Config, path: Seq<char>, added: Set<i64>, full: bool, content: Seq<char>) -> Seq<Seq<char>> {
    match parser_for(path) {
        None => Seq::empty(),
        Some(k) => {
            let its = kind_items(k, content);
            let ss = item_states(its, file_lang_spec(path, cfg.comment_language));
            let us = units_spec(its, ss, opt_or(cfg.comment_language.check_strings, false));
            units_messages(cfg.comment_language, path, added, full, us)
        },
    }
}

/// The messages for one changed file with the given content (see `file_messages`).
pub fn check_file_comments(
    cfg: &Config,
    path: &str,
    added: &std::collections::HashSet<i64>,
    full: bool,
    content: &str,
) -> (r: Vec<String>)
    ensures
        strs(r@) == file_messages(*cfg, path@, added@, full, content@),
{
    let mut errs: Vec<String> = Vec::new();
    assert(strs(errs@) =~= Seq::<Seq<char>>::empty());
    let parser = match get_parser(path) {
        Some(p) => p,
        None => {
            return errs;
        },
    };
    let comments = match parser.parse_file(content) {
        Ok(c) => c,
        Err(_) => Vec::new(),
    };
    let file_lang = resolve_file_lang(path, cfg);
    let states = analyze(&comments, file_lang.as_str());
    proof {
        lemma_analyze_items(comments@, file_lang@);
    }
    let units = build_comment_units(&comments, &states, cfg.comment_language.is_check_strings());
    let ghost us = units_view(units@);
    let mut i: usize = 0;
    while i < units.len()
        invariant
            i <= units@.len(),
            us == units_view(units@),
            strs(errs@) == units_messages(cfg.comment_language, path@, added@, full, us.take(i as int)),
        decreases units.len() - i,
    {
        let m = check_unit(cfg, path, added, full, &units[i]);
        extend_strings(&mut errs, &m);
        assert(us.take(i + 1).drop_last() =~= us.take(i as int));
        assert(us.take(i + 1).last() == unit_view(units@[i as int]));
        i += 1;
    }
    assert(us.take(units@.len() as int) =~= us);
    errs
}

/// The extensions whose files are checked: those of the configured languages, else the
/// configured extensions.
pub open spec fn check_exts(cl: CommentLanguageConfig) -> Seq<Seq<char>> {
    if cl.languages@.len() > 0 {
        dedup_first(all_lang_exts(strs(cl.languages@)))
    } else {
        strs(cl.extensions@)
    }
}

/// The ignore patterns of the check: the global ones, the check's exceptions and its own.
pub open spec fn check_ignores(cfg: Config) -> Seq<Seq<char>> {
    strs(cfg.exceptions.global_ignore@) + strs(cfg.exceptions.comment_language_ignore@) + strs(
        cfg.comment_language.ignore_files@,
    )
}

/// Whether a changed file is checked: it still exists as a regular file, has added lines
/// (unless every file is checked), has a checked extension, matches no ignore pattern and
/// has a parser.
pub open spec fn selected(cfg: Config, d: DiffView) -> bool {
    &&& !(d.is_deleted || d.is_submodule || d.is_symlink)
    &&& (cfg.comment_language.check_mode@ == "full"@ || !d.added.is_empty())
    &&& has_extension_spec(d.path, check_exts(cfg.comment_language))
    &&& !matches_any_spec(d.path, check_ignores(cfg))
    &&& parser_for(d.path) is Some
}

pub fn check_extensions(cfg: &Config) -> (r: Vec<String>)
    ensures
        strs(r@) == check_exts(cfg.comment_language),
{
    if cfg.comment_language.languages.len() > 0 {
        extensions_for_languages(&cfg.comment_language.languages)
    } else {
        let mut v: Vec<String> = Vec::new();
        extend_strings(&mut v, &cfg.comment_language.extensions);
        assert(strs(v@) =~= strs(cfg.comment_language.extensions@));
        v
    }
}

pub fn check_ignore_patterns(cfg: &Config) -> (r: Vec<String>)
    ensures
        strs(r@) == check_ignores(*cfg),
{
    let mut v: Vec<String> = Vec::new();
    extend_strings(&mut v, &cfg.exceptions.global_ignore);
    extend_strings(&mut v, &cfg.exceptions.comment_language_ignore);
    extend_strings(&mut v, &cfg.comment_language.ignore_files);
    assert(strs(v@) =~= check_ignores(*cfg));
    v
}

fn is_selected(cfg: &Config, d: &FileDiff, exts: &Vec<String>, ignore: &Vec<String>) -> (r: bool)
    requires
        strs(exts@) == check_exts(cfg.comment_language),
        strs(ignore@) == check_ignores(*cfg),
    ensures
        r == selected(*cfg, diff_view(*d)),
{
    if d.is_deleted || d.is_submodule || d.is_symlink {
        return false;
    }
    if !cfg.comment_language.is_full_mode() && d.added_lines.is_empty() {
        return false;
    }
    if !has_extension(d.path.as_str(), exts) {
        return false;
    }
    if matches_any(d.path.as_str(), ignore) {
        return false;
    }
    get_parser(d.path.as_str()).is_some()
}

/// Whether the comment check needs the content of this changed file (see `selected`).
pub fn needs_staged_content(cfg: &Config, d: &FileDiff) -> (r: bool)
    ensures
        r == (opt_or(cfg.comment_language.enabled, true) && selected(*cfg, diff_view(*d))),
{
    if !cfg.comment_language.is_enabled() {
        return false;
    }
    let exts = check_extensions(cfg);
    let ignore = check_ignore_patterns(cfg);
    is_selected(cfg, d, &exts, &ignore)
}

/// The messages for the changed files `ds[..]` with their contents (`None`: not available).
pub open spec fn diff_messages(cfg: Config, ds: Seq<DiffView>, cs: Seq<Option<Seq<char>>>) -> Seq<Seq<char>>
    decreases ds.len(),
{
    if ds.len() == 0 {
        Seq::empty()
    } else {
        let k = ds.len() - 1;
        let d = ds[k];
        diff_messages(cfg, ds.drop_last(), cs) + if selected(cfg, d) {
            match cs[k] {
                Some(c) => file_messages(cfg, d.path, d.added, cfg.comment_language.check_mode@ == "full"@, c),
                None => Seq::empty(),
            }
        } else {
            Seq::empty()
        }
    }
}

pub open spec fn contents_view(v: Seq<Option<String>>) -> Seq<Option<Seq<char>>> {
    v.map_values(
        |c: Option<String>|
            match c {
                Some(s) => Some(s@),
                None => None,
            },
    )
}

/// The comment language messages for the changed files; `contents[i]` is the new content of
/// `diffs[i]` where it was read (it matters only for the selected files, see
/// `needs_staged_content`). None when the check is off; `Err("interrupted")` when cancelled.
pub fn check_diff(cfg: &Config, diffs: &[FileDiff], contents: &[Option<String>], cancel: &AtomicBool) -> (r: Result<
    Vec<String>,
    String,
>)
    requires
        contents@.len() == diffs@.len(),
    ensures
        !opt_or(cfg.comment_language.enabled, true) ==> r is Ok,
        diffs@.len() == 0 ==> r is Ok,
        match r {
            Ok(v) => strs(v@) == (if opt_or(cfg.comment_language.enabled, true) {
                diff_messages(*cfg, diffs_view(diffs@), contents_view(contents@))
            } else {
                Seq::empty()
            }),
            Err(e) => e@ == "interrupted"@,
        },
{
    let mut errs: Vec<String> = Vec::new();
    assert(strs(errs@) =~= Seq::<Seq<char>>::empty());
    if !cfg.comment_language.is_enabled() {
        return Ok(errs);
    }
    let exts = check_extensions(cfg);
    let ignore = check_ignore_patterns(cfg);
    let ghost dv = diffs_view(diffs@);
    let ghost cv = contents_view(contents@);
    let mut i: usize = 0;
    while i < diffs.len()
        invariant
            i <= diffs@.len(),
            contents@.len() == diffs@.len(),
            dv == diffs_view(diffs@),
            cv == contents_view(contents@),
            strs(exts@) == check_exts(cfg.comment_language),
            strs(ignore@) == check_ignores(*cfg),
            opt_or(cfg.comment_language.enabled, true),
            strs(errs@) == diff_messages(*cfg, dv.take(i as int), cv),
        decreases diffs.len() - i,
    {
        match check_cancelled(cancel) {
            Err(e) => {
                return Err(e);
            },
            Ok(()) => {},
        }
        let d = &diffs[i];
        proof {
            assert(dv.take(i + 1).drop_last() =~= dv.take(i as int));
            assert(dv.take(i + 1)[i as int] == diff_view(*d));
        }
        let ghost before = strs(errs@);
        if is_selected(cfg, d, &exts, &ignore) {
            match &contents[i] {
                Some(c) => {
                    let m = check_file_comments(
                        cfg,
                        d.path.as_str(),
                        &d.added_lines,
                        cfg.comment_language.is_full_mode(),
                        c.as_str(),
                    );
                    extend_strings(&mut errs, &m);
                },
                None => {
                    assert(before + Seq::<Seq<char>>::empty() =~= before);
                },
            }
        } else {
            assert(before + Seq::<Seq<char>>::empty() =~= before);
        }
        i += 1;
    }
    assert(dv.take(diffs@.len() as int) =~= dv);
    Ok(errs)
}

} // verus!
