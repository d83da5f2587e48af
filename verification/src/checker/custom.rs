//! Regular-expression rules configured by the user.

use vstd::prelude::*;
use crate::config::accessors::strs;
use crate::config::types::CustomRule;
use crate::messages::{arg_views, message, tr};
use crate::text::{chars_of, extend_chars, split_seq, string_of};
use super::util::dec_string;
use super::cancel::check_cancelled;
use super::diff_check::contents_view;
use crate::config::types::Config;
use crate::gitdiff::{diff_view, diffs_view, DiffView, FileDiff};
use crate::pathutil::{matches_any, matches_any_spec};
use std::sync::atomic::AtomicBool;

verus! {

#[verifier::external_type_specification]
#[verifier::external_body]
pub struct ExRegex(regex::Regex);

/// Whether the `regex` crate accepts the pattern.
pub uninterp spec fn regex_compiles(pattern: Seq<char>) -> bool;

/// Whether the pattern matches somewhere in the text (`regex::Regex::is_match`).
pub uninterp spec fn regex_is_match(pattern: Seq<char>, text: Seq<char>) -> bool;

/// A compiled regular expression together with its source pattern.
pub struct CompiledPattern {
    re: regex::Regex,
    source: String,
}

impl CompiledPattern {
    /// The pattern the expression was compiled from.
    pub closed spec fn source(&self) -> Seq<char> {
        self.source@
    }
}

/// `regex::Regex::new`: compiles the pattern; `None` when the crate rejects it (which is a
/// fixed function of the pattern, named `regex_compiles`).
#[verifier::external_body]
pub fn compile_pattern(pattern: &str) -> (r: Option<CompiledPattern>)
    ensures
        r is Some <==> regex_compiles(pattern@),
        r matches Some(c) ==> c.source() == pattern@,
{
    match regex::Regex::new(pattern) {
        Ok(re) => Some(CompiledPattern { re, source: pattern.to_string() }),
        Err(_) => None,
    }
}

/// `regex::Regex::is_match`: whether the compiled pattern matches somewhere in `text`
/// (named `regex_is_match` of the source pattern and the text).
#[verifier::external_body]
pub fn pattern_matches(c: &CompiledPattern, text: &str) -> (r: bool)
    ensures
        r == regex_is_match(c.source(), text@),
{
    c.re.is_match(text)
}

/// The message of a rule: its own, or `pattern: <pattern>` when it has none.
pub open spec fn rule_message(r: CustomRule) -> Seq<char> {
    if r.message@.len() == 0 {
        "pattern: "@ + r.pattern@
    } else {
        r.message@
    }
}

fn rule_message_exec(r: &CustomRule) -> (m: String)
    ensures
        m@ == rule_message(*r),
{
    if crate::text::is_empty_str(r.message.as_str()) {
        let mut v = chars_of("pattern: ");
        extend_chars(&mut v, &chars_of(r.pattern.as_str()));
        string_of(&v)
    } else {
        r.message.clone()
    }
}

/// The errors of a forbidden rule on lines `ls` (numbered from 1).
pub open spec fn forbidden_line_errors(ls: Seq<Seq<char>>, r: CustomRule) -> Seq<Seq<char>>
    decreases ls.len(),
{
    if ls.len() == 0 {
        Seq::empty()
    } else {
        forbidden_line_errors(ls.drop_last(), r) + if regex_is_match(r.pattern@, ls.last()) {
            seq![
                message(
                    "msg.custom_rule_forbidden"@,
                    seq![
                        ("Line"@, crate::text::dec_seq(ls.len())),
                        ("Name"@, r.name@),
                        ("Message"@, rule_message(r)),
                    ],
                ),
            ]
        } else {
            Seq::empty()
        }
    }
}

/// The errors of one rule on a commit message: nothing for an empty or invalid pattern; for a
/// required rule, one error when the pattern matches nowhere in the message; for a forbidden
/// rule, one error for each line it matches.
pub open spec fn rule_errors(text: Seq<char>, r: CustomRule) -> Seq<Seq<char>> {
    if r.pattern@.len() == 0 || !regex_compiles(r.pattern@) {
        Seq::empty()
    } else if r.required {
        if !regex_is_match(r.pattern@, text) {
            seq![
                message(
                    "msg.custom_rule_required"@,
                    seq![("Name"@, r.name@), ("Message"@, rule_message(r))],
                ),
            ]
        } else {
            Seq::empty()
        }
    } else {
        forbidden_line_errors(split_seq(text, '\n'), r)
    }
}

/// The errors of all rules, rule by rule.
pub open spec fn custom_errors(text: Seq<char>, rules: Seq<CustomRule>) -> Seq<Seq<char>>
    decreases rules.len(),
{
    if rules.len() == 0 {
        Seq::empty()
    } else {
        custom_errors(text, rules.drop_last()) + rule_errors(text, rules.last())
    }
}

fn push_msg(errs: &mut Vec<String>, m: String)
    ensures
        strs(final(errs)@) == strs(old(errs)@).push(m@),
{
    proof {
        assert(strs(errs@.push(m)) =~= strs(errs@).push(m@));
    }
    errs.push(m);
}

/// Applies the custom rules to a commit message (see `custom_errors`).
pub fn check_msg_custom_rules(content: &str, rules: &Vec<CustomRule>) -> (r: Vec<String>)
    ensures
        strs(r@) == custom_errors(content@, rules@),
{
    let mut errs: Vec<String> = Vec::new();
    assert(strs(errs@) =~= Seq::<Seq<char>>::empty());
    let cc = chars_of(content);
    let lines = crate::text::split(&cc, '\n');
    let ghost lv = lines@.map_values(|v: Vec<char>| v@);
    let mut k: usize = 0;
    while k < rules.len()
        invariant
            k <= rules@.len(),
            lv == lines@.map_values(|v: Vec<char>| v@),
            lv == split_seq(content@, '\n'),
            strs(errs@) == custom_errors(content@, rules@.take(k as int)),
        decreases rules.len() - k,
    {
        let rule = &rules[k];
        assert(rules@.take(k + 1).drop_last() =~= rules@.take(k as int));
        let ghost before = strs(errs@);
        if !crate::text::is_empty_str(rule.pattern.as_str()) {
            match compile_pattern(rule.pattern.as_str()) {
                Some(re) => {
                    let msg = rule_message_exec(rule);
                    if rule.required {
                        if !pattern_matches(&re, content) {
                            let mut args: Vec<(&str, String)> = Vec::new();
                            args.push(("Name", rule.name.clone()));
                            args.push(("Message", msg));
                            let m = tr("msg.custom_rule_required", &args);
                            assert(arg_views(args@) =~= seq![
                                ("Name"@, rule.name@),
                                ("Message"@, rule_message(*rule)),
                            ]);
                            push_msg(&mut errs, m);
                        }
                    } else {
                        let mut i: usize = 0;
                        while i < lines.len()
                            invariant
                                i <= lines@.len(),
                                lv == lines@.map_values(|v: Vec<char>| v@),
                                re.source() == rule.pattern@,
                                msg@ == rule_message(*rule),
                                !rule.required,
                                strs(errs@) == before + forbidden_line_errors(lv.take(i as int), *rule),
                            decreases lines.len() - i,
                        {
                            assert(lv.take(i + 1).drop_last() =~= lv.take(i as int));
                            let ls = string_of(&lines[i]);
                            if pattern_matches(&re, ls.as_str()) {
                                let mut args: Vec<(&str, String)> = Vec::new();
                                args.push(("Line", dec_string((i + 1) as u64)));
                                args.push(("Name", rule.name.clone()));
                                args.push(("Message", msg.clone()));
                                let m = tr("msg.custom_rule_forbidden", &args);
                                assert(arg_views(args@) =~= seq![
                                    ("Line"@, crate::text::dec_seq((i + 1) as nat)),
                                    ("Name"@, rule.name@),
                                    ("Message"@, rule_message(*rule)),
                                ]);
                                let ghost e0 = strs(errs@);
                                push_msg(&mut errs, m);
                                assert(strs(errs@) =~= before + forbidden_line_errors(lv.take(i + 1), *rule));
                            } else {
                                assert(strs(errs@) =~= before + forbidden_line_errors(lv.take(i + 1), *rule));
                            }
                            i += 1;
                        }
                        assert(lv.take(lines@.len() as int) =~= lv);
                    }
                },
                None => {},
            }
        }
        assert(strs(errs@) =~= before + rule_errors(content@, *rule));
        k += 1;
    }
    assert(rules@.take(rules@.len() as int) =~= rules@);
    errs
}

/// The rules applied to a diff: the forbidden ones whose pattern is non-empty and compiles,
/// in their order.
pub open spec fn diff_rules(rules: Seq<CustomRule>) -> Seq<CustomRule>
    decreases rules.len(),
{
    if rules.len() == 0 {
        Seq::empty()
    } else {
        let r = rules.last();
        let prev = diff_rules(rules.drop_last());
        if r.pattern@.len() > 0 && !r.required && regex_compiles(r.pattern@) {
            prev.push(r)
        } else {
            prev
        }
    }
}

/// The messages of the rules `rs` that match added line `n` (text `line`) of the file `path`.
pub open spec fn line_rule_messages(path: Seq<char>, n: int, line: Seq<char>, rs: Seq<CustomRule>) -> Seq<Seq<char>>
    decreases rs.len(),
{
    if rs.len() == 0 {
        Seq::empty()
    } else {
        let r = rs.last();
        line_rule_messages(path, n, line, rs.drop_last()) + if regex_is_match(r.pattern@, line) {
            seq![
                message(
                    "diff.custom_rule_forbidden"@,
                    seq![
                        ("Path"@, path),
                        ("Line"@, crate::text::dec_seq(n as nat)),
                        ("Name"@, r.name@),
                        ("Message"@, rule_message(r)),
                    ],
                ),
            ]
        } else {
            Seq::empty()
        }
    }
}

/// The messages for lines `1..=n` of a file, in line order, over the lines that were added.
pub open spec fn file_rule_messages(
    path: Seq<char>,
    lines: Seq<Seq<char>>,
    added: Set<i64>,
    rs: Seq<CustomRule>,
    n: int,
) -> Seq<Seq<char>>
    decreases n,
{
    if n <= 0 {
        Seq::empty()
    } else {
        file_rule_messages(path, lines, added, rs, n - 1) + if n <= i64::MAX && added.contains(n as i64) {
            line_rule_messages(path, n, lines[n - 1], rs)
        } else {
            Seq::empty()
        }
    }
}

/// The messages for the changed files `ds[..]` with their new contents: deleted, globally
/// ignored and unchanged files are skipped, as are files whose content could not be read.
pub open spec fn diff_rule_messages(cfg: Config, ds: Seq<DiffView>, cs: Seq<Option<Seq<char>>>, rs: Seq<CustomRule>) -> Seq<
    Seq<char>,
>
    decreases ds.len(),
{
    if ds.len() == 0 {
        Seq::empty()
    } else {
        let k = ds.len() - 1;
        let d = ds[k];
        diff_rule_messages(cfg, ds.drop_last(), cs, rs) + if !d.is_deleted && !matches_any_spec(
            d.path,
            strs(cfg.exceptions.global_ignore@),
        ) && !d.added.is_empty() {
            match cs[k] {
                Some(c) => {
                    let ls = split_seq(c, '\n');
                    file_rule_messages(d.path, ls, d.added, rs, ls.len() as int)
                },
                None => Seq::empty(),
            }
        } else {
            Seq::empty()
        }
    }
}

pub open spec fn picked(rules: Seq<CustomRule>, idx: Seq<usize>) -> Seq<CustomRule> {
    idx.map_values(|j: usize| rules[j as int])
}

fn compile_diff_rules(rules: &Vec<CustomRule>) -> (r: (Vec<usize>, Vec<CompiledPattern>))
    ensures
        picked(rules@, r.0@) == diff_rules(rules@),
        forall|j: int| 0 <= j < r.0@.len() ==> (#[trigger] r.0@[j]) < rules@.len(),
        r.1@.len() == r.0@.len(),
        forall|j: int| 0 <= j < r.1@.len() ==> (#[trigger] r.1@[j]).source() == rules@[r.0@[j] as int].pattern@,
{
    let mut idx: Vec<usize> = Vec::new();
    let mut cs: Vec<CompiledPattern> = Vec::new();
    let mut k: usize = 0;
    assert(picked(rules@, idx@) =~= Seq::<CustomRule>::empty());
    while k < rules.len()
        invariant
            k <= rules@.len(),
            picked(rules@, idx@) == diff_rules(rules@.take(k as int)),
            forall|j: int| 0 <= j < idx@.len() ==> (#[trigger] idx@[j]) < k,
            cs@.len() == idx@.len(),
            forall|j: int| 0 <= j < cs@.len() ==> (#[trigger] cs@[j]).source() == rules@[idx@[j] as int].pattern@,
        decreases rules.len() - k,
    {
        assert(rules@.take(k + 1).drop_last() =~= rules@.take(k as int));
        assert(rules@.take(k + 1).last() == rules@[k as int]);
        let rule = &rules[k];
        if !crate::text::is_empty_str(rule.pattern.as_str()) && !rule.required {
            match compile_pattern(rule.pattern.as_str()) {
                Some(c) => {
                    let ghost p0 = picked(rules@, idx@);
                    idx.push(k);
                    cs.push(c);
                    assert(picked(rules@, idx@) =~= p0.push(rules@[k as int]));
                },
                None => {},
            }
        }
        k += 1;
    }
    assert(rules@.take(rules@.len() as int) =~= rules@);
    (idx, cs)
}

fn line_messages(
    rules: &Vec<CustomRule>,
    idx: &Vec<usize>,
    cs: &Vec<CompiledPattern>,
    path: &str,
    n: usize,
    line: &str,
) -> (r: Vec<String>)
    requires
        forall|j: int| 0 <= j < idx@.len() ==> (#[trigger] idx@[j]) < rules@.len(),
        cs@.len() == idx@.len(),
        forall|j: int| 0 <= j < cs@.len() ==> (#[trigger] cs@[j]).source() == rules@[idx@[j] as int].pattern@,
    ensures
        strs(r@) == line_rule_messages(path@, n as int, line@, picked(rules@, idx@)),
{
    let mut errs: Vec<String> = Vec::new();
    let ghost pk = picked(rules@, idx@);
    assert(strs(errs@) =~= Seq::<Seq<char>>::empty());
    let mut j: usize = 0;
    while j < idx.len()
        invariant
            j <= idx@.len(),
            pk == picked(rules@, idx@),
            forall|t: int| 0 <= t < idx@.len() ==> (#[trigger] idx@[t]) < rules@.len(),
            cs@.len() == idx@.len(),
            forall|t: int| 0 <= t < cs@.len() ==> (#[trigger] cs@[t]).source() == rules@[idx@[t] as int].pattern@,
            strs(errs@) == line_rule_messages(path@, n as int, line@, pk.take(j as int)),
        decreases idx.len() - j,
    {
        assert(pk.take(j + 1).drop_last() =~= pk.take(j as int));
        let rule = &rules[idx[j]];
        assert(pk.take(j + 1).last() == rules@[idx@[j as int] as int]);
        let ghost before = strs(errs@);
        if pattern_matches(&cs[j], line) {
            let mut args: Vec<(&str, String)> = Vec::new();
            args.push(("Path", path.to_string()));
            args.push(("Line", dec_string(n as u64)));
            args.push(("Name", rule.name.clone()));
            args.push(("Message", rule_message_exec(rule)));
            assert(arg_views(args@) =~= seq![
                ("Path"@, path@),
                ("Line"@, crate::text::dec_seq(n as nat)),
                ("Name"@, rule.name@),
                ("Message"@, rule_message(*rule)),
            ]);
            let m = tr("diff.custom_rule_forbidden", &args);
            push_msg(&mut errs, m);
        } else {
            assert(before + Seq::<Seq<char>>::empty() =~= before);
        }
        j += 1;
    }
    assert(pk.take(idx@.len() as int) =~= pk);
    errs
}

fn file_messages(
    rules: &Vec<CustomRule>,
    idx: &Vec<usize>,
    cs: &Vec<CompiledPattern>,
    path: &str,
    added: &std::collections::HashSet<i64>,
    content: &str,
) -> (r: Vec<String>)
    requires
        forall|j: int| 0 <= j < idx@.len() ==> (#[trigger] idx@[j]) < rules@.len(),
        cs@.len() == idx@.len(),
        forall|j: int| 0 <= j < cs@.len() ==> (#[trigger] cs@[j]).source() == rules@[idx@[j] as int].pattern@,
    ensures
        strs(r@) == file_rule_messages(
            path@,
            split_seq(content@, '\n'),
            added@,
            picked(rules@, idx@),
            split_seq(content@, '\n').len() as int,
        ),
{
    broadcast use vstd::std_specs::hash::group_hash_axioms;
    let lines = crate::text::split(&chars_of(content), '\n');
    let ghost lv = lines@.map_values(|v: Vec<char>| v@);
    assert(lv == split_seq(content@, '\n'));
    let ghost pk = picked(rules@, idx@);
    let mut errs: Vec<String> = Vec::new();
    assert(strs(errs@) =~= Seq::<Seq<char>>::empty());
    let mut n: usize = 0;
    while n < lines.len()
        invariant
            n <= lines@.len(),
            lv == lines@.map_values(|v: Vec<char>| v@),
            pk == picked(rules@, idx@),
            forall|t: int| 0 <= t < idx@.len() ==> (#[trigger] idx@[t]) < rules@.len(),
            cs@.len() == idx@.len(),
            forall|t: int| 0 <= t < cs@.len() ==> (#[trigger] cs@[t]).source() == rules@[idx@[t] as int].pattern@,
            strs(errs@) == file_rule_messages(path@, lv, added@, pk, n as int),
        decreases lines.len() - n,
    {
        let ghost before = strs(errs@);
        let ln: usize = n + 1;
        if (ln as u64) <= 0x7fff_ffff_ffff_ffffu64 && added.contains(&(ln as i64)) {
            let line = string_of(&lines[n]);
            let m = line_messages(rules, idx, cs, path, ln, line.as_str());
            super::diff_check::extend_strings(&mut errs, &m);
        } else {
            assert(before + Seq::<Seq<char>>::empty() =~= before);
        }
        n += 1;
    }
    errs
}

/// Applies the forbidden diff rules (see `diff_rules`) to the added lines of the changed
/// files, in file order and then line order (see `diff_rule_messages`); `contents[i]` is the
/// new content of `diffs[i]` where it was read. `Err("interrupted")` when cancelled.
pub fn check_diff_custom_rules(
    cfg: &Config,
    diffs: &[FileDiff],
    contents: &[Option<String>],
    cancel: &AtomicBool,
) -> (r: Result<Vec<String>, String>)
    requires
        contents@.len() == diffs@.len(),
    ensures
        diff_rules(cfg.custom_rules.diff@).len() == 0 ==> r is Ok,
        diffs@.len() == 0 ==> r is Ok,
        match r {
            Ok(v) => strs(v@) == diff_rule_messages(
                *cfg,
                diffs_view(diffs@),
                contents_view(contents@),
                diff_rules(cfg.custom_rules.diff@),
            ),
            Err(e) => e@ == "interrupted"@ && diff_rules(cfg.custom_rules.diff@).len() > 0,
        },
{
    broadcast use vstd::std_specs::hash::group_hash_axioms;
    let ghost dv = diffs_view(diffs@);
    let ghost cv = contents_view(contents@);
    let rules = &cfg.custom_rules.diff;
    let (idx, cs) = compile_diff_rules(rules);
    let ghost rs = diff_rules(rules@);
    let mut errs: Vec<String> = Vec::new();
    assert(strs(errs@) =~= Seq::<Seq<char>>::empty());
    if idx.len() == 0 {
        assert forall|k: int| 0 <= k <= dv.len() implies #[trigger] diff_rule_messages(*cfg, dv.take(k), cv, rs)
            == Seq::<Seq<char>>::empty() by {
            lemma_no_rules(*cfg, dv.take(k), cv, rs);
        }
        assert(dv.take(dv.len() as int) =~= dv);
        return Ok(errs);
    }
    let mut i: usize = 0;
    while i < diffs.len()
        invariant
            i <= diffs@.len(),
            contents@.len() == diffs@.len(),
            dv == diffs_view(diffs@),
            cv == contents_view(contents@),
            rules == &cfg.custom_rules.diff,
            rs == diff_rules(rules@),
            rs == picked(rules@, idx@),
            rs.len() > 0,
            forall|t: int| 0 <= t < idx@.len() ==> (#[trigger] idx@[t]) < rules@.len(),
            cs@.len() == idx@.len(),
            forall|t: int| 0 <= t < cs@.len() ==> (#[trigger] cs@[t]).source() == rules@[idx@[t] as int].pattern@,
            strs(errs@) == diff_rule_messages(*cfg, dv.take(i as int), cv, rs),
        decreases diffs.len() - i,
    {
        match check_cancelled(cancel) {
            Err(e) => {
                return Err(e);
            },
            Ok(()) => {},
        }
        let d = &diffs[i];
        proof {
            assert(dv.take(i + 1).drop_last() =~= dv.take(i as int));
            assert(dv.take(i + 1)[i as int] == diff_view(*d));
        }
        let ghost before = strs(errs@);
        if !d.is_deleted && !matches_any(d.path.as_str(), &cfg.exceptions.global_ignore) && !d.added_lines.is_empty() {
            match &contents[i] {
                Some(c) => {
                    let m = file_messages(rules, &idx, &cs, d.path.as_str(), &d.added_lines, c.as_str());
                    super::diff_check::extend_strings(&mut errs, &m);
                },
                None => {
                    assert(before + Seq::<Seq<char>>::empty() =~= before);
                },
            }
        } else {
            assert(before + Seq::<Seq<char>>::empty() =~= before);
        }
        i += 1;
    }
    assert(dv.take(diffs@.len() as int) =~= dv);
    Ok(errs)
}

proof fn lemma_no_rules_file(path: Seq<char>, lines: Seq<Seq<char>>, added: Set<i64>, n: int)
    ensures
        file_rule_messages(path, lines, added, Seq::empty(), n) == Seq::<Seq<char>>::empty(),
    decreases n,
{
    if n > 0 {
        lemma_no_rules_file(path, lines, added, n - 1);
        if n <= i64::MAX && added.contains(n as i64) {
            assert(line_rule_messages(path, n, lines[n - 1], Seq::empty()) == Seq::<Seq<char>>::empty());
        }
        assert(Seq::<Seq<char>>::empty() + Seq::<Seq<char>>::empty() =~= Seq::<Seq<char>>::empty());
    }
}

proof fn lemma_no_rules(cfg: Config, ds: Seq<DiffView>, cs: Seq<Option<Seq<char>>>, rs: Seq<CustomRule>)
    requires
        rs.len() == 0,
    ensures
        diff_rule_messages(cfg, ds, cs, rs) == Seq::<Seq<char>>::empty(),
    decreases ds.len(),
{
    assert(rs =~= Seq::<CustomRule>::empty());
    if ds.len() > 0 {
        lemma_no_rules(cfg, ds.drop_last(), cs, rs);
        let k = ds.len() - 1;
        match cs[k] {
            Some(c) => {
                let ls = split_seq(c, '\n');
                lemma_no_rules_file(ds[k].path, ls, ds[k].added, ls.len() as int);
            },
            None => {},
        }
        assert(Seq::<Seq<char>>::empty() + Seq::<Seq<char>>::empty() =~= Seq::<Seq<char>>::empty());
    }
}

} // verus!
