//! Conventional Commits subject format: `type[(scope)][!]: description`.

use vstd::prelude::*;
use crate::config::accessors::{allowed_types_spec, opt_or, strs};
use crate::config::types::ConventionalCommitConfig;
use crate::messages::{arg_views, message, tr};
use crate::text::{
    chars_of, eq_ascii_ci, has_prefix, is_whitespace, is_ws, join_seq, owned, starts_with_str,
    string_of, trim, trim_seq,
};
use super::util::{lines_trimmed, trimmed_lines, truncate, truncated};

verus! {

/// End of the type: the first white-space, `(`, `:` or `!` at or after `i`.
pub open spec fn type_end(s: Seq<char>, i: int) -> int
    decreases s.len() - i,
{
    if i < 0 || i >= s.len() {
        s.len() as int
    } else if is_ws(s[i]) || s[i] == '(' || s[i] == ':' || s[i] == '!' {
        i
    } else {
        type_end(s, i + 1)
    }
}

/// Index of the first `)` at or after `i`.
pub open spec fn close_paren(s: Seq<char>, i: int) -> Option<int>
    decreases s.len() - i,
{
    if i < 0 || i >= s.len() {
        None
    } else if s[i] == ')' {
        Some(i)
    } else {
        close_paren(s, i + 1)
    }
}

/// After the type and an optional scope, an optional `!`, then `: ` and at least one
/// character that is not a line feed.
pub open spec fn tail_ok(s: Seq<char>, p1: int) -> bool {
    let p2 = if 0 <= p1 < s.len() && s[p1] == '!' {
        p1 + 1
    } else {
        p1
    };
    0 <= p2 && p2 + 2 < s.len() && s[p2] == ':' && s[p2 + 1] == ' ' && s[p2 + 2] != '\n'
}

/// The type and the scope (with its parentheses, or empty) of a subject in Conventional
/// Commits form; `None` when the subject is not in that form. The type is a non-empty run
/// of characters other than white space, `(`, `:` and `!`.
pub open spec fn conventional_parse(s: Seq<char>) -> Option<(Seq<char>, Seq<char>)> {
    let t = type_end(s, 0);
    if t <= 0 {
        None
    } else if t < s.len() && s[t] == '(' {
        match close_paren(s, t + 1) {
            Some(c) => if tail_ok(s, c + 1) {
                Some((s.take(t), s.subrange(t, c + 1)))
            } else {
                None
            },
            None => None,
        }
    } else if tail_ok(s, t) {
        Some((s.take(t), Seq::empty()))
    } else {
        None
    }
}

proof fn lemma_type_end(s: Seq<char>, i: int)
    requires
        0 <= i <= s.len(),
    ensures
        i <= type_end(s, i) <= s.len(),
    decreases s.len() - i,
{
    if i < s.len() && !(is_ws(s[i]) || s[i] == '(' || s[i] == ':' || s[i] == '!') {
        lemma_type_end(s, i + 1);
    }
}

proof fn lemma_close_paren(s: Seq<char>, i: int)
    requires
        0 <= i,
    ensures
        close_paren(s, i) matches Some(c) ==> i <= c < s.len(),
    decreases s.len() - i,
{
    if i < s.len() && s[i] != ')' {
        lemma_close_paren(s, i + 1);
    }
}

fn tail_ok_exec(s: &[char], p1: usize) -> (r: bool)
    requires
        p1 <= s@.len(),
    ensures
        r == tail_ok(s@, p1 as int),
{
    let n = s.len();
    let p2 = if p1 < n && s[p1] == '!' {
        p1 + 1
    } else {
        p1
    };
    p2 < n && n - p2 > 2 && s[p2] == ':' && s[p2 + 1] == ' ' && s[p2 + 2] != '\n'
}

/// Parses a subject in Conventional Commits form into its type and scope.
pub fn parse_conventional(s: &[char]) -> (r: Option<(Vec<char>, Vec<char>)>)
    ensures
        r matches Some((t, sc)) ==> conventional_parse(s@) == Some((t@, sc@)),
        r is None ==> conventional_parse(s@) is None,
{
    let n = s.len();
    let mut t: usize = 0;
    while t < n && !(is_whitespace(s[t]) || s[t] == '(' || s[t] == ':' || s[t] == '!')
        invariant
            t <= n,
            n == s@.len(),
            type_end(s@, t as int) == type_end(s@, 0),
        decreases n - t,
    {
        t += 1;
    }
    if t == 0 {
        return None;
    }
    if t < n && s[t] == '(' {
        let mut c = t + 1;
        while c < n && s[c] != ')'
            invariant
                t < c <= n,
                n == s@.len(),
                close_paren(s@, c as int) == close_paren(s@, t + 1),
            decreases n - c,
        {
            c += 1;
        }
        if c >= n {
            return None;
        }
        if tail_ok_exec(s, c + 1) {
            return Some((crate::text::slice_chars(s, 0, t), crate::text::slice_chars(s, t, c + 1)));
        }
        return None;
    }
    if tail_ok_exec(s, t) {
        Some((crate::text::slice_chars(s, 0, t), Vec::new()))
    } else {
        None
    }
}

/// The subject: the first line (after trailing line feeds are removed), trimmed.
pub open spec fn subject_of(content: Seq<char>) -> Seq<char> {
    trim_seq(trimmed_lines(content)[0])
}

/// The Conventional Commits errors of a commit message: none for an empty subject, an
/// allowed merge or revert subject, or a `fixup!`/`squash!` subject; else a format error, an
/// unknown type (compared up to ASCII case with the allowed types), or a missing scope when
/// one is required.
pub open spec fn conventional_errors(content: Seq<char>, cfg: ConventionalCommitConfig) -> Seq<
    Seq<char>,
> {
    let subject = subject_of(content);
    if subject.len() == 0 {
        Seq::empty()
    } else if opt_or(cfg.allow_merge_commits, true) && has_prefix(subject, "Merge "@) {
        Seq::empty()
    } else if opt_or(cfg.allow_revert_commits, true) && has_prefix(subject, "Revert "@) {
        Seq::empty()
    } else if has_prefix(subject, "fixup! "@) || has_prefix(subject, "squash! "@) {
        Seq::empty()
    } else {
        match conventional_parse(subject) {
            None => seq![
                message(
                    "msg.conventional_format_error"@,
                    seq![("Subject"@, truncated(subject, 80))],
                ),
            ],
            Some((ty, scope)) => {
                let all = allowed_types_spec(cfg);
                if !(exists|i: int| 0 <= i < all.len() && eq_ascii_ci(#[trigger] all[i], ty)) {
                    seq![
                        message(
                            "msg.conventional_type_error"@,
                            seq![("Type"@, ty), ("Types"@, join_seq(all, ", "@))],
                        ),
                    ]
                } else if opt_or(cfg.require_scope, false) && (scope.len() == 0 || scope == "()"@) {
                    seq![
                        message(
                            "msg.conventional_scope_required"@,
                            seq![("Subject"@, truncated(subject, 80))],
                        ),
                    ]
                } else {
                    Seq::empty()
                }
            },
        }
    }
}

fn one(m: String) -> (r: Vec<String>)
    ensures
        strs(r@) == seq![m@],
{
    let mut v: Vec<String> = Vec::new();
    v.push(m);
    assert(strs(v@) =~= seq![m@]);
    v
}

fn join_strings(v: &Vec<String>, sep: &str) -> (r: String)
    ensures
        r@ == join_seq(strs(v@), sep@),
{
    let mut parts: Vec<Vec<char>> = Vec::new();
    let mut i: usize = 0;
    while i < v.len()
        invariant
            i <= v@.len(),
            parts@.map_values(|p: Vec<char>| p@) == strs(v@).take(i as int),
        decreases v.len() - i,
    {
        let c = chars_of(v[i].as_str());
        proof {
            assert(parts@.push(c).map_values(|p: Vec<char>| p@) =~= parts@.map_values(
                |p: Vec<char>| p@,
            ).push(c@));
            assert(strs(v@).take(i + 1) =~= strs(v@).take(i as int).push(v@[i as int]@));
        }
        parts.push(c);
        i += 1;
    }
    assert(strs(v@).take(v@.len() as int) =~= strs(v@));
    let sc = chars_of(sep);
    string_of(&crate::text::join(&parts, &sc))
}

/// Checks that the subject follows Conventional Commits (see `conventional_errors`).
pub fn check_conventional(content: &str, cfg: &ConventionalCommitConfig) -> (r: Vec<String>)
    ensures
        strs(r@) == conventional_errors(content@, *cfg),
{
    let cc = chars_of(content);
    let lines = lines_trimmed(&cc);
    let subject = trim(&lines[0]);
    assert(subject@ == subject_of(content@));
    if subject.len() == 0 {
        return Vec::new();
    }
    if cfg.is_allow_merge_commits() && starts_with_str(&subject, "Merge ") {
        return Vec::new();
    }
    if cfg.is_allow_revert_commits() && starts_with_str(&subject, "Revert ") {
        return Vec::new();
    }
    if starts_with_str(&subject, "fixup! ") || starts_with_str(&subject, "squash! ") {
        return Vec::new();
    }
    let subj = string_of(&subject);
    match parse_conventional(&subject) {
        None => {
            let mut args: Vec<(&str, String)> = Vec::new();
            args.push(("Subject", truncate(subj.as_str(), 80)));
            let m = tr("msg.conventional_format_error", &args);
            assert(arg_views(args@) =~= seq![("Subject"@, truncated(subject@, 80))]);
            one(m)
        },
        Some((ty, scope)) => {
            let all = cfg.get_all_allowed_types();
            let mut i: usize = 0;
            let mut allowed = false;
            while i < all.len()
                invariant
                    i <= all@.len(),
                    strs(all@) == allowed_types_spec(*cfg),
                    !allowed ==> forall|j: int| 0 <= j < i ==> !eq_ascii_ci(#[trigger] strs(all@)[j], ty@),
                    allowed ==> exists|j: int| 0 <= j < all@.len() && eq_ascii_ci(#[trigger] strs(all@)[j], ty@),
                decreases all.len() - i,
            {
                if !allowed {
                    let tc = chars_of(all[i].as_str());
                    if crate::text::eq_ignore_ascii_case(&tc, &ty) {
                        assert(eq_ascii_ci(strs(all@)[i as int], ty@));
                        allowed = true;
                    }
                }
                i += 1;
            }
            if !allowed {
                let mut args: Vec<(&str, String)> = Vec::new();
                args.push(("Type", string_of(&ty)));
                args.push(("Types", join_strings(&all, ", ")));
                let m = tr("msg.conventional_type_error", &args);
                assert(arg_views(args@) =~= seq![
                    ("Type"@, ty@),
                    ("Types"@, join_seq(allowed_types_spec(*cfg), ", "@)),
                ]);
                return one(m);
            }
            if cfg.is_require_scope() && (scope.len() == 0 || crate::text::chars_eq_str(&scope, "()")) {
                let mut args: Vec<(&str, String)> = Vec::new();
                args.push(("Subject", truncate(subj.as_str(), 80)));
                let m = tr("msg.conventional_scope_required", &args);
                assert(arg_views(args@) =~= seq![("Subject"@, truncated(subject@, 80))]);
                return one(m);
            }
            Vec::new()
        },
    }
}

} // verus!
