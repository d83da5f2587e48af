//! Diff targets, and the parsing of `git diff` output (unified format).

use vstd::prelude::*;
use std::collections::HashSet;
use crate::text::{
    chars_eq_str, chars_of, digit_char, find, find_seq, has_prefix, lowercase, owned, split_seq, starts_with_str,
    str_eq, string_of, trim, trim_end_set, trim_seq, utf8_lossy, split_go, join_seq, end_not_in,
};
use crate::comment::gounq::{digits_value, parse_radix, push_utf8, radix_value, utf8_of};
use crate::pathutil::{file_name, file_name_spec};

verus! {

broadcast use vstd::std_specs::hash::group_hash_axioms;

/// The reference that stands for the working tree.
pub const REF_WORKTREE: &'static str = "worktree";

/// What a diff compares: `from` and `to` references (both empty: the index against `HEAD`).
#[derive(Debug, Clone, Default, PartialEq, Eq)]
pub struct Spec {
    pub from: String,
    pub to: String,
}

/// Whether a reference names the working tree.
pub open spec fn worktree_ref(to: Seq<char>) -> bool {
    to == "worktree"@ || to == "working-tree"@ || to == "wt"@
}

impl Spec {
    /// The default comparison: staged changes against `HEAD`.
    pub fn is_default(&self) -> (r: bool)
        ensures
            r == (self.from@.len() == 0 && self.to@.len() == 0),
    {
        crate::text::is_empty_str(self.from.as_str()) && crate::text::is_empty_str(self.to.as_str())
    }

    /// Whether the comparison's target is the working tree.
    pub fn is_worktree(&self) -> (r: bool)
        ensures
            r == worktree_ref(self.to@),
    {
        str_eq(self.to.as_str(), REF_WORKTREE) || str_eq(self.to.as_str(), "working-tree") || str_eq(
            self.to.as_str(),
            "wt",
        )
    }
}

/// How a text splits as a range: `A...B` gives `(A, B, true)`, otherwise `A..B` gives
/// `(A, B, false)` (each at the first occurrence).
pub open spec fn range_split(s: Seq<char>) -> Option<(Seq<char>, Seq<char>, bool)> {
    match find_seq(s, "..."@) {
        Some(i) => Some((s.take(i), s.skip(i + 3), true)),
        None => match find_seq(s, ".."@) {
            Some(i) => Some((s.take(i), s.skip(i + 2), false)),
            None => None,
        },
    }
}

/// The range of `s` given the merge base of a three-dot range's two sides (what
/// `git merge-base` printed, trimmed; `None` when it failed): the merge base when it is not
/// empty, else the left side.
pub open spec fn range_spec(s: Seq<char>, merge_base: Option<Seq<char>>) -> Option<(Seq<char>, Seq<char>)> {
    match range_split(s) {
        None => None,
        Some((l, r, three)) => if three {
            match merge_base {
                Some(m) => if m.len() > 0 {
                    Some((m, r))
                } else {
                    Some((l, r))
                },
                None => Some((l, r)),
            }
        } else {
            Some((l, r))
        },
    }
}

proof fn lemma_range_bounds(s: Seq<char>)
    ensures
        find_seq(s, "..."@) matches Some(i) ==> 0 <= i && i + 3 <= s.len(),
        find_seq(s, ".."@) matches Some(i) ==> 0 <= i && i + 2 <= s.len(),
{
    reveal_strlit("...");
    reveal_strlit("..");
    crate::text::lemma_find_seq(s, "..."@);
    crate::text::lemma_find_seq(s, ".."@);
}

fn chars_of_dots2() -> (r: Vec<char>)
    ensures
        r@ == ".."@,
{
    chars_of("..")
}

/// The two sides of a three-dot range (`A...B`), whose merge base `parse_range` needs.
pub fn three_dot_sides(s: &str) -> (r: Option<(String, String)>)
    ensures
        match range_split(s@) {
            Some((l, rt, true)) => r matches Some((a, b)) && a@ == l && b@ == rt,
            _ => r is None,
        },
{
    let cs = chars_of(s);
    let n = cs.len();
    proof {
        lemma_range_bounds(s@);
    }
    let dots3 = chars_of("...");
    match find(&cs, &dots3) {
        Some(i) => Some(
            (
                string_of(&crate::text::slice_chars(&cs, 0, i)),
                string_of(&crate::text::slice_chars(&cs, i + 3, n)),
            ),
        ),
        None => None,
    }
}

/// Splits `A..B` or `A...B` into its two references; `None` when `s` is not a range. For a
/// three-dot range the first is the merge base (see `range_spec`).
pub fn parse_range(s: &str, merge_base: Option<String>) -> (r: Option<(String, String)>)
    ensures
        match range_spec(
            s@,
            match merge_base {
                Some(m) => Some(m@),
                None => None,
            },
        ) {
            None => r is None,
            Some((a, b)) => r matches Some((x, y)) && x@ == a && y@ == b,
        },
{
    let cs = chars_of(s);
    let n = cs.len();
    proof {
        lemma_range_bounds(s@);
    }
    let dots3 = chars_of("...");
    match find(&cs, &dots3) {
        Some(i) => {
            let left = string_of(&crate::text::slice_chars(&cs, 0, i));
            let right = string_of(&crate::text::slice_chars(&cs, i + 3, n));
            let base = match merge_base {
                Some(m) => if crate::text::is_empty_str(m.as_str()) {
                    left
                } else {
                    m
                },
                None => left,
            };
            Some((base, right))
        },
        None => match find(&cs, &chars_of_dots2()) {
            Some(i) => Some(
                (
                    string_of(&crate::text::slice_chars(&cs, 0, i)),
                    string_of(&crate::text::slice_chars(&cs, i + 2, n)),
                ),
            ),
            None => None,
        },
    }
}

/// A comparison as plain values.
pub open spec fn spec_view(s: Spec) -> (Seq<char>, Seq<char>) {
    (s.from@, s.to@)
}

/// The comparison named by `git diff`-style arguments (`merge_base` as in `range_spec`):
/// with `staged`, nothing or a base reference; otherwise nothing, a reference (against the
/// working tree), a range, or two references.
pub open spec fn spec_from_args_spec(args: Seq<Seq<char>>, staged: bool, merge_base: Option<Seq<char>>) -> Result<
    (Seq<char>, Seq<char>),
    Seq<char>,
> {
    if staged {
        if args.len() == 0 {
            Ok((Seq::empty(), Seq::empty()))
        } else if args.len() == 1 {
            Ok((args[0], Seq::empty()))
        } else {
            Err("--staged accepts 0 or 1 argument"@)
        }
    } else if args.len() == 0 {
        Ok((Seq::empty(), Seq::empty()))
    } else if args.len() == 1 {
        match range_spec(args[0], merge_base) {
            Some((f, t)) => Ok((f, t)),
            None => Ok((args[0], "worktree"@)),
        }
    } else if args.len() == 2 {
        Ok((args[0], args[1]))
    } else {
        Err("too many arguments (maximum 2)"@)
    }
}

/// The comparison named by the arguments (see `spec_from_args_spec`).
pub fn spec_from_args(args: &[String], staged: bool, merge_base: Option<String>) -> (r: Result<Spec, String>)
    ensures
        match spec_from_args_spec(
            args@.map_values(|a: String| a@),
            staged,
            match merge_base {
                Some(m) => Some(m@),
                None => None,
            },
        ) {
            Ok(v) => r matches Ok(s) && spec_view(s) == v,
            Err(e) => r matches Err(x) && x@ == e,
        },
{
    let ghost av = args@.map_values(|a: String| a@);
    proof {
        if args@.len() > 0 {
            assert(av[0] == args@[0]@);
        }
        if args@.len() > 1 {
            assert(av[1] == args@[1]@);
        }
    }
    if staged {
        if args.len() == 0 {
            return Ok(Spec { from: String::new(), to: String::new() });
        } else if args.len() == 1 {
            return Ok(Spec { from: args[0].clone(), to: String::new() });
        } else {
            return Err(owned("--staged accepts 0 or 1 argument"));
        }
    }
    if args.len() == 0 {
        Ok(Spec { from: String::new(), to: String::new() })
    } else if args.len() == 1 {
        match parse_range(args[0].as_str(), merge_base) {
            Some((from, to)) => Ok(Spec { from, to }),
            None => Ok(Spec { from: args[0].clone(), to: owned(REF_WORKTREE) }),
        }
    } else if args.len() == 2 {
        Ok(Spec { from: args[0].clone(), to: args[1].clone() })
    } else {
        Err(owned("too many arguments (maximum 2)"))
    }
}

/// The `git` arguments that produce the diff of a comparison.
pub open spec fn diff_args_spec(from: Seq<char>, to: Seq<char>) -> Seq<Seq<char>> {
    if from.len() == 0 && to.len() == 0 {
        seq!["diff"@, "--staged"@]
    } else if worktree_ref(to) {
        if from.len() > 0 {
            seq!["diff"@, from]
        } else {
            seq!["diff"@]
        }
    } else {
        seq![
            "diff"@,
            if from.len() == 0 {
                "HEAD"@
            } else {
                from
            },
            if to.len() == 0 {
                "HEAD"@
            } else {
                to
            },
        ]
    }
}

/// The `git diff` arguments for a comparison (see `diff_args_spec`).
pub fn build_diff_args(s: &Spec) -> (r: Vec<String>)
    ensures
        r@.map_values(|a: String| a@) == diff_args_spec(s.from@, s.to@),
{
    let mut args: Vec<String> = vec![owned("diff")];
    if s.is_default() {
        args.push(owned("--staged"));
    } else if s.is_worktree() {
        if !crate::text::is_empty_str(s.from.as_str()) {
            args.push(s.from.clone());
        }
    } else {
        let from = if crate::text::is_empty_str(s.from.as_str()) {
            owned("HEAD")
        } else {
            s.from.clone()
        };
        let to = if crate::text::is_empty_str(s.to.as_str()) {
            owned("HEAD")
        } else {
            s.to.clone()
        };
        args.push(from);
        args.push(to);
    }
    assert(args@.map_values(|a: String| a@) =~= diff_args_spec(s.from@, s.to@));
    args
}


// ---------------------------------------------------------------------------
// Paths in diff headers.
// ---------------------------------------------------------------------------

/// The bytes of `s[i..]` with C-style escapes decoded (onto `out`), as git quotes paths:
/// `\a \b \f \n \r \t \v \\ \" \'`, `\xHH` and one to three octal digits; `None` for any
/// other escape or a value over 255.
pub open spec fn unquote_c(s: Seq<char>, i: int, out: Seq<u8>) -> Option<Seq<u8>>
    decreases s.len() - i,
{
    if i < 0 || i >= s.len() {
        Some(out)
    } else if s[i] != '\\' {
        unquote_c(s, i + 1, out + utf8_of(s[i]))
    } else if i + 1 >= s.len() {
        None
    } else {
        let e = s[i + 1];
        if e == 'a' {
            unquote_c(s, i + 2, out.push(7))
        } else if e == 'b' {
            unquote_c(s, i + 2, out.push(8))
        } else if e == 'f' {
            unquote_c(s, i + 2, out.push(12))
        } else if e == 'n' {
            unquote_c(s, i + 2, out.push(10))
        } else if e == 'r' {
            unquote_c(s, i + 2, out.push(13))
        } else if e == 't' {
            unquote_c(s, i + 2, out.push(9))
        } else if e == 'v' {
            unquote_c(s, i + 2, out.push(11))
        } else if e == '\\' {
            unquote_c(s, i + 2, out.push(92))
        } else if e == '"' {
            unquote_c(s, i + 2, out.push(34))
        } else if e == '\'' {
            unquote_c(s, i + 2, out.push(39))
        } else if e == 'x' {
            if i + 4 > s.len() {
                None
            } else {
                match radix_value(s.subrange(i + 2, i + 4), 16) {
                    Some(v) => unquote_c(s, i + 4, out.push(v as u8)),
                    None => None,
                }
            }
        } else if '0' <= e <= '7' {
            proof {
                lemma_octal_run(s, i + 1, 0);
            }
            let k = octal_run(s, i + 1, 0);
            match digits_value(s.subrange(i + 1, i + 1 + k), 8, 0) {
                Some(v) => if v > 255 {
                    None
                } else {
                    unquote_c(s, i + 1 + k, out.push(v as u8))
                },
                None => None,
            }
        } else {
            None
        }
    }
}

/// How many octal digits (at most three) start at `j`, counting from `k`.
pub open spec fn octal_run(s: Seq<char>, j: int, k: int) -> int
    decreases 3 - k,
{
    if k < 3 && 0 <= j + k < s.len() && '0' <= s[j + k] <= '7' {
        octal_run(s, j, k + 1)
    } else {
        k
    }
}

pub proof fn lemma_octal_run(s: Seq<char>, j: int, k: int)
    requires
        0 <= j,
        0 <= k <= 3,
    ensures
        k <= octal_run(s, j, k) <= 3,
        j + k <= s.len() ==> j + octal_run(s, j, k) <= s.len(),
    decreases 3 - k,
{
    if k < 3 && j + k < s.len() && '0' <= s[j + k] <= '7' {
        lemma_octal_run(s, j, k + 1);
    }
}

/// A path as git prints it: a quoted one (`"..."`) is unquoted and decoded as UTF-8 (invalid
/// sequences replaced); one that is not quoted, or whose escapes are invalid, is kept.
pub open spec fn unquote_git_path_spec(p: Seq<char>) -> Seq<char> {
    if p.len() < 2 || p[0] != '"' || p[p.len() - 1] != '"' {
        p
    } else {
        match unquote_c(p.subrange(1, p.len() - 1), 0, Seq::empty()) {
            Some(b) => utf8_lossy(b),
            None => p,
        }
    }
}

fn unquote_c_exec(s: &[char]) -> (r: Option<Vec<u8>>)
    ensures
        r matches Some(v) ==> unquote_c(s@, 0, Seq::empty()) == Some(v@),
        r is None ==> unquote_c(s@, 0, Seq::empty()) is None,
{
    let n = s.len();
    let mut out: Vec<u8> = Vec::new();
    let mut i: usize = 0;
    while i < n
        invariant
            i <= n,
            n == s@.len(),
            unquote_c(s@, i as int, out@) == unquote_c(s@, 0, Seq::empty()),
        decreases n - i,
    {
        if s[i] != '\\' {
            push_utf8(&mut out, s[i]);
            i += 1;
            continue;
        }
        if n - i < 2 {
            return None;
        }
        let e = s[i + 1];
        let simple: Option<u8> = if e == 'a' {
            Some(7)
        } else if e == 'b' {
            Some(8)
        } else if e == 'f' {
            Some(12)
        } else if e == 'n' {
            Some(10)
        } else if e == 'r' {
            Some(13)
        } else if e == 't' {
            Some(9)
        } else if e == 'v' {
            Some(11)
        } else if e == '\\' {
            Some(92)
        } else if e == '"' {
            Some(34)
        } else if e == '\'' {
            Some(39)
        } else {
            None
        };
        match simple {
            Some(b) => {
                out.push(b);
                i += 2;
            },
            None => {
                if e == 'x' {
                    if n - i < 4 {
                        return None;
                    }
                    match parse_radix(s, i + 2, i + 4, 16) {
                        Some(v) => {
                            out.push(v as u8);
                            i += 4;
                        },
                        None => {
                            return None;
                        },
                    }
                } else if '0' <= e && e <= '7' {
                    proof {
                        lemma_octal_run(s@, i + 1, 0);
                    }
                    let mut k: usize = 0;
                    while k < 3 && k < n - (i + 1) && '0' <= s[i + 1 + k] && s[i + 1 + k] <= '7'
                        invariant
                            k <= 3,
                            i + 1 < n,
                            n == s@.len(),
                            octal_run(s@, i + 1, k as int) == octal_run(s@, i + 1, 0),
                        decreases 3 - k,
                    {
                        k += 1;
                    }
                    match parse_radix(s, i + 1, i + 1 + k, 8) {
                        Some(v) => {
                            if v > 255 {
                                return None;
                            }
                            out.push(v as u8);
                            i = i + 1 + k;
                        },
                        None => {
                            return None;
                        },
                    }
                } else {
                    return None;
                }
            },
        }
    }
    Some(out)
}

/// A path as git prints it, unquoted (see `unquote_git_path_spec`).
pub fn unquote_git_path(p: &str) -> (r: String)
    ensures
        r@ == unquote_git_path_spec(p@),
{
    let cs = chars_of(p);
    let n = cs.len();
    if n < 2 || cs[0] != '"' || cs[n - 1] != '"' {
        return owned(p);
    }
    match unquote_c_exec(&crate::text::slice_chars(&cs, 1, n - 1)) {
        Some(b) => crate::text::from_utf8_lossy(&b),
        None => owned(p),
    }
}

/// `u` without a leading `b/`.
pub open spec fn strip_b(u: Seq<char>) -> Seq<char> {
    if has_prefix(u, "b/"@) {
        u.skip(2)
    } else {
        u
    }
}

/// The new path in a `diff --git` header (`rest` follows `diff --git `): a quoted ` "b/...`
/// part when its quoting is valid, else what follows the first ` b/`, else nothing.
pub open spec fn git_new_path(rest: Seq<char>) -> Seq<char> {
    let plain = match find_seq(rest, " b/"@) {
        Some(i) => rest.skip(i + 3),
        None => Seq::empty(),
    };
    match find_seq(rest, " \"b/"@) {
        Some(i) => {
            let q = rest.skip(i + 1);
            let p = unquote_git_path_spec(q);
            if p != q {
                strip_b(p)
            } else {
                plain
            }
        },
        None => plain,
    }
}

fn strip_b_exec(u: &[char]) -> (r: Vec<char>)
    ensures
        r@ == strip_b(u@),
{
    if starts_with_str(u, "b/") {
        proof {
            reveal_strlit("b/");
        }
        crate::text::slice_chars(u, 2, u.len())
    } else {
        crate::text::copy_chars(u)
    }
}

fn git_new_path_exec(rest: &[char]) -> (r: Vec<char>)
    ensures
        r@ == git_new_path(rest@),
{
    let n = rest.len();
    proof {
        reveal_strlit(" b/");
        reveal_strlit(" \"b/");
        crate::text::lemma_find_seq(rest@, " b/"@);
        crate::text::lemma_find_seq(rest@, " \"b/"@);
    }
    let plain = match find(rest, &chars_of(" b/")) {
        Some(i) => crate::text::slice_chars(rest, i + 3, n),
        None => Vec::new(),
    };
    match find(rest, &chars_of(" \"b/")) {
        Some(i) => {
            let q = crate::text::slice_chars(rest, i + 1, n);
            let qs = string_of(&q);
            let p = unquote_git_path(qs.as_str());
            let pc = chars_of(p.as_str());
            if !crate::text::chars_eq(&pc, &q) {
                strip_b_exec(&pc)
            } else {
                plain
            }
        },
        None => plain,
    }
}

// ---------------------------------------------------------------------------
// Hunk headers.
// ---------------------------------------------------------------------------

/// `str::parse::<i64>`: an optional sign and at least one decimal digit, in range.
pub open spec fn parse_i64_spec(s: Seq<char>) -> Option<int> {
    let neg = s.len() > 0 && s[0] == '-';
    let d = if s.len() > 0 && (s[0] == '-' || s[0] == '+') {
        s.skip(1)
    } else {
        s
    };
    if d.len() == 0 {
        None
    } else {
        match digits_value(d, 10, 0) {
            None => None,
            Some(v) => {
                let x = if neg {
                    -v
                } else {
                    v
                };
                if i64::MIN <= x <= i64::MAX {
                    Some(x)
                } else {
                    None
                }
            },
        }
    }
}

proof fn lemma_digits_ge(d: Seq<char>, acc: int)
    requires
        acc >= 0,
    ensures
        digits_value(d, 10, acc) matches Some(w) ==> w >= acc,
    decreases d.len(),
{
    if d.len() > 0 {
        if let Some(v) = crate::comment::gounq::digit_value(d[0], 10) {
            lemma_digits_ge(d.skip(1), acc * 10 + v);
        }
    }
}

/// Parses a decimal `i64` (see `parse_i64_spec`).
pub fn parse_i64(s: &[char]) -> (r: Option<i64>)
    ensures
        r matches Some(v) ==> parse_i64_spec(s@) == Some(v as int),
        r is None ==> parse_i64_spec(s@) is None,
{
    let n = s.len();
    let neg = n > 0 && s[0] == '-';
    let i0: usize = if n > 0 && (s[0] == '-' || s[0] == '+') {
        1
    } else {
        0
    };
    let ghost d = s@.skip(i0 as int);
    assert(d =~= (if s@.len() > 0 && (s@[0] == '-' || s@[0] == '+') {
        s@.skip(1)
    } else {
        s@
    }));
    if i0 >= n {
        return None;
    }
    let mut i = i0;
    let mut acc: u128 = 0;
    assert(s@.skip(i as int) == d);
    while i < n
        invariant
            i0 <= i <= n,
            n == s@.len(),
            d == s@.skip(i0 as int),
            d == (if s@.len() > 0 && (s@[0] == '-' || s@[0] == '+') {
                s@.skip(1)
            } else {
                s@
            }),
            d.len() > 0,
            acc <= 0x8000_0000_0000_0000,
            digits_value(s@.skip(i as int), 10, acc as int) == digits_value(d, 10, 0),
        decreases n - i,
    {
        assert(s@.skip(i as int).skip(1) =~= s@.skip(i + 1));
        assert(s@.skip(i as int)[0] == s@[i as int]);
        let c = s[i];
        if !('0' <= c && c <= '9') {
            assert(crate::comment::gounq::digit_value(c, 10) is None);
            return None;
        }
        let v = (c as u32 - '0' as u32) as u128;
        assert(crate::comment::gounq::digit_value(c, 10) == Some(v as int));
        acc = acc * 10 + v;
        i += 1;
        if acc > 0x8000_0000_0000_0000 {
            proof {
                lemma_digits_ge(s@.skip(i as int), acc as int);
            }
            return None;
        }
    }
    assert(s@.skip(n as int) =~= Seq::<char>::empty());
    assert(digits_value(d, 10, 0) == Some(acc as int));
    if neg {
        let m = acc as i128;
        Some((0 - m) as i64)
    } else {
        if acc > 0x7fff_ffff_ffff_ffff {
            return None;
        }
        Some(acc as i64)
    }
}

/// The first index at or after `j` holding one of `,`, space, `@`, tab (or the end).
pub open spec fn hunk_num_end(s: Seq<char>, j: int) -> int
    decreases s.len() - j,
{
    if 0 <= j < s.len() && s[j] != ',' && s[j] != ' ' && s[j] != '@' && s[j] != '\t' {
        hunk_num_end(s, j + 1)
    } else {
        j
    }
}

/// The new side's first line in an `@@ -a,b +c,d @@` header: the number after the first `+`
/// (0 when it is missing or not a number).
pub open spec fn hunk_start(line: Seq<char>) -> i64 {
    match find_seq(line, seq!['+']) {
        None => 0,
        Some(idx) => {
            let rest = line.skip(idx + 1);
            match parse_i64_spec(rest.take(hunk_num_end(rest, 0))) {
                Some(v) => v as i64,
                None => 0,
            }
        },
    }
}

/// The new side's first line in a hunk header (see `hunk_start`).
pub fn parse_hunk_header(line: &[char]) -> (r: i64)
    ensures
        r == hunk_start(line@),
{
    let plus = vec!['+'];
    assert(plus@ =~= seq!['+']);
    proof {
        crate::text::lemma_find_seq(line@, seq!['+']);
    }
    let n = line.len();
    match find(line, &plus) {
        None => 0,
        Some(idx) => {
            let rest = crate::text::slice_chars(line, idx + 1, n);
            let mut e: usize = 0;
            while e < rest.len() && rest[e] != ',' && rest[e] != ' ' && rest[e] != '@' && rest[e] != '\t'
                invariant
                    e <= rest@.len(),
                    hunk_num_end(rest@, e as int) == hunk_num_end(rest@, 0),
                decreases rest.len() - e,
            {
                e += 1;
            }
            let num = crate::text::slice_chars(&rest, 0, e);
            assert(num@ =~= rest@.take(e as int));
            match parse_i64(&num) {
                Some(v) => v,
                None => 0,
            }
        },
    }
}


// ---------------------------------------------------------------------------
// Unified diffs.
// ---------------------------------------------------------------------------

/// One file of a diff.
#[derive(Debug, Default)]
pub struct FileDiff {
    pub path: String,
    /// The added lines' numbers in the new file (from 1).
    pub added_lines: HashSet<i64>,
    pub is_deleted: bool,
    pub is_new: bool,
    pub has_removed_lines: bool,
    pub is_submodule: bool,
    pub is_symlink: bool,
}

/// A file of a diff as plain values.
pub struct DiffView {
    pub path: Seq<char>,
    pub added: Set<i64>,
    pub is_deleted: bool,
    pub is_new: bool,
    pub has_removed_lines: bool,
    pub is_submodule: bool,
    pub is_symlink: bool,
}

pub open spec fn diff_view(d: FileDiff) -> DiffView {
    DiffView {
        path: d.path@,
        added: d.added_lines@,
        is_deleted: d.is_deleted,
        is_new: d.is_new,
        has_removed_lines: d.has_removed_lines,
        is_submodule: d.is_submodule,
        is_symlink: d.is_symlink,
    }
}

pub open spec fn diffs_view(v: Seq<FileDiff>) -> Seq<DiffView> {
    v.map_values(|d: FileDiff| diff_view(d))
}

/// A file just named by its `diff --git` header.
pub open spec fn fresh_diff(path: Seq<char>) -> DiffView {
    DiffView {
        path,
        added: Set::empty(),
        is_deleted: false,
        is_new: false,
        has_removed_lines: false,
        is_submodule: false,
        is_symlink: false,
    }
}

/// The scan of a diff: the file being read, the new file's current line, the files done.
pub struct DiffScan {
    pub cur: Option<DiffView>,
    pub line: i64,
    pub done: Seq<DiffView>,
}

/// The next line number (wrapping at the end of the range).
pub open spec fn next_line(x: i64) -> i64 {
    if x == i64::MAX {
        i64::MIN
    } else {
        (x + 1) as i64
    }
}

/// A metadata line that changes nothing.
pub open spec fn metadata_line(l: Seq<char>) -> bool {
    has_prefix(l, "--- "@) || has_prefix(l, "index "@) || has_prefix(l, "new file"@) || has_prefix(
        l,
        "deleted file"@,
    ) || has_prefix(l, "rename from"@) || has_prefix(l, "rename to"@) || has_prefix(l, "Binary "@)
}

/// A mode line (`new file mode `, `old mode `, `new mode `) applied to the file: a new file
/// is marked, and mode 160000 marks a submodule, 120000 a symbolic link.
pub open spec fn mode_line(c: DiffView, l: Seq<char>) -> DiffView {
    let c1 = if has_prefix(l, "new file mode "@) {
        DiffView { is_new: true, ..c }
    } else {
        c
    };
    let rest = if has_prefix(l, "new file mode "@) {
        l.skip(14)
    } else {
        l.skip(9)
    };
    let m = trim_seq(rest);
    if m == "160000"@ {
        DiffView { is_submodule: true, ..c1 }
    } else if m == "120000"@ {
        DiffView { is_symlink: true, ..c1 }
    } else {
        c1
    }
}

/// The scan after one line of the diff.
pub open spec fn diff_step(s: DiffScan, l: Seq<char>) -> DiffScan {
    if has_prefix(l, "diff --git "@) {
        DiffScan {
            cur: Some(fresh_diff(git_new_path(l.skip(11)))),
            line: 0,
            done: match s.cur {
                Some(c) => s.done.push(c),
                None => s.done,
            },
        }
    } else {
        match s.cur {
            None => s,
            Some(c) => if has_prefix(l, "+++ b/"@) || has_prefix(l, "+++ \"b/"@) {
                DiffScan { cur: Some(DiffView { path: strip_b(unquote_git_path_spec(l.skip(4))), ..c }), ..s }
            } else if l == "+++ /dev/null"@ {
                DiffScan { cur: Some(DiffView { is_deleted: true, ..c }), ..s }
            } else if has_prefix(l, "new file mode "@) || has_prefix(l, "old mode "@) || has_prefix(
                l,
                "new mode "@,
            ) {
                DiffScan { cur: Some(mode_line(c, l)), ..s }
            } else if metadata_line(l) {
                s
            } else if has_prefix(l, "@@"@) {
                DiffScan { line: hunk_start(l), ..s }
            } else if has_prefix(l, "+"@) {
                DiffScan {
                    cur: Some(DiffView { added: c.added.insert(s.line), ..c }),
                    line: next_line(s.line),
                    ..s
                }
            } else if has_prefix(l, "-"@) {
                DiffScan { cur: Some(DiffView { has_removed_lines: true, ..c }), ..s }
            } else if has_prefix(l, " "@) {
                DiffScan { line: next_line(s.line), ..s }
            } else {
                s
            },
        }
    }
}

/// The scan after the lines `ls`.
pub open spec fn diff_scan(ls: Seq<Seq<char>>) -> DiffScan
    decreases ls.len(),
{
    if ls.len() == 0 {
        DiffScan { cur: None, line: 0, done: Seq::empty() }
    } else {
        diff_step(diff_scan(ls.drop_last()), ls.last())
    }
}

/// The files of a unified diff, in order.
pub open spec fn parse_diff_spec(diff: Seq<char>) -> Seq<DiffView> {
    let s = diff_scan(split_seq(diff, '\n'));
    match s.cur {
        Some(c) => s.done.push(c),
        None => s.done,
    }
}

/// A line of a hunk's body: an added (`+`), removed (`-`) or context (` `) line, not a
/// `+++` or `--- ` file header.
pub open spec fn body_line(l: Seq<char>) -> bool {
    &&& l.len() > 0
    &&& (l[0] == '+' || l[0] == '-' || l[0] == ' ')
    &&& !(l.len() >= 3 && l[0] == '+' && l[1] == '+' && l[2] == '+')
    &&& !(l.len() >= 4 && l[0] == '-' && l[1] == '-' && l[2] == '-' && l[3] == ' ')
}

/// How many of the lines `body[..j]` are lines of the new file (added or context lines).
pub open spec fn new_lines_before(body: Seq<Seq<char>>, j: int) -> int
    decreases j,
{
    if j <= 0 {
        0
    } else {
        new_lines_before(body, j - 1) + if body[j - 1][0] == '-' {
            0int
        } else {
            1int
        }
    }
}

proof fn lemma_first_char_differs(l: Seq<char>, p: Seq<char>)
    requires
        l.len() > 0,
        p.len() > 0,
        l[0] != p[0],
    ensures
        !has_prefix(l, p),
{
    if has_prefix(l, p) {
        assert(l.take(p.len() as int)[0] == l[0]);
    }
}

proof fn lemma_prefix_at(l: Seq<char>, p: Seq<char>, k: int)
    requires
        has_prefix(l, p),
        0 <= k < p.len(),
    ensures
        l[k] == p[k],
{
    assert(l.take(p.len() as int)[k] == l[k]);
}

/// One line of a hunk's body: an added line is recorded at the current new-file line and
/// moves it on; a removed line is only noted and leaves it; a context line moves it on.
pub proof fn law_body_line_step(s: DiffScan, l: Seq<char>)
    requires
        s.cur is Some,
        body_line(l),
    ensures
        l[0] == '+' ==> diff_step(s, l) == (DiffScan {
            cur: Some((DiffView { added: s.cur->0.added.insert(s.line), ..s.cur->0 })),
            line: next_line(s.line),
            ..s
        }),
        l[0] == '-' ==> diff_step(s, l) == (DiffScan {
            cur: Some((DiffView { has_removed_lines: true, ..s.cur->0 })),
            ..s
        }),
        l[0] == ' ' ==> diff_step(s, l) == (DiffScan { line: next_line(s.line), ..s }),
{
    reveal_strlit("diff --git ");
    reveal_strlit("+++ b/");
    reveal_strlit("+++ \"b/");
    reveal_strlit("+++ /dev/null");
    reveal_strlit("new file mode ");
    reveal_strlit("old mode ");
    reveal_strlit("new mode ");
    reveal_strlit("--- ");
    reveal_strlit("index ");
    reveal_strlit("new file");
    reveal_strlit("deleted file");
    reveal_strlit("rename from");
    reveal_strlit("rename to");
    reveal_strlit("Binary ");
    reveal_strlit("@@");
    reveal_strlit("+");
    reveal_strlit("-");
    reveal_strlit(" ");
    lemma_first_char_differs(l, "diff --git "@);
    lemma_first_char_differs(l, "new file mode "@);
    lemma_first_char_differs(l, "old mode "@);
    lemma_first_char_differs(l, "new mode "@);
    lemma_first_char_differs(l, "index "@);
    lemma_first_char_differs(l, "new file"@);
    lemma_first_char_differs(l, "deleted file"@);
    lemma_first_char_differs(l, "rename from"@);
    lemma_first_char_differs(l, "rename to"@);
    lemma_first_char_differs(l, "Binary "@);
    lemma_first_char_differs(l, "@@"@);
    if l[0] != '+' {
        lemma_first_char_differs(l, "+++ b/"@);
        lemma_first_char_differs(l, "+++ \"b/"@);
        lemma_first_char_differs(l, "+"@);
        assert(l != "+++ /dev/null"@);
    } else {
        if has_prefix(l, "+++ b/"@) {
            lemma_prefix_at(l, "+++ b/"@, 1);
            lemma_prefix_at(l, "+++ b/"@, 2);
        }
        if has_prefix(l, "+++ \"b/"@) {
            lemma_prefix_at(l, "+++ \"b/"@, 1);
            lemma_prefix_at(l, "+++ \"b/"@, 2);
        }
        if l == "+++ /dev/null"@ {
            assert(l[1] == '+' && l[2] == '+');
        }
        assert(l.take(1) =~= "+"@);
    }
    if l[0] != '-' {
        lemma_first_char_differs(l, "--- "@);
        lemma_first_char_differs(l, "-"@);
    } else {
        if has_prefix(l, "--- "@) {
            lemma_prefix_at(l, "--- "@, 1);
            lemma_prefix_at(l, "--- "@, 2);
            lemma_prefix_at(l, "--- "@, 3);
        }
        assert(l.take(1) =~= "-"@);
    }
    if l[0] == ' ' {
        assert(l.take(1) =~= " "@);
    }
}

/// File header lines of a diff: `+++ /dev/null` marks the file deleted, a `new file mode`
/// line marks it new, and the modes 160000 and 120000 mark a submodule and a symbolic link;
/// none of them records a line or moves the line count.
pub proof fn law_header_flags(s: DiffScan, l: Seq<char>)
    requires
        s.cur is Some,
    ensures
        l == "+++ /dev/null"@ ==> diff_step(s, l).cur->0.is_deleted && diff_step(s, l).cur->0.added
            == s.cur->0.added && diff_step(s, l).line == s.line,
        has_prefix(l, "new file mode "@) ==> diff_step(s, l).cur->0.is_new && diff_step(s, l).cur->0.added
            == s.cur->0.added && diff_step(s, l).line == s.line,
        (l == "new file mode 160000"@ || l == "old mode 160000"@ || l == "new mode 160000"@) ==> diff_step(
            s,
            l,
        ).cur->0.is_submodule,
        (l == "new file mode 120000"@ || l == "old mode 120000"@ || l == "new mode 120000"@) ==> diff_step(
            s,
            l,
        ).cur->0.is_symlink,
{
    reveal_strlit("diff --git ");
    reveal_strlit("+++ b/");
    reveal_strlit("+++ \"b/");
    reveal_strlit("+++ /dev/null");
    reveal_strlit("new file mode ");
    reveal_strlit("old mode ");
    reveal_strlit("new mode ");
    reveal_strlit("new file mode 160000");
    reveal_strlit("old mode 160000");
    reveal_strlit("new mode 160000");
    reveal_strlit("new file mode 120000");
    reveal_strlit("old mode 120000");
    reveal_strlit("new mode 120000");
    reveal_strlit("160000");
    reveal_strlit("120000");
    if l == "+++ /dev/null"@ {
        lemma_first_char_differs(l, "diff --git "@);
        assert(!has_prefix(l, "+++ b/"@)) by {
            if has_prefix(l, "+++ b/"@) {
                lemma_prefix_at(l, "+++ b/"@, 4);
            }
        }
        assert(!has_prefix(l, "+++ \"b/"@)) by {
            if has_prefix(l, "+++ \"b/"@) {
                lemma_prefix_at(l, "+++ \"b/"@, 4);
            }
        }
    }
    if has_prefix(l, "new file mode "@) {
        lemma_prefix_at(l, "new file mode "@, 0);
        lemma_first_char_differs(l, "diff --git "@);
        lemma_first_char_differs(l, "+++ b/"@);
        lemma_first_char_differs(l, "+++ \"b/"@);
        assert(l != "+++ /dev/null"@);
    }
    let six_a = "160000"@;
    let six_b = "120000"@;
    assert(crate::text::first_non_ws(six_a, 0) == 0);
    assert(six_a.skip(0) =~= six_a);
    assert(crate::text::end_non_ws(six_a, 6) == 6);
    assert(six_a.take(6) =~= six_a);
    assert(crate::text::first_non_ws(six_b, 0) == 0);
    assert(six_b.skip(0) =~= six_b);
    assert(crate::text::end_non_ws(six_b, 6) == 6);
    assert(six_b.take(6) =~= six_b);
    assert(six_b[1] != six_a[1]);
    if l == "new file mode 160000"@ || l == "new file mode 120000"@ {
        assert(l.take(14) =~= "new file mode "@);
        assert(l.skip(14) =~= (if l[14] == '1' && l[15] == '6' { six_a } else { six_b }));
        lemma_first_char_differs(l, "diff --git "@);
        lemma_first_char_differs(l, "+++ b/"@);
        lemma_first_char_differs(l, "+++ \"b/"@);
    }
    if l == "old mode 160000"@ || l == "old mode 120000"@ {
        assert(l.take(9) =~= "old mode "@);
        assert(l.skip(9) =~= (if l[9] == '1' && l[10] == '6' { six_a } else { six_b }));
        lemma_first_char_differs(l, "diff --git "@);
        lemma_first_char_differs(l, "+++ b/"@);
        lemma_first_char_differs(l, "+++ \"b/"@);
        lemma_first_char_differs(l, "new file mode "@);
    }
    if l == "new mode 160000"@ || l == "new mode 120000"@ {
        assert(l.take(9) =~= "new mode "@);
        assert(l.skip(9) =~= (if l[9] == '1' && l[10] == '6' { six_a } else { six_b }));
        lemma_first_char_differs(l, "diff --git "@);
        lemma_first_char_differs(l, "+++ b/"@);
        lemma_first_char_differs(l, "+++ \"b/"@);
        assert(!has_prefix(l, "new file mode "@)) by {
            if has_prefix(l, "new file mode "@) {
                lemma_prefix_at(l, "new file mode "@, 4);
            }
        }
        assert(!has_prefix(l, "old mode "@)) by {
            if has_prefix(l, "old mode "@) {
                lemma_prefix_at(l, "old mode "@, 0);
            }
        }
    }
}

proof fn lemma_new_lines_prefix(body: Seq<Seq<char>>, j: int)
    requires
        0 <= j < body.len(),
    ensures
        new_lines_before(body.drop_last(), j) == new_lines_before(body, j),
    decreases j,
{
    if j > 0 {
        lemma_new_lines_prefix(body, j - 1);
    }
}

proof fn lemma_new_lines_nonneg(body: Seq<Seq<char>>, j: int)
    ensures
        0 <= new_lines_before(body, j),
        j >= 0 ==> new_lines_before(body, j) <= j,
    decreases j,
{
    if j > 0 {
        lemma_new_lines_nonneg(body, j - 1);
    }
}

/// Within a hunk, added lines are numbered by the lines of the new file only: after a hunk
/// header leaves the new-file line at `n`, the `+` line preceded by `k` added or context
/// lines of the hunk gets number `n + k`; removed lines leave the numbering alone and only
/// mark the file as having removed lines.
pub proof fn law_hunk_line_numbers(pre: Seq<Seq<char>>, body: Seq<Seq<char>>)
    requires
        diff_scan(pre).cur is Some,
        0 <= diff_scan(pre).line,
        diff_scan(pre).line + body.len() < i64::MAX,
        forall|j: int| 0 <= j < body.len() ==> body_line(#[trigger] body[j]),
    ensures
        diff_scan(pre + body).cur is Some,
        diff_scan(pre + body).done == diff_scan(pre).done,
        diff_scan(pre + body).cur->0.path == diff_scan(pre).cur->0.path,
        diff_scan(pre + body).line == diff_scan(pre).line + new_lines_before(body, body.len() as int),
        forall|x: i64|
            #![trigger diff_scan(pre + body).cur->0.added.contains(x)]
            diff_scan(pre + body).cur->0.added.contains(x) <==> (diff_scan(pre).cur->0.added.contains(x)
                || exists|j: int|
                0 <= j < body.len() && body[j][0] == '+' && x == diff_scan(pre).line + #[trigger] new_lines_before(
                    body,
                    j,
                )),
        diff_scan(pre + body).cur->0.has_removed_lines <==> (diff_scan(pre).cur->0.has_removed_lines
            || exists|j: int| 0 <= j < body.len() && (#[trigger] body[j])[0] == '-'),
    decreases body.len(),
{
    let s0 = diff_scan(pre);
    if body.len() == 0 {
        assert(pre + body =~= pre);
        return;
    }
    let b = body.drop_last();
    let n = body.len() as int;
    assert((pre + body).drop_last() =~= pre + b);
    assert((pre + body).last() == body.last());
    assert forall|j: int| 0 <= j < b.len() implies body_line(#[trigger] b[j]) by {
        assert(b[j] == body[j]);
    }
    law_hunk_line_numbers(pre, b);
    let sp = diff_scan(pre + b);
    let l = body.last();
    assert(body_line(body[n - 1]));
    law_body_line_step(sp, l);
    lemma_new_lines_nonneg(b, n - 1);
    lemma_new_lines_prefix(body, n - 1);
    assert(new_lines_before(b, n - 1) == new_lines_before(body, n - 1));
    assert forall|j: int| 0 <= j < b.len() implies new_lines_before(b, j) == new_lines_before(body, j) by {
        lemma_new_lines_prefix(body, j);
    }
    let s1 = diff_scan(pre + body);
    assert(s1 == diff_step(sp, l));
    assert(sp.line == s0.line + new_lines_before(body, n - 1));
    assert(sp.line + 1 < i64::MAX);
    assert(next_line(sp.line) == sp.line + 1);
    assert forall|x: i64|
        s1.cur->0.added.contains(x) <==> (s0.cur->0.added.contains(x) || exists|j: int|
            0 <= j < body.len() && body[j][0] == '+' && x == s0.line + #[trigger] new_lines_before(body, j)) by {
        if s1.cur->0.added.contains(x) && !s0.cur->0.added.contains(x) {
            if sp.cur->0.added.contains(x) {
                let j = choose|j: int|
                    0 <= j < b.len() && b[j][0] == '+' && x == s0.line + #[trigger] new_lines_before(b, j);
                assert(body[j] == b[j]);
                assert(new_lines_before(b, j) == new_lines_before(body, j));
            } else {
                assert(l[0] == '+');
                assert(x == sp.line);
                assert(body[n - 1][0] == '+' && x == s0.line + new_lines_before(body, n - 1));
            }
        }
        if exists|j: int| 0 <= j < body.len() && body[j][0] == '+' && x == s0.line + #[trigger] new_lines_before(body, j) {
            let j = choose|j: int|
                0 <= j < body.len() && body[j][0] == '+' && x == s0.line + #[trigger] new_lines_before(body, j);
            if j < n - 1 {
                assert(b[j] == body[j]);
                assert(new_lines_before(b, j) == new_lines_before(body, j));
                assert(0 <= j < b.len() && b[j][0] == '+' && x == s0.line + new_lines_before(b, j));
                assert(sp.cur->0.added.contains(x));
            } else {
                assert(x == sp.line);
            }
        }
    }
    assert(s1.cur->0.has_removed_lines <==> (s0.cur->0.has_removed_lines || exists|j: int|
        0 <= j < body.len() && (#[trigger] body[j])[0] == '-')) by {
        if exists|j: int| 0 <= j < body.len() && (#[trigger] body[j])[0] == '-' {
            let j = choose|j: int| 0 <= j < body.len() && (#[trigger] body[j])[0] == '-';
            if j < n - 1 {
                assert(b[j] == body[j]);
            }
        }
        if sp.cur->0.has_removed_lines && !s0.cur->0.has_removed_lines {
            let j = choose|j: int| 0 <= j < b.len() && (#[trigger] b[j])[0] == '-';
            assert(body[j] == b[j]);
        }
    }
}

fn mode_line_exec(c: &mut FileDiff, l: &[char])
    requires
        has_prefix(l@, "new file mode "@) || has_prefix(l@, "old mode "@) || has_prefix(l@, "new mode "@),
    ensures
        diff_view(*final(c)) == mode_line(diff_view(*old(c)), l@),
{
    proof {
        reveal_strlit("new file mode ");
        reveal_strlit("old mode ");
        reveal_strlit("new mode ");
    }
    let nf = starts_with_str(l, "new file mode ");
    if nf {
        c.is_new = true;
    }
    let rest = if nf {
        crate::text::slice_chars(l, 14, l.len())
    } else {
        crate::text::slice_chars(l, 9, l.len())
    };
    let m = trim(&rest);
    if chars_eq_str(&m, "160000") {
        c.is_submodule = true;
    } else if chars_eq_str(&m, "120000") {
        c.is_symlink = true;
    }
}

fn is_metadata_line(l: &[char]) -> (r: bool)
    ensures
        r == metadata_line(l@),
{
    starts_with_str(l, "--- ") || starts_with_str(l, "index ") || starts_with_str(l, "new file")
        || starts_with_str(l, "deleted file") || starts_with_str(l, "rename from") || starts_with_str(
        l,
        "rename to",
    ) || starts_with_str(l, "Binary ")
}

fn fresh_file_diff(path: &[char]) -> (r: FileDiff)
    ensures
        diff_view(r) == fresh_diff(path@),
{
    FileDiff {
        path: string_of(path),
        added_lines: HashSet::new(),
        is_deleted: false,
        is_new: false,
        has_removed_lines: false,
        is_submodule: false,
        is_symlink: false,
    }
}

/// The files of a unified diff (see `parse_diff_spec`).
pub fn parse_diff(diff: &str) -> (r: Vec<FileDiff>)
    ensures
        diffs_view(r@) == parse_diff_spec(diff@),
{
    let cs = chars_of(diff);
    let lines = crate::text::split(&cs, '\n');
    let ghost ls = lines@.map_values(|v: Vec<char>| v@);
    let mut result: Vec<FileDiff> = Vec::new();
    let mut cur = fresh_file_diff(&[]);
    let mut have = false;
    let mut line_no: i64 = 0;
    let mut k: usize = 0;
    proof {
        assert(diffs_view(result@) =~= Seq::<DiffView>::empty());
        assert(ls.take(0) =~= Seq::<Seq<char>>::empty());
        reveal_strlit("diff --git ");
        reveal_strlit("+++ ");
    }
    while k < lines.len()
        invariant
            k <= lines@.len(),
            ls == lines@.map_values(|v: Vec<char>| v@),
            ls == split_seq(diff@, '\n'),
            diff_scan(ls.take(k as int)) == (DiffScan {
                cur: if have {
                    Some(diff_view(cur))
                } else {
                    None
                },
                line: line_no,
                done: diffs_view(result@),
            }),
        decreases lines.len() - k,
    {
        let l = &lines[k];
        proof {
            assert(ls.take(k + 1).drop_last() =~= ls.take(k as int));
            assert(ls.take(k + 1).last() == l@);
            reveal_strlit("diff --git ");
            reveal_strlit("+++ b/");
            reveal_strlit("+++ \"b/");
        }
        if starts_with_str(l, "diff --git ") {
            if have {
                let ghost before = diffs_view(result@);
                result.push(cur);
                assert(diffs_view(result@) =~= before.push(diff_view(result@.last())));
            }
            let rest = crate::text::slice_chars(l, 11, l.len());
            cur = fresh_file_diff(&git_new_path_exec(&rest));
            have = true;
            line_no = 0;
        } else if have {
            if starts_with_str(l, "+++ b/") || starts_with_str(l, "+++ \"b/") {
                let after = string_of(&crate::text::slice_chars(l, 4, l.len()));
                let unq = unquote_git_path(after.as_str());
                cur.path = string_of(&strip_b_exec(&chars_of(unq.as_str())));
            } else if chars_eq_str(l, "+++ /dev/null") {
                cur.is_deleted = true;
            } else if starts_with_str(l, "new file mode ") || starts_with_str(l, "old mode ")
                || starts_with_str(l, "new mode ") {
                mode_line_exec(&mut cur, l);
            } else if is_metadata_line(l) {
            } else if starts_with_str(l, "@@") {
                line_no = parse_hunk_header(l);
            } else if starts_with_str(l, "+") {
                cur.added_lines.insert(line_no);
                line_no = if line_no == i64::MAX {
                    i64::MIN
                } else {
                    line_no + 1
                };
            } else if starts_with_str(l, "-") {
                cur.has_removed_lines = true;
            } else if starts_with_str(l, " ") {
                line_no = if line_no == i64::MAX {
                    i64::MIN
                } else {
                    line_no + 1
                };
            }
        }
        k += 1;
    }
    proof {
        assert(ls.take(lines@.len() as int) =~= ls);
    }
    if have {
        let ghost before = diffs_view(result@);
        result.push(cur);
        assert(diffs_view(result@) =~= before.push(diff_view(result@.last())));
    }
    result
}


// ---------------------------------------------------------------------------
// Extensions and path lists.
// ---------------------------------------------------------------------------

/// A file name's extension: from its last `.` to the end (nothing without a `.`).
pub open spec fn name_ext(base: Seq<char>) -> Seq<char> {
    match crate::text::rfind_char_spec(base, '.') {
        Some(i) => base.skip(i),
        None => Seq::empty(),
    }
}

/// Whether a file name has the extension `e`, compared ignoring ASCII case; the special
/// extension `dockerfile` matches Dockerfile names instead.
pub open spec fn ext_matches(base: Seq<char>, e: Seq<char>) -> bool {
    if e == "dockerfile"@ {
        let l = lowercase(base);
        l == "dockerfile"@ || has_prefix(l, "dockerfile."@) || crate::text::has_suffix(l, ".dockerfile"@)
    } else {
        crate::text::eq_ascii_ci(name_ext(base), e)
    }
}

/// Whether the path's file name has one of the extensions.
pub open spec fn has_extension_spec(path: Seq<char>, exts: Seq<Seq<char>>) -> bool {
    let base = match file_name_spec(path) {
        Some(b) => b,
        None => Seq::empty(),
    };
    exists|k: int| 0 <= k < exts.len() && ext_matches(base, #[trigger] exts[k])
}

/// Whether the path has one of the extensions (see `has_extension_spec`).
pub fn has_extension(path: &str, extensions: &[String]) -> (r: bool)
    ensures
        r == has_extension_spec(path@, extensions@.map_values(|e: String| e@)),
{
    let ghost ev = extensions@.map_values(|e: String| e@);
    let pc = chars_of(path);
    let base = match file_name(&pc) {
        Some(b) => b,
        None => Vec::new(),
    };
    assert(file_name_spec(path@) is None ==> base@ =~= Seq::<char>::empty());
    let lower = crate::text::lower_chars(&base);
    let ext = match crate::text::rfind_char(&base, '.') {
        Some(i) => {
            proof {
                crate::pathutil::lemma_rfind_bounds(base@, '.');
            }
            crate::text::slice_chars(&base, i, base.len())
        },
        None => Vec::new(),
    };
    assert(ext@ =~= name_ext(base@));
    let docker = chars_eq_str(&lower, "dockerfile") || starts_with_str(&lower, "dockerfile.")
        || crate::text::ends_with(&lower, &chars_of(".dockerfile"));
    let mut k: usize = 0;
    while k < extensions.len()
        invariant
            k <= extensions@.len(),
            ev == extensions@.map_values(|e: String| e@),
            ext@ == name_ext(base@),
            lower@ == lowercase(base@),
            base@ == (match file_name_spec(path@) {
                Some(b) => b,
                None => Seq::<char>::empty(),
            }),
            docker == (lower@ == "dockerfile"@ || has_prefix(lower@, "dockerfile."@) || crate::text::has_suffix(
                lower@,
                ".dockerfile"@,
            )),
            forall|j: int| 0 <= j < k ==> !ext_matches(base@, #[trigger] ev[j]),
        decreases extensions.len() - k,
    {
        let e = extensions[k].as_str();
        assert(ev[k as int] == e@);
        if str_eq(e, "dockerfile") {
            if docker {
                assert(ext_matches(base@, ev[k as int]));
                return true;
            }
        } else if crate::text::eq_ignore_ascii_case(&ext, &chars_of(e)) {
            assert(ext_matches(base@, ev[k as int]));
            return true;
        }
        k += 1;
    }
    false
}

/// The pieces of NUL-separated text, trailing NULs dropped; none for text of NULs alone.
pub open spec fn null_separated_text(text: Seq<char>) -> Seq<Seq<char>> {
    let t = trim_end_set(text, seq!['\0']);
    if t.len() == 0 {
        Seq::empty()
    } else {
        split_seq(t, '\0')
    }
}

/// The paths in NUL-separated `git -z` output (decoded as UTF-8, trailing NULs dropped).
pub open spec fn null_separated_spec(out: Seq<u8>) -> Seq<Seq<char>> {
    null_separated_text(utf8_lossy(out))
}

/// The paths in NUL-separated output (see `null_separated_spec`).
pub fn split_null_separated(out: &[u8]) -> (r: Vec<String>)
    ensures
        r@.map_values(|s: String| s@) == null_separated_spec(out@),
        vstd::utf8::valid_utf8(out@) ==> r@.map_values(|s: String| s@) == null_separated_text(
            vstd::utf8::decode_utf8(out@),
        ),
{
    let s = crate::text::from_utf8_lossy(out);
    let cs = chars_of(s.as_str());
    let nul = ['\0'];
    assert(nul@ == seq!['\0']);
    let t = crate::text::trim_end_matches(&cs, &nul);
    let mut r: Vec<String> = Vec::new();
    if t.len() == 0 {
        assert(r@.map_values(|s: String| s@) =~= Seq::<Seq<char>>::empty());
        return r;
    }
    let parts = crate::text::split(&t, '\0');
    let ghost pv = parts@.map_values(|v: Vec<char>| v@);
    let mut i: usize = 0;
    while i < parts.len()
        invariant
            i <= parts@.len(),
            pv == parts@.map_values(|v: Vec<char>| v@),
            r@.map_values(|s: String| s@) == pv.take(i as int),
            r@.len() == i,
        decreases parts.len() - i,
    {
        let ghost prev = r@;
        let x = string_of(&parts[i]);
        r.push(x);
        assert(r@ == prev.push(x));
        assert(pv[i as int] == parts@[i as int]@);
        assert(pv.take(i + 1) =~= pv.take(i as int).push(pv[i as int]));
        assert(r@.map_values(|s: String| s@) =~= prev.map_values(|s: String| s@).push(x@));
        i += 1;
    }
    assert(pv.take(parts@.len() as int) =~= pv);
    r
}

proof fn lemma_scan_plain(s: Seq<char>, sep: char, i: int, j: int, cur: Seq<char>, acc: Seq<Seq<char>>)
    requires
        0 <= i <= j <= s.len(),
        forall|k: int| i <= k < j ==> s[k] != sep,
    ensures
        split_go(s, sep, i, cur, acc) == split_go(s, sep, j, cur + s.subrange(i, j), acc),
    decreases j - i,
{
    if i < j {
        lemma_scan_plain(s, sep, i + 1, j, cur.push(s[i]), acc);
        assert(cur.push(s[i]) + s.subrange(i + 1, j) =~= cur + s.subrange(i, j));
    } else {
        assert(cur + s.subrange(i, j) =~= cur);
    }
}

proof fn lemma_join_first(v: Seq<Seq<char>>, sep: Seq<char>)
    requires
        v.len() >= 2,
    ensures
        join_seq(v, sep) == v[0] + sep + join_seq(v.drop_first(), sep),
    decreases v.len(),
{
    if v.len() > 2 {
        lemma_join_first(v.drop_last(), sep);
        assert(v.drop_last().drop_first() =~= v.drop_first().drop_last());
        assert(v.drop_first().last() == v.last());
        assert(v.drop_last()[0] == v[0]);
        let m = join_seq(v.drop_last().drop_first(), sep);
        assert(join_seq(v.drop_first(), sep) == m + sep + v.last());
        assert(join_seq(v, sep) == (v[0] + sep + m) + sep + v.last());
        assert((v[0] + sep + m) + sep + v.last() =~= v[0] + sep + (m + sep + v.last()));
    } else {
        assert(v.drop_first().len() == 1);
        assert(v.drop_last().len() == 1);
        assert(v.drop_first()[0] == v[1]);
        assert(v.drop_last()[0] == v[0]);
        assert(join_seq(v.drop_first(), sep) == v[1]);
        assert(join_seq(v.drop_last(), sep) == v[0]);
    }
}

proof fn lemma_join_no_sep(v: Seq<Seq<char>>, sep: char)
    requires
        forall|k: int| 0 <= k < v.len() ==> !(#[trigger] v[k]).contains(sep),
        v.len() >= 1,
    ensures
        v.len() == 1 ==> !join_seq(v, seq![sep]).contains(sep),
        v.len() >= 1 ==> join_seq(v, seq![sep]).len() >= v.last().len(),
        v.len() >= 1 ==> join_seq(v, seq![sep]).subrange(
            join_seq(v, seq![sep]).len() - v.last().len(),
            join_seq(v, seq![sep]).len() as int,
        ) == v.last(),
    decreases v.len(),
{
    if v.len() > 1 {
        lemma_join_no_sep(v.drop_last(), sep);
        let a = join_seq(v.drop_last(), seq![sep]) + seq![sep];
        assert((a + v.last()).subrange(a.len() as int, (a + v.last()).len() as int) =~= v.last());
    } else {
        assert(!v[0].contains(sep));
    }
}

proof fn lemma_split_join(s: Seq<char>, sep: char, i: int, w: Seq<Seq<char>>, acc: Seq<Seq<char>>)
    requires
        0 <= i <= s.len(),
        w.len() >= 1,
        forall|k: int| 0 <= k < w.len() ==> !(#[trigger] w[k]).contains(sep),
        s.subrange(i, s.len() as int) == join_seq(w, seq![sep]),
    ensures
        split_go(s, sep, i, Seq::empty(), acc) == acc + w,
    decreases w.len(),
{
    if w.len() == 1 {
        let t = s.subrange(i, s.len() as int);
        assert(t == w[0]);
        assert forall|k: int| i <= k < s.len() implies s[k] != sep by {
            assert(t[k - i] == s[k]);
            assert(!w[0].contains(sep));
        }
        lemma_scan_plain(s, sep, i, s.len() as int, Seq::empty(), acc);
        assert(Seq::<char>::empty() + t =~= w[0]);
        assert(acc.push(w[0]) =~= acc + w);
    } else {
        lemma_join_first(w, seq![sep]);
        let w0 = w[0];
        let j = i + w0.len();
        let rest = join_seq(w.drop_first(), seq![sep]);
        let t = s.subrange(i, s.len() as int);
        assert(t == w0 + seq![sep] + rest);
        assert forall|k: int| i <= k < j implies s[k] != sep by {
            assert(t[k - i] == s[k]);
            assert(t[k - i] == w0[k - i]);
            assert(!w0.contains(sep));
        }
        lemma_scan_plain(s, sep, i, j, Seq::empty(), acc);
        assert(s.subrange(i, j) =~= w0) by {
            assert forall|k: int| 0 <= k < w0.len() implies s.subrange(i, j)[k] == w0[k] by {
                assert(t[k] == s[i + k]);
            }
        }
        assert(Seq::<char>::empty() + s.subrange(i, j) =~= w0);
        assert(s[j] == sep) by {
            assert(t[w0.len() as int] == s[j]);
        }
        assert(s.subrange(j + 1, s.len() as int) =~= rest) by {
            assert forall|k: int| 0 <= k < rest.len() implies s.subrange(j + 1, s.len() as int)[k] == rest[k] by {
                assert(t[w0.len() + 1 + k] == s[j + 1 + k]);
            }
        }
        assert forall|k: int| 0 <= k < w.drop_first().len() implies !(#[trigger] w.drop_first()[k]).contains(sep) by {
            assert(w.drop_first()[k] == w[k + 1]);
        }
        lemma_split_join(s, sep, j + 1, w.drop_first(), acc.push(w0));
        assert(acc.push(w0) + w.drop_first() =~= acc + w);
    }
}

/// Joining paths with NULs, with or without a final NUL, and splitting the output again
/// gives the paths back, when none holds a NUL and the last is not empty; output of NULs
/// alone, or none, gives no path.
pub proof fn law_null_separated_round_trip(v: Seq<Seq<char>>)
    requires
        v.len() >= 1,
        forall|k: int| 0 <= k < v.len() ==> !(#[trigger] v[k]).contains('\0'),
        v.last().len() > 0,
    ensures
        null_separated_text(join_seq(v, seq!['\0'])) == v,
        null_separated_text(join_seq(v, seq!['\0']) + seq!['\0']) == v,
        null_separated_text(Seq::empty()) == Seq::<Seq<char>>::empty(),
{
    let j = join_seq(v, seq!['\0']);
    lemma_join_no_sep(v, '\0');
    let n = j.len() as int;
    assert(j[n - 1] == v.last()[v.last().len() - 1]) by {
        assert(j.subrange(n - v.last().len(), n)[v.last().len() - 1] == j[n - 1]);
    }
    assert(!v.last().contains('\0'));
    assert(j[n - 1] != '\0');
    assert(!seq!['\0'].contains(j[n - 1]));
    assert(end_not_in(j, seq!['\0'], n) == n);
    assert(j.take(n) =~= j);
    let j2 = j + seq!['\0'];
    assert(seq!['\0'].contains(j2[n])) by {
        assert(seq!['\0'][0] == '\0');
    }
    assert(j2[n - 1] == j[n - 1]);
    assert(end_not_in(j2, seq!['\0'], n + 1) == end_not_in(j2, seq!['\0'], n));
    assert(end_not_in(j2, seq!['\0'], n) == n);
    assert(j2.take(n) =~= j);
    assert(j.subrange(0, n) =~= j);
    lemma_split_join(j, '\0', 0, v, Seq::empty());
    assert(Seq::<Seq<char>>::empty() + v =~= v);
    let e = Seq::<char>::empty();
    assert(end_not_in(e, seq!['\0'], 0) == 0);
    assert(e.take(0) =~= e);
}

// ---------------------------------------------------------------------------
// File contents at a revision.
// ---------------------------------------------------------------------------

/// Where the content of a file at a reference comes from.
#[derive(Debug, Clone, Copy, PartialEq, Eq, Structural)]
pub enum ContentSource {
    /// The index (`""`, `index`, `staged`): `git show :<path>`.
    Index,
    /// The working tree (`worktree`, `wt`, `working-tree`): the file itself.
    WorkTree,
    /// A commit: `git show <ref>:<path>`.
    Commit,
}

pub open spec fn content_source_spec(reference: Seq<char>) -> ContentSource {
    if reference.len() == 0 || reference == "index"@ || reference == "staged"@ {
        ContentSource::Index
    } else if reference == REF_WORKTREE@ || reference == "wt"@ || reference == "working-tree"@ {
        ContentSource::WorkTree
    } else {
        ContentSource::Commit
    }
}

/// Where the content of a file at a reference comes from (see `content_source_spec`).
pub fn content_source(reference: &str) -> (r: ContentSource)
    ensures
        r == content_source_spec(reference@),
{
    if crate::text::is_empty_str(reference) || str_eq(reference, "index") || str_eq(reference, "staged") {
        ContentSource::Index
    } else if str_eq(reference, REF_WORKTREE) || str_eq(reference, "wt") || str_eq(reference, "working-tree") {
        ContentSource::WorkTree
    } else {
        ContentSource::Commit
    }
}

/// The object `git show` is asked for: `:<path>` from the index, `<ref>:<path>` from a commit.
pub open spec fn show_object_spec(reference: Seq<char>, path: Seq<char>) -> Seq<char> {
    if content_source_spec(reference) == ContentSource::Index {
        ":"@ + path
    } else {
        reference + ":"@ + path
    }
}

/// The object `git show` is asked for (see `show_object_spec`).
pub fn show_object(reference: &str, path: &str) -> (r: String)
    ensures
        r@ == show_object_spec(reference@, path@),
{
    let mut v: Vec<char> = Vec::new();
    if content_source(reference) != ContentSource::Index {
        v = chars_of(reference);
    }
    v.push(':');
    crate::text::extend_chars(&mut v, &chars_of(path));
    proof {
        reveal_strlit(":");
    }
    assert(v@ =~= show_object_spec(reference@, path@));
    string_of(&v)
}

/// The key of a cached content: the working directory, the reference and the path, joined
/// by NUL characters.
pub open spec fn content_key_spec(cwd: Seq<char>, reference: Seq<char>, path: Seq<char>) -> Seq<char> {
    cwd + seq!['\0'] + reference + seq!['\0'] + path
}

/// The key of a cached content (see `content_key_spec`).
pub fn content_cache_key(cwd: &str, reference: &str, path: &str) -> (r: String)
    ensures
        r@ == content_key_spec(cwd@, reference@, path@),
{
    let mut v = chars_of(cwd);
    v.push('\0');
    crate::text::extend_chars(&mut v, &chars_of(reference));
    v.push('\0');
    crate::text::extend_chars(&mut v, &chars_of(path));
    assert(v@ =~= content_key_spec(cwd@, reference@, path@));
    string_of(&v)
}

/// Contents already read, by key; a later entry for a key replaces an earlier one.
pub struct ContentCache {
    entries: Vec<(String, String)>,
}

/// The content stored under `k` among `es`: the last entry with that key.
pub open spec fn cached_value(es: Seq<(Seq<char>, Seq<char>)>, k: Seq<char>) -> Option<Seq<char>>
    decreases es.len(),
{
    if es.len() == 0 {
        None
    } else if es.last().0 == k {
        Some(es.last().1)
    } else {
        cached_value(es.drop_last(), k)
    }
}

impl ContentCache {
    /// The stored pairs, oldest first.
    pub closed spec fn pairs(&self) -> Seq<(Seq<char>, Seq<char>)> {
        self.entries@.map_values(|e: (String, String)| (e.0@, e.1@))
    }

    /// The content stored under a key.
    pub open spec fn value_of(&self, k: Seq<char>) -> Option<Seq<char>> {
        cached_value(self.pairs(), k)
    }

    /// An empty cache.
    pub fn new() -> (r: ContentCache)
        ensures
            r.pairs() == Seq::<(Seq<char>, Seq<char>)>::empty(),
            forall|k: Seq<char>| #[trigger] r.value_of(k) is None,
    {
        let r = ContentCache { entries: Vec::new() };
        assert(r.pairs() =~= Seq::<(Seq<char>, Seq<char>)>::empty());
        r
    }

    /// The content stored under `key`.
    pub fn get(&self, key: &str) -> (r: Option<String>)
        ensures
            match (r, self.value_of(key@)) {
                (Some(v), Some(w)) => v@ == w,
                (None, None) => true,
                _ => false,
            },
    {
        let ghost ps = self.pairs();
        let mut j: usize = self.entries.len();
        assert(ps.take(j as int) =~= ps);
        while j > 0
            invariant
                j <= self.entries@.len(),
                ps == self.pairs(),
                cached_value(ps.take(j as int), key@) == cached_value(ps, key@),
            decreases j,
        {
            assert(ps.take(j as int).drop_last() =~= ps.take(j - 1));
            assert(ps.take(j as int).last() == (self.entries@[j - 1].0@, self.entries@[j - 1].1@));
            if str_eq(self.entries[j - 1].0.as_str(), key) {
                return Some(self.entries[j - 1].1.clone());
            }
            j -= 1;
        }
        assert(ps.take(0) =~= Seq::<(Seq<char>, Seq<char>)>::empty());
        None
    }

    /// Stores `value` under `key`.
    pub fn insert(&mut self, key: String, value: String)
        ensures
            final(self).value_of(key@) == Some(value@),
            forall|k: Seq<char>| k != key@ ==> #[trigger] final(self).value_of(k) == old(self).value_of(k),
    {
        let ghost p0 = self.pairs();
        let ghost kv = (key@, value@);
        self.entries.push((key, value));
        assert(self.pairs() =~= p0.push(kv));
        assert(self.pairs().drop_last() =~= p0);
    }

    /// Forgets every stored content.
    pub fn reset(&mut self)
        ensures
            forall|k: Seq<char>| #[trigger] final(self).value_of(k) is None,
    {
        self.entries = Vec::new();
        assert(self.pairs() =~= Seq::<(Seq<char>, Seq<char>)>::empty());
    }
}

} // verus!
