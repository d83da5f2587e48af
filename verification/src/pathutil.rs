//! Glob path matching: `filepath.Match`-style single-segment globs (`*` never crosses `/`,
//! `?`, `[...]` classes, `\` escapes) with `**` doublestar segments layered on top.

use vstd::prelude::*;
use crate::text::{
    chars_of, rfind_char, rfind_char_spec, slice_chars, trim_end_matches, trim_end_set,
};

verus! {

// ---------------------------------------------------------------------------
// Pattern scanning.
// ---------------------------------------------------------------------------

/// First index at or after `i` that is not a `*`.
pub open spec fn skip_stars(p: Seq<char>, i: int) -> int
    decreases p.len() - i,
{
    if 0 <= i < p.len() && p[i] == '*' {
        skip_stars(p, i + 1)
    } else {
        i
    }
}

/// End of the star-free chunk starting at `i`: the next `*` outside a `[...]` class
/// (a `\` protects the character after it).
pub open spec fn chunk_end(p: Seq<char>, i: int, in_range: bool) -> int
    decreases p.len() - i,
{
    if i < 0 || i >= p.len() {
        p.len() as int
    } else if p[i] == '\\' {
        if i + 1 < p.len() {
            chunk_end(p, i + 2, in_range)
        } else {
            chunk_end(p, i + 1, in_range)
        }
    } else if p[i] == '[' {
        chunk_end(p, i + 1, true)
    } else if p[i] == ']' {
        chunk_end(p, i + 1, false)
    } else if p[i] == '*' && !in_range {
        i
    } else {
        chunk_end(p, i + 1, in_range)
    }
}

/// One (possibly escaped) character of a class in `p[ci..ce]`, with the index after it.
pub open spec fn get_esc(p: Seq<char>, ci: int, ce: int) -> Option<(char, int)> {
    if ci >= ce || ci < 0 || ce > p.len() || p[ci] == '-' || p[ci] == ']' {
        None
    } else if p[ci] == '\\' {
        if ci + 1 >= ce {
            None
        } else {
            Some((p[ci + 1], ci + 2))
        }
    } else {
        Some((p[ci], ci + 1))
    }
}

/// Scans the ranges of a character class in `p[ci..ce]` against `r`; `None` for a malformed
/// class, otherwise whether some range holds `r` and the index after the closing `]`.
pub open spec fn class_match(p: Seq<char>, ci: int, ce: int, r: char, matched: bool, nrange: int) -> Option<
    (bool, int),
>
    decreases ce - ci,
{
    if 0 <= ci < ce && ce <= p.len() && p[ci] == ']' && nrange > 0 {
        Some((matched, ci + 1))
    } else {
        match get_esc(p, ci, ce) {
            None => None,
            Some((lo, c1)) => {
                if c1 < ce && p[c1] == '-' {
                    match get_esc(p, c1 + 1, ce) {
                        None => None,
                        Some((hi, c2)) => class_match(
                            p,
                            c2,
                            ce,
                            r,
                            matched || (lo <= r && r <= hi),
                            nrange + 1,
                        ),
                    }
                } else {
                    class_match(p, c1, ce, r, matched || (lo <= r && r <= lo), nrange + 1)
                }
            },
        }
    }
}

/// Matches the chunk `p[ci..ce]` against the start of `n[ni..]`. `None` for a malformed
/// chunk; otherwise the index in `n` after the consumed characters and whether the chunk matched.
pub open spec fn chunk_match(p: Seq<char>, ci: int, ce: int, n: Seq<char>, ni: int, failed: bool) -> Option<
    (int, bool),
>
    decreases ce - ci,
{
    if ci >= ce || ci < 0 || ce > p.len() {
        Some((ni, !failed))
    } else {
        let f1 = failed || ni >= n.len() || ni < 0;
        if p[ci] == '[' {
            let r = if !f1 {
                n[ni]
            } else {
                '\0'
            };
            let n2 = if !f1 {
                ni + 1
            } else {
                ni
            };
            let neg = ci + 1 < ce && p[ci + 1] == '^';
            let c2 = if neg {
                ci + 2
            } else {
                ci + 1
            };
            match class_match(p, c2, ce, r, false, 0) {
                None => None,
                Some((m, c3)) => if ci < c3 <= ce {
                    chunk_match(p, c3, ce, n, n2, f1 || m == neg)
                } else {
                    None
                },
            }
        } else if p[ci] == '?' {
            if !f1 {
                if n[ni] == '/' {
                    chunk_match(p, ci + 1, ce, n, ni, true)
                } else {
                    chunk_match(p, ci + 1, ce, n, ni + 1, false)
                }
            } else {
                chunk_match(p, ci + 1, ce, n, ni, true)
            }
        } else if p[ci] == '\\' {
            if ci + 1 >= ce {
                None
            } else if !f1 {
                if p[ci + 1] != n[ni] {
                    chunk_match(p, ci + 2, ce, n, ni, true)
                } else {
                    chunk_match(p, ci + 2, ce, n, ni + 1, false)
                }
            } else {
                chunk_match(p, ci + 2, ce, n, ni, true)
            }
        } else {
            if !f1 {
                if p[ci] != n[ni] {
                    chunk_match(p, ci + 1, ce, n, ni, true)
                } else {
                    chunk_match(p, ci + 1, ce, n, ni + 1, false)
                }
            } else {
                chunk_match(p, ci + 1, ce, n, ni, true)
            }
        }
    }
}

/// After a `*`, tries the chunk `p[a..ce]` at successive positions `i + 1` of `n` while the
/// skipped characters are not `/`. `None` for a malformed chunk, `Some(None)` when no position
/// works, `Some(Some(t))` with the index after the match otherwise.
pub open spec fn star_find(p: Seq<char>, a: int, ce: int, n: Seq<char>, i: int) -> Option<Option<int>>
    decreases n.len() - i,
{
    if 0 <= i < n.len() && n[i] != '/' {
        match chunk_match(p, a, ce, n, i + 1, false) {
            None => None,
            Some((t, true)) => if ce >= p.len() && t < n.len() {
                star_find(p, a, ce, n, i + 1)
            } else {
                Some(Some(t))
            },
            Some((_, false)) => star_find(p, a, ce, n, i + 1),
        }
    } else {
        Some(None)
    }
}

pub open spec fn no_slash_from(n: Seq<char>, ni: int) -> bool {
    forall|k: int| ni <= k < n.len() ==> n[k] != '/'
}

pub proof fn lemma_chunk_end_bounds(p: Seq<char>, i: int, in_range: bool)
    requires
        0 <= i <= p.len(),
    ensures
        i <= chunk_end(p, i, in_range) <= p.len(),
        i < p.len() && (p[i] != '*' || in_range) ==> chunk_end(p, i, in_range) > i,
    decreases p.len() - i,
{
    if i < p.len() {
        if p[i] == '\\' {
            if i + 1 < p.len() {
                lemma_chunk_end_bounds(p, i + 2, in_range);
            } else {
                lemma_chunk_end_bounds(p, i + 1, in_range);
            }
        } else if p[i] == '[' {
            lemma_chunk_end_bounds(p, i + 1, true);
        } else if p[i] == ']' {
            lemma_chunk_end_bounds(p, i + 1, false);
        } else if p[i] == '*' && !in_range {
        } else {
            lemma_chunk_end_bounds(p, i + 1, in_range);
        }
    }
}

pub proof fn lemma_skip_stars_bounds(p: Seq<char>, i: int)
    requires
        0 <= i <= p.len(),
    ensures
        i <= skip_stars(p, i) <= p.len(),
        skip_stars(p, i) < p.len() ==> p[skip_stars(p, i)] != '*',
    decreases p.len() - i,
{
    if i < p.len() && p[i] == '*' {
        lemma_skip_stars_bounds(p, i + 1);
    }
}

/// `filepath.Match(pattern, name)` semantics on `p[pi..]` against `n[ni..]`; a malformed pattern
/// (reached during matching) does not match.
pub open spec fn glob_from(p: Seq<char>, pi: int, n: Seq<char>, ni: int) -> bool
    decreases p.len() - pi,
{
    if pi < 0 || pi >= p.len() {
        ni >= n.len()
    } else {
        let a = skip_stars(p, pi);
        let star = a > pi;
        let ce = chunk_end(p, a, false);
        if ce <= pi || ce > p.len() || a > p.len() {
            false
        } else if star && a == ce {
            no_slash_from(n, ni)
        } else {
            match chunk_match(p, a, ce, n, ni, false) {
                None => false,
                Some((t, m)) => if m && (t >= n.len() || ce < p.len()) {
                    glob_from(p, ce, n, t)
                } else if star {
                    match star_find(p, a, ce, n, ni) {
                        Some(Some(t2)) => glob_from(p, ce, n, t2),
                        _ => false,
                    }
                } else {
                    false
                },
            }
        }
    }
}

/// Whether glob pattern `p` matches all of `n`.
pub open spec fn glob_match(p: Seq<char>, n: Seq<char>) -> bool {
    glob_from(p, 0, n, 0)
}

// ---------------------------------------------------------------------------
// Executable matcher.
// ---------------------------------------------------------------------------

fn skip_stars_exec(p: &[char], i: usize) -> (r: usize)
    requires
        i <= p@.len(),
    ensures
        r == skip_stars(p@, i as int),
{
    let mut j = i;
    while j < p.len() && p[j] == '*'
        invariant
            i <= j <= p@.len(),
            skip_stars(p@, j as int) == skip_stars(p@, i as int),
        decreases p.len() - j,
    {
        j += 1;
    }
    j
}

fn chunk_end_exec(p: &[char], i: usize) -> (r: usize)
    requires
        i <= p@.len(),
    ensures
        r == chunk_end(p@, i as int, false),
{
    let mut j = i;
    let mut in_range = false;
    while j < p.len()
        invariant
            i <= j <= p@.len(),
            chunk_end(p@, j as int, in_range) == chunk_end(p@, i as int, false),
        decreases p.len() - j,
    {
        let c = p[j];
        if c == '\\' {
            if j + 1 < p.len() {
                j += 2;
            } else {
                j += 1;
            }
        } else if c == '[' {
            in_range = true;
            j += 1;
        } else if c == ']' {
            in_range = false;
            j += 1;
        } else if c == '*' && !in_range {
            return j;
        } else {
            j += 1;
        }
    }
    j
}

fn get_esc_exec(p: &[char], ci: usize, ce: usize) -> (r: Option<(char, usize)>)
    requires
        ce <= p@.len(),
    ensures
        r matches Some((c, k)) ==> get_esc(p@, ci as int, ce as int) == Some((c, k as int)),
        r is None ==> get_esc(p@, ci as int, ce as int) is None,
{
    if ci >= ce || p[ci] == '-' || p[ci] == ']' {
        None
    } else if p[ci] == '\\' {
        if ci + 1 >= ce {
            None
        } else {
            Some((p[ci + 1], ci + 2))
        }
    } else {
        Some((p[ci], ci + 1))
    }
}

fn class_match_exec(p: &[char], ci: usize, ce: usize, r: char) -> (res: Option<(bool, usize)>)
    requires
        ci <= ce <= p@.len(),
    ensures
        res matches Some((m, k)) ==> class_match(p@, ci as int, ce as int, r, false, 0) == Some(
            (m, k as int),
        ),
        res is None ==> class_match(p@, ci as int, ce as int, r, false, 0) is None,
        res matches Some((m, k)) ==> ci < k <= ce,
{
    let mut c = ci;
    let mut matched = false;
    let mut nrange: usize = 0;
    loop
        invariant
            ci <= c <= ce <= p@.len(),
            nrange <= c - ci,
            class_match(p@, c as int, ce as int, r, matched, nrange as int) == class_match(
                p@,
                ci as int,
                ce as int,
                r,
                false,
                0,
            ),
        decreases ce - c,
    {
        if c < ce && p[c] == ']' && nrange > 0 {
            return Some((matched, c + 1));
        }
        match get_esc_exec(p, c, ce) {
            None => {
                return None;
            },
            Some((lo, c1)) => {
                if c1 < ce && p[c1] == '-' {
                    match get_esc_exec(p, c1 + 1, ce) {
                        None => {
                            return None;
                        },
                        Some((hi, c2)) => {
                            matched = matched || (lo <= r && r <= hi);
                            c = c2;
                        },
                    }
                } else {
                    matched = matched || (lo <= r && r <= lo);
                    c = c1;
                }
                nrange += 1;
            },
        }
    }
}

fn chunk_match_exec(p: &[char], ci: usize, ce: usize, n: &[char], ni: usize) -> (res: Option<
    (usize, bool),
>)
    requires
        ci <= ce <= p@.len(),
        ni <= n@.len(),
    ensures
        res matches Some((t, m)) ==> chunk_match(p@, ci as int, ce as int, n@, ni as int, false)
            == Some((t as int, m)) && t <= n@.len(),
        res is None ==> chunk_match(p@, ci as int, ce as int, n@, ni as int, false) is None,
{
    let mut c = ci;
    let mut s = ni;
    let mut failed = false;
    while c < ce
        invariant
            ci <= c <= ce <= p@.len(),
            ni <= s <= n@.len(),
            chunk_match(p@, c as int, ce as int, n@, s as int, failed) == chunk_match(
                p@,
                ci as int,
                ce as int,
                n@,
                ni as int,
                false,
            ),
        decreases ce - c,
    {
        if !failed && s >= n.len() {
            failed = true;
        }
        let ch = p[c];
        if ch == '[' {
            let mut r: char = '\0';
            let mut s2 = s;
            if !failed {
                r = n[s];
                s2 = s + 1;
            }
            let neg = c + 1 < ce && p[c + 1] == '^';
            let c2 = if neg {
                c + 2
            } else {
                c + 1
            };
            match class_match_exec(p, c2, ce, r) {
                None => {
                    return None;
                },
                Some((m, c3)) => {
                    if c < c3 && c3 <= ce {
                        failed = failed || m == neg;
                        c = c3;
                        s = s2;
                    } else {
                        return None;
                    }
                },
            }
        } else if ch == '?' {
            if !failed {
                if n[s] == '/' {
                    failed = true;
                } else {
                    s += 1;
                }
            }
            c += 1;
        } else if ch == '\\' {
            if c + 1 >= ce {
                return None;
            }
            if !failed {
                if p[c + 1] != n[s] {
                    failed = true;
                } else {
                    s += 1;
                }
            }
            c += 2;
        } else {
            if !failed {
                if ch != n[s] {
                    failed = true;
                } else {
                    s += 1;
                }
            }
            c += 1;
        }
    }
    Some((s, !failed))
}

fn star_find_exec(p: &[char], a: usize, ce: usize, n: &[char], ni: usize) -> (res: Option<
    Option<usize>,
>)
    requires
        a <= ce <= p@.len(),
        ni <= n@.len(),
    ensures
        res matches Some(Some(t)) ==> star_find(p@, a as int, ce as int, n@, ni as int) == Some(
            Some(t as int),
        ) && t <= n@.len(),
        res matches Some(None) ==> star_find(p@, a as int, ce as int, n@, ni as int) == Some(
            None::<int>,
        ),
        res is None ==> star_find(p@, a as int, ce as int, n@, ni as int) is None,
{
    let mut i = ni;
    while i < n.len() && n[i] != '/'
        invariant
            a <= ce <= p@.len(),
            ni <= i <= n@.len(),
            star_find(p@, a as int, ce as int, n@, i as int) == star_find(
                p@,
                a as int,
                ce as int,
                n@,
                ni as int,
            ),
        decreases n.len() - i,
    {
        match chunk_match_exec(p, a, ce, n, i + 1) {
            None => {
                return None;
            },
            Some((t, true)) => {
                if !(ce >= p.len() && t < n.len()) {
                    return Some(Some(t));
                }
            },
            Some((_, false)) => {},
        }
        i += 1;
    }
    Some(None)
}

fn no_slash_exec(n: &[char], ni: usize) -> (r: bool)
    requires
        ni <= n@.len(),
    ensures
        r == no_slash_from(n@, ni as int),
{
    let mut k = ni;
    while k < n.len()
        invariant
            ni <= k <= n@.len(),
            forall|j: int| ni <= j < k ==> n@[j] != '/',
        decreases n.len() - k,
    {
        if n[k] == '/' {
            return false;
        }
        k += 1;
    }
    true
}

/// Whether the glob pattern `p` matches all of `n` (`filepath.Match`; a malformed pattern
/// does not match).
pub fn glob_match_chars(p: &[char], n: &[char]) -> (r: bool)
    ensures
        r == glob_match(p@, n@),
{
    let mut pi: usize = 0;
    let mut ni: usize = 0;
    loop
        invariant
            pi <= p@.len(),
            ni <= n@.len(),
            glob_from(p@, pi as int, n@, ni as int) == glob_match(p@, n@),
        decreases p.len() - pi,
    {
        if pi >= p.len() {
            return ni >= n.len();
        }
        let a = skip_stars_exec(p, pi);
        proof {
            lemma_skip_stars_bounds(p@, pi as int);
        }
        let star = a > pi;
        let ce = chunk_end_exec(p, a);
        proof {
            lemma_chunk_end_bounds(p@, a as int, false);
        }
        if ce <= pi {
            return false;
        }
        if star && a == ce {
            return no_slash_exec(n, ni);
        }
        match chunk_match_exec(p, a, ce, n, ni) {
            None => {
                return false;
            },
            Some((t, m)) => {
                if m && (t >= n.len() || ce < p.len()) {
                    pi = ce;
                    ni = t;
                } else if star {
                    match star_find_exec(p, a, ce, n, ni) {
                        Some(Some(t2)) => {
                            pi = ce;
                            ni = t2;
                        },
                        _ => {
                            return false;
                        },
                    }
                } else {
                    return false;
                }
            },
        }
    }
}

/// `filepath.Match(pattern, name)`: whether the glob `pattern` matches all of `name`.
/// A malformed pattern matches nothing.
pub fn fnmatch(pattern: &str, name: &str) -> (r: bool)
    ensures
        r == glob_match(pattern@, name@),
{
    let p = chars_of(pattern);
    let n = chars_of(name);
    glob_match_chars(&p, &n)
}


// ---------------------------------------------------------------------------
// Base names, segments and doublestar matching.
// ---------------------------------------------------------------------------

/// Last segment of a path: `"."` for the empty path, `"/"` for a path of slashes only,
/// otherwise what follows the last `/` once trailing slashes are removed.
pub open spec fn base_seq(s: Seq<char>) -> Seq<char> {
    if s.len() == 0 {
        seq!['.']
    } else {
        let t = trim_end_set(s, seq!['/']);
        if t.len() == 0 {
            seq!['/']
        } else {
            match rfind_char_spec(t, '/') {
                Some(i) => t.subrange(i + 1, t.len() as int),
                None => t,
            }
        }
    }
}

/// Base name of a path (see `base_seq`).
pub fn base(path: &[char]) -> (r: Vec<char>)
    ensures
        r@ == base_seq(path@),
{
    if path.len() == 0 {
        return vec!['.'];
    }
    let slash = ['/'];
    let t = trim_end_matches(path, &slash);
    assert(slash@ == seq!['/']);
    if t.len() == 0 {
        return vec!['/'];
    }
    match rfind_char(&t, '/') {
        Some(i) => {
            proof {
                lemma_rfind_before_bounds(t@, '/', t@.len() as int);
            }
            slice_chars(&t, i + 1, t.len())
        },
        None => t,
    }
}

proof fn lemma_rfind_before_bounds(s: Seq<char>, c: char, j: int)
    requires
        j <= s.len(),
    ensures
        rfind_before_in(s, c, j),
    decreases j,
{
    if j > 0 && s[j - 1] != c {
        lemma_rfind_before_bounds(s, c, j - 1);
    }
}

spec fn rfind_before_in(s: Seq<char>, c: char, j: int) -> bool {
    match crate::text::rfind_before(s, c, j) {
        Some(i) => 0 <= i < j,
        None => true,
    }
}

/// Non-empty `/`-separated segments of `s[i..]`, given the current segment `cur` and the
/// finished ones `acc`.
pub open spec fn segments_go(s: Seq<char>, i: int, cur: Seq<char>, acc: Seq<Seq<char>>) -> Seq<
    Seq<char>,
>
    decreases s.len() - i,
{
    if i >= s.len() {
        if cur.len() > 0 {
            acc.push(cur)
        } else {
            acc
        }
    } else if s[i] == '/' {
        segments_go(s, i + 1, Seq::empty(), if cur.len() > 0 { acc.push(cur) } else { acc })
    } else {
        segments_go(s, i + 1, cur.push(s[i]), acc)
    }
}

/// The path split on `/` with empty segments removed.
pub open spec fn segments(s: Seq<char>) -> Seq<Seq<char>> {
    segments_go(s, 0, Seq::empty(), Seq::empty())
}

pub open spec fn views(v: Seq<Vec<char>>) -> Seq<Seq<char>> {
    v.map_values(|x: Vec<char>| x@)
}

/// Splits a path on `/` and drops empty segments.
pub fn split_path(p: &[char]) -> (r: Vec<Vec<char>>)
    ensures
        views(r@) == segments(p@),
{
    let mut acc: Vec<Vec<char>> = Vec::new();
    let mut cur: Vec<char> = Vec::new();
    let mut i: usize = 0;
    assert(views(acc@) =~= Seq::<Seq<char>>::empty());
    assert(cur@ =~= Seq::<char>::empty());
    while i < p.len()
        invariant
            i <= p@.len(),
            segments_go(p@, i as int, cur@, views(acc@)) == segments(p@),
        decreases p.len() - i,
    {
        if p[i] == '/' {
            if cur.len() > 0 {
                let piece = cur;
                proof {
                    assert(views(acc@.push(piece)) =~= views(acc@).push(piece@));
                }
                acc.push(piece);
            }
            cur = Vec::new();
            assert(cur@ =~= Seq::<char>::empty());
        } else {
            cur.push(p[i]);
        }
        i += 1;
    }
    if cur.len() > 0 {
        proof {
            assert(views(acc@.push(cur)) =~= views(acc@).push(cur@));
        }
        acc.push(cur);
    }
    acc
}

pub open spec fn is_double_star(s: Seq<char>) -> bool {
    s == seq!['*', '*']
}

/// Whether the segments `path[pi..]` match the pattern segments `pat[qi..]`: a `**` segment
/// takes any number of path segments (zero included), any other segment is a glob that
/// must match exactly one path segment.
pub open spec fn parts_match(path: Seq<Seq<char>>, pi: int, pat: Seq<Seq<char>>, qi: int) -> bool
    decreases pat.len() - qi, 1int, 0int,
{
    if qi >= pat.len() || qi < 0 {
        pi >= path.len()
    } else if is_double_star(pat[qi]) {
        star_parts(path, pat, qi + 1, pi)
    } else if pi >= path.len() || pi < 0 {
        false
    } else {
        glob_match(pat[qi], path[pi]) && parts_match(path, pi + 1, pat, qi + 1)
    }
}

/// Whether `pat[qi..]` matches `path[i..]` for some `i` between the given start and the end.
pub open spec fn star_parts(path: Seq<Seq<char>>, pat: Seq<Seq<char>>, qi: int, i: int) -> bool
    decreases pat.len() - qi, 2int, path.len() - i,
{
    if i < 0 || i > path.len() || qi > pat.len() || qi < 0 {
        false
    } else {
        parts_match(path, i, pat, qi) || (i < path.len() && star_parts(path, pat, qi, i + 1))
    }
}

fn is_double_star_exec(s: &Vec<char>) -> (r: bool)
    ensures
        r == is_double_star(s@),
{
    let r = s.len() == 2 && s[0] == '*' && s[1] == '*';
    proof {
        if s@.len() == 2 && s@[0] == '*' && s@[1] == '*' {
            assert(s@ =~= seq!['*', '*']);
        }
    }
    r
}

fn match_parts(path: &Vec<Vec<char>>, pi: usize, pat: &Vec<Vec<char>>, qi: usize) -> (r: bool)
    requires
        pi <= path@.len(),
        qi <= pat@.len(),
    ensures
        r == parts_match(views(path@), pi as int, views(pat@), qi as int),
    decreases pat@.len() - qi,
{
    if qi >= pat.len() {
        return pi >= path.len();
    }
    if is_double_star_exec(&pat[qi]) {
        let q1 = qi + 1;
        assert(views(pat@)[qi as int] == pat@[qi as int]@);
        let mut i = pi;
        loop
            invariant
                pi <= i <= path@.len(),
                q1 == qi + 1,
                q1 <= pat@.len(),
                parts_match(views(path@), pi as int, views(pat@), qi as int) == star_parts(
                    views(path@),
                    views(pat@),
                    q1 as int,
                    pi as int,
                ),
                star_parts(views(path@), views(pat@), qi + 1, pi as int) == star_parts(
                    views(path@),
                    views(pat@),
                    qi + 1,
                    i as int,
                ),
            decreases path@.len() - i,
        {
            if match_parts(path, i, pat, q1) {
                return true;
            }
            if i >= path.len() {
                return false;
            }
            i += 1;
        }
    }
    if pi >= path.len() {
        return false;
    }
    if !glob_match_chars(&pat[qi], &path[pi]) {
        return false;
    }
    match_parts(path, pi + 1, pat, qi + 1)
}

/// Whether `path` matches `pattern` segment by segment, `**` standing for any number of
/// segments.
pub open spec fn double_star_match(path: Seq<char>, pattern: Seq<char>) -> bool {
    parts_match(segments(path), 0, segments(pattern), 0)
}

/// Doublestar match of a whole path against a pattern (segment by segment, `**` spanning
/// any number of segments, zero included).
pub fn match_path(path: &str, pattern: &str) -> (r: bool)
    ensures
        r == double_star_match(path@, pattern@),
{
    let pc = chars_of(path);
    let qc = chars_of(pattern);
    let pp = split_path(&pc);
    let qp = split_path(&qc);
    match_parts(&pp, 0, &qp, 0)
}

/// Whether `path` matches `pattern` in any of three ways: the whole path as a glob, its
/// base name as a glob, or segment by segment with `**`.
pub open spec fn matches_pattern(path: Seq<char>, pattern: Seq<char>) -> bool {
    glob_match(pattern, path) || glob_match(pattern, base_seq(path)) || double_star_match(
        path,
        pattern,
    )
}

/// Whether some pattern of `patterns` matches `path` (see `matches_pattern`).
/// Whether the path matches one of the patterns.
pub open spec fn matches_any_spec(path: Seq<char>, patterns: Seq<Seq<char>>) -> bool {
    exists|k: int| 0 <= k < patterns.len() && matches_pattern(path, #[trigger] patterns[k])
}

pub fn matches_any(path: &str, patterns: &[String]) -> (r: bool)
    ensures
        r == exists|k: int| 0 <= k < patterns@.len() && matches_pattern(path@, #[trigger] patterns@[k]@),
        r == matches_any_spec(path@, patterns@.map_values(|p: String| p@)),
{
    let ghost pv = patterns@.map_values(|p: String| p@);
    let pc = chars_of(path);
    let b = base(&pc);
    let pp = split_path(&pc);
    let mut k: usize = 0;
    while k < patterns.len()
        invariant
            k <= patterns@.len(),
            pc@ == path@,
            b@ == base_seq(path@),
            views(pp@) == segments(path@),
            forall|j: int| 0 <= j < k ==> !matches_pattern(path@, #[trigger] patterns@[j]@),
            pv == patterns@.map_values(|p: String| p@),
        decreases patterns.len() - k,
    {
        let qc = chars_of(patterns[k].as_str());
        if glob_match_chars(&qc, &pc) {
            assert(pv[k as int] == patterns@[k as int]@);
            return true;
        }
        if glob_match_chars(&qc, &b) {
            assert(pv[k as int] == patterns@[k as int]@);
            return true;
        }
        let qp = split_path(&qc);
        if match_parts(&pp, 0, &qp, 0) {
            assert(pv[k as int] == patterns@[k as int]@);
            return true;
        }
        k += 1;
    }
    assert forall|j: int| 0 <= j < pv.len() implies !matches_pattern(path@, #[trigger] pv[j]) by {
        assert(pv[j] == patterns@[j]@);
    }
    false
}

/// The index `rfind_char_spec` returns lies in the sequence.
pub proof fn lemma_rfind_bounds(s: Seq<char>, c: char)
    ensures
        rfind_char_spec(s, c) matches Some(i) ==> 0 <= i < s.len() && s[i] == c,
{
    lemma_rfind_before_bounds(s, c, s.len() as int);
    lemma_rfind_before_hit(s, c, s.len() as int);
}

proof fn lemma_rfind_before_hit(s: Seq<char>, c: char, j: int)
    requires
        j <= s.len(),
    ensures
        crate::text::rfind_before(s, c, j) matches Some(i) ==> s[i] == c,
    decreases j,
{
    if j > 0 && s[j - 1] != c {
        lemma_rfind_before_hit(s, c, j - 1);
    }
}


// ---------------------------------------------------------------------------
// File names and extensions (`std::path` on Unix).
// ---------------------------------------------------------------------------

/// Whether a `/`-separated part names something: empty parts and `.` do not.
pub open spec fn named_part(p: Seq<char>) -> bool {
    p.len() > 0 && p != seq!['.']
}

/// The last named part among `ps`.
pub open spec fn last_named(ps: Seq<Seq<char>>) -> Option<Seq<char>>
    decreases ps.len(),
{
    if ps.len() == 0 {
        None
    } else if named_part(ps.last()) {
        Some(ps.last())
    } else {
        last_named(ps.drop_last())
    }
}

/// The final component of a path when it is a name (`Path::file_name`): nothing for a path
/// without a named part or one that ends in `..`.
pub open spec fn file_name_spec(path: Seq<char>) -> Option<Seq<char>> {
    match last_named(crate::text::split_seq(path, '/')) {
        Some(p) => if p == seq!['.', '.'] {
            None
        } else {
            Some(p)
        },
        None => None,
    }
}

/// What follows the last `.` of the file name, when the name has a `.` after its first
/// character (`Path::extension`).
pub open spec fn extension_spec(path: Seq<char>) -> Option<Seq<char>> {
    match file_name_spec(path) {
        None => None,
        Some(f) => match rfind_char_spec(f, '.') {
            None => None,
            Some(d) => if d == 0 {
                None
            } else {
                Some(f.subrange(d + 1, f.len() as int))
            },
        },
    }
}

/// The final component of a path (see `file_name_spec`).
pub fn file_name(path: &[char]) -> (r: Option<Vec<char>>)
    ensures
        r matches Some(v) ==> file_name_spec(path@) == Some(v@),
        r is None ==> file_name_spec(path@) is None,
{
    let parts = crate::text::split(path, '/');
    let ghost ps = parts@.map_values(|v: Vec<char>| v@);
    let mut k = parts.len();
    assert(ps.take(k as int) =~= ps);
    while k > 0
        invariant
            k <= parts@.len(),
            ps == parts@.map_values(|v: Vec<char>| v@),
            ps == crate::text::split_seq(path@, '/'),
            last_named(ps.take(k as int)) == last_named(ps),
        decreases k,
    {
        let p = &parts[k - 1];
        assert(ps.take(k as int).last() == p@);
        assert(ps.take(k as int).drop_last() =~= ps.take(k - 1));
        if p.len() > 0 && !(p.len() == 1 && p[0] == '.') {
            assert(p@ != seq!['.'] ==> named_part(p@));
            if p.len() == 2 && p[0] == '.' && p[1] == '.' {
                assert(p@ =~= seq!['.', '.']);
                return None;
            }
            assert(p@ != seq!['.', '.']);
            return Some(crate::text::copy_chars(p));
        }
        assert(!named_part(p@)) by {
            if p@.len() == 1 {
                assert(p@ =~= seq!['.']);
            }
        }
        k -= 1;
    }
    None
}

/// The extension of a path (see `extension_spec`).
pub fn extension(path: &[char]) -> (r: Option<Vec<char>>)
    ensures
        r matches Some(v) ==> extension_spec(path@) == Some(v@),
        r is None ==> extension_spec(path@) is None,
{
    match file_name(path) {
        None => None,
        Some(f) => match rfind_char(&f, '.') {
            None => None,
            Some(d) => if d == 0 {
                None
            } else {
                proof {
                    lemma_rfind_bounds(f@, '.');
                }
                Some(slice_chars(&f, d + 1, f.len()))
            },
        },
    }
}

/// A single `*` matches exactly the names without a `/`: a star never crosses a directory
/// separator.
pub proof fn law_single_star_stays_in_segment(n: Seq<char>)
    ensures
        glob_match(seq!['*'], n) <==> !n.contains('/'),
{
    let p = seq!['*'];
    assert(skip_stars(p, 1) == 1);
    assert(skip_stars(p, 0) == 1);
    assert(chunk_end(p, 1, false) == 1);
    if n.contains('/') {
        let k = choose|k: int| 0 <= k < n.len() && n[k] == '/';
        assert(!no_slash_from(n, 0));
    }
}

proof fn lemma_star_parts_tail(path: Seq<Seq<char>>, pat: Seq<Seq<char>>, i: int)
    requires
        pat.len() == 1,
        0 <= i <= path.len(),
    ensures
        star_parts(path, pat, 1, i),
    decreases path.len() - i,
{
    assert(parts_match(path, path.len() as int, pat, 1));
    if i < path.len() {
        lemma_star_parts_tail(path, pat, i + 1);
    } else {
        assert(parts_match(path, i, pat, 1));
    }
}

/// A pattern made of `**` alone matches every path, at any depth.
pub proof fn law_double_star_matches_everything(path: Seq<char>)
    ensures
        double_star_match(path, seq!['*', '*']),
{
    let q = seq!['*', '*'];
    assert(segments_go(q, 2, seq!['*', '*'], Seq::empty()) == seq![seq!['*', '*']]);
    assert(segments_go(q, 1, seq!['*'], Seq::empty()) == segments_go(q, 2, seq!['*', '*'], Seq::empty())) by {
        assert(seq!['*'].push('*') =~= seq!['*', '*']);
    }
    assert(segments_go(q, 0, Seq::empty(), Seq::empty()) == segments_go(q, 1, seq!['*'], Seq::empty())) by {
        assert(Seq::<char>::empty().push('*') =~= seq!['*']);
    }
    let pat = segments(q);
    assert(pat == seq![seq!['*', '*']]);
    assert(is_double_star(pat[0]));
    lemma_star_parts_tail(segments(path), pat, 0);
}
} // verus!
