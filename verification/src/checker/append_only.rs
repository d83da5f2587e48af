//! Paths that may only grow: no deletion, no change but appending, and new files named after
//! the existing ones.

use vstd::prelude::*;
use vstd::utf8::encode_utf8;
use vstd::arithmetic::div_mod::{lemma_add_mod_noop, lemma_mul_mod_noop_left, lemma_mod_bound};
use std::sync::atomic::AtomicBool;
use crate::config::accessors::strs;
use crate::config::types::Config;
use crate::gitdiff::{diff_view, diffs_view, DiffView, FileDiff};
use crate::messages::{arg_views, message, tr};
use crate::pathutil::{matches_any, matches_any_spec};
use crate::text::{chars_of, has_prefix, rfind_char, rfind_char_spec, slice_chars, starts_with, string_of, str_eq};
use super::cancel::check_cancelled;

verus! {

/// The numbers of `u64`.
pub open spec fn u64_range() -> nat {
    0x1_0000_0000_0000_0000
}

pub open spec fn is_digit_byte(b: u8) -> bool {
    48 <= b <= 57
}

/// The end of the run of ASCII digits that starts at `i`.
pub open spec fn digit_run_end(s: Seq<u8>, i: int) -> int
    decreases s.len() - i,
{
    if 0 <= i < s.len() && is_digit_byte(s[i]) {
        digit_run_end(s, i + 1)
    } else {
        i
    }
}

/// The decimal number written by a run of ASCII digits.
pub open spec fn digits_value(s: Seq<u8>) -> nat
    decreases s.len(),
{
    if s.len() == 0 {
        0
    } else {
        digits_value(s.drop_last()) * 10 + (s.last() - 48) as nat
    }
}

/// That number as a `u64`, wrapping around on overflow.
pub open spec fn parsed_u64(s: Seq<u8>) -> int {
    (digits_value(s) % u64_range()) as int
}

pub proof fn lemma_run_end(s: Seq<u8>, i: int)
    requires
        0 <= i <= s.len(),
    ensures
        i <= digit_run_end(s, i) <= s.len(),
        i < s.len() && is_digit_byte(s[i]) ==> digit_run_end(s, i) > i,
        forall|k: int| i <= k < digit_run_end(s, i) ==> is_digit_byte(#[trigger] s[k]),
        digit_run_end(s, i) < s.len() ==> !is_digit_byte(s[digit_run_end(s, i)]),
    decreases s.len() - i,
{
    if i < s.len() && is_digit_byte(s[i]) {
        lemma_run_end(s, i + 1);
    }
}

/// Natural order from positions `ai` of `a` and `bi` of `b`: runs of digits compare by their
/// value (as `u64`), other bytes one by one; a string that ends first comes first.
pub open spec fn natural_less_at(a: Seq<u8>, b: Seq<u8>, ai: int, bi: int) -> bool
    decreases a.len() - ai + b.len() - bi,
{
    if bi < 0 || ai < 0 || bi >= b.len() {
        false
    } else if ai >= a.len() {
        true
    } else if is_digit_byte(a[ai]) && is_digit_byte(b[bi]) {
        proof {
            lemma_run_end(a, ai);
            lemma_run_end(b, bi);
        }
        let ae = digit_run_end(a, ai);
        let be = digit_run_end(b, bi);
        let x = parsed_u64(a.subrange(ai, ae));
        let y = parsed_u64(b.subrange(bi, be));
        if x != y {
            x < y
        } else {
            natural_less_at(a, b, ae, be)
        }
    } else if a[ai] != b[bi] {
        a[ai] < b[bi]
    } else {
        natural_less_at(a, b, ai + 1, bi + 1)
    }
}

/// Whether `a` comes before `b` in natural order, over their UTF-8 bytes.
pub open spec fn natural_less_spec(a: Seq<char>, b: Seq<char>) -> bool {
    natural_less_at(encode_utf8(a), encode_utf8(b), 0, 0)
}

fn numeric_run_end(s: &[u8], from: usize) -> (r: usize)
    requires
        from <= s@.len(),
    ensures
        r == digit_run_end(s@, from as int),
{
    proof {
        lemma_run_end(s@, from as int);
    }
    let mut i: usize = from;
    while i < s.len() && 48 <= s[i] && s[i] <= 57
        invariant
            from <= i <= s@.len(),
            digit_run_end(s@, i as int) == digit_run_end(s@, from as int),
        decreases s.len() - i,
    {
        i += 1;
    }
    i
}

proof fn lemma_wrap_step(v: nat, n: u64, d: u64)
    requires
        n == v % u64_range(),
        d < 10,
    ensures
        vstd::wrapping::u64_specs::wrapping_add(vstd::wrapping::u64_specs::wrapping_mul(n, 10), d) as int == ((v * 10
            + d) as int) % (u64_range() as int),
{
    let m = u64_range() as int;
    let vi = v as int;
    let di = d as int;
    let w = vstd::wrapping::u64_specs::wrapping_mul(n, 10) as int;
    assert(w == (n * 10) % m);
    lemma_mul_mod_noop_left(vi, 10, m);
    assert(w == (vi * 10) % m);
    lemma_add_mod_noop(vi * 10, di, m);
    vstd::arithmetic::div_mod::lemma_small_mod(d as nat, m as nat);
    lemma_mod_bound(vi * 10, m);
    assert((w + di) % m == (vi * 10 + di) % m);
    if w + di > u64::MAX {
        vstd::arithmetic::div_mod::lemma_fundamental_div_mod(w + di, m);
        assert((w + di) / m == 1) by {
            vstd::arithmetic::div_mod::lemma_div_is_ordered(m, w + di, m);
            vstd::arithmetic::div_mod::lemma_div_is_ordered(w + di, 2 * m - 1, m);
            vstd::arithmetic::div_mod::lemma_div_by_self(m);
            vstd::arithmetic::div_mod::lemma_fundamental_div_mod(2 * m - 1, m);
            assert((2 * m - 1) / m == 1) by (nonlinear_arith)
                requires
                    (2 * m - 1) == m * ((2 * m - 1) / m) + (2 * m - 1) % m,
                    0 <= (2 * m - 1) % m < m,
                    m > 0;
        }
        assert((w + di) % m == w + di - m);
    } else {
        vstd::arithmetic::div_mod::lemma_small_mod((w + di) as nat, m as nat);
    }
}

fn parse_uint(s: &[u8], lo: usize, hi: usize) -> (r: u64)
    requires
        lo <= hi <= s@.len(),
        forall|k: int| lo <= k < hi ==> is_digit_byte(#[trigger] s@[k]),
    ensures
        r == parsed_u64(s@.subrange(lo as int, hi as int)),
{
    let mut n: u64 = 0;
    let mut i: usize = lo;
    while i < hi
        invariant
            lo <= i <= hi <= s@.len(),
            forall|k: int| lo <= k < hi ==> is_digit_byte(#[trigger] s@[k]),
            n == parsed_u64(s@.subrange(lo as int, i as int)),
        decreases hi - i,
    {
        let d: u64 = (s[i] - 48) as u64;
        proof {
            let t = s@.subrange(lo as int, i + 1);
            assert(t.drop_last() =~= s@.subrange(lo as int, i as int));
            assert(t.last() == s@[i as int]);
            lemma_wrap_step(digits_value(s@.subrange(lo as int, i as int)), n, d);
        }
        n = n.wrapping_mul(10).wrapping_add(d);
        i += 1;
    }
    n
}

/// Whether `a` comes before `b` in natural order (see `natural_less_at`): `9.sql` before
/// `10.sql`, `v1_2` before `v1_10`.
pub fn natural_less(a: &str, b: &str) -> (r: bool)
    ensures
        r == natural_less_spec(a@, b@),
{
    let x = a.as_bytes();
    let y = b.as_bytes();
    let ghost xa = encode_utf8(a@);
    let ghost yb = encode_utf8(b@);
    let mut ai: usize = 0;
    let mut bi: usize = 0;
    loop
        invariant
            x@ == xa,
            y@ == yb,
            xa == encode_utf8(a@),
            yb == encode_utf8(b@),
            ai <= x@.len(),
            bi <= y@.len(),
            natural_less_at(xa, yb, ai as int, bi as int) == natural_less_at(xa, yb, 0, 0),
        decreases x@.len() - ai + y@.len() - bi,
    {
        if bi >= y.len() {
            return false;
        }
        if ai >= x.len() {
            return true;
        }
        let ad = 48 <= x[ai] && x[ai] <= 57;
        let bd = 48 <= y[bi] && y[bi] <= 57;
        if ad && bd {
            proof {
                lemma_run_end(xa, ai as int);
                lemma_run_end(yb, bi as int);
            }
            let ae = numeric_run_end(x, ai);
            let be = numeric_run_end(y, bi);
            let an = parse_uint(x, ai, ae);
            let bn = parse_uint(y, bi, be);
            if an != bn {
                return an < bn;
            }
            ai = ae;
            bi = be;
        } else {
            if x[ai] != y[bi] {
                return x[ai] < y[bi];
            }
            ai += 1;
            bi += 1;
        }
    }
}

/// No string comes before itself in natural order.
pub proof fn law_natural_less_irreflexive(a: Seq<char>)
    ensures
        !natural_less_spec(a, a),
{
    lemma_irreflexive_at(encode_utf8(a), 0);
}

proof fn lemma_irreflexive_at(s: Seq<u8>, i: int)
    requires
        0 <= i <= s.len(),
    ensures
        !natural_less_at(s, s, i, i),
    decreases s.len() - i,
{
    if i < s.len() {
        if is_digit_byte(s[i]) {
            lemma_run_end(s, i);
            lemma_irreflexive_at(s, digit_run_end(s, i));
        } else {
            lemma_irreflexive_at(s, i + 1);
        }
    }
}

/// Natural order is asymmetric: when `a` comes before `b`, `b` does not come before `a`.
pub proof fn law_natural_less_asymmetric(a: Seq<char>, b: Seq<char>)
    ensures
        natural_less_spec(a, b) ==> !natural_less_spec(b, a),
{
    lemma_asymmetric_at(encode_utf8(a), encode_utf8(b), 0, 0);
}

proof fn lemma_asymmetric_at(a: Seq<u8>, b: Seq<u8>, ai: int, bi: int)
    requires
        0 <= ai <= a.len(),
        0 <= bi <= b.len(),
    ensures
        natural_less_at(a, b, ai, bi) ==> !natural_less_at(b, a, bi, ai),
    decreases a.len() - ai + b.len() - bi,
{
    if bi < b.len() && ai < a.len() {
        if is_digit_byte(a[ai]) && is_digit_byte(b[bi]) {
            lemma_run_end(a, ai);
            lemma_run_end(b, bi);
            lemma_asymmetric_at(a, b, digit_run_end(a, ai), digit_run_end(b, bi));
        } else if a[ai] == b[bi] {
            lemma_asymmetric_at(a, b, ai + 1, bi + 1);
        }
    }
}

/// The directory part of a `/`-separated path (`.` when it has none).
pub open spec fn path_dir(p: Seq<char>) -> Seq<char> {
    match rfind_char_spec(p, '/') {
        Some(i) => p.take(i),
        None => "."@,
    }
}

/// The last element of a `/`-separated path.
pub open spec fn path_base(p: Seq<char>) -> Seq<char> {
    match rfind_char_spec(p, '/') {
        Some(i) => p.skip(i + 1),
        None => p,
    }
}

fn path_dir_exec(p: &str) -> (r: String)
    ensures
        r@ == path_dir(p@),
{
    let c = chars_of(p);
    proof {
        crate::pathutil::lemma_rfind_bounds(p@, '/');
    }
    match rfind_char(&c, '/') {
        Some(i) => {
            let d = slice_chars(&c, 0, i);
            assert(d@ =~= p@.take(i as int));
            string_of(&d)
        },
        None => {
            proof {
                reveal_strlit(".");
            }
            ".".to_string()
        },
    }
}

fn path_base_exec(p: &str) -> (r: String)
    ensures
        r@ == path_base(p@),
{
    let c = chars_of(p);
    proof {
        crate::pathutil::lemma_rfind_bounds(p@, '/');
    }
    match rfind_char(&c, '/') {
        Some(i) => {
            let cl = c.len();
            assert(c@ == p@ && i < cl);
            let d = slice_chars(&c, i + 1, cl);
            assert(d@ =~= p@.skip(i + 1));
            string_of(&d)
        },
        None => p.to_string(),
    }
}

/// The greatest name, in natural order, among the files of `files` that lie in `dir` and match
/// the patterns; empty when there is none. A later name replaces the current one when the
/// current one comes before it.
pub open spec fn max_existing(files: Seq<Seq<char>>, dir: Seq<char>, pats: Seq<Seq<char>>) -> Seq<char>
    decreases files.len(),
{
    if files.len() == 0 {
        Seq::empty()
    } else {
        let m = max_existing(files.drop_last(), dir, pats);
        let name = files.last();
        if path_dir(name) == dir && matches_any_spec(name, pats) {
            let b = path_base(name);
            if m.len() == 0 || natural_less_spec(m, b) {
                b
            } else {
                m
            }
        } else {
            m
        }
    }
}

/// The message for a new file that does not come after the files already in its directory
/// in the base tree (`tree_files`); none when there is no base tree (`tree_ref` empty) or no
/// such file.
pub open spec fn filename_order_message(
    tree_ref: Seq<char>,
    new_path: Seq<char>,
    pats: Seq<Seq<char>>,
    files: Seq<Seq<char>>,
) -> Option<Seq<char>> {
    let dir = path_dir(new_path);
    let m = max_existing(files, dir, pats);
    if tree_ref.len() == 0 || m.len() == 0 || natural_less_spec(m, path_base(new_path)) {
        None
    } else {
        Some(
            message(
                "diff.append_only_filename_order"@,
                seq![("Path"@, new_path), ("MaxFile"@, if dir == "."@ { m } else { dir + "/"@ + m })],
            ),
        )
    }
}

/// Checks that a new file comes after the files already in its directory (see
/// `filename_order_message`).
pub fn check_filename_order(tree_ref: &str, new_path: &str, patterns: &Vec<String>, tree_files: &[String]) -> (r:
    Option<String>)
    ensures
        r matches Some(m) ==> filename_order_message(tree_ref@, new_path@, strs(patterns@), strs(tree_files@)) == Some(
            m@,
        ),
        r is None ==> filename_order_message(tree_ref@, new_path@, strs(patterns@), strs(tree_files@)) is None,
{
    if tree_ref.is_empty() {
        return None;
    }
    let new_dir = path_dir_exec(new_path);
    let new_base = path_base_exec(new_path);
    let ghost fv = strs(tree_files@);
    let ghost pv = strs(patterns@);
    let mut max: String = String::new();
    let mut i: usize = 0;
    while i < tree_files.len()
        invariant
            i <= tree_files@.len(),
            fv == strs(tree_files@),
            pv == strs(patterns@),
            new_dir@ == path_dir(new_path@),
            max@ == max_existing(fv.take(i as int), new_dir@, pv),
        decreases tree_files.len() - i,
    {
        proof {
            assert(fv.take(i + 1).drop_last() =~= fv.take(i as int));
            assert(fv.take(i + 1).last() == tree_files@[i as int]@);
        }
        let name = &tree_files[i];
        if str_eq(path_dir_exec(name.as_str()).as_str(), new_dir.as_str()) && matches_any(name.as_str(), patterns) {
            assert(pv == patterns@.map_values(|p: String| p@));
            let b = path_base_exec(name.as_str());
            if max.as_str().is_empty() || natural_less(max.as_str(), b.as_str()) {
                max = b;
            }
        } else {
            assert(pv == patterns@.map_values(|p: String| p@));
        }
        i += 1;
    }
    assert(fv.take(tree_files@.len() as int) =~= fv);
    if max.as_str().is_empty() {
        return None;
    }
    if !natural_less(max.as_str(), new_base.as_str()) {
        let max_file = if str_eq(new_dir.as_str(), ".") {
            max.clone()
        } else {
            let mut v = chars_of(new_dir.as_str());
            v.push('/');
            crate::text::extend_chars(&mut v, &chars_of(max.as_str()));
            proof {
                reveal_strlit("/");
            }
            let r = string_of(&v);
            assert(r@ =~= new_dir@ + "/"@ + max@);
            r
        };
        proof {
            reveal_strlit(".");
        }
        let mut args: Vec<(&str, String)> = Vec::new();
        args.push(("Path", crate::text::owned(new_path)));
        args.push(("MaxFile", max_file));
        assert(arg_views(args@) =~= seq![
            ("Path"@, new_path@),
            ("MaxFile"@, if new_dir@ == "."@ { max@ } else { new_dir@ + "/"@ + max@ }),
        ]);
        return Some(tr("diff.append_only_filename_order", &args));
    }
    None
}

/// What the base tree holds of a changed file.
pub enum BaseContent {
    /// The file is not in the base tree.
    Absent,
    /// The file is there but could not be read; the error.
    Unreadable(String),
    /// The file's content in the base tree.
    Present(String),
}

/// A changed file's content in the base tree and in the index.
pub struct FileVersions {
    pub base: BaseContent,
    /// The staged content, or the error met reading it.
    pub staged: Result<String, String>,
}

/// The error that marks a file absent from the base tree.
pub const ERR_NOT_IN_FROM_TREE: &'static str = "__not_in_from_tree__";

/// The outcome of comparing a file with its base version: no check without a base tree;
/// the marker error for a file absent from it; the read errors; otherwise the message key
/// `diff.append_only_modified` when the staged content does not begin with the base content.
pub open spec fn file_content_result(tree_ref: Seq<char>, v: FileVersions) -> Result<Option<Seq<char>>, Seq<char>> {
    if tree_ref.len() == 0 {
        Ok(None)
    } else {
        match v.base {
            BaseContent::Absent => Err(ERR_NOT_IN_FROM_TREE@),
            BaseContent::Unreadable(e) => Err(e@),
            BaseContent::Present(head) => match v.staged {
                Err(e) => Err(e@),
                Ok(staged) => if has_prefix(staged@, head@) {
                    Ok(None)
                } else {
                    Ok(Some("diff.append_only_modified"@))
                },
            },
        }
    }
}

/// Compares a changed file with its base version (see `file_content_result`).
pub fn check_file_content(tree_ref: &str, v: &FileVersions) -> (r: Result<Option<String>, String>)
    ensures
        match (r, file_content_result(tree_ref@, *v)) {
            (Ok(Some(k)), Ok(Some(kv))) => k@ == kv,
            (Ok(None), Ok(None)) => true,
            (Err(e), Err(ev)) => e@ == ev,
            _ => false,
        },
{
    if tree_ref.is_empty() {
        return Ok(None);
    }
    match &v.base {
        BaseContent::Absent => Err(ERR_NOT_IN_FROM_TREE.to_string()),
        BaseContent::Unreadable(e) => Err(e.clone()),
        BaseContent::Present(head) => match &v.staged {
            Err(e) => Err(e.clone()),
            Ok(staged) => {
                if starts_with(&chars_of(staged.as_str()), &chars_of(head.as_str())) {
                    Ok(None)
                } else {
                    Ok(Some("diff.append_only_modified".to_string()))
                }
            },
        },
    }
}

/// The messages for one changed file, or the error that stops the check.
pub open spec fn append_only_step(
    cfg: Config,
    tree_ref: Seq<char>,
    files: Seq<Seq<char>>,
    d: DiffView,
    v: FileVersions,
) -> Result<Seq<Seq<char>>, Seq<char>> {
    let paths = strs(cfg.append_only.paths@);
    if !matches_any_spec(d.path, paths) || matches_any_spec(d.path, strs(cfg.exceptions.global_ignore@)) {
        Ok(Seq::empty())
    } else if d.is_deleted {
        Ok(seq![message("diff.append_only_deleted"@, seq![("Path"@, d.path)])])
    } else if d.is_new {
        if cfg.append_only.filename_order@ != "none"@ {
            match filename_order_message(tree_ref, d.path, paths, files) {
                Some(m) => Ok(seq![m]),
                None => Ok(Seq::empty()),
            }
        } else {
            Ok(Seq::empty())
        }
    } else {
        match file_content_result(tree_ref, v) {
            Ok(Some(key)) => Ok(seq![message(key, seq![("Path"@, d.path)])]),
            Ok(None) => Ok(Seq::empty()),
            Err(e) => if e == ERR_NOT_IN_FROM_TREE@ {
                Ok(Seq::empty())
            } else {
                Err("append-only check "@ + d.path + ": "@ + e)
            },
        }
    }
}

/// The messages for the changed files `ds[..k]` in order, or the first error.
pub open spec fn append_only_messages(
    cfg: Config,
    tree_ref: Seq<char>,
    files: Seq<Seq<char>>,
    ds: Seq<DiffView>,
    vs: Seq<FileVersions>,
    k: int,
) -> Result<Seq<Seq<char>>, Seq<char>>
    decreases k,
{
    if k <= 0 {
        Ok(Seq::empty())
    } else {
        match append_only_messages(cfg, tree_ref, files, ds, vs, k - 1) {
            Err(e) => Err(e),
            Ok(prev) => match append_only_step(cfg, tree_ref, files, ds[k - 1], vs[k - 1]) {
                Ok(m) => Ok(prev + m),
                Err(e) => Err(e),
            },
        }
    }
}

proof fn lemma_error_stays(
    cfg: Config,
    tree_ref: Seq<char>,
    files: Seq<Seq<char>>,
    ds: Seq<DiffView>,
    vs: Seq<FileVersions>,
    k: int,
    n: int,
)
    requires
        0 <= k <= n,
        append_only_messages(cfg, tree_ref, files, ds, vs, k) is Err,
    ensures
        append_only_messages(cfg, tree_ref, files, ds, vs, n) == append_only_messages(cfg, tree_ref, files, ds, vs, k),
    decreases n - k,
{
    if n > k {
        lemma_error_stays(cfg, tree_ref, files, ds, vs, k, n - 1);
    }
}

/// Whether the check reads the base and staged versions of a changed file: a modified file
/// under the append-only paths that is not globally ignored.
pub fn needs_file_versions(cfg: &Config, d: &FileDiff) -> (r: bool)
    ensures
        r == (cfg.append_only.enabled && cfg.append_only.paths@.len() > 0 && !d.is_deleted && !d.is_new && matches_any_spec(
            d.path@,
            strs(cfg.append_only.paths@),
        ) && !matches_any_spec(d.path@, strs(cfg.exceptions.global_ignore@))),
{
    cfg.append_only.is_enabled() && !d.is_deleted && !d.is_new && matches_any(d.path.as_str(), &cfg.append_only.paths)
        && !matches_any(d.path.as_str(), &cfg.exceptions.global_ignore)
}

fn push_all(errs: &mut Vec<String>, m: String)
    ensures
        strs(final(errs)@) == strs(old(errs)@) + seq![m@],
{
    proof {
        assert(strs(errs@.push(m)) =~= strs(errs@) + seq![m@]);
    }
    errs.push(m);
}

/// Checks the changed files under the append-only paths (see `append_only_messages`):
/// `tree_ref` is the base commit (empty when there is none), `tree_files` the files of its
/// tree, and `versions[i]` the versions of `diffs[i]` where `needs_file_versions` holds. Nothing
/// when the check is off; `Err("interrupted")` when cancelled.
pub fn check_append_only(
    cfg: &Config,
    tree_ref: &str,
    tree_files: &[String],
    diffs: &[FileDiff],
    versions: &[FileVersions],
    cancel: &AtomicBool,
) -> (r: Result<Vec<String>, String>)
    requires
        versions@.len() == diffs@.len(),
    ensures
        diffs@.len() == 0 ==> r is Ok,
        !(cfg.append_only.enabled && cfg.append_only.paths@.len() > 0) ==> (r matches Ok(v) && v@.len() == 0),
        (cfg.append_only.enabled && cfg.append_only.paths@.len() > 0) ==> match r {
            Ok(v) => append_only_messages(
                *cfg,
                tree_ref@,
                strs(tree_files@),
                diffs_view(diffs@),
                versions@,
                diffs@.len() as int,
            ) == Ok::<Seq<Seq<char>>, Seq<char>>(strs(v@)),
            Err(e) => e@ == "interrupted"@ || append_only_messages(
                *cfg,
                tree_ref@,
                strs(tree_files@),
                diffs_view(diffs@),
                versions@,
                diffs@.len() as int,
            ) == Err::<Seq<Seq<char>>, Seq<char>>(e@),
        },
{
    let mut errs: Vec<String> = Vec::new();
    if !cfg.append_only.is_enabled() {
        return Ok(errs);
    }
    let ghost dv = diffs_view(diffs@);
    let ghost fv = strs(tree_files@);
    assert(strs(errs@) =~= Seq::<Seq<char>>::empty());
    let mut i: usize = 0;
    while i < diffs.len()
        invariant
            i <= diffs@.len(),
            versions@.len() == diffs@.len(),
            dv == diffs_view(diffs@),
            fv == strs(tree_files@),
            cfg.append_only.enabled && cfg.append_only.paths@.len() > 0,
            append_only_messages(*cfg, tree_ref@, fv, dv, versions@, i as int) == Ok::<
                Seq<Seq<char>>,
                Seq<char>,
            >(strs(errs@)),
        decreases diffs.len() - i,
    {
        match check_cancelled(cancel) {
            Err(e) => {
                return Err(e);
            },
            Ok(()) => {},
        }
        let d = &diffs[i];
        assert(dv[i as int] == diff_view(*d));
        let ghost before = strs(errs@);
        let paths = &cfg.append_only.paths;
        if !matches_any(d.path.as_str(), paths) || matches_any(d.path.as_str(), &cfg.exceptions.global_ignore) {
            assert(before + Seq::<Seq<char>>::empty() =~= before);
        } else if d.is_deleted {
            let mut args: Vec<(&str, String)> = Vec::new();
            args.push(("Path", d.path.clone()));
            assert(arg_views(args@) =~= seq![("Path"@, d.path@)]);
            push_all(&mut errs, tr("diff.append_only_deleted", &args));
        } else if d.is_new {
            if cfg.append_only.is_filename_order_numeric() {
                match check_filename_order(tree_ref, d.path.as_str(), paths, tree_files) {
                    Some(m) => {
                        push_all(&mut errs, m);
                    },
                    None => {
                        assert(before + Seq::<Seq<char>>::empty() =~= before);
                    },
                }
            } else {
                assert(before + Seq::<Seq<char>>::empty() =~= before);
            }
        } else {
            match check_file_content(tree_ref, &versions[i]) {
                Ok(Some(key)) => {
                    let mut args: Vec<(&str, String)> = Vec::new();
                    args.push(("Path", d.path.clone()));
                    assert(arg_views(args@) =~= seq![("Path"@, d.path@)]);
                    push_all(&mut errs, tr(key.as_str(), &args));
                },
                Ok(None) => {
                    assert(before + Seq::<Seq<char>>::empty() =~= before);
                },
                Err(e) => {
                    if str_eq(e.as_str(), ERR_NOT_IN_FROM_TREE) {
                        assert(before + Seq::<Seq<char>>::empty() =~= before);
                    } else {
                        let mut v = chars_of("append-only check ");
                        crate::text::extend_chars(&mut v, &chars_of(d.path.as_str()));
                        crate::text::extend_chars(&mut v, &chars_of(": "));
                        crate::text::extend_chars(&mut v, &chars_of(e.as_str()));
                        let msg = string_of(&v);
                        assert(msg@ =~= "append-only check "@ + d.path@ + ": "@ + e@);
                        proof {
                            lemma_error_stays(*cfg, tree_ref@, fv, dv, versions@, i + 1, diffs@.len() as int);
                        }
                        return Err(msg);
                    }
                },
            }
        }
        i += 1;
    }
    Ok(errs)
}

/// Appending to a file never counts as a change to it: when the staged content is the base
/// content followed by more text, the content check finds nothing.
pub proof fn law_appending_is_allowed(tree_ref: Seq<char>, v: FileVersions, extra: Seq<char>)
    requires
        v.base matches BaseContent::Present(head) && v.staged matches Ok(staged) && staged@ == head@ + extra,
    ensures
        file_content_result(tree_ref, v) == Ok::<Option<Seq<char>>, Seq<char>>(None),
{
    if let BaseContent::Present(head) = v.base {
        if let Ok(staged) = v.staged {
            assert(staged@.take(head@.len() as int) =~= head@);
        }
    }
}
} // verus!
