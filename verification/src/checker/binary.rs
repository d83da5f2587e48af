//! Binary files and their policies (allow, Git LFS, block).

use vstd::prelude::*;
use std::sync::atomic::AtomicBool;
use crate::config::accessors::{policy_for_spec, strs};
use crate::config::types::{BinaryFileConfig, Config};
use crate::messages::{arg_views, message, tr};
use crate::pathutil::{matches_any, matches_any_spec};
use crate::text::{chars_of, find, find_seq, split, split_seq, str_eq, string_of, trim_end_set, utf8_lossy};
use super::cancel::check_cancelled;

verus! {

/// The message for a binary file: none when its policy allows it, or asks for Git LFS and
/// LFS tracks it (`lfs_tracked`); otherwise it asks for LFS or reports the file.
pub open spec fn binary_message(cfg: BinaryFileConfig, path: Seq<char>, lfs_tracked: bool) -> Seq<char> {
    let p = policy_for_spec(cfg, path);
    if p == "allow"@ {
        Seq::empty()
    } else if p == "lfs"@ {
        if lfs_tracked {
            Seq::empty()
        } else {
            message("diff.binary_file_lfs_required"@, seq![("Path"@, path)])
        }
    } else {
        message("diff.binary_file_error"@, seq![("Path"@, path)])
    }
}

/// The message for a binary file (see `binary_message`; empty when there is none).
pub fn evaluate_binary_policy(cfg: &BinaryFileConfig, path: &str, lfs_tracked: bool) -> (r: String)
    ensures
        r@ == binary_message(*cfg, path@, lfs_tracked),
{
    let p = cfg.policy_for(path);
    let mut args: Vec<(&str, String)> = Vec::new();
    args.push(("Path", crate::text::owned(path)));
    assert(arg_views(args@) =~= seq![("Path"@, path@)]);
    if str_eq(p.as_str(), "allow") {
        String::new()
    } else if str_eq(p.as_str(), "lfs") {
        if lfs_tracked {
            String::new()
        } else {
            tr("diff.binary_file_lfs_required", &args)
        }
    } else {
        tr("diff.binary_file_error", &args)
    }
}

/// Whether `git check-attr -z filter -- <path>` output (`<path>\0filter\0<value>\0`) says the
/// filter is `lfs`.
pub open spec fn lfs_filter_output(out: Seq<u8>) -> bool {
    let ps = split_seq(trim_end_set(utf8_lossy(out), seq!['\0']), '\0');
    ps.len() >= 3 && ps[2] == "lfs"@
}

/// Whether the `check-attr` output names the `lfs` filter (see `lfs_filter_output`).
pub fn is_lfs_filter_output(out: &[u8]) -> (r: bool)
    ensures
        r == lfs_filter_output(out@),
{
    let s = crate::text::from_utf8_lossy(out);
    let cs = chars_of(s.as_str());
    let nul = ['\0'];
    assert(nul@ == seq!['\0']);
    let t = crate::text::trim_end_matches(&cs, &nul);
    let parts = split(&t, '\0');
    let ghost pv = parts@.map_values(|v: Vec<char>| v@);
    if parts.len() >= 3 {
        assert(pv[2] == parts@[2]@);
        crate::text::chars_eq_str(&parts[2], "lfs")
    } else {
        false
    }
}

/// The three tab-separated fields of a `--numstat` record (the last one keeps any further
/// tabs); nothing when it has fewer than two tabs.
pub open spec fn numstat_fields(f: Seq<char>) -> Option<(Seq<char>, Seq<char>, Seq<char>)> {
    match find_seq(f, seq!['\t']) {
        None => None,
        Some(a) => {
            let rest = f.skip(a + 1);
            match find_seq(rest, seq!['\t']) {
                None => None,
                Some(b) => Some((f.take(a), rest.take(b), rest.skip(b + 1))),
            }
        },
    }
}

/// The binary files among `git diff --numstat -z` fields from `i` on: records whose added and
/// deleted counts are both `-`. A record with an empty path is a rename whose new path is two
/// fields on.
pub open spec fn numstat_binaries(fs: Seq<Seq<char>>, i: int, acc: Seq<Seq<char>>) -> Seq<Seq<char>>
    decreases fs.len() - i,
{
    if i < 0 || i >= fs.len() {
        acc
    } else {
        match numstat_fields(fs[i]) {
            None => numstat_binaries(fs, i + 1, acc),
            Some((a, d, p)) => {
                let rename = p.len() == 0 && i + 2 < fs.len();
                let path = if rename {
                    fs[i + 2]
                } else {
                    p
                };
                let next = if rename {
                    i + 3
                } else {
                    i + 1
                };
                let acc2 = if a == "-"@ && d == "-"@ && path.len() > 0 {
                    acc.push(path)
                } else {
                    acc
                };
                numstat_binaries(fs, next, acc2)
            },
        }
    }
}

fn numstat_fields_exec(f: &[char]) -> (r: Option<(Vec<char>, Vec<char>, Vec<char>)>)
    ensures
        match numstat_fields(f@) {
            None => r is None,
            Some((a, d, p)) => r matches Some((x, y, z)) && x@ == a && y@ == d && z@ == p,
        },
{
    let tab = vec!['\t'];
    assert(tab@ =~= seq!['\t']);
    let n = f.len();
    proof {
        crate::text::lemma_find_seq(f@, seq!['\t']);
    }
    match find(f, &tab) {
        None => None,
        Some(a) => {
            let rest = crate::text::slice_chars(f, a + 1, n);
            assert(rest@ =~= f@.skip(a + 1));
            let m = rest.len();
            proof {
                crate::text::lemma_find_seq(rest@, seq!['\t']);
            }
            match find(&rest, &tab) {
                None => None,
                Some(b) => {
                    let x = crate::text::slice_chars(f, 0, a);
                    let y = crate::text::slice_chars(&rest, 0, b);
                    let z = crate::text::slice_chars(&rest, b + 1, m);
                    assert(x@ =~= f@.take(a as int));
                    assert(y@ =~= rest@.take(b as int));
                    assert(z@ =~= rest@.skip(b + 1));
                    Some((x, y, z))
                },
            }
        },
    }
}

/// The binary files listed in `git diff --numstat -z` fields (see `numstat_binaries`).
pub fn staged_binary_paths(fields: &[String]) -> (r: Vec<String>)
    ensures
        strs(r@) == numstat_binaries(strs(fields@), 0, Seq::empty()),
{
    let ghost fv = strs(fields@);
    let mut out: Vec<String> = Vec::new();
    let mut i: usize = 0;
    assert(strs(out@) =~= Seq::<Seq<char>>::empty());
    while i < fields.len()
        invariant
            i <= fields@.len(),
            fv == strs(fields@),
            numstat_binaries(fv, i as int, strs(out@)) == numstat_binaries(fv, 0, Seq::empty()),
        decreases fields.len() - i,
    {
        let f = chars_of(fields[i].as_str());
        assert(fv[i as int] == fields@[i as int]@);
        match numstat_fields_exec(&f) {
            None => {
                i += 1;
            },
            Some((a, d, p)) => {
                let rename = p.len() == 0 && fields.len() - i > 2;
                let path: Vec<char> = if rename {
                    assert(fv[i + 2] == fields@[i + 2]@);
                    chars_of(fields[i + 2].as_str())
                } else {
                    p
                };
                if crate::text::chars_eq_str(&a, "-") && crate::text::chars_eq_str(&d, "-") && path.len() > 0 {
                    let ghost before = strs(out@);
                    let s = string_of(&path);
                    out.push(s);
                    assert(strs(out@) =~= before.push(s@));
                }
                i = if rename {
                    i + 3
                } else {
                    i + 1
                };
            },
        }
    }
    out
}

/// The messages for the binary files (`lfs_tracked[i]`: whether Git LFS tracks `files[i]`),
/// files matching an ignore pattern left out.
pub open spec fn binary_messages(
    cfg: BinaryFileConfig,
    ignore: Seq<Seq<char>>,
    files: Seq<Seq<char>>,
    lfs: Seq<bool>,
) -> Seq<Seq<char>>
    decreases files.len(),
{
    if files.len() == 0 {
        Seq::empty()
    } else {
        let k = files.len() - 1;
        let prev = binary_messages(cfg, ignore, files.drop_last(), lfs);
        let m = binary_message(cfg, files[k], lfs[k]);
        if !matches_any_spec(files[k], ignore) && m.len() > 0 {
            prev.push(m)
        } else {
            prev
        }
    }
}

/// Messages for the staged binary files (none when the check is off); ignored are the
/// global and the binary check's ignore patterns. The check stops with `Err("interrupted")`
/// when it is cancelled.
pub fn check_binary_files(cfg: &Config, files: &[String], lfs_tracked: &[bool], cancel: &AtomicBool) -> (r: Result<
    Vec<String>,
    String,
>)
    requires
        lfs_tracked@.len() == files@.len(),
    ensures
        !crate::config::accessors::opt_or(cfg.binary_file.enabled, true) ==> r is Ok,
        files@.len() == 0 ==> r is Ok,
        match r {
            Ok(v) => strs(v@) == (if crate::config::accessors::opt_or(cfg.binary_file.enabled, true) {
                binary_messages(
                    cfg.binary_file,
                    strs(cfg.exceptions.global_ignore@) + strs(cfg.binary_file.ignore_files@),
                    strs(files@),
                    lfs_tracked@,
                )
            } else {
                Seq::empty()
            }),
            Err(e) => e@ == "interrupted"@,
        },
{
    let mut errs: Vec<String> = Vec::new();
    assert(strs(errs@) =~= Seq::<Seq<char>>::empty());
    if !cfg.binary_file.is_enabled() {
        return Ok(errs);
    }
    let mut ignore: Vec<String> = cfg.exceptions.global_ignore.clone();
    let mut k: usize = 0;
    assert(strs(ignore@) == strs(cfg.exceptions.global_ignore@) + strs(cfg.binary_file.ignore_files@).take(0));
    while k < cfg.binary_file.ignore_files.len()
        invariant
            k <= cfg.binary_file.ignore_files@.len(),
            strs(ignore@) == strs(cfg.exceptions.global_ignore@) + strs(cfg.binary_file.ignore_files@).take(
                k as int,
            ),
        decreases cfg.binary_file.ignore_files.len() - k,
    {
        let ghost before = strs(ignore@);
        let x = cfg.binary_file.ignore_files[k].clone();
        ignore.push(x);
        assert(strs(ignore@) =~= before.push(x@));
        assert(strs(cfg.binary_file.ignore_files@).take(k + 1) =~= strs(cfg.binary_file.ignore_files@).take(
            k as int,
        ).push(x@));
        k += 1;
    }
    let ghost iv = strs(ignore@);
    assert(strs(cfg.binary_file.ignore_files@).take(cfg.binary_file.ignore_files@.len() as int) =~= strs(
        cfg.binary_file.ignore_files@,
    ));
    let ghost fv = strs(files@);
    let mut i: usize = 0;
    while i < files.len()
        invariant
            crate::config::accessors::opt_or(cfg.binary_file.enabled, true),
            i <= files@.len(),
            lfs_tracked@.len() == files@.len(),
            fv == strs(files@),
            iv == strs(ignore@),
            strs(errs@) == binary_messages(cfg.binary_file, iv, fv.take(i as int), lfs_tracked@),
        decreases files.len() - i,
    {
        match check_cancelled(cancel) {
            Err(e) => {
                return Err(e);
            },
            Ok(()) => {},
        }
        let path = files[i].as_str();
        proof {
            assert(fv.take(i + 1).drop_last() =~= fv.take(i as int));
            assert(fv.take(i + 1)[i as int] == path@);
        }
        if !matches_any(path, &ignore) {
            let m = evaluate_binary_policy(&cfg.binary_file, path, lfs_tracked[i]);
            if !crate::text::is_empty_str(m.as_str()) {
                let ghost before = strs(errs@);
                errs.push(m);
                assert(strs(errs@) =~= before.push(m@));
            }
        }
        i += 1;
    }
    assert(fv.take(files@.len() as int) =~= fv);
    Ok(errs)
}

} // verus!
