//! Files inside build and cache directories, staged or committed.

use vstd::prelude::*;
use std::sync::atomic::AtomicBool;
use crate::config::accessors::{opt_or, strs};
use crate::config::types::Config;
use crate::gitdiff::{diff_view, diffs_view, DiffView, FileDiff};
use crate::messages::{arg_views, message, tr};
use crate::pathutil::{file_name, file_name_spec, matches_any, matches_any_spec};
use crate::text::{dec_seq, str_eq};
use super::cancel::check_cancelled;

verus! {

/// The name of a directory given by its path from the repository root.
pub open spec fn dir_base(rel: Seq<char>) -> Seq<char> {
    match file_name_spec(rel) {
        Some(b) => b,
        None => Seq::empty(),
    }
}

fn dir_base_exec(rel: &str) -> (r: String)
    ensures
        r@ == dir_base(rel@),
{
    match file_name(&crate::text::chars_of(rel)) {
        Some(b) => crate::text::string_of(&b),
        None => String::new(),
    }
}

fn strings_contain(v: &Vec<String>, s: &str) -> (r: bool)
    ensures
        r == strs(v@).contains(s@),
{
    let mut i: usize = 0;
    while i < v.len()
        invariant
            i <= v@.len(),
            forall|j: int| 0 <= j < i ==> strs(v@)[j] != s@,
        decreases v.len() - i,
    {
        if str_eq(v[i].as_str(), s) {
            assert(strs(v@)[i as int] == s@);
            return true;
        }
        i += 1;
    }
    false
}

/// The messages for staged files inside build or cache directories, one per directory:
/// `ancestors[i]` is the path from the root of the nearest such directory above `diffs[i]`.
/// Deleted files, globally ignored files and directories whose name is ignored are left out.
pub open spec fn staged_cache_messages(
    cfg: Config,
    ds: Seq<DiffView>,
    ancestors: Seq<Option<Seq<char>>>,
    k: int,
    seen: Seq<Seq<char>>,
    acc: Seq<Seq<char>>,
) -> Seq<Seq<char>>
    decreases ds.len() - k,
{
    if k < 0 || k >= ds.len() {
        acc
    } else {
        let d = ds[k];
        match ancestors[k] {
            Some(rel) => if !d.is_deleted && !matches_any_spec(d.path, strs(cfg.exceptions.global_ignore@))
                && !strs(cfg.cache_dir.ignore_dirs@).contains(dir_base(rel)) && !seen.contains(rel) {
                staged_cache_messages(
                    cfg,
                    ds,
                    ancestors,
                    k + 1,
                    seen.push(rel),
                    acc.push(message("diff.cache_dir_staged"@, seq![("Path"@, d.path), ("CacheDir"@, rel)])),
                )
            } else {
                staged_cache_messages(cfg, ds, ancestors, k + 1, seen, acc)
            },
            None => staged_cache_messages(cfg, ds, ancestors, k + 1, seen, acc),
        }
    }
}

/// The messages for staged files inside build or cache directories (see
/// `staged_cache_messages`); nothing when the check is off or the repository root was not
/// found (`repo_found`). `Err("interrupted")` when cancelled.
pub fn check_cache_dir_staged(
    cfg: &Config,
    repo_found: bool,
    diffs: &[FileDiff],
    ancestors: &[Option<String>],
    cancel: &AtomicBool,
) -> (r: Result<Vec<String>, String>)
    requires
        ancestors@.len() == diffs@.len(),
    ensures
        !(opt_or(cfg.cache_dir.enabled, true) && repo_found) ==> r is Ok,
        diffs@.len() == 0 ==> r is Ok,
        match r {
            Ok(v) => strs(v@) == (if opt_or(cfg.cache_dir.enabled, true) && repo_found {
                staged_cache_messages(
                    *cfg,
                    diffs_view(diffs@),
                    crate::checker::diff_check::contents_view(ancestors@),
                    0,
                    Seq::empty(),
                    Seq::empty(),
                )
            } else {
                Seq::empty()
            }),
            Err(e) => e@ == "interrupted"@,
        },
{
    let mut errs: Vec<String> = Vec::new();
    assert(strs(errs@) =~= Seq::<Seq<char>>::empty());
    if !cfg.cache_dir.is_enabled() || !repo_found {
        return Ok(errs);
    }
    let ghost dv = diffs_view(diffs@);
    let ghost av = crate::checker::diff_check::contents_view(ancestors@);
    let mut seen: Vec<String> = Vec::new();
    assert(strs(seen@) =~= Seq::<Seq<char>>::empty());
    let mut i: usize = 0;
    while i < diffs.len()
        invariant
            opt_or(cfg.cache_dir.enabled, true) && repo_found,
            i <= diffs@.len(),
            ancestors@.len() == diffs@.len(),
            dv == diffs_view(diffs@),
            av == crate::checker::diff_check::contents_view(ancestors@),
            staged_cache_messages(*cfg, dv, av, i as int, strs(seen@), strs(errs@)) == staged_cache_messages(
                *cfg,
                dv,
                av,
                0,
                Seq::empty(),
                Seq::empty(),
            ),
        decreases diffs.len() - i,
    {
        match check_cancelled(cancel) {
            Err(e) => {
                return Err(e);
            },
            Ok(()) => {},
        }
        let d = &diffs[i];
        assert(dv[i as int] == diff_view(*d));
        match &ancestors[i] {
            Some(rel) => {
                if !d.is_deleted && !matches_any(d.path.as_str(), &cfg.exceptions.global_ignore) && !strings_contain(
                    &cfg.cache_dir.ignore_dirs,
                    dir_base_exec(rel.as_str()).as_str(),
                ) && !strings_contain(&seen, rel.as_str()) {
                    let ghost s0 = strs(seen@);
                    let ghost e0 = strs(errs@);
                    seen.push(rel.clone());
                    assert(strs(seen@) =~= s0.push(rel@));
                    let mut args: Vec<(&str, String)> = Vec::new();
                    args.push(("Path", d.path.clone()));
                    args.push(("CacheDir", rel.clone()));
                    assert(arg_views(args@) =~= seq![("Path"@, d.path@), ("CacheDir"@, rel@)]);
                    let m = tr("diff.cache_dir_staged", &args);
                    errs.push(m);
                    assert(strs(errs@) =~= e0.push(m@));
                }
            },
            None => {},
        }
        i += 1;
    }
    Ok(errs)
}

/// The messages for build or cache directories holding files known to git: for each found
/// directory (its path from the root, and how many files known to git it holds when that could be
/// listed), unless its name is ignored, it holds none, or its path is globally ignored.
pub open spec fn committed_cache_messages(cfg: Config, dirs: Seq<(Seq<char>, Option<usize>)>) -> Seq<Seq<char>>
    decreases dirs.len(),
{
    if dirs.len() == 0 {
        Seq::empty()
    } else {
        let prev = committed_cache_messages(cfg, dirs.drop_last());
        let (rel, count) = dirs.last();
        match count {
            Some(n) => if !strs(cfg.cache_dir.ignore_dirs@).contains(dir_base(rel)) && n > 0 && !matches_any_spec(
                rel,
                strs(cfg.exceptions.global_ignore@),
            ) {
                prev.push(message("diff.cache_dir_committed"@, seq![("CacheDir"@, rel), ("Count"@, dec_seq(n as nat))]))
            } else {
                prev
            },
            None => prev,
        }
    }
}

pub open spec fn dirs_view(v: Seq<(String, Option<usize>)>) -> Seq<(Seq<char>, Option<usize>)> {
    v.map_values(|d: (String, Option<usize>)| (d.0@, d.1))
}

/// The messages for build or cache directories holding files known to git (see
/// `committed_cache_messages`); nothing when the check is off or the repository root was not
/// found. `Err("interrupted")` when cancelled.
pub fn check_cache_dir_committed(
    cfg: &Config,
    repo_found: bool,
    dirs: &[(String, Option<usize>)],
    cancel: &AtomicBool,
) -> (r: Result<Vec<String>, String>)
    ensures
        !(opt_or(cfg.cache_dir.enabled, true) && repo_found) ==> r is Ok,
        dirs@.len() == 0 ==> r is Ok,
        match r {
            Ok(v) => strs(v@) == (if opt_or(cfg.cache_dir.enabled, true) && repo_found {
                committed_cache_messages(*cfg, dirs_view(dirs@))
            } else {
                Seq::empty()
            }),
            Err(e) => e@ == "interrupted"@,
        },
{
    let mut errs: Vec<String> = Vec::new();
    assert(strs(errs@) =~= Seq::<Seq<char>>::empty());
    if !cfg.cache_dir.is_enabled() || !repo_found {
        return Ok(errs);
    }
    let ghost dv = dirs_view(dirs@);
    let mut i: usize = 0;
    while i < dirs.len()
        invariant
            opt_or(cfg.cache_dir.enabled, true) && repo_found,
            i <= dirs@.len(),
            dv == dirs_view(dirs@),
            strs(errs@) == committed_cache_messages(*cfg, dv.take(i as int)),
        decreases dirs.len() - i,
    {
        match check_cancelled(cancel) {
            Err(e) => {
                return Err(e);
            },
            Ok(()) => {},
        }
        let (rel, count) = &dirs[i];
        assert(dv.take(i + 1).drop_last() =~= dv.take(i as int));
        assert(dv.take(i + 1).last() == (rel@, *count));
        match count {
            Some(n) => {
                if !strings_contain(&cfg.cache_dir.ignore_dirs, dir_base_exec(rel.as_str()).as_str()) && *n > 0
                    && !matches_any(rel.as_str(), &cfg.exceptions.global_ignore) {
                    let mut args: Vec<(&str, String)> = Vec::new();
                    args.push(("CacheDir", rel.clone()));
                    args.push(("Count", crate::checker::util::dec_string(*n as u64)));
                    assert(arg_views(args@) =~= seq![("CacheDir"@, rel@), ("Count"@, dec_seq(*n as nat))]);
                    let m = tr("diff.cache_dir_committed", &args);
                    let ghost e0 = strs(errs@);
                    errs.push(m);
                    assert(strs(errs@) =~= e0.push(m@));
                }
            },
            None => {},
        }
        i += 1;
    }
    assert(dv.take(dirs@.len() as int) =~= dv);
    Ok(errs)
}

} // verus!
