//! Paths that may not be changed at all.

use vstd::prelude::*;
use std::sync::atomic::AtomicBool;
use crate::config::accessors::strs;
use crate::config::types::Config;
use crate::gitdiff::{diff_view, diffs_view, DiffView, FileDiff};
use crate::messages::{arg_views, message, tr};
use crate::pathutil::{matches_any, matches_any_spec};
use super::cancel::check_cancelled;

verus! {

/// The message for a change to a protected file: added, deleted or modified.
pub open spec fn protected_message(d: DiffView) -> Seq<char> {
    let key = if d.is_new {
        "diff.protected_path_added"@
    } else if d.is_deleted {
        "diff.protected_path_deleted"@
    } else {
        "diff.protected_path_modified"@
    };
    message(key, seq![("Path"@, d.path)])
}

/// The messages for the files that match a protected path and no ignore pattern.
pub open spec fn protected_messages(paths: Seq<Seq<char>>, ignore: Seq<Seq<char>>, ds: Seq<DiffView>) -> Seq<
    Seq<char>,
>
    decreases ds.len(),
{
    if ds.len() == 0 {
        Seq::empty()
    } else {
        let prev = protected_messages(paths, ignore, ds.drop_last());
        let d = ds.last();
        if matches_any_spec(d.path, paths) && !matches_any_spec(d.path, ignore) {
            prev.push(protected_message(d))
        } else {
            prev
        }
    }
}

/// Messages for the changed files under protected paths (none when the check is off). The
/// check stops with `Err("interrupted")` when it is cancelled.
pub fn check_protected_paths(cfg: &Config, diffs: &[FileDiff], cancel: &AtomicBool) -> (r: Result<
    Vec<String>,
    String,
>)
    ensures
        !(cfg.protected_paths.enabled && cfg.protected_paths.paths@.len() > 0) ==> r is Ok,
        diffs@.len() == 0 ==> r is Ok,
        match r {
            Ok(v) => strs(v@) == (if cfg.protected_paths.enabled && cfg.protected_paths.paths@.len() > 0 {
                protected_messages(
                    strs(cfg.protected_paths.paths@),
                    strs(cfg.exceptions.global_ignore@),
                    diffs_view(diffs@),
                )
            } else {
                Seq::empty()
            }),
            Err(e) => cfg.protected_paths.enabled && cfg.protected_paths.paths@.len() > 0 && e@
                == "interrupted"@,
        },
{
    let mut errs: Vec<String> = Vec::new();
    assert(strs(errs@) =~= Seq::<Seq<char>>::empty());
    if !cfg.protected_paths.is_enabled() {
        return Ok(errs);
    }
    let ghost paths = strs(cfg.protected_paths.paths@);
    let ghost ignore = strs(cfg.exceptions.global_ignore@);
    let ghost dv = diffs_view(diffs@);
    let mut i: usize = 0;
    assert(strs(errs@) =~= Seq::<Seq<char>>::empty());
    while i < diffs.len()
        invariant
            i <= diffs@.len(),
            paths == strs(cfg.protected_paths.paths@),
            ignore == strs(cfg.exceptions.global_ignore@),
            dv == diffs_view(diffs@),
            strs(errs@) == protected_messages(paths, ignore, dv.take(i as int)),
            cfg.protected_paths.enabled && cfg.protected_paths.paths@.len() > 0,
        decreases diffs.len() - i,
    {
        match check_cancelled(cancel) {
            Err(e) => {
                return Err(e);
            },
            Ok(()) => {},
        }
        let d = &diffs[i];
        proof {
            assert(dv.take(i + 1).drop_last() =~= dv.take(i as int));
            assert(dv.take(i + 1).last() == diff_view(*d));
        }
        if matches_any(d.path.as_str(), &cfg.protected_paths.paths) && !matches_any(
            d.path.as_str(),
            &cfg.exceptions.global_ignore,
        ) {
            let key = if d.is_new {
                "diff.protected_path_added"
            } else if d.is_deleted {
                "diff.protected_path_deleted"
            } else {
                "diff.protected_path_modified"
            };
            let mut args: Vec<(&str, String)> = Vec::new();
            args.push(("Path", d.path.clone()));
            assert(arg_views(args@) =~= seq![("Path"@, d.path@)]);
            let m = tr(key, &args);
            let ghost before = strs(errs@);
            errs.push(m);
            assert(strs(errs@) =~= before.push(m@));
        }
        i += 1;
    }
    assert(dv.take(diffs@.len() as int) =~= dv);
    Ok(errs)
}

} // verus!
