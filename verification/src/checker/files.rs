//! Checks of whole files: encoding, `.editorconfig` rules, binary files and comment
//! languages, each for one file with its content; and the staged variants over a list.

use vstd::prelude::*;
use std::sync::atomic::AtomicBool;
use crate::config::accessors::{opt_or, strs};
use crate::config::types::Config;
use crate::editorconfig::{check, check_spec, violation_view, violations_view, Definition};
use crate::encoding::{binary_spec, check_utf8, check_utf8_spec, is_binary};
use crate::messages::{arg_views, message, tr};
use crate::pathutil::{matches_any, matches_any_spec};
use crate::text::int_seq;
use super::binary::{binary_message, evaluate_binary_policy};
use super::cancel::check_cancelled;
use super::diff_check::{
    check_exts, check_file_comments, check_ignores, contents_view, extend_strings, file_messages,
};
use super::util::int_string;

verus! {

fn no_messages() -> (r: Vec<String>)
    ensures
        strs(r@) == Seq::<Seq<char>>::empty(),
{
    let v: Vec<String> = Vec::new();
    assert(strs(v@) =~= Seq::<Seq<char>>::empty());
    v
}

fn one_message(m: String) -> (r: Vec<String>)
    ensures
        strs(r@) == seq![m@],
{
    let v = vec![m];
    assert(strs(v@) =~= seq![m@]);
    v
}

// ---------------------------------------------------------------------------
// Encoding.
// ---------------------------------------------------------------------------

/// Whether the encoding check leaves a file alone: it matches an ignore pattern, or its
/// `.editorconfig` charset (when it has one) is set and not a UTF-8 one.
pub open spec fn encoding_skips(cfg: Config, path: Seq<char>, charset: Option<Seq<char>>) -> bool {
    matches_any_spec(path, strs(cfg.exceptions.global_ignore@) + strs(cfg.encoding.ignore_files@)) || match charset {
        Some(c) => c.len() > 0 && c != "utf-8"@ && c != "utf-8-bom"@,
        None => false,
    }
}

/// The encoding message of a file: none when skipped or binary; one naming the guessed
/// charset when it is not UTF-8.
pub open spec fn encoding_messages_spec(cfg: Config, path: Seq<char>, charset: Option<Seq<char>>, content: Seq<u8>) -> Seq<
    Seq<char>,
> {
    if encoding_skips(cfg, path, charset) || binary_spec(content) || check_utf8_spec(content).0 {
        Seq::empty()
    } else {
        seq![message("diff.encoding_error"@, seq![("Path"@, path), ("Charset"@, check_utf8_spec(content).2)])]
    }
}

pub open spec fn opt_view(o: Option<String>) -> Option<Seq<char>> {
    match o {
        Some(s) => Some(s@),
        None => None,
    }
}

/// Whether the encoding check leaves the file alone (see `encoding_skips`); `charset` is the
/// file's `.editorconfig` charset when it has a definition.
pub fn encoding_skips_file(cfg: &Config, path: &str, charset: &Option<String>) -> (r: bool)
    ensures
        r == encoding_skips(*cfg, path@, opt_view(*charset)),
{
    let mut pats: Vec<String> = Vec::new();
    extend_strings(&mut pats, &cfg.exceptions.global_ignore);
    extend_strings(&mut pats, &cfg.encoding.ignore_files);
    assert(strs(pats@) =~= strs(cfg.exceptions.global_ignore@) + strs(cfg.encoding.ignore_files@));
    if matches_any(path, &pats) {
        return true;
    }
    match charset {
        Some(c) => !crate::text::is_empty_str(c.as_str()) && !crate::text::str_eq(c.as_str(), "utf-8")
            && !crate::text::str_eq(c.as_str(), "utf-8-bom"),
        None => false,
    }
}

/// The encoding message of one file (see `encoding_messages_spec`).
pub fn encoding_messages(cfg: &Config, path: &str, charset: &Option<String>, content: &[u8]) -> (r: Vec<String>)
    ensures
        strs(r@) == encoding_messages_spec(*cfg, path@, opt_view(*charset), content@),
{
    if encoding_skips_file(cfg, path, charset) || is_binary(content) {
        return no_messages();
    }
    let res = check_utf8(content);
    if res.valid {
        return no_messages();
    }
    let mut args: Vec<(&str, String)> = Vec::new();
    args.push(("Path", crate::text::owned(path)));
    args.push(("Charset", res.detected_charset.clone()));
    assert(arg_views(args@) =~= seq![("Path"@, path@), ("Charset"@, check_utf8_spec(content@).2)]);
    one_message(tr("diff.encoding_error", &args))
}

/// The messages of the files `fs[..]` given per file by `f` from its index.
pub open spec fn per_file(n: int, f: spec_fn(int) -> Seq<Seq<char>>) -> Seq<Seq<char>>
    decreases n,
{
    if n <= 0 {
        Seq::empty()
    } else {
        per_file(n - 1, f) + f(n - 1)
    }
}

/// The encoding messages of the staged files; for `files[i]`, `charsets[i]` is its
/// `.editorconfig` charset when it has a definition and `contents[i]` its staged bytes when
/// they were read. None when the check is off; `Err("interrupted")` when cancelled.
pub fn check_encoding(
    cfg: &Config,
    files: &[String],
    charsets: &[Option<String>],
    contents: &[Option<Vec<u8>>],
    cancel: &AtomicBool,
) -> (r: Result<Vec<String>, String>)
    requires
        charsets@.len() == files@.len(),
        contents@.len() == files@.len(),
    ensures
        !(opt_or(cfg.encoding.enabled, true) && opt_or(cfg.encoding.require_utf8, true)) ==> r is Ok,
        files@.len() == 0 ==> r is Ok,
        match r {
            Ok(v) => strs(v@) == (if opt_or(cfg.encoding.enabled, true) && opt_or(cfg.encoding.require_utf8, true) {
                per_file(
                    files@.len() as int,
                    |i: int|
                        match contents@[i] {
                            Some(c) => encoding_messages_spec(*cfg, files@[i]@, opt_view(charsets@[i]), c@),
                            None => Seq::empty(),
                        },
                )
            } else {
                Seq::empty()
            }),
            Err(e) => e@ == "interrupted"@,
        },
{
    let mut errs = no_messages();
    if !cfg.encoding.is_enabled() || !cfg.encoding.is_require_utf8() {
        return Ok(errs);
    }
    let ghost f = |i: int|
        match contents@[i] {
            Some(c) => encoding_messages_spec(*cfg, files@[i]@, opt_view(charsets@[i]), c@),
            None => Seq::<Seq<char>>::empty(),
        };
    let mut i: usize = 0;
    while i < files.len()
        invariant
            opt_or(cfg.encoding.enabled, true) && opt_or(cfg.encoding.require_utf8, true),
            i <= files@.len(),
            charsets@.len() == files@.len(),
            contents@.len() == files@.len(),
            f == (|i: int|
                match contents@[i] {
                    Some(c) => encoding_messages_spec(*cfg, files@[i]@, opt_view(charsets@[i]), c@),
                    None => Seq::<Seq<char>>::empty(),
                }),
            strs(errs@) == per_file(i as int, f),
        decreases files.len() - i,
    {
        match check_cancelled(cancel) {
            Err(e) => {
                return Err(e);
            },
            Ok(()) => {},
        }
        let ghost before = strs(errs@);
        match &contents[i] {
            Some(c) => {
                let m = encoding_messages(cfg, files[i].as_str(), &charsets[i], c.as_slice());
                extend_strings(&mut errs, &m);
            },
            None => {
                assert(before + Seq::<Seq<char>>::empty() =~= before);
            },
        }
        i += 1;
    }
    Ok(errs)
}

// ---------------------------------------------------------------------------
// .editorconfig.
// ---------------------------------------------------------------------------

/// Whether the `.editorconfig` check leaves a file alone: it matches a global or an
/// `.editorconfig` ignore pattern.
pub open spec fn editorconfig_skips(cfg: Config, path: Seq<char>) -> bool {
    matches_any_spec(path, strs(cfg.exceptions.global_ignore@)) || matches_any_spec(
        path,
        strs(cfg.editorconfig.ignore_files@),
    )
}

pub fn editorconfig_skips_file(cfg: &Config, path: &str) -> (r: bool)
    ensures
        r == editorconfig_skips(*cfg, path@),
{
    matches_any(path, &cfg.exceptions.global_ignore) || matches_any(path, &cfg.editorconfig.ignore_files)
}

/// The message of a rule violation.
pub open spec fn violation_message(v: (Seq<char>, i64, Seq<char>)) -> Seq<char> {
    message("diff.editorconfig_error"@, seq![("Path"@, v.0), ("Line"@, int_seq(v.1 as int)), ("Message"@, v.2)])
}

/// The messages of a file's rule violations under its definition.
pub open spec fn editorconfig_messages_spec(path: Seq<char>, d: Definition, content: Seq<u8>) -> Seq<Seq<char>> {
    check_spec(path, content, d).map_values(|v: (Seq<char>, i64, Seq<char>)| violation_message(v))
}

/// The messages of one file's rule violations (see `editorconfig_messages_spec`).
pub fn editorconfig_messages(path: &str, def: &Definition, content: &[u8]) -> (r: Vec<String>)
    ensures
        strs(r@) == editorconfig_messages_spec(path@, *def, content@),
{
    let vs = check(path, content, def);
    let ghost vv = violations_view(vs@);
    let mut out = no_messages();
    let mut i: usize = 0;
    while i < vs.len()
        invariant
            i <= vs@.len(),
            vv == violations_view(vs@),
            strs(out@) == vv.take(i as int).map_values(|v: (Seq<char>, i64, Seq<char>)| violation_message(v)),
        decreases vs.len() - i,
    {
        let v = &vs[i];
        let mut args: Vec<(&str, String)> = Vec::new();
        args.push(("Path", v.file.clone()));
        args.push(("Line", int_string(v.line)));
        args.push(("Message", v.message.clone()));
        assert(arg_views(args@) =~= seq![("Path"@, v.file@), ("Line"@, int_seq(v.line as int)), ("Message"@, v.message@)]);
        let m = tr("diff.editorconfig_error", &args);
        let ghost before = strs(out@);
        out.push(m);
        assert(strs(out@) =~= before.push(m@));
        assert(vv[i as int] == violation_view(*v));
        assert(vv.take(i + 1).map_values(|v: (Seq<char>, i64, Seq<char>)| violation_message(v)) =~= vv.take(
            i as int,
        ).map_values(|v: (Seq<char>, i64, Seq<char>)| violation_message(v)).push(violation_message(vv[i as int])));
        i += 1;
    }
    assert(vv.take(vs@.len() as int) =~= vv);
    out
}

/// The `.editorconfig` messages of the staged files, when the check is on and the repository
/// has an `.editorconfig` (`present`); for `files[i]`, `defs[i]` is its definition and
/// `contents[i]` its staged bytes, where there are. `Err("interrupted")` when cancelled.
pub fn check_editorconfig(
    cfg: &Config,
    present: bool,
    files: &[String],
    defs: &[Option<Definition>],
    contents: &[Option<Vec<u8>>],
    cancel: &AtomicBool,
) -> (r: Result<Vec<String>, String>)
    requires
        defs@.len() == files@.len(),
        contents@.len() == files@.len(),
    ensures
        !(opt_or(cfg.editorconfig.enabled, true) && present) ==> r is Ok,
        files@.len() == 0 ==> r is Ok,
        match r {
            Ok(v) => strs(v@) == (if opt_or(cfg.editorconfig.enabled, true) && present {
                per_file(
                    files@.len() as int,
                    |i: int|
                        if editorconfig_skips(*cfg, files@[i]@) {
                            Seq::empty()
                        } else {
                            match (defs@[i], contents@[i]) {
                                (Some(d), Some(c)) => editorconfig_messages_spec(files@[i]@, d, c@),
                                _ => Seq::empty(),
                            }
                        },
                )
            } else {
                Seq::empty()
            }),
            Err(e) => e@ == "interrupted"@,
        },
{
    let mut errs = no_messages();
    if !cfg.editorconfig.is_enabled() || !present {
        return Ok(errs);
    }
    let ghost f = |i: int|
        if editorconfig_skips(*cfg, files@[i]@) {
            Seq::<Seq<char>>::empty()
        } else {
            match (defs@[i], contents@[i]) {
                (Some(d), Some(c)) => editorconfig_messages_spec(files@[i]@, d, c@),
                _ => Seq::<Seq<char>>::empty(),
            }
        };
    let mut i: usize = 0;
    while i < files.len()
        invariant
            opt_or(cfg.editorconfig.enabled, true) && present,
            i <= files@.len(),
            defs@.len() == files@.len(),
            contents@.len() == files@.len(),
            f == (|i: int|
                if editorconfig_skips(*cfg, files@[i]@) {
                    Seq::<Seq<char>>::empty()
                } else {
                    match (defs@[i], contents@[i]) {
                        (Some(d), Some(c)) => editorconfig_messages_spec(files@[i]@, d, c@),
                        _ => Seq::<Seq<char>>::empty(),
                    }
                }),
            strs(errs@) == per_file(i as int, f),
        decreases files.len() - i,
    {
        match check_cancelled(cancel) {
            Err(e) => {
                return Err(e);
            },
            Ok(()) => {},
        }
        let ghost before = strs(errs@);
        if !editorconfig_skips_file(cfg, files[i].as_str()) {
            match (&defs[i], &contents[i]) {
                (Some(d), Some(c)) => {
                    let m = editorconfig_messages(files[i].as_str(), d, c.as_slice());
                    extend_strings(&mut errs, &m);
                },
                _ => {
                    assert(before + Seq::<Seq<char>>::empty() =~= before);
                },
            }
        } else {
            assert(before + Seq::<Seq<char>>::empty() =~= before);
        }
        i += 1;
    }
    Ok(errs)
}

// ---------------------------------------------------------------------------
// Tracked files, one at a time.
// ---------------------------------------------------------------------------

/// The binary-file message of a tracked file: none when ignored, not binary, or allowed.
pub open spec fn binary_file_messages_spec(cfg: Config, path: Seq<char>, content: Seq<u8>, lfs_tracked: bool) -> Seq<
    Seq<char>,
> {
    if matches_any_spec(path, strs(cfg.exceptions.global_ignore@) + strs(cfg.binary_file.ignore_files@))
        || !binary_spec(content) || binary_message(cfg.binary_file, path, lfs_tracked).len() == 0 {
        Seq::empty()
    } else {
        seq![binary_message(cfg.binary_file, path, lfs_tracked)]
    }
}

/// The binary-file message of one tracked file (see `binary_file_messages_spec`);
/// `lfs_tracked`: whether Git LFS tracks it.
pub fn binary_file_messages(cfg: &Config, path: &str, content: &[u8], lfs_tracked: bool) -> (r: Vec<String>)
    ensures
        strs(r@) == binary_file_messages_spec(*cfg, path@, content@, lfs_tracked),
{
    let mut pats: Vec<String> = Vec::new();
    extend_strings(&mut pats, &cfg.exceptions.global_ignore);
    extend_strings(&mut pats, &cfg.binary_file.ignore_files);
    assert(strs(pats@) =~= strs(cfg.exceptions.global_ignore@) + strs(cfg.binary_file.ignore_files@));
    if matches_any(path, &pats) || !is_binary(content) {
        return no_messages();
    }
    let m = evaluate_binary_policy(&cfg.binary_file, path, lfs_tracked);
    if crate::text::is_empty_str(m.as_str()) {
        return no_messages();
    }
    one_message(m)
}

/// The comment language messages of one tracked file, every unit checked: none for a file
/// whose extension is not checked, that matches an ignore pattern or has no parser.
pub open spec fn comment_file_messages_spec(cfg: Config, path: Seq<char>, content: Seq<char>) -> Seq<Seq<char>> {
    if !crate::gitdiff::has_extension_spec(path, check_exts(cfg.comment_language)) || matches_any_spec(
        path,
        check_ignores(cfg),
    ) {
        Seq::empty()
    } else {
        file_messages(cfg, path, Set::empty(), true, content)
    }
}

/// The comment language messages of one tracked file (see `comment_file_messages_spec`).
pub fn comment_file_messages(cfg: &Config, path: &str, content: &str) -> (r: Vec<String>)
    ensures
        strs(r@) == comment_file_messages_spec(*cfg, path@, content@),
{
    let exts = super::diff_check::check_extensions(cfg);
    let ignore = super::diff_check::check_ignore_patterns(cfg);
    if !crate::gitdiff::has_extension(path, &exts) || matches_any(path, &ignore) {
        return no_messages();
    }
    let added: std::collections::HashSet<i64> = std::collections::HashSet::new();
    check_file_comments(cfg, path, &added, true, content)
}

} // verus!
