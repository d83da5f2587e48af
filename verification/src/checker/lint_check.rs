//! The data file lint of changed and tracked files.

use vstd::prelude::*;
use std::sync::atomic::AtomicBool;
use crate::config::accessors::{opt_or, strs};
use crate::config::types::Config;
use crate::lint::{
    error_view, errors_view, has_lint_disable_comment, json5_errors, json_errors, jsonc_errors, lint_disabled,
    toml_errors, validate_json, validate_json5, validate_jsonc, validate_toml, validate_xml, validate_yaml,
    xml_errors, yaml_errors, ValidationError, DEFAULT_JSON_IGNORE_FILES,
};
use crate::messages::{arg_views, message, tr};
use crate::pathutil::{file_name, file_name_spec, matches_any, matches_any_spec};
use crate::text::{chars_of, int_seq, lowercase, rfind_char, rfind_char_spec};
use super::cancel::check_cancelled;
use super::util::int_string;

verus! {

/// A path's extension, lower-cased: from the last `.` of its file name (nothing without one).
pub open spec fn lint_ext(path: Seq<char>) -> Seq<char> {
    let base = match file_name_spec(path) {
        Some(b) => b,
        None => Seq::empty(),
    };
    match rfind_char_spec(base, '.') {
        Some(i) => lowercase(base.skip(i)),
        None => Seq::empty(),
    }
}

fn lint_ext_exec(path: &str) -> (r: Vec<char>)
    ensures
        r@ == lint_ext(path@),
{
    let base = match file_name(&chars_of(path)) {
        Some(b) => b,
        None => Vec::new(),
    };
    assert(file_name_spec(path@) is None ==> base@ =~= Seq::<char>::empty());
    match rfind_char(&base, '.') {
        Some(i) => {
            proof {
                crate::pathutil::lemma_rfind_bounds(base@, '.');
            }
            crate::text::lower_chars(&crate::text::slice_chars(&base, i, base.len()))
        },
        None => Vec::new(),
    }
}

/// The default JSON ignore list.
pub open spec fn default_json_ignores() -> Seq<Seq<char>> {
    seq![
        "package-lock.json"@,
        "yarn.lock"@,
        "pnpm-lock.yaml"@,
        "composer.lock"@,
        "Pipfile.lock"@,
        "Gemfile.lock"@,
        "Cargo.lock"@,
        "go.sum"@,
    ]
}

/// The syntax errors of a file by its extension, under the lint settings: YAML (unless
/// ignored or turned off by a `#` comment when comment filtering is on), `.jsonc` as JSON5,
/// JSON (the default ignore list applies when none is configured; JSON5 or JSONC syntax
/// when allowed), XML and TOML (unless ignored); each only when its rule is enabled.
pub open spec fn lint_errors(cfg: Config, path: Seq<char>, content: Seq<char>) -> Seq<(Seq<char>, i64, Seq<char>)> {
    let ext = lint_ext(path);
    let l = cfg.lint;
    if ext == ".yaml"@ || ext == ".yml"@ {
        if !opt_or(l.yaml.enabled, true) || matches_any_spec(path, strs(l.yaml.ignore_files@)) || (opt_or(
            l.yaml.comment_filter,
            false,
        ) && lint_disabled(content, "#"@)) {
            Seq::empty()
        } else {
            yaml_errors(path, content)
        }
    } else if ext == ".jsonc"@ {
        if !opt_or(l.json.enabled, true) {
            Seq::empty()
        } else {
            json5_errors(path, content)
        }
    } else if ext == ".json"@ {
        let ignored = if l.json.ignore_files@.len() == 0 {
            matches_any_spec(path, default_json_ignores())
        } else {
            matches_any_spec(path, strs(l.json.ignore_files@))
        };
        if !opt_or(l.json.enabled, true) || ignored {
            Seq::empty()
        } else if opt_or(l.json.allow_json5, false) {
            json5_errors(path, content)
        } else if opt_or(l.json.comment_filter, false) {
            jsonc_errors(path, content)
        } else {
            json_errors(path, content)
        }
    } else if ext == ".xml"@ {
        if !opt_or(l.xml.enabled, true) || matches_any_spec(path, strs(l.xml.ignore_files@)) {
            Seq::empty()
        } else {
            xml_errors(path, content)
        }
    } else if ext == ".toml"@ {
        if !opt_or(l.toml.enabled, true) || matches_any_spec(path, strs(l.toml.ignore_files@)) {
            Seq::empty()
        } else {
            toml_errors(path, content)
        }
    } else {
        Seq::empty()
    }
}

fn no_errors() -> (r: Vec<ValidationError>)
    ensures
        errors_view(r@) == Seq::<(Seq<char>, i64, Seq<char>)>::empty(),
{
    let v: Vec<ValidationError> = Vec::new();
    assert(errors_view(v@) =~= Seq::<(Seq<char>, i64, Seq<char>)>::empty());
    v
}

/// The syntax errors of a file (see `lint_errors`).
pub fn lint_validate(cfg: &Config, path: &str, content: &str) -> (r: Vec<ValidationError>)
    ensures
        errors_view(r@) == lint_errors(*cfg, path@, content@),
{
    let ext = lint_ext_exec(path);
    let l = &cfg.lint;
    if crate::text::chars_eq_str(&ext, ".yaml") || crate::text::chars_eq_str(&ext, ".yml") {
        if !l.yaml.is_enabled() || matches_any(path, &l.yaml.ignore_files) || (l.yaml.is_comment_filter()
            && has_lint_disable_comment(content, "#")) {
            return no_errors();
        }
        validate_yaml(path, content)
    } else if crate::text::chars_eq_str(&ext, ".jsonc") {
        if !l.json.is_enabled() {
            return no_errors();
        }
        validate_json5(path, content)
    } else if crate::text::chars_eq_str(&ext, ".json") {
        let ignored = if l.json.ignore_files.len() == 0 {
            let mut defaults: Vec<String> = Vec::new();
            let mut k: usize = 0;
            while k < 8
                invariant
                    k <= 8,
                    strs(defaults@) == default_json_ignores().take(k as int),
                decreases 8 - k,
            {
                let ghost before = strs(defaults@);
                let d = crate::text::owned(DEFAULT_JSON_IGNORE_FILES[k]);
                assert(DEFAULT_JSON_IGNORE_FILES[k as int]@ == default_json_ignores()[k as int]);
                defaults.push(d);
                assert(strs(defaults@) =~= before.push(d@));
                assert(default_json_ignores().take(k + 1) =~= default_json_ignores().take(k as int).push(
                    default_json_ignores()[k as int],
                ));
                k += 1;
            }
            assert(default_json_ignores().take(8) =~= default_json_ignores());
            matches_any(path, &defaults)
        } else {
            matches_any(path, &l.json.ignore_files)
        };
        if !l.json.is_enabled() || ignored {
            return no_errors();
        }
        if l.json.is_allow_json5() {
            validate_json5(path, content)
        } else if l.json.is_comment_filter() {
            validate_jsonc(path, content)
        } else {
            validate_json(path, content)
        }
    } else if crate::text::chars_eq_str(&ext, ".xml") {
        if !l.xml.is_enabled() || matches_any(path, &l.xml.ignore_files) {
            return no_errors();
        }
        validate_xml(path, content)
    } else if crate::text::chars_eq_str(&ext, ".toml") {
        if !l.toml.is_enabled() || matches_any(path, &l.toml.ignore_files) {
            return no_errors();
        }
        validate_toml(path, content)
    } else {
        no_errors()
    }
}

/// The message of a syntax error.
pub open spec fn lint_message(e: (Seq<char>, i64, Seq<char>)) -> Seq<char> {
    message("diff.lint_error"@, seq![("Path"@, e.0), ("Line"@, int_seq(e.1 as int)), ("Message"@, e.2)])
}

/// The messages of the errors, in order.
pub open spec fn lint_messages(es: Seq<(Seq<char>, i64, Seq<char>)>) -> Seq<Seq<char>> {
    es.map_values(|e: (Seq<char>, i64, Seq<char>)| lint_message(e))
}

/// The messages of syntax errors (see `lint_message`).
pub fn to_messages(errs: Vec<ValidationError>) -> (r: Vec<String>)
    ensures
        strs(r@) == lint_messages(errors_view(errs@)),
{
    let ghost ev = errors_view(errs@);
    let mut out: Vec<String> = Vec::new();
    let mut i: usize = 0;
    while i < errs.len()
        invariant
            i <= errs@.len(),
            ev == errors_view(errs@),
            strs(out@) == lint_messages(ev.take(i as int)),
        decreases errs.len() - i,
    {
        let e = &errs[i];
        let mut args: Vec<(&str, String)> = Vec::new();
        args.push(("Path", e.file.clone()));
        args.push(("Line", int_string(e.line)));
        args.push(("Message", e.message.clone()));
        assert(arg_views(args@) =~= seq![("Path"@, e.file@), ("Line"@, int_seq(e.line as int)), ("Message"@, e.message@)]);
        let m = tr("diff.lint_error", &args);
        let ghost before = strs(out@);
        out.push(m);
        assert(strs(out@) =~= before.push(m@));
        assert(ev[i as int] == error_view(*e));
        assert(lint_messages(ev.take(i + 1)) =~= lint_messages(ev.take(i as int)).push(lint_message(ev[i as int])));
        i += 1;
    }
    assert(ev.take(errs@.len() as int) =~= ev);
    out
}

/// Whether the lint reads a file: not globally ignored and with an extension.
pub open spec fn lint_reads(cfg: Config, path: Seq<char>) -> bool {
    !matches_any_spec(path, strs(cfg.exceptions.global_ignore@)) && lint_ext(path).len() > 0
}

/// Whether the lint needs the file's content (see `lint_reads`).
pub fn needs_lint_content(cfg: &Config, path: &str) -> (r: bool)
    ensures
        r == lint_reads(*cfg, path@),
{
    !matches_any(path, &cfg.exceptions.global_ignore) && lint_ext_exec(path).len() > 0
}

/// The lint messages of one file with the given content (none when it is not read).
pub open spec fn lint_file_messages(cfg: Config, path: Seq<char>, content: Seq<char>) -> Seq<Seq<char>> {
    if lint_reads(cfg, path) {
        lint_messages(lint_errors(cfg, path, content))
    } else {
        Seq::empty()
    }
}

/// The lint messages of one file (see `lint_file_messages`).
pub fn lint_file(cfg: &Config, path: &str, content: &str) -> (r: Vec<String>)
    ensures
        strs(r@) == lint_file_messages(*cfg, path@, content@),
{
    if !needs_lint_content(cfg, path) {
        let v: Vec<String> = Vec::new();
        assert(strs(v@) =~= Seq::<Seq<char>>::empty());
        return v;
    }
    to_messages(lint_validate(cfg, path, content))
}

/// The lint messages of the files `fs[..]` with their contents (`None`: not read).
pub open spec fn lint_all(cfg: Config, fs: Seq<Seq<char>>, cs: Seq<Option<Seq<char>>>) -> Seq<Seq<char>>
    decreases fs.len(),
{
    if fs.len() == 0 {
        Seq::empty()
    } else {
        let k = fs.len() - 1;
        lint_all(cfg, fs.drop_last(), cs) + match cs[k] {
            Some(c) => lint_file_messages(cfg, fs[k], c),
            None => Seq::empty(),
        }
    }
}

/// The lint messages of the staged files; `contents[i]` is the staged content of `files[i]`
/// where it was read (see `needs_lint_content`). None when the lint is off;
/// `Err("interrupted")` when cancelled.
pub fn check_lint(cfg: &Config, files: &[String], contents: &[Option<String>], cancel: &AtomicBool) -> (r: Result<
    Vec<String>,
    String,
>)
    requires
        contents@.len() == files@.len(),
    ensures
        !opt_or(cfg.lint.enabled, true) ==> r is Ok,
        files@.len() == 0 ==> r is Ok,
        match r {
            Ok(v) => strs(v@) == (if opt_or(cfg.lint.enabled, true) {
                lint_all(*cfg, strs(files@), crate::checker::diff_check::contents_view(contents@))
            } else {
                Seq::empty()
            }),
            Err(e) => e@ == "interrupted"@,
        },
{
    let mut errs: Vec<String> = Vec::new();
    assert(strs(errs@) =~= Seq::<Seq<char>>::empty());
    if !cfg.lint.is_enabled() {
        return Ok(errs);
    }
    let ghost fv = strs(files@);
    let ghost cv = crate::checker::diff_check::contents_view(contents@);
    let mut i: usize = 0;
    while i < files.len()
        invariant
            opt_or(cfg.lint.enabled, true),
            i <= files@.len(),
            contents@.len() == files@.len(),
            fv == strs(files@),
            cv == crate::checker::diff_check::contents_view(contents@),
            strs(errs@) == lint_all(*cfg, fv.take(i as int), cv),
        decreases files.len() - i,
    {
        match check_cancelled(cancel) {
            Err(e) => {
                return Err(e);
            },
            Ok(()) => {},
        }
        proof {
            assert(fv.take(i + 1).drop_last() =~= fv.take(i as int));
            assert(fv.take(i + 1)[i as int] == files@[i as int]@);
        }
        let ghost before = strs(errs@);
        match &contents[i] {
            Some(c) => {
                let m = lint_file(cfg, files[i].as_str(), c.as_str());
                crate::checker::diff_check::extend_strings(&mut errs, &m);
            },
            None => {
                assert(before + Seq::<Seq<char>>::empty() =~= before);
            },
        }
        i += 1;
    }
    assert(fv.take(files@.len() as int) =~= fv);
    Ok(errs)
}

} // verus!
