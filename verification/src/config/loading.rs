//! The decisions made while loading configuration files: which included files apply and
//! how they are layered, where files are looked for, and the names of cached downloads.

use vstd::prelude::*;
use vstd::utf8::encode_utf8;
use crate::text::{
    chars_of, extend_chars, has_prefix, has_suffix, join_seq, split, split_seq, starts_with, string_of, str_eq,
    trim_end_set,
};
use super::copy::copy_config;
use super::merge::{merge_configs, merged};
use super::types::{same_config, AllowedWordsCacheConfig, Config, IncludeRule};

verus! {

// ---------------------------------------------------------------------------
// Included files.
// ---------------------------------------------------------------------------

/// Whether an include rule applies: it names a file, and it has no `gitdir` condition or the
/// working directory is known and matches it (`gitdir_ok`).
pub open spec fn include_applies(rule: IncludeRule, work_dir: Seq<char>, gitdir_ok: bool) -> bool {
    rule.path@.len() > 0 && (rule.gitdir@.len() == 0 || (work_dir.len() > 0 && gitdir_ok))
}

/// Whether an include rule applies (see `include_applies`).
pub fn include_rule_applies(rule: &IncludeRule, work_dir: &str, gitdir_ok: bool) -> (r: bool)
    ensures
        r == include_applies(*rule, work_dir@, gitdir_ok),
{
    !crate::text::is_empty_str(rule.path.as_str()) && (crate::text::is_empty_str(rule.gitdir.as_str()) || (
    !crate::text::is_empty_str(work_dir) && gitdir_ok))
}

/// The included configurations layered, in order, among the first `k` rules: those of the
/// rules that apply and whose file was read and parsed.
pub open spec fn taken(
    rules: Seq<IncludeRule>,
    work_dir: Seq<char>,
    ok: Seq<bool>,
    loaded: Seq<Option<Config>>,
    k: int,
) -> Seq<Config>
    decreases k,
{
    if k <= 0 {
        Seq::empty()
    } else {
        let prev = taken(rules, work_dir, ok, loaded, k - 1);
        if include_applies(rules[k - 1], work_dir, ok[k - 1]) {
            match loaded[k - 1] {
                Some(c) => prev.push(c),
                None => prev,
            }
        } else {
            prev
        }
    }
}

/// `rs[k]` is the configurations `incs[..=k]` merged in order, each over the ones before it.
pub open spec fn merge_chain(incs: Seq<Config>, rs: Seq<Config>) -> bool {
    &&& incs.len() > 0
    &&& rs.len() == incs.len()
    &&& same_config(rs[0], incs[0])
    &&& forall|k: int| 1 <= k < incs.len() ==> #[trigger] merged(rs[k - 1], incs[k], rs[k])
}

/// `r` is the configurations `incs` merged in order, each over the ones before it.
pub open spec fn folded(incs: Seq<Config>, r: Config) -> bool {
    exists|rs: Seq<Config>| #[trigger] merge_chain(incs, rs) && rs.last() == r
}

/// The configuration with its included files as base layers: the files of the rules that
/// apply (see `include_applies`; `gitdir_ok[i]` tells whether rule `i`'s `gitdir` matches
/// the working directory `work_dir`, empty when unknown) and that were read and parsed
/// (`loaded[i]`), merged in order, with the configuration itself merged over them.
pub fn resolve_includes(cfg: &Config, work_dir: &str, gitdir_ok: &[bool], loaded: &[Option<Config>]) -> (r: Config)
    requires
        gitdir_ok@.len() == cfg.includes@.len(),
        loaded@.len() == cfg.includes@.len(),
    ensures
        ({
            let incs = taken(cfg.includes@, work_dir@, gitdir_ok@, loaded@, cfg.includes@.len() as int);
            &&& incs.len() == 0 ==> same_config(r, *cfg)
            &&& incs.len() > 0 ==> exists|b: Config| #[trigger] folded(incs, b) && merged(b, *cfg, r)
        }),
{
    let ghost rules = cfg.includes@;
    let mut base: Option<Config> = None;
    let ghost mut chain: Seq<Config> = Seq::empty();
    let mut i: usize = 0;
    while i < cfg.includes.len()
        invariant
            i <= rules.len(),
            rules == cfg.includes@,
            gitdir_ok@.len() == rules.len(),
            loaded@.len() == rules.len(),
            base is None <==> taken(rules, work_dir@, gitdir_ok@, loaded@, i as int).len() == 0,
            base matches Some(b) ==> merge_chain(taken(rules, work_dir@, gitdir_ok@, loaded@, i as int), chain)
                && chain.last() == b,
        decreases rules.len() - i,
    {
        let ghost t0 = taken(rules, work_dir@, gitdir_ok@, loaded@, i as int);
        assert(rules[i as int] == cfg.includes@[i as int]);
        if include_rule_applies(&cfg.includes[i], work_dir, gitdir_ok[i]) {
            match &loaded[i] {
                Some(inc) => {
                    let ghost t1 = t0.push(*inc);
                    assert(t1.drop_last() =~= t0);
                    let next = match &base {
                        None => {
                            let c = copy_config(inc);
                            proof {
                                chain = seq![c];
                                assert(merge_chain(t1, chain));
                            }
                            c
                        },
                        Some(b) => {
                            let m = merge_configs(b, inc);
                            proof {
                                let c0 = chain;
                                chain = chain.push(m);
                                assert forall|k: int| 1 <= k < t1.len() implies #[trigger] merged(
                                    chain[k - 1],
                                    t1[k],
                                    chain[k],
                                ) by {
                                    if k < t1.len() - 1 {
                                        assert(t1[k] == t0[k] && chain[k] == c0[k] && chain[k - 1] == c0[k - 1]);
                                        assert(merged(c0[k - 1], t0[k], c0[k]));
                                    }
                                }
                                assert(merge_chain(t1, chain));
                            }
                            m
                        },
                    };
                    base = Some(next);
                    assert(taken(rules, work_dir@, gitdir_ok@, loaded@, i + 1) == t1);
                },
                None => {
                    assert(taken(rules, work_dir@, gitdir_ok@, loaded@, i + 1) == t0);
                },
            }
        } else {
            assert(taken(rules, work_dir@, gitdir_ok@, loaded@, i + 1) == t0);
        }
        i += 1;
    }
    match base {
        None => copy_config(cfg),
        Some(b) => {
            let r = merge_configs(&b, cfg);
            assert(folded(taken(rules, work_dir@, gitdir_ok@, loaded@, rules.len() as int), b));
            r
        },
    }
}

// ---------------------------------------------------------------------------
// Paths.
// ---------------------------------------------------------------------------

/// `rest` joined onto `dir` the way `Path::join` does: an absolute `rest` replaces `dir`, and a
/// separator is put between them when `dir` does not end with one.
pub open spec fn join_path(dir: Seq<char>, rest: Seq<char>) -> Seq<char> {
    if rest.len() > 0 && rest[0] == '/' {
        rest
    } else if dir.len() > 0 && dir.last() != '/' {
        dir + "/"@ + rest
    } else {
        dir + rest
    }
}

fn join_path_exec(dir: &str, rest: &str) -> (r: String)
    ensures
        r@ == join_path(dir@, rest@),
{
    let d = chars_of(dir);
    let t = chars_of(rest);
    proof {
        reveal_strlit("/");
    }
    if t.len() > 0 && t[0] == '/' {
        return rest.to_string();
    }
    let mut v = crate::text::copy_chars(&d);
    if d.len() > 0 && d[d.len() - 1] != '/' {
        v.push('/');
        extend_chars(&mut v, &t);
        assert(v@ =~= dir@ + "/"@ + rest@);
    } else {
        extend_chars(&mut v, &t);
    }
    string_of(&v)
}

/// A path with a leading `~` (alone or followed by `/`) replaced by the home directory, when
/// it is known.
pub open spec fn expand_tilde_spec(p: Seq<char>, home: Option<Seq<char>>) -> Seq<char> {
    if p == "~"@ {
        match home {
            Some(h) => h,
            None => p,
        }
    } else if has_prefix(p, "~/"@) {
        match home {
            Some(h) => join_path(h, p.skip(2)),
            None => p,
        }
    } else {
        p
    }
}

pub open spec fn opt_str(o: Option<String>) -> Option<Seq<char>> {
    match o {
        Some(s) => Some(s@),
        None => None,
    }
}

/// A path with `~` expanded (see `expand_tilde_spec`); `home` is the home directory.
pub fn expand_tilde(p: &str, home: &Option<String>) -> (r: String)
    ensures
        r@ == expand_tilde_spec(p@, opt_str(*home)),
{
    let pc = chars_of(p);
    proof {
        reveal_strlit("~");
        reveal_strlit("~/");
    }
    if pc.len() == 1 && pc[0] == '~' {
        assert(p@ =~= "~"@);
        return match home {
            Some(h) => h.clone(),
            None => p.to_string(),
        };
    }
    let starts = pc.len() >= 2 && pc[0] == '~' && pc[1] == '/';
    assert(starts == has_prefix(p@, "~/"@)) by {
        assert("~/"@ =~= seq!['~', '/']);
        if pc@.len() >= 2 {
            assert(p@.take(2)[0] == p@[0] && p@.take(2)[1] == p@[1]);
            if starts {
                assert(p@.take(2) =~= "~/"@);
            }
        }
    }
    assert(p@ != "~"@) by {
        assert("~"@ =~= seq!['~']);
    }
    if starts {
        match home {
            Some(h) => {
                let rest = crate::text::slice_chars(&pc, 2, pc.len());
                assert(rest@ =~= p@.skip(2));
                join_path_exec(h.as_str(), string_of(&rest).as_str())
            },
            None => p.to_string(),
        }
    } else {
        p.to_string()
    }
}

/// The components of a path kept by normalisation, applied in order to a stack of names:
/// empty and `.` parts are dropped, `..` removes the last name (if any), others are pushed.
pub open spec fn clean_stack(parts: Seq<Seq<char>>) -> Seq<Seq<char>>
    decreases parts.len(),
{
    if parts.len() == 0 {
        Seq::empty()
    } else {
        let st = clean_stack(parts.drop_last());
        let x = parts.last();
        if x.len() == 0 || x == "."@ {
            st
        } else if x == ".."@ {
            if st.len() > 0 {
                st.drop_last()
            } else {
                st
            }
        } else {
            st.push(x)
        }
    }
}

/// A path with `.` and `..` resolved and repeated or trailing separators dropped, keeping a
/// leading `/`; `..` above the top is dropped.
pub open spec fn clean_path_spec(p: Seq<char>) -> Seq<char> {
    let names = join_seq(clean_stack(split_seq(p, '/')), "/"@);
    if p.len() > 0 && p[0] == '/' {
        "/"@ + names
    } else {
        names
    }
}

/// A normalised path (see `clean_path_spec`).
pub fn clean_path(p: &str) -> (r: String)
    ensures
        r@ == clean_path_spec(p@),
{
    let pc = chars_of(p);
    let parts = split(&pc, '/');
    let ghost pv = parts@.map_values(|v: Vec<char>| v@);
    let mut st: Vec<Vec<char>> = Vec::new();
    let mut i: usize = 0;
    proof {
        reveal_strlit(".");
        reveal_strlit("..");
        reveal_strlit("/");
    }
    while i < parts.len()
        invariant
            i <= parts@.len(),
            pv == parts@.map_values(|v: Vec<char>| v@),
            st@.map_values(|v: Vec<char>| v@) == clean_stack(pv.take(i as int)),
            "."@ == seq!['.'],
            ".."@ == seq!['.', '.'],
        decreases parts.len() - i,
    {
        assert(pv.take(i + 1).drop_last() =~= pv.take(i as int));
        let x = &parts[i];
        assert(pv.take(i + 1).last() == x@);
        let ghost s0 = st@.map_values(|v: Vec<char>| v@);
        if x.len() == 0 || (x.len() == 1 && x[0] == '.') {
            assert(x@.len() == 0 || x@ =~= "."@);
        } else if x.len() == 2 && x[0] == '.' && x[1] == '.' {
            assert(x@ =~= ".."@);
            if st.len() > 0 {
                st.pop();
                assert(st@.map_values(|v: Vec<char>| v@) =~= s0.drop_last());
            }
        } else {
            assert(x@ != "."@ && x@ != ".."@);
            st.push(crate::text::copy_chars(x));
            assert(st@.map_values(|v: Vec<char>| v@) =~= s0.push(x@));
        }
        i += 1;
    }
    assert(pv.take(parts@.len() as int) =~= pv);
    let sep = vec!['/'];
    assert(sep@ =~= "/"@);
    let names = crate::text::join(&st, &sep);
    if pc.len() > 0 && pc[0] == '/' {
        let mut v = vec!['/'];
        extend_chars(&mut v, &names);
        assert(v@ =~= "/"@ + names@);
        string_of(&v)
    } else {
        string_of(&names)
    }
}

/// The path of an included file: `~` expanded; an absolute path normalised; a relative one
/// taken from the directory of the including file `cfg_path` and normalised.
pub open spec fn include_path_spec(path: Seq<char>, cfg_path: Seq<char>, home: Option<Seq<char>>) -> Seq<char> {
    let p = expand_tilde_spec(path, home);
    if p.len() > 0 && p[0] == '/' {
        clean_path_spec(p)
    } else {
        clean_path_spec(cfg_path + "/../"@ + p)
    }
}

/// The path of an included file (see `include_path_spec`).
pub fn resolve_include_path(path: &str, cfg_path: &str, home: &Option<String>) -> (r: String)
    ensures
        r@ == include_path_spec(path@, cfg_path@, opt_str(*home)),
{
    let p = expand_tilde(path, home);
    let pc = chars_of(p.as_str());
    if pc.len() > 0 && pc[0] == '/' {
        clean_path(p.as_str())
    } else {
        let mut v = chars_of(cfg_path);
        extend_chars(&mut v, &chars_of("/../"));
        extend_chars(&mut v, &pc);
        clean_path(string_of(&v).as_str())
    }
}

/// The glob a `gitdir` condition stands for: `~` expanded, `\` turned into `/`, and a pattern
/// ending with `/` made to match everything under that directory.
pub open spec fn gitdir_glob_spec(pattern: Seq<char>, home: Option<Seq<char>>) -> Seq<char> {
    let p = crate::text::replace_seq(expand_tilde_spec(pattern, home), "\\"@, "/"@);
    if pattern.len() > 0 && pattern.last() == '/' {
        trim_end_set(p, seq!['/']) + "/**"@
    } else {
        p
    }
}

/// The glob of a `gitdir` condition (see `gitdir_glob_spec`).
pub fn gitdir_glob(pattern: &str, home: &Option<String>) -> (r: String)
    ensures
        r@ == gitdir_glob_spec(pattern@, opt_str(*home)),
{
    let pc = chars_of(pattern);
    proof {
        reveal_strlit("\\");
        reveal_strlit("/");
        reveal_strlit("/**");
    }
    let e = chars_of(expand_tilde(pattern, home).as_str());
    let p = crate::text::replace_chars(&e, &chars_of("\\"), &chars_of("/"));
    if pc.len() > 0 && pc[pc.len() - 1] == '/' {
        let slash = vec!['/'];
        assert(slash@ =~= seq!['/']);
        let mut t = crate::text::trim_end_matches(&p, &slash);
        extend_chars(&mut t, &chars_of("/**"));
        string_of(&t)
    } else {
        string_of(&p)
    }
}

/// Whether the working directory `work_dir` (symbolic links resolved) matches the glob of a
/// `gitdir` condition (with its literal leading directories resolved).
pub fn gitdir_match(work_dir: &str, glob: &str) -> (r: bool)
    ensures
        r == crate::pathutil::double_star_match(crate::text::replace_seq(work_dir@, "\\"@, "/"@), glob@),
{
    proof {
        reveal_strlit("\\");
    }
    let w = crate::text::replace_chars(&chars_of(work_dir), &chars_of("\\"), &chars_of("/"));
    crate::pathutil::match_path(string_of(&w).as_str(), glob)
}

// ---------------------------------------------------------------------------
// The global configuration file.
// ---------------------------------------------------------------------------

/// The places a global configuration file is looked for, in order: under
/// `$XDG_CONFIG_HOME/git-warden/` (when set and not empty), under the platform configuration
/// directory, then `~/.config/git-warden/` and `~/.git-warden.yml`; each directory is tried
/// with `config.yaml` then `config.yml`.
pub open spec fn global_candidates(xdg: Option<Seq<char>>, config_dir: Option<Seq<char>>, home: Option<Seq<char>>) -> Seq<
    Seq<char>,
> {
    let in_dir = |d: Seq<char>|
        seq![
            join_path(join_path(d, "git-warden"@), "config.yaml"@),
            join_path(join_path(d, "git-warden"@), "config.yml"@),
        ];
    let a = match xdg {
        Some(x) => if x.len() > 0 {
            in_dir(x)
        } else {
            Seq::empty()
        },
        None => Seq::empty(),
    };
    let b = match config_dir {
        Some(d) => in_dir(d),
        None => Seq::empty(),
    };
    let c = match home {
        Some(h) => in_dir(join_path(h, ".config"@)).push(join_path(h, ".git-warden.yml"@)),
        None => Seq::empty(),
    };
    a + b + c
}

fn push_in_dir(out: &mut Vec<String>, d: &str)
    ensures
        final(out)@.map_values(|s: String| s@) == old(out)@.map_values(|s: String| s@) + seq![
            join_path(join_path(d@, "git-warden"@), "config.yaml"@),
            join_path(join_path(d@, "git-warden"@), "config.yml"@),
        ],
{
    let g = join_path_exec(d, "git-warden");
    let ghost o0 = out@.map_values(|s: String| s@);
    out.push(join_path_exec(g.as_str(), "config.yaml"));
    out.push(join_path_exec(g.as_str(), "config.yml"));
    assert(out@.map_values(|s: String| s@) =~= o0 + seq![
        join_path(join_path(d@, "git-warden"@), "config.yaml"@),
        join_path(join_path(d@, "git-warden"@), "config.yml"@),
    ]);
}

/// The places a global configuration file is looked for (see `global_candidates`).
pub fn global_config_candidates(xdg: &Option<String>, config_dir: &Option<String>, home: &Option<String>) -> (r: Vec<
    String,
>)
    ensures
        r@.map_values(|s: String| s@) == global_candidates(opt_str(*xdg), opt_str(*config_dir), opt_str(*home)),
{
    let mut out: Vec<String> = Vec::new();
    assert(out@.map_values(|s: String| s@) =~= Seq::<Seq<char>>::empty());
    match xdg {
        Some(x) => {
            if !crate::text::is_empty_str(x.as_str()) {
                push_in_dir(&mut out, x.as_str());
            }
        },
        None => {},
    }
    let ghost a = out@.map_values(|s: String| s@);
    match config_dir {
        Some(d) => {
            push_in_dir(&mut out, d.as_str());
        },
        None => {},
    }
    let ghost ab = out@.map_values(|s: String| s@);
    match home {
        Some(h) => {
            let c = join_path_exec(h.as_str(), ".config");
            push_in_dir(&mut out, c.as_str());
            let ghost o0 = out@.map_values(|s: String| s@);
            out.push(join_path_exec(h.as_str(), ".git-warden.yml"));
            assert(out@.map_values(|s: String| s@) =~= o0.push(join_path(h@, ".git-warden.yml"@)));
        },
        None => {},
    }
    assert(out@.map_values(|s: String| s@) =~= global_candidates(opt_str(*xdg), opt_str(*config_dir), opt_str(*home)));
    out
}

// ---------------------------------------------------------------------------
// Cached downloads.
// ---------------------------------------------------------------------------

/// The SHA-256 digest of the bytes.
pub uninterp spec fn sha256_of(data: Seq<u8>) -> Seq<u8>;

/// `sha2::Sha256::digest`: the SHA-256 digest of `data`, named `sha256_of`; it is 32 bytes
/// long, as the crate's output size says.
#[verifier::external_body]
fn sha256(data: &[u8]) -> (r: Vec<u8>)
    ensures
        r@ == sha256_of(data@),
        r@.len() == 32,
{
    <sha2::Sha256 as sha2::Digest>::digest(data).to_vec()
}

pub open spec fn lower_hex_digit(d: int) -> char {
    if d < 10 {
        (('0' as int) + d) as char
    } else {
        (('a' as int) + d - 10) as char
    }
}

/// The bytes in lower-case hexadecimal, two digits each.
pub open spec fn hex_bytes(b: Seq<u8>) -> Seq<char>
    decreases b.len(),
{
    if b.len() == 0 {
        Seq::empty()
    } else {
        hex_bytes(b.drop_last()) + seq![lower_hex_digit((b.last() / 16) as int), lower_hex_digit((b.last() % 16) as int)]
    }
}

fn hex_digit(d: u8) -> (r: char)
    requires
        d < 16,
    ensures
        r == lower_hex_digit(d as int),
{
    if d < 10 {
        (48 + d) as char
    } else {
        (87 + d) as char
    }
}

/// The name of a cached download: `<prefix>_<first 8 bytes of the SHA-256 of the URL in
/// hex>.<ext>`.
pub open spec fn cache_key_spec(url: Seq<char>, prefix: Seq<char>, ext: Seq<char>) -> Seq<char> {
    prefix + "_"@ + hex_bytes(sha256_of(encode_utf8(url)).take(8)) + "."@ + ext
}

/// The name of a cached download (see `cache_key_spec`).
pub fn cache_key(raw_url: &str, prefix: &str, ext: &str) -> (r: String)
    ensures
        r@ == cache_key_spec(raw_url@, prefix@, ext@),
{
    let d = sha256(raw_url.as_bytes());
    let mut v = chars_of(prefix);
    v.push('_');
    let ghost head = v@;
    let mut i: usize = 0;
    while i < 8
        invariant
            i <= 8,
            d@.len() == 32,
            v@ == head + hex_bytes(d@.take(i as int)),
        decreases 8 - i,
    {
        let b = d[i];
        assert(d@.take(i + 1).drop_last() =~= d@.take(i as int));
        v.push(hex_digit(b / 16));
        v.push(hex_digit(b % 16));
        assert(v@ =~= head + hex_bytes(d@.take(i + 1)));
        i += 1;
    }
    v.push('.');
    extend_chars(&mut v, &chars_of(ext));
    proof {
        reveal_strlit("_");
        reveal_strlit(".");
    }
    assert(v@ =~= cache_key_spec(raw_url@, prefix@, ext@));
    string_of(&v)
}

/// The name of the cached word list of a URL.
pub fn words_key(raw_url: &str) -> (r: String)
    ensures
        r@ == cache_key_spec(raw_url@, "words"@, "txt"@),
{
    cache_key(raw_url, "words", "txt")
}

/// The name of the cached preset of a URL.
pub fn preset_key(raw_url: &str) -> (r: String)
    ensures
        r@ == cache_key_spec(raw_url@, "preset"@, "yml"@),
{
    cache_key(raw_url, "preset", "yml")
}

/// The file name under the cache directory that holds the download of a URL (the word list,
/// or the preset), when caching is enabled.
pub fn cached_file_name(cache: &AllowedWordsCacheConfig, raw_url: &str, words: bool) -> (r: Option<String>)
    ensures
        match r {
            None => cache.enabled != Some(true),
            Some(k) => cache.enabled == Some(true) && k@ == (if words {
                cache_key_spec(raw_url@, "words"@, "txt"@)
            } else {
                cache_key_spec(raw_url@, "preset"@, "yml"@)
            }),
        },
{
    if !cache.is_enabled() {
        return None;
    }
    if words {
        Some(words_key(raw_url))
    } else {
        Some(preset_key(raw_url))
    }
}

// ---------------------------------------------------------------------------
// Loading steps.
// ---------------------------------------------------------------------------

/// Whether a file of this format version is brought to the current format before it is read.
pub fn migration_needed(v: super::schema::Version) -> (r: bool)
    ensures
        r == (v != super::schema::Version::Current && v != super::schema::Version::Unknown),
{
    v != super::schema::Version::Current && v != super::schema::Version::Unknown
}

/// Checks a configuration downloaded as a preset: a preset may not name another preset (the
/// error says which); its includes are dropped, as local files may not be pulled in from a
/// remote configuration (`Ok(true)` when there were some).
pub fn check_preset(cfg: &mut Config) -> (r: Result<bool, String>)
    ensures
        old(cfg).preset.url@.len() > 0 ==> (r matches Err(e) && e@
            == "presets cannot be nested (preset.url inside a preset is not allowed): "@ + old(cfg).preset.url@),
        old(cfg).preset.url@.len() == 0 ==> r == Ok::<bool, String>(old(cfg).includes@.len() > 0),
        old(cfg).preset.url@.len() == 0 ==> final(cfg).includes@.len() == 0,
{
    if !crate::text::is_empty_str(cfg.preset.url.as_str()) {
        let mut v = chars_of("presets cannot be nested (preset.url inside a preset is not allowed): ");
        extend_chars(&mut v, &chars_of(cfg.preset.url.as_str()));
        return Err(string_of(&v));
    }
    let had = cfg.includes.len() > 0;
    cfg.includes = Vec::new();
    Ok(had)
}

/// The path of the allowed-words file: a leading `~/` is replaced by the home directory when
/// it is known.
pub open spec fn words_file_spec(p: Seq<char>, home: Option<Seq<char>>) -> Seq<char> {
    if has_prefix(p, "~/"@) && home is Some {
        join_path(home.unwrap(), p.skip(2))
    } else {
        p
    }
}

/// The path of the allowed-words file (see `words_file_spec`).
pub fn words_file_path(p: &str, home: &Option<String>) -> (r: String)
    ensures
        r@ == words_file_spec(p@, opt_str(*home)),
{
    let pc = chars_of(p);
    let starts = pc.len() >= 2 && pc[0] == '~' && pc[1] == '/';
    proof {
        reveal_strlit("~/");
    }
    assert(starts == has_prefix(p@, "~/"@)) by {
        assert("~/"@ =~= seq!['~', '/']);
        if pc@.len() >= 2 {
            assert(p@.take(2)[0] == p@[0] && p@.take(2)[1] == p@[1]);
            if starts {
                assert(p@.take(2) =~= "~/"@);
            }
        }
    }
    match home {
        Some(h) => {
            if starts {
                let rest = crate::text::slice_chars(&pc, 2, pc.len());
                assert(rest@ =~= p@.skip(2));
                join_path_exec(h.as_str(), string_of(&rest).as_str())
            } else {
                p.to_string()
            }
        },
        None => p.to_string(),
    }
}

/// Adds the words of a word list (one per line; blank lines and `#` comments skipped) to the
/// allowed words.
pub fn add_allowed_words(cfg: &mut Config, text: &str)
    ensures
        final(cfg).comment_language.allowed_words@.map_values(|s: String| s@) == old(
            cfg,
        ).comment_language.allowed_words@.map_values(|s: String| s@) + super::validate::word_lines(
            split_seq(text@, '\n'),
        ),
{
    let words = super::validate::parse_word_lines(text);
    let mut i: usize = 0;
    let ghost w0 = cfg.comment_language.allowed_words@.map_values(|s: String| s@);
    let ghost wv = words@.map_values(|s: String| s@);
    while i < words.len()
        invariant
            i <= words@.len(),
            wv == words@.map_values(|s: String| s@),
            cfg.comment_language.allowed_words@.map_values(|s: String| s@) == w0 + wv.take(i as int),
        decreases words.len() - i,
    {
        let ghost a0 = cfg.comment_language.allowed_words@.map_values(|s: String| s@);
        cfg.comment_language.allowed_words.push(words[i].clone());
        assert(cfg.comment_language.allowed_words@.map_values(|s: String| s@) =~= a0.push(wv[i as int]));
        assert(wv.take(i + 1) =~= wv.take(i as int).push(wv[i as int]));
        i += 1;
    }
    assert(wv.take(words@.len() as int) =~= wv);
}

} // verus!
