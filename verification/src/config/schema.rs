//! Versions of the configuration file format: which one a file is written in, and the text
//! rewrites that bring an older file to the current format, comments kept.

use vstd::prelude::*;
use vstd::utf8::encode_utf8;
use crate::text::{
    has_suffix, chars_of, extend_chars, find, find_seq, first_not_in, has_prefix, join, join_seq, slice_chars, split, split_seq,
    starts_with, string_of, trim, trim_seq, trim_start_matches, trim_start_set, utf8_lossy,
};

verus! {

/// A version of the configuration format.
#[derive(Debug, Clone, Copy, PartialEq, Eq, Structural)]
pub enum Version {
    /// v1.2.0
    Current,
    V110,
    V102,
    V101,
    V100,
    Unknown,
}

pub open spec fn version_name(v: Version) -> Seq<char> {
    match v {
        Version::Current => "v1.2.0"@,
        Version::V110 => "v1.1.0"@,
        Version::V102 => "v1.0.2"@,
        Version::V101 => "v1.0.1"@,
        Version::V100 => "v1.0.0"@,
        Version::Unknown => "unknown"@,
    }
}

impl Version {
    /// The version's name, such as `v1.2.0`.
    pub fn as_str(&self) -> (r: &'static str)
        ensures
            r@ == version_name(*self),
    {
        match self {
            Version::Current => "v1.2.0",
            Version::V110 => "v1.1.0",
            Version::V102 => "v1.0.2",
            Version::V101 => "v1.0.1",
            Version::V100 => "v1.0.0",
            Version::Unknown => "unknown",
        }
    }
}

/// The rule that renames `commit_message.no_coauthor`.
pub const RENAME_NO_COAUTHOR: &'static str = "commit_message.no_coauthor → commit_message.no_ai_coauthor";

/// The rule that merges `required_language` and `language` into `locale`.
pub const RENAME_REQUIRED_LANGUAGE: &'static str = "required_language / language → locale (merged in v1.2.0)";

/// The rules that bring a file of version `v` to the current format, in the order they
/// apply: the key rename for files before v1.0.2, the locale merge for files before v1.2.0.
pub open spec fn migration_rules(v: Version) -> Seq<Seq<char>> {
    match v {
        Version::V100 | Version::V101 => seq![RENAME_NO_COAUTHOR@, RENAME_REQUIRED_LANGUAGE@],
        Version::V102 | Version::V110 => seq![RENAME_REQUIRED_LANGUAGE@],
        _ => Seq::empty(),
    }
}

/// The rules that bring a file of version `v` to the current format (see `migration_rules`).
pub fn migrate_up_descriptions(v: Version) -> (r: Vec<&'static str>)
    ensures
        r@.map_values(|s: &'static str| s@) == migration_rules(v),
{
    let mut out: Vec<&'static str> = Vec::new();
    match v {
        Version::V100 | Version::V101 => {
            out.push(RENAME_NO_COAUTHOR);
            out.push(RENAME_REQUIRED_LANGUAGE);
        },
        Version::V102 | Version::V110 => {
            out.push(RENAME_REQUIRED_LANGUAGE);
        },
        _ => {},
    }
    assert(out@.map_values(|s: &'static str| s@) =~= migration_rules(v));
    out
}

/// The blanks a YAML line may be indented with.
pub open spec fn blanks() -> Seq<char> {
    seq![' ', '\t']
}

/// A line without its indentation.
pub open spec fn unindented(line: Seq<char>) -> Seq<char> {
    trim_start_set(line, blanks())
}

/// How many blanks a line is indented by.
pub open spec fn indent_of(line: Seq<char>) -> int {
    first_not_in(line, blanks(), 0)
}

/// `s` with the first occurrence of `p` replaced by `q`.
pub open spec fn replace_first(s: Seq<char>, p: Seq<char>, q: Seq<char>) -> Seq<char> {
    match find_seq(s, p) {
        Some(i) => s.take(i) + q + s.skip(i + p.len()),
        None => s,
    }
}

/// A line with the key `old_key` renamed to `new_key` where the line begins with it.
pub open spec fn rename_line(line: Seq<char>, old_key: Seq<char>, new_key: Seq<char>) -> Seq<char> {
    let op = old_key + ":"@;
    if has_prefix(unindented(line), op) {
        replace_first(line, op, new_key + ":"@)
    } else {
        line
    }
}

pub open spec fn rename_lines(ls: Seq<Seq<char>>, old_key: Seq<char>, new_key: Seq<char>) -> Seq<Seq<char>> {
    ls.map_values(|l: Seq<char>| rename_line(l, old_key, new_key))
}

/// The text of `data` (decoded with replacement characters) with every line that begins
/// with `old_key:` renamed to `new_key:`, as UTF-8.
pub open spec fn rename_yaml_key_spec(data: Seq<u8>, old_key: Seq<char>, new_key: Seq<char>) -> Seq<u8> {
    encode_utf8(join_seq(rename_lines(split_seq(utf8_lossy(data), '\n'), old_key, new_key), "\n"@))
}

fn bytes_of(s: &str) -> (r: Vec<u8>)
    ensures
        r@ == encode_utf8(s@),
{
    vstd::slice::slice_to_vec(s.as_bytes())
}

fn with_colon(k: &str) -> (r: Vec<char>)
    ensures
        r@ == k@ + ":"@,
{
    let mut v = chars_of(k);
    v.push(':');
    proof {
        reveal_strlit(":");
    }
    assert(v@ =~= k@ + ":"@);
    v
}

fn blank_chars() -> (r: Vec<char>)
    ensures
        r@ == blanks(),
{
    let v = vec![' ', '\t'];
    assert(v@ =~= blanks());
    v
}

fn replace_first_exec(s: &Vec<char>, p: &Vec<char>, q: &Vec<char>) -> (r: Vec<char>)
    ensures
        r@ == replace_first(s@, p@, q@),
{
    proof {
        crate::text::lemma_find_seq(s@, p@);
    }
    match find(s, p) {
        Some(i) => {
            assert(crate::text::occurs_at(s@, p@, i as int));
            let mut out = slice_chars(s, 0, i);
            extend_chars(&mut out, q);
            let sl = s.len();
            let tail = slice_chars(s, i + p.len(), sl);
            extend_chars(&mut out, &tail);
            assert(out@ =~= s@.take(i as int) + q@ + s@.skip(i + p@.len()));
            out
        },
        None => crate::text::copy_chars(s),
    }
}

fn newline() -> (r: Vec<char>)
    ensures
        r@ == "\n"@,
{
    let v = vec!['\n'];
    proof {
        reveal_strlit("\n");
    }
    assert(v@ =~= "\n"@);
    v
}

/// Renames a key at the start of lines (see `rename_yaml_key_spec`); comments and layout stay.
pub fn rename_yaml_key(data: &[u8], old_key: &str, new_key: &str) -> (r: Vec<u8>)
    ensures
        r@ == rename_yaml_key_spec(data@, old_key@, new_key@),
{
    let text = crate::text::from_utf8_lossy(data);
    let lines = split(&chars_of(text.as_str()), '\n');
    let ghost lv = lines@.map_values(|v: Vec<char>| v@);
    let op = with_colon(old_key);
    let np = with_colon(new_key);
    let bl = blank_chars();
    let mut out: Vec<Vec<char>> = Vec::new();
    let mut i: usize = 0;
    while i < lines.len()
        invariant
            i <= lines@.len(),
            lv == lines@.map_values(|v: Vec<char>| v@),
            op@ == old_key@ + ":"@,
            np@ == new_key@ + ":"@,
            bl@ == blanks(),
            out@.map_values(|v: Vec<char>| v@) == rename_lines(lv.take(i as int), old_key@, new_key@),
        decreases lines.len() - i,
    {
        let line = &lines[i];
        let t = trim_start_matches(line, &bl);
        let nl = if starts_with(&t, &op) {
            replace_first_exec(line, &op, &np)
        } else {
            crate::text::copy_chars(line)
        };
        let ghost o0 = out@.map_values(|v: Vec<char>| v@);
        out.push(nl);
        assert(out@.map_values(|v: Vec<char>| v@) =~= rename_lines(lv.take(i + 1), old_key@, new_key@)) by {
            assert(out@.map_values(|v: Vec<char>| v@) =~= o0.push(nl@));
            assert(lv.take(i + 1) =~= lv.take(i as int).push(lv[i as int]));
        }
        i += 1;
    }
    assert(lv.take(lines@.len() as int) =~= lv);
    let joined = join(&out, &newline());
    bytes_of(string_of(&joined).as_str())
}

// ---------------------------------------------------------------------------
// Removing a key whose replacement is already present.
// ---------------------------------------------------------------------------

/// Whether a line is blank or a comment.
pub open spec fn skippable(line: Seq<char>) -> bool {
    trim_seq(line).len() == 0 || has_prefix(unindented(line), "#"@)
}

/// The key a line begins with, colon included (empty when it has no colon).
pub open spec fn key_at(line: Seq<char>) -> Seq<char> {
    let t = unindented(line);
    match find_seq(t, ":"@) {
        Some(i) => t.take(i + 1),
        None => Seq::empty(),
    }
}

/// Whether a line at indentation `ind` with key `peer` is found above line `j + 1`, within
/// the same block: blank lines, comments and deeper lines are passed over, a shallower line
/// ends the block.
pub open spec fn peer_above(lines: Seq<Seq<char>>, j: int, ind: int, peer: Seq<char>) -> bool
    decreases j + 1,
{
    if j < 0 || j >= lines.len() {
        false
    } else {
        let ln = lines[j];
        if skippable(ln) {
            peer_above(lines, j - 1, ind, peer)
        } else if indent_of(ln) < ind {
            false
        } else if indent_of(ln) > ind {
            peer_above(lines, j - 1, ind, peer)
        } else if key_at(ln) == peer {
            true
        } else {
            peer_above(lines, j - 1, ind, peer)
        }
    }
}

/// The same as `peer_above`, looking down from line `j`.
pub open spec fn peer_below(lines: Seq<Seq<char>>, j: int, ind: int, peer: Seq<char>) -> bool
    decreases lines.len() - j,
{
    if j < 0 || j >= lines.len() {
        false
    } else {
        let ln = lines[j];
        if skippable(ln) {
            peer_below(lines, j + 1, ind, peer)
        } else if indent_of(ln) < ind {
            false
        } else if indent_of(ln) > ind {
            peer_below(lines, j + 1, ind, peer)
        } else if key_at(ln) == peer {
            true
        } else {
            peer_below(lines, j + 1, ind, peer)
        }
    }
}

/// Whether line `i` begins with the key `stale` and its block also holds the key `peer`.
pub open spec fn stale_line(lines: Seq<Seq<char>>, i: int, stale: Seq<char>, peer: Seq<char>) -> bool {
    let ind = indent_of(lines[i]);
    has_prefix(unindented(lines[i]), stale + ":"@) && (peer_above(lines, i - 1, ind, peer + ":"@) || peer_below(
        lines,
        i + 1,
        ind,
        peer + ":"@,
    ))
}

/// The lines `lines[..k]` that are not stale.
pub open spec fn kept_lines(lines: Seq<Seq<char>>, k: int, stale: Seq<char>, peer: Seq<char>) -> Seq<Seq<char>>
    decreases k,
{
    if k <= 0 {
        Seq::empty()
    } else if stale_line(lines, k - 1, stale, peer) {
        kept_lines(lines, k - 1, stale, peer)
    } else {
        kept_lines(lines, k - 1, stale, peer).push(lines[k - 1])
    }
}

/// `data` without the lines that set `stale_key` in a block that also sets `peer_key`; the
/// bytes unchanged when there is no such line.
pub open spec fn remove_key_spec(data: Seq<u8>, stale_key: Seq<char>, peer_key: Seq<char>) -> Seq<u8> {
    let lines = split_seq(utf8_lossy(data), '\n');
    if exists|i: int| 0 <= i < lines.len() && stale_line(lines, i, stale_key, peer_key) {
        encode_utf8(join_seq(kept_lines(lines, lines.len() as int, stale_key, peer_key), "\n"@))
    } else {
        data
    }
}

proof fn lemma_first_not_in_bounds(s: Seq<char>, set: Seq<char>, i: int)
    requires
        0 <= i <= s.len(),
    ensures
        i <= first_not_in(s, set, i) <= s.len(),
    decreases s.len() - i,
{
    if i < s.len() && set.contains(s[i]) {
        lemma_first_not_in_bounds(s, set, i + 1);
    }
}

fn indent_exec(line: &Vec<char>) -> (r: usize)
    ensures
        r == indent_of(line@),
        r <= line@.len(),
{
    let bl = blank_chars();
    let t = trim_start_matches(line, &bl);
    proof {
        lemma_first_not_in_bounds(line@, blanks(), 0);
        assert(t@.len() == line@.len() - indent_of(line@)) by {
            assert(t@ == line@.skip(indent_of(line@)));
        }
    }
    line.len() - t.len()
}

fn key_at_exec(line: &Vec<char>) -> (r: Vec<char>)
    ensures
        r@ == key_at(line@),
{
    let t = trim_start_matches(line, &blank_chars());
    let colon = vec![':'];
    proof {
        reveal_strlit(":");
        assert(colon@ =~= ":"@);
        crate::text::lemma_find_seq(t@, ":"@);
    }
    match find(&t, &colon) {
        Some(i) => {
            assert(crate::text::occurs_at(t@, ":"@, i as int));
            let tl = t.len();
            assert(i < tl);
            let k = slice_chars(&t, 0, i + 1);
            assert(k@ =~= t@.take(i + 1));
            k
        },
        None => Vec::new(),
    }
}

fn skippable_exec(line: &Vec<char>) -> (r: bool)
    ensures
        r == skippable(line@),
{
    let t = trim_start_matches(line, &blank_chars());
    let hash = vec!['#'];
    proof {
        reveal_strlit("#");
        assert(hash@ =~= "#"@);
    }
    trim(line).len() == 0 || starts_with(&t, &hash)
}

fn scan_above(lines: &Vec<Vec<char>>, i: usize, ind: usize, peer: &Vec<char>, Ghost(lv): Ghost<Seq<Seq<char>>>) -> (r: bool)
    requires
        lv == lines@.map_values(|v: Vec<char>| v@),
        i <= lines@.len(),
    ensures
        r == peer_above(lv, i - 1, ind as int, peer@),
{
    let mut j: usize = i;
    while j > 0
        invariant
            j <= i <= lines@.len(),
            lv == lines@.map_values(|v: Vec<char>| v@),
            peer_above(lv, j - 1, ind as int, peer@) == peer_above(lv, i - 1, ind as int, peer@),
        decreases j,
    {
        let ln = &lines[j - 1];
        assert(lv[j - 1] == ln@);
        if !skippable_exec(ln) {
            let k = indent_exec(ln);
            if k < ind {
                return false;
            }
            if k == ind && crate::text::chars_eq(&key_at_exec(ln), peer) {
                return true;
            }
        }
        j -= 1;
    }
    false
}

fn scan_below(lines: &Vec<Vec<char>>, i: usize, ind: usize, peer: &Vec<char>, Ghost(lv): Ghost<Seq<Seq<char>>>) -> (r: bool)
    requires
        lv == lines@.map_values(|v: Vec<char>| v@),
        i <= lines@.len(),
    ensures
        r == peer_below(lv, i as int, ind as int, peer@),
{
    let mut j: usize = i;
    while j < lines.len()
        invariant
            i <= j <= lines@.len(),
            lv == lines@.map_values(|v: Vec<char>| v@),
            peer_below(lv, j as int, ind as int, peer@) == peer_below(lv, i as int, ind as int, peer@),
        decreases lines.len() - j,
    {
        let ln = &lines[j];
        assert(lv[j as int] == ln@);
        if !skippable_exec(ln) {
            let k = indent_exec(ln);
            if k < ind {
                return false;
            }
            if k == ind && crate::text::chars_eq(&key_at_exec(ln), peer) {
                return true;
            }
        }
        j += 1;
    }
    false
}

/// Removes the lines that set `stale_key` where their block also sets `peer_key` (see
/// `remove_key_spec`).
pub fn remove_key_if_peer_exists(data: &[u8], stale_key: &str, peer_key: &str) -> (r: Vec<u8>)
    ensures
        r@ == remove_key_spec(data@, stale_key@, peer_key@),
{
    let text = crate::text::from_utf8_lossy(data);
    let lines = split(&chars_of(text.as_str()), '\n');
    let ghost lv = lines@.map_values(|v: Vec<char>| v@);
    assert(lv == split_seq(utf8_lossy(data@), '\n'));
    let sp = with_colon(stale_key);
    let pp = with_colon(peer_key);
    let bl = blank_chars();
    let mut kept: Vec<Vec<char>> = Vec::new();
    let mut any = false;
    let mut i: usize = 0;
    while i < lines.len()
        invariant
            i <= lines@.len(),
            lv == lines@.map_values(|v: Vec<char>| v@),
            sp@ == stale_key@ + ":"@,
            pp@ == peer_key@ + ":"@,
            bl@ == blanks(),
            kept@.map_values(|v: Vec<char>| v@) == kept_lines(lv, i as int, stale_key@, peer_key@),
            any == exists|k: int| 0 <= k < i && stale_line(lv, k, stale_key@, peer_key@),
        decreases lines.len() - i,
    {
        let line = &lines[i];
        assert(lv[i as int] == line@);
        let t = trim_start_matches(line, &bl);
        let stale = if starts_with(&t, &sp) {
            let ind = indent_exec(line);
            scan_above(&lines, i, ind, &pp, Ghost(lv)) || scan_below(&lines, i + 1, ind, &pp, Ghost(lv))
        } else {
            false
        };
        assert(stale == stale_line(lv, i as int, stale_key@, peer_key@));
        if stale {
            any = true;
        } else {
            let ghost k0 = kept@.map_values(|v: Vec<char>| v@);
            kept.push(crate::text::copy_chars(line));
            assert(kept@.map_values(|v: Vec<char>| v@) =~= k0.push(lv[i as int]));
        }
        i += 1;
    }
    if !any {
        return vstd::slice::slice_to_vec(data);
    }
    let joined = join(&kept, &newline());
    bytes_of(string_of(&joined).as_str())
}

// ---------------------------------------------------------------------------
// Applying the rules.
// ---------------------------------------------------------------------------

/// The text after one rule: the key rename, or the locale merge (drop `required_language`
/// and `language` where `locale` is already set, then rename them to `locale`); other
/// descriptions leave the data as it is.
pub open spec fn apply_rule_spec(desc: Seq<char>, data: Seq<u8>) -> Seq<u8> {
    if desc == RENAME_NO_COAUTHOR@ {
        rename_yaml_key_spec(data, "no_coauthor"@, "no_ai_coauthor"@)
    } else if desc == RENAME_REQUIRED_LANGUAGE@ {
        let d1 = remove_key_spec(data, "required_language"@, "locale"@);
        let d2 = remove_key_spec(d1, "language"@, "locale"@);
        let d3 = rename_yaml_key_spec(d2, "required_language"@, "locale"@);
        rename_yaml_key_spec(d3, "language"@, "locale"@)
    } else {
        data
    }
}

/// Applies one rule (see `apply_rule_spec`).
pub fn apply_rule(desc: &str, data: &[u8]) -> (r: Vec<u8>)
    ensures
        r@ == apply_rule_spec(desc@, data@),
{
    if crate::text::str_eq(desc, RENAME_NO_COAUTHOR) {
        rename_yaml_key(data, "no_coauthor", "no_ai_coauthor")
    } else if crate::text::str_eq(desc, RENAME_REQUIRED_LANGUAGE) {
        let d1 = remove_key_if_peer_exists(data, "required_language", "locale");
        let d2 = remove_key_if_peer_exists(&d1, "language", "locale");
        let d3 = rename_yaml_key(&d2, "required_language", "locale");
        rename_yaml_key(&d3, "language", "locale")
    } else {
        vstd::slice::slice_to_vec(data)
    }
}

/// The rules applied in order to `data`.
pub open spec fn apply_rules(rules: Seq<Seq<char>>, data: Seq<u8>) -> Seq<u8>
    decreases rules.len(),
{
    if rules.len() == 0 {
        data
    } else {
        apply_rule_spec(rules.last(), apply_rules(rules.drop_last(), data))
    }
}

// ---------------------------------------------------------------------------
// Detecting the version.
// ---------------------------------------------------------------------------

#[verifier::external_type_specification]
#[verifier::external_body]
pub struct ExYamlValue(serde_yaml::Value);

/// The outer shape of a parsed YAML value: a mapping with its string keys (`None` for other
/// keys) and values, a sequence, or anything else.
pub enum YamlShape {
    Mapping(Vec<(Option<String>, serde_yaml::Value)>),
    Sequence(Vec<serde_yaml::Value>),
    Other,
}

/// A YAML document as far as the format markers need it: mappings with their keys,
/// sequences, and everything else as `Scalar`.
pub enum YamlNode {
    Mapping(Vec<(Option<String>, YamlNode)>),
    Sequence(Vec<YamlNode>),
    Scalar,
}

/// A YAML value as plain values: a mapping with its entries in order (string keys as
/// `Some`, other keys as `None`), a sequence, or anything else.
pub enum YamlTree {
    Mapping(Seq<(Option<Seq<char>>, YamlTree)>),
    Sequence(Seq<YamlTree>),
    Scalar,
}

/// What a parsed `serde_yaml::Value` holds, as a `YamlTree`.
pub uninterp spec fn yaml_value_tree(v: serde_yaml::Value) -> YamlTree;

/// The document that `serde_yaml` parses from the text, `None` when it is not YAML (a fixed
/// function of the text).
pub uninterp spec fn yaml_document(text: Seq<char>) -> Option<YamlTree>;

/// A key as plain characters.
pub open spec fn key_view(k: Option<String>) -> Option<Seq<char>> {
    match k {
        Some(s) => Some(s@),
        None => None,
    }
}

/// Whether a shape lays out the tree: for a mapping the same keys in the same order and
/// values holding the subtrees, for a sequence items holding them, else a scalar.
pub open spec fn shape_agrees(r: YamlShape, t: YamlTree) -> bool {
    match (r, t) {
        (YamlShape::Mapping(es), YamlTree::Mapping(ts)) => es@.len() == ts.len() && forall|i: int|
            0 <= i < es@.len() ==> key_view(#[trigger] es@[i].0) == ts[i].0 && yaml_value_tree(es@[i].1)
                == ts[i].1,
        (YamlShape::Sequence(items), YamlTree::Sequence(ts)) => items@.len() == ts.len() && forall|i: int|
            0 <= i < items@.len() ==> yaml_value_tree(#[trigger] items@[i]) == ts[i],
        (YamlShape::Other, YamlTree::Scalar) => true,
        _ => false,
    }
}

/// `serde_yaml::from_str::<serde_yaml::Value>`: the parsed document, `None` when the text is
/// not YAML; the document is named `yaml_document`, what a value holds `yaml_value_tree`.
#[verifier::external_body]
fn parse_yaml_value(text: &str) -> (r: Option<serde_yaml::Value>)
    ensures
        match r {
            Some(v) => yaml_document(text@) == Some(yaml_value_tree(v)),
            None => yaml_document(text@) is None,
        },
{
    serde_yaml::from_str::<serde_yaml::Value>(text).ok()
}

/// The outer shape of a `serde_yaml::Value` (its variants told apart, the contents moved
/// over): mappings with their entries in order, sequences with their items, anything else
/// as `Other`.
#[verifier::external_body]
fn yaml_shape(v: &serde_yaml::Value) -> (r: YamlShape)
    ensures
        shape_agrees(r, yaml_value_tree(*v)),
{
    match v {
        serde_yaml::Value::Mapping(m) => YamlShape::Mapping(
            m.iter().map(|(k, c)| (match k {
                serde_yaml::Value::String(s) => Some(s.clone()),
                _ => None,
            }, c.clone())).collect(),
        ),
        serde_yaml::Value::Sequence(items) => YamlShape::Sequence(items.clone()),
        _ => YamlShape::Other,
    }
}

/// Whether the node is the tree cut at depth `d`: below `d` levels everything is `Scalar`,
/// above it the same mappings (same keys, in order), sequences and scalars.
pub open spec fn node_is(n: YamlNode, t: YamlTree, d: nat) -> bool
    decreases n,
{
    if d == 0 {
        n is Scalar
    } else {
        match n {
            YamlNode::Mapping(es) => match t {
                YamlTree::Mapping(ts) => es@.len() == ts.len() && forall|i: int|
                    0 <= i < es@.len() ==> key_view(#[trigger] es@[i].0) == ts[i].0 && node_is(
                        es@[i].1,
                        ts[i].1,
                        (d - 1) as nat,
                    ),
                _ => false,
            },
            YamlNode::Sequence(items) => match t {
                YamlTree::Sequence(ts) => items@.len() == ts.len() && forall|i: int|
                    0 <= i < items@.len() ==> node_is(#[trigger] items@[i], ts[i], (d - 1) as nat),
                _ => false,
            },
            YamlNode::Scalar => t is Scalar,
        }
    }
}

/// Whether no mapping or sequence of the tree lies `d` or more levels down: the root is one
/// level, its entries the next.
pub open spec fn within_depth(n: YamlNode, d: nat) -> bool
    decreases n,
{
    match n {
        YamlNode::Scalar => true,
        YamlNode::Mapping(es) => d > 0 && forall|i: int|
            0 <= i < es@.len() ==> within_depth(#[trigger] es@[i].1, (d - 1) as nat),
        YamlNode::Sequence(items) => d > 0 && forall|i: int|
            0 <= i < items@.len() ==> within_depth(#[trigger] items@[i], (d - 1) as nat),
    }
}

/// The value as a `YamlNode`, down to `depth` levels (deeper values become `Scalar`).
fn tree_of(v: &serde_yaml::Value, depth: usize) -> (r: YamlNode)
    ensures
        node_is(r, yaml_value_tree(*v), depth as nat),
        within_depth(r, depth as nat),
    decreases depth,
{
    if depth == 0 {
        return YamlNode::Scalar;
    }
    let shape = yaml_shape(v);
    let ghost t = yaml_value_tree(*v);
    match shape {
        YamlShape::Mapping(es) => {
            let ghost ts = t->Mapping_0;
            let mut out: Vec<(Option<String>, YamlNode)> = Vec::new();
            let mut i: usize = 0;
            while i < es.len()
                invariant
                    i <= es@.len(),
                    depth > 0,
                    t == YamlTree::Mapping(ts),
                    es@.len() == ts.len(),
                    forall|j: int| 0 <= j < es@.len() ==> key_view(#[trigger] es@[j].0) == ts[j].0
                        && yaml_value_tree(es@[j].1) == ts[j].1,
                    out@.len() == i,
                    forall|j: int| 0 <= j < i ==> within_depth(#[trigger] out@[j].1, (depth - 1) as nat),
                    forall|j: int| 0 <= j < i ==> key_view(#[trigger] out@[j].0) == ts[j].0
                        && node_is(out@[j].1, ts[j].1, (depth - 1) as nat),
                decreases es.len() - i,
            {
                let k = match &es[i].0 {
                    Some(s) => Some(s.clone()),
                    None => None,
                };
                assert(key_view(es@[i as int].0) == ts[i as int].0);
                let child = tree_of(&es[i].1, depth - 1);
                out.push((k, child));
                i += 1;
            }
            let r = YamlNode::Mapping(out);
            assert(node_is(r, t, depth as nat));
            r
        },
        YamlShape::Sequence(items) => {
            let ghost ts = t->Sequence_0;
            let mut out: Vec<YamlNode> = Vec::new();
            let mut i: usize = 0;
            while i < items.len()
                invariant
                    i <= items@.len(),
                    depth > 0,
                    t == YamlTree::Sequence(ts),
                    items@.len() == ts.len(),
                    forall|j: int| 0 <= j < items@.len() ==> yaml_value_tree(#[trigger] items@[j]) == ts[j],
                    out@.len() == i,
                    forall|j: int| 0 <= j < i ==> within_depth(#[trigger] out@[j], (depth - 1) as nat),
                    forall|j: int| 0 <= j < i ==> node_is(#[trigger] out@[j], ts[j], (depth - 1) as nat),
                decreases items.len() - i,
            {
                let child = tree_of(&items[i], depth - 1);
                out.push(child);
                i += 1;
            }
            let r = YamlNode::Sequence(out);
            assert(node_is(r, t, depth as nat));
            r
        },
        YamlShape::Other => YamlNode::Scalar,
    }
}

/// The index of the first entry with key `k`.
pub open spec fn first_key(es: Seq<(Option<String>, YamlNode)>, k: Seq<char>, i: int) -> Option<int>
    decreases es.len() - i,
{
    if i < 0 || i >= es.len() {
        None
    } else if es[i].0 matches Some(s) && s@ == k {
        Some(i)
    } else {
        first_key(es, k, i + 1)
    }
}

/// Whether the dotted path `segs` leads somewhere in `node`; a segment ending in `[]` names
/// a sequence and the rest of the path may lead through any of its items.
pub open spec fn path_exists(node: YamlNode, segs: Seq<Seq<char>>) -> bool
    decreases segs.len(), 1int, 0int,
{
    if segs.len() == 0 {
        true
    } else {
        match node {
            YamlNode::Mapping(es) => {
                let s0 = segs[0];
                let is_seq = crate::text::has_suffix(s0, "[]"@);
                let k = if is_seq {
                    s0.take(s0.len() - 2)
                } else {
                    s0
                };
                match first_key(es@, k, 0) {
                    None => false,
                    Some(i) => if is_seq {
                        match es@[i].1 {
                            YamlNode::Sequence(items) => any_item(items@, segs, items@.len() as int),
                            _ => false,
                        }
                    } else {
                        path_exists(es@[i].1, segs.skip(1))
                    },
                }
            },
            _ => false,
        }
    }
}

/// Whether the rest of the path (after its first segment) leads somewhere in one of the
/// items `items[..n]`.
pub open spec fn any_item(items: Seq<YamlNode>, segs: Seq<Seq<char>>, n: int) -> bool
    decreases segs.len(), 0int, n,
{
    if n <= 0 || n > items.len() || segs.len() == 0 {
        false
    } else {
        any_item(items, segs, n - 1) || path_exists(items[n - 1], segs.skip(1))
    }
}

proof fn lemma_any_item_mono(items: Seq<YamlNode>, segs: Seq<Seq<char>>, n: int, m: int)
    requires
        0 <= n <= m <= items.len(),
        any_item(items, segs, n),
    ensures
        any_item(items, segs, m),
    decreases m - n,
{
    if n < m {
        lemma_any_item_mono(items, segs, n, m - 1);
    }
}

proof fn lemma_first_key(es: Seq<(Option<String>, YamlNode)>, k: Seq<char>, i: int)
    requires
        0 <= i,
    ensures
        first_key(es, k, i) matches Some(j) ==> i <= j < es.len(),
    decreases es.len() - i,
{
    if i < es.len() && !(es[i].0 matches Some(s) && s@ == k) {
        lemma_first_key(es, k, i + 1);
    }
}

fn find_key(es: &Vec<(Option<String>, YamlNode)>, k: &Vec<char>) -> (r: Option<usize>)
    ensures
        match (r, first_key(es@, k@, 0)) {
            (Some(i), Some(j)) => i == j && i < es@.len(),
            (None, None) => true,
            _ => false,
        },
{
    proof {
        lemma_first_key(es@, k@, 0);
    }
    let mut i: usize = 0;
    while i < es.len()
        invariant
            i <= es@.len(),
            first_key(es@, k@, i as int) == first_key(es@, k@, 0),
        decreases es.len() - i,
    {
        match &es[i].0 {
            Some(s) => {
                if crate::text::chars_eq_str(k, s.as_str()) {
                    return Some(i);
                }
            },
            None => {},
        }
        i += 1;
    }
    None
}

#[verifier::loop_isolation(false)]
fn path_from(node: &YamlNode, segs: &[Vec<char>], from: usize) -> (r: bool)
    requires
        from <= segs@.len(),
    ensures
        r == path_exists(*node, segs@.map_values(|v: Vec<char>| v@).skip(from as int)),
    decreases segs@.len() - from,
{
    let ghost sv = segs@.map_values(|v: Vec<char>| v@).skip(from as int);
    if from == segs.len() {
        return true;
    }
    assert(sv.skip(1) =~= segs@.map_values(|v: Vec<char>| v@).skip(from + 1));
    match node {
        YamlNode::Mapping(es) => {
            let s0 = &segs[from];
            assert(sv[0] == s0@);
            let br = vec!['[', ']'];
            proof {
                reveal_strlit("[]");
                assert(br@ =~= "[]"@);
            }
            let is_seq = crate::text::ends_with(s0, &br);
            let k = if is_seq {
                slice_chars(s0, 0, s0.len() - 2)
            } else {
                crate::text::copy_chars(s0)
            };
            assert(is_seq ==> k@ =~= s0@.take(s0@.len() - 2));
            match find_key(es, &k) {
                None => false,
                Some(i) => {
                    if is_seq {
                        match &es[i].1 {
                            YamlNode::Sequence(items) => {
                                let mut j: usize = 0;
                                while j < items.len()
                                    invariant
                                        j <= items@.len(),
                                        from < segs@.len(),
                                        sv.skip(1) == segs@.map_values(|v: Vec<char>| v@).skip(from + 1),
                                        !any_item(items@, sv, j as int),
                                    decreases items.len() - j,
                                {
                                    if path_from(&items[j], segs, from + 1) {
                                        proof {
                                            assert(any_item(items@, sv, j + 1));
                                            lemma_any_item_mono(items@, sv, j + 1, items@.len() as int);
                                        }
                                        return true;
                                    }
                                    j += 1;
                                }
                                false
                            },
                            _ => false,
                        }
                    } else {
                        path_from(&es[i].1, segs, from + 1)
                    }
                },
            }
        },
        _ => false,
    }
}

/// Whether a dotted path leads somewhere in the document (see `path_exists`).
pub fn yaml_path_exists(node: &YamlNode, segs: &[Vec<char>]) -> (r: bool)
    ensures
        r == path_exists(*node, segs@.map_values(|v: Vec<char>| v@)),
{
    assert(segs@.map_values(|v: Vec<char>| v@).skip(0) =~= segs@.map_values(|v: Vec<char>| v@));
    path_from(node, segs, 0)
}

/// Whether any of the dotted paths leads somewhere in the document.
pub open spec fn any_path_exists(node: YamlNode, paths: Seq<Seq<char>>) -> bool {
    exists|k: int| 0 <= k < paths.len() && #[trigger] path_exists(node, split_seq(paths[k], '.'))
}

/// Whether any of the dotted paths leads somewhere in the document (see `any_path_exists`).
pub fn has_any_yaml_path(raw: &YamlNode, paths: &[&str]) -> (r: bool)
    ensures
        r == any_path_exists(*raw, paths@.map_values(|p: &str| p@)),
{
    let ghost pv = paths@.map_values(|p: &str| p@);
    let mut k: usize = 0;
    while k < paths.len()
        invariant
            k <= paths@.len(),
            pv == paths@.map_values(|p: &str| p@),
            forall|t: int| 0 <= t < k ==> !path_exists(*raw, #[trigger] split_seq(pv[t], '.')),
        decreases paths.len() - k,
    {
        let segs = split(&chars_of(paths[k]), '.');
        assert(pv[k as int] == paths@[k as int]@);
        if yaml_path_exists(raw, &segs) {
            return true;
        }
        k += 1;
    }
    false
}

/// The versions in order, oldest first.
pub open spec fn chain_version(i: int) -> Version {
    if i == 0 {
        Version::V100
    } else if i == 1 {
        Version::V101
    } else if i == 2 {
        Version::V102
    } else if i == 3 {
        Version::V110
    } else {
        Version::Current
    }
}

fn chain_version_exec(i: usize) -> (r: Version)
    ensures
        r == chain_version(i as int),
{
    if i == 0 {
        Version::V100
    } else if i == 1 {
        Version::V101
    } else if i == 2 {
        Version::V102
    } else if i == 3 {
        Version::V110
    } else {
        Version::Current
    }
}

/// The paths whose presence marks a file as written for version `i` of the chain.
pub open spec fn signature(i: int) -> Seq<Seq<char>> {
    if i == 1 {
        seq![
            "binary_file"@,
            "lint"@,
            "encoding"@,
            "editorconfig"@,
            "commit_message.enabled"@,
            "commit_message.no_emoji"@,
            "comment_language.no_emoji"@,
        ]
    } else if i == 2 {
        seq!["commit_message.no_ai_coauthor"@]
    } else if i == 3 || i == 4 {
        seq![
            "comment_language.allowed_words"@,
            "comment_language.allowed_words_file"@,
            "comment_language.allowed_words_url"@,
            "comment_language.allowed_words_cache"@,
            "encoding.no_invisible_chars"@,
            "encoding.no_ambiguous_chars"@,
            "encoding.locale"@,
        ]
    } else {
        Seq::empty()
    }
}

fn signature_exec(i: usize) -> (r: Vec<&'static str>)
    ensures
        r@.map_values(|p: &str| p@) == signature(i as int),
{
    let v: Vec<&'static str> = if i == 1 {
        vec![
            "binary_file",
            "lint",
            "encoding",
            "editorconfig",
            "commit_message.enabled",
            "commit_message.no_emoji",
            "comment_language.no_emoji",
        ]
    } else if i == 2 {
        vec!["commit_message.no_ai_coauthor"]
    } else if i == 3 || i == 4 {
        vec![
            "comment_language.allowed_words",
            "comment_language.allowed_words_file",
            "comment_language.allowed_words_url",
            "comment_language.allowed_words_cache",
            "encoding.no_invisible_chars",
            "encoding.no_ambiguous_chars",
            "encoding.locale",
        ]
    } else {
        Vec::new()
    };
    assert(v@.map_values(|p: &str| p@) =~= signature(i as int));
    v
}

/// The first version of the chain, from `i` on, whose strict parse succeeded; -1 for none.
pub open spec fn first_parsed(strict: Seq<bool>, i: int) -> int
    decreases 5 - i,
{
    if i < 0 || i >= 5 {
        -1
    } else if strict[i] {
        i
    } else {
        first_parsed(strict, i + 1)
    }
}

/// From the newest version down to just above `base`, the first whose markers are present
/// and whose strict parse succeeded; `base` when there is none.
pub open spec fn promoted(t: YamlNode, strict: Seq<bool>, i: int, base: int) -> Version
    decreases i + 1,
{
    if i <= base || i < 0 {
        chain_version(base)
    } else if any_path_exists(t, signature(i)) && strict[i] {
        chain_version(i)
    } else {
        promoted(t, strict, i - 1, base)
    }
}

/// The version of a file, given for each version of the chain (oldest first) whether the
/// file parses strictly as that version, and the file as a YAML document when it is one:
/// the oldest version it parses as, promoted to a newer one whose markers it holds and that
/// it parses as; `Unknown` when it parses as none.
pub open spec fn detect_from(strict: Seq<bool>, raw: Option<YamlNode>) -> Version {
    let base = first_parsed(strict, 0);
    if base < 0 {
        Version::Unknown
    } else {
        match raw {
            None => chain_version(base),
            Some(t) => promoted(t, strict, 4, base),
        }
    }
}

proof fn lemma_first_parsed(strict: Seq<bool>, i: int)
    requires
        0 <= i,
    ensures
        first_parsed(strict, i) == -1 || i <= first_parsed(strict, i) < 5,
    decreases 5 - i,
{
    if i < 5 && !strict[i] {
        lemma_first_parsed(strict, i + 1);
    }
}

/// The version of a file from its strict parses and its document (see `detect_from`).
pub fn detect_version_from(strict: &[bool], raw: &Option<YamlNode>) -> (r: Version)
    requires
        strict@.len() == 5,
    ensures
        r == detect_from(strict@, *raw),
{
    proof {
        lemma_first_parsed(strict@, 0);
    }
    let mut b: usize = 0;
    while b < 5 && !strict[b]
        invariant
            b <= 5,
            strict@.len() == 5,
            first_parsed(strict@, b as int) == first_parsed(strict@, 0),
        decreases 5 - b,
    {
        b += 1;
    }
    if b == 5 {
        return Version::Unknown;
    }
    match raw {
        None => chain_version_exec(b),
        Some(t) => {
            let mut i: usize = 4;
            while i > b
                invariant
                    b < 5,
                    i <= 4,
                    b <= i,
                    strict@.len() == 5,
                    first_parsed(strict@, 0) == b,
                    *raw == Some(*t),
                    promoted(*t, strict@, i as int, b as int) == promoted(*t, strict@, 4, b as int),
                decreases i,
            {
                let sig = signature_exec(i);
                if has_any_yaml_path(t, &sig) && strict[i] {
                    return chain_version_exec(i);
                }
                i -= 1;
            }
            chain_version_exec(b)
        },
    }
}

/// The document of a file: what `serde_yaml` parses from it when it is UTF-8 text.
pub open spec fn document_tree(data: Seq<u8>) -> Option<YamlTree> {
    if crate::encoding::utf8_structure(data, 0) {
        yaml_document(crate::text::utf8_lossy(data))
    } else {
        None
    }
}

/// Whether `raw` is the document cut at the depth the version markers reach (three levels);
/// both absent when there is no document.
pub open spec fn opt_node_is(raw: Option<YamlNode>, t: Option<YamlTree>) -> bool {
    match (raw, t) {
        (None, None) => true,
        (Some(n), Some(t)) => node_is(n, t, 3),
        _ => false,
    }
}

/// The version of a file (see `detect_from`), read from its strict parses and its document.
pub open spec fn file_version(strict: Seq<bool>, data: Seq<u8>) -> Version {
    detect_from(strict, choose|raw: Option<YamlNode>| opt_node_is(raw, document_tree(data)))
}

proof fn lemma_first_key_same(
    a: Seq<(Option<String>, YamlNode)>,
    b: Seq<(Option<String>, YamlNode)>,
    k: Seq<char>,
    i: int,
)
    requires
        a.len() == b.len(),
        forall|j: int| 0 <= j < a.len() ==> key_view(#[trigger] a[j].0) == key_view(b[j].0),
    ensures
        first_key(a, k, i) == first_key(b, k, i),
    decreases a.len() - i,
{
    if 0 <= i < a.len() {
        assert(key_view(a[i].0) == key_view(b[i].0));
        lemma_first_key_same(a, b, k, i + 1);
    }
}

proof fn lemma_path_same(a: YamlNode, b: YamlNode, t: YamlTree, d: nat, segs: Seq<Seq<char>>)
    requires
        node_is(a, t, d),
        node_is(b, t, d),
    ensures
        path_exists(a, segs) == path_exists(b, segs),
    decreases segs.len(), 1int, 0int,
{
    if segs.len() == 0 || d == 0 {
        return;
    }
    match (a, b) {
        (YamlNode::Mapping(ea), YamlNode::Mapping(eb)) => {
            let ts = t->Mapping_0;
            let s0 = segs[0];
            let is_seq = crate::text::has_suffix(s0, "[]"@);
            let k = if is_seq {
                s0.take(s0.len() - 2)
            } else {
                s0
            };
            assert forall|j: int| 0 <= j < ea@.len() implies key_view(#[trigger] ea@[j].0) == key_view(
                eb@[j].0,
            ) by {
                assert(key_view(ea@[j].0) == ts[j].0);
                assert(key_view(eb@[j].0) == ts[j].0);
            }
            lemma_first_key_same(ea@, eb@, k, 0);
            lemma_first_key(ea@, k, 0);
            match first_key(ea@, k, 0) {
                None => {},
                Some(i) => {
                    assert(node_is(ea@[i].1, ts[i].1, (d - 1) as nat));
                    assert(node_is(eb@[i].1, ts[i].1, (d - 1) as nat));
                    if is_seq {
                        if d - 1 > 0 {
                            match (ea@[i].1, eb@[i].1) {
                                (YamlNode::Sequence(ia), YamlNode::Sequence(ib)) => {
                                    let its = ts[i].1->Sequence_0;
                                    lemma_any_same(ia@, ib@, its, (d - 2) as nat, segs, ia@.len() as int);
                                },
                                _ => {},
                            }
                        }
                    } else {
                        lemma_path_same(ea@[i].1, eb@[i].1, ts[i].1, (d - 1) as nat, segs.skip(1));
                    }
                },
            }
        },
        _ => {},
    }
}

proof fn lemma_any_same(
    ia: Seq<YamlNode>,
    ib: Seq<YamlNode>,
    ts: Seq<YamlTree>,
    d: nat,
    segs: Seq<Seq<char>>,
    n: int,
)
    requires
        ia.len() == ts.len(),
        ib.len() == ts.len(),
        forall|j: int| 0 <= j < ts.len() ==> node_is(#[trigger] ia[j], ts[j], d),
        forall|j: int| 0 <= j < ts.len() ==> node_is(#[trigger] ib[j], ts[j], d),
    ensures
        any_item(ia, segs, n) == any_item(ib, segs, n),
    decreases segs.len(), 0int, n,
{
    if !(n <= 0 || n > ia.len() || segs.len() == 0) {
        lemma_any_same(ia, ib, ts, d, segs, n - 1);
        assert(node_is(ia[n - 1], ts[n - 1], d));
        assert(node_is(ib[n - 1], ts[n - 1], d));
        lemma_path_same(ia[n - 1], ib[n - 1], ts[n - 1], d, segs.skip(1));
    }
}

proof fn lemma_promoted_same(a: YamlNode, b: YamlNode, t: YamlTree, strict: Seq<bool>, i: int, base: int)
    requires
        node_is(a, t, 3),
        node_is(b, t, 3),
    ensures
        promoted(a, strict, i, base) == promoted(b, strict, i, base),
    decreases i + 1,
{
    if !(i <= base || i < 0) {
        let paths = signature(i);
        assert forall|k: int| 0 <= k < paths.len() implies path_exists(a, #[trigger] split_seq(paths[k], '.'))
            == path_exists(b, split_seq(paths[k], '.')) by {
            lemma_path_same(a, b, t, 3, split_seq(paths[k], '.'));
        }
        assert(any_path_exists(a, paths) == any_path_exists(b, paths));
        lemma_promoted_same(a, b, t, strict, i - 1, base);
    }
}

proof fn lemma_detect_same(strict: Seq<bool>, a: Option<YamlNode>, b: Option<YamlNode>, t: Option<YamlTree>)
    requires
        opt_node_is(a, t),
        opt_node_is(b, t),
    ensures
        detect_from(strict, a) == detect_from(strict, b),
{
    match (a, b) {
        (Some(x), Some(y)) => {
            lemma_promoted_same(x, y, t->Some_0, strict, 4, first_parsed(strict, 0));
        },
        _ => {},
    }
}

/// The file as a YAML document, when it is UTF-8 text that parses (read as deep as the
/// version markers reach).
fn read_yaml_tree(data: &[u8]) -> (r: Option<YamlNode>)
    ensures
        opt_node_is(r, document_tree(data@)),
        r matches Some(n) ==> within_depth(n, 3),
{
    if !crate::encoding::is_valid_utf8(data) {
        return None;
    }
    let text = crate::text::from_utf8_lossy(data);
    match parse_yaml_value(text.as_str()) {
        Some(v) => Some(tree_of(&v, 3)),
        None => None,
    }
}

/// The version a file is written for (see `detect_from`); `strict[i]` tells whether the file
/// parses strictly, unknown fields refused, as version `i` of the chain V100, V101, V102,
/// V110, Current.
pub fn detect_version(data: &[u8], strict: &[bool]) -> (r: Version)
    requires
        strict@.len() == 5,
    ensures
        r == file_version(strict@, data@),
        r == Version::Unknown <==> first_parsed(strict@, 0) < 0,
{
    proof {
        lemma_first_parsed(strict@, 0);
    }
    let mut any = false;
    let mut i: usize = 0;
    while i < 5
        invariant
            i <= 5,
            strict@.len() == 5,
            any == (exists|k: int| 0 <= k < i && strict@[k]),
        decreases 5 - i,
    {
        if strict[i] {
            any = true;
        }
        i += 1;
    }
    if !any {
        proof {
            lemma_first_parsed_none(strict@, 0);
        }
        let none: Option<YamlNode> = None;
        let r = detect_version_from(strict, &none);
        return r;
    }
    let raw = read_yaml_tree(data);
    let r = detect_version_from(strict, &raw);
    proof {
        lemma_first_parsed_some(strict@, 0);
        lemma_promoted_known(strict@, raw);
        let doc = document_tree(data@);
        let c = choose|x: Option<YamlNode>| opt_node_is(x, doc);
        assert(opt_node_is(raw, doc));
        assert(opt_node_is(c, doc));
        lemma_detect_same(strict@, raw, c, doc);
    }
    r
}

proof fn lemma_first_parsed_none(strict: Seq<bool>, i: int)
    requires
        0 <= i,
        forall|k: int| i <= k < 5 ==> !strict[k],
    ensures
        first_parsed(strict, i) == -1,
    decreases 5 - i,
{
    if i < 5 {
        lemma_first_parsed_none(strict, i + 1);
    }
}

proof fn lemma_first_parsed_some(strict: Seq<bool>, i: int)
    requires
        0 <= i,
        exists|k: int| i <= k < 5 && strict[k],
    ensures
        first_parsed(strict, i) >= 0,
    decreases 5 - i,
{
    if i < 5 && !strict[i] {
        lemma_first_parsed_some(strict, i + 1);
    }
}

proof fn lemma_promoted_known(strict: Seq<bool>, raw: Option<YamlNode>)
    requires
        strict.len() == 5,
        first_parsed(strict, 0) >= 0,
    ensures
        detect_from(strict, raw) != Version::Unknown,
{
    lemma_first_parsed(strict, 0);
    if let Some(t) = raw {
        lemma_promoted_chain(t, strict, 4, first_parsed(strict, 0));
    }
}

proof fn lemma_promoted_chain(t: YamlNode, strict: Seq<bool>, i: int, base: int)
    requires
        i < strict.len(),
    ensures
        promoted(t, strict, i, base) != Version::Unknown,
    decreases i + 1,
{
    if !(i <= base || i < 0) && !(any_path_exists(t, signature(i)) && strict[i]) {
        lemma_promoted_chain(t, strict, i - 1, base);
    }
}

// ---------------------------------------------------------------------------
// Migration.
// ---------------------------------------------------------------------------

/// The outcome of a migration.
pub struct MigrateResult {
    pub detected_version: Version,
    /// The rules applied, in order.
    pub applied: Vec<String>,
    /// The file after the rules.
    pub data: Vec<u8>,
}

/// Detects the version of a file (see `detect_version`) and applies the rules that bring it
/// to the current format: an error for an unknown format; the file unchanged when it is
/// current; otherwise the migrated text, which `parses_as_current` (the strict parse of the
/// current format) must accept, else an error.
pub fn migrate<F: Fn(&Vec<u8>) -> bool>(data: &[u8], strict: &[bool], parses_as_current: F) -> (r: Result<
    MigrateResult,
    String,
>)
    requires
        strict@.len() == 5,
        forall|v: &Vec<u8>| #[trigger] parses_as_current.requires((v,)),
    ensures
        first_parsed(strict@, 0) < 0 ==> (r matches Err(e) && e@ == "unrecognized config file format"@),
        file_version(strict@, data@) == Version::Current ==> (r matches Ok(m) && m.data@ == data@
            && m.applied@.len() == 0),
        match r {
            Err(e) => first_parsed(strict@, 0) < 0 && e@ == "unrecognized config file format"@ || {
                &&& first_parsed(strict@, 0) >= 0
                &&& file_version(strict@, data@) != Version::Current
                &&& e@ == "validation failed after migration"@
                &&& exists|v: Vec<u8>|
                    v@ == apply_rules(migration_rules(file_version(strict@, data@)), data@)
                        && call_ensures(parses_as_current, (&v,), false)
            },
            Ok(m) => {
                &&& first_parsed(strict@, 0) >= 0
                &&& m.detected_version != Version::Unknown
                &&& m.detected_version == file_version(strict@, data@)
                &&& m.applied@.map_values(|s: String| s@) == migration_rules(m.detected_version)
                &&& m.data@ == apply_rules(migration_rules(m.detected_version), data@)
                &&& (m.detected_version == Version::Current || call_ensures(parses_as_current, (&m.data,), true))
            },
        },
{
    let version = detect_version(data, strict);
    if version == Version::Unknown {
        return Err("unrecognized config file format".to_string());
    }
    let rules = migrate_up_descriptions(version);
    let ghost rv = rules@.map_values(|s: &'static str| s@);
    let mut applied: Vec<String> = Vec::new();
    let mut migrated = vstd::slice::slice_to_vec(data);
    let mut i: usize = 0;
    while i < rules.len()
        invariant
            i <= rules@.len(),
            rv == rules@.map_values(|s: &'static str| s@),
            applied@.map_values(|s: String| s@) == rv.take(i as int),
            migrated@ == apply_rules(rv.take(i as int), data@),
        decreases rules.len() - i,
    {
        assert(rv.take(i + 1).drop_last() =~= rv.take(i as int));
        let ghost a0 = applied@.map_values(|s: String| s@);
        migrated = apply_rule(rules[i], &migrated);
        applied.push(rules[i].to_string());
        assert(applied@.map_values(|s: String| s@) =~= a0.push(rv[i as int]));
        assert(rv.take(i + 1) =~= rv.take(i as int).push(rv[i as int]));
        i += 1;
    }
    assert(rv.take(rules@.len() as int) =~= rv);
    if version == Version::Current {
        return Ok(MigrateResult { detected_version: version, applied, data: migrated });
    }
    let ok = parses_as_current(&migrated);
    if !ok {
        return Err("validation failed after migration".to_string());
    }
    Ok(MigrateResult { detected_version: version, applied, data: migrated })
}

/// A file already in the current format, or in no known format, gets no rewriting rule: a
/// migration leaves its text as it is.
pub proof fn law_current_needs_no_rules(data: Seq<u8>)
    ensures
        migration_rules(Version::Current).len() == 0,
        apply_rules(migration_rules(Version::Current), data) == data,
        apply_rules(migration_rules(Version::Unknown), data) == data,
{
}
} // verus!
