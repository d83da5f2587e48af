//! Syntax checks of data files (YAML, JSON, JSON5, JSONC, XML, TOML). The parsers are outside
//! crates; comment stripping, error lines and messages are this library's.

use vstd::prelude::*;
use vstd::utf8::encode_utf8;
use serde::Deserialize;
use crate::text::{chars_of, contains, contains_seq, owned, split, split_seq, string_of, trim, trim_seq};
use crate::config::accessors::strs;
use crate::messages::{arg_views, message, tr};
use crate::text::int_seq;

verus! {

/// A syntax error of a file: its path, its line (0 when unknown) and the message.
#[derive(Debug, Clone, PartialEq, Eq)]
pub struct ValidationError {
    pub file: String,
    pub line: i64,
    pub message: String,
}

/// An error as plain values.
pub open spec fn error_view(e: ValidationError) -> (Seq<char>, i64, Seq<char>) {
    (e.file@, e.line, e.message@)
}

pub open spec fn errors_view(v: Seq<ValidationError>) -> Seq<(Seq<char>, i64, Seq<char>)> {
    v.map_values(|e: ValidationError| error_view(e))
}

/// How an error reads: `file:line: message`, or `file: message` when the line is unknown.
pub open spec fn error_text(file: Seq<char>, line: i64, msg: Seq<char>) -> Seq<char> {
    if line > 0 {
        file + ":"@ + int_seq(line as int) + ": "@ + msg
    } else {
        file + ": "@ + msg
    }
}

impl ValidationError {
    pub fn new(file: &str, line: i64, message: String) -> (r: Self)
        ensures
            error_view(r) == (file@, line, message@),
    {
        ValidationError { file: owned(file), line, message }
    }

    /// The error as text (see `error_text`).
    pub fn to_string(&self) -> (r: String)
        ensures
            r@ == error_text(self.file@, self.line, self.message@),
    {
        let mut v: Vec<char> = chars_of(self.file.as_str());
        if self.line > 0 {
            v.push(':');
            crate::text::extend_chars(&mut v, &crate::text::fmt_i64(self.line));
        }
        v.push(':');
        v.push(' ');
        crate::text::extend_chars(&mut v, &chars_of(self.message.as_str()));
        proof {
            reveal_strlit(":");
            reveal_strlit(": ");
        }
        assert(v@ =~= error_text(self.file@, self.line, self.message@));
        string_of(&v)
    }
}

/// Files left out of the JSON check by default (lock files and generated files).
pub const DEFAULT_JSON_IGNORE_FILES: [&'static str; 8] = [
    "package-lock.json",
    "yarn.lock",
    "pnpm-lock.yaml",
    "composer.lock",
    "Pipfile.lock",
    "Gemfile.lock",
    "Cargo.lock",
    "go.sum",
];

// ---------------------------------------------------------------------------
// The parsers.
// ---------------------------------------------------------------------------

/// The message of the first YAML document of the text that does not parse.
pub uninterp spec fn yaml_syntax_error(content: Seq<char>) -> Option<Seq<char>>;

/// The line and message of the first JSON value of the text (values separated by white
/// space; none at all is fine) that does not parse.
pub uninterp spec fn json_syntax_error(content: Seq<char>) -> Option<(usize, Seq<char>)>;

/// The tag structure of an XML text read event by event up to its end: `1` for a start tag,
/// `-1` for an end tag, `0` for anything else; or the byte position and message of the first
/// error.
pub uninterp spec fn xml_event_steps(content: Seq<char>) -> Result<Seq<i8>, (u64, Seq<char>)>;

/// Where (a byte offset, when known) and why the text does not parse as a TOML table.
pub uninterp spec fn toml_syntax_error(content: Seq<char>) -> Option<(Option<usize>, Seq<char>)>;

/// `serde_yaml`: deserializes each document of the text as a `serde_yaml::Value` and gives
/// the error message of the first that fails. The result is a fixed function of the text,
/// named `yaml_syntax_error`.
#[verifier::external_body]
fn yaml_error(content: &str) -> (r: Option<String>)
    ensures
        match yaml_syntax_error(content@) {
            Some(m) => r matches Some(s) && s@ == m,
            None => r is None,
        },
{
    for doc in serde_yaml::Deserializer::from_str(content) {
        if let Err(e) = serde_yaml::Value::deserialize(doc) {
            return Some(e.to_string());
        }
    }
    None
}

/// `serde_json`: reads the text as a stream of `serde_json::Value`s and gives the line and
/// message of the first error. The result is a fixed function of the text, named
/// `json_syntax_error`.
#[verifier::external_body]
fn json_error(content: &str) -> (r: Option<(usize, String)>)
    ensures
        match json_syntax_error(content@) {
            Some((l, m)) => r matches Some((a, b)) && a == l && b@ == m,
            None => r is None,
        },
{
    let de = serde_json::Deserializer::from_str(content);
    for item in de.into_iter::<serde_json::Value>() {
        if let Err(e) = item {
            return Some((e.line(), e.to_string()));
        }
    }
    None
}

/// `quick_xml::Reader::read_event` on the text until the end: start tags as `1`, end tags as
/// `-1`, other events as `0`, or the buffer position and message of the first error. The
/// result is a fixed function of the text, named `xml_event_steps`.
#[verifier::external_body]
fn xml_events(content: &str) -> (r: Result<Vec<i8>, (u64, String)>)
    ensures
        match xml_event_steps(content@) {
            Ok(s) => r matches Ok(v) && v@ == s,
            Err((p, m)) => r matches Err((a, b)) && a == p && b@ == m,
        },
{
    let mut reader = quick_xml::Reader::from_str(content);
    let mut steps: Vec<i8> = Vec::new();
    loop {
        match reader.read_event() {
            Ok(quick_xml::events::Event::Eof) => return Ok(steps),
            Ok(quick_xml::events::Event::Start(_)) => steps.push(1),
            Ok(quick_xml::events::Event::End(_)) => steps.push(-1),
            Ok(_) => steps.push(0),
            Err(e) => return Err((reader.buffer_position() as u64, e.to_string())),
        }
    }
}

/// `toml`: parses the text as a `toml::Table` and gives the error's span start and message.
/// The result is a fixed function of the text, named `toml_syntax_error`.
#[verifier::external_body]
fn toml_error(content: &str) -> (r: Option<(Option<usize>, String)>)
    ensures
        match toml_syntax_error(content@) {
            Some((p, m)) => r matches Some((a, b)) && a == p && b@ == m,
            None => r is None,
        },
{
    match content.parse::<toml::Table>() {
        Ok(_) => None,
        Err(e) => Some((e.span().map(|s| s.start), e.to_string())),
    }
}

// ---------------------------------------------------------------------------
// Lines.
// ---------------------------------------------------------------------------

/// The number of line feeds among the first `k` bytes.
pub open spec fn newlines_before(b: Seq<u8>, k: int) -> int
    decreases k,
{
    if k <= 0 || k > b.len() {
        0
    } else {
        newlines_before(b, k - 1) + if b[k - 1] == 10 {
            1int
        } else {
            0int
        }
    }
}

/// The line (from 1) of a byte offset of the text; offsets past the end count as the end.
pub open spec fn line_of_offset(content: Seq<char>, offset: int) -> int {
    let b = encode_utf8(content);
    let o = if offset < b.len() {
        offset
    } else {
        b.len() as int
    };
    newlines_before(b, o) + 1
}

/// The line of a byte offset (see `line_of_offset`).
pub fn count_lines(content: &str, offset: usize) -> (r: i64)
    ensures
        r == line_of_offset(content@, offset as int) as i64,
{
    let b = content.as_bytes();
    let o = if offset < b.len() {
        offset
    } else {
        b.len()
    };
    let mut n: usize = 0;
    let mut k: usize = 0;
    while k < o
        invariant
            k <= o <= b@.len(),
            b@ == encode_utf8(content@),
            n == newlines_before(b@, k as int),
            n <= k,
        decreases o - k,
    {
        if b[k] == 10 {
            n += 1;
        }
        k += 1;
    }
    (n as i128 + 1) as i64
}

// ---------------------------------------------------------------------------
// Validation.
// ---------------------------------------------------------------------------

/// One error of file `f`.
pub open spec fn one_error(f: Seq<char>, line: i64, msg: Seq<char>) -> Seq<(Seq<char>, i64, Seq<char>)> {
    seq![(f, line, msg)]
}

pub open spec fn yaml_errors(f: Seq<char>, content: Seq<char>) -> Seq<(Seq<char>, i64, Seq<char>)> {
    match yaml_syntax_error(content) {
        Some(m) => one_error(f, 0, "YAML syntax error: "@ + m),
        None => Seq::empty(),
    }
}

pub open spec fn json_errors(f: Seq<char>, content: Seq<char>) -> Seq<(Seq<char>, i64, Seq<char>)> {
    match json_syntax_error(content) {
        Some((l, m)) => one_error(f, l as i64, "JSON syntax error: "@ + m),
        None => Seq::empty(),
    }
}

/// Sum of the steps.
pub open spec fn depth_of(s: Seq<i8>) -> int
    decreases s.len(),
{
    if s.len() == 0 {
        0
    } else {
        depth_of(s.drop_last()) + s.last()
    }
}

pub open spec fn xml_errors(f: Seq<char>, content: Seq<char>) -> Seq<(Seq<char>, i64, Seq<char>)> {
    match xml_event_steps(content) {
        Err((p, m)) => one_error(f, line_of_offset(content, p as usize as int) as i64, "XML syntax error: "@ + m),
        Ok(s) => if depth_of(s) != 0 {
            one_error(
                f,
                line_of_offset(content, encode_utf8(content).len() as int) as i64,
                "XML syntax error: unexpected EOF"@,
            )
        } else {
            Seq::empty()
        },
    }
}

pub open spec fn toml_errors(f: Seq<char>, content: Seq<char>) -> Seq<(Seq<char>, i64, Seq<char>)> {
    match toml_syntax_error(content) {
        None => Seq::empty(),
        Some((p, m)) => one_error(
            f,
            match p {
                Some(o) => line_of_offset(content, o as int) as i64,
                None => 1,
            },
            "TOML syntax error: "@ + m,
        ),
    }
}

fn single(file: &str, line: i64, prefix: &str, msg: String) -> (r: Vec<ValidationError>)
    ensures
        errors_view(r@) == one_error(file@, line, prefix@ + msg@),
{
    let mut m = chars_of(prefix);
    crate::text::extend_chars(&mut m, &chars_of(msg.as_str()));
    let e = ValidationError::new(file, line, string_of(&m));
    let v = vec![e];
    assert(errors_view(v@) =~= one_error(file@, line, prefix@ + msg@));
    v
}

/// The YAML syntax error of the text, if any (see `yaml_errors`).
pub fn validate_yaml(filename: &str, content: &str) -> (r: Vec<ValidationError>)
    ensures
        errors_view(r@) == yaml_errors(filename@, content@),
{
    match yaml_error(content) {
        Some(m) => single(filename, 0, "YAML syntax error: ", m),
        None => {
            let v: Vec<ValidationError> = Vec::new();
            assert(errors_view(v@) =~= Seq::<(Seq<char>, i64, Seq<char>)>::empty());
            v
        },
    }
}

/// The JSON syntax error of the text, if any (see `json_errors`).
pub fn validate_json(filename: &str, content: &str) -> (r: Vec<ValidationError>)
    ensures
        errors_view(r@) == json_errors(filename@, content@),
{
    match json_error(content) {
        Some((l, m)) => single(filename, l as i64, "JSON syntax error: ", m),
        None => {
            let v: Vec<ValidationError> = Vec::new();
            assert(errors_view(v@) =~= Seq::<(Seq<char>, i64, Seq<char>)>::empty());
            v
        },
    }
}

/// The XML syntax error of the text, if any: a parse error, or an unclosed tag at the end
/// (see `xml_errors`).
pub fn validate_xml(filename: &str, content: &str) -> (r: Vec<ValidationError>)
    ensures
        errors_view(r@) == xml_errors(filename@, content@),
{
    match xml_events(content) {
        Err((p, m)) => single(filename, count_lines(content, p as usize), "XML syntax error: ", m),
        Ok(steps) => {
            let mut depth: i128 = 0;
            let mut k: usize = 0;
            while k < steps.len()
                invariant
                    k <= steps@.len(),
                    depth == depth_of(steps@.take(k as int)),
                    -128 * k <= depth <= 127 * k,
                decreases steps.len() - k,
            {
                assert(steps@.take(k + 1).drop_last() =~= steps@.take(k as int));
                depth = depth + steps[k] as i128;
                k += 1;
            }
            assert(steps@.take(steps@.len() as int) =~= steps@);
            if depth != 0 {
                let end = content.as_bytes().len();
                let mut v: Vec<ValidationError> = Vec::new();
                v.push(
                    ValidationError::new(
                        filename,
                        count_lines(content, end),
                        owned("XML syntax error: unexpected EOF"),
                    ),
                );
                assert(errors_view(v@) =~= xml_errors(filename@, content@));
                v
            } else {
                let v: Vec<ValidationError> = Vec::new();
                assert(errors_view(v@) =~= Seq::<(Seq<char>, i64, Seq<char>)>::empty());
                v
            }
        },
    }
}

/// The TOML syntax error of the text, if any (see `toml_errors`).
pub fn validate_toml(filename: &str, content: &str) -> (r: Vec<ValidationError>)
    ensures
        errors_view(r@) == toml_errors(filename@, content@),
{
    match toml_error(content) {
        None => {
            let v: Vec<ValidationError> = Vec::new();
            assert(errors_view(v@) =~= Seq::<(Seq<char>, i64, Seq<char>)>::empty());
            v
        },
        Some((p, m)) => {
            let line = match p {
                Some(o) => count_lines(content, o),
                None => 1,
            };
            single(filename, line, "TOML syntax error: ", m)
        },
    }
}


// ---------------------------------------------------------------------------
// Comments in JSON.
// ---------------------------------------------------------------------------

/// The text from `i` on with `//` and `/* */` comments removed (a block comment keeps its
/// line feeds); quoted strings (`"` or `'`, with `\` escapes) are kept whole. `mode` is 0 in
/// code, 1 in a string quoted by `q`, 2 in a block comment, 3 in a line comment. An
/// unterminated block comment is an error.
pub open spec fn strip_go(r: Seq<char>, i: int, mode: int, q: char, out: Seq<char>) -> Result<Seq<char>, Seq<char>>
    decreases r.len() - i,
{
    if i < 0 || i >= r.len() {
        if mode == 2 {
            Err("unterminated block comment"@)
        } else {
            Ok(out)
        }
    } else {
        let c = r[i];
        if mode == 1 {
            if c == '\\' && i + 1 < r.len() {
                strip_go(r, i + 2, 1, q, out.push(c).push(r[i + 1]))
            } else if c == q {
                strip_go(r, i + 1, 0, q, out.push(c))
            } else {
                strip_go(r, i + 1, 1, q, out.push(c))
            }
        } else if mode == 2 {
            if i + 1 >= r.len() {
                Err("unterminated block comment"@)
            } else if c == '*' && r[i + 1] == '/' {
                strip_go(r, i + 2, 0, q, out)
            } else if c == '\n' {
                strip_go(r, i + 1, 2, q, out.push('\n'))
            } else {
                strip_go(r, i + 1, 2, q, out)
            }
        } else if mode == 3 {
            if c == '\n' {
                strip_go(r, i + 1, 0, q, out.push('\n'))
            } else {
                strip_go(r, i + 1, 3, q, out)
            }
        } else if c == '"' || c == '\'' {
            strip_go(r, i + 1, 1, c, out.push(c))
        } else if c == '/' && i + 1 < r.len() && r[i + 1] == '/' {
            strip_go(r, i + 2, 3, q, out)
        } else if c == '/' && i + 1 < r.len() && r[i + 1] == '*' {
            strip_go(r, i + 2, 2, q, out)
        } else {
            strip_go(r, i + 1, 0, q, out.push(c))
        }
    }
}

/// The text without its comments (see `strip_go`).
pub open spec fn strip_comments_spec(input: Seq<char>) -> Result<Seq<char>, Seq<char>> {
    strip_go(input, 0, 0, '"', Seq::empty())
}

/// Removes `//` and `/* */` comments outside strings (see `strip_go`).
pub fn strip_comments(input: &str) -> (r: Result<String, String>)
    ensures
        match strip_comments_spec(input@) {
            Ok(s) => r matches Ok(v) && v@ == s,
            Err(e) => r matches Err(v) && v@ == e,
        },
{
    let rs = chars_of(input);
    let n = rs.len();
    let mut out: Vec<char> = Vec::new();
    let mut mode: u8 = 0;
    let mut q: char = '"';
    let mut i: usize = 0;
    assert(out@ =~= Seq::<char>::empty());
    while i < n
        invariant
            i <= n,
            n == rs@.len(),
            rs@ == input@,
            mode <= 3,
            strip_go(rs@, i as int, mode as int, q, out@) == strip_comments_spec(input@),
        decreases n - i,
    {
        let c = rs[i];
        if mode == 1 {
            if c == '\\' && n - i > 1 {
                out.push(c);
                out.push(rs[i + 1]);
                i += 2;
            } else if c == q {
                out.push(c);
                mode = 0;
                i += 1;
            } else {
                out.push(c);
                i += 1;
            }
        } else if mode == 2 {
            if n - i < 2 {
                return Err(owned("unterminated block comment"));
            } else if c == '*' && rs[i + 1] == '/' {
                mode = 0;
                i += 2;
            } else {
                if c == '\n' {
                    out.push('\n');
                }
                i += 1;
            }
        } else if mode == 3 {
            if c == '\n' {
                out.push('\n');
                mode = 0;
            }
            i += 1;
        } else if c == '"' || c == '\'' {
            out.push(c);
            q = c;
            mode = 1;
            i += 1;
        } else if c == '/' && n - i > 1 && rs[i + 1] == '/' {
            mode = 3;
            i += 2;
        } else if c == '/' && n - i > 1 && rs[i + 1] == '*' {
            mode = 2;
            i += 2;
        } else {
            out.push(c);
            i += 1;
        }
    }
    if mode == 2 {
        return Err(owned("unterminated block comment"));
    }
    Ok(string_of(&out))
}

/// The first index at or after `j` that is not a space, tab, CR or LF (or the end).
pub open spec fn skip_json_ws(r: Seq<char>, j: int) -> int
    decreases r.len() - j,
{
    if 0 <= j < r.len() && (r[j] == ' ' || r[j] == '\t' || r[j] == '\n' || r[j] == '\r') {
        skip_json_ws(r, j + 1)
    } else {
        j
    }
}

/// A comma followed (after white space) by `}` or `]`.
pub open spec fn trailing_comma(r: Seq<char>, i: int) -> bool {
    r[i] == ',' && skip_json_ws(r, i + 1) < r.len() && (r[skip_json_ws(r, i + 1)] == '}' || r[skip_json_ws(
        r,
        i + 1,
    )] == ']')
}

/// The first `k` characters without their trailing commas.
pub open spec fn without_trailing_commas(r: Seq<char>, k: int) -> Seq<char>
    decreases k,
{
    if k <= 0 || k > r.len() {
        Seq::empty()
    } else if trailing_comma(r, k - 1) {
        without_trailing_commas(r, k - 1)
    } else {
        without_trailing_commas(r, k - 1).push(r[k - 1])
    }
}

/// Removes each comma that only white space separates from a following `}` or `]`.
pub fn strip_trailing_commas(s: &str) -> (r: String)
    ensures
        r@ == without_trailing_commas(s@, s@.len() as int),
{
    let rs = chars_of(s);
    let n = rs.len();
    let mut out: Vec<char> = Vec::new();
    let mut i: usize = 0;
    while i < n
        invariant
            i <= n,
            n == rs@.len(),
            rs@ == s@,
            out@ == without_trailing_commas(rs@, i as int),
        decreases n - i,
    {
        let mut skip = false;
        if rs[i] == ',' {
            let mut j = i + 1;
            while j < n && (rs[j] == ' ' || rs[j] == '\t' || rs[j] == '\n' || rs[j] == '\r')
                invariant
                    i < j <= n,
                    n == rs@.len(),
                    skip_json_ws(rs@, j as int) == skip_json_ws(rs@, i + 1),
                decreases n - j,
            {
                j += 1;
            }
            if j < n && (rs[j] == '}' || rs[j] == ']') {
                skip = true;
            }
        }
        if !skip {
            out.push(rs[i]);
        }
        i += 1;
    }
    string_of(&out)
}

/// JSON5 comments and trailing commas removed.
pub open spec fn strip_json5_spec(input: Seq<char>) -> Result<Seq<char>, Seq<char>> {
    match strip_comments_spec(input) {
        Ok(s) => Ok(without_trailing_commas(s, s.len() as int)),
        Err(e) => Err(e),
    }
}

/// Removes comments and trailing commas (see `strip_json5_spec`).
pub fn strip_json5_comments(input: &str) -> (r: Result<String, String>)
    ensures
        match strip_json5_spec(input@) {
            Ok(s) => r matches Ok(v) && v@ == s,
            Err(e) => r matches Err(v) && v@ == e,
        },
{
    match strip_comments(input) {
        Ok(s) => Ok(strip_trailing_commas(s.as_str())),
        Err(e) => Err(e),
    }
}

pub open spec fn json5_errors(f: Seq<char>, content: Seq<char>) -> Seq<(Seq<char>, i64, Seq<char>)> {
    match strip_json5_spec(content) {
        Ok(s) => json_errors(f, s),
        Err(e) => one_error(f, 0, "JSON5 syntax error: "@ + e),
    }
}

pub open spec fn jsonc_errors(f: Seq<char>, content: Seq<char>) -> Seq<(Seq<char>, i64, Seq<char>)> {
    match strip_comments_spec(content) {
        Ok(s) => json_errors(f, s),
        Err(e) => one_error(f, 0, "JSONC syntax error: "@ + e),
    }
}

/// The JSON5 syntax error of the text, if any (see `json5_errors`).
pub fn validate_json5(filename: &str, content: &str) -> (r: Vec<ValidationError>)
    ensures
        errors_view(r@) == json5_errors(filename@, content@),
{
    match strip_json5_comments(content) {
        Ok(s) => validate_json(filename, s.as_str()),
        Err(e) => single(filename, 0, "JSON5 syntax error: ", e),
    }
}

/// The JSONC syntax error of the text, if any (see `jsonc_errors`).
pub fn validate_jsonc(filename: &str, content: &str) -> (r: Vec<ValidationError>)
    ensures
        errors_view(r@) == jsonc_errors(filename@, content@),
{
    match strip_comments(content) {
        Ok(s) => validate_json(filename, s.as_str()),
        Err(e) => single(filename, 0, "JSONC syntax error: ", e),
    }
}

/// Whether some line, trimmed, contains `<prefix> git-warden: skip-lint`.
pub open spec fn lint_disabled(content: Seq<char>, comment_prefix: Seq<char>) -> bool {
    let ls = split_seq(content, '\n');
    exists|k: int| 0 <= k < ls.len() && contains_seq(trim_seq(#[trigger] ls[k]), comment_prefix + " git-warden: skip-lint"@)
}

/// Whether the file turns the lint off (see `lint_disabled`).
pub fn has_lint_disable_comment(content: &str, comment_prefix: &str) -> (r: bool)
    ensures
        r == lint_disabled(content@, comment_prefix@),
{
    let mut p = chars_of(comment_prefix);
    crate::text::extend_chars(&mut p, &chars_of(" git-warden: skip-lint"));
    let lines = split(&chars_of(content), '\n');
    let ghost ls = lines@.map_values(|v: Vec<char>| v@);
    let mut k: usize = 0;
    while k < lines.len()
        invariant
            k <= lines@.len(),
            ls == lines@.map_values(|v: Vec<char>| v@),
            ls == split_seq(content@, '\n'),
            p@ == comment_prefix@ + " git-warden: skip-lint"@,
            forall|j: int| 0 <= j < k ==> !contains_seq(trim_seq(#[trigger] ls[j]), p@),
        decreases lines.len() - k,
    {
        assert(ls[k as int] == lines@[k as int]@);
        if contains(&trim(&lines[k]), &p) {
            return true;
        }
        k += 1;
    }
    false
}

} // verus!
