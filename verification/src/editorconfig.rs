//! `.editorconfig` rules checked against file contents: UTF-8 without BOM, line endings, a
//! final newline, trailing white space and the indentation style.

use vstd::prelude::*;
use crate::text::{
    chars_eq_str, chars_of, ends_with, int_seq, lowercase, owned, split, split_seq, str_eq, string_of,
    trim_end_set, trim_start_set, utf8_lossy,
};

verus! {

/// A rule violation: file, line (0 for the whole file) and message.
#[derive(Debug, Clone, PartialEq, Eq)]
pub struct Violation {
    pub file: String,
    pub line: i64,
    pub message: String,
}

impl Violation {
    /// The violation as text: `file:line: message`, or `file: message` for line 0.
    pub fn to_string(&self) -> (r: String)
        ensures
            r@ == crate::lint::error_text(self.file@, self.line, self.message@),
    {
        crate::lint::ValidationError::new(self.file.as_str(), self.line, self.message.clone()).to_string()
    }
}

/// The rules `.editorconfig` gives a file (the settings the check uses).
#[derive(Debug, Clone, Default)]
pub struct Definition {
    pub charset: String,
    pub end_of_line: String,
    pub insert_final_newline: Option<bool>,
    pub trim_trailing_whitespace: Option<bool>,
    pub indent_style: String,
}

/// A boolean setting: `true` or `false` in any case.
pub open spec fn bool_setting(s: Seq<char>) -> Option<bool> {
    let l = lowercase(s);
    if l == "true"@ {
        Some(true)
    } else if l == "false"@ {
        Some(false)
    } else {
        None
    }
}

pub fn parse_bool(s: &str) -> (r: Option<bool>)
    ensures
        r == bool_setting(s@),
{
    let l = crate::text::to_lowercase(s);
    if str_eq(l.as_str(), "true") {
        Some(true)
    } else if str_eq(l.as_str(), "false") {
        Some(false)
    } else {
        None
    }
}

fn lower_or_empty(s: &Option<String>) -> (r: String)
    ensures
        r@ == match s {
            Some(v) => lowercase(v@),
            None => Seq::empty(),
        },
{
    match s {
        Some(v) => crate::text::to_lowercase(v.as_str()),
        None => String::new(),
    }
}

fn bool_or_none(s: &Option<String>) -> (r: Option<bool>)
    ensures
        r == match s {
            Some(v) => bool_setting(v@),
            None => None,
        },
{
    match s {
        Some(v) => parse_bool(v.as_str()),
        None => None,
    }
}

/// The definition from the raw values of its keys (as `.editorconfig` gives them): text
/// settings lower-cased (empty when unset), booleans parsed.
pub fn definition_from_raw(
    charset: &Option<String>,
    end_of_line: &Option<String>,
    insert_final_newline: &Option<String>,
    trim_trailing_whitespace: &Option<String>,
    indent_style: &Option<String>,
) -> (r: Definition)
    ensures
        r.charset@ == match charset {
            Some(v) => lowercase(v@),
            None => Seq::empty(),
        },
        r.end_of_line@ == match end_of_line {
            Some(v) => lowercase(v@),
            None => Seq::empty(),
        },
        r.indent_style@ == match indent_style {
            Some(v) => lowercase(v@),
            None => Seq::empty(),
        },
        r.insert_final_newline == match insert_final_newline {
            Some(v) => bool_setting(v@),
            None => None,
        },
        r.trim_trailing_whitespace == match trim_trailing_whitespace {
            Some(v) => bool_setting(v@),
            None => None,
        },
{
    Definition {
        charset: lower_or_empty(charset),
        end_of_line: lower_or_empty(end_of_line),
        insert_final_newline: bool_or_none(insert_final_newline),
        trim_trailing_whitespace: bool_or_none(trim_trailing_whitespace),
        indent_style: lower_or_empty(indent_style),
    }
}

/// A violation as plain values.
pub open spec fn violation_view(v: Violation) -> (Seq<char>, i64, Seq<char>) {
    (v.file@, v.line, v.message@)
}

pub open spec fn violations_view(v: Seq<Violation>) -> Seq<(Seq<char>, i64, Seq<char>)> {
    v.map_values(|x: Violation| violation_view(x))
}

/// The first line before the last one (`i` on) that breaks the line-ending rule: with
/// `lf` a line ending in CR, with `crlf` one that does not. The flag tells which rule.
pub open spec fn eol_violation(ls: Seq<Seq<char>>, eol: Seq<char>, i: int) -> Option<(int, bool)>
    decreases ls.len() - i,
{
    if i < 0 || i + 1 >= ls.len() {
        None
    } else {
        let cr = ls[i].len() > 0 && ls[i].last() == '\r';
        if eol == "lf"@ && cr {
            Some((i, true))
        } else if eol == "crlf"@ && !cr {
            Some((i, false))
        } else {
            eol_violation(ls, eol, i + 1)
        }
    }
}

/// The first line (`i` on) with spaces or tabs before its end (a final CR aside).
pub open spec fn trailing_ws_line(ls: Seq<Seq<char>>, i: int) -> Option<int>
    decreases ls.len() - i,
{
    if i < 0 || i >= ls.len() {
        None
    } else if trim_end_set(ls[i], seq![' ', '\t', '\r']) != trim_end_set(ls[i], seq!['\r']) {
        Some(i)
    } else {
        trailing_ws_line(ls, i + 1)
    }
}

/// The first of at most 100 indented lines (`i` on, `checked` seen) whose indentation breaks
/// the style: tabs under `space`, spaces without a leading tab under `tab`. The flag tells
/// which.
pub open spec fn indent_violation(ls: Seq<Seq<char>>, style: Seq<char>, i: int, checked: int) -> Option<(int, bool)>
    decreases ls.len() - i,
{
    if i < 0 || i >= ls.len() || checked >= 100 {
        None
    } else {
        let l = ls[i];
        let t = trim_start_set(l, seq![' ', '\t', '\r']);
        if t.len() == 0 || t == l {
            indent_violation(ls, style, i + 1, checked)
        } else {
            let ind = l.take(l.len() - t.len());
            if style == "space"@ && ind.contains('\t') {
                Some((i, true))
            } else if style == "tab"@ && !(ind.len() > 0 && ind[0] == '\t') && ind.contains(' ') {
                Some((i, false))
            } else {
                indent_violation(ls, style, i + 1, checked + 1)
            }
        }
    }
}

pub open spec fn bom_part(f: Seq<char>, content: Seq<u8>, d: Definition) -> Seq<(Seq<char>, i64, Seq<char>)> {
    if d.charset@ == "utf-8"@ && content.len() >= 3 && content[0] == 0xEF && content[1] == 0xBB && content[2]
        == 0xBF {
        seq![(f, 1i64, "file has UTF-8 BOM but charset=utf-8 (no BOM expected)"@)]
    } else {
        Seq::empty()
    }
}

pub open spec fn eol_part(f: Seq<char>, ls: Seq<Seq<char>>, d: Definition) -> Seq<(Seq<char>, i64, Seq<char>)> {
    if d.end_of_line@.len() > 0 {
        match eol_violation(ls, d.end_of_line@, 0) {
            Some((i, true)) => seq![(f, (i + 1) as i64, "expected LF line ending, found CRLF"@)],
            Some((i, false)) => seq![(f, (i + 1) as i64, "expected CRLF line ending, found LF"@)],
            None => Seq::empty(),
        }
    } else {
        Seq::empty()
    }
}

pub open spec fn newline_part(f: Seq<char>, text: Seq<char>, d: Definition) -> Seq<(Seq<char>, i64, Seq<char>)> {
    if d.insert_final_newline == Some(true) && text.len() > 0 && text.last() != '\n' {
        seq![(f, 0i64, "file must end with a newline"@)]
    } else {
        Seq::empty()
    }
}

pub open spec fn trailing_part(f: Seq<char>, ls: Seq<Seq<char>>, d: Definition) -> Seq<(Seq<char>, i64, Seq<char>)> {
    if d.trim_trailing_whitespace == Some(true) {
        match trailing_ws_line(ls, 0) {
            Some(i) => seq![(f, (i + 1) as i64, "trailing whitespace"@)],
            None => Seq::empty(),
        }
    } else {
        Seq::empty()
    }
}

pub open spec fn indent_part(f: Seq<char>, ls: Seq<Seq<char>>, d: Definition) -> Seq<(Seq<char>, i64, Seq<char>)> {
    if d.indent_style@.len() > 0 {
        match indent_violation(ls, d.indent_style@, 0, 0) {
            Some((i, true)) => seq![(f, (i + 1) as i64, "expected spaces for indentation, found tabs"@)],
            Some((i, false)) => seq![(f, (i + 1) as i64, "expected tabs for indentation, found spaces"@)],
            None => Seq::empty(),
        }
    } else {
        Seq::empty()
    }
}

/// The violations of a file's content under a definition, in this order: a UTF-8 BOM under
/// `charset=utf-8`; the first line-ending violation; a missing final newline; the first line
/// with trailing white space; the first indentation violation.
pub open spec fn check_spec(f: Seq<char>, content: Seq<u8>, d: Definition) -> Seq<(Seq<char>, i64, Seq<char>)> {
    let text = utf8_lossy(content);
    let ls = split_seq(text, '\n');
    bom_part(f, content, d) + eol_part(f, ls, d) + newline_part(f, text, d) + trailing_part(f, ls, d)
        + indent_part(f, ls, d)
}

fn push_violation(v: &mut Vec<Violation>, file: &str, line: i64, msg: &str)
    ensures
        violations_view(final(v)@) == violations_view(old(v)@).push((file@, line, msg@)),
{
    let x = Violation { file: owned(file), line, message: owned(msg) };
    proof {
        assert(violations_view(v@.push(x)) =~= violations_view(v@).push(violation_view(x)));
    }
    v.push(x);
}

fn contains_char_exec(s: &[char], c: char) -> (r: bool)
    ensures
        r == s@.contains(c),
{
    crate::text::find_char(s, c).is_some()
}

fn indent_exec(lines: &Vec<Vec<char>>, style: &str) -> (r: Option<(usize, bool)>)
    ensures
        r matches Some((j, _)) ==> j < lines@.len() <= usize::MAX,
        match indent_violation(lines@.map_values(|v: Vec<char>| v@), style@, 0, 0) {
            Some((i, b)) => r matches Some((j, c)) && j == i && c == b,
            None => r is None,
        },
{
    let ghost ls = lines@.map_values(|v: Vec<char>| v@);
    let set = [' ', '\t', '\r'];
    assert(set@ == seq![' ', '\t', '\r']);
    let space = str_eq(style, "space");
    let tab = str_eq(style, "tab");
    let mut checked: usize = 0;
    let mut i: usize = 0;
    while i < lines.len()
        invariant
            i <= lines@.len(),
            checked <= i,
            ls == lines@.map_values(|v: Vec<char>| v@),
            set@ == seq![' ', '\t', '\r'],
            space == (style@ == "space"@),
            tab == (style@ == "tab"@),
            indent_violation(ls, style@, i as int, checked as int) == indent_violation(ls, style@, 0, 0),
        decreases lines.len() - i,
    {
        if checked >= 100 {
            return None;
        }
        let l = &lines[i];
        assert(ls[i as int] == l@);
        let t = crate::text::trim_start_matches(l, &set);
        if t.len() == 0 || crate::text::chars_eq(&t, l) {
            i += 1;
        } else {
            let ind = crate::text::slice_chars(l, 0, l.len() - t.len());
            assert(ind@ =~= l@.take(l@.len() - t@.len()));
            if space && contains_char_exec(&ind, '\t') {
                return Some((i, true));
            }
            if tab && !(ind.len() > 0 && ind[0] == '\t') && contains_char_exec(&ind, ' ') {
                return Some((i, false));
            }
            checked += 1;
            i += 1;
        }
    }
    None
}

fn eol_exec(lines: &Vec<Vec<char>>, eol: &str) -> (r: Option<(usize, bool)>)
    ensures
        r matches Some((j, _)) ==> j < lines@.len() <= usize::MAX,
        match eol_violation(lines@.map_values(|v: Vec<char>| v@), eol@, 0) {
            Some((i, b)) => r matches Some((j, c)) && j == i && c == b,
            None => r is None,
        },
{
    let ghost ls = lines@.map_values(|v: Vec<char>| v@);
    let lf = str_eq(eol, "lf");
    let crlf = str_eq(eol, "crlf");
    let mut i: usize = 0;
    while i < lines.len() && lines.len() - i > 1
        invariant
            i <= lines@.len(),
            ls == lines@.map_values(|v: Vec<char>| v@),
            lf == (eol@ == "lf"@),
            crlf == (eol@ == "crlf"@),
            eol_violation(ls, eol@, i as int) == eol_violation(ls, eol@, 0),
        decreases lines.len() - i,
    {
        let l = &lines[i];
        assert(ls[i as int] == l@);
        let cr = l.len() > 0 && l[l.len() - 1] == '\r';
        if lf && cr {
            return Some((i, true));
        }
        if crlf && !cr {
            return Some((i, false));
        }
        i += 1;
    }
    None
}

fn trailing_ws_exec(lines: &Vec<Vec<char>>) -> (r: Option<usize>)
    ensures
        r matches Some(j) ==> j < lines@.len() <= usize::MAX,
        match trailing_ws_line(lines@.map_values(|v: Vec<char>| v@), 0) {
            Some(i) => r matches Some(j) && j == i,
            None => r is None,
        },
{
    let ghost ls = lines@.map_values(|v: Vec<char>| v@);
    let ws = [' ', '\t', '\r'];
    let cr = ['\r'];
    assert(ws@ == seq![' ', '\t', '\r']);
    assert(cr@ == seq!['\r']);
    let mut i: usize = 0;
    while i < lines.len()
        invariant
            i <= lines@.len(),
            ls == lines@.map_values(|v: Vec<char>| v@),
            ws@ == seq![' ', '\t', '\r'],
            cr@ == seq!['\r'],
            trailing_ws_line(ls, i as int) == trailing_ws_line(ls, 0),
        decreases lines.len() - i,
    {
        let l = &lines[i];
        assert(ls[i as int] == l@);
        let a = crate::text::trim_end_matches(l, &ws);
        let b = crate::text::trim_end_matches(l, &cr);
        if !crate::text::chars_eq(&a, &b) {
            return Some(i);
        }
        i += 1;
    }
    None
}

/// The violations of a file's content (see `check_spec`).
pub fn check(filename: &str, content: &[u8], def: &Definition) -> (r: Vec<Violation>)
    ensures
        violations_view(r@) == check_spec(filename@, content@, *def),
{
    let mut violations: Vec<Violation> = Vec::new();
    let text = crate::text::from_utf8_lossy(content);
    let tc = chars_of(text.as_str());
    let lines = split(&tc, '\n');
    let ghost ls = lines@.map_values(|v: Vec<char>| v@);
    let ghost f = filename@;
    assert(violations_view(violations@) =~= Seq::<(Seq<char>, i64, Seq<char>)>::empty());
    if str_eq(def.charset.as_str(), "utf-8") && content.len() >= 3 && content[0] == 0xEF && content[1] == 0xBB
        && content[2] == 0xBF {
        push_violation(&mut violations, filename, 1, "file has UTF-8 BOM but charset=utf-8 (no BOM expected)");
    }
    assert(violations_view(violations@) =~= bom_part(f, content@, *def));
    let ghost v1 = violations_view(violations@);
    if !crate::text::is_empty_str(def.end_of_line.as_str()) {
        match eol_exec(&lines, def.end_of_line.as_str()) {
            Some((i, true)) => push_violation(
                &mut violations,
                filename,
                (i + 1) as i64,
                "expected LF line ending, found CRLF",
            ),
            Some((i, false)) => push_violation(
                &mut violations,
                filename,
                (i + 1) as i64,
                "expected CRLF line ending, found LF",
            ),
            None => {},
        }
    }
    assert(violations_view(violations@) =~= v1 + eol_part(f, ls, *def));
    let ghost v2 = violations_view(violations@);
    if def.insert_final_newline == Some(true) && tc.len() > 0 && tc[tc.len() - 1] != '\n' {
        push_violation(&mut violations, filename, 0, "file must end with a newline");
    }
    assert(violations_view(violations@) =~= v2 + newline_part(f, tc@, *def));
    let ghost v3 = violations_view(violations@);
    if def.trim_trailing_whitespace == Some(true) {
        match trailing_ws_exec(&lines) {
            Some(i) => push_violation(&mut violations, filename, (i + 1) as i64, "trailing whitespace"),
            None => {},
        }
    }
    assert(violations_view(violations@) =~= v3 + trailing_part(f, ls, *def));
    let ghost v4 = violations_view(violations@);
    if !crate::text::is_empty_str(def.indent_style.as_str()) {
        match indent_exec(&lines, def.indent_style.as_str()) {
            Some((i, true)) => push_violation(
                &mut violations,
                filename,
                (i + 1) as i64,
                "expected spaces for indentation, found tabs",
            ),
            Some((i, false)) => push_violation(
                &mut violations,
                filename,
                (i + 1) as i64,
                "expected tabs for indentation, found spaces",
            ),
            None => {},
        }
    }
    assert(violations_view(violations@) =~= v4 + indent_part(f, ls, *def));
    violations
}

} // verus!
