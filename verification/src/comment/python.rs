//! Comments, strings and docstrings of Python, with PEP 723 metadata blocks marked as imports.

use vstd::prelude::*;
use crate::text::{alphanumeric, chars_of, has_prefix, is_alphanumeric, trim, trim_seq};
use super::base::{items, push_item, Comment, Item, Kind, Parser};

verus! {

/// Scanner states.
#[derive(Debug, Clone, Copy, PartialEq, Eq, Structural)]
pub enum PyState {
    Code,
    Line,
    Dq,
    Sq,
    TripleDq,
    TripleSq,
}

/// The scanner's state: where it is, the collected text, the start lines of the current
/// comment and string, the current line and the items found.
pub struct PyScan {
    pub st: PyState,
    pub buf: Seq<char>,
    pub cl: nat,
    pub sl: nat,
    pub line: nat,
    pub acc: Seq<Item>,
}

/// A finished `#` comment: its trimmed text, unless empty or a `#!` on line 1.
pub open spec fn py_line(acc: Seq<Item>, buf: Seq<char>, cl: nat, line: nat) -> Seq<Item> {
    let t = trim_seq(buf);
    if t.len() > 0 && (cl != 1 || t[0] != '!') {
        acc.push(Item { text: t, line: cl as i64, end_line: line as i64, is_block: false, kind: Kind::Comment })
    } else {
        acc
    }
}

/// A finished string: its trimmed text, unless the raw text is empty.
pub open spec fn py_str(acc: Seq<Item>, buf: Seq<char>, sl: nat, line: nat) -> Seq<Item> {
    if buf.len() > 0 {
        acc.push(Item { text: trim_seq(buf), line: sl as i64, end_line: line as i64, is_block: false, kind: Kind::String })
    } else {
        acc
    }
}

pub open spec fn at(r: Seq<char>, i: int) -> char {
    if 0 <= i < r.len() {
        r[i]
    } else {
        '\0'
    }
}

pub open spec fn py_finish(s: PyScan) -> Seq<Item> {
    if s.st == PyState::Line {
        py_line(s.acc, s.buf, s.cl, s.line)
    } else if s.st != PyState::Code {
        py_str(s.acc, s.buf, s.sl, s.line)
    } else {
        s.acc
    }
}

/// The items of `r[i..]` from state `s`.
pub open spec fn py_go(r: Seq<char>, i: int, s: PyScan) -> Seq<Item>
    decreases r.len() - i,
{
    if i < 0 || i >= r.len() {
        py_finish(s)
    } else {
        let ch = r[i];
        match s.st {
            PyState::Code => if ch == '\n' {
                py_go(r, i + 1, PyScan { line: s.line + 1, ..s })
            } else if ch == '#' {
                py_go(r, i + 1, PyScan { st: PyState::Line, cl: s.line, ..s })
            } else if ch == '"' && at(r, i + 1) == '"' && at(r, i + 2) == '"' {
                py_go(r, i + 3, PyScan { st: PyState::TripleDq, sl: s.line, buf: Seq::empty(), ..s })
            } else if ch == '\'' && at(r, i + 1) == '\'' && at(r, i + 2) == '\'' {
                py_go(r, i + 3, PyScan { st: PyState::TripleSq, sl: s.line, buf: Seq::empty(), ..s })
            } else if ch == '"' {
                py_go(r, i + 1, PyScan { st: PyState::Dq, sl: s.line, buf: Seq::empty(), ..s })
            } else if ch == '\'' {
                py_go(r, i + 1, PyScan { st: PyState::Sq, sl: s.line, buf: Seq::empty(), ..s })
            } else {
                py_go(r, i + 1, s)
            },
            PyState::Line => if ch == '\n' {
                py_go(
                    r,
                    i + 1,
                    PyScan {
                        st: PyState::Code,
                        acc: py_line(s.acc, s.buf, s.cl, s.line),
                        buf: Seq::empty(),
                        line: s.line + 1,
                        ..s
                    },
                )
            } else {
                py_go(r, i + 1, PyScan { buf: s.buf.push(ch), ..s })
            },
            PyState::Dq | PyState::Sq => {
                let q = if s.st == PyState::Dq {
                    '"'
                } else {
                    '\''
                };
                if ch == '\n' {
                    py_go(
                        r,
                        i + 1,
                        PyScan {
                            st: PyState::Code,
                            acc: py_str(s.acc, s.buf, s.sl, s.line),
                            buf: Seq::empty(),
                            line: s.line + 1,
                            ..s
                        },
                    )
                } else if ch == '\\' && i + 1 < r.len() {
                    py_go(r, i + 2, s)
                } else if ch == q {
                    py_go(
                        r,
                        i + 1,
                        PyScan { st: PyState::Code, acc: py_str(s.acc, s.buf, s.sl, s.line), buf: Seq::empty(), ..s },
                    )
                } else {
                    py_go(r, i + 1, PyScan { buf: s.buf.push(ch), ..s })
                }
            },
            PyState::TripleDq | PyState::TripleSq => {
                let q = if s.st == PyState::TripleDq {
                    '"'
                } else {
                    '\''
                };
                if ch == '\n' {
                    py_go(r, i + 1, PyScan { line: s.line + 1, buf: s.buf.push(ch), ..s })
                } else if ch == q && at(r, i + 1) == q && at(r, i + 2) == q {
                    py_go(
                        r,
                        i + 3,
                        PyScan { st: PyState::Code, acc: py_str(s.acc, s.buf, s.sl, s.line), buf: Seq::empty(), ..s },
                    )
                } else {
                    py_go(r, i + 1, PyScan { buf: s.buf.push(ch), ..s })
                }
            },
        }
    }
}

/// Whether a comment opens a PEP 723 block: `/// ` followed by a non-empty type made of
/// alphanumeric characters, `-` and `.`.
pub open spec fn pep723_open(text: Seq<char>) -> bool {
    has_prefix(text, "/// "@) && {
        let ty = trim_seq(text.skip(4));
        ty.len() > 0 && forall|k: int|
            0 <= k < ty.len() ==> alphanumeric(#[trigger] ty[k]) || ty[k] == '-' || ty[k] == '.'
    }
}

/// The items with the line comments of PEP 723 blocks (from an opening tag up to a `///`
/// line) turned into imports.
pub open spec fn pep723_go(v: Seq<Item>, k: int, in_block: bool) -> Seq<Item>
    decreases v.len() - k,
{
    if k < 0 || k >= v.len() {
        Seq::empty()
    } else {
        let c = v[k];
        if c.kind != Kind::Comment || c.is_block {
            seq![c] + pep723_go(v, k + 1, in_block)
        } else if !in_block {
            if pep723_open(c.text) {
                seq![Item { kind: Kind::Import, ..c }] + pep723_go(v, k + 1, true)
            } else {
                seq![c] + pep723_go(v, k + 1, false)
            }
        } else {
            seq![Item { kind: Kind::Import, ..c }] + pep723_go(v, k + 1, c.text != "///"@)
        }
    }
}

/// The items of a Python source text.
pub open spec fn python_items(content: Seq<char>) -> Seq<Item> {
    let raw = py_go(
        content,
        0,
        PyScan { st: PyState::Code, buf: Seq::empty(), cl: 1, sl: 1, line: 1, acc: Seq::empty() },
    );
    pep723_go(raw, 0, false)
}

fn is_pep723_open_tag(text: &[char]) -> (r: bool)
    ensures
        r == pep723_open(text@),
{
    if !crate::text::starts_with_str(text, "/// ") {
        return false;
    }
    proof {
        reveal_strlit("/// ");
    }
    let rest = crate::text::slice_chars(text, 4, text.len());
    assert(rest@ == text@.skip(4));
    let ty = trim(&rest);
    if ty.len() == 0 {
        return false;
    }
    let mut k: usize = 0;
    while k < ty.len()
        invariant
            k <= ty@.len(),
            ty@ == trim_seq(text@.skip(4)),
            ty@.len() > 0,
            has_prefix(text@, "/// "@),
            forall|j: int| 0 <= j < k ==> alphanumeric(#[trigger] ty@[j]) || ty@[j] == '-' || ty@[j] == '.',
        decreases ty.len() - k,
    {
        let ch = ty[k];
        if !(is_alphanumeric(ch) || ch == '-' || ch == '.') {
            assert(!(alphanumeric(ty@[k as int]) || ty@[k as int] == '-' || ty@[k as int] == '.'));
            return false;
        }
        k += 1;
    }
    true
}

fn mark_pep723_blocks(v: Vec<Comment>) -> (r: Vec<Comment>)
    ensures
        items(r@) == pep723_go(items(v@), 0, false),
{
    let ghost iv = items(v@);
    let mut out: Vec<Comment> = Vec::new();
    let mut in_block = false;
    let mut k: usize = 0;
    while k < v.len()
        invariant
            k <= v@.len(),
            iv == items(v@),
            items(out@) + pep723_go(iv, k as int, in_block) == pep723_go(iv, 0, false),
        decreases v.len() - k,
    {
        let c = &v[k];
        let ghost o0 = items(out@);
        let ghost b0 = in_block;
        let mut nc = Comment {
            text: c.text.clone(),
            line: c.line,
            end_line: c.end_line,
            is_block: c.is_block,
            kind: c.kind,
        };
        if c.kind != Kind::Comment || c.is_block {
        } else if !in_block {
            if is_pep723_open_tag(&chars_of(c.text.as_str())) {
                nc.kind = Kind::Import;
                in_block = true;
            }
        } else {
            nc.kind = Kind::Import;
            if crate::text::str_eq(c.text.as_str(), "///") {
                in_block = false;
            }
        }
        proof {
            assert(items(out@.push(nc)) =~= items(out@).push(nc.item()));
        }
        out.push(nc);
        assert(items(out@) + pep723_go(iv, k + 1, in_block) =~= o0 + pep723_go(iv, k as int, b0));
        k += 1;
    }
    assert(items(out@) =~= items(out@) + pep723_go(iv, k as int, in_block));
    out
}

fn py_line_exec(result: &mut Vec<Comment>, buf: &[char], cl: usize, line: usize)
    requires
        cl < usize::MAX,
        line < usize::MAX,
    ensures
        items(final(result)@) == py_line(items(old(result)@), buf@, (cl + 1) as nat, (line + 1) as nat),
{
    let t = trim(buf);
    if t.len() > 0 && (cl != 0 || t[0] != '!') {
        push_item(result, &t, (cl + 1) as i64, (line + 1) as i64, false, Kind::Comment);
    }
}

fn py_str_exec(result: &mut Vec<Comment>, buf: &[char], sl: usize, line: usize)
    requires
        sl < usize::MAX,
        line < usize::MAX,
    ensures
        items(final(result)@) == py_str(items(old(result)@), buf@, (sl + 1) as nat, (line + 1) as nat),
{
    if buf.len() > 0 {
        let t = trim(buf);
        push_item(result, &t, (sl + 1) as i64, (line + 1) as i64, false, Kind::String);
    }
}

fn at_exec(r: &[char], i: usize, off: usize) -> (c: char)
    requires
        off <= 2,
    ensures
        c == at(r@, i + off),
{
    if i < r.len() && r.len() - i > off {
        r[i + off]
    } else {
        '\0'
    }
}

/// Extracts comments, strings and docstrings from Python.
pub struct PythonParser;

impl PythonParser {
    /// The items of the text (see `python_items`).
    pub fn parse_file(&self, content: &str) -> (r: Result<Vec<Comment>, String>)
        ensures
            r matches Ok(v) && items(v@) == python_items(content@),
    {
        let rs = chars_of(content);
        let n = rs.len();
        let ghost target = py_go(
            content@,
            0,
            PyScan { st: PyState::Code, buf: Seq::empty(), cl: 1, sl: 1, line: 1, acc: Seq::empty() },
        );
        let mut result: Vec<Comment> = Vec::new();
        let mut state = PyState::Code;
        let mut buf: Vec<char> = Vec::new();
        let mut cl: usize = 0;
        let mut sl: usize = 0;
        let mut line: usize = 0;
        let mut i: usize = 0;
        assert(items(result@) =~= Seq::<Item>::empty());
        assert(buf@ =~= Seq::<char>::empty());
        while i < n
            invariant
                n == rs@.len(),
                rs@ == content@,
                i <= n,
                line <= i,
                cl <= line,
                sl <= line,
                state != PyState::Code ==> line < i,
                py_go(
                    rs@,
                    i as int,
                    PyScan {
                        st: state,
                        buf: buf@,
                        cl: (cl + 1) as nat,
                        sl: (sl + 1) as nat,
                        line: (line + 1) as nat,
                        acc: items(result@),
                    },
                ) == target,
            decreases n - i,
        {
            let ch = rs[i];
            match state {
                PyState::Code => {
                    if ch == '\n' {
                        line += 1;
                        i += 1;
                    } else if ch == '#' {
                        state = PyState::Line;
                        cl = line;
                        i += 1;
                    } else if ch == '"' && at_exec(&rs, i, 1) == '"' && at_exec(&rs, i, 2) == '"' {
                        state = PyState::TripleDq;
                        sl = line;
                        buf = Vec::new();
                        i += 3;
                    } else if ch == '\'' && at_exec(&rs, i, 1) == '\'' && at_exec(&rs, i, 2) == '\'' {
                        state = PyState::TripleSq;
                        sl = line;
                        buf = Vec::new();
                        i += 3;
                    } else if ch == '"' {
                        state = PyState::Dq;
                        sl = line;
                        buf = Vec::new();
                        i += 1;
                    } else if ch == '\'' {
                        state = PyState::Sq;
                        sl = line;
                        buf = Vec::new();
                        i += 1;
                    } else {
                        i += 1;
                    }
                },
                PyState::Line => {
                    if ch == '\n' {
                        py_line_exec(&mut result, &buf, cl, line);
                        buf = Vec::new();
                        state = PyState::Code;
                        line += 1;
                    } else {
                        buf.push(ch);
                    }
                    i += 1;
                },
                PyState::Dq | PyState::Sq => {
                    let q = if state == PyState::Dq {
                        '"'
                    } else {
                        '\''
                    };
                    if ch == '\n' {
                        py_str_exec(&mut result, &buf, sl, line);
                        buf = Vec::new();
                        line += 1;
                        state = PyState::Code;
                        i += 1;
                    } else if ch == '\\' && n - i > 1 {
                        i += 2;
                    } else if ch == q {
                        py_str_exec(&mut result, &buf, sl, line);
                        buf = Vec::new();
                        state = PyState::Code;
                        i += 1;
                    } else {
                        buf.push(ch);
                        i += 1;
                    }
                },
                PyState::TripleDq | PyState::TripleSq => {
                    let q = if state == PyState::TripleDq {
                        '"'
                    } else {
                        '\''
                    };
                    if ch == '\n' {
                        line += 1;
                        buf.push(ch);
                        i += 1;
                    } else if ch == q && at_exec(&rs, i, 1) == q && at_exec(&rs, i, 2) == q {
                        py_str_exec(&mut result, &buf, sl, line);
                        buf = Vec::new();
                        state = PyState::Code;
                        i += 3;
                    } else {
                        buf.push(ch);
                        i += 1;
                    }
                },
            }
            if i > n {
                i = n;
            }
        }
        if state == PyState::Line {
            py_line_exec(&mut result, &buf, cl, line);
        } else if state != PyState::Code {
            py_str_exec(&mut result, &buf, sl, line);
        }
        Ok(mark_pep723_blocks(result))
    }

    pub fn supported_extensions(&self) -> (r: Vec<&'static str>)
        ensures
            r@.map_values(|s: &str| s@) == seq![".py"@],
    {
        let r = vec![".py"];
        assert(r@.map_values(|s: &str| s@) =~= seq![".py"@]);
        r
    }
}

impl Parser for PythonParser {
    fn parse_file(&self, content: &str) -> Result<Vec<Comment>, String> {
        PythonParser::parse_file(self, content)
    }

    fn supported_extensions(&self) -> Vec<&'static str> {
        PythonParser::supported_extensions(self)
    }
}

} // verus!
