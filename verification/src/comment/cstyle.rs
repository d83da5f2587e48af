//! Comments and string literals of C-style languages (TypeScript, JavaScript, Java, Kotlin,
//! C, C++, C#, Swift, Rust, PHP).

use vstd::prelude::*;
use crate::text::{chars_of, has_prefix, has_suffix, trim, trim_seq};
use super::base::{clean_block, clean_block_comment, items, push_item, Comment, Item, Kind, Parser};

verus! {

/// Scanner states.
#[derive(Debug, Clone, Copy, PartialEq, Eq, Structural)]
pub enum CsState {
    Code,
    Line,
    Block,
    Dq,
    Sq,
    Template,
}

/// The scanner's state: where it is, the text collected so far, the code before it on the
/// current line, the lines where the current comment and string started, the current line
/// and the items found.
pub struct CScan {
    pub st: CsState,
    pub buf: Seq<char>,
    pub pre: Seq<char>,
    pub cl: nat,
    pub sl: nat,
    pub line: nat,
    pub acc: Seq<Item>,
}

/// Code before a string on its line that makes the string an import path: `#include`,
/// `import`, or `from` (alone or at the end).
pub open spec fn import_context(pre: Seq<char>) -> bool {
    let p = trim_seq(pre);
    has_prefix(p, "#include"@) || p == "from"@ || has_suffix(p, " from"@) || p == "import"@
}

pub open spec fn kind_for(pre: Seq<char>) -> Kind {
    if import_context(pre) {
        Kind::Import
    } else {
        Kind::String
    }
}

/// A finished string literal (nothing for an empty one).
pub open spec fn emit_str(acc: Seq<Item>, buf: Seq<char>, sl: nat, line: nat, kind: Kind) -> Seq<Item> {
    if buf.len() > 0 {
        acc.push(Item { text: buf, line: sl as i64, end_line: line as i64, is_block: false, kind })
    } else {
        acc
    }
}

/// A finished line comment (its trimmed text; nothing when empty).
pub open spec fn emit_line(acc: Seq<Item>, buf: Seq<char>, cl: nat, line: nat) -> Seq<Item> {
    let t = trim_seq(buf);
    if t.len() > 0 {
        acc.push(Item { text: t, line: cl as i64, end_line: line as i64, is_block: false, kind: Kind::Comment })
    } else {
        acc
    }
}

/// The items once the text has ended in state `s`.
pub open spec fn cs_finish(s: CScan) -> Seq<Item> {
    if s.st == CsState::Line {
        emit_line(s.acc, s.buf, s.cl, s.line)
    } else if s.st == CsState::Dq || s.st == CsState::Sq || s.st == CsState::Template {
        emit_str(s.acc, s.buf, s.sl, s.line, kind_for(s.pre))
    } else {
        s.acc
    }
}

/// The items of `r[i..]` from state `s`; `tpl` enables backtick template literals. In a
/// string, a `\` drops itself and the character after it.
pub open spec fn cs_go(r: Seq<char>, tpl: bool, i: int, s: CScan) -> Seq<Item>
    decreases r.len() - i,
{
    if i < 0 || i >= r.len() {
        cs_finish(s)
    } else {
        let ch = r[i];
        let pk = if i + 1 < r.len() {
            r[i + 1]
        } else {
            '\0'
        };
        match s.st {
            CsState::Code => if ch == '\n' {
                cs_go(r, tpl, i + 1, CScan { line: s.line + 1, pre: Seq::empty(), ..s })
            } else if ch == '/' && pk == '/' {
                cs_go(r, tpl, i + 2, CScan { st: CsState::Line, cl: s.line, ..s })
            } else if ch == '/' && pk == '*' {
                cs_go(r, tpl, i + 2, CScan { st: CsState::Block, cl: s.line, ..s })
            } else if ch == '"' {
                cs_go(r, tpl, i + 1, CScan { st: CsState::Dq, sl: s.line, buf: Seq::empty(), ..s })
            } else if ch == '\'' {
                cs_go(r, tpl, i + 1, CScan { st: CsState::Sq, sl: s.line, buf: Seq::empty(), ..s })
            } else if tpl && ch == '`' {
                cs_go(
                    r,
                    tpl,
                    i + 1,
                    CScan { st: CsState::Template, sl: s.line, buf: Seq::empty(), ..s },
                )
            } else {
                cs_go(r, tpl, i + 1, CScan { pre: s.pre.push(ch), ..s })
            },
            CsState::Line => if ch == '\n' {
                cs_go(
                    r,
                    tpl,
                    i + 1,
                    CScan {
                        st: CsState::Code,
                        acc: emit_line(s.acc, s.buf, s.cl, s.line),
                        buf: Seq::empty(),
                        line: s.line + 1,
                        pre: Seq::empty(),
                        ..s
                    },
                )
            } else {
                cs_go(r, tpl, i + 1, CScan { buf: s.buf.push(ch), ..s })
            },
            CsState::Block => if ch == '*' && pk == '/' {
                cs_go(
                    r,
                    tpl,
                    i + 2,
                    CScan {
                        st: CsState::Code,
                        acc: s.acc.push(
                            Item {
                                text: clean_block(s.buf),
                                line: s.cl as i64,
                                end_line: s.line as i64,
                                is_block: true,
                                kind: Kind::Comment,
                            },
                        ),
                        buf: Seq::empty(),
                        ..s
                    },
                )
            } else {
                cs_go(r, tpl, i + 1, CScan {
                    line: if ch == '\n' {
                        s.line + 1
                    } else {
                        s.line
                    },
                    buf: s.buf.push(ch),
                    ..s
                })
            },
            CsState::Dq | CsState::Sq => {
                let q = if s.st == CsState::Dq {
                    '"'
                } else {
                    '\''
                };
                if ch == '\n' {
                    cs_go(
                        r,
                        tpl,
                        i + 1,
                        CScan {
                            st: CsState::Code,
                            acc: emit_str(s.acc, s.buf, s.sl, s.line, kind_for(s.pre)),
                            buf: Seq::empty(),
                            line: s.line + 1,
                            pre: Seq::empty(),
                            ..s
                        },
                    )
                } else if ch == '\\' && i + 1 < r.len() {
                    cs_go(r, tpl, i + 2, s)
                } else if ch == q {
                    cs_go(
                        r,
                        tpl,
                        i + 1,
                        CScan {
                            st: CsState::Code,
                            acc: emit_str(s.acc, s.buf, s.sl, s.line, kind_for(s.pre)),
                            buf: Seq::empty(),
                            ..s
                        },
                    )
                } else {
                    cs_go(r, tpl, i + 1, CScan { buf: s.buf.push(ch), ..s })
                }
            },
            CsState::Template => if ch == '\n' {
                cs_go(r, tpl, i + 1, CScan { line: s.line + 1, buf: s.buf.push(ch), ..s })
            } else if ch == '\\' && i + 1 < r.len() {
                cs_go(r, tpl, i + 2, s)
            } else if ch == '`' {
                cs_go(
                    r,
                    tpl,
                    i + 1,
                    CScan {
                        st: CsState::Code,
                        acc: emit_str(s.acc, s.buf, s.sl, s.line, Kind::String),
                        buf: Seq::empty(),
                        ..s
                    },
                )
            } else {
                cs_go(r, tpl, i + 1, CScan { buf: s.buf.push(ch), ..s })
            },
        }
    }
}

/// The comments and string literals of a C-style source text.
pub open spec fn cstyle_items(content: Seq<char>, tpl: bool) -> Seq<Item> {
    cs_go(
        content,
        tpl,
        0,
        CScan {
            st: CsState::Code,
            buf: Seq::empty(),
            pre: Seq::empty(),
            cl: 1,
            sl: 1,
            line: 1,
            acc: Seq::empty(),
        },
    )
}

fn is_import_context(pre: &[char]) -> (r: bool)
    ensures
        r == import_context(pre@),
{
    let p = trim(pre);
    crate::text::starts_with_str(&p, "#include") || crate::text::chars_eq_str(&p, "from")
        || crate::text::ends_with(&p, &chars_of(" from")) || crate::text::chars_eq_str(&p, "import")
}

/// The kind of a string literal after the given code on its line.
pub fn kind_for_import(pre: &[char]) -> (r: Kind)
    ensures
        r == kind_for(pre@),
{
    if is_import_context(pre) {
        Kind::Import
    } else {
        Kind::String
    }
}

fn emit_string(result: &mut Vec<Comment>, buf: &[char], sl: usize, line: usize, kind: Kind)
    requires
        sl < usize::MAX,
        line < usize::MAX,
    ensures
        items(final(result)@) == emit_str(items(old(result)@), buf@, (sl + 1) as nat, (line + 1) as nat, kind),
{
    if buf.len() > 0 {
        push_item(result, buf, (sl + 1) as i64, (line + 1) as i64, false, kind);
    }
}

fn emit_line_comment(result: &mut Vec<Comment>, buf: &[char], cl: usize, line: usize)
    requires
        cl < usize::MAX,
        line < usize::MAX,
    ensures
        items(final(result)@) == emit_line(items(old(result)@), buf@, (cl + 1) as nat, (line + 1) as nat),
{
    let t = trim(buf);
    if t.len() > 0 {
        push_item(result, &t, (cl + 1) as i64, (line + 1) as i64, false, Kind::Comment);
    }
}

/// Extracts comments and string literals from C-style languages; `has_template` enables
/// backtick template literals (JavaScript, TypeScript).
pub struct CStyleParser {
    extensions: Vec<&'static str>,
    has_template: bool,
}

impl CStyleParser {
    pub closed spec fn template(&self) -> bool {
        self.has_template
    }

    pub closed spec fn exts(&self) -> Seq<&'static str> {
        self.extensions@
    }

    /// A parser for the given extensions.
    pub fn new(extensions: Vec<&'static str>, has_template: bool) -> (r: Self)
        ensures
            r.template() == has_template,
            r.exts() == extensions@,
    {
        CStyleParser { extensions, has_template }
    }

    /// The items of the text (see `cs_go`).
    pub fn parse_file(&self, content: &str) -> (r: Result<Vec<Comment>, String>)
        ensures
            r matches Ok(v) && items(v@) == cstyle_items(content@, self.template()),
    {
        let rs = chars_of(content);
        let n = rs.len();
        let tpl = self.has_template;
        let ghost target = cstyle_items(content@, tpl);
        let mut result: Vec<Comment> = Vec::new();
        let mut state = CsState::Code;
        let mut buf: Vec<char> = Vec::new();
        let mut pre: Vec<char> = Vec::new();
        let mut cl: usize = 0;
        let mut sl: usize = 0;
        let mut line: usize = 0;
        let mut i: usize = 0;
        assert(items(result@) =~= Seq::<Item>::empty());
        assert(buf@ =~= Seq::<char>::empty());
        assert(pre@ =~= Seq::<char>::empty());
        while i < n
            invariant
                n == rs@.len(),
                rs@ == content@,
                i <= n,
                line <= i,
                cl <= line,
                sl <= line,
                state != CsState::Code ==> line < i,
                cs_go(
                    rs@,
                    tpl,
                    i as int,
                    CScan {
                        st: state,
                        buf: buf@,
                        pre: pre@,
                        cl: (cl + 1) as nat,
                        sl: (sl + 1) as nat,
                        line: (line + 1) as nat,
                        acc: items(result@),
                    },
                ) == target,
            decreases n - i,
        {
            let ch = rs[i];
            let pk = if n - i > 1 {
                rs[i + 1]
            } else {
                '\0'
            };
            match state {
                CsState::Code => {
                    if ch == '\n' {
                        line += 1;
                        pre = Vec::new();
                    } else if ch == '/' && pk == '/' {
                        state = CsState::Line;
                        cl = line;
                        i += 1;
                    } else if ch == '/' && pk == '*' {
                        state = CsState::Block;
                        cl = line;
                        i += 1;
                    } else if ch == '"' {
                        state = CsState::Dq;
                        sl = line;
                        buf = Vec::new();
                    } else if ch == '\'' {
                        state = CsState::Sq;
                        sl = line;
                        buf = Vec::new();
                    } else if tpl && ch == '`' {
                        state = CsState::Template;
                        sl = line;
                        buf = Vec::new();
                    } else {
                        pre.push(ch);
                    }
                },
                CsState::Line => {
                    if ch == '\n' {
                        emit_line_comment(&mut result, &buf, cl, line);
                        buf = Vec::new();
                        state = CsState::Code;
                        line += 1;
                        pre = Vec::new();
                    } else {
                        buf.push(ch);
                    }
                },
                CsState::Block => {
                    if ch == '*' && pk == '/' {
                        let text = clean_block_comment(&buf);
                        push_item(&mut result, &text, (cl + 1) as i64, (line + 1) as i64, true, Kind::Comment);
                        buf = Vec::new();
                        state = CsState::Code;
                        i += 1;
                    } else {
                        if ch == '\n' {
                            line += 1;
                        }
                        buf.push(ch);
                    }
                },
                CsState::Dq | CsState::Sq => {
                    let q = if state == CsState::Dq {
                        '"'
                    } else {
                        '\''
                    };
                    if ch == '\n' {
                        emit_string(&mut result, &buf, sl, line, kind_for_import(&pre));
                        buf = Vec::new();
                        line += 1;
                        pre = Vec::new();
                        state = CsState::Code;
                    } else if ch == '\\' && n - i > 1 {
                        i += 1;
                    } else if ch == q {
                        emit_string(&mut result, &buf, sl, line, kind_for_import(&pre));
                        buf = Vec::new();
                        state = CsState::Code;
                    } else {
                        buf.push(ch);
                    }
                },
                CsState::Template => {
                    if ch == '\n' {
                        line += 1;
                        buf.push(ch);
                    } else if ch == '\\' && n - i > 1 {
                        i += 1;
                    } else if ch == '`' {
                        emit_string(&mut result, &buf, sl, line, Kind::String);
                        buf = Vec::new();
                        state = CsState::Code;
                    } else {
                        buf.push(ch);
                    }
                },
            }
            i += 1;
        }
        if state == CsState::Line {
            emit_line_comment(&mut result, &buf, cl, line);
        }
        if state == CsState::Dq || state == CsState::Sq || state == CsState::Template {
            emit_string(&mut result, &buf, sl, line, kind_for_import(&pre));
        }
        Ok(result)
    }

    pub fn supported_extensions(&self) -> (r: Vec<&'static str>)
        ensures
            r@ == self.exts(),
    {
        self.extensions.clone()
    }
}

impl Parser for CStyleParser {
    fn parse_file(&self, content: &str) -> Result<Vec<Comment>, String> {
        CStyleParser::parse_file(self, content)
    }

    fn supported_extensions(&self) -> Vec<&'static str> {
        CStyleParser::supported_extensions(self)
    }
}

} // verus!
