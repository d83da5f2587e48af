//! Comments, strings and heredocs of HCL (Terraform and the like).

use vstd::prelude::*;
use crate::text::{
    alphanumeric, chars_of, is_alphanumeric, join, join_seq, replace_chars, replace_seq, trim, trim_seq,
};
use super::base::{clean_block, clean_block_comment, items, push_item, Comment, Item, Kind, Parser};
use super::gounq::{lemma_scan_bounds, line_end};

verus! {

/// Where the scanner is: in code, in a line comment, in a block comment, or in a string
/// (with the interpolations and strings nested in it).
#[derive(Debug, Clone, Copy, PartialEq, Eq, Structural)]
pub enum HclMode {
    Top,
    LineComment,
    Block,
    Strings,
}

/// The scanner's state: the mode, the comment text so far, the line where the current comment
/// or string began, where the outermost string's body begins, the open frames (a string is 0,
/// an interpolation is its brace depth), the current line and the items found.
pub struct HclScan {
    pub mode: HclMode,
    pub buf: Seq<char>,
    pub start: nat,
    pub body: int,
    pub frames: Seq<nat>,
    pub line: nat,
    pub acc: Seq<Item>,
}

/// The character at `j`, or NUL past the end.
pub open spec fn peek_at(r: Seq<char>, j: int) -> char {
    if 0 <= j < r.len() {
        r[j]
    } else {
        '\0'
    }
}

/// The end of the label characters (letters, digits, `_`) starting at `j`.
pub open spec fn ident_end(r: Seq<char>, j: int) -> int
    decreases r.len() - j,
{
    if 0 <= j < r.len() && (alphanumeric(r[j]) || r[j] == '_') {
        ident_end(r, j + 1)
    } else {
        j
    }
}

pub proof fn lemma_ident_end(r: Seq<char>, j: int)
    requires
        0 <= j <= r.len(),
    ensures
        j <= ident_end(r, j) <= r.len(),
    decreases r.len() - j,
{
    if j < r.len() && (alphanumeric(r[j]) || r[j] == '_') {
        lemma_ident_end(r, j + 1);
    }
}

/// The body lines of a heredoc read from index `k` (line `cur`): the index where the closing
/// line ends, the number of the last line read, and the body lines. The closing line is the
/// first whose trimmed text is the label; without one the body runs to the end.
pub open spec fn heredoc_body(r: Seq<char>, k: int, label: Seq<char>, ls: Seq<Seq<char>>, cur: nat) -> (
    int,
    nat,
    Seq<Seq<char>>,
)
    decreases r.len() - k,
{
    if k < 0 || k > r.len() {
        (r.len() as int, cur, ls)
    } else {
        let e = line_end(r, k);
        let l = r.subrange(k, e);
        if trim_seq(l) == label {
            (e, cur, ls)
        } else if e >= r.len() {
            (r.len() as int, cur, ls.push(l))
        } else {
            proof {
                lemma_scan_bounds(r, k);
            }
            heredoc_body(r, e + 1, label, ls.push(l), cur + 1)
        }
    }
}

pub proof fn lemma_heredoc_body(r: Seq<char>, k: int, label: Seq<char>, ls: Seq<Seq<char>>, cur: nat)
    requires
        0 <= k <= r.len(),
    ensures
        k <= heredoc_body(r, k, label, ls, cur).0 <= r.len(),
        cur <= heredoc_body(r, k, label, ls, cur).1,
        heredoc_body(r, k, label, ls, cur).1 - cur <= heredoc_body(r, k, label, ls, cur).0 - k,
    decreases r.len() - k,
{
    lemma_scan_bounds(r, k);
    let e = line_end(r, k);
    if trim_seq(r.subrange(k, e)) != label && e < r.len() {
        lemma_heredoc_body(r, e + 1, label, ls.push(r.subrange(k, e)), cur + 1);
    }
}

/// A heredoc (`<<LABEL` or `<<-LABEL`) at index `i` on line `line`: the index where it ends,
/// the line where it ends and its body (the lines joined by line feeds). Nothing when no
/// label follows or the opening line does not end.
pub open spec fn heredoc_at(r: Seq<char>, i: int, line: nat) -> Option<(int, nat, Seq<char>)> {
    let j0 = i + 2;
    let j1 = if j0 < r.len() && r[j0] == '-' {
        j0 + 1
    } else {
        j0
    };
    let j2 = ident_end(r, j1);
    if j2 == j1 {
        None
    } else {
        let j3 = line_end(r, j2);
        if j3 >= r.len() {
            None
        } else {
            let b = heredoc_body(r, j3 + 1, r.subrange(j1, j2), Seq::empty(), line + 1);
            Some((b.0, b.1, join_seq(b.2, "\n"@)))
        }
    }
}

pub proof fn lemma_heredoc_at(r: Seq<char>, i: int, line: nat)
    requires
        0 <= i,
        i + 1 < r.len(),
    ensures
        heredoc_at(r, i, line) matches Some((e, cur, t)) ==> i < e <= r.len() && line <= cur && cur - line
            < e - i,
{
    let j0 = i + 2;
    let j1 = if j0 < r.len() && r[j0] == '-' {
        j0 + 1
    } else {
        j0
    };
    lemma_ident_end(r, j1);
    let j2 = ident_end(r, j1);
    lemma_scan_bounds(r, j2);
    let j3 = line_end(r, j2);
    if j2 != j1 && j3 < r.len() {
        lemma_heredoc_body(r, j3 + 1, r.subrange(j1, j2), Seq::empty(), line + 1);
    }
}

/// A string value on lines `l..e` (nothing when empty).
pub open spec fn string_item(acc: Seq<Item>, t: Seq<char>, l: nat, e: nat) -> Seq<Item> {
    if t.len() > 0 {
        acc.push(Item { text: t, line: l as i64, end_line: e as i64, is_block: false, kind: Kind::String })
    } else {
        acc
    }
}

/// A line comment begun on line `l` (its trimmed text; nothing when empty).
pub open spec fn line_comment_item(acc: Seq<Item>, buf: Seq<char>, l: nat) -> Seq<Item> {
    let t = trim_seq(buf);
    if t.len() > 0 {
        acc.push(Item { text: t, line: l as i64, end_line: l as i64, is_block: false, kind: Kind::Comment })
    } else {
        acc
    }
}

/// A quoted string's text: its body with the literal escapes `$${` and `%%{` undone.
pub open spec fn unescape_template(s: Seq<char>) -> Seq<char> {
    replace_seq(replace_seq(s, "$${"@, "${"@), "%%{"@, "%{"@)
}

/// The outermost string, whose body ends at `e`, closed.
pub open spec fn top_string_item(r: Seq<char>, s: HclScan, e: int) -> Seq<Item> {
    string_item(s.acc, unescape_template(r.subrange(s.body, e)), s.start, s.line)
}

/// The innermost open string closed at `e`; closing the outermost one yields its item.
pub open spec fn close_string(r: Seq<char>, s: HclScan, e: int) -> HclScan {
    if s.frames.len() <= 1 {
        HclScan { mode: HclMode::Top, frames: Seq::empty(), acc: top_string_item(r, s, e), ..s }
    } else {
        HclScan { frames: s.frames.drop_last(), ..s }
    }
}

/// The items once the text has ended in state `s`: an open comment or string is closed.
pub open spec fn hcl_finish(r: Seq<char>, s: HclScan) -> Seq<Item> {
    match s.mode {
        HclMode::Top => s.acc,
        HclMode::LineComment => line_comment_item(s.acc, s.buf, s.start),
        HclMode::Block => s.acc.push(
            Item {
                text: clean_block(s.buf),
                line: s.start as i64,
                end_line: s.line as i64,
                is_block: true,
                kind: Kind::Comment,
            },
        ),
        HclMode::Strings => top_string_item(r, s, r.len() as int),
    }
}

/// What the scanner still has to go through without moving forward.
pub open spec fn hcl_rank(s: HclScan) -> nat {
    s.frames.len() + if s.mode == HclMode::LineComment {
        1nat
    } else {
        0nat
    }
}

/// `i + 2`, but no further than the end.
pub open spec fn skip2(r: Seq<char>, i: int) -> int {
    if i + 2 <= r.len() {
        i + 2
    } else {
        r.len() as int
    }
}

/// The items of `r[i..]` from state `s`, in the order they end. A backslash in a string or an
/// interpolation skips the character after it.
pub open spec fn hcl_go(r: Seq<char>, i: int, s: HclScan) -> Seq<Item>
    decreases r.len() - i, hcl_rank(s),
{
    if i < 0 || i >= r.len() {
        hcl_finish(r, s)
    } else {
        let ch = r[i];
        let p1 = peek_at(r, i + 1);
        let p2 = peek_at(r, i + 2);
        match s.mode {
            HclMode::Top => if ch == '\n' {
                hcl_go(r, i + 1, HclScan { line: s.line + 1, ..s })
            } else if ch == '#' {
                hcl_go(r, i + 1, HclScan { mode: HclMode::LineComment, buf: Seq::empty(), start: s.line, ..s })
            } else if ch == '/' && p1 == '/' {
                hcl_go(r, i + 2, HclScan { mode: HclMode::LineComment, buf: Seq::empty(), start: s.line, ..s })
            } else if ch == '/' && p1 == '*' {
                hcl_go(r, i + 2, HclScan { mode: HclMode::Block, buf: Seq::empty(), start: s.line, ..s })
            } else if ch == '"' {
                hcl_go(
                    r,
                    i + 1,
                    HclScan { mode: HclMode::Strings, frames: seq![0nat], body: i + 1, start: s.line, ..s },
                )
            } else if ch == '<' && p1 == '<' {
                match heredoc_at(r, i, s.line) {
                    Some((e, cur, t)) => {
                        proof {
                            lemma_heredoc_at(r, i, s.line);
                        }
                        hcl_go(r, e, HclScan { line: cur, acc: string_item(s.acc, t, s.line, cur), ..s })
                    },
                    None => hcl_go(r, i + 1, s),
                }
            } else {
                hcl_go(r, i + 1, s)
            },
            HclMode::LineComment => if ch == '\n' {
                hcl_go(
                    r,
                    i,
                    HclScan { mode: HclMode::Top, acc: line_comment_item(s.acc, s.buf, s.start), ..s },
                )
            } else {
                hcl_go(r, i + 1, HclScan { buf: s.buf.push(ch), ..s })
            },
            HclMode::Block => if ch == '*' && p1 == '/' {
                hcl_go(
                    r,
                    i + 2,
                    HclScan {
                        mode: HclMode::Top,
                        acc: s.acc.push(
                            Item {
                                text: clean_block(s.buf),
                                line: s.start as i64,
                                end_line: s.line as i64,
                                is_block: true,
                                kind: Kind::Comment,
                            },
                        ),
                        ..s
                    },
                )
            } else {
                hcl_go(r, i + 1, HclScan {
                    line: if ch == '\n' {
                        s.line + 1
                    } else {
                        s.line
                    },
                    buf: s.buf.push(ch),
                    ..s
                })
            },
            HclMode::Strings => if s.frames.len() == 0 {
                hcl_go(r, i + 1, HclScan { mode: HclMode::Top, ..s })
            } else if s.frames.last() == 0 {
                if ch == '\\' {
                    hcl_go(r, skip2(r, i), s)
                } else if ch == '\n' {
                    hcl_go(r, i, close_string(r, s, i))
                } else if ch == '"' {
                    hcl_go(r, i + 1, close_string(r, s, i))
                } else if (ch == '$' || ch == '%') && p1 == ch && p2 == '{' {
                    hcl_go(r, i + 3, s)
                } else if (ch == '$' || ch == '%') && p1 == '{' {
                    hcl_go(r, i + 2, HclScan { frames: s.frames.push(1), ..s })
                } else {
                    hcl_go(r, i + 1, s)
                }
            } else {
                let d = s.frames.last();
                if ch == '\n' {
                    hcl_go(r, i + 1, HclScan { line: s.line + 1, ..s })
                } else if ch == '"' {
                    hcl_go(r, i + 1, HclScan { frames: s.frames.push(0), ..s })
                } else if ch == '{' {
                    hcl_go(r, i + 1, HclScan { frames: s.frames.drop_last().push(d + 1), ..s })
                } else if ch == '}' {
                    hcl_go(
                        r,
                        i + 1,
                        HclScan {
                            frames: if d == 1 {
                                s.frames.drop_last()
                            } else {
                                s.frames.drop_last().push((d - 1) as nat)
                            },
                            ..s
                        },
                    )
                } else if ch == '\\' {
                    hcl_go(r, skip2(r, i), s)
                } else {
                    hcl_go(r, i + 1, s)
                }
            },
        }
    }
}

/// The comments, strings and heredocs of an HCL text.
pub open spec fn hcl_items(content: Seq<char>) -> Seq<Item> {
    hcl_go(
        content,
        0,
        HclScan {
            mode: HclMode::Top,
            buf: Seq::empty(),
            start: 1,
            body: 0,
            frames: Seq::empty(),
            line: 1,
            acc: Seq::empty(),
        },
    )
}


// ---------------------------------------------------------------------------
// The parser.
// ---------------------------------------------------------------------------

fn unescape_template_exec(s: &[char]) -> (r: Vec<char>)
    ensures
        r@ == unescape_template(s@),
{
    proof {
        reveal_strlit("$${");
        reveal_strlit("%%{");
    }
    let a = replace_chars(s, &chars_of("$${"), &chars_of("${"));
    replace_chars(&a, &chars_of("%%{"), &chars_of("%{"))
}

fn line_end_exec(r: &[char], k: usize) -> (e: usize)
    requires
        k <= r@.len(),
    ensures
        e == line_end(r@, k as int),
        k <= e <= r@.len(),
{
    proof {
        lemma_scan_bounds(r@, k as int);
    }
    let mut e = k;
    while e < r.len() && r[e] != '\n'
        invariant
            k <= e <= r@.len(),
            line_end(r@, e as int) == line_end(r@, k as int),
        decreases r.len() - e,
    {
        e += 1;
    }
    e
}

/// The heredoc at `i` (see `heredoc_at`); lines are counted from 0 here.
fn heredoc_exec(r: &[char], i: usize, line: usize) -> (res: Option<(usize, usize, Vec<char>)>)
    requires
        i + 1 < r@.len(),
        line <= i,
    ensures
        res matches Some((e2, c2, _)) ==> i < e2 <= r@.len() && line < c2 && c2 - line < e2 - i,
        match heredoc_at(r@, i as int, (line + 1) as nat) {
            None => res is None,
            Some((e, cur, t)) => res matches Some((e2, c2, t2)) && e2 == e && c2 + 1 == cur && t2@ == t,
        },
{
    let n = r.len();
    let mut j = i + 2;
    if j < n && r[j] == '-' {
        j += 1;
    }
    let j1 = j;
    proof {
        lemma_ident_end(r@, j1 as int);
    }
    while j < n && (is_alphanumeric(r[j]) || r[j] == '_')
        invariant
            j1 <= j <= n,
            n == r@.len(),
            ident_end(r@, j as int) == ident_end(r@, j1 as int),
        decreases n - j,
    {
        j += 1;
    }
    if j == j1 {
        return None;
    }
    let label = crate::text::slice_chars(r, j1, j);
    let j3 = line_end_exec(r, j);
    if j3 >= n {
        return None;
    }
    let ghost b0 = heredoc_body(r@, j3 + 1, label@, Seq::empty(), (line + 2) as nat);
    assert(heredoc_at(r@, i as int, (line + 1) as nat) == Some((b0.0, b0.1, join_seq(b0.2, "\n"@))));
    let mut lines: Vec<Vec<char>> = Vec::new();
    let mut k = j3 + 1;
    let mut cur: usize = line + 1;
    proof {
        lemma_heredoc_at(r@, i as int, (line + 1) as nat);
        assert(lines@.map_values(|v: Vec<char>| v@) =~= Seq::<Seq<char>>::empty());
    }
    loop
        invariant
            j3 < k <= n,
            n == r@.len(),
            line <= i,
            line + 1 <= cur,
            cur - line <= k - i,
            i < j3,
            heredoc_body(r@, k as int, label@, lines@.map_values(|v: Vec<char>| v@), (cur + 1) as nat) == b0,
            heredoc_at(r@, i as int, (line + 1) as nat) == Some((b0.0, b0.1, join_seq(b0.2, "\n"@))),
            i < b0.0 <= n,
            b0.1 - (line + 1) < b0.0 - i,
        decreases n - k,
    {
        let e = line_end_exec(r, k);
        let l = crate::text::slice_chars(r, k, e);
        let t = trim(&l);
        if crate::text::chars_eq(&t, &label) {
            assert(b0 == (e as int, (cur + 1) as nat, lines@.map_values(|v: Vec<char>| v@)));
            return Some((e, cur, join(&lines, &chars_of("\n"))));
        }
        let ghost before = lines@.map_values(|v: Vec<char>| v@);
        lines.push(l);
        assert(lines@.map_values(|v: Vec<char>| v@) =~= before.push(r@.subrange(k as int, e as int)));
        if e >= n {
            assert(b0 == (n as int, (cur + 1) as nat, lines@.map_values(|v: Vec<char>| v@)));
            return Some((n, cur, join(&lines, &chars_of("\n"))));
        }
        k = e + 1;
        cur += 1;
    }
}

fn string_item_exec(result: &mut Vec<Comment>, t: &[char], l: usize, e: usize)
    requires
        l < usize::MAX,
        e < usize::MAX,
    ensures
        items(final(result)@) == string_item(items(old(result)@), t@, (l + 1) as nat, (e + 1) as nat),
{
    if t.len() > 0 {
        push_item(result, t, (l + 1) as i64, (e + 1) as i64, false, Kind::String);
    }
}

fn line_comment_exec(result: &mut Vec<Comment>, buf: &[char], l: usize)
    requires
        l < usize::MAX,
    ensures
        items(final(result)@) == line_comment_item(items(old(result)@), buf@, (l + 1) as nat),
{
    let t = trim(buf);
    if t.len() > 0 {
        push_item(result, &t, (l + 1) as i64, (l + 1) as i64, false, Kind::Comment);
    }
}

pub open spec fn frames_view(v: Seq<usize>) -> Seq<nat> {
    v.map_values(|x: usize| x as nat)
}

/// Extracts comments, strings and heredocs from HCL.
pub struct HclParser;

impl HclParser {
    /// The items of the text (see `hcl_items`).
    pub fn parse_file(&self, content: &str) -> (r: Result<Vec<Comment>, String>)
        ensures
            r matches Ok(v) && items(v@) == hcl_items(content@),
    {
        let rs = chars_of(content);
        let n = rs.len();
        let ghost target = hcl_items(content@);
        let mut result: Vec<Comment> = Vec::new();
        let mut mode = HclMode::Top;
        let mut buf: Vec<char> = Vec::new();
        let mut start: usize = 0;
        let mut body: usize = 0;
        let mut frames: Vec<usize> = Vec::new();
        let mut line: usize = 0;
        let mut i: usize = 0;
        assert(items(result@) =~= Seq::<Item>::empty());
        assert(buf@ =~= Seq::<char>::empty());
        assert(frames_view(frames@) =~= Seq::<nat>::empty());
        while i < n
            invariant
                n == rs@.len(),
                rs@ == content@,
                i <= n,
                line <= i,
                start <= line,
                body <= i,
                mode != HclMode::Top ==> start < i && line < i,
                forall|k: int| 0 <= k < frames@.len() ==> frames@[k] <= i,
                hcl_go(
                    rs@,
                    i as int,
                    HclScan {
                        mode,
                        buf: buf@,
                        start: (start + 1) as nat,
                        body: body as int,
                        frames: frames_view(frames@),
                        line: (line + 1) as nat,
                        acc: items(result@),
                    },
                ) == target,
            decreases n - i, frames@.len() + if mode == HclMode::LineComment {
                1int
            } else {
                0int
            },
        {
            let ch = rs[i];
            let p1 = if n - i > 1 {
                rs[i + 1]
            } else {
                '\0'
            };
            let p2 = if n - i > 2 {
                rs[i + 2]
            } else {
                '\0'
            };
            let ghost fv = frames_view(frames@);
            match mode {
                HclMode::Top => {
                    if ch == '\n' {
                        line += 1;
                        i += 1;
                    } else if ch == '#' {
                        mode = HclMode::LineComment;
                        buf = Vec::new();
                        start = line;
                        i += 1;
                    } else if ch == '/' && p1 == '/' {
                        mode = HclMode::LineComment;
                        buf = Vec::new();
                        start = line;
                        i += 2;
                    } else if ch == '/' && p1 == '*' {
                        mode = HclMode::Block;
                        buf = Vec::new();
                        start = line;
                        i += 2;
                    } else if ch == '"' {
                        mode = HclMode::Strings;
                        frames = Vec::new();
                        frames.push(0);
                        assert(frames_view(frames@) =~= seq![0nat]);
                        body = i + 1;
                        start = line;
                        i += 1;
                    } else if ch == '<' && p1 == '<' {
                        proof {
                            lemma_heredoc_at(rs@, i as int, (line + 1) as nat);
                        }
                        match heredoc_exec(&rs, i, line) {
                            Some((e, cur, t)) => {
                                string_item_exec(&mut result, &t, line, cur);
                                line = cur;
                                i = e;
                            },
                            None => {
                                i += 1;
                            },
                        }
                    } else {
                        i += 1;
                    }
                },
                HclMode::LineComment => {
                    if ch == '\n' {
                        line_comment_exec(&mut result, &buf, start);
                        mode = HclMode::Top;
                    } else {
                        buf.push(ch);
                        i += 1;
                    }
                },
                HclMode::Block => {
                    if ch == '*' && p1 == '/' {
                        let text = clean_block_comment(&buf);
                        push_item(&mut result, &text, (start + 1) as i64, (line + 1) as i64, true, Kind::Comment);
                        mode = HclMode::Top;
                        i += 2;
                    } else {
                        if ch == '\n' {
                            line += 1;
                        }
                        buf.push(ch);
                        i += 1;
                    }
                },
                HclMode::Strings => {
                    let fl = frames.len();
                    if fl == 0 {
                        mode = HclMode::Top;
                        i += 1;
                    } else if frames[fl - 1] == 0 {
                        if ch == '\\' {
                            i = if n - i >= 2 {
                                i + 2
                            } else {
                                n
                            };
                        } else if ch == '\n' || ch == '"' {
                            if fl == 1 {
                                let raw = crate::text::slice_chars(&rs, body, i);
                                let t = unescape_template_exec(&raw);
                                string_item_exec(&mut result, &t, start, line);
                                frames = Vec::new();
                                assert(frames_view(frames@) =~= Seq::<nat>::empty());
                                mode = HclMode::Top;
                            } else {
                                frames.pop();
                                assert(frames_view(frames@) =~= fv.drop_last());
                            }
                            if ch == '"' {
                                i += 1;
                            }
                        } else if (ch == '$' || ch == '%') && p1 == ch && p2 == '{' {
                            i += 3;
                        } else if (ch == '$' || ch == '%') && p1 == '{' {
                            frames.push(1);
                            assert(frames_view(frames@) =~= fv.push(1));
                            i += 2;
                        } else {
                            i += 1;
                        }
                    } else {
                        let d = frames[fl - 1];
                        if ch == '\n' {
                            line += 1;
                            i += 1;
                        } else if ch == '"' {
                            frames.push(0);
                            assert(frames_view(frames@) =~= fv.push(0));
                            i += 1;
                        } else if ch == '{' {
                            frames.set(fl - 1, d + 1);
                            assert(frames_view(frames@) =~= fv.drop_last().push((d + 1) as nat));
                            i += 1;
                        } else if ch == '}' {
                            if d == 1 {
                                frames.pop();
                                assert(frames_view(frames@) =~= fv.drop_last());
                            } else {
                                frames.set(fl - 1, d - 1);
                                assert(frames_view(frames@) =~= fv.drop_last().push((d - 1) as nat));
                            }
                            i += 1;
                        } else if ch == '\\' {
                            i = if n - i >= 2 {
                                i + 2
                            } else {
                                n
                            };
                        } else {
                            i += 1;
                        }
                    }
                },
            }
        }
        if mode == HclMode::LineComment {
            line_comment_exec(&mut result, &buf, start);
        } else if mode == HclMode::Block {
            let text = clean_block_comment(&buf);
            push_item(&mut result, &text, (start + 1) as i64, (line + 1) as i64, true, Kind::Comment);
        } else if mode == HclMode::Strings {
            let raw = crate::text::slice_chars(&rs, body, n);
            let t = unescape_template_exec(&raw);
            string_item_exec(&mut result, &t, start, line);
        }
        Ok(result)
    }

    /// `.hcl`, `.tf` and `.tfvars`.
    pub fn supported_extensions(&self) -> (r: Vec<&'static str>)
        ensures
            r@.map_values(|s: &str| s@) == seq![".hcl"@, ".tf"@, ".tfvars"@],
    {
        let r = vec![".hcl", ".tf", ".tfvars"];
        assert(r@.map_values(|s: &str| s@) =~= seq![".hcl"@, ".tf"@, ".tfvars"@]);
        r
    }
}

impl Parser for HclParser {
    fn parse_file(&self, content: &str) -> Result<Vec<Comment>, String> {
        HclParser::parse_file(self, content)
    }

    fn supported_extensions(&self) -> Vec<&'static str> {
        HclParser::supported_extensions(self)
    }
}

} // verus!
