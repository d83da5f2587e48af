//! `<!-- -->` comments of HTML and SVG.

use vstd::prelude::*;
use crate::text::chars_of;
use super::base::{clean_block, clean_block_comment, items, push_item, Comment, Item, Kind, Parser};

verus! {

/// Whether `<!--` starts at `i`.
pub open spec fn html_open_at(r: Seq<char>, i: int) -> bool {
    0 <= i && i + 3 < r.len() && r[i] == '<' && r[i + 1] == '!' && r[i + 2] == '-' && r[i + 3] == '-'
}

/// Whether `-->` starts at `j`.
pub open spec fn html_close_at(r: Seq<char>, j: int) -> bool {
    0 <= j && j + 2 < r.len() && r[j] == '-' && r[j + 1] == '-' && r[j + 2] == '>'
}

/// The items of `r[i..]` outside a comment, at line `line`, appended to `acc`.
pub open spec fn html_go(r: Seq<char>, i: int, line: nat, acc: Seq<Item>) -> Seq<Item>
    decreases r.len() - i, 1int,
{
    if i < 0 || i >= r.len() {
        acc
    } else if r[i] == '\n' {
        html_go(r, i + 1, line + 1, acc)
    } else if html_open_at(r, i) {
        html_body(r, i + 4, line, line, Seq::empty(), acc)
    } else {
        html_go(r, i + 1, line, acc)
    }
}

/// Inside a comment that started at line `start`: `buf` holds its body so far. An
/// unterminated comment yields nothing.
pub open spec fn html_body(
    r: Seq<char>,
    j: int,
    start: nat,
    line: nat,
    buf: Seq<char>,
    acc: Seq<Item>,
) -> Seq<Item>
    decreases r.len() - j, 0int,
{
    if j < 0 || j >= r.len() {
        acc
    } else if html_close_at(r, j) {
        html_go(
            r,
            j + 3,
            line,
            acc.push(
                Item {
                    text: clean_block(buf),
                    line: start as i64,
                    end_line: line as i64,
                    is_block: true,
                    kind: Kind::Comment,
                },
            ),
        )
    } else {
        html_body(r, j + 1, start, if r[j] == '\n' {
            line + 1
        } else {
            line
        }, buf.push(r[j]), acc)
    }
}

/// The `<!-- -->` comments of an HTML or SVG document.
pub open spec fn html_items(content: Seq<char>) -> Seq<Item> {
    html_go(content, 0, 1, Seq::empty())
}

/// Extracts `<!-- -->` comments from HTML and SVG.
pub struct HtmlParser;

impl HtmlParser {
    /// The comments of the document (see `html_items`).
    pub fn parse_file(&self, content: &str) -> (r: Result<Vec<Comment>, String>)
        ensures
            r matches Ok(v) && items(v@) == html_items(content@),
    {
        let rs = chars_of(content);
        let n = rs.len();
        let mut result: Vec<Comment> = Vec::new();
        let ghost target = html_items(content@);
        let mut line0: usize = 0;
        let mut i: usize = 0;
        assert(items(result@) =~= Seq::<Item>::empty());
        while i < n
            invariant
                n == rs@.len(),
                rs@ == content@,
                i <= n,
                line0 <= i,
                html_go(rs@, i as int, (line0 + 1) as nat, items(result@)) == target,
            decreases n - i,
        {
            let ch = rs[i];
            if ch == '\n' {
                line0 += 1;
                i += 1;
                continue;
            }
            if ch == '<' && n - i > 3 && rs[i + 1] == '!' && rs[i + 2] == '-' && rs[i + 3] == '-' {
                let comment_line0 = line0;
                let ghost start_i = i;
                i += 4;
                let mut buf: Vec<char> = Vec::new();
                let mut done = false;
                while i < n && !done
                    invariant
                        n == rs@.len(),
                        start_i < i <= n,
                        line0 <= i,
                        comment_line0 <= line0,
                        !done ==> html_body(
                            rs@,
                            i as int,
                            (comment_line0 + 1) as nat,
                            (line0 + 1) as nat,
                            buf@,
                            items(result@),
                        ) == target,
                        done ==> html_go(rs@, i as int, (line0 + 1) as nat, items(result@)) == target,
                    decreases n - i, if done { 0int } else { 1int },
                {
                    if rs[i] == '-' && n - i > 2 && rs[i + 1] == '-' && rs[i + 2] == '>' {
                        let text = clean_block_comment(&buf);
                        push_item(
                            &mut result,
                            &text,
                            (comment_line0 + 1) as i64,
                            (line0 + 1) as i64,
                            true,
                            Kind::Comment,
                        );
                        i += 3;
                        done = true;
                    } else {
                        if rs[i] == '\n' {
                            line0 += 1;
                        }
                        buf.push(rs[i]);
                        i += 1;
                    }
                }
                if !done {
                    proof {
                        assert(html_body(
                            rs@,
                            i as int,
                            (comment_line0 + 1) as nat,
                            (line0 + 1) as nat,
                            buf@,
                            items(result@),
                        ) == items(result@));
                        assert(html_go(rs@, i as int, (line0 + 1) as nat, items(result@)) == items(result@));
                    }
                }
                continue;
            }
            i += 1;
        }
        Ok(result)
    }

    pub fn supported_extensions(&self) -> (r: Vec<&'static str>)
        ensures
            r@.map_values(|s: &str| s@) == seq![".html"@, ".htm"@, ".svg"@],
    {
        let r = vec![".html", ".htm", ".svg"];
        assert(r@.map_values(|s: &str| s@) =~= seq![".html"@, ".htm"@, ".svg"@]);
        r
    }
}

impl Parser for HtmlParser {
    fn parse_file(&self, content: &str) -> Result<Vec<Comment>, String> {
        HtmlParser::parse_file(self, content)
    }

    fn supported_extensions(&self) -> Vec<&'static str> {
        HtmlParser::supported_extensions(self)
    }
}

} // verus!
