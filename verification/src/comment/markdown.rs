//! HTML comments and link-reference comments (`[//]: # (...)`) of Markdown, outside code
//! fences.

use vstd::prelude::*;
use crate::text::{
    chars_of, contains, contains_seq, find, find_seq, has_prefix, join_seq, split, split_seq, starts_with_str,
    trim, trim_seq,
};
use super::base::{items, push_item, Comment, Item, Kind, Parser};

verus! {

/// The body of an HTML comment: the trimmed text between `<!--` and the first `-->` of the
/// trimmed raw text.
pub open spec fn extract_html(raw: Seq<char>) -> Option<Seq<char>> {
    let r = trim_seq(raw);
    if !has_prefix(r, "<!--"@) {
        None
    } else {
        match find_seq(r, "-->"@) {
            None => None,
            Some(e) => if e < 4 {
                None
            } else {
                Some(trim_seq(r.subrange(4, e)))
            },
        }
    }
}

/// The text of a link-reference comment `[//]: # (text)` (or with `"text"` or `'text'`): the
/// trimmed text up to the first closing delimiter; nothing when it is empty or missing.
pub open spec fn link_comment(t: Seq<char>) -> Option<Seq<char>> {
    if !has_prefix(t, "[//]: # "@) || t.len() <= 8 {
        None
    } else {
        let open = t[8];
        let body = t.skip(9);
        let close = if open == '(' {
            ')'
        } else {
            open
        };
        if open != '(' && open != '"' && open != '\'' {
            None
        } else {
            match find_seq(body, seq![close]) {
                None => None,
                Some(e) => {
                    let inner = trim_seq(body.take(e));
                    if inner.len() == 0 {
                        None
                    } else {
                        Some(inner)
                    }
                },
            }
        }
    }
}

/// The first line at or after `j` that contains `-->`.
pub open spec fn html_close(ls: Seq<Seq<char>>, j: int) -> Option<int>
    decreases ls.len() - j,
{
    if j < 0 || j >= ls.len() {
        None
    } else if contains_seq(ls[j], "-->"@) {
        Some(j)
    } else {
        html_close(ls, j + 1)
    }
}

pub proof fn lemma_html_close(ls: Seq<Seq<char>>, j: int)
    requires
        0 <= j,
    ensures
        html_close(ls, j) matches Some(k) ==> j <= k < ls.len() && contains_seq(ls[k], "-->"@),
    decreases ls.len() - j,
{
    if j < ls.len() && !contains_seq(ls[j], "-->"@) {
        lemma_html_close(ls, j + 1);
    }
}

/// Whether a trimmed line opens or closes a code fence.
pub open spec fn is_fence(t: Seq<char>) -> bool {
    has_prefix(t, "```"@) || has_prefix(t, "~~~"@)
}

/// A comment item on lines `l..e` (nothing when absent or empty).
pub open spec fn md_item(acc: Seq<Item>, text: Option<Seq<char>>, l: int, e: int, is_block: bool) -> Seq<
    Item,
> {
    match text {
        Some(t) => if t.len() > 0 {
            acc.push(Item { text: t, line: l as i64, end_line: e as i64, is_block, kind: Kind::Comment })
        } else {
            acc
        },
        None => acc,
    }
}

/// The comments of lines `ls[i..]`, `fence` telling whether a code fence is open. An HTML
/// comment runs from a line starting with `<!--` to the first line containing `-->`; one that
/// never closes ends the scan.
pub open spec fn md_go(ls: Seq<Seq<char>>, i: int, fence: bool, acc: Seq<Item>) -> Seq<Item>
    decreases ls.len() - i,
{
    if i < 0 || i >= ls.len() {
        acc
    } else {
        let t = trim_seq(ls[i]);
        if is_fence(t) {
            md_go(ls, i + 1, !fence, acc)
        } else if !fence && has_prefix(t, "<!--"@) {
            match html_close(ls, i) {
                None => acc,
                Some(j) => {
                    proof {
                        lemma_html_close(ls, i);
                    }
                    md_go(
                        ls,
                        j + 1,
                        fence,
                        md_item(acc, extract_html(join_seq(ls.subrange(i, j + 1), "\n"@)), i + 1, j + 1, true),
                    )
                },
            }
        } else if !fence {
            md_go(ls, i + 1, fence, md_item(acc, link_comment(t), i + 1, i + 1, false))
        } else {
            md_go(ls, i + 1, fence, acc)
        }
    }
}

/// The comments of a Markdown text, in line order.
pub open spec fn markdown_items(content: Seq<char>) -> Seq<Item> {
    md_go(split_seq(content, '\n'), 0, false, Seq::empty())
}

fn extract_html_exec(raw: &[char]) -> (r: Option<Vec<char>>)
    ensures
        r matches Some(v) ==> extract_html(raw@) == Some(v@),
        r is None ==> extract_html(raw@) is None,
{
    let t = trim(raw);
    proof {
        reveal_strlit("-->");
        lemma_find_le(t@, "-->"@);
    }
    if !starts_with_str(&t, "<!--") {
        return None;
    }
    match find(&t, &chars_of("-->")) {
        None => None,
        Some(e) => if e < 4 {
            None
        } else {
            Some(trim(&crate::text::slice_chars(&t, 4, e)))
        },
    }
}

proof fn lemma_find_le(s: Seq<char>, p: Seq<char>)
    ensures
        find_seq(s, p) matches Some(e) ==> 0 <= e && e + p.len() <= s.len(),
{
    crate::text::lemma_find_seq(s, p);
}

/// The text of a link-reference comment (see `link_comment`).
pub fn parse_link_comment(t: &[char]) -> (r: Option<Vec<char>>)
    ensures
        r matches Some(v) ==> link_comment(t@) == Some(v@),
        r is None ==> link_comment(t@) is None,
{
    if !starts_with_str(t, "[//]: # ") || t.len() <= 8 {
        return None;
    }
    let open = t[8];
    if open != '(' && open != '"' && open != '\'' {
        return None;
    }
    let close = if open == '(' {
        ')'
    } else {
        open
    };
    let body = crate::text::slice_chars(t, 9, t.len());
    assert(body@ =~= t@.skip(9));
    let cv = vec![close];
    assert(cv@ =~= seq![close]);
    proof {
        lemma_find_le(body@, cv@);
    }
    match find(&body, &cv) {
        None => None,
        Some(e) => {
            let inner = trim(&crate::text::slice_chars(&body, 0, e));
            assert(body@.subrange(0, e as int) =~= body@.take(e as int));
            if inner.len() == 0 {
                None
            } else {
                Some(inner)
            }
        },
    }
}

/// Extracts HTML and link-reference comments from Markdown.
pub struct MarkdownParser;

fn md_item_exec(result: &mut Vec<Comment>, text: Option<Vec<char>>, l: usize, e: usize, is_block: bool)
    requires
        l < usize::MAX,
        e < usize::MAX,
    ensures
        items(final(result)@) == md_item(
            items(old(result)@),
            match text {
                Some(v) => Some(v@),
                None => None,
            },
            l + 1,
            e + 1,
            is_block,
        ),
{
    match text {
        Some(t) => {
            if t.len() > 0 {
                push_item(result, &t, (l + 1) as i64, (e + 1) as i64, is_block, Kind::Comment);
            }
        },
        None => {},
    }
}

impl MarkdownParser {
    /// The comments of the text (see `markdown_items`).
    pub fn parse_file(&self, content: &str) -> (r: Result<Vec<Comment>, String>)
        ensures
            r matches Ok(v) && items(v@) == markdown_items(content@),
    {
        let cs = chars_of(content);
        let lines = split(&cs, '\n');
        let ghost ls = lines@.map_values(|v: Vec<char>| v@);
        let n = lines.len();
        let ghost target = markdown_items(content@);
        let mut result: Vec<Comment> = Vec::new();
        let mut fence = false;
        let mut i: usize = 0;
        assert(items(result@) =~= Seq::<Item>::empty());
        while i < n
            invariant
                n == lines@.len(),
                ls == lines@.map_values(|v: Vec<char>| v@),
                ls == split_seq(content@, '\n'),
                i <= n,
                md_go(ls, i as int, fence, items(result@)) == target,
                target == markdown_items(content@),
            decreases n - i,
        {
            let t = trim(&lines[i]);
            assert(ls[i as int] == lines@[i as int]@);
            if starts_with_str(&t, "```") || starts_with_str(&t, "~~~") {
                fence = !fence;
                i += 1;
            } else if !fence && starts_with_str(&t, "<!--") {
                let ghost acc0 = items(result@);
                proof {
                    lemma_html_close(ls, i as int);
                }
                let mut j = i;
                while j < n && !contains(&lines[j], &chars_of("-->"))
                    invariant
                        i <= j <= n,
                        n == lines@.len(),
                        ls == lines@.map_values(|v: Vec<char>| v@),
                        html_close(ls, j as int) == html_close(ls, i as int),
                    decreases n - j,
                {
                    assert(ls[j as int] == lines@[j as int]@);
                    j += 1;
                }
                if j >= n {
                    return Ok(result);
                }
                assert(ls[j as int] == lines@[j as int]@);
                let mut raw: Vec<char> = crate::text::copy_chars(&lines[i]);
                let mut k = i;
                assert(ls.subrange(i as int, i + 1) =~= seq![ls[i as int]]);
                while k < j
                    invariant
                        i <= k <= j < n,
                        n == lines@.len(),
                        ls == lines@.map_values(|v: Vec<char>| v@),
                        raw@ == join_seq(ls.subrange(i as int, k + 1), "\n"@),
                    decreases j - k,
                {
                    let ghost prev = ls.subrange(i as int, k + 1);
                    raw.push('\n');
                    crate::text::extend_chars(&mut raw, &lines[k + 1]);
                    k += 1;
                    assert(ls.subrange(i as int, k + 1).drop_last() =~= prev);
                    assert(ls[k as int] == lines@[k as int]@);
                    proof {
                        reveal_strlit("\n");
                    }
                    assert(raw@ =~= join_seq(prev, "\n"@) + "\n"@ + ls[k as int]);
                }
                let text = extract_html_exec(&raw);
                md_item_exec(&mut result, text, i, j, true);
                i = j + 1;
            } else if !fence {
                let text = parse_link_comment(&t);
                md_item_exec(&mut result, text, i, i, false);
                i += 1;
            } else {
                i += 1;
            }
        }
        Ok(result)
    }

    /// `.md` and `.markdown`.
    pub fn supported_extensions(&self) -> (r: Vec<&'static str>)
        ensures
            r@.map_values(|s: &str| s@) == seq![".md"@, ".markdown"@],
    {
        let r = vec![".md", ".markdown"];
        assert(r@.map_values(|s: &str| s@) =~= seq![".md"@, ".markdown"@]);
        r
    }
}

impl Parser for MarkdownParser {
    fn parse_file(&self, content: &str) -> Result<Vec<Comment>, String> {
        MarkdownParser::parse_file(self, content)
    }

    fn supported_extensions(&self) -> Vec<&'static str> {
        MarkdownParser::supported_extensions(self)
    }
}

} // verus!
