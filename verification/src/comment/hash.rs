//! `#` comments of shell scripts and Ruby (with `=begin`/`=end` blocks), and of Dockerfiles.

use vstd::prelude::*;
use crate::text::{chars_of, has_prefix, split_seq, trim, trim_seq};
use super::base::{items, push_item, Comment, Item, Kind, Parser};

verus! {

/// A finished Dockerfile comment: its trimmed text, unless empty or a `#!` on line 1.
pub open spec fn docker_push(acc: Seq<Item>, buf: Seq<char>, cl: nat, line: nat) -> Seq<Item> {
    let t = trim_seq(buf);
    if t.len() > 0 && (cl != 1 || t[0] != '!') {
        acc.push(Item { text: t, line: cl as i64, end_line: line as i64, is_block: false, kind: Kind::Comment })
    } else {
        acc
    }
}

/// The Dockerfile comments of `r[i..]`: a `#` starts a comment that runs to the end of
/// the line.
pub open spec fn docker_go(
    r: Seq<char>,
    i: int,
    line: nat,
    in_comment: bool,
    cl: nat,
    buf: Seq<char>,
    acc: Seq<Item>,
) -> Seq<Item>
    decreases r.len() - i,
{
    if i < 0 || i >= r.len() {
        if in_comment {
            docker_push(acc, buf, cl, line)
        } else {
            acc
        }
    } else {
        let ch = r[i];
        if in_comment {
            if ch == '\n' {
                docker_go(r, i + 1, line + 1, false, cl, Seq::empty(), docker_push(acc, buf, cl, line))
            } else {
                docker_go(r, i + 1, line, true, cl, buf.push(ch), acc)
            }
        } else if ch == '\n' {
            docker_go(r, i + 1, line + 1, false, cl, buf, acc)
        } else if ch == '#' {
            docker_go(r, i + 1, line, true, line, Seq::empty(), acc)
        } else {
            docker_go(r, i + 1, line, false, cl, buf, acc)
        }
    }
}

fn docker_push_exec(result: &mut Vec<Comment>, buf: &[char], cl0: usize, line0: usize)
    requires
        cl0 < usize::MAX,
        line0 < usize::MAX,
    ensures
        items(final(result)@) == docker_push(items(old(result)@), buf@, (cl0 + 1) as nat, (line0 + 1) as nat),
{
    let t = trim(buf);
    if t.len() > 0 && (cl0 != 0 || t[0] != '!') {
        push_item(result, &t, (cl0 + 1) as i64, (line0 + 1) as i64, false, Kind::Comment);
    }
}

/// The comments of a Dockerfile.
pub open spec fn docker_items(content: Seq<char>) -> Seq<Item> {
    docker_go(content, 0, 1, false, 0, Seq::empty(), Seq::empty())
}

/// The comments of a shell script, or with `ruby` of a Ruby source.
pub open spec fn hash_items(content: Seq<char>, ruby: bool) -> Seq<Item> {
    hash_go(split_seq(content, '\n'), 0, ruby, false, 0, Seq::empty(), Seq::empty())
}

/// Extracts `#` comments from Dockerfiles (a `#!` comment on the first line is skipped).
pub struct DockerfileParser;

impl DockerfileParser {
    /// The comments of the Dockerfile (see `docker_go`).
    pub fn parse_file(&self, content: &str) -> (r: Result<Vec<Comment>, String>)
        ensures
            r matches Ok(v) && items(v@) == docker_items(content@),
    {
        let rs = chars_of(content);
        let n = rs.len();
        let mut result: Vec<Comment> = Vec::new();
        let ghost target = docker_go(content@, 0, 1, false, 0, Seq::empty(), Seq::empty());
        let mut line0: usize = 0;
        let mut buf: Vec<char> = Vec::new();
        let mut in_comment = false;
        let mut cl0: usize = 0;
        let mut cl_set = false;
        let mut i: usize = 0;
        assert(items(result@) =~= Seq::<Item>::empty());
        assert(buf@ =~= Seq::<char>::empty());
        while i < n
            invariant
                n == rs@.len(),
                rs@ == content@,
                i <= n,
                line0 <= i,
                cl0 <= line0,
                cl_set || !in_comment,
                in_comment ==> cl0 < i && line0 < i,
                docker_go(rs@, i as int, (line0 + 1) as nat, in_comment, if cl_set {
                    (cl0 + 1) as nat
                } else {
                    0
                }, buf@, items(result@)) == target,
            decreases n - i,
        {
            let ch = rs[i];
            if in_comment {
                if ch == '\n' {
                    docker_push_exec(&mut result, &buf, cl0, line0);
                    buf = Vec::new();
                    in_comment = false;
                    line0 += 1;
                } else {
                    buf.push(ch);
                }
            } else if ch == '\n' {
                line0 += 1;
            } else if ch == '#' {
                in_comment = true;
                cl0 = line0;
                cl_set = true;
                buf = Vec::new();
            }
            i += 1;
        }
        if in_comment {
            docker_push_exec(&mut result, &buf, cl0, line0);
        }
        Ok(result)
    }

    pub fn supported_extensions(&self) -> (r: Vec<&'static str>)
        ensures
            r@.map_values(|s: &str| s@) == seq!["dockerfile"@],
    {
        let r = vec!["dockerfile"];
        assert(r@.map_values(|s: &str| s@) =~= seq!["dockerfile"@]);
        r
    }
}

impl Parser for DockerfileParser {
    fn parse_file(&self, content: &str) -> Result<Vec<Comment>, String> {
        DockerfileParser::parse_file(self, content)
    }

    fn supported_extensions(&self) -> Vec<&'static str> {
        DockerfileParser::supported_extensions(self)
    }
}

/// The items of the lines `ls[k..]` (line numbers from 1): `#` line comments (not a `#!` on
/// line 1) and, for Ruby, `=begin`/`=end` blocks (`bbuf` holds the block's lines so far).
pub open spec fn hash_go(
    ls: Seq<Seq<char>>,
    k: int,
    ruby: bool,
    in_block: bool,
    bstart: int,
    bbuf: Seq<char>,
    acc: Seq<Item>,
) -> Seq<Item>
    decreases ls.len() - k,
{
    if k < 0 || k >= ls.len() {
        if in_block && bbuf.len() > 0 && trim_seq(bbuf).len() > 0 {
            acc.push(
                Item {
                    text: trim_seq(bbuf),
                    line: bstart as i64,
                    end_line: ls.len() as i64,
                    is_block: true,
                    kind: Kind::Comment,
                },
            )
        } else {
            acc
        }
    } else {
        let raw = ls[k];
        let t = trim_seq(raw);
        let line_no = k + 1;
        if ruby && !in_block && t == "=begin"@ {
            hash_go(ls, k + 1, ruby, true, line_no, Seq::empty(), acc)
        } else if ruby && in_block {
            if t == "=end"@ {
                hash_go(
                    ls,
                    k + 1,
                    ruby,
                    false,
                    bstart,
                    Seq::empty(),
                    acc.push(
                        Item {
                            text: trim_seq(bbuf),
                            line: bstart as i64,
                            end_line: line_no as i64,
                            is_block: true,
                            kind: Kind::Comment,
                        },
                    ),
                )
            } else {
                hash_go(ls, k + 1, ruby, true, bstart, (if bbuf.len() > 0 {
                    bbuf.push('\n')
                } else {
                    bbuf
                }) + raw, acc)
            }
        } else if t.len() > 0 && t[0] == '#' && (line_no != 1 || !has_prefix(t, "#!"@))
            && trim_seq(t.skip(1)).len() > 0 {
            hash_go(
                ls,
                k + 1,
                ruby,
                in_block,
                bstart,
                bbuf,
                acc.push(
                    Item {
                        text: trim_seq(t.skip(1)),
                        line: line_no as i64,
                        end_line: line_no as i64,
                        is_block: false,
                        kind: Kind::Comment,
                    },
                ),
            )
        } else {
            hash_go(ls, k + 1, ruby, in_block, bstart, bbuf, acc)
        }
    }
}

/// Extracts `#` comments (shell, Ruby); with `ruby_blocks`, also `=begin`/`=end` blocks.
pub struct HashStyleParser {
    exts: Vec<&'static str>,
    ruby_blocks: bool,
}

impl HashStyleParser {
    pub closed spec fn ruby(&self) -> bool {
        self.ruby_blocks
    }

    pub closed spec fn exts(&self) -> Seq<&'static str> {
        self.exts@
    }

    /// A parser for the given extensions.
    pub fn new(exts: Vec<&'static str>, ruby_blocks: bool) -> (r: Self)
        ensures
            r.ruby() == ruby_blocks,
            r.exts() == exts@,
    {
        HashStyleParser { exts, ruby_blocks }
    }

    /// The items of the text (see `hash_go`).
    pub fn parse_file(&self, content: &str) -> (r: Result<Vec<Comment>, String>)
        ensures
            r matches Ok(v) && items(v@) == hash_items(content@, self.ruby()),
    {
        let cc = chars_of(content);
        let lines = crate::text::split(&cc, '\n');
        let ghost lv = lines@.map_values(|v: Vec<char>| v@);
        let ghost target = hash_go(lv, 0, self.ruby_blocks, false, 0, Seq::empty(), Seq::empty());
        let mut result: Vec<Comment> = Vec::new();
        let mut in_block = false;
        let mut bstart: usize = 0;
        let mut bbuf: Vec<char> = Vec::new();
        let mut k: usize = 0;
        assert(items(result@) =~= Seq::<Item>::empty());
        assert(bbuf@ =~= Seq::<char>::empty());
        while k < lines.len()
            invariant
                k <= lines@.len(),
                lv == lines@.map_values(|v: Vec<char>| v@),
                bstart <= k,
                hash_go(lv, k as int, self.ruby_blocks, in_block, bstart as int, bbuf@, items(result@))
                    == target,
            decreases lines.len() - k,
        {
            let raw = &lines[k];
            let t = trim(raw);
            let line_no = k + 1;
            if self.ruby_blocks && !in_block && crate::text::chars_eq_str(&t, "=begin") {
                in_block = true;
                bstart = line_no;
                bbuf = Vec::new();
            } else if self.ruby_blocks && in_block {
                if crate::text::chars_eq_str(&t, "=end") {
                    let bt = trim(&bbuf);
                    push_item(&mut result, &bt, bstart as i64, line_no as i64, true, Kind::Comment);
                    in_block = false;
                    bbuf = Vec::new();
                } else {
                    if bbuf.len() > 0 {
                        bbuf.push('\n');
                    }
                    crate::text::extend_chars(&mut bbuf, raw);
                }
            } else if t.len() > 0 && t[0] == '#' && (line_no != 1 || !crate::text::starts_with_str(&t, "#!")) {
                let rest = crate::text::slice_chars(&t, 1, t.len());
                assert(rest@ == t@.skip(1));
                let text = trim(&rest);
                if text.len() > 0 {
                    push_item(&mut result, &text, line_no as i64, line_no as i64, false, Kind::Comment);
                }
            }
            k += 1;
        }
        if in_block && bbuf.len() > 0 {
            let text = trim(&bbuf);
            if text.len() > 0 {
                push_item(&mut result, &text, bstart as i64, lines.len() as i64, true, Kind::Comment);
            }
        }
        Ok(result)
    }

    pub fn supported_extensions(&self) -> (r: Vec<&'static str>)
        ensures
            r@ == self.exts(),
    {
        self.exts.clone()
    }
}

impl Parser for HashStyleParser {
    fn parse_file(&self, content: &str) -> Result<Vec<Comment>, String> {
        HashStyleParser::parse_file(self, content)
    }

    fn supported_extensions(&self) -> Vec<&'static str> {
        HashStyleParser::supported_extensions(self)
    }
}

} // verus!
