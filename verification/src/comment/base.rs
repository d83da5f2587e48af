//! The extracted items and the helpers shared by the parsers.

use vstd::prelude::*;
use crate::text::{chars_of, join_seq, split_seq, string_of, trim, trim_seq};

verus! {

/// Kind of an extracted item.
#[derive(Debug, Clone, Copy, PartialEq, Eq, Structural)]
pub enum Kind {
    /// A comment.
    Comment,
    /// A string literal.
    String,
    /// An import or include path (never checked for language).
    Import,
}

/// A comment or string literal with the lines where it starts and ends.
#[derive(Debug, Clone, PartialEq, Eq)]
pub struct Comment {
    pub text: String,
    pub line: i64,
    pub end_line: i64,
    pub is_block: bool,
    pub kind: Kind,
}

/// The content of an extracted item.
pub struct Item {
    pub text: Seq<char>,
    pub line: i64,
    pub end_line: i64,
    pub is_block: bool,
    pub kind: Kind,
}

impl Comment {
    pub open spec fn item(self) -> Item {
        Item {
            text: self.text@,
            line: self.line,
            end_line: self.end_line,
            is_block: self.is_block,
            kind: self.kind,
        }
    }
}

pub open spec fn items(v: Seq<Comment>) -> Seq<Item> {
    v.map_values(|c: Comment| c.item())
}

/// Appends an item to a list of comments.
pub fn push_item(out: &mut Vec<Comment>, text: &[char], line: i64, end_line: i64, is_block: bool, kind: Kind)
    ensures
        items(final(out)@) == items(old(out)@).push(
            Item { text: text@, line, end_line, is_block, kind },
        ),
{
    let c = Comment { text: string_of(text), line, end_line, is_block, kind };
    proof {
        assert(items(out@.push(c)) =~= items(out@).push(c.item()));
    }
    out.push(c);
}

/// Extracting items never fails.
pub trait Parser {
    /// The items of a source text, in order.
    fn parse_file(&self, content: &str) -> Result<Vec<Comment>, String>;

    /// The extensions the parser handles.
    fn supported_extensions(&self) -> Vec<&'static str>;
}

/// The lines of a block comment body, each trimmed and stripped of one leading `*`
/// (then trimmed again), empty ones dropped.
pub open spec fn cleaned_lines(ls: Seq<Seq<char>>) -> Seq<Seq<char>>
    decreases ls.len(),
{
    if ls.len() == 0 {
        Seq::empty()
    } else {
        let t = trim_seq(ls.last());
        let u = if t.len() > 0 && t[0] == '*' {
            trim_seq(t.skip(1))
        } else {
            trim_seq(t)
        };
        if u.len() > 0 {
            cleaned_lines(ls.drop_last()).push(u)
        } else {
            cleaned_lines(ls.drop_last())
        }
    }
}

/// A block comment body with its decoration removed: the cleaned lines joined by line feeds.
pub open spec fn clean_block(raw: Seq<char>) -> Seq<char> {
    join_seq(cleaned_lines(split_seq(raw, '\n')), "\n"@)
}

/// Removes leading `*` decoration and blank lines from a block comment body.
pub fn clean_block_comment(raw: &[char]) -> (r: Vec<char>)
    ensures
        r@ == clean_block(raw@),
{
    let lines = crate::text::split(raw, '\n');
    let ghost lv = lines@.map_values(|v: Vec<char>| v@);
    let mut kept: Vec<Vec<char>> = Vec::new();
    let mut i: usize = 0;
    while i < lines.len()
        invariant
            i <= lines@.len(),
            lv == lines@.map_values(|v: Vec<char>| v@),
            kept@.map_values(|v: Vec<char>| v@) == cleaned_lines(lv.take(i as int)),
        decreases lines.len() - i,
    {
        assert(lv.take(i + 1).drop_last() =~= lv.take(i as int));
        let t = trim(&lines[i]);
        let u = if t.len() > 0 && t[0] == '*' {
            let rest = crate::text::slice_chars(&t, 1, t.len());
            assert(rest@ == t@.skip(1));
            trim(&rest)
        } else {
            trim(&t)
        };
        if u.len() > 0 {
            proof {
                assert(kept@.push(u).map_values(|v: Vec<char>| v@) =~= kept@.map_values(
                    |v: Vec<char>| v@,
                ).push(u@));
            }
            kept.push(u);
        }
        i += 1;
    }
    assert(lv.take(lines@.len() as int) =~= lv);
    let nl = ['\n'];
    proof {
        reveal_strlit("\n");
    }
    assert(nl@ =~= "\n"@);
    crate::text::join(&kept, &nl)
}

} // verus!
