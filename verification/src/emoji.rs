//! Emoji detection in commit messages and source text.

use vstd::prelude::*;
use crate::text::{chars_of, is_whitespace, is_ws};

verus! {

/// The emoji code points: emoticons, pictographs, transport symbols, dingbats, regional
/// indicators, keycap and presentation selectors and a few symbols; `©` and `®` are text.
pub open spec fn emoji_char(c: char) -> bool {
    let r = c as u32;
    ||| r == 0xFE0F
    ||| r == 0x200D
    ||| r == 0x20E3
    ||| 0x2600 <= r <= 0x26FF
    ||| 0x2700 <= r <= 0x27BF
    ||| r == 0x2B50 || r == 0x2B55 || r == 0x2B1B || r == 0x2B1C
    ||| r == 0x203C || r == 0x2049
    ||| 0x2122 <= r <= 0x2199
    ||| 0x21A9 <= r <= 0x21AA
    ||| 0x231A <= r <= 0x231B
    ||| r == 0x2328
    ||| r == 0x23CF
    ||| 0x23E9 <= r <= 0x23F3
    ||| 0x23F8 <= r <= 0x23FA
    ||| r == 0x25AA || r == 0x25AB
    ||| r == 0x25B6 || r == 0x25C0
    ||| 0x25FB <= r <= 0x25FE
    ||| 0x1F600 <= r <= 0x1F64F
    ||| 0x1F300 <= r <= 0x1F5FF
    ||| 0x1F680 <= r <= 0x1F6FF
    ||| 0x1F1E0 <= r <= 0x1F1FF
    ||| 0x1F900 <= r <= 0x1F9FF
    ||| 0x1FA70 <= r <= 0x1FAFF
    ||| 0x1FA00 <= r <= 0x1FA6F
    ||| 0xE0020 <= r <= 0xE007F
}

/// Whether the character is an emoji character.
pub fn is_emoji(c: char) -> (r: bool)
    ensures
        r == emoji_char(c),
{
    let r = c as u32;
    r == 0xFE0F || r == 0x200D || r == 0x20E3 || (0x2600 <= r && r <= 0x26FF) || (0x2700 <= r
        && r <= 0x27BF) || r == 0x2B50 || r == 0x2B55 || r == 0x2B1B || r == 0x2B1C || r
        == 0x203C || r == 0x2049 || (0x2122 <= r && r <= 0x2199) || (0x21A9 <= r && r <= 0x21AA)
        || (0x231A <= r && r <= 0x231B) || r == 0x2328 || r == 0x23CF || (0x23E9 <= r && r
        <= 0x23F3) || (0x23F8 <= r && r <= 0x23FA) || r == 0x25AA || r == 0x25AB || r == 0x25B6
        || r == 0x25C0 || (0x25FB <= r && r <= 0x25FE) || (0x1F600 <= r && r <= 0x1F64F) || (
    0x1F300 <= r && r <= 0x1F5FF) || (0x1F680 <= r && r <= 0x1F6FF) || (0x1F1E0 <= r && r
        <= 0x1F1FF) || (0x1F900 <= r && r <= 0x1F9FF) || (0x1FA70 <= r && r <= 0x1FAFF) || (
    0x1FA00 <= r && r <= 0x1FA6F) || (0xE0020 <= r && r <= 0xE007F)
}

/// An emoji that is reported on its own: an emoji character that is neither the
/// presentation selector U+FE0F nor the joiner U+200D (parts of sequences) nor white space.
pub open spec fn reportable(c: char) -> bool {
    (c as u32) != 0xFE0F && (c as u32) != 0x200D && emoji_char(c) && !is_ws(c)
}

fn is_reportable(c: char) -> (r: bool)
    ensures
        r == reportable(c),
{
    let u = c as u32;
    u != 0xFE0F && u != 0x200D && is_emoji(c) && !is_whitespace(c)
}

/// One emoji occurrence: 1-based line, 1-based character column in the line, the character
/// and its code point.
#[derive(Debug, Clone, Copy, PartialEq, Eq)]
pub struct EmojiInfo {
    pub line: usize,
    pub col: usize,
    pub char: char,
    pub code: u32,
}

/// The report of emoji `c` at a line and column.
pub open spec fn emoji_info(line: nat, col: nat, c: char) -> EmojiInfo {
    EmojiInfo { line: line as usize, col: col as usize, char: c, code: c as u32 }
}

/// Emoji occurrences of `s[i..]`, at line `line` after `col` characters of it, appended to `acc`.
pub open spec fn emojis_go(s: Seq<char>, i: int, line: nat, col: nat, acc: Seq<EmojiInfo>) -> Seq<
    EmojiInfo,
>
    decreases s.len() - i,
{
    if i < 0 || i >= s.len() {
        acc
    } else {
        let c = s[i];
        if c == '\n' {
            emojis_go(s, i + 1, line + 1, 0, acc)
        } else if reportable(c) {
            emojis_go(
                s,
                i + 1,
                line,
                col + 1,
                acc.push(emoji_info(line, col + 1, c)),
            )
        } else {
            emojis_go(s, i + 1, line, col + 1, acc)
        }
    }
}

/// All reported emoji occurrences of a text, in order.
pub open spec fn emojis_of(s: Seq<char>) -> Seq<EmojiInfo> {
    emojis_go(s, 0, 1, 0, Seq::empty())
}

proof fn lemma_emojis_go_found(s: Seq<char>, i: int, line: nat, col: nat, acc: Seq<EmojiInfo>)
    requires
        0 <= i,
    ensures
        emojis_go(s, i, line, col, acc).len() >= acc.len(),
        emojis_go(s, i, line, col, acc).len() > acc.len() <==> exists|k: int|
            i <= k < s.len() && reportable(#[trigger] s[k]),
    decreases s.len() - i,
{
    if i < s.len() {
        let c = s[i];
        if c == '\n' {
            lemma_emojis_go_found(s, i + 1, line + 1, 0, acc);
            assert(emojis_go(s, i, line, col, acc) == emojis_go(s, i + 1, line + 1, 0, acc));
            assert(!reportable(c));
        } else if reportable(c) {
            let a2 = acc.push(emoji_info(line, col + 1, c));
            lemma_emojis_go_found(s, i + 1, line, col + 1, a2);
            assert(emojis_go(s, i, line, col, acc) == emojis_go(s, i + 1, line, col + 1, a2));
            assert(i <= i < s.len() && reportable(s[i]));
        } else {
            lemma_emojis_go_found(s, i + 1, line, col + 1, acc);
            assert(emojis_go(s, i, line, col, acc) == emojis_go(s, i + 1, line, col + 1, acc));
        }
        if exists|k: int| i <= k < s.len() && reportable(#[trigger] s[k]) {
            let k = choose|k: int| i <= k < s.len() && reportable(#[trigger] s[k]);
            if k > i {
                assert(i + 1 <= k < s.len() && reportable(s[k]));
            }
        }
    }
}

/// A text contains an emoji exactly when scanning it reports at least one.
pub proof fn law_contains_emoji_iff_found(s: Seq<char>)
    ensures
        emojis_of(s).len() > 0 <==> exists|i: int| 0 <= i < s.len() && reportable(#[trigger] s[i]),
{
    lemma_emojis_go_found(s, 0, 1, 0, Seq::empty());
}

/// The emoji blocks of Unicode: Miscellaneous Symbols (U+2600..U+26FF), Dingbats
/// (U+2700..U+27BF), Emoticons (U+1F600..U+1F64F), Miscellaneous Symbols and Pictographs
/// (U+1F300..U+1F5FF), Transport and Map Symbols (U+1F680..U+1F6FF), Regional Indicators
/// (U+1F1E0..U+1F1FF), Supplemental Symbols and Pictographs (U+1F900..U+1F9FF), Chess
/// Symbols (U+1FA00..U+1FA6F) and Symbols and Pictographs Extended-A (U+1FA70..U+1FAFF):
/// every character of them is an emoji, reported on its own, so a text that holds one
/// contains an emoji and scanning it reports at least one. `©` and `®` are not emoji.
pub proof fn law_emoji_blocks(s: Seq<char>, i: int)
    requires
        0 <= i < s.len(),
        ({
            let u = s[i] as u32;
            ||| 0x2600 <= u <= 0x26FF
            ||| 0x2700 <= u <= 0x27BF
            ||| 0x1F600 <= u <= 0x1F64F
            ||| 0x1F300 <= u <= 0x1F5FF
            ||| 0x1F680 <= u <= 0x1F6FF
            ||| 0x1F1E0 <= u <= 0x1F1FF
            ||| 0x1F900 <= u <= 0x1F9FF
            ||| 0x1FA00 <= u <= 0x1FA6F
            ||| 0x1FA70 <= u <= 0x1FAFF
        }),
    ensures
        emoji_char(s[i]),
        reportable(s[i]),
        exists|k: int| 0 <= k < s.len() && reportable(#[trigger] s[k]),
        emojis_of(s).len() > 0,
{
    law_contains_emoji_iff_found(s);
}

proof fn lemma_emojis_go_keeps(s: Seq<char>, i: int, line: nat, col: nat, acc: Seq<EmojiInfo>)
    requires
        0 <= i,
    ensures
        emojis_go(s, i, line, col, acc).len() >= acc.len(),
        forall|k: int| 0 <= k < acc.len() ==> #[trigger] emojis_go(s, i, line, col, acc)[k] == acc[k],
    decreases s.len() - i,
{
    if i < s.len() {
        let c = s[i];
        if c == '\n' {
            lemma_emojis_go_keeps(s, i + 1, line + 1, 0, acc);
        } else if reportable(c) {
            let a2 = acc.push(emoji_info(line, col + 1, c));
            lemma_emojis_go_keeps(s, i + 1, line, col + 1, a2);
            assert forall|k: int| 0 <= k < acc.len() implies #[trigger] emojis_go(s, i, line, col, acc)[k]
                == acc[k] by {
                assert(a2[k] == acc[k]);
            }
        } else {
            lemma_emojis_go_keeps(s, i + 1, line, col + 1, acc);
        }
    }
}

/// An emoji at the very start of a text is reported first, on line 1 at column 1, with its
/// code point.
pub proof fn law_first_emoji_position(s: Seq<char>)
    ensures
        s.len() > 0 && reportable(s[0]) ==> emojis_of(s).len() > 0 && emojis_of(s)[0].line == 1
            && emojis_of(s)[0].col == 1 && emojis_of(s)[0].char == s[0] && emojis_of(s)[0].code == s[0] as u32,
{
    if s.len() > 0 && reportable(s[0]) {
        assert(s[0] != '\n');
        let a = seq![emoji_info(1, 1, s[0])];
        assert(Seq::<EmojiInfo>::empty().push(emoji_info(1, 0 + 1, s[0])) =~= a);
        lemma_emojis_go_keeps(s, 1, 1, 1, a);
        assert(emojis_of(s) == emojis_go(s, 1, 1, 1, a));
        assert(emojis_of(s)[0] == a[0]);
    }
}

/// The copyright and registered signs are text, not emoji.
pub proof fn law_copyright_signs_are_text(c: char)
    requires
        c as u32 == 0xA9 || c as u32 == 0xAE,
    ensures
        !emoji_char(c),
        !reportable(c),
{
}

/// Scans the text and returns every reported emoji with its position.
pub fn find_emojis(text: &str) -> (r: Vec<EmojiInfo>)
    ensures
        r@ == emojis_of(text@),
{
    let tc = chars_of(text);
    let mut results: Vec<EmojiInfo> = Vec::new();
    let mut newlines: usize = 0;
    let mut col: usize = 0;
    let mut i: usize = 0;
    while i < tc.len()
        invariant
            i <= tc@.len(),
            tc@ == text@,
            newlines <= i,
            col <= i,
            emojis_go(tc@, i as int, (newlines + 1) as nat, col as nat, results@) == emojis_of(
                text@,
            ),
        decreases tc.len() - i,
    {
        let c = tc[i];
        if c == '\n' {
            newlines += 1;
            col = 0;
        } else {
            col += 1;
            if is_reportable(c) {
                results.push(EmojiInfo { line: newlines + 1, col, char: c, code: c as u32 });
            }
        }
        i += 1;
    }
    results
}

/// Whether the text contains a reported emoji.
pub fn contains_emoji(text: &str) -> (r: bool)
    ensures
        r == exists|i: int| 0 <= i < text@.len() && reportable(#[trigger] text@[i]),
{
    let tc = chars_of(text);
    let mut i: usize = 0;
    while i < tc.len()
        invariant
            i <= tc@.len(),
            tc@ == text@,
            forall|j: int| 0 <= j < i ==> !reportable(#[trigger] text@[j]),
        decreases tc.len() - i,
    {
        if is_reportable(tc[i]) {
            return true;
        }
        i += 1;
    }
    false
}

} // verus!
