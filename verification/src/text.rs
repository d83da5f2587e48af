//! Character and string primitives shared by the checkers.
//!
//! Text is handled as sequences of Unicode scalar values (`Vec<char>` in
//! executable code, `Seq<char>` in specifications).

use vstd::prelude::*;

verus! {

/// Unicode `White_Space` property (the set `char::is_whitespace` tests).
pub open spec fn is_ws(c: char) -> bool {
    let u = c as u32;
    ||| (0x09 <= u && u <= 0x0D)
    ||| u == 0x20
    ||| u == 0x85
    ||| u == 0xA0
    ||| u == 0x1680
    ||| (0x2000 <= u && u <= 0x200A)
    ||| u == 0x2028
    ||| u == 0x2029
    ||| u == 0x202F
    ||| u == 0x205F
    ||| u == 0x3000
}

/// Returns whether `c` has the Unicode `White_Space` property.
pub fn is_whitespace(c: char) -> (r: bool)
    ensures
        r == is_ws(c),
{
    let u = c as u32;
    (0x09 <= u && u <= 0x0D) || u == 0x20 || u == 0x85 || u == 0xA0 || u == 0x1680 || (0x2000
        <= u && u <= 0x200A) || u == 0x2028 || u == 0x2029 || u == 0x202F || u == 0x205F || u
        == 0x3000
}

pub open spec fn is_ascii_digit(c: char) -> bool {
    '0' <= c && c <= '9'
}

pub open spec fn is_ascii_lower(c: char) -> bool {
    'a' <= c && c <= 'z'
}

pub open spec fn is_ascii_upper(c: char) -> bool {
    'A' <= c && c <= 'Z'
}

/// ASCII lower-casing of one character (non-ASCII-uppercase characters are unchanged).
pub open spec fn ascii_lower(c: char) -> char {
    if is_ascii_upper(c) {
        ((c as u32) + 32) as char
    } else {
        c
    }
}

pub fn to_ascii_lower(c: char) -> (r: char)
    ensures
        r == ascii_lower(c),
{
    if 'A' <= c && c <= 'Z' {
        let u = c as u32 + 32;
        proof {
            assert(0x61 <= u <= 0x7A);
        }
        char_from_ascii(u)
    } else {
        c
    }
}

/// Converts an ASCII code point (below 0x80) to its character.
pub fn char_from_ascii(u: u32) -> (c: char)
    requires
        u < 0x80,
    ensures
        c == u as char,
        c as u32 == u,
{
    let b = u as u8;
    b as char
}

/// Characters of `a` and `b` agree position by position up to ASCII case.
pub open spec fn eq_ascii_ci(a: Seq<char>, b: Seq<char>) -> bool {
    &&& a.len() == b.len()
    &&& forall|i: int| 0 <= i < a.len() ==> ascii_lower(#[trigger] a[i]) == ascii_lower(b[i])
}

pub fn eq_ignore_ascii_case(a: &[char], b: &[char]) -> (r: bool)
    ensures
        r == eq_ascii_ci(a@, b@),
{
    if a.len() != b.len() {
        return false;
    }
    let mut i: usize = 0;
    while i < a.len()
        invariant
            a@.len() == b@.len(),
            i <= a@.len(),
            forall|j: int| 0 <= j < i ==> ascii_lower(#[trigger] a@[j]) == ascii_lower(b@[j]),
        decreases a.len() - i,
    {
        if to_ascii_lower(a[i]) != to_ascii_lower(b[i]) {
            return false;
        }
        i += 1;
    }
    true
}

/// `s` begins with `p` up to ASCII case.
pub open spec fn starts_with_ascii_ci(s: Seq<char>, p: Seq<char>) -> bool {
    p.len() <= s.len() && eq_ascii_ci(s.take(p.len() as int), p)
}

pub fn has_prefix_ascii_ci(s: &[char], p: &[char]) -> (r: bool)
    ensures
        r == starts_with_ascii_ci(s@, p@),
{
    if p.len() > s.len() {
        return false;
    }
    let mut i: usize = 0;
    while i < p.len()
        invariant
            p@.len() <= s@.len(),
            i <= p@.len(),
            forall|j: int| 0 <= j < i ==> ascii_lower(#[trigger] s@[j]) == ascii_lower(p@[j]),
        decreases p.len() - i,
    {
        if to_ascii_lower(s[i]) != to_ascii_lower(p[i]) {
            assert(!eq_ascii_ci(s@.take(p@.len() as int), p@)) by {
                assert(s@.take(p@.len() as int)[i as int] == s@[i as int]);
            }
            return false;
        }
        i += 1;
    }
    assert(eq_ascii_ci(s@.take(p@.len() as int), p@)) by {
        assert forall|j: int| 0 <= j < p@.len() implies ascii_lower(
            #[trigger] s@.take(p@.len() as int)[j],
        ) == ascii_lower(p@[j]) by {
            assert(s@.take(p@.len() as int)[j] == s@[j]);
        }
    }
    true
}

/// The characters of `s`, in order.
pub fn chars_of(s: &str) -> (r: Vec<char>)
    ensures
        r@ == s@,
{
    let mut v: Vec<char> = Vec::new();
    for c in it: s.chars()
        invariant
            v@ == it.seq().take(it.index() as int),
            it.seq() == s@,
    {
        v.push(c);
    }
    v
}

/// Appends one character to a string (`String::push`).
#[verifier::external_body]
pub fn push_char(s: &mut String, c: char)
    ensures
        final(s)@ == old(s)@.push(c),
{
    s.push(c);
}

/// Builds a string from characters.
pub fn string_of(cs: &[char]) -> (r: String)
    ensures
        r@ == cs@,
{
    let mut s = String::new();
    let mut i: usize = 0;
    while i < cs.len()
        invariant
            i <= cs@.len(),
            s@ == cs@.take(i as int),
        decreases cs.len() - i,
    {
        push_char(&mut s, cs[i]);
        assert(cs@.take(i + 1) == cs@.take(i as int).push(cs@[i as int]));
        i += 1;
    }
    assert(cs@.take(cs@.len() as int) == cs@);
    s
}

/// Copies a slice of characters into a vector.
pub fn copy_chars(cs: &[char]) -> (r: Vec<char>)
    ensures
        r@ == cs@,
{
    let mut v: Vec<char> = Vec::new();
    let mut i: usize = 0;
    while i < cs.len()
        invariant
            i <= cs@.len(),
            v@ == cs@.take(i as int),
        decreases cs.len() - i,
    {
        v.push(cs[i]);
        assert(cs@.take(i + 1) == cs@.take(i as int).push(cs@[i as int]));
        i += 1;
    }
    assert(cs@.take(cs@.len() as int) == cs@);
    v
}

/// The characters of `s` from index `lo` up to (not including) `hi`.
pub fn slice_chars(s: &[char], lo: usize, hi: usize) -> (r: Vec<char>)
    requires
        lo <= hi <= s@.len(),
    ensures
        r@ == s@.subrange(lo as int, hi as int),
{
    let mut v: Vec<char> = Vec::new();
    let mut i: usize = lo;
    while i < hi
        invariant
            lo <= i <= hi <= s@.len(),
            v@ == s@.subrange(lo as int, i as int),
        decreases hi - i,
    {
        v.push(s[i]);
        assert(s@.subrange(lo as int, i + 1) == s@.subrange(lo as int, i as int).push(
            s@[i as int],
        ));
        i += 1;
    }
    v
}

/// Appends all of `b` to `a`.
pub fn extend_chars(a: &mut Vec<char>, b: &[char])
    ensures
        final(a)@ == old(a)@ + b@,
{
    let mut i: usize = 0;
    while i < b.len()
        invariant
            i <= b@.len(),
            a@ == old(a)@ + b@.take(i as int),
        decreases b.len() - i,
    {
        a.push(b[i]);
        assert(b@.take(i + 1) == b@.take(i as int).push(b@[i as int]));
        i += 1;
    }
    assert(b@.take(b@.len() as int) == b@);
}

// ---------------------------------------------------------------------------
// Trimming.
// ---------------------------------------------------------------------------

/// Index of the first character at or after `i` that is not white space (or `s.len()`).
pub open spec fn first_non_ws(s: Seq<char>, i: int) -> int
    decreases s.len() - i,
{
    if i >= s.len() {
        s.len() as int
    } else if is_ws(s[i]) {
        first_non_ws(s, i + 1)
    } else {
        i
    }
}

/// One past the last character before `j` that is not white space (or 0).
pub open spec fn end_non_ws(s: Seq<char>, j: int) -> int
    decreases j,
{
    if j <= 0 {
        0
    } else if is_ws(s[j - 1]) {
        end_non_ws(s, j - 1)
    } else {
        j
    }
}

/// `s` with leading white space removed (`str::trim_start`).
pub open spec fn trim_start_seq(s: Seq<char>) -> Seq<char> {
    s.skip(first_non_ws(s, 0))
}

/// `s` with trailing white space removed (`str::trim_end`).
pub open spec fn trim_end_seq(s: Seq<char>) -> Seq<char> {
    s.take(end_non_ws(s, s.len() as int))
}

/// `s` with leading and trailing white space removed (`str::trim`).
pub open spec fn trim_seq(s: Seq<char>) -> Seq<char> {
    trim_end_seq(trim_start_seq(s))
}

pub proof fn lemma_first_non_ws_bounds(s: Seq<char>, i: int)
    requires
        0 <= i <= s.len(),
    ensures
        i <= first_non_ws(s, i) <= s.len(),
    decreases s.len() - i,
{
    if i < s.len() && is_ws(s[i]) {
        lemma_first_non_ws_bounds(s, i + 1);
    }
}

pub proof fn lemma_end_non_ws_bounds(s: Seq<char>, j: int)
    requires
        0 <= j <= s.len(),
    ensures
        0 <= end_non_ws(s, j) <= j,
    decreases j,
{
    if j > 0 && is_ws(s[j - 1]) {
        lemma_end_non_ws_bounds(s, j - 1);
    }
}

pub fn trim_start(s: &[char]) -> (r: Vec<char>)
    ensures
        r@ == trim_start_seq(s@),
{
    let mut i: usize = 0;
    while i < s.len() && is_whitespace(s[i])
        invariant
            i <= s@.len(),
            first_non_ws(s@, i as int) == first_non_ws(s@, 0),
        decreases s.len() - i,
    {
        i += 1;
    }
    slice_chars(s, i, s.len())
}

pub fn trim_end(s: &[char]) -> (r: Vec<char>)
    ensures
        r@ == trim_end_seq(s@),
{
    let mut j: usize = s.len();
    while j > 0 && is_whitespace(s[j - 1])
        invariant
            j <= s@.len(),
            end_non_ws(s@, j as int) == end_non_ws(s@, s@.len() as int),
        decreases j,
    {
        j -= 1;
    }
    slice_chars(s, 0, j)
}

pub fn trim(s: &[char]) -> (r: Vec<char>)
    ensures
        r@ == trim_seq(s@),
{
    let a = trim_start(s);
    trim_end(&a)
}

pub fn trim_str(s: &str) -> (r: Vec<char>)
    ensures
        r@ == trim_seq(s@),
{
    let cs = chars_of(s);
    trim(&cs)
}

/// Index of the first character at or after `i` that is not in `set` (or `s.len()`).
pub open spec fn first_not_in(s: Seq<char>, set: Seq<char>, i: int) -> int
    decreases s.len() - i,
{
    if i >= s.len() {
        s.len() as int
    } else if set.contains(s[i]) {
        first_not_in(s, set, i + 1)
    } else {
        i
    }
}

/// One past the last character before `j` that is not in `set` (or 0).
pub open spec fn end_not_in(s: Seq<char>, set: Seq<char>, j: int) -> int
    decreases j,
{
    if j <= 0 {
        0
    } else if set.contains(s[j - 1]) {
        end_not_in(s, set, j - 1)
    } else {
        j
    }
}

/// `str::trim_start_matches` with a set of characters.
pub open spec fn trim_start_set(s: Seq<char>, set: Seq<char>) -> Seq<char> {
    s.skip(first_not_in(s, set, 0))
}

/// `str::trim_end_matches` with a set of characters.
pub open spec fn trim_end_set(s: Seq<char>, set: Seq<char>) -> Seq<char> {
    s.take(end_not_in(s, set, s.len() as int))
}

pub fn contains_char(set: &[char], c: char) -> (r: bool)
    ensures
        r == set@.contains(c),
{
    let mut i: usize = 0;
    while i < set.len()
        invariant
            i <= set@.len(),
            forall|j: int| 0 <= j < i ==> set@[j] != c,
        decreases set.len() - i,
    {
        if set[i] == c {
            return true;
        }
        i += 1;
    }
    false
}

pub fn trim_start_matches(s: &[char], set: &[char]) -> (r: Vec<char>)
    ensures
        r@ == trim_start_set(s@, set@),
        r@.len() <= s@.len(),
        r@ == s@.skip(s@.len() - r@.len()),
{
    let mut i: usize = 0;
    while i < s.len() && contains_char(set, s[i])
        invariant
            i <= s@.len(),
            first_not_in(s@, set@, i as int) == first_not_in(s@, set@, 0),
        decreases s.len() - i,
    {
        i += 1;
    }
    slice_chars(s, i, s.len())
}

pub fn trim_end_matches(s: &[char], set: &[char]) -> (r: Vec<char>)
    ensures
        r@ == trim_end_set(s@, set@),
{
    let mut j: usize = s.len();
    while j > 0 && contains_char(set, s[j - 1])
        invariant
            j <= s@.len(),
            end_not_in(s@, set@, j as int) == end_not_in(s@, set@, s@.len() as int),
        decreases j,
    {
        j -= 1;
    }
    slice_chars(s, 0, j)
}

// ---------------------------------------------------------------------------
// Searching.
// ---------------------------------------------------------------------------

pub open spec fn has_prefix(s: Seq<char>, p: Seq<char>) -> bool {
    p.len() <= s.len() && s.take(p.len() as int) == p
}

pub open spec fn has_suffix(s: Seq<char>, p: Seq<char>) -> bool {
    p.len() <= s.len() && s.skip(s.len() - p.len()) == p
}

/// `p` occurs in `s` starting at index `i`.
pub open spec fn occurs_at(s: Seq<char>, p: Seq<char>, i: int) -> bool {
    0 <= i && i + p.len() <= s.len() && s.subrange(i, i + p.len()) == p
}

pub open spec fn contains_seq(s: Seq<char>, p: Seq<char>) -> bool {
    exists|i: int| occurs_at(s, p, i)
}

/// Index of the first occurrence of `p` in `s` at or after `i`.
pub open spec fn find_from(s: Seq<char>, p: Seq<char>, i: int) -> Option<int>
    decreases s.len() + 1 - i,
{
    if i < 0 || i + p.len() > s.len() {
        None
    } else if s.subrange(i, i + p.len()) == p {
        Some(i)
    } else {
        find_from(s, p, i + 1)
    }
}

/// Index of the first occurrence of `p` in `s`.
pub open spec fn find_seq(s: Seq<char>, p: Seq<char>) -> Option<int> {
    find_from(s, p, 0)
}

/// Index of the last occurrence of character `c` in `s`.
pub open spec fn rfind_char_spec(s: Seq<char>, c: char) -> Option<int> {
    rfind_before(s, c, s.len() as int)
}

pub open spec fn rfind_before(s: Seq<char>, c: char, j: int) -> Option<int>
    decreases j,
{
    if j <= 0 {
        None
    } else if s[j - 1] == c {
        Some(j - 1)
    } else {
        rfind_before(s, c, j - 1)
    }
}

pub fn starts_with(s: &[char], p: &[char]) -> (r: bool)
    ensures
        r == has_prefix(s@, p@),
{
    if p.len() > s.len() {
        return false;
    }
    let mut i: usize = 0;
    while i < p.len()
        invariant
            p@.len() <= s@.len(),
            i <= p@.len(),
            forall|j: int| 0 <= j < i ==> s@[j] == p@[j],
        decreases p.len() - i,
    {
        if s[i] != p[i] {
            assert(s@.take(p@.len() as int)[i as int] != p@[i as int]);
            return false;
        }
        i += 1;
    }
    assert(s@.take(p@.len() as int) =~= p@);
    true
}

pub fn ends_with(s: &[char], p: &[char]) -> (r: bool)
    ensures
        r == has_suffix(s@, p@),
{
    if p.len() > s.len() {
        return false;
    }
    let n = s.len();
    let off = n - p.len();
    let mut i: usize = 0;
    while i < p.len()
        invariant
            n == s@.len(),
            p@.len() <= s@.len(),
            off == s@.len() - p@.len(),
            i <= p@.len(),
            forall|j: int| 0 <= j < i ==> s@[off + j] == p@[j],
        decreases p.len() - i,
    {
        if s[off + i] != p[i] {
            assert(s@.skip(off as int)[i as int] != p@[i as int]);
            return false;
        }
        i += 1;
    }
    assert(s@.skip(off as int) =~= p@);
    true
}

/// Whether `p` occurs in `s` at index `i`.
pub fn matches_at(s: &[char], p: &[char], i: usize) -> (r: bool)
    ensures
        r == occurs_at(s@, p@, i as int),
{
    let n = s.len();
    if i > n || p.len() > n - i {
        return false;
    }
    let mut k: usize = 0;
    while k < p.len()
        invariant
            n == s@.len(),
            i + p@.len() <= s@.len(),
            k <= p@.len(),
            forall|j: int| 0 <= j < k ==> s@[i + j] == p@[j],
        decreases p.len() - k,
    {
        if s[i + k] != p[k] {
            assert(s@.subrange(i as int, i + p@.len())[k as int] != p@[k as int]);
            return false;
        }
        k += 1;
    }
    assert(s@.subrange(i as int, i + p@.len()) =~= p@);
    true
}

/// First index at or after `from` where `p` occurs in `s`.
pub fn find_from_exec(s: &[char], p: &[char], from: usize) -> (r: Option<usize>)
    ensures
        r matches Some(i) ==> find_from(s@, p@, from as int) == Some(i as int),
        r is None ==> find_from(s@, p@, from as int) is None,
{
    let n = s.len();
    if from > n {
        return None;
    }
    let mut i: usize = from;
    loop
        invariant
            n == s@.len(),
            from <= i <= n,
            find_from(s@, p@, i as int) == find_from(s@, p@, from as int),
        decreases n - i,
    {
        if p.len() > n - i {
            return None;
        }
        if matches_at(s, p, i) {
            return Some(i);
        }
        if i == n {
            proof {
                if p@.len() == 0 {
                    assert(s@.subrange(n as int, n as int) =~= p@);
                }
            }
            return None;
        }
        i += 1;
    }
}

pub fn find(s: &[char], p: &[char]) -> (r: Option<usize>)
    ensures
        r matches Some(i) ==> find_seq(s@, p@) == Some(i as int),
        r is None ==> find_seq(s@, p@) is None,
{
    find_from_exec(s, p, 0)
}

proof fn lemma_find_from_some(s: Seq<char>, p: Seq<char>, i: int)
    requires
        0 <= i,
    ensures
        find_from(s, p, i) matches Some(k) ==> i <= k && occurs_at(s, p, k),
        find_from(s, p, i) is None ==> forall|k: int| i <= k ==> !occurs_at(s, p, k),
    decreases s.len() + 1 - i,
{
    if i + p.len() > s.len() {
    } else if s.subrange(i, i + p.len()) == p {
    } else {
        lemma_find_from_some(s, p, i + 1);
    }
}

/// `find_seq` locates exactly the occurrences of `p`.
pub proof fn lemma_find_seq(s: Seq<char>, p: Seq<char>)
    ensures
        find_seq(s, p) matches Some(k) ==> occurs_at(s, p, k) && forall|j: int|
            0 <= j < k ==> !occurs_at(s, p, j),
        find_seq(s, p) is None <==> !contains_seq(s, p),
{
    lemma_find_from_some(s, p, 0);
    if let Some(k) = find_seq(s, p) {
        assert forall|j: int| 0 <= j < k implies !occurs_at(s, p, j) by {
            if occurs_at(s, p, j) {
                lemma_find_prefix_none(s, p, 0, j);
            }
        }
    }
}

proof fn lemma_find_prefix_none(s: Seq<char>, p: Seq<char>, i: int, j: int)
    requires
        0 <= i <= j,
        occurs_at(s, p, j),
    ensures
        find_from(s, p, i) matches Some(k) && k <= j,
    decreases j - i,
{
    if s.subrange(i, i + p.len()) == p {
    } else {
        if i == j {
        } else {
            lemma_find_prefix_none(s, p, i + 1, j);
        }
    }
}

pub fn contains(s: &[char], p: &[char]) -> (r: bool)
    ensures
        r == contains_seq(s@, p@),
{
    proof {
        lemma_find_seq(s@, p@);
    }
    find(s, p).is_some()
}

pub fn rfind_char(s: &[char], c: char) -> (r: Option<usize>)
    ensures
        r matches Some(i) ==> rfind_char_spec(s@, c) == Some(i as int),
        r is None ==> rfind_char_spec(s@, c) is None,
{
    let mut j: usize = s.len();
    while j > 0
        invariant
            j <= s@.len(),
            rfind_before(s@, c, j as int) == rfind_char_spec(s@, c),
        decreases j,
    {
        if s[j - 1] == c {
            return Some(j - 1);
        }
        j -= 1;
    }
    None
}

pub fn find_char(s: &[char], c: char) -> (r: Option<usize>)
    ensures
        r matches Some(i) ==> i < s@.len() && s@[i as int] == c && forall|j: int|
            0 <= j < i ==> s@[j] != c,
        r is None ==> !s@.contains(c),
{
    let mut i: usize = 0;
    while i < s.len()
        invariant
            i <= s@.len(),
            forall|j: int| 0 <= j < i ==> s@[j] != c,
        decreases s.len() - i,
    {
        if s[i] == c {
            return Some(i);
        }
        i += 1;
    }
    None
}

// ---------------------------------------------------------------------------
// Splitting and joining.
// ---------------------------------------------------------------------------

/// Pieces of `s` separated by `sep`, scanning from index `i` with the current piece `cur`
/// and the finished pieces `acc` (`str::split` with a character).
pub open spec fn split_go(s: Seq<char>, sep: char, i: int, cur: Seq<char>, acc: Seq<Seq<char>>) -> Seq<
    Seq<char>,
>
    decreases s.len() - i,
{
    if i >= s.len() {
        acc.push(cur)
    } else if s[i] == sep {
        split_go(s, sep, i + 1, Seq::empty(), acc.push(cur))
    } else {
        split_go(s, sep, i + 1, cur.push(s[i]), acc)
    }
}

/// `s.split(sep)`: the maximal pieces between separators (always at least one piece).
pub open spec fn split_seq(s: Seq<char>, sep: char) -> Seq<Seq<char>> {
    split_go(s, sep, 0, Seq::empty(), Seq::empty())
}

pub proof fn lemma_split_go_len(s: Seq<char>, sep: char, i: int, cur: Seq<char>, acc: Seq<Seq<char>>)
    ensures
        split_go(s, sep, i, cur, acc).len() > acc.len(),
        split_go(s, sep, i, cur, acc).take(acc.len() as int) == acc,
    decreases s.len() - i,
{
    if i >= s.len() {
        assert(acc.push(cur).take(acc.len() as int) =~= acc);
    } else if s[i] == sep {
        lemma_split_go_len(s, sep, i + 1, Seq::empty(), acc.push(cur));
        let r = split_go(s, sep, i + 1, Seq::empty(), acc.push(cur));
        assert(r.take(acc.len() as int) =~= r.take(acc.len() + 1int).take(acc.len() as int));
        assert(acc.push(cur).take(acc.len() as int) =~= acc);
    } else {
        lemma_split_go_len(s, sep, i + 1, cur.push(s[i]), acc);
    }
}

/// Splits `s` at every `sep` (`str::split` with a character).
pub fn split(s: &[char], sep: char) -> (r: Vec<Vec<char>>)
    ensures
        r@.map_values(|v: Vec<char>| v@) == split_seq(s@, sep),
        r@.len() >= 1,
{
    let mut acc: Vec<Vec<char>> = Vec::new();
    let mut cur: Vec<char> = Vec::new();
    let mut i: usize = 0;
    assert(acc@.map_values(|v: Vec<char>| v@) =~= Seq::<Seq<char>>::empty());
    assert(cur@ =~= Seq::<char>::empty());
    while i < s.len()
        invariant
            i <= s@.len(),
            split_go(s@, sep, i as int, cur@, acc@.map_values(|v: Vec<char>| v@)) == split_seq(
                s@,
                sep,
            ),
        decreases s.len() - i,
    {
        if s[i] == sep {
            let piece = cur;
            cur = Vec::new();
            proof {
                assert(acc@.push(piece).map_values(|v: Vec<char>| v@) =~= acc@.map_values(
                    |v: Vec<char>| v@,
                ).push(piece@));
            }
            acc.push(piece);
        } else {
            cur.push(s[i]);
        }
        i += 1;
    }
    proof {
        assert(acc@.push(cur).map_values(|v: Vec<char>| v@) =~= acc@.map_values(
            |v: Vec<char>| v@,
        ).push(cur@));
        lemma_split_go_len(s@, sep, 0, Seq::empty(), Seq::empty());
    }
    acc.push(cur);
    acc
}

/// `s[i..]` with each occurrence of the non-empty `p`, found from left to right without
/// overlap, replaced by `q` (`str::replace`).
pub open spec fn replace_from(s: Seq<char>, p: Seq<char>, q: Seq<char>, i: int) -> Seq<char>
    decreases s.len() - i,
{
    if i < 0 || i >= s.len() {
        Seq::empty()
    } else if p.len() > 0 && occurs_at(s, p, i) {
        q + replace_from(s, p, q, i + p.len())
    } else {
        seq![s[i]] + replace_from(s, p, q, i + 1)
    }
}

pub open spec fn replace_seq(s: Seq<char>, p: Seq<char>, q: Seq<char>) -> Seq<char> {
    replace_from(s, p, q, 0)
}

/// `s` with each occurrence of `p` replaced by `q` (see `replace_seq`).
pub fn replace_chars(s: &[char], p: &[char], q: &[char]) -> (r: Vec<char>)
    requires
        p@.len() > 0,
    ensures
        r@ == replace_seq(s@, p@, q@),
{
    let mut out: Vec<char> = Vec::new();
    let mut i: usize = 0;
    while i < s.len()
        invariant
            i <= s@.len(),
            p@.len() > 0,
            out@ + replace_from(s@, p@, q@, i as int) == replace_seq(s@, p@, q@),
        decreases s.len() - i,
    {
        if matches_at(s, p, i) {
            let ghost old_out = out@;
            extend_chars(&mut out, q);
            assert(old_out + (q@ + replace_from(s@, p@, q@, i + p@.len())) =~= out@ + replace_from(
                s@,
                p@,
                q@,
                i + p@.len(),
            ));
            i = i + p.len();
        } else {
            let ghost old_out = out@;
            out.push(s[i]);
            assert(old_out + (seq![s@[i as int]] + replace_from(s@, p@, q@, i + 1)) =~= out@
                + replace_from(s@, p@, q@, i + 1));
            i += 1;
        }
    }
    assert(out@ + Seq::<char>::empty() =~= out@);
    out
}

/// `parts` joined with `sep` between consecutive parts.
pub open spec fn join_seq(parts: Seq<Seq<char>>, sep: Seq<char>) -> Seq<char>
    decreases parts.len(),
{
    if parts.len() == 0 {
        Seq::empty()
    } else if parts.len() == 1 {
        parts[0]
    } else {
        join_seq(parts.drop_last(), sep) + sep + parts.last()
    }
}

pub fn join(parts: &Vec<Vec<char>>, sep: &[char]) -> (r: Vec<char>)
    ensures
        r@ == join_seq(parts@.map_values(|v: Vec<char>| v@), sep@),
{
    let ghost pv = parts@.map_values(|v: Vec<char>| v@);
    let mut out: Vec<char> = Vec::new();
    let mut i: usize = 0;
    while i < parts.len()
        invariant
            i <= parts@.len(),
            pv == parts@.map_values(|v: Vec<char>| v@),
            out@ == join_seq(pv.take(i as int), sep@),
        decreases parts.len() - i,
    {
        assert(pv.take(i + 1).drop_last() =~= pv.take(i as int));
        if i > 0 {
            extend_chars(&mut out, sep);
        } else {
            assert(pv.take(0) =~= Seq::<Seq<char>>::empty());
        }
        extend_chars(&mut out, &parts[i]);
        i += 1;
    }
    assert(pv.take(parts@.len() as int) =~= pv);
    out
}

// ---------------------------------------------------------------------------
// Properties of characters defined by Unicode tables.
// ---------------------------------------------------------------------------

/// Unicode `Alphabetic` property of a character (`char::is_alphabetic`).
pub uninterp spec fn alphabetic(c: char) -> bool;

/// Unicode `Alphabetic` or `Numeric` property (`char::is_alphanumeric`).
pub uninterp spec fn alphanumeric(c: char) -> bool;

/// Full Unicode lower-casing of a string (`str::to_lowercase`).
pub uninterp spec fn unicode_lowercase(s: Seq<char>) -> Seq<char>;

/// Whether every character is ASCII.
pub open spec fn is_ascii_seq(s: Seq<char>) -> bool {
    forall|i: int| 0 <= i < s.len() ==> (#[trigger] s[i] as u32) < 128
}

/// An ASCII upper-case letter lower-cased; any other character unchanged.
pub open spec fn ascii_lower_char(c: char) -> char {
    if 'A' <= c && c <= 'Z' {
        ((c as u32) + 32) as char
    } else {
        c
    }
}

/// Lower-casing of a string: letter by letter for ASCII text, the full Unicode mapping for
/// any other.
pub open spec fn lowercase(s: Seq<char>) -> Seq<char> {
    if is_ascii_seq(s) {
        s.map_values(|c: char| ascii_lower_char(c))
    } else {
        unicode_lowercase(s)
    }
}

/// `char::is_alphabetic`: whether the character has the Unicode `Alphabetic` property.
/// The result is a fixed function of the character, named `alphabetic`.
#[verifier::external_body]
pub fn is_alphabetic(c: char) -> (r: bool)
    ensures
        r == alphabetic(c),
{
    c.is_alphabetic()
}

/// `char::is_alphanumeric`: Unicode `Alphabetic` or `Numeric` property.
/// The result is a fixed function of the character, named `alphanumeric`.
#[verifier::external_body]
pub fn is_alphanumeric(c: char) -> (r: bool)
    ensures
        r == alphanumeric(c),
{
    c.is_alphanumeric()
}

/// `str::to_lowercase`: Unicode lower-casing of every character of `s` (a character may
/// become several). The result is a fixed function of the text, named `unicode_lowercase`;
/// as documented for ASCII, text of ASCII characters has its letters `A`..`Z` lower-cased
/// and every other character kept.
#[verifier::external_body]
pub fn to_lowercase(s: &str) -> (r: String)
    ensures
        r@ == unicode_lowercase(s@),
        is_ascii_seq(s@) ==> r@ == s@.map_values(|c: char| ascii_lower_char(c)),
{
    s.to_lowercase()
}

/// Unicode lower-casing of a character sequence.
pub fn lower_chars(s: &[char]) -> (r: Vec<char>)
    ensures
        r@ == lowercase(s@),
{
    let st = string_of(s);
    let l = to_lowercase(st.as_str());
    chars_of(l.as_str())
}

// ---------------------------------------------------------------------------
// Number formatting.
// ---------------------------------------------------------------------------

pub open spec fn digit_char(d: int) -> char {
    (('0' as int) + d) as char
}

/// Decimal digits of `n` (no sign, no leading zeros; "0" for zero).
pub open spec fn dec_seq(n: nat) -> Seq<char>
    decreases n,
{
    if n < 10 {
        seq![digit_char(n as int)]
    } else {
        dec_seq(n / 10).push(digit_char((n % 10) as int))
    }
}

/// Decimal rendering of a signed integer.
pub open spec fn int_seq(n: int) -> Seq<char> {
    if n < 0 {
        seq!['-'] + dec_seq((-n) as nat)
    } else {
        dec_seq(n as nat)
    }
}

fn digit(d: u64) -> (c: char)
    requires
        d < 10,
    ensures
        c == digit_char(d as int),
{
    char_from_ascii(0x30 + d as u32)
}

/// Decimal digits of an unsigned number.
pub fn fmt_u64(n: u64) -> (r: Vec<char>)
    ensures
        r@ == dec_seq(n as nat),
    decreases n,
{
    if n < 10 {
        let mut v: Vec<char> = Vec::new();
        v.push(digit(n));
        v
    } else {
        let mut v = fmt_u64(n / 10);
        v.push(digit(n % 10));
        v
    }
}

/// Decimal rendering of a signed number (with a leading `-` when negative).
pub fn fmt_i64(n: i64) -> (r: Vec<char>)
    ensures
        r@ == int_seq(n as int),
{
    if n < 0 {
        let m: u64 = if n == i64::MIN {
            0x8000_0000_0000_0000u64
        } else {
            (-n) as u64
        };
        let mut v: Vec<char> = Vec::new();
        v.push('-');
        let d = fmt_u64(m);
        extend_chars(&mut v, &d);
        v
    } else {
        fmt_u64(n as u64)
    }
}

pub open spec fn hex_digit_char(d: int) -> char {
    if d < 10 {
        (('0' as int) + d) as char
    } else {
        (('A' as int) + d - 10) as char
    }
}

/// Upper-case hexadecimal digits of `n` (no leading zeros; "0" for zero).
pub open spec fn hex_seq(n: nat) -> Seq<char>
    decreases n,
{
    if n < 16 {
        seq![hex_digit_char(n as int)]
    } else {
        hex_seq(n / 16).push(hex_digit_char((n % 16) as int))
    }
}

/// `format!("{:0w$X}", n)`: upper-case hex, left-padded with zeros to width `w`.
pub open spec fn hex_pad(n: nat, w: nat) -> Seq<char> {
    let h = hex_seq(n);
    if h.len() >= w {
        h
    } else {
        Seq::new((w - h.len()) as nat, |i: int| '0') + h
    }
}

fn hex_digit(d: u64) -> (c: char)
    requires
        d < 16,
    ensures
        c == hex_digit_char(d as int),
{
    if d < 10 {
        char_from_ascii(0x30 + d as u32)
    } else {
        char_from_ascii(0x41 + (d - 10) as u32)
    }
}

pub fn fmt_hex(n: u64) -> (r: Vec<char>)
    ensures
        r@ == hex_seq(n as nat),
    decreases n,
{
    if n < 16 {
        let mut v: Vec<char> = Vec::new();
        v.push(hex_digit(n));
        v
    } else {
        let mut v = fmt_hex(n / 16);
        v.push(hex_digit(n % 16));
        v
    }
}

/// Upper-case hex of `n`, zero-padded to at least `w` digits.
pub fn fmt_hex_pad(n: u64, w: usize) -> (r: Vec<char>)
    ensures
        r@ == hex_pad(n as nat, w as nat),
{
    let h = fmt_hex(n);
    if h.len() >= w {
        h
    } else {
        let mut v: Vec<char> = Vec::new();
        let k = w - h.len();
        let mut i: usize = 0;
        while i < k
            invariant
                i <= k,
                v@ == Seq::new(i as nat, |j: int| '0'),
            decreases k - i,
        {
            v.push('0');
            assert(v@ =~= Seq::new((i + 1) as nat, |j: int| '0'));
            i += 1;
        }
        extend_chars(&mut v, &h);
        v
    }
}


// ---------------------------------------------------------------------------
// Comparisons and conversions of strings.
// ---------------------------------------------------------------------------

/// `trim` never lengthens its argument.
pub proof fn lemma_trim_len(s: Seq<char>)
    ensures
        trim_seq(s).len() <= s.len(),
        trim_start_seq(s).len() <= s.len(),
        trim_end_seq(s).len() <= s.len(),
{
    lemma_first_non_ws_bounds(s, 0);
    lemma_end_non_ws_bounds(s, s.len() as int);
    let t = trim_start_seq(s);
    lemma_end_non_ws_bounds(t, t.len() as int);
}

/// Whether two character sequences are equal.
pub fn chars_eq(a: &[char], b: &[char]) -> (r: bool)
    ensures
        r == (a@ == b@),
{
    if a.len() != b.len() {
        return false;
    }
    let mut i: usize = 0;
    while i < a.len()
        invariant
            a@.len() == b@.len(),
            i <= a@.len(),
            forall|j: int| 0 <= j < i ==> a@[j] == b@[j],
        decreases a.len() - i,
    {
        if a[i] != b[i] {
            return false;
        }
        i += 1;
    }
    assert(a@ =~= b@);
    true
}

/// Whether the characters `a` spell the string `b`.
pub fn chars_eq_str(a: &[char], b: &str) -> (r: bool)
    ensures
        r == (a@ == b@),
{
    let bc = chars_of(b);
    chars_eq(a, &bc)
}

/// Whether two strings are equal.
pub fn str_eq(a: &str, b: &str) -> (r: bool)
    ensures
        r == (a@ == b@),
{
    let ac = chars_of(a);
    chars_eq_str(&ac, b)
}

/// Whether `s` starts with the string `p`.
pub fn starts_with_str(s: &[char], p: &str) -> (r: bool)
    ensures
        r == has_prefix(s@, p@),
{
    let pc = chars_of(p);
    starts_with(s, &pc)
}

/// An owned copy of a string slice.
pub fn owned(s: &str) -> (r: String)
    ensures
        r@ == s@,
{
    String::from_str(s)
}

/// Number of characters of a string.
pub fn char_count(s: &str) -> (r: usize)
    ensures
        r == s@.len(),
{
    s.unicode_len()
}

/// Whether a string is empty.
pub fn is_empty_str(s: &str) -> (r: bool)
    ensures
        r == (s@.len() == 0),
{
    s.unicode_len() == 0
}

/// The text of a byte string, with each invalid UTF-8 sequence replaced by U+FFFD.
pub uninterp spec fn utf8_lossy(b: Seq<u8>) -> Seq<char>;

/// `String::from_utf8_lossy`: decodes bytes as UTF-8, replacing invalid sequences with
/// U+FFFD. The result is a fixed function of the bytes, named `utf8_lossy`; as documented,
/// valid UTF-8 comes back as the text it encodes.
#[verifier::external_body]
pub fn from_utf8_lossy(b: &[u8]) -> (r: String)
    ensures
        r@ == utf8_lossy(b@),
        vstd::utf8::valid_utf8(b@) ==> r@ == vstd::utf8::decode_utf8(b@),
{
    String::from_utf8_lossy(b).into_owned()
}

} // verus!
