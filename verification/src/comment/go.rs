//! Comments, strings and import paths of Go source.

use vstd::prelude::*;
use crate::text::{chars_of, has_suffix, is_whitespace, is_ws, trim, trim_seq, trim_start_seq};
use super::base::{clean_block, clean_block_comment, items, push_item, Comment, Item, Kind, Parser};
use super::gounq::{has_valid_package_clause, try_unquote_interpreted, unquoted, valid_package_clause};

verus! {

/// Scanner states.
#[derive(Debug, Clone, Copy, PartialEq, Eq, Structural)]
pub enum GoState {
    Code,
    Line,
    Block,
    Dq,
    Raw,
    Rune,
}

/// The scanner's state (see `CScan`), with whether it is inside an `import ( ... )` block.
pub struct GoScan {
    pub st: GoState,
    pub buf: Seq<char>,
    pub pre: Seq<char>,
    pub cl: nat,
    pub sl: nat,
    pub line: nat,
    pub ib: bool,
    pub acc: Seq<Item>,
}

/// Index of the first white-space character of `s` (or its length).
pub open spec fn first_ws(s: Seq<char>, i: int) -> int
    decreases s.len() - i,
{
    if 0 <= i < s.len() && !is_ws(s[i]) {
        first_ws(s, i + 1)
    } else {
        i
    }
}

/// The first white-space separated word of the code before a string.
pub open spec fn first_word(pre: Seq<char>) -> Seq<char> {
    let t = trim_start_seq(pre);
    t.take(first_ws(t, 0))
}

/// Strings in an import block, or on a line whose first word is `import`, are import paths.
pub open spec fn import_kind(pre: Seq<char>, ib: bool) -> Kind {
    if ib || first_word(pre) == "import"@ {
        Kind::Import
    } else {
        Kind::String
    }
}

/// A string value (nothing when empty).
pub open spec fn emit_value(acc: Seq<Item>, v: Seq<char>, sl: nat, line: nat, kind: Kind) -> Seq<Item> {
    if v.len() > 0 {
        acc.push(Item { text: v, line: sl as i64, end_line: line as i64, is_block: false, kind })
    } else {
        acc
    }
}

/// The interior of a string that runs to the end of its line: without its last character.
pub open spec fn drop_last_char(s: Seq<char>) -> Seq<char> {
    if s.len() > 0 {
        s.drop_last()
    } else {
        s
    }
}

/// A raw string's value: carriage returns removed.
pub open spec fn without_cr(s: Seq<char>) -> Seq<char> {
    s.filter(|c: char| c != '\r')
}

/// The value of an interpreted string: its unquoted interior, or the interior itself when
/// an escape is invalid.
pub open spec fn interpreted_value(s: Seq<char>) -> Seq<char> {
    match unquoted(s) {
        Some(v) => v,
        None => s,
    }
}

/// A finished line comment (kept even when empty).
pub open spec fn go_line_item(s: GoScan) -> Seq<Item> {
    s.acc.push(
        Item { text: trim_seq(s.buf), line: s.cl as i64, end_line: s.line as i64, is_block: false, kind: Kind::Comment },
    )
}

pub open spec fn go_finish(s: GoScan) -> Seq<Item> {
    if s.st == GoState::Line {
        go_line_item(s)
    } else if s.st == GoState::Dq {
        emit_value(s.acc, drop_last_char(s.buf), s.sl, s.line, import_kind(s.pre, s.ib))
    } else if s.st == GoState::Raw {
        emit_value(s.acc, without_cr(s.buf), s.sl, s.line, import_kind(s.pre, s.ib))
    } else {
        s.acc
    }
}

/// The items of `r[i..]` from state `s`, in the order they end.
pub open spec fn go_go(r: Seq<char>, i: int, s: GoScan) -> Seq<Item>
    decreases r.len() - i,
{
    if i < 0 || i >= r.len() {
        go_finish(s)
    } else {
        let ch = r[i];
        let pk = if i + 1 < r.len() {
            r[i + 1]
        } else {
            '\0'
        };
        match s.st {
            GoState::Code => if ch == '\n' {
                go_go(r, i + 1, GoScan { line: s.line + 1, pre: Seq::empty(), ..s })
            } else if ch == '/' && pk == '/' {
                go_go(r, i + 2, GoScan { st: GoState::Line, cl: s.line, ..s })
            } else if ch == '/' && pk == '*' {
                go_go(r, i + 2, GoScan { st: GoState::Block, cl: s.line, ..s })
            } else if ch == '"' {
                go_go(r, i + 1, GoScan { st: GoState::Dq, sl: s.line, buf: Seq::empty(), ..s })
            } else if ch == '`' {
                go_go(r, i + 1, GoScan { st: GoState::Raw, sl: s.line, buf: Seq::empty(), ..s })
            } else if ch == '\'' {
                go_go(r, i + 1, GoScan { st: GoState::Rune, ..s })
            } else {
                let ib = if ch == '(' && has_suffix(trim_seq(s.pre), "import"@) {
                    true
                } else if ch == ')' && s.ib {
                    false
                } else {
                    s.ib
                };
                go_go(r, i + 1, GoScan { ib, pre: s.pre.push(ch), ..s })
            },
            GoState::Line => if ch == '\n' {
                go_go(
                    r,
                    i + 1,
                    GoScan {
                        st: GoState::Code,
                        acc: go_line_item(s),
                        buf: Seq::empty(),
                        line: s.line + 1,
                        pre: Seq::empty(),
                        ..s
                    },
                )
            } else {
                go_go(r, i + 1, GoScan { buf: s.buf.push(ch), ..s })
            },
            GoState::Block => if ch == '*' && pk == '/' {
                go_go(
                    r,
                    i + 2,
                    GoScan {
                        st: GoState::Code,
                        acc: s.acc.push(
                            Item {
                                text: clean_block(s.buf),
                                line: s.cl as i64,
                                end_line: s.line as i64,
                                is_block: true,
                                kind: Kind::Comment,
                            },
                        ),
                        buf: Seq::empty(),
                        ..s
                    },
                )
            } else {
                go_go(r, i + 1, GoScan {
                    line: if ch == '\n' {
                        s.line + 1
                    } else {
                        s.line
                    },
                    buf: s.buf.push(ch),
                    ..s
                })
            },
            GoState::Dq => if ch == '\n' {
                go_go(
                    r,
                    i + 1,
                    GoScan {
                        st: GoState::Code,
                        acc: emit_value(s.acc, drop_last_char(s.buf), s.sl, s.line, import_kind(s.pre, s.ib)),
                        buf: Seq::empty(),
                        line: s.line + 1,
                        pre: Seq::empty(),
                        ..s
                    },
                )
            } else if ch == '\\' && i + 1 < r.len() {
                go_go(r, i + 2, GoScan { buf: s.buf.push('\\').push(r[i + 1]), ..s })
            } else if ch == '"' {
                go_go(
                    r,
                    i + 1,
                    GoScan {
                        st: GoState::Code,
                        acc: emit_value(s.acc, interpreted_value(s.buf), s.sl, s.line, import_kind(s.pre, s.ib)),
                        buf: Seq::empty(),
                        ..s
                    },
                )
            } else {
                go_go(r, i + 1, GoScan { buf: s.buf.push(ch), ..s })
            },
            GoState::Raw => if ch == '`' {
                go_go(
                    r,
                    i + 1,
                    GoScan {
                        st: GoState::Code,
                        acc: emit_value(s.acc, without_cr(s.buf), s.sl, s.line, import_kind(s.pre, s.ib)),
                        buf: Seq::empty(),
                        ..s
                    },
                )
            } else {
                go_go(r, i + 1, GoScan {
                    line: if ch == '\n' {
                        s.line + 1
                    } else {
                        s.line
                    },
                    buf: s.buf.push(ch),
                    ..s
                })
            },
            GoState::Rune => if ch == '\\' && i + 1 < r.len() {
                go_go(r, i + 2, s)
            } else if ch == '\'' {
                go_go(r, i + 1, GoScan { st: GoState::Code, ..s })
            } else if ch == '\n' {
                go_go(r, i + 1, GoScan { st: GoState::Code, line: s.line + 1, ..s })
            } else {
                go_go(r, i + 1, s)
            },
        }
    }
}

/// Whether each item starts on a line from 1 on and ends on that line or later.
pub open spec fn lines_ok(items: Seq<Item>) -> bool {
    forall|k: int| 0 <= k < items.len() ==> 1 <= #[trigger] items[k].line <= items[k].end_line
}

/// The scanner's line numbers at position `i`: starts of comments and strings on line 1 or
/// later, not after the current line, which is at most one more than the characters read.
pub open spec fn scan_ok(i: int, s: GoScan) -> bool {
    &&& 1 <= s.cl <= s.line
    &&& 1 <= s.sl <= s.line
    &&& s.line <= i + 1
    &&& lines_ok(s.acc)
}

proof fn lemma_emit_ok(acc: Seq<Item>, v: Seq<char>, sl: nat, line: nat, kind: Kind)
    requires
        lines_ok(acc),
        1 <= sl <= line < i64::MAX,
    ensures
        lines_ok(emit_value(acc, v, sl, line, kind)),
{
    if v.len() > 0 {
        let e = emit_value(acc, v, sl, line, kind);
        assert forall|k: int| 0 <= k < e.len() implies 1 <= #[trigger] e[k].line <= e[k].end_line by {
            if k < acc.len() {
                assert(e[k] == acc[k]);
            }
        }
    }
}

proof fn lemma_go_lines(r: Seq<char>, i: int, s: GoScan)
    requires
        0 <= i,
        scan_ok(i, s),
        r.len() + 4 < i64::MAX,
        i <= r.len() + 1,
    ensures
        lines_ok(go_go(r, i, s)),
    decreases r.len() - i,
{
    if i >= r.len() {
        if s.st == GoState::Line {
            let e = go_line_item(s);
            assert forall|k: int| 0 <= k < e.len() implies 1 <= #[trigger] e[k].line <= e[k].end_line by {
                if k < s.acc.len() {
                    assert(e[k] == s.acc[k]);
                }
            }
        } else if s.st == GoState::Dq {
            lemma_emit_ok(s.acc, drop_last_char(s.buf), s.sl, s.line, import_kind(s.pre, s.ib));
        } else if s.st == GoState::Raw {
            lemma_emit_ok(s.acc, without_cr(s.buf), s.sl, s.line, import_kind(s.pre, s.ib));
        }
        return;
    }
    let ch = r[i];
    let pk = if i + 1 < r.len() {
        r[i + 1]
    } else {
        '\0'
    };
    match s.st {
        GoState::Code => if ch == '\n' {
            lemma_go_lines(r, i + 1, GoScan { line: s.line + 1, pre: Seq::empty(), ..s });
        } else if ch == '/' && pk == '/' {
            lemma_go_lines(r, i + 2, GoScan { st: GoState::Line, cl: s.line, ..s });
        } else if ch == '/' && pk == '*' {
            lemma_go_lines(r, i + 2, GoScan { st: GoState::Block, cl: s.line, ..s });
        } else if ch == '"' {
            lemma_go_lines(r, i + 1, GoScan { st: GoState::Dq, sl: s.line, buf: Seq::empty(), ..s });
        } else if ch == '`' {
            lemma_go_lines(r, i + 1, GoScan { st: GoState::Raw, sl: s.line, buf: Seq::empty(), ..s });
        } else if ch == '\'' {
            lemma_go_lines(r, i + 1, GoScan { st: GoState::Rune, ..s });
        } else {
            let ib = if ch == '(' && has_suffix(trim_seq(s.pre), "import"@) {
                true
            } else if ch == ')' && s.ib {
                false
            } else {
                s.ib
            };
            lemma_go_lines(r, i + 1, GoScan { ib, pre: s.pre.push(ch), ..s });
        },
        GoState::Line => if ch == '\n' {
            let e = go_line_item(s);
            assert forall|k: int| 0 <= k < e.len() implies 1 <= #[trigger] e[k].line <= e[k].end_line by {
                if k < s.acc.len() {
                    assert(e[k] == s.acc[k]);
                }
            }
            lemma_go_lines(
                r,
                i + 1,
                GoScan { st: GoState::Code, acc: e, buf: Seq::empty(), line: s.line + 1, pre: Seq::empty(), ..s },
            );
        } else {
            lemma_go_lines(r, i + 1, GoScan { buf: s.buf.push(ch), ..s });
        },
        GoState::Block => if ch == '*' && pk == '/' {
            let it = Item {
                text: clean_block(s.buf),
                line: s.cl as i64,
                end_line: s.line as i64,
                is_block: true,
                kind: Kind::Comment,
            };
            let e = s.acc.push(it);
            assert forall|k: int| 0 <= k < e.len() implies 1 <= #[trigger] e[k].line <= e[k].end_line by {
                if k < s.acc.len() {
                    assert(e[k] == s.acc[k]);
                }
            }
            lemma_go_lines(r, i + 2, GoScan { st: GoState::Code, acc: e, buf: Seq::empty(), ..s });
        } else {
            lemma_go_lines(
                r,
                i + 1,
                GoScan {
                    line: if ch == '\n' {
                        s.line + 1
                    } else {
                        s.line
                    },
                    buf: s.buf.push(ch),
                    ..s
                },
            );
        },
        GoState::Dq => if ch == '\n' {
            lemma_emit_ok(s.acc, drop_last_char(s.buf), s.sl, s.line, import_kind(s.pre, s.ib));
            lemma_go_lines(
                r,
                i + 1,
                GoScan {
                    st: GoState::Code,
                    acc: emit_value(s.acc, drop_last_char(s.buf), s.sl, s.line, import_kind(s.pre, s.ib)),
                    buf: Seq::empty(),
                    line: s.line + 1,
                    pre: Seq::empty(),
                    ..s
                },
            );
        } else if ch == '\\' && i + 1 < r.len() {
            lemma_go_lines(r, i + 2, GoScan { buf: s.buf.push('\\').push(r[i + 1]), ..s });
        } else if ch == '"' {
            lemma_emit_ok(s.acc, interpreted_value(s.buf), s.sl, s.line, import_kind(s.pre, s.ib));
            lemma_go_lines(
                r,
                i + 1,
                GoScan {
                    st: GoState::Code,
                    acc: emit_value(s.acc, interpreted_value(s.buf), s.sl, s.line, import_kind(s.pre, s.ib)),
                    buf: Seq::empty(),
                    ..s
                },
            );
        } else {
            lemma_go_lines(r, i + 1, GoScan { buf: s.buf.push(ch), ..s });
        },
        GoState::Raw => if ch == '`' {
            lemma_emit_ok(s.acc, without_cr(s.buf), s.sl, s.line, import_kind(s.pre, s.ib));
            lemma_go_lines(
                r,
                i + 1,
                GoScan {
                    st: GoState::Code,
                    acc: emit_value(s.acc, without_cr(s.buf), s.sl, s.line, import_kind(s.pre, s.ib)),
                    buf: Seq::empty(),
                    ..s
                },
            );
        } else {
            lemma_go_lines(
                r,
                i + 1,
                GoScan {
                    line: if ch == '\n' {
                        s.line + 1
                    } else {
                        s.line
                    },
                    buf: s.buf.push(ch),
                    ..s
                },
            );
        },
        GoState::Rune => if ch == '\\' && i + 1 < r.len() {
            lemma_go_lines(r, i + 2, s);
        } else if ch == '\'' {
            lemma_go_lines(r, i + 1, GoScan { st: GoState::Code, ..s });
        } else if ch == '\n' {
            lemma_go_lines(r, i + 1, GoScan { st: GoState::Code, line: s.line + 1, ..s });
        } else {
            lemma_go_lines(r, i + 1, s);
        },
    }
}

// ---------------------------------------------------------------------------
// Ordering.
// ---------------------------------------------------------------------------

/// Items are ordered by line; on a line, comments come before strings and imports.
pub open spec fn key_lt(a: Item, b: Item) -> bool {
    let fa = if a.kind == Kind::Comment {
        0int
    } else {
        1int
    };
    let fb = if b.kind == Kind::Comment {
        0int
    } else {
        1int
    };
    a.line < b.line || (a.line == b.line && fa < fb)
}

/// The position of `x` in `s`: before the first item that it precedes.
pub open spec fn insert_pos(s: Seq<Item>, x: Item, j: int) -> int
    decreases s.len() - j,
{
    if j < 0 || j >= s.len() {
        s.len() as int
    } else if key_lt(x, s[j]) {
        j
    } else {
        insert_pos(s, x, j + 1)
    }
}

proof fn lemma_insert_pos(s: Seq<Item>, x: Item, j: int)
    requires
        0 <= j <= s.len(),
    ensures
        j <= insert_pos(s, x, j) <= s.len(),
    decreases s.len() - j,
{
    if j < s.len() && !key_lt(x, s[j]) {
        lemma_insert_pos(s, x, j + 1);
    }
}

/// The items stably sorted by line, comments first on each line (insertion order).
pub open spec fn sort_items(v: Seq<Item>) -> Seq<Item>
    decreases v.len(),
{
    if v.len() == 0 {
        Seq::empty()
    } else {
        let s = sort_items(v.drop_last());
        s.insert(insert_pos(s, v.last(), 0), v.last())
    }
}

proof fn lemma_sort_len(v: Seq<Item>)
    ensures
        sort_items(v).len() == v.len(),
    decreases v.len(),
{
    if v.len() > 0 {
        lemma_sort_len(v.drop_last());
        let s = sort_items(v.drop_last());
        lemma_insert_pos(s, v.last(), 0);
    }
}

fn flag(k: Kind) -> (r: i64)
    ensures
        r == (if k == Kind::Comment {
            0int
        } else {
            1int
        }),
{
    if k == Kind::Comment {
        0
    } else {
        1
    }
}

fn sort_comments(v: Vec<Comment>) -> (r: Vec<Comment>)
    ensures
        items(r@) == sort_items(items(v@)),
{
    let ghost iv = items(v@);
    let mut out: Vec<Comment> = Vec::new();
    let mut k: usize = 0;
    assert(items(out@) =~= Seq::<Item>::empty());
    while k < v.len()
        invariant
            k <= v@.len(),
            iv == items(v@),
            items(out@) == sort_items(iv.take(k as int)),
        decreases v.len() - k,
    {
        let c = &v[k];
        let ghost s = items(out@);
        assert(iv.take(k + 1).drop_last() =~= iv.take(k as int));
        assert(iv.take(k + 1).last() == c.item());
        let fc = flag(c.kind);
        let mut j: usize = 0;
        while j < out.len()
            invariant
                j <= out@.len(),
                s == items(out@),
                fc == (if c.kind == Kind::Comment {
                    0int
                } else {
                    1int
                }),
                insert_pos(s, c.item(), j as int) == insert_pos(s, c.item(), 0),
            ensures
                j <= out@.len(),
                insert_pos(s, c.item(), 0) == j as int,
            decreases out.len() - j,
        {
            let o = &out[j];
            let fo = flag(o.kind);
            assert(s[j as int] == o.item());
            if c.line < o.line || (c.line == o.line && fc < fo) {
                break;
            }
            j += 1;
        }
        proof {
            lemma_insert_pos(s, c.item(), j as int);
        }
        let nc = Comment {
            text: c.text.clone(),
            line: c.line,
            end_line: c.end_line,
            is_block: c.is_block,
            kind: c.kind,
        };
        out.insert(j, nc);
        assert(items(out@) =~= s.insert(j as int, c.item()));
        k += 1;
    }
    assert(iv.take(v@.len() as int) =~= iv);
    out
}


// ---------------------------------------------------------------------------
// The parser.
// ---------------------------------------------------------------------------

/// The items of a Go source text: nothing without a valid package clause; otherwise the
/// comments, strings and import paths, ordered by line with comments first on each line.
pub open spec fn go_items(content: Seq<char>) -> Seq<Item> {
    if valid_package_clause(content) {
        sort_items(
            go_go(
                content,
                0,
                GoScan {
                    st: GoState::Code,
                    buf: Seq::empty(),
                    pre: Seq::empty(),
                    cl: 1,
                    sl: 1,
                    line: 1,
                    ib: false,
                    acc: Seq::empty(),
                },
            ),
        )
    } else {
        Seq::empty()
    }
}

/// Whether no item comes after one that it precedes (see `key_lt`).
pub open spec fn items_sorted(s: Seq<Item>) -> bool {
    forall|i: int, j: int| 0 <= i < j < s.len() ==> !key_lt(#[trigger] s[j], #[trigger] s[i])
}

proof fn lemma_insert_pos_bounds(s: Seq<Item>, x: Item, j: int)
    requires
        0 <= j <= s.len(),
    ensures
        j <= insert_pos(s, x, j) <= s.len(),
        forall|k: int| j <= k < insert_pos(s, x, j) ==> !key_lt(x, #[trigger] s[k]),
        insert_pos(s, x, j) < s.len() ==> key_lt(x, s[insert_pos(s, x, j)]),
    decreases s.len() - j,
{
    lemma_insert_pos(s, x, j);
    if j < s.len() && !key_lt(x, s[j]) {
        lemma_insert_pos_bounds(s, x, j + 1);
    }
}

/// Sorting the items orders them by line, comments first on each line, and keeps every
/// item: the result is sorted and holds the same items as many times.
pub proof fn law_sorted_items_are_ordered_permutation(v: Seq<Item>)
    ensures
        sort_items(v).len() == v.len(),
        items_sorted(sort_items(v)),
        sort_items(v).to_multiset() == v.to_multiset(),
    decreases v.len(),
{
    lemma_sort_len(v);
    if v.len() == 0 {
        assert(v =~= Seq::<Item>::empty());
        return;
    }
    let w = v.drop_last();
    law_sorted_items_are_ordered_permutation(w);
    let s = sort_items(w);
    let x = v.last();
    let p = insert_pos(s, x, 0);
    lemma_insert_pos_bounds(s, x, 0);
    let r = s.insert(p, x);
    s.insert_ensures(p, x);
    assert(r == sort_items(v));
    assert forall|i: int, j: int| 0 <= i < j < r.len() implies !key_lt(#[trigger] r[j], #[trigger] r[i]) by {
        if j < p {
            assert(r[i] == s[i] && r[j] == s[j]);
        } else if j == p {
            assert(r[i] == s[i]);
        } else if i < p {
            assert(r[i] == s[i] && r[j] == s[j - 1]);
        } else if i == p {
            assert(r[j] == s[j - 1]);
            assert(key_lt(x, s[p]));
            if j - 1 > p {
                assert(!key_lt(s[j - 1], s[p]));
            }
        } else {
            assert(r[i] == s[i - 1] && r[j] == s[j - 1]);
        }
    }
    vstd::seq_lib::to_multiset_insert(s, p, x);
    vstd::seq_lib::to_multiset_build(w, x);
    assert(w.push(x) =~= v);
}

/// Whether two items have the same place in the order: same line, and both comments or
/// neither.
pub open spec fn same_key(a: Item, b: Item) -> bool {
    !key_lt(a, b) && !key_lt(b, a)
}

/// The items in the same place in the order as `x`.
pub open spec fn key_class(x: Item) -> spec_fn(Item) -> bool {
    |y: Item| same_key(y, x)
}

/// Sorting the items is stable: the items that share a place in the order keep the order
/// they were found in.
pub proof fn law_sorted_items_stable(v: Seq<Item>, x: Item)
    ensures
        sort_items(v).filter(key_class(x)) == v.filter(key_class(x)),
    decreases v.len(),
{
    reveal(Seq::filter);
    let pr = key_class(x);
    if v.len() == 0 {
        return;
    }
    let w = v.drop_last();
    law_sorted_items_stable(w, x);
    law_sorted_items_are_ordered_permutation(w);
    let s = sort_items(w);
    let z = v.last();
    let p = insert_pos(s, z, 0);
    lemma_insert_pos_bounds(s, z, 0);
    let a = s.subrange(0, p);
    let b = s.subrange(p, s.len() as int);
    assert(s =~= a + b);
    assert(sort_items(v) =~= a + seq![z] + b);
    Seq::filter_distributes_over_add(a, b, pr);
    Seq::filter_distributes_over_add(a + seq![z], b, pr);
    Seq::filter_distributes_over_add(a, seq![z], pr);
    assert(seq![z].drop_last() =~= Seq::<Item>::empty());
    assert(Seq::<Item>::empty().filter(pr) =~= Seq::<Item>::empty());
    if pr(z) {
        assert(seq![z].filter(pr) =~= seq![z]);
        assert forall|k: int| 0 <= k < b.len() implies !pr(#[trigger] b[k]) by {
            assert(b[k] == s[p + k]);
            assert(key_lt(z, s[p]));
            if k > 0 {
                assert(!key_lt(s[p + k], s[p]));
            }
        }
        b.lemma_all_neg_filter_empty(pr);
        assert(b.filter(pr) =~= Seq::<Item>::empty());
        assert(v.filter(pr) == w.filter(pr).push(z));
        assert(a.filter(pr) + seq![z] + Seq::<Item>::empty() =~= (a.filter(pr) + Seq::<Item>::empty()).push(z));
    } else {
        assert(seq![z].filter(pr) =~= Seq::<Item>::empty());
        assert(v.filter(pr) == w.filter(pr));
        assert(a.filter(pr) + Seq::<Item>::empty() =~= a.filter(pr));
    }
}

/// The items of a Go source text come ordered by line, comments first on each line, and
/// each starts on a line from 1 on and ends on that line or a later one (for a text whose
/// line numbers fit in an `i64`).
pub proof fn law_go_items_sorted(content: Seq<char>)
    requires
        content.len() + 4 < i64::MAX,
    ensures
        items_sorted(go_items(content)),
        lines_ok(go_items(content)),
{
    if valid_package_clause(content) {
        let raw = go_go(
            content,
            0,
            GoScan {
                st: GoState::Code,
                buf: Seq::empty(),
                pre: Seq::empty(),
                cl: 1,
                sl: 1,
                line: 1,
                ib: false,
                acc: Seq::empty(),
            },
        );
        law_sorted_items_are_ordered_permutation(raw);
        lemma_go_lines(
            content,
            0,
            GoScan {
                st: GoState::Code,
                buf: Seq::empty(),
                pre: Seq::empty(),
                cl: 1,
                sl: 1,
                line: 1,
                ib: false,
                acc: Seq::empty(),
            },
        );
        let srt = sort_items(raw);
        assert forall|k: int| 0 <= k < srt.len() implies 1 <= #[trigger] srt[k].line <= srt[k].end_line by {
            broadcast use vstd::seq_lib::to_multiset_contains;
            assert(srt.contains(srt[k]));
            assert(srt.to_multiset().contains(srt[k]));
            assert(raw.to_multiset().contains(srt[k]));
            assert(raw.contains(srt[k]));
            let j = choose|j: int| 0 <= j < raw.len() && raw[j] == srt[k];
            assert(1 <= raw[j].line <= raw[j].end_line);
        }
    }
}

fn first_word_exec(pre: &[char]) -> (r: Vec<char>)
    ensures
        r@ == first_word(pre@),
{
    let t = crate::text::trim_start(pre);
    let mut j: usize = 0;
    while j < t.len() && !is_whitespace(t[j])
        invariant
            j <= t@.len(),
            first_ws(t@, j as int) == first_ws(t@, 0),
        decreases t.len() - j,
    {
        j += 1;
    }
    crate::text::slice_chars(&t, 0, j)
}

fn go_import_kind(pre: &[char], ib: bool) -> (r: Kind)
    ensures
        r == import_kind(pre@, ib),
{
    if ib {
        return Kind::Import;
    }
    let w = first_word_exec(pre);
    if crate::text::chars_eq_str(&w, "import") {
        Kind::Import
    } else {
        Kind::String
    }
}

fn emit_value_exec(result: &mut Vec<Comment>, v: &[char], sl: usize, line: usize, kind: Kind)
    requires
        sl < usize::MAX,
        line < usize::MAX,
    ensures
        items(final(result)@) == emit_value(items(old(result)@), v@, (sl + 1) as nat, (line + 1) as nat, kind),
{
    if v.len() > 0 {
        push_item(result, v, (sl + 1) as i64, (line + 1) as i64, false, kind);
    }
}

fn drop_last_exec(s: &[char]) -> (r: Vec<char>)
    ensures
        r@ == drop_last_char(s@),
{
    if s.len() == 0 {
        Vec::new()
    } else {
        crate::text::slice_chars(s, 0, s.len() - 1)
    }
}

fn without_cr_exec(s: &[char]) -> (r: Vec<char>)
    ensures
        r@ == without_cr(s@),
{
    let mut v: Vec<char> = Vec::new();
    let mut i: usize = 0;
    while i < s.len()
        invariant
            i <= s@.len(),
            v@ == without_cr(s@.take(i as int)),
        decreases s.len() - i,
    {
        proof {
            reveal(Seq::filter);
            assert(s@.take(i + 1).drop_last() =~= s@.take(i as int));
        }
        if s[i] != '\r' {
            v.push(s[i]);
        }
        i += 1;
    }
    proof {
        assert(s@.take(s@.len() as int) =~= s@);
    }
    v
}

fn interpreted_exec(s: &[char]) -> (r: Vec<char>)
    ensures
        r@ == interpreted_value(s@),
{
    match try_unquote_interpreted(s) {
        Some(v) => chars_of(&v),
        None => crate::text::copy_chars(s),
    }
}

fn line_item_exec(result: &mut Vec<Comment>, buf: &[char], cl: usize, line: usize)
    requires
        cl < usize::MAX,
        line < usize::MAX,
    ensures
        items(final(result)@) == items(old(result)@).push(
            Item { text: trim_seq(buf@), line: (cl + 1) as i64, end_line: (line + 1) as i64, is_block: false, kind: Kind::Comment },
        ),
{
    let t = trim(buf);
    push_item(result, &t, (cl + 1) as i64, (line + 1) as i64, false, Kind::Comment);
}

/// Extracts comments, strings and import paths from Go source.
pub struct GoParser;

impl GoParser {
    /// The items of the text (see `go_items`).
    pub fn parse_file(&self, content: &str) -> (r: Result<Vec<Comment>, String>)
        ensures
            r matches Ok(v) && items(v@) == go_items(content@),
    {
        let rs = chars_of(content);
        let n = rs.len();
        if !has_valid_package_clause(&rs) {
            let e: Vec<Comment> = Vec::new();
            assert(items(e@) =~= Seq::<Item>::empty());
            return Ok(e);
        }
        let ghost target = go_go(
            content@,
            0,
            GoScan {
                st: GoState::Code,
                buf: Seq::empty(),
                pre: Seq::empty(),
                cl: 1,
                sl: 1,
                line: 1,
                ib: false,
                acc: Seq::empty(),
            },
        );
        let mut result: Vec<Comment> = Vec::new();
        let mut state = GoState::Code;
        let mut buf: Vec<char> = Vec::new();
        let mut pre: Vec<char> = Vec::new();
        let mut cl: usize = 0;
        let mut sl: usize = 0;
        let mut line: usize = 0;
        let mut ib = false;
        let mut i: usize = 0;
        assert(items(result@) =~= Seq::<Item>::empty());
        assert(buf@ =~= Seq::<char>::empty());
        assert(pre@ =~= Seq::<char>::empty());
        while i < n
            invariant
                n == rs@.len(),
                rs@ == content@,
                i <= n,
                line <= i,
                cl <= line,
                sl <= line,
                state != GoState::Code ==> line < i,
                go_go(
                    rs@,
                    i as int,
                    GoScan {
                        st: state,
                        buf: buf@,
                        pre: pre@,
                        cl: (cl + 1) as nat,
                        sl: (sl + 1) as nat,
                        line: (line + 1) as nat,
                        ib,
                        acc: items(result@),
                    },
                ) == target,
            decreases n - i,
        {
            let ch = rs[i];
            let pk = if n - i > 1 {
                rs[i + 1]
            } else {
                '\0'
            };
            match state {
                GoState::Code => {
                    if ch == '\n' {
                        line += 1;
                        pre = Vec::new();
                    } else if ch == '/' && pk == '/' {
                        state = GoState::Line;
                        cl = line;
                        i += 1;
                    } else if ch == '/' && pk == '*' {
                        state = GoState::Block;
                        cl = line;
                        i += 1;
                    } else if ch == '"' {
                        state = GoState::Dq;
                        sl = line;
                        buf = Vec::new();
                    } else if ch == '`' {
                        state = GoState::Raw;
                        sl = line;
                        buf = Vec::new();
                    } else if ch == '\'' {
                        state = GoState::Rune;
                    } else {
                        if ch == '(' && crate::text::ends_with(&trim(&pre), &chars_of("import")) {
                            ib = true;
                        } else if ch == ')' && ib {
                            ib = false;
                        }
                        pre.push(ch);
                    }
                },
                GoState::Line => {
                    if ch == '\n' {
                        line_item_exec(&mut result, &buf, cl, line);
                        buf = Vec::new();
                        state = GoState::Code;
                        line += 1;
                        pre = Vec::new();
                    } else {
                        buf.push(ch);
                    }
                },
                GoState::Block => {
                    if ch == '*' && pk == '/' {
                        let text = clean_block_comment(&buf);
                        push_item(&mut result, &text, (cl + 1) as i64, (line + 1) as i64, true, Kind::Comment);
                        buf = Vec::new();
                        state = GoState::Code;
                        i += 1;
                    } else {
                        if ch == '\n' {
                            line += 1;
                        }
                        buf.push(ch);
                    }
                },
                GoState::Dq => {
                    if ch == '\n' {
                        let v = drop_last_exec(&buf);
                        emit_value_exec(&mut result, &v, sl, line, go_import_kind(&pre, ib));
                        buf = Vec::new();
                        line += 1;
                        pre = Vec::new();
                        state = GoState::Code;
                    } else if ch == '\\' && n - i > 1 {
                        buf.push('\\');
                        buf.push(rs[i + 1]);
                        i += 1;
                    } else if ch == '"' {
                        let v = interpreted_exec(&buf);
                        emit_value_exec(&mut result, &v, sl, line, go_import_kind(&pre, ib));
                        buf = Vec::new();
                        state = GoState::Code;
                    } else {
                        buf.push(ch);
                    }
                },
                GoState::Raw => {
                    if ch == '`' {
                        let v = without_cr_exec(&buf);
                        emit_value_exec(&mut result, &v, sl, line, go_import_kind(&pre, ib));
                        buf = Vec::new();
                        state = GoState::Code;
                    } else {
                        if ch == '\n' {
                            line += 1;
                        }
                        buf.push(ch);
                    }
                },
                GoState::Rune => {
                    if ch == '\\' && n - i > 1 {
                        i += 1;
                    } else if ch == '\'' {
                        state = GoState::Code;
                    } else if ch == '\n' {
                        line += 1;
                        state = GoState::Code;
                    }
                },
            }
            i += 1;
        }
        if state == GoState::Line {
            line_item_exec(&mut result, &buf, cl, line);
        } else if state == GoState::Dq {
            let v = drop_last_exec(&buf);
            emit_value_exec(&mut result, &v, sl, line, go_import_kind(&pre, ib));
        } else if state == GoState::Raw {
            let v = without_cr_exec(&buf);
            emit_value_exec(&mut result, &v, sl, line, go_import_kind(&pre, ib));
        }
        Ok(sort_comments(result))
    }

    /// `.go`.
    pub fn supported_extensions(&self) -> (r: Vec<&'static str>)
        ensures
            r@.map_values(|s: &str| s@) == seq![".go"@],
    {
        let r = vec![".go"];
        assert(r@.map_values(|s: &str| s@) =~= seq![".go"@]);
        r
    }
}

impl Parser for GoParser {
    fn parse_file(&self, content: &str) -> Result<Vec<Comment>, String> {
        GoParser::parse_file(self, content)
    }

    fn supported_extensions(&self) -> Vec<&'static str> {
        GoParser::supported_extensions(self)
    }
}

} // verus!
