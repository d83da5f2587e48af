//! An ordered map from type alias to conventional-commit type, kept sorted by key.

use vstd::prelude::*;
use crate::text::chars_of;

verus! {

/// Lexicographic order of character sequences (the order of `str` comparison).
pub open spec fn seq_lt(a: Seq<char>, b: Seq<char>) -> bool
    decreases a.len(),
{
    if a.len() == 0 {
        b.len() > 0
    } else if b.len() == 0 {
        false
    } else if a[0] != b[0] {
        a[0] < b[0]
    } else {
        seq_lt(a.skip(1), b.skip(1))
    }
}

pub proof fn lemma_seq_lt_irrefl(a: Seq<char>)
    ensures
        !seq_lt(a, a),
    decreases a.len(),
{
    if a.len() > 0 {
        lemma_seq_lt_irrefl(a.skip(1));
    }
}

pub proof fn lemma_seq_lt_trans(a: Seq<char>, b: Seq<char>, c: Seq<char>)
    requires
        seq_lt(a, b),
        seq_lt(b, c),
    ensures
        seq_lt(a, c),
    decreases a.len(),
{
    if a.len() > 0 && b.len() > 0 && c.len() > 0 && a[0] == b[0] && b[0] == c[0] {
        lemma_seq_lt_trans(a.skip(1), b.skip(1), c.skip(1));
    }
}

pub proof fn lemma_seq_lt_total(a: Seq<char>, b: Seq<char>)
    requires
        a != b,
    ensures
        seq_lt(a, b) || seq_lt(b, a),
    decreases a.len(),
{
    if a.len() == 0 && b.len() == 0 {
        assert(a =~= b);
    }
    if a.len() > 0 && b.len() > 0 && a[0] == b[0] {
        if a.skip(1) == b.skip(1) {
            assert(a =~= seq![a[0]] + a.skip(1));
            assert(b =~= seq![b[0]] + b.skip(1));
        }
        lemma_seq_lt_total(a.skip(1), b.skip(1));
    }
}

/// Lexicographic comparison of two character sequences.
pub fn chars_lt(a: &[char], b: &[char]) -> (r: bool)
    ensures
        r == seq_lt(a@, b@),
{
    let mut i: usize = 0;
    assert(a@.skip(0) =~= a@);
    assert(b@.skip(0) =~= b@);
    while i < a.len() && i < b.len() && a[i] == b[i]
        invariant
            i <= a@.len(),
            i <= b@.len(),
            seq_lt(a@.skip(i as int), b@.skip(i as int)) == seq_lt(a@, b@),
        decreases a.len() - i,
    {
        assert(a@.skip(i as int).skip(1) =~= a@.skip(i + 1));
        assert(b@.skip(i as int).skip(1) =~= b@.skip(i + 1));
        i += 1;
    }
    if i >= a.len() {
        i < b.len()
    } else if i >= b.len() {
        false
    } else {
        a[i] < b[i]
    }
}

/// Whether the keys of `s` strictly increase.
pub open spec fn keys_sorted(s: Seq<(Seq<char>, Seq<char>)>) -> bool {
    forall|i: int, j: int| 0 <= i < j < s.len() ==> seq_lt(#[trigger] s[i].0, #[trigger] s[j].0)
}

/// The value stored under `k`, if any.
pub open spec fn entry_get(s: Seq<(Seq<char>, Seq<char>)>, k: Seq<char>) -> Option<Seq<char>> {
    if exists|i: int| 0 <= i < s.len() && s[i].0 == k {
        Some(s[choose|i: int| 0 <= i < s.len() && s[i].0 == k].1)
    } else {
        None
    }
}

/// A map from alias to type whose entries are kept in ascending key order.
#[derive(Debug)]
pub struct TypeAliases {
    entries: Vec<(String, String)>,
}

impl TypeAliases {
    /// The entries as character sequences, in ascending key order.
    pub closed spec fn view(&self) -> Seq<(Seq<char>, Seq<char>)> {
        self.entries@.map_values(|e: (String, String)| (e.0@, e.1@))
    }

    #[verifier::type_invariant]
    pub open spec fn sorted(self) -> bool {
        keys_sorted(self.view())
    }

    /// An empty map.
    pub fn new() -> (r: Self)
        ensures
            r.view() == Seq::<(Seq<char>, Seq<char>)>::empty(),
    {
        let r = TypeAliases { entries: Vec::new() };
        assert(r.view() =~= Seq::<(Seq<char>, Seq<char>)>::empty());
        r
    }

    pub fn len(&self) -> (r: usize)
        ensures
            r == self.view().len(),
    {
        self.entries.len()
    }

    pub fn is_empty(&self) -> (r: bool)
        ensures
            r == (self.view().len() == 0),
    {
        self.entries.len() == 0
    }

    /// The value stored under `key`.
    pub fn get(&self, key: &str) -> (r: Option<String>)
        ensures
            r matches Some(v) ==> entry_get(self.view(), key@) == Some(v@),
            r is None ==> entry_get(self.view(), key@) is None,
    {
        proof {
            use_type_invariant(self);
        }
        let kc = chars_of(key);
        let mut i: usize = 0;
        while i < self.entries.len()
            invariant
                i <= self.view().len(),
                kc@ == key@,
                self.view().len() == self.entries@.len(),
                keys_sorted(self.view()),
                forall|j: int| 0 <= j < i ==> self.view()[j].0 != key@,
            decreases self.entries.len() - i,
        {
            let e = &self.entries[i];
            if crate::text::chars_eq_str(&kc, e.0.as_str()) {
                proof {
                    let s = self.view();
                    assert(s[i as int].0 == key@);
                    assert(0 <= i < s.len() && s[i as int].0 == key@);
                    let c = choose|c: int| 0 <= c < s.len() && s[c].0 == key@;
                    if c != i {
                        if c < i {
                        } else {
                            assert(seq_lt(s[i as int].0, s[c].0));
                            lemma_seq_lt_irrefl(key@);
                        }
                    }
                }
                return Some(e.1.clone());
            }
            i += 1;
        }
        None
    }

    /// The keys in ascending order.
    pub fn keys(&self) -> (r: Vec<String>)
        ensures
            r@.map_values(|s: String| s@) == self.view().map_values(
                |e: (Seq<char>, Seq<char>)| e.0,
            ),
    {
        let mut out: Vec<String> = Vec::new();
        let mut i: usize = 0;
        while i < self.entries.len()
            invariant
                i <= self.entries@.len(),
                self.view().len() == self.entries@.len(),
                out@.map_values(|s: String| s@) == self.view().take(i as int).map_values(
                    |e: (Seq<char>, Seq<char>)| e.0,
                ),
            decreases self.entries.len() - i,
        {
            let k = self.entries[i].0.clone();
            proof {
                assert(self.view().take(i + 1).map_values(|e: (Seq<char>, Seq<char>)| e.0)
                    =~= self.view().take(i as int).map_values(|e: (Seq<char>, Seq<char>)| e.0).push(
                    k@,
                ));
                assert(out@.push(k).map_values(|s: String| s@) =~= out@.map_values(
                    |s: String| s@,
                ).push(k@));
            }
            out.push(k);
            i += 1;
        }
        assert(self.view().take(self.view().len() as int) =~= self.view());
        out
    }

    /// Stores `value` under `key` (replacing an existing value) and returns the old value.
    pub fn insert(&mut self, key: String, value: String) -> (r: Option<String>)
        ensures
            entry_get(final(self).view(), key@) == Some(value@),
            forall|k: Seq<char>| k != key@ ==> entry_get(final(self).view(), k) == entry_get(old(self).view(), k),
            r matches Some(v) ==> entry_get(old(self).view(), key@) == Some(v@),
            r is None ==> entry_get(old(self).view(), key@) is None,
    {
        proof {
            use_type_invariant(&*self);
        }
        let ghost s0 = self.view();
        let kc = chars_of(key.as_str());
        let mut i: usize = 0;
        while i < self.entries.len()
            invariant
                i <= s0.len(),
                s0 == self.view(),
                kc@ == key@,
                s0.len() == self.entries@.len(),
                keys_sorted(s0),
                forall|j: int| 0 <= j < i ==> seq_lt(#[trigger] s0[j].0, key@),
            ensures
                i <= s0.len(),
                forall|j: int| 0 <= j < i ==> seq_lt(#[trigger] s0[j].0, key@),
                i < s0.len() ==> !seq_lt(s0[i as int].0, key@),
            decreases self.entries.len() - i,
        {
            let ek = chars_of(self.entries[i].0.as_str());
            if !chars_lt(&ek, &kc) {
                break;
            }
            i += 1;
        }
        let ghost p = i as int;
        proof {
            assert forall|j: int| p <= j < s0.len() implies !seq_lt(#[trigger] s0[j].0, key@) by {
                if p < s0.len() {
                    assert(!seq_lt(s0[p].0, key@));
                    if j > p {
                        assert(seq_lt(s0[p].0, s0[j].0));
                        if seq_lt(s0[j].0, key@) {
                            lemma_seq_lt_trans(s0[p].0, s0[j].0, key@);
                        }
                    }
                }
            }
        }
        if i < self.entries.len() && crate::text::chars_eq_str(&kc, self.entries[i].0.as_str()) {
            let mut entries: Vec<(String, String)> = Vec::new();
            std::mem::swap(&mut entries, &mut self.entries);
            let old_v = entries[i].1.clone();
            entries.set(i, (key, value));
            proof {
                assert(entries@.map_values(|e: (String, String)| (e.0@, e.1@)) =~= s0.update(
                    p,
                    (key@, value@),
                ));
                lemma_get_after_update(s0, p, key@, value@);
            }
            self.entries = entries;
            return Some(old_v);
        }
        let ghost kk = key@;
        let ghost vv = value@;
        let mut entries: Vec<(String, String)> = Vec::new();
        std::mem::swap(&mut entries, &mut self.entries);
        entries.insert(i, (key, value));
        proof {
            assert(entries@.map_values(|e: (String, String)| (e.0@, e.1@)) =~= s0.insert(p, (kk, vv)));
            lemma_get_after_insert(s0, p, kk, vv);
        }
        self.entries = entries;
        None
    }
}

proof fn lemma_get_after_update(s: Seq<(Seq<char>, Seq<char>)>, p: int, k: Seq<char>, v: Seq<char>)
    requires
        keys_sorted(s),
        0 <= p < s.len(),
        s[p].0 == k,
    ensures
        keys_sorted(s.update(p, (k, v))),
        entry_get(s.update(p, (k, v)), k) == Some(v),
        entry_get(s, k) == Some(s[p].1),
        forall|q: Seq<char>| q != k ==> entry_get(s.update(p, (k, v)), q) == entry_get(s, q),
{
    let t = s.update(p, (k, v));
    assert forall|i: int, j: int| 0 <= i < j < t.len() implies seq_lt(#[trigger] t[i].0, #[trigger] t[j].0) by {
        assert(t[i].0 == s[i].0 && t[j].0 == s[j].0);
    }
    lemma_unique_index(t, p, k);
    lemma_unique_index(s, p, k);
    assert forall|q: Seq<char>| q != k implies entry_get(t, q) == entry_get(s, q) by {
        if exists|i: int| 0 <= i < s.len() && s[i].0 == q {
            let i = choose|i: int| 0 <= i < s.len() && s[i].0 == q;
            assert(t[i].0 == q);
            lemma_unique_index(s, i, q);
            lemma_unique_index(t, i, q);
        } else {
            assert forall|i: int| 0 <= i < t.len() implies t[i].0 != q by {
                assert(t[i].0 == s[i].0 || i == p);
            }
        }
    }
}

proof fn lemma_unique_index(s: Seq<(Seq<char>, Seq<char>)>, p: int, k: Seq<char>)
    requires
        keys_sorted(s),
        0 <= p < s.len(),
        s[p].0 == k,
    ensures
        entry_get(s, k) == Some(s[p].1),
{
    assert(0 <= p < s.len() && s[p].0 == k);
    let c = choose|c: int| 0 <= c < s.len() && s[c].0 == k;
    lemma_seq_lt_irrefl(k);
    if c < p {
        assert(seq_lt(s[c].0, s[p].0));
    } else if c > p {
        assert(seq_lt(s[p].0, s[c].0));
    }
    assert(c == p);
}

proof fn lemma_get_after_insert(s: Seq<(Seq<char>, Seq<char>)>, p: int, k: Seq<char>, v: Seq<char>)
    requires
        keys_sorted(s),
        0 <= p <= s.len(),
        forall|j: int| 0 <= j < p ==> seq_lt(#[trigger] s[j].0, k),
        forall|j: int| p <= j < s.len() ==> !seq_lt(#[trigger] s[j].0, k),
        p < s.len() ==> s[p].0 != k,
    ensures
        keys_sorted(s.insert(p, (k, v))),
        entry_get(s.insert(p, (k, v)), k) == Some(v),
        entry_get(s, k) is None,
        forall|q: Seq<char>| q != k ==> entry_get(s.insert(p, (k, v)), q) == entry_get(s, q),
{
    let t = s.insert(p, (k, v));
    assert forall|j: int| p <= j < s.len() implies seq_lt(k, #[trigger] s[j].0) by {
        if j == p {
            lemma_seq_lt_total(s[p].0, k);
        } else {
            assert(seq_lt(s[p].0, s[j].0));
            lemma_seq_lt_total(s[p].0, k);
            lemma_seq_lt_trans(k, s[p].0, s[j].0);
        }
    }
    assert forall|i: int, j: int| 0 <= i < j < t.len() implies seq_lt(#[trigger] t[i].0, #[trigger] t[j].0) by {
        if j < p {
            assert(t[i] == s[i] && t[j] == s[j]);
        } else if j == p {
            assert(t[i] == s[i]);
        } else if i < p {
            assert(t[i] == s[i] && t[j] == s[j - 1]);
            assert(seq_lt(s[i].0, k));
            assert(seq_lt(k, s[j - 1].0));
            lemma_seq_lt_trans(s[i].0, k, s[j - 1].0);
        } else if i == p {
            assert(t[j] == s[j - 1]);
        } else {
            assert(t[i] == s[i - 1] && t[j] == s[j - 1]);
        }
    }
    lemma_unique_index(t, p, k);
    assert forall|i: int| 0 <= i < s.len() implies s[i].0 != k by {
        if i < p {
            lemma_seq_lt_irrefl(k);
        } else {
            lemma_seq_lt_irrefl(k);
        }
    }
    assert forall|q: Seq<char>| q != k implies entry_get(t, q) == entry_get(s, q) by {
        if exists|i: int| 0 <= i < s.len() && s[i].0 == q {
            let i = choose|i: int| 0 <= i < s.len() && s[i].0 == q;
            lemma_unique_index(s, i, q);
            if i < p {
                assert(t[i] == s[i]);
                lemma_unique_index(t, i, q);
            } else {
                assert(t[i + 1] == s[i]);
                lemma_unique_index(t, i + 1, q);
            }
        } else {
            assert forall|i: int| 0 <= i < t.len() implies t[i].0 != q by {
                if i < p {
                    assert(t[i] == s[i]);
                } else if i > p {
                    assert(t[i] == s[i - 1]);
                }
            }
        }
    }
}

/// Whether the sequence strictly increases.
pub open spec fn strictly_sorted(a: Seq<Seq<char>>) -> bool {
    forall|i: int, j: int| 0 <= i < j < a.len() ==> seq_lt(#[trigger] a[i], #[trigger] a[j])
}

/// Two strictly increasing sequences with the same elements are equal.
pub proof fn lemma_sorted_unique(a: Seq<Seq<char>>, b: Seq<Seq<char>>)
    requires
        strictly_sorted(a),
        strictly_sorted(b),
        forall|k: Seq<char>| a.contains(k) <==> b.contains(k),
    ensures
        a == b,
    decreases a.len(),
{
    if a.len() == 0 {
        if b.len() > 0 {
            assert(b.contains(b[0]));
        }
        assert(a =~= b);
    } else {
        assert(a.contains(a[0]));
        assert(b.len() > 0);
        assert(b.contains(b[0]));
        let a0 = a[0];
        let b0 = b[0];
        if a0 != b0 {
            let j = choose|j: int| 0 <= j < b.len() && b[j] == a0;
            let i = choose|i: int| 0 <= i < a.len() && a[i] == b0;
            assert(j > 0);
            assert(i > 0);
            assert(seq_lt(b0, a0));
            assert(seq_lt(a0, b0));
            lemma_seq_lt_trans(a0, b0, a0);
            lemma_seq_lt_irrefl(a0);
        }
        let a1 = a.skip(1);
        let b1 = b.skip(1);
        assert forall|k: Seq<char>| a1.contains(k) <==> b1.contains(k) by {
            if a1.contains(k) {
                let i = choose|i: int| 0 <= i < a1.len() && a1[i] == k;
                assert(a[i + 1] == k);
                assert(seq_lt(a0, k));
                lemma_seq_lt_irrefl(k);
                assert(b.contains(k));
                let j = choose|j: int| 0 <= j < b.len() && b[j] == k;
                assert(j != 0);
                assert(b1[j - 1] == k);
            }
            if b1.contains(k) {
                let i = choose|i: int| 0 <= i < b1.len() && b1[i] == k;
                assert(b[i + 1] == k);
                assert(seq_lt(b0, k));
                lemma_seq_lt_irrefl(k);
                assert(a.contains(k));
                let j = choose|j: int| 0 <= j < a.len() && a[j] == k;
                assert(j != 0);
                assert(a1[j - 1] == k);
            }
        }
        assert forall|i: int, j: int| 0 <= i < j < a1.len() implies seq_lt(#[trigger] a1[i], #[trigger] a1[j]) by {
            assert(a1[i] == a[i + 1] && a1[j] == a[j + 1]);
        }
        assert forall|i: int, j: int| 0 <= i < j < b1.len() implies seq_lt(#[trigger] b1[i], #[trigger] b1[j]) by {
            assert(b1[i] == b[i + 1] && b1[j] == b[j + 1]);
        }
        lemma_sorted_unique(a1, b1);
        assert(a =~= seq![a0] + a1);
        assert(b =~= seq![b0] + b1);
    }
}

impl Clone for TypeAliases {
    fn clone(&self) -> (r: Self)
        ensures
            r.view() == self.view(),
    {
        proof {
            use_type_invariant(self);
        }
        let mut entries: Vec<(String, String)> = Vec::new();
        let mut i: usize = 0;
        while i < self.entries.len()
            invariant
                i <= self.entries@.len(),
                entries@.map_values(|e: (String, String)| (e.0@, e.1@)) == self.view().take(
                    i as int,
                ),
            decreases self.entries.len() - i,
        {
            let e = &self.entries[i];
            let pair = (e.0.clone(), e.1.clone());
            proof {
                assert(self.view()[i as int] == (pair.0@, pair.1@));
                assert(self.view().take(i + 1) =~= self.view().take(i as int).push((pair.0@, pair.1@)));
                assert(entries@.push(pair).map_values(|e: (String, String)| (e.0@, e.1@))
                    =~= entries@.map_values(|e: (String, String)| (e.0@, e.1@)).push((pair.0@, pair.1@)));
            }
            entries.push(pair);
            i += 1;
        }
        assert(self.view().take(self.entries@.len() as int) =~= self.view());
        TypeAliases { entries }
    }
}

impl Default for TypeAliases {
    fn default() -> (r: Self)
        ensures
            r.view() == Seq::<(Seq<char>, Seq<char>)>::empty(),
    {
        TypeAliases::new()
    }
}

} // verus!
