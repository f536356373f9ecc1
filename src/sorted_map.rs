//! A map from string keys to values, kept sorted by key.
//!
//! Keeping one canonical order makes equality of two maps the equality of
//! their entries, and gives serialization a deterministic order.

use crate::text::chars_of;
use vstd::prelude::*;

verus! {

/// Lexicographic order on character sequences, comparing code points
/// (the order of `String`'s `Ord`).
pub open spec fn key_lt(a: Seq<char>, b: Seq<char>) -> bool
    decreases a.len(),
{
    if a.len() == 0 {
        b.len() > 0
    } else if b.len() == 0 {
        false
    } else if a[0] != b[0] {
        a[0] < b[0]
    } else {
        key_lt(a.drop_first(), b.drop_first())
    }
}

pub proof fn lemma_key_lt_irreflexive(a: Seq<char>)
    ensures
        !key_lt(a, a),
    decreases a.len(),
{
    if a.len() > 0 {
        lemma_key_lt_irreflexive(a.drop_first());
    }
}

pub proof fn lemma_key_lt_transitive(a: Seq<char>, b: Seq<char>, c: Seq<char>)
    requires
        key_lt(a, b),
        key_lt(b, c),
    ensures
        key_lt(a, c),
    decreases a.len(),
{
    if a.len() > 0 && b.len() > 0 && c.len() > 0 {
        if a[0] == b[0] && b[0] == c[0] {
            lemma_key_lt_transitive(a.drop_first(), b.drop_first(), c.drop_first());
        }
    }
}

pub proof fn lemma_key_lt_total(a: Seq<char>, b: Seq<char>)
    requires
        a != b,
    ensures
        key_lt(a, b) || key_lt(b, a),
    decreases a.len(),
{
    if a.len() > 0 && b.len() > 0 && a[0] == b[0] {
        if a.drop_first() == b.drop_first() {
            assert(a =~= seq![a[0]] + a.drop_first());
            assert(b =~= seq![b[0]] + b.drop_first());
        }
        lemma_key_lt_total(a.drop_first(), b.drop_first());
    } else if a.len() == 0 && b.len() == 0 {
        assert(a =~= b);
    }
}

/// Whether `a` comes before `b` in key order.
pub fn key_less(a: &str, b: &str) -> (r: bool)
    ensures
        r == key_lt(a@, b@),
{
    let x = chars_of(a);
    let y = chars_of(b);
    let mut i: usize = 0;
    assert(x@.subrange(0, x@.len() as int) =~= x@);
    assert(y@.subrange(0, y@.len() as int) =~= y@);
    while i < x.len() && i < y.len() && x[i] == y[i]
        invariant
            i <= x@.len(),
            i <= y@.len(),
            key_lt(a@, b@) == key_lt(x@.subrange(i as int, x@.len() as int), y@.subrange(i as int, y@.len() as int)),
        decreases x@.len() - i,
    {
        assert(x@.subrange(i as int, x@.len() as int).drop_first() =~= x@.subrange(i + 1, x@.len() as int));
        assert(y@.subrange(i as int, y@.len() as int).drop_first() =~= y@.subrange(i + 1, y@.len() as int));
        i += 1;
    }
    if i == x.len() {
        i < y.len()
    } else if i == y.len() {
        false
    } else {
        x[i] < y[i]
    }
}

/// Entries whose keys strictly increase.
pub open spec fn sorted<V>(s: Seq<(Seq<char>, V)>) -> bool {
    forall|i: int, j: int| 0 <= i < j < s.len() ==> key_lt(#[trigger] s[i].0, #[trigger] s[j].0)
}

/// Some entry of `s` has key `k`.
pub open spec fn has_key<V>(s: Seq<(Seq<char>, V)>, k: Seq<char>) -> bool {
    exists|i: int| 0 <= i < s.len() && #[trigger] s[i].0 == k
}

/// A position of an entry of `s` with key `k`, where there is one.
pub open spec fn key_index<V>(s: Seq<(Seq<char>, V)>, k: Seq<char>) -> int {
    choose|i: int| 0 <= i < s.len() && #[trigger] s[i].0 == k
}

/// The value under `k` in `s`.
pub open spec fn lookup<V>(s: Seq<(Seq<char>, V)>, k: Seq<char>) -> Option<V> {
    if has_key(s, k) {
        Some(s[key_index(s, k)].1)
    } else {
        None
    }
}

/// The map that the entries `s` describe.
pub open spec fn to_map<V>(s: Seq<(Seq<char>, V)>) -> Map<Seq<char>, V> {
    Map::new(|k: Seq<char>| has_key(s, k), |k: Seq<char>| lookup(s, k).unwrap())
}

pub proof fn lemma_sorted_unique<V>(s: Seq<(Seq<char>, V)>, i: int, j: int)
    requires
        sorted(s),
        0 <= i < s.len(),
        0 <= j < s.len(),
        s[i].0 == s[j].0,
    ensures
        i == j,
{
    if i < j {
        lemma_key_lt_irreflexive(s[i].0);
    } else if j < i {
        lemma_key_lt_irreflexive(s[i].0);
    }
}

pub proof fn lemma_lookup_at<V>(s: Seq<(Seq<char>, V)>, idx: int)
    requires
        sorted(s),
        0 <= idx < s.len(),
    ensures
        lookup(s, s[idx].0) == Some(s[idx].1),
{
    let k = s[idx].0;
    assert(has_key(s, k)) by {
        assert(0 <= idx < s.len() && s[idx].0 == k);
    }
    let j = key_index(s, k);
    lemma_sorted_unique(s, idx, j);
}

/// A string-keyed map whose entries are kept sorted by key.
#[derive(Debug, Clone, PartialEq, Eq)]
pub struct SortedMap<V> {
    entries: Vec<(String, V)>,
}

impl<V> SortedMap<V> {
    /// The entries as (key, value) pairs, in key order.
    pub closed spec fn entries(&self) -> Seq<(Seq<char>, V)> {
        self.entries@.map_values(|e: (String, V)| (e.0@, e.1))
    }

    pub closed spec fn wf(&self) -> bool {
        sorted(self.entries())
    }

    pub open spec fn view(&self) -> Map<Seq<char>, V> {
        to_map(self.entries())
    }

    /// A well-formed map has its entries in strictly increasing key order.
    pub proof fn lemma_sorted(&self)
        requires
            self.wf(),
        ensures
            sorted(self.entries()),
    {
    }

    pub fn new() -> (r: Self)
        ensures
            r.wf(),
            r.entries() == Seq::<(Seq<char>, V)>::empty(),
    {
        let r = SortedMap { entries: Vec::new() };
        assert(r.entries() =~= Seq::<(Seq<char>, V)>::empty());
        r
    }

    pub fn len(&self) -> (r: usize)
        ensures
            r == self.entries().len(),
    {
        self.entries.len()
    }

    pub fn key_at(&self, i: usize) -> (r: &String)
        requires
            i < self.entries().len(),
        ensures
            r@ == self.entries()[i as int].0,
    {
        &self.entries[i].0
    }

    pub fn value_at(&self, i: usize) -> (r: &V)
        requires
            i < self.entries().len(),
        ensures
            *r == self.entries()[i as int].1,
    {
        &self.entries[i].1
    }

    /// The position of the first entry whose key is not below `key`.
    fn position(&self, key: &str) -> (r: usize)
        requires
            self.wf(),
        ensures
            r <= self.entries().len(),
            forall|j: int| 0 <= j < r ==> key_lt(#[trigger] self.entries()[j].0, key@),
            r < self.entries().len() ==> !key_lt(self.entries()[r as int].0, key@),
    {
        let mut i: usize = 0;
        while i < self.entries.len() && key_less(self.entries[i].0.as_str(), key)
            invariant
                i <= self.entries().len(),
                self.entries@.len() == self.entries().len(),
                forall|j: int| 0 <= j < i ==> key_lt(#[trigger] self.entries()[j].0, key@),
            decreases self.entries@.len() - i,
        {
            i += 1;
        }
        i
    }

    /// The value stored under `key`.
    pub fn get(&self, key: &str) -> (r: Option<&V>)
        requires
            self.wf(),
        ensures
            match r {
                Some(v) => lookup(self.entries(), key@) == Some(*v),
                None => lookup(self.entries(), key@) is None,
            },
    {
        let i = self.position(key);
        if i < self.entries.len() && !key_less(key, self.entries[i].0.as_str()) {
            proof {
                if self.entries()[i as int].0 != key@ {
                    lemma_key_lt_total(self.entries()[i as int].0, key@);
                }
            }
            proof {
                lemma_lookup_at(self.entries(), i as int);
            }
            Some(&self.entries[i].1)
        } else {
            proof {
                if i < self.entries().len() {
                    lemma_key_lt_irreflexive(key@);
                }
                if has_key(self.entries(), key@) {
                    let j = choose|j: int| 0 <= j < self.entries().len() && #[trigger] self.entries()[j].0 == key@;
                    lemma_key_lt_irreflexive(key@);
                    if j >= i {
                        if j > i {
                            lemma_key_lt_total(self.entries()[i as int].0, key@);
                        }
                    }
                }
            }
            None
        }
    }

    /// Stores `value` under `key`, replacing what was there.
    pub fn insert(&mut self, key: String, value: V)
        requires
            old(self).wf(),
        ensures
            final(self).wf(),
            final(self).view() == old(self).view().insert(key@, value),
            forall|k: Seq<char>| #[trigger] lookup(final(self).entries(), k) == if k == key@ {
                Some(value)
            } else {
                lookup(old(self).entries(), k)
            },
    {
        let i = self.position(key.as_str());
        let ghost old_entries = self.entries();
        let ghost k = key@;
        if i < self.entries.len() && !key_less(key.as_str(), self.entries[i].0.as_str()) {
            proof {
                if old_entries[i as int].0 != k {
                    lemma_key_lt_total(old_entries[i as int].0, k);
                }
            }
            self.entries.remove(i);
            self.entries.insert(i, (key, value));
            assert(self.entries() =~= old_entries.update(i as int, (k, value)));
        } else {
            proof {
                if i < old_entries.len() {
                    lemma_key_lt_irreflexive(k);
                }
            }
            self.entries.insert(i, (key, value));
            assert(self.entries() =~= old_entries.insert(i as int, (k, value)));
        }
        let ghost new_entries = self.entries();
        proof {
            assert forall|a: int, b: int| 0 <= a < b < new_entries.len() implies key_lt(
                #[trigger] new_entries[a].0,
                #[trigger] new_entries[b].0,
            ) by {
                if i < old_entries.len() && b > i as int && a < i as int && new_entries.len() > old_entries.len() {
                    lemma_key_lt_transitive(new_entries[a].0, k, old_entries[i as int].0);
                    if b > i + 1 {
                        lemma_key_lt_transitive(new_entries[a].0, old_entries[i as int].0, new_entries[b].0);
                    }
                } else if a == i as int && b > i as int && new_entries.len() > old_entries.len() {
                    if b > i + 1 {
                        lemma_key_lt_transitive(k, old_entries[i as int].0, new_entries[b].0);
                    }
                }
            }
            assert forall|q: Seq<char>| #[trigger] lookup(new_entries, q) == if q == k {
                Some(value)
            } else {
                lookup(old_entries, q)
            } by {
                lemma_lookup_at(new_entries, i as int);
                if q != k {
                    if has_key(old_entries, q) {
                        let j = choose|j: int| 0 <= j < old_entries.len() && #[trigger] old_entries[j].0 == q;
                        lemma_lookup_at(old_entries, j);
                        if new_entries.len() > old_entries.len() && j >= i {
                            assert(new_entries[j + 1] == old_entries[j]);
                            lemma_lookup_at(new_entries, j + 1);
                        } else {
                            assert(new_entries[j] == old_entries[j]);
                            lemma_lookup_at(new_entries, j);
                        }
                    } else if has_key(new_entries, q) {
                        let j = choose|j: int| 0 <= j < new_entries.len() && #[trigger] new_entries[j].0 == q;
                        if new_entries.len() > old_entries.len() && j > i {
                            assert(old_entries[j - 1] == new_entries[j]);
                        } else if j != i {
                            assert(old_entries[j] == new_entries[j]);
                        }
                    }
                }
            }
            assert forall|q: Seq<char>| #[trigger] has_key(new_entries, q) == (q == k || has_key(old_entries, q)) by {
                assert(lookup(new_entries, q) == if q == k { Some(value) } else { lookup(old_entries, q) });
            }
            assert(self.view() =~= old(self).view().insert(k, value));
        }
    }
}

/// Mapping the values of sorted entries keeps them sorted, and maps the values of the map they describe.
pub proof fn lemma_map_entry_values<V, W>(s: Seq<(Seq<char>, V)>, t: Seq<(Seq<char>, W)>, f: spec_fn(V) -> W)
    requires
        sorted(s),
        t.len() == s.len(),
        forall|i: int| 0 <= i < s.len() ==> #[trigger] t[i] == (s[i].0, f(s[i].1)),
    ensures
        sorted(t),
        to_map(t) == to_map(s).map_values(f),
{
    assert forall|i: int, j: int| 0 <= i < j < t.len() implies key_lt(#[trigger] t[i].0, #[trigger] t[j].0) by {
        assert(key_lt(s[i].0, s[j].0));
    }
    assert forall|k: Seq<char>| #[trigger] has_key(t, k) == has_key(s, k) by {
        if has_key(t, k) {
            let i = key_index(t, k);
            assert(s[i].0 == k);
        }
        if has_key(s, k) {
            let i = key_index(s, k);
            assert(t[i].0 == k);
        }
    }
    assert forall|k: Seq<char>| has_key(s, k) implies #[trigger] lookup(t, k) == Some(f(lookup(s, k).unwrap())) by {
        let i = key_index(s, k);
        lemma_lookup_at(s, i);
        lemma_lookup_at(t, i);
    }
    assert(to_map(t) =~= to_map(s).map_values(f));
}

} // verus!
