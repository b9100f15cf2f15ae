//! A small association map (a vector of key/value pairs with distinct keys)
//! and sums over sequences, used as the keyed storage of the ledgers and
//! indices of this crate.
//!
//! The keys here are symbols, agent ids and (symbol, threshold) pairs.
//! vstd's specifications of `HashMap` and `BTreeMap` describe lookups only
//! for keys whose equality and hashing or ordering Verus can read, which is
//! not the case for `String` keys or for derived impls on the crate's own
//! types; this map compares keys through `MapKey::key_eq`, whose contract
//! ties it to the keys' views. Where an order matters (price thresholds),
//! the index sorts what it reports rather than relying on storage order.
use vstd::prelude::*;

use crate::market::{AgentId, Symbol};

verus! {

/// Keys that can be compared for equality of their views.
pub trait MapKey: View + Sized {
    fn key_eq(&self, other: &Self) -> (b: bool)
        ensures
            b == (self@ == other@),
    ;
}

impl MapKey for Symbol {
    fn key_eq(&self, other: &Self) -> (b: bool) {
        *self == *other
    }
}

impl MapKey for AgentId {
    fn key_eq(&self, other: &Self) -> (b: bool) {
        self.0 == other.0
    }
}

/// Sum of `f` over the elements of `s`.
pub open spec fn sum_by<A>(s: Seq<A>, f: spec_fn(A) -> int) -> int
    decreases s.len(),
{
    if s.len() == 0 {
        0
    } else {
        sum_by(s.drop_last(), f) + f(s.last())
    }
}

/// Appending an element adds its value to the sum.
pub proof fn lemma_sum_push<A>(s: Seq<A>, e: A, f: spec_fn(A) -> int)
    ensures
        sum_by(s.push(e), f) == sum_by(s, f) + f(e),
{
    assert(s.push(e).drop_last() =~= s);
}

/// Replacing one element changes the sum by the difference of the values.
pub proof fn lemma_sum_update<A>(s: Seq<A>, i: int, e: A, f: spec_fn(A) -> int)
    requires
        0 <= i < s.len(),
    ensures
        sum_by(s.update(i, e), f) == sum_by(s, f) - f(s[i]) + f(e),
    decreases s.len(),
{
    if i == s.len() - 1 {
        assert(s.update(i, e).drop_last() =~= s.drop_last());
    } else {
        lemma_sum_update(s.drop_last(), i, e, f);
        assert(s.update(i, e).drop_last() =~= s.drop_last().update(i, e));
    }
}

/// Removing one element subtracts its value from the sum.
pub proof fn lemma_sum_remove<A>(s: Seq<A>, i: int, f: spec_fn(A) -> int)
    requires
        0 <= i < s.len(),
    ensures
        sum_by(s.remove(i), f) == sum_by(s, f) - f(s[i]),
    decreases s.len(),
{
    if i == s.len() - 1 {
        assert(s.remove(i) =~= s.drop_last());
    } else {
        lemma_sum_remove(s.drop_last(), i, f);
        assert(s.remove(i).drop_last() =~= s.drop_last().remove(i));
    }
}

/// When `f` is non-negative, each element's value is bounded by the sum.
pub proof fn lemma_sum_nonneg<A>(s: Seq<A>, f: spec_fn(A) -> int)
    requires
        forall|j: int| 0 <= j < s.len() ==> f(#[trigger] s[j]) >= 0,
    ensures
        sum_by(s, f) >= 0,
        forall|j: int| 0 <= j < s.len() ==> f(#[trigger] s[j]) <= sum_by(s, f),
    decreases s.len(),
{
    if s.len() > 0 {
        lemma_sum_nonneg(s.drop_last(), f);
        assert forall|j: int| 0 <= j < s.len() implies f(#[trigger] s[j]) <= sum_by(s, f) by {
            if j < s.len() - 1 {
                assert(s.drop_last()[j] == s[j]);
            }
        }
    }
}

/// For non-negative `f`, the sum over a prefix is bounded by the whole sum.
pub proof fn lemma_sum_prefix<A>(s: Seq<A>, i: int, f: spec_fn(A) -> int)
    requires
        0 <= i <= s.len(),
        forall|j: int| 0 <= j < s.len() ==> f(#[trigger] s[j]) >= 0,
    ensures
        0 <= sum_by(s.take(i), f) <= sum_by(s, f),
        i < s.len() ==> sum_by(s.take(i + 1), f) == sum_by(s.take(i), f) + f(s[i]),
    decreases s.len() - i,
{
    if i < s.len() {
        assert(s.take(i + 1).drop_last() =~= s.take(i));
        lemma_sum_prefix(s, i + 1, f);
        assert forall|j: int| 0 <= j < s.take(i).len() implies f(#[trigger] s.take(i)[j]) >= 0 by {
            assert(s.take(i)[j] == s[j]);
        }
        lemma_sum_nonneg(s.take(i), f);
    } else {
        assert(s.take(i) =~= s);
        lemma_sum_nonneg(s, f);
    }
}

/// A function that vanishes on every element sums to zero.
pub proof fn lemma_sum_zero<A>(s: Seq<A>, f: spec_fn(A) -> int)
    requires
        forall|j: int| 0 <= j < s.len() ==> f(#[trigger] s[j]) == 0,
    ensures
        sum_by(s, f) == 0,
    decreases s.len(),
{
    if s.len() > 0 {
        assert forall|j: int| 0 <= j < s.drop_last().len() implies f(#[trigger] s.drop_last()[j]) == 0 by {
            assert(s.drop_last()[j] == s[j]);
        }
        lemma_sum_zero(s.drop_last(), f);
    }
}

/// Two functions that agree on every element give the same sum.
pub proof fn lemma_sum_congruent<A>(s: Seq<A>, f: spec_fn(A) -> int, g: spec_fn(A) -> int)
    requires
        forall|j: int| 0 <= j < s.len() ==> f(#[trigger] s[j]) == g(s[j]),
    ensures
        sum_by(s, f) == sum_by(s, g),
    decreases s.len(),
{
    if s.len() > 0 {
        assert forall|j: int| 0 <= j < s.drop_last().len() implies f(#[trigger] s.drop_last()[j])
            == g(s.drop_last()[j]) by {
            assert(s.drop_last()[j] == s[j]);
        }
        lemma_sum_congruent(s.drop_last(), f, g);
    }
}

/// An association map with distinct keys, stored in insertion order.
#[derive(Debug)]
pub struct AssocMap<K, T> {
    entries: Vec<(K, T)>,
}

impl<K: MapKey, T> AssocMap<K, T> {
    /// The stored pairs, in storage order.
    pub closed spec fn pairs(self) -> Seq<(K, T)> {
        self.entries@
    }

    /// The views of the stored keys, in storage order.
    pub open spec fn keys(self) -> Seq<K::V> {
        self.pairs().map_values(|e: (K, T)| e.0@)
    }

    /// Keys are distinct.
    pub open spec fn wf(self) -> bool {
        self.keys().no_duplicates()
    }

    /// The map from key views to values.
    pub open spec fn map(self) -> Map<K::V, T> {
        Map::new(
            |k: K::V| self.keys().contains(k),
            |k: K::V| self.pairs()[self.keys().index_of(k)].1,
        )
    }

    /// In a well-formed map, every stored pair is what the map holds at its key.
    pub proof fn lemma_pairs_in_map(self)
        requires
            self.wf(),
        ensures
            forall|i: int|
                0 <= i < self.pairs().len() ==> #[trigger] self.map().contains_key(self.pairs()[i].0@)
                    && self.map()[self.pairs()[i].0@] == self.pairs()[i].1,
            self.map().dom().finite(),
            self.map().dom().len() == self.pairs().len(),
    {
        assert forall|i: int| 0 <= i < self.pairs().len() implies #[trigger] self.map().contains_key(
            self.pairs()[i].0@,
        ) && self.map()[self.pairs()[i].0@] == self.pairs()[i].1 by {
            assert(self.keys()[i] == self.pairs()[i].0@);
            assert(self.keys().contains(self.pairs()[i].0@));
            let j = self.keys().index_of(self.pairs()[i].0@);
            assert(self.keys()[j] == self.keys()[i]);
        }
        assert(self.map().dom() =~= self.keys().to_set());
        self.keys().unique_seq_to_set();
    }

    /// An empty map.
    pub fn new() -> (m: Self)
        ensures
            m.pairs() == Seq::<(K, T)>::empty(),
            m.wf(),
            m.map() == Map::<K::V, T>::empty(),
    {
        let m = AssocMap { entries: Vec::new() };
        assert(m.map() =~= Map::<K::V, T>::empty());
        m
    }

    /// Number of entries.
    pub fn len(&self) -> (n: usize)
        ensures
            n == self.pairs().len(),
    {
        self.entries.len()
    }

    /// Storage position of a key, if present.
    pub fn find(&self, k: &K) -> (r: Option<usize>)
        requires
            self.wf(),
        ensures
            match r {
                Some(i) => i < self.pairs().len() && self.pairs()[i as int].0@ == k@
                    && self.keys().index_of(k@) == i && self.keys().contains(k@)
                    && self.map().contains_key(k@) && self.map()[k@] == self.pairs()[i as int].1,
                None => !self.keys().contains(k@) && !self.map().contains_key(k@),
            },
    {
        let mut i: usize = 0;
        while i < self.entries.len()
            invariant
                self.wf(),
                i <= self.entries@.len(),
                forall|j: int| 0 <= j < i ==> self.entries@[j].0@ != k@,
            decreases self.entries@.len() - i,
        {
            if self.entries[i].0.key_eq(k) {
                proof {
                    assert(self.keys()[i as int] == k@);
                    assert(self.keys().contains(k@));
                    let j = self.keys().index_of(k@);
                    assert(self.keys()[j] == k@);
                }
                return Some(i);
            }
            i += 1;
        }
        proof {
            if self.keys().contains(k@) {
                let j = self.keys().index_of(k@);
                assert(self.keys()[j] == k@);
                assert(self.entries@[j].0@ == k@);
            }
        }
        None
    }

    /// Key stored at a position.
    pub fn key_at(&self, i: usize) -> (k: &K)
        requires
            i < self.pairs().len(),
        ensures
            *k == self.pairs()[i as int].0,
    {
        &self.entries[i].0
    }

    /// Value stored at a position.
    pub fn value_at(&self, i: usize) -> (v: &T)
        requires
            i < self.pairs().len(),
        ensures
            *v == self.pairs()[i as int].1,
    {
        &self.entries[i].1
    }

    /// Mutable access to the value stored at a position.
    pub fn value_at_mut(&mut self, i: usize) -> (v: &mut T)
        requires
            i < old(self).pairs().len(),
        ensures
            *v == old(self).pairs()[i as int].1,
            final(self).pairs() == old(self).pairs().update(i as int, (old(self).pairs()[i as int].0, *final(v))),
    {
        &mut self.entries[i].1
    }

    /// The value at a key, if present.
    pub fn get(&self, k: &K) -> (r: Option<&T>)
        requires
            self.wf(),
        ensures
            r.is_some() == self.map().contains_key(k@),
            r matches Some(v) ==> *v == self.map()[k@],
    {
        match self.find(k) {
            Some(i) => Some(&self.entries[i].1),
            None => None,
        }
    }

    /// Insert or replace the value at a key; a new key goes at the end.
    pub fn insert(&mut self, k: K, v: T)
        requires
            old(self).wf(),
        ensures
            final(self).wf(),
            final(self).map() == old(self).map().insert(k@, v),
            old(self).keys().contains(k@) ==> final(self).pairs() == old(self).pairs().update(
                old(self).keys().index_of(k@),
                (k, v),
            ),
            !old(self).keys().contains(k@) ==> final(self).pairs() == old(self).pairs().push((k, v)),
    {
        let ghost kv = k@;
        match self.find(&k) {
            Some(i) => {
                self.entries.set(i, (k, v));
                proof {
                    assert(self.keys() =~= old(self).keys());
                    assert forall|key: K::V| #[trigger] self.map().contains_key(key)
                        <==> old(self).map().insert(kv, v).contains_key(key) by {}
                    assert forall|key: K::V| #[trigger] self.map().contains_key(key) implies self.map()[key]
                        == old(self).map().insert(kv, v)[key] by {
                        let j = self.keys().index_of(key);
                        assert(self.keys()[j] == key);
                        if key == kv {
                            assert(j == i);
                        } else {
                            assert(j != i);
                            assert(self.pairs()[j] == old(self).pairs()[j]);
                        }
                    }
                    assert(self.map() =~= old(self).map().insert(kv, v));
                }
            },
            None => {
                self.entries.push((k, v));
                proof {
                    assert(self.keys() =~= old(self).keys().push(kv));
                    assert forall|a: int, b: int|
                        0 <= a < b < self.keys().len() implies self.keys()[a] != self.keys()[b] by {
                        if b == self.keys().len() - 1 {
                            assert(old(self).keys()[a] == self.keys()[a]);
                            assert(old(self).keys().contains(self.keys()[a]));
                        }
                    }
                    assert forall|key: K::V| #[trigger] self.map().contains_key(key)
                        <==> old(self).map().insert(kv, v).contains_key(key) by {
                        let last = self.keys().len() - 1;
                        assert(self.keys()[last] == kv);
                        if old(self).keys().contains(key) {
                            let j = old(self).keys().index_of(key);
                            assert(self.keys()[j] == key);
                        }
                        if self.keys().contains(key) && key != kv {
                            let j = self.keys().index_of(key);
                            assert(j != last);
                            assert(old(self).keys()[j] == key);
                        }
                    }
                    assert forall|key: K::V| #[trigger] self.map().contains_key(key) implies self.map()[key]
                        == old(self).map().insert(kv, v)[key] by {
                        let j = self.keys().index_of(key);
                        assert(self.keys()[j] == key);
                        let last = self.keys().len() - 1;
                        if key == kv {
                            assert(self.keys()[last] == kv);
                            assert(j == last);
                        } else {
                            assert(j != last);
                            assert(old(self).keys()[j] == key);
                            assert(old(self).keys().contains(key));
                            let j2 = old(self).keys().index_of(key);
                            assert(old(self).keys()[j2] == key);
                            assert(j2 == j);
                        }
                    }
                    assert(self.map() =~= old(self).map().insert(kv, v));
                }
            },
        }
    }

    /// Remove a key, returning its value if it was present.
    pub fn remove(&mut self, k: &K) -> (r: Option<T>)
        requires
            old(self).wf(),
        ensures
            final(self).wf(),
            final(self).map() == old(self).map().remove(k@),
            r.is_some() == old(self).map().contains_key(k@),
            r matches Some(v) ==> v == old(self).map()[k@]
                && final(self).pairs() == old(self).pairs().remove(old(self).keys().index_of(k@)),
            r is None ==> final(self).pairs() == old(self).pairs(),
    {
        match self.find(k) {
            Some(i) => {
                let (_, v) = self.entries.remove(i);
                proof {
                    let ok = old(self).keys();
                    assert(self.keys() =~= ok.remove(i as int));
                    assert forall|a: int, b: int|
                        0 <= a < b < self.keys().len() implies self.keys()[a] != self.keys()[b] by {
                        let a2 = if a < i { a } else { a + 1 };
                        let b2 = if b < i { b } else { b + 1 };
                        assert(self.keys()[a] == ok[a2]);
                        assert(self.keys()[b] == ok[b2]);
                    }
                    assert forall|key: K::V| #[trigger] self.map().contains_key(key)
                        <==> old(self).map().remove(k@).contains_key(key) by {
                        if self.keys().contains(key) {
                            let j = self.keys().index_of(key);
                            let j2 = if j < i { j } else { j + 1 };
                            assert(ok[j2] == key);
                            assert(key != k@);
                        }
                        if key != k@ && ok.contains(key) {
                            let j = ok.index_of(key);
                            assert(j != i);
                            let j2 = if j < i { j } else { j - 1 };
                            assert(self.keys()[j2] == key);
                        }
                    }
                    assert forall|key: K::V| #[trigger] self.map().contains_key(key) implies self.map()[key]
                        == old(self).map().remove(k@)[key] by {
                        let j = self.keys().index_of(key);
                        let j2 = if j < i { j } else { j + 1 };
                        assert(ok[j2] == key);
                        let j3 = ok.index_of(key);
                        assert(ok[j3] == key);
                        assert(j3 == j2);
                    }
                    assert(self.map() =~= old(self).map().remove(k@));
                }
                Some(v)
            },
            None => {
                assert(self.map() =~= old(self).map().remove(k@));
                None
            },
        }
    }

    /// Replacing the pair at a position by one with the same key view updates
    /// the map at that key.
    pub proof fn lemma_update_at(old_map: Self, new_map: Self, i: int, e: (K, T))
        requires
            old_map.wf(),
            0 <= i < old_map.pairs().len(),
            e.0@ == old_map.pairs()[i].0@,
            new_map.pairs() == old_map.pairs().update(i, e),
        ensures
            new_map.wf(),
            new_map.keys() == old_map.keys(),
            new_map.map() == old_map.map().insert(e.0@, e.1),
    {
        assert(new_map.keys() =~= old_map.keys());
        assert(old_map.keys()[i] == e.0@);
        assert forall|key: K::V| #[trigger] new_map.map().contains_key(key)
            <==> old_map.map().insert(e.0@, e.1).contains_key(key) by {}
        assert forall|key: K::V| #[trigger] new_map.map().contains_key(key) implies new_map.map()[key]
            == old_map.map().insert(e.0@, e.1)[key] by {
            let j = new_map.keys().index_of(key);
            assert(new_map.keys()[j] == key);
            if key == e.0@ {
                assert(new_map.keys()[i] == key);
                assert(j == i);
            } else {
                assert(j != i);
            }
        }
        assert(new_map.map() =~= old_map.map().insert(e.0@, e.1));
    }
}

} // verus!
