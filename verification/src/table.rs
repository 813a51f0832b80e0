//! A keyed table of entries, at most one for each key: the store that the
//! token ledger and the seat registry keep their entries in.

use crate::host::same_address;
use soroban_sdk::Address;
use vstd::prelude::*;

verus! {

/// A key of a table: a value that can be told from another of its kind.
pub trait Key: Sized {
    /// Whether `self` and `other` are the same key.
    fn same(&self, other: &Self) -> (r: bool)
        ensures
            r == (*self == *other),
    ;
}

impl Key for u32 {
    fn same(&self, other: &Self) -> (r: bool) {
        *self == *other
    }
}

impl Key for Address {
    fn same(&self, other: &Self) -> (r: bool) {
        same_address(self, other)
    }
}

impl<A: Key, B: Key> Key for (A, B) {
    fn same(&self, other: &Self) -> (r: bool) {
        self.0.same(&other.0) && self.1.same(&other.1)
    }
}

/// Whether some entry of `entries` has the key `k`.
spec fn has_key<K, V>(entries: Seq<(K, V)>, k: K) -> bool {
    exists|i: int| 0 <= i < entries.len() && (#[trigger] entries[i]).0 == k
}

/// No two entries of `entries` have the same key.
spec fn distinct_keys<K, V>(entries: Seq<(K, V)>) -> bool {
    forall|i: int, j: int|
        0 <= i < j < entries.len() ==> (#[trigger] entries[i]).0 != (#[trigger] entries[j]).0
}

/// The place of an entry with the key `k`.
spec fn place_of<K, V>(entries: Seq<(K, V)>, k: K) -> int {
    choose|i: int| 0 <= i < entries.len() && (#[trigger] entries[i]).0 == k
}

/// The map from each key of `entries` to the value of its entry.
spec fn as_map<K, V>(entries: Seq<(K, V)>) -> Map<K, V> {
    Map::new(|k: K| has_key(entries, k), |k: K| entries[place_of(entries, k)].1)
}

/// With distinct keys, the entry at place `i` is the one that the map holds
/// for its key.
proof fn lemma_entry_in_map<K, V>(entries: Seq<(K, V)>, i: int)
    requires
        distinct_keys(entries),
        0 <= i < entries.len(),
    ensures
        as_map(entries).dom().contains(entries[i].0),
        as_map(entries)[entries[i].0] == entries[i].1,
        place_of(entries, entries[i].0) == i,
{
    let k = entries[i].0;
    assert(has_key(entries, k));
    let p = place_of(entries, k);
    assert(0 <= p < entries.len() && entries[p].0 == k);
    if p < i {
        assert(entries[p].0 != entries[i].0);
    } else if i < p {
        assert(entries[i].0 != entries[p].0);
    }
}

/// A table from keys to values. It reads as the map `self@`.
pub struct Table<K, V> {
    entries: Vec<(K, V)>,
}

impl<K, V> View for Table<K, V> {
    type V = Map<K, V>;

    closed spec fn view(&self) -> Map<K, V> {
        as_map(self.entries@)
    }
}

impl<K, V> Table<K, V> {
    #[verifier::type_invariant]
    spec fn keys_are_distinct(self) -> bool {
        distinct_keys(self.entries@)
    }
}

impl<K: Key, V> Table<K, V> {
    /// A table without entries.
    pub fn new() -> (table: Self)
        ensures
            table@ == Map::<K, V>::empty(),
    {
        let table = Table { entries: Vec::new() };
        assert(table@ =~= Map::<K, V>::empty());
        table
    }

    /// The place of the entry for `k`, if there is one.
    fn find(&self, k: &K) -> (r: Option<usize>)
        ensures
            match r {
                Some(i) => i < self.entries@.len() && self.entries@[i as int].0 == *k,
                None => !has_key(self.entries@, *k),
            },
    {
        let mut i: usize = 0;
        while i < self.entries.len()
            invariant
                i <= self.entries@.len(),
                forall|j: int| 0 <= j < i ==> (#[trigger] self.entries@[j]).0 != *k,
            decreases self.entries@.len() - i,
        {
            if self.entries[i].0.same(k) {
                return Some(i);
            }
            i += 1;
        }
        None
    }

    /// Whether the table has an entry for `k`.
    pub fn contains_key(&self, k: &K) -> (r: bool)
        ensures
            r == self@.dom().contains(*k),
    {
        self.find(k).is_some()
    }

    /// The value of the entry for `k`, or `None` where the table has none.
    pub fn get(&self, k: &K) -> (r: Option<&V>)
        ensures
            match r {
                Some(v) => self@.dom().contains(*k) && *v == self@[*k],
                None => !self@.dom().contains(*k),
            },
    {
        proof {
            use_type_invariant(self);
        }
        match self.find(k) {
            Some(i) => {
                proof {
                    lemma_entry_in_map(self.entries@, i as int);
                }
                Some(&self.entries[i].1)
            },
            None => None,
        }
    }

    /// Writes the entry for `k`: it holds `v` afterwards, in place of what the
    /// table held for `k` before, and every other entry stays.
    pub fn set(&mut self, k: K, v: V)
        ensures
            final(self)@ == old(self)@.insert(k, v),
    {
        proof {
            use_type_invariant(&*self);
        }
        let ghost before = self.entries@;
        match self.find(&k) {
            Some(i) => {
                let mut entries: Vec<(K, V)> = Vec::new();
                std::mem::swap(&mut self.entries, &mut entries);
                entries.set(i, (k, v));
                proof {
                    let after = entries@;
                    assert(distinct_keys(after)) by {
                        assert forall|a: int, b: int| 0 <= a < b < after.len() implies (
                        #[trigger] after[a]).0 != (#[trigger] after[b]).0 by {
                            assert(before[a].0 != before[b].0);
                        }
                    }
                    assert forall|j: K| #[trigger] has_key(after, j) <==> has_key(before, j) by {
                        if has_key(after, j) {
                            let p = place_of(after, j);
                            assert(before[p].0 == j);
                        }
                        if has_key(before, j) {
                            let p = place_of(before, j);
                            assert(after[p].0 == j);
                        }
                    }
                    assert forall|j: K| has_key(after, j) implies #[trigger] as_map(after)[j]
                        == as_map(before).insert(k, v)[j] by {
                        let p = place_of(after, j);
                        lemma_entry_in_map(after, p);
                        if p != i as int {
                            lemma_entry_in_map(before, p);
                        }
                    }
                    lemma_entry_in_map(before, i as int);
                    assert(as_map(after) =~= as_map(before).insert(k, v));
                }
                std::mem::swap(&mut self.entries, &mut entries);
            },
            None => {
                let mut entries: Vec<(K, V)> = Vec::new();
                std::mem::swap(&mut self.entries, &mut entries);
                entries.push((k, v));
                proof {
                    let after = entries@;
                    let n = before.len() as int;
                    assert(distinct_keys(after)) by {
                        assert forall|a: int, b: int| 0 <= a < b < after.len() implies (
                        #[trigger] after[a]).0 != (#[trigger] after[b]).0 by {
                            if b < n {
                                assert(before[a].0 != before[b].0);
                            } else {
                                assert(before[a].0 == after[a].0);
                                assert(!has_key(before, k));
                            }
                        }
                    }
                    assert forall|j: K| #[trigger] has_key(after, j) <==> (j == k || has_key(
                        before,
                        j,
                    )) by {
                        if has_key(after, j) {
                            let p = place_of(after, j);
                            if p < n {
                                assert(before[p].0 == j);
                            }
                        }
                        if has_key(before, j) {
                            let p = place_of(before, j);
                            assert(after[p].0 == j);
                        }
                        if j == k {
                            assert(after[n].0 == j);
                        }
                    }
                    assert forall|j: K| has_key(after, j) implies #[trigger] as_map(after)[j]
                        == as_map(before).insert(k, v)[j] by {
                        let p = place_of(after, j);
                        lemma_entry_in_map(after, p);
                        if p < n {
                            assert(before[p] == after[p]);
                            lemma_entry_in_map(before, p);
                        }
                    }
                    assert(as_map(after) =~= as_map(before).insert(k, v));
                }
                std::mem::swap(&mut self.entries, &mut entries);
            },
        }
    }

    /// Takes the entry for `k` out, and says whether there was one; every
    /// other entry stays.
    pub fn remove(&mut self, k: &K) -> (r: bool)
        ensures
            r == old(self)@.dom().contains(*k),
            final(self)@ == old(self)@.remove(*k),
    {
        proof {
            use_type_invariant(&*self);
        }
        let ghost before = self.entries@;
        match self.find(k) {
            Some(i) => {
                let mut entries: Vec<(K, V)> = Vec::new();
                std::mem::swap(&mut self.entries, &mut entries);
                entries.remove(i);
                proof {
                    let after = entries@;
                    let at = i as int;
                    assert forall|a: int| 0 <= a < after.len() implies #[trigger] after[a] == (
                    if a < at {
                        before[a]
                    } else {
                        before[a + 1]
                    }) by {}
                    assert(distinct_keys(after)) by {
                        assert forall|a: int, b: int| 0 <= a < b < after.len() implies (
                        #[trigger] after[a]).0 != (#[trigger] after[b]).0 by {
                            let a0 = if a < at { a } else { a + 1 };
                            let b0 = if b < at { b } else { b + 1 };
                            assert(before[a0].0 != before[b0].0);
                        }
                    }
                    lemma_entry_in_map(before, at);
                    assert forall|j: K| #[trigger] has_key(after, j) <==> (j != *k && has_key(
                        before,
                        j,
                    )) by {
                        if has_key(after, j) {
                            let p = place_of(after, j);
                            let p0 = if p < at { p } else { p + 1 };
                            assert(before[p0].0 == j);
                            if j == *k {
                                lemma_entry_in_map(before, p0);
                            }
                        }
                        if j != *k && has_key(before, j) {
                            let p0 = place_of(before, j);
                            let p = if p0 < at { p0 } else { p0 - 1 };
                            assert(after[p].0 == j);
                        }
                    }
                    assert forall|j: K| has_key(after, j) implies #[trigger] as_map(after)[j]
                        == as_map(before)[j] by {
                        let p = place_of(after, j);
                        let p0 = if p < at { p } else { p + 1 };
                        lemma_entry_in_map(after, p);
                        assert(before[p0] == after[p]);
                        lemma_entry_in_map(before, p0);
                    }
                    assert(as_map(after) =~= as_map(before).remove(*k));
                }
                std::mem::swap(&mut self.entries, &mut entries);
                true
            },
            None => {
                assert(self@ =~= old(self)@.remove(*k));
                false
            },
        }
    }
}

} // verus!
