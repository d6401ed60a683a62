//! Keyed ledger entries: a table that holds at most one value for each key.
use vstd::prelude::*;

use crate::account::Account;

verus! {

/// A type whose values can name a ledger entry.
pub trait EntryKey: Copy {
    /// Whether the two keys name the same entry.
    fn names_same(&self, other: &Self) -> (equal: bool)
        ensures
            equal == (*self == *other),
    ;
}

impl EntryKey for u64 {
    fn names_same(&self, other: &Self) -> (equal: bool) {
        *self == *other
    }
}

impl EntryKey for Account {
    fn names_same(&self, other: &Self) -> (equal: bool) {
        self.same(other)
    }
}

/// A table of ledger entries. Its view is the map from each key present to its value.
#[derive(Clone, Debug)]
#[verifier::reject_recursive_types(K)]
pub struct Entries<K, V> {
    keys: Vec<K>,
    values: Vec<V>,
}

impl<K, V> View for Entries<K, V> {
    type V = Map<K, V>;

    closed spec fn view(&self) -> Map<K, V> {
        Map::new(
            |k: K| self.keys@.contains(k),
            |k: K| self.values@[self.keys@.index_of(k)],
        )
    }
}

impl<K: EntryKey, V: Copy> Entries<K, V> {
    /// Every key has one value, and no key occurs twice.
    pub closed spec fn wf(&self) -> bool {
        &&& self.keys@.len() == self.values@.len()
        &&& self.keys@.no_duplicates()
    }

    /// A table without entries.
    pub fn new() -> (entries: Self)
        ensures
            entries.wf(),
            entries@ == Map::<K, V>::empty(),
    {
        let entries = Entries { keys: Vec::new(), values: Vec::new() };
        assert(entries@ =~= Map::<K, V>::empty());
        entries
    }

    /// Where the key stands in the table, if it does.
    fn position(&self, key: &K) -> (found: Option<usize>)
        requires
            self.wf(),
        ensures
            match found {
                Some(i) => i < self.keys@.len() && self.keys@[i as int] == *key
                    && self.keys@.index_of(*key) == i,
                None => !self.keys@.contains(*key),
            },
    {
        let mut i: usize = 0;
        while i < self.keys.len()
            invariant
                self.wf(),
                i <= self.keys@.len(),
                forall|k: int| 0 <= k < i ==> self.keys@[k] != *key,
            decreases self.keys@.len() - i,
        {
            if self.keys[i].names_same(key) {
                assert(self.keys@[i as int] == *key);
                return Some(i);
            }
            i = i + 1;
        }
        None
    }

    /// The value under the key, if there is one.
    pub fn get(&self, key: &K) -> (value: Option<V>)
        requires
            self.wf(),
        ensures
            value is Some <==> self@.contains_key(*key),
            value matches Some(v) ==> v == self@[*key],
    {
        match self.position(key) {
            Some(i) => Some(self.values[i]),
            None => None,
        }
    }

    /// Whether there is a value under the key.
    pub fn has(&self, key: &K) -> (present: bool)
        requires
            self.wf(),
        ensures
            present == self@.contains_key(*key),
    {
        self.position(key).is_some()
    }

    /// Whether the table holds no entry at all.
    pub fn is_empty(&self) -> (empty: bool)
        requires
            self.wf(),
        ensures
            empty == (forall|k: K| !self@.contains_key(k)),
    {
        if self.keys.len() == 0 {
            true
        } else {
            assert(self.keys@.contains(self.keys@[0]));
            assert(self@.contains_key(self.keys@[0]));
            false
        }
    }

    /// Puts the value under the key, in place of the value that stood there, if any.
    pub fn set(&mut self, key: K, value: V)
        requires
            old(self).wf(),
        ensures
            final(self).wf(),
            final(self)@ == old(self)@.insert(key, value),
    {
        match self.position(&key) {
            Some(i) => {
                self.values.set(i, value);
                assert(forall|k: K|
                    self.keys@.contains(k) && k != key ==> self.keys@.index_of(k) != i);
            },
            None => {
                self.keys.push(key);
                self.values.push(value);
                proof {
                    let before = old(self).keys@;
                    let after = self.keys@;
                    assert(after[before.len() as int] == key);
                    assert forall|k: K| #[trigger] after.contains(k) implies k == key
                        || before.contains(k) by {
                        let j = after.index_of(k);
                        if j < before.len() {
                            assert(before[j] == k);
                        }
                    }
                    assert forall|k: K| #[trigger] before.contains(k) implies after.contains(k)
                        && after.index_of(k) == before.index_of(k) by {
                        let j = before.index_of(k);
                        assert(after[j] == k);
                        let j2 = after.index_of(k);
                        if j2 == before.len() {
                            assert(k == key);
                        } else {
                            assert(before[j2] == before[j]);
                        }
                    }
                    assert(after.contains(key));
                    assert(after.index_of(key) == before.len());
                }
            },
        }
        assert(self@ =~= old(self)@.insert(key, value));
    }

    /// Takes out the entry under the key; without one, nothing changes.
    pub fn remove(&mut self, key: &K)
        requires
            old(self).wf(),
        ensures
            final(self).wf(),
            final(self)@ == old(self)@.remove(*key),
    {
        match self.position(key) {
            Some(i) => {
                self.keys.remove(i);
                self.values.remove(i);
                proof {
                    let before = old(self).keys@;
                    let after = self.keys@;
                    let at = i as int;
                    assert forall|k: K| #[trigger] after.contains(k) implies k != *key
                        && before.contains(k) by {
                        let j = after.index_of(k);
                        if j < at {
                            assert(before[j] == k);
                        } else {
                            assert(before[j + 1] == k);
                        }
                    }
                    assert forall|k: K| #[trigger] before.contains(k) && k != *key implies {
                        &&& after.contains(k)
                        &&& self.values@[after.index_of(k)] == old(self).values@[before.index_of(k)]
                    } by {
                        let j = before.index_of(k);
                        if j < at {
                            assert(after[j] == k);
                        } else {
                            assert(after[j - 1] == k);
                        }
                        let j2 = after.index_of(k);
                        assert(before[if j2 < at { j2 } else { j2 + 1 }] == before[j]);
                    }
                }
            },
            None => {},
        }
        assert(self@ =~= old(self)@.remove(*key));
    }
}

/// A table has finitely many entries.
pub proof fn lemma_entries_finite<K: EntryKey, V: Copy>(entries: &Entries<K, V>)
    ensures
        entries@.dom().finite(),
{
    vstd::seq_lib::seq_to_set_is_finite(entries.keys@);
    assert(entries@.dom() =~= entries.keys@.to_set());
}

} // verus!
