//! A keyed store: at most one value under each 32-byte key.

use vstd::prelude::*;
use crate::order::ids_equal;
use crate::rbac::RbacKeyType;

verus! {

/// A map from 32-byte keys to values, held as a list of entries in the
/// order in which their keys were first written.
#[derive(Debug, PartialEq, Eq)]
pub struct StorageMap<V> {
    entries: Vec<(RbacKeyType, V)>,
}

/// The keys of a list of entries, in order.
pub open spec fn entry_keys<V>(entries: Seq<(RbacKeyType, V)>) -> Seq<Seq<u8>> {
    Seq::new(entries.len(), |i: int| entries[i].0@)
}

/// The map that a list of entries with distinct keys stands for.
pub open spec fn entries_map<V>(entries: Seq<(RbacKeyType, V)>) -> Map<Seq<u8>, V> {
    Map::new(
        |k: Seq<u8>| exists|i: int| 0 <= i < entries.len() && #[trigger] entries[i].0@ == k,
        |k: Seq<u8>|
            entries[choose|i: int| 0 <= i < entries.len() && #[trigger] entries[i].0@ == k].1,
    )
}

/// No two entries have the same key.
pub open spec fn distinct_keys<V>(entries: Seq<(RbacKeyType, V)>) -> bool {
    forall|i: int, j: int|
        0 <= i < j < entries.len() ==> (#[trigger] entries[i]).0@ != (#[trigger] entries[j]).0@
}

/// The keys of entries with distinct keys are those of their map, each once.
pub proof fn lemma_entry_keys<V>(entries: Seq<(RbacKeyType, V)>)
    requires
        distinct_keys(entries),
    ensures
        entry_keys(entries).no_duplicates(),
        forall|k: Seq<u8>| entry_keys(entries).contains(k) <==> entries_map(entries).contains_key(k),
        entry_keys(entries).to_set() == entries_map(entries).dom(),
        entries_map(entries).dom().finite(),
        entries_map(entries).dom().len() == entries.len(),
        forall|i: int|
            0 <= i < entries.len() ==> entries_map(entries).contains_key(
                #[trigger] entry_keys(entries)[i],
            ) && entries_map(entries)[entry_keys(entries)[i]] == entries[i].1,
{
    let keys = entry_keys(entries);
    let map = entries_map(entries);
    assert forall|i: int, j: int| 0 <= i < keys.len() && 0 <= j < keys.len() && i != j implies keys[i]
        != keys[j] by {
        if i < j {
            assert(entries[i].0@ != entries[j].0@);
        } else {
            assert(entries[j].0@ != entries[i].0@);
        }
    }
    assert forall|k: Seq<u8>| keys.contains(k) <==> map.contains_key(k) by {
        if keys.contains(k) {
            let i = choose|i: int| 0 <= i < keys.len() && keys[i] == k;
            assert(entries[i].0@ == k);
        }
        if map.contains_key(k) {
            let i = choose|i: int| 0 <= i < entries.len() && #[trigger] entries[i].0@ == k;
            assert(keys[i] == k);
        }
    }
    assert(keys.to_set() =~= map.dom());
    keys.unique_seq_to_set();
    vstd::seq_lib::seq_to_set_is_finite(keys);
    assert forall|i: int| 0 <= i < entries.len() implies map.contains_key(#[trigger] keys[i])
        && map[keys[i]] == entries[i].1 by {
        assert(entries[i].0@ == keys[i]);
        let j = choose|j: int| 0 <= j < entries.len() && #[trigger] entries[j].0@ == keys[i];
        if i < j {
            assert(entries[i].0@ != entries[j].0@);
        } else if j < i {
            assert(entries[j].0@ != entries[i].0@);
        }
    }
}

impl<V> View for StorageMap<V> {
    type V = Map<Seq<u8>, V>;

    closed spec fn view(&self) -> Map<Seq<u8>, V> {
        entries_map(self.entries@)
    }
}

impl<V: Clone> Clone for StorageMap<V> {
    /// A store with the same keys in the same order, and under each key a
    /// clone of the value.
    fn clone(&self) -> (copy: Self)
        ensures
            copy.keys() == self.keys(),
            copy@.dom() == self@.dom(),
            forall|key: Seq<u8>| #[trigger]
                self@.contains_key(key) ==> vstd::pervasive::cloned(self@[key], copy@[key]),
    {
        proof {
            use_type_invariant(self);
        }
        let mut entries: Vec<(RbacKeyType, V)> = Vec::new();
        let mut i: usize = 0;
        while i < self.entries.len()
            invariant
                0 <= i <= self.entries@.len(),
                entries@.len() == i,
                forall|j: int|
                    0 <= j < i ==> (#[trigger] entries@[j]).0 == self.entries@[j].0
                        && vstd::pervasive::cloned(self.entries@[j].1, entries@[j].1),
            decreases self.entries@.len() - i,
        {
            let value = self.entries[i].1.clone();
            entries.push((self.entries[i].0, value));
            i += 1;
        }
        proof {
            assert forall|a: int, b: int| 0 <= a < b < entries@.len() implies (
            #[trigger] entries@[a]).0@ != (#[trigger] entries@[b]).0@ by {
                assert(self.entries@[a].0@ != self.entries@[b].0@);
            }
            assert(entry_keys(entries@) =~= entry_keys(self.entries@));
            lemma_entry_keys(entries@);
            lemma_entry_keys(self.entries@);
            assert(entries_map(entries@).dom() =~= entries_map(self.entries@).dom());
            assert forall|key: Seq<u8>| #[trigger]
                entries_map(self.entries@).contains_key(key) implies vstd::pervasive::cloned(
                entries_map(self.entries@)[key],
                entries_map(entries@)[key],
            ) by {
                let j = choose|j: int|
                    0 <= j < self.entries@.len() && #[trigger] self.entries@[j].0@ == key;
                assert(entry_keys(self.entries@)[j] == key);
                assert(entry_keys(entries@)[j] == key);
                assert(entries@[j].0 == self.entries@[j].0);
            }
        }
        StorageMap { entries }
    }
}

impl<V> StorageMap<V> {
    /// No two entries have the same key.
    #[verifier::type_invariant]
    spec fn keys_distinct(self) -> bool {
        distinct_keys(self.entries@)
    }

    /// The keys in the order in which they were first written.
    pub closed spec fn keys(&self) -> Seq<Seq<u8>> {
        entry_keys(self.entries@)
    }

    /// A store without entries.
    pub fn new() -> (store: Self)
        ensures
            store@ == Map::<Seq<u8>, V>::empty(),
            store.keys() == Seq::<Seq<u8>>::empty(),
    {
        let store = StorageMap { entries: Vec::new() };
        assert(store@ =~= Map::<Seq<u8>, V>::empty());
        assert(store.keys() =~= Seq::<Seq<u8>>::empty());
        store
    }

    /// The number of keys.
    pub fn len(&self) -> (n: usize)
        ensures
            n == self.keys().len(),
            n == self@.dom().len(),
            self@.dom().finite(),
            self.keys().no_duplicates(),
            self.keys().to_set() == self@.dom(),
    {
        proof {
            use_type_invariant(self);
            lemma_entry_keys(self.entries@);
        }
        self.entries.len()
    }

    /// The key that was first written as the `i`-th.
    pub fn key_at(&self, i: usize) -> (key: RbacKeyType)
        requires
            i < self.keys().len(),
        ensures
            key@ == self.keys()[i as int],
            self@.contains_key(key@),
    {
        proof {
            use_type_invariant(self);
            lemma_entry_keys(self.entries@);
        }
        self.entries[i].0
    }

    /// The value under the key that was first written as the `i`-th.
    pub fn value_at(&self, i: usize) -> (value: &V)
        requires
            i < self.keys().len(),
        ensures
            self@.contains_key(self.keys()[i as int]),
            *value == self@[self.keys()[i as int]],
    {
        proof {
            use_type_invariant(self);
            lemma_entry_keys(self.entries@);
        }
        &self.entries[i].1
    }

    /// The position of the entry with the key, if there is one.
    fn position(&self, key: &RbacKeyType) -> (place: Option<usize>)
        ensures
            match place {
                Some(i) => i < self.entries@.len() && self.entries@[i as int].0@ == key@,
                None => forall|i: int| 0 <= i < self.entries@.len() ==> (
                #[trigger] self.entries@[i]).0@ != key@,
            },
    {
        let mut i: usize = 0;
        while i < self.entries.len()
            invariant
                0 <= i <= self.entries@.len(),
                forall|j: int| 0 <= j < i ==> (#[trigger] self.entries@[j]).0@ != key@,
            decreases self.entries@.len() - i,
        {
            if ids_equal(&self.entries[i].0, key) {
                return Some(i);
            }
            i += 1;
        }
        None
    }

    /// Whether a value is stored under `key`.
    pub fn contains_key(&self, key: &RbacKeyType) -> (found: bool)
        ensures
            found == self@.contains_key(key@),
    {
        self.position(key).is_some()
    }

    /// The value stored under `key`, if there is one.
    pub fn get(&self, key: &RbacKeyType) -> (value: Option<&V>)
        ensures
            match value {
                Some(v) => self@.contains_key(key@) && *v == self@[key@],
                None => !self@.contains_key(key@),
            },
    {
        proof {
            use_type_invariant(self);
        }
        match self.position(key) {
            Some(i) => Some(&self.entries[i].1),
            None => None,
        }
    }

    /// Stores `value` under `key`, in place of what was stored there.
    pub fn insert(&mut self, key: RbacKeyType, value: V)
        ensures
            final(self)@ == old(self)@.insert(key@, value),
            old(self)@.contains_key(key@) ==> final(self).keys() == old(self).keys(),
            !old(self)@.contains_key(key@) ==> final(self).keys() == old(self).keys().push(key@),
    {
        proof {
            use_type_invariant(&*self);
        }
        let place = self.position(&key);
        let mut entries: Vec<(RbacKeyType, V)> = Vec::new();
        std::mem::swap(&mut entries, &mut self.entries);
        let ghost before = entries@;
        match place {
            Some(i) => {
                entries[i] = (key, value);
            },
            None => {
                entries.push((key, value));
            },
        }
        proof {
            let after = entries@;
            assert forall|i: int, j: int| 0 <= i < j < after.len() implies (#[trigger] after[i]).0@
                != (#[trigger] after[j]).0@ by {
                if place is Some {
                    assert(before[i].0@ != before[j].0@);
                } else if j < before.len() {
                    assert(before[i].0@ != before[j].0@);
                } else {
                    assert(before[i].0@ != key@);
                }
            }
            assert forall|k: Seq<u8>| #[trigger]
                entries_map(after).contains_key(k) <==> (k == key@ || entries_map(
                    before,
                ).contains_key(k)) by {
                if entries_map(before).contains_key(k) {
                    let i = choose|i: int| 0 <= i < before.len() && #[trigger] before[i].0@ == k;
                    assert(after[i].0@ == k);
                }
                if k == key@ {
                    let i = match place {
                        Some(i) => i as int,
                        None => before.len() as int,
                    };
                    assert(after[i].0@ == k);
                }
                if entries_map(after).contains_key(k) && k != key@ {
                    let i = choose|i: int| 0 <= i < after.len() && #[trigger] after[i].0@ == k;
                    assert(before[i].0@ == k);
                }
            }
            assert forall|k: Seq<u8>| #[trigger]
                entries_map(after).contains_key(k) implies entries_map(after)[k] == entries_map(
                before,
            ).insert(key@, value)[k] by {
                let i = choose|i: int| 0 <= i < after.len() && #[trigger] after[i].0@ == k;
                if k != key@ {
                    let j = choose|j: int| 0 <= j < before.len() && #[trigger] before[j].0@ == k;
                    assert(before[i].0@ == k);
                    if i < j {
                        assert(before[i].0@ != before[j].0@);
                    } else if j < i {
                        assert(before[j].0@ != before[i].0@);
                    }
                } else {
                    let j = match place {
                        Some(j) => j as int,
                        None => before.len() as int,
                    };
                    if i < j {
                        assert(after[i].0@ != after[j].0@);
                    } else if j < i {
                        assert(after[j].0@ != after[i].0@);
                    }
                }
            }
            assert(entries_map(after) =~= entries_map(before).insert(key@, value));
            if place is Some {
                assert(entry_keys(after) =~= entry_keys(before));
            } else {
                assert(entry_keys(after) =~= entry_keys(before).push(key@));
            }
        }
        self.entries = entries;
    }

    /// Removes what is stored under `key`. The other keys keep their order.
    pub fn remove(&mut self, key: &RbacKeyType)
        ensures
            final(self)@ == old(self)@.remove(key@),
            !old(self)@.contains_key(key@) ==> final(self).keys() == old(self).keys(),
            old(self)@.contains_key(key@) ==> final(self).keys() == old(self).keys().remove(
                old(self).keys().index_of(key@),
            ),
    {
        proof {
            use_type_invariant(&*self);
        }
        let place = self.position(key);
        let mut entries: Vec<(RbacKeyType, V)> = Vec::new();
        std::mem::swap(&mut entries, &mut self.entries);
        let ghost before = entries@;
        match place {
            Some(i) => {
                entries.remove(i);
                proof {
                    let after = entries@;
                    let at = i as int;
                    assert forall|a: int, b: int| 0 <= a < b < after.len() implies (
                    #[trigger] after[a]).0@ != (#[trigger] after[b]).0@ by {
                        let a0 = if a < at { a } else { a + 1 };
                        let b0 = if b < at { b } else { b + 1 };
                        assert(before[a0].0@ != before[b0].0@);
                    }
                    assert forall|k: Seq<u8>| #[trigger]
                        entries_map(after).contains_key(k) <==> (k != key@ && entries_map(
                            before,
                        ).contains_key(k)) by {
                        if entries_map(after).contains_key(k) {
                            let a = choose|a: int|
                                0 <= a < after.len() && #[trigger] after[a].0@ == k;
                            let a0 = if a < at { a } else { a + 1 };
                            assert(before[a0].0@ == k);
                            if a0 < at {
                                assert(before[a0].0@ != before[at].0@);
                            } else {
                                assert(before[at].0@ != before[a0].0@);
                            }
                        }
                        if k != key@ && entries_map(before).contains_key(k) {
                            let b = choose|b: int|
                                0 <= b < before.len() && #[trigger] before[b].0@ == k;
                            let a = if b < at { b } else { b - 1 };
                            assert(after[a].0@ == k);
                        }
                    }
                    assert forall|k: Seq<u8>| #[trigger]
                        entries_map(after).contains_key(k) implies entries_map(after)[k]
                        == entries_map(before)[k] by {
                        let a = choose|a: int| 0 <= a < after.len() && #[trigger] after[a].0@ == k;
                        let a0 = if a < at { a } else { a + 1 };
                        let b = choose|b: int|
                            0 <= b < before.len() && #[trigger] before[b].0@ == k;
                        assert(before[a0].0@ == k);
                        if a0 < b {
                            assert(before[a0].0@ != before[b].0@);
                        } else if b < a0 {
                            assert(before[b].0@ != before[a0].0@);
                        }
                    }
                    assert(entries_map(after) =~= entries_map(before).remove(key@));
                    let keys = entry_keys(before);
                    assert(keys[at] == key@);
                    let found = keys.index_of(key@);
                    assert(before[found].0@ == keys[found]);
                    if found < at {
                        assert(before[found].0@ != before[at].0@);
                    } else if at < found {
                        assert(before[at].0@ != before[found].0@);
                    }
                    assert(entry_keys(after) =~= keys.remove(at));
                }
            },
            None => {
                proof {
                    assert(entries_map(before) =~= entries_map(before).remove(key@));
                }
            },
        }
        self.entries = entries;
    }
}

} // verus!
