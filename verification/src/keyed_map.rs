//! A map from fixed-size byte strings to values, which remembers in which order its keys came.

use vstd::prelude::*;

use crate::primitives::FixedBytes;

verus! {

/// The position of `key` in `keys`, for a key that occurs in it.
pub open spec fn position_of<K>(keys: Seq<K>, key: K) -> int {
    choose|i: int| 0 <= i < keys.len() && keys[i] == key
}

/// A map from byte strings of length `N` to values.
///
/// Its view is a mathematical map. Its entries also have an order, that in which their keys were
/// first inserted, and a caller can walk them by position.
pub struct KeyedMap<const N: usize, V> {
    entries: Vec<(FixedBytes<N>, V)>,
}

impl<const N: usize, V> KeyedMap<N, V> {
    /// The entries, in order.
    pub closed spec fn entries(&self) -> Seq<(FixedBytes<N>, V)> {
        self.entries@
    }

    /// The keys, in order.
    pub open spec fn keys(&self) -> Seq<FixedBytes<N>> {
        self.entries().map_values(|entry: (FixedBytes<N>, V)| entry.0)
    }

    /// No key occurs twice.
    #[verifier::type_invariant]
    pub open spec fn well_formed(&self) -> bool {
        self.keys().no_duplicates()
    }
}

impl<const N: usize, V> View for KeyedMap<N, V> {
    type V = Map<FixedBytes<N>, V>;

    open spec fn view(&self) -> Map<FixedBytes<N>, V> {
        Map::new(
            |key: FixedBytes<N>| self.keys().contains(key),
            |key: FixedBytes<N>| self.entries()[position_of(self.keys(), key)].1,
        )
    }
}

impl<const N: usize, V> KeyedMap<N, V> {
    /// The entries are all that the map holds, in the order in which it holds them.
    proof fn law_entries_are_what_is_held(&self)
        ensures
            self.entries() == self.entries@,
    {
    }

    /// Every entry is found under its key.
    pub proof fn lemma_entry(&self, i: int)
        requires
            self.well_formed(),
            0 <= i < self.entries().len(),
        ensures
            self.keys()[i] == self.entries()[i].0,
            self@.contains_key(self.entries()[i].0),
            self@[self.entries()[i].0] == self.entries()[i].1,
    {
        let key = self.keys()[i];
        assert(self.keys().contains(key));
        let j = position_of(self.keys(), key);
        assert(0 <= j < self.keys().len() && self.keys()[j] == key);
    }

    /// The map has the keys that it lists.
    pub proof fn lemma_keys(&self, key: FixedBytes<N>)
        ensures
            self@.contains_key(key) <==> self.keys().contains(key),
    {
    }

    /// Every key of the map stands at some position.
    pub proof fn lemma_key(&self, key: FixedBytes<N>) -> (i: int)
        requires
            self@.contains_key(key),
        ensures
            0 <= i < self.entries().len(),
            self.entries()[i] == (key, self@[key]),
    {
        let j = position_of(self.keys(), key);
        assert(0 <= j < self.keys().len() && self.keys()[j] == key);
        j
    }

    /// The map without entries.
    pub fn new() -> (map: Self)
        ensures
            map.entries() == Seq::<(FixedBytes<N>, V)>::empty(),
            map@ == Map::<FixedBytes<N>, V>::empty(),
    {
        let map = KeyedMap { entries: Vec::new() };
        assert(map@ =~= Map::<FixedBytes<N>, V>::empty());
        map
    }

    /// The number of entries.
    pub fn len(&self) -> (len: usize)
        ensures
            len == self.entries().len(),
    {
        self.entries.len()
    }

    /// The key at position `i`.
    pub fn key_at(&self, i: usize) -> (key: FixedBytes<N>)
        requires
            i < self.entries().len(),
        ensures
            key == self.entries()[i as int].0,
    {
        self.entries[i].0
    }

    /// The value at position `i`.
    pub fn value_at(&self, i: usize) -> (value: &V)
        requires
            i < self.entries().len(),
        ensures
            *value == self.entries()[i as int].1,
    {
        &self.entries[i].1
    }

    /// The position of `key`, where the map has it.
    fn find(&self, key: &FixedBytes<N>) -> (found: Option<usize>)
        ensures
            match found {
                Some(i) => i < self.entries().len() && self.entries()[i as int].0 == *key
                    && self@.contains_key(*key) && self@[*key] == self.entries()[i as int].1,
                None => !self@.contains_key(*key),
            },
    {
        proof {
            use_type_invariant(self);
        }
        let mut i: usize = 0;
        while i < self.entries.len()
            invariant
                i <= self.entries().len(),
                self.well_formed(),
                forall|j: int| 0 <= j < i ==> self.entries()[j].0 != *key,
            decreases self.entries().len() - i,
        {
            if self.entries[i].0 == *key {
                proof {
                    self.lemma_entry(i as int);
                }
                return Some(i);
            }
            i = i + 1;
        }
        None
    }

    /// Whether the map has `key`.
    pub fn contains_key(&self, key: &FixedBytes<N>) -> (found: bool)
        ensures
            found == self@.contains_key(*key),
    {
        self.find(key).is_some()
    }

    /// The value under `key`, where the map has it.
    pub fn get(&self, key: &FixedBytes<N>) -> (value: Option<&V>)
        ensures
            match value {
                Some(found) => self@.contains_key(*key) && *found == self@[*key],
                None => !self@.contains_key(*key),
            },
    {
        match self.find(key) {
            Some(i) => Some(&self.entries[i].1),
            None => None,
        }
    }

    /// Puts `value` under `key`, and hands back the value that stood there.
    ///
    /// A new key comes last; a key that the map has keeps its position.
    pub fn insert(&mut self, key: FixedBytes<N>, value: V) -> (previous: Option<V>)
        ensures
            final(self)@ == old(self)@.insert(key, value),
            final(self).keys() == if old(self)@.contains_key(key) {
                old(self).keys()
            } else {
                old(self).keys().push(key)
            },
            match previous {
                Some(replaced) => old(self)@.contains_key(key) && replaced == old(self)@[key],
                None => !old(self)@.contains_key(key),
            },
    {
        proof {
            use_type_invariant(&*self);
        }
        let ghost before = *self;
        let position = self.find(&key);
        let mut entries: Vec<(FixedBytes<N>, V)> = Vec::new();
        core::mem::swap(&mut entries, &mut self.entries);
        match position {
            Some(i) => {
                let (kept, replaced) = entries.remove(i);
                entries.insert(i, (kept, value));
                proof {
                    assert(entries@ =~= before.entries().update(i as int, (key, value)));
                    let after = KeyedMap { entries };
                    assert(after.keys() =~= before.keys());
                    Self::lemma_same_keys(before, after, i as int, key, value);
                }
                self.entries = entries;
                Some(replaced)
            },
            None => {
                entries.push((key, value));
                proof {
                    let after = KeyedMap { entries };
                    assert(after.keys() =~= before.keys().push(key));
                    assert(!before.keys().contains(key));
                    Self::lemma_new_key(before, after, key, value);
                }
                self.entries = entries;
                None
            },
        }
    }

    proof fn lemma_same_keys(before: Self, after: Self, i: int, key: FixedBytes<N>, value: V)
        requires
            before.well_formed(),
            0 <= i < before.entries().len(),
            before.entries()[i].0 == key,
            after.entries() == before.entries().update(i, (key, value)),
            after.keys() == before.keys(),
        ensures
            after@ == before@.insert(key, value),
    {
        before.lemma_entry(i);
        after.lemma_entry(i);
        assert forall|k: FixedBytes<N>| after@.contains_key(k) implies after@[k] == before@.insert(
            key,
            value,
        )[k] by {
            let j = after.lemma_key(k);
            before.lemma_entry(j);
        }
        assert(after@ =~= before@.insert(key, value));
    }

    proof fn lemma_new_key(before: Self, after: Self, key: FixedBytes<N>, value: V)
        requires
            before.well_formed(),
            !before.keys().contains(key),
            after.entries() == before.entries().push((key, value)),
            after.keys() == before.keys().push(key),
        ensures
            after.well_formed(),
            after@ == before@.insert(key, value),
    {
        assert(after.keys().no_duplicates());
        let last = before.entries().len() as int;
        after.lemma_entry(last);
        assert forall|k: FixedBytes<N>| after@.contains_key(k) implies after@[k] == before@.insert(
            key,
            value,
        )[k] && before@.insert(key, value).contains_key(k) by {
            let j = after.lemma_key(k);
            if j < last {
                before.lemma_entry(j);
                assert(before.keys()[j] != key);
            }
        }
        assert forall|k: FixedBytes<N>| before@.insert(key, value).contains_key(k) implies after@.contains_key(k) by {
            if k != key {
                let j = before.lemma_key(k);
                after.lemma_entry(j);
            }
        }
        assert(after@ =~= before@.insert(key, value));
    }

    /// Takes `key` out of the map, and hands back the value that stood there.
    ///
    /// The other entries keep their order.
    pub fn remove(&mut self, key: &FixedBytes<N>) -> (removed: Option<V>)
        ensures
            final(self)@ == old(self)@.remove(*key),
            match removed {
                Some(value) => old(self)@.contains_key(*key) && value == old(self)@[*key]
                    && exists|i: int|
                    0 <= i < old(self).keys().len() && #[trigger] old(self).keys()[i] == *key
                        && final(self).entries() == old(self).entries().remove(i),
                None => !old(self)@.contains_key(*key) && final(self).entries() == old(
                    self,
                ).entries(),
            },
    {
        proof {
            use_type_invariant(&*self);
        }
        let ghost before = *self;
        match self.find(key) {
            Some(i) => {
                let mut entries: Vec<(FixedBytes<N>, V)> = Vec::new();
                core::mem::swap(&mut entries, &mut self.entries);
                let (_, removed) = entries.remove(i);
                proof {
                    assert(entries@ =~= before.entries().remove(i as int));
                    Self::lemma_removed(before, KeyedMap { entries }, i as int);
                    assert(before.keys()[i as int] == *key);
                }
                self.entries = entries;
                Some(removed)
            },
            None => {
                assert(self@.remove(*key) =~= self@);
                None
            },
        }
    }

    proof fn lemma_removed(before: Self, after: Self, i: int)
        requires
            before.well_formed(),
            0 <= i < before.entries().len(),
            after.entries() == before.entries().remove(i),
        ensures
            after.well_formed(),
            after@ == before@.remove(before.entries()[i].0),
    {
        let key = before.entries()[i].0;
        assert(before.keys()[i] == key);
        assert(after.keys() =~= before.keys().remove(i));
        assert forall|k: FixedBytes<N>| after@.contains_key(k) implies k != key && after@[k]
            == before@[k] && before@.contains_key(k) by {
            let j = after.lemma_key(k);
            let m = if j < i { j } else { j + 1 };
            assert(before.keys()[m] == k);
            before.lemma_entry(m);
        }
        assert forall|k: FixedBytes<N>| before@.contains_key(k) && k != key implies after@.contains_key(k) by {
            let j = before.lemma_key(k);
            let m = if j < i { j } else { j - 1 };
            after.lemma_entry(m);
        }
        assert(after@ =~= before@.remove(key));
    }
}

} // verus!
