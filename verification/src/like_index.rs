//! The insertion-ordered containers keyed by keys that stand for an
//! identifier.

use crate::id::supported_id;
use crate::index_map::UuidIndexMap;
use crate::index_set::UuidIndexSet;
use crate::like::{
    entries_from_ids, ids_from_entries, ids_from_keys, key_entries, key_ids, keys_from_ids,
    UuidLike,
};
use crate::model::{
    entry_keys, entry_values, swap_removed, value_of, with_entries, with_entry, with_id, with_ids,
};
use std::marker::PhantomData;
use uuid::Uuid;
use vstd::prelude::*;
use vstd::std_specs::cmp::{PartialEqSpec, PartialEqSpecImpl};

verus! {

/// An insertion-ordered map keyed by keys that stand for identifiers of
/// version 4 or 7.
#[derive(Debug)]
pub struct UuidLikeIndexMap<K: UuidLike, V> {
    inner: UuidIndexMap<V>,
    key: PhantomData<K>,
}

impl<K: UuidLike, V> View for UuidLikeIndexMap<K, V> {
    type V = Seq<(Uuid, V)>;

    /// The values beside the identifiers that their keys stand for, in the
    /// order in which the identifiers were first inserted.
    closed spec fn view(&self) -> Seq<(Uuid, V)> {
        self.inner@
    }
}

impl<K: UuidLike, V> UuidLikeIndexMap<K, V> {
    /// What holds of every map: no identifier occurs twice, and each is of a
    /// supported format.
    pub open spec fn wf(&self) -> bool {
        &&& entry_keys(self@).no_duplicates()
        &&& forall|i: int| 0 <= i < self@.len() ==> supported_id((#[trigger] self@[i]).0)
    }

    /// Creates an empty map.
    pub fn new() -> (map: Self)
        ensures
            map@ == Seq::<(Uuid, V)>::empty(),
            map.wf(),
    {
        UuidLikeIndexMap { inner: UuidIndexMap::new(), key: PhantomData }
    }

    /// Creates an empty map with room for `capacity` entries.
    pub fn with_capacity(capacity: usize) -> (map: Self)
        ensures
            map@ == Seq::<(Uuid, V)>::empty(),
            map.wf(),
    {
        UuidLikeIndexMap { inner: UuidIndexMap::with_capacity(capacity), key: PhantomData }
    }

    /// The number of entries.
    pub fn len(&self) -> (len: usize)
        ensures
            len == self@.len(),
    {
        self.inner.len()
    }

    /// Whether the map has no entry.
    pub fn is_empty(&self) -> (empty: bool)
        ensures
            empty == (self@.len() == 0),
    {
        self.inner.is_empty()
    }

    /// Inserts an entry at the end, or overwrites the value that the
    /// identifier of `key` had and leaves the entry where it is. Returns the
    /// index of the entry and the value that the identifier had.
    pub fn insert_full(&mut self, key: K, value: V) -> (placed: (usize, Option<V>))
        requires
            supported_id(key.uuid()),
        ensures
            final(self)@ == with_entry(old(self)@, key.uuid(), value),
            placed.1 == value_of(old(self)@, key.uuid()),
            placed.0 < final(self)@.len(),
            final(self)@[placed.0 as int] == (key.uuid(), value),
            final(self).wf(),
    {
        self.inner.insert_full(key.to_uuid(), value)
    }

    /// Inserts an entry at the end, or overwrites the value that the
    /// identifier of `key` had and leaves the entry where it is. Returns the
    /// value that the identifier had.
    pub fn insert(&mut self, key: K, value: V) -> (previous: Option<V>)
        requires
            supported_id(key.uuid()),
        ensures
            final(self)@ == with_entry(old(self)@, key.uuid(), value),
            previous == value_of(old(self)@, key.uuid()),
            final(self).wf(),
    {
        self.inner.insert(key.to_uuid(), value)
    }

    /// The index of the entry of `key`, if the map holds one.
    pub fn get_index_of(&self, key: &K) -> (found: Option<usize>)
        requires
            supported_id(key.uuid()),
        ensures
            match found {
                Some(index) => index < self@.len() && self@[index as int].0 == key.uuid(),
                None => !entry_keys(self@).contains(key.uuid()),
            },
    {
        let id = key.to_uuid();
        self.inner.get_index_of(&id)
    }

    /// The value of `key`, if the map holds one.
    pub fn get(&self, key: &K) -> (value: Option<&V>)
        requires
            supported_id(key.uuid()),
        ensures
            value == match value_of(self@, key.uuid()) {
                Some(held) => Some(&held),
                None => None,
            },
    {
        let id = key.to_uuid();
        self.inner.get(&id)
    }

    /// Whether the map holds a value for `key`.
    pub fn contains_key(&self, key: &K) -> (found: bool)
        requires
            supported_id(key.uuid()),
        ensures
            found == entry_keys(self@).contains(key.uuid()),
    {
        let id = key.to_uuid();
        self.inner.contains_key(&id)
    }

    /// The entry at `index`, if there is one, with the key that stands for
    /// its identifier.
    pub fn get_index(&self, index: usize) -> (entry: Option<(K, &V)>)
        ensures
            match entry {
                Some(found) => index < self@.len() && found.0.uuid() == self@[index as int].0
                    && *found.1 == self@[index as int].1,
                None => index >= self@.len(),
            },
    {
        match self.inner.get_index(index) {
            Some(found) => Some((K::from_uuid(*found.0), found.1)),
            None => None,
        }
    }

    /// Removes the entry of `key` and puts the last entry in its place: the
    /// order of the others stays, but for that one. Returns the value that
    /// the identifier had.
    pub fn swap_remove(&mut self, key: &K) -> (removed: Option<V>)
        requires
            supported_id(key.uuid()),
        ensures
            removed == value_of(old(self)@, key.uuid()),
            removed.is_some() ==> final(self)@ == swap_removed(
                old(self)@,
                entry_keys(old(self)@).index_of(key.uuid()),
            ),
            removed.is_none() ==> final(self)@ == old(self)@,
            final(self).wf(),
    {
        let id = key.to_uuid();
        self.inner.swap_remove(&id)
    }

    /// Removes the entry of `key` and moves up those behind it: the order of
    /// the others stays. Returns the value that the identifier had.
    pub fn shift_remove(&mut self, key: &K) -> (removed: Option<V>)
        requires
            supported_id(key.uuid()),
        ensures
            removed == value_of(old(self)@, key.uuid()),
            removed.is_some() ==> final(self)@ == old(self)@.remove(
                entry_keys(old(self)@).index_of(key.uuid()),
            ),
            removed.is_none() ==> final(self)@ == old(self)@,
            final(self).wf(),
    {
        let id = key.to_uuid();
        self.inner.shift_remove(&id)
    }

    /// Inserts the entries one by one, first to last.
    pub fn extend(&mut self, entries: Vec<(K, V)>)
        requires
            forall|i: int|
                0 <= i < entries@.len() ==> supported_id((#[trigger] entries@[i]).0.uuid()),
        ensures
            final(self)@ == with_entries(old(self)@, key_entries(entries@)),
            final(self).wf(),
    {
        self.inner.extend(ids_from_entries(entries));
    }

    /// Builds a map from entries, inserted one by one, first to last.
    pub fn from_iter(entries: Vec<(K, V)>) -> (map: Self)
        requires
            forall|i: int|
                0 <= i < entries@.len() ==> supported_id((#[trigger] entries@[i]).0.uuid()),
        ensures
            map@ == with_entries(Seq::<(Uuid, V)>::empty(), key_entries(entries@)),
            map.wf(),
    {
        UuidLikeIndexMap {
            inner: UuidIndexMap::from_iter(ids_from_entries(entries)),
            key: PhantomData,
        }
    }

    /// The keys of the map, in order.
    pub fn keys(&self) -> (keys: Vec<K>)
        ensures
            key_ids(keys@) == entry_keys(self@),
    {
        keys_from_ids(self.inner.keys())
    }

    /// Takes the map apart into its entries, in order.
    pub fn into_iter(self) -> (entries: Vec<(K, V)>)
        ensures
            key_entries(entries@) == self@,
    {
        entries_from_ids(self.inner.into_iter())
    }

    /// Takes the map apart and keeps the keys, in order.
    pub fn into_keys(self) -> (keys: Vec<K>)
        ensures
            key_ids(keys@) == entry_keys(self@),
    {
        keys_from_ids(self.inner.into_keys())
    }

    /// Takes the map apart and keeps the values, in order.
    pub fn into_values(self) -> (values: Vec<V>)
        ensures
            values@ == entry_values(self@),
    {
        self.inner.into_values()
    }
}

impl<K: UuidLike, V> Default for UuidLikeIndexMap<K, V> {
    fn default() -> (map: Self)
        ensures
            map@ == Seq::<(Uuid, V)>::empty(),
            map.wf(),
    {
        UuidLikeIndexMap::new()
    }
}

impl<K: UuidLike, V: Clone> Clone for UuidLikeIndexMap<K, V> {
    fn clone(&self) -> (copy: Self)
        ensures
            entry_keys(copy@) == entry_keys(self@),
            forall|i: int| 0 <= i < self@.len() ==> cloned(self@[i].1, #[trigger] copy@[i].1),
    {
        UuidLikeIndexMap { inner: self.inner.clone(), key: PhantomData }
    }
}

impl<K: UuidLike, V: PartialEq> PartialEqSpecImpl for UuidLikeIndexMap<K, V> {
    open spec fn obeys_eq_spec() -> bool {
        V::obeys_eq_spec()
    }

    /// Two maps are equal when they hold the same identifiers, in whatever
    /// order, with equal values for each.
    open spec fn eq_spec(&self, other: &Self) -> bool {
        &&& entry_keys(self@).to_set() =~= entry_keys(other@).to_set()
        &&& forall|i: int, j: int|
            0 <= i < self@.len() && 0 <= j < other@.len() && (#[trigger] self@[i]).0 == (
            #[trigger] other@[j]).0 ==> self@[i].1.eq_spec(&other@[j].1)
    }
}

impl<K: UuidLike, V: PartialEq> PartialEq for UuidLikeIndexMap<K, V> {
    fn eq(&self, other: &Self) -> (equal: bool) {
        self.inner == other.inner
    }
}

impl<K: UuidLike, V: Eq> Eq for UuidLikeIndexMap<K, V> {

}

/// An insertion-ordered set of keys that stand for identifiers of version 4
/// or 7.
#[derive(Debug)]
pub struct UuidLikeIndexSet<K: UuidLike> {
    inner: UuidIndexSet,
    key: PhantomData<K>,
}

impl<K: UuidLike> View for UuidLikeIndexSet<K> {
    type V = Seq<Uuid>;

    /// The identifiers that the keys stand for, in the order in which they
    /// were first inserted.
    closed spec fn view(&self) -> Seq<Uuid> {
        self.inner@
    }
}

impl<K: UuidLike> UuidLikeIndexSet<K> {
    /// What holds of every set: no identifier occurs twice, and each is of a
    /// supported format.
    pub open spec fn wf(&self) -> bool {
        &&& self@.no_duplicates()
        &&& forall|i: int| 0 <= i < self@.len() ==> supported_id(#[trigger] self@[i])
    }

    /// Creates an empty set.
    pub fn new() -> (set: Self)
        ensures
            set@ == Seq::<Uuid>::empty(),
            set.wf(),
    {
        UuidLikeIndexSet { inner: UuidIndexSet::new(), key: PhantomData }
    }

    /// Creates an empty set with room for `capacity` keys.
    pub fn with_capacity(capacity: usize) -> (set: Self)
        ensures
            set@ == Seq::<Uuid>::empty(),
            set.wf(),
    {
        UuidLikeIndexSet { inner: UuidIndexSet::with_capacity(capacity), key: PhantomData }
    }

    /// The number of keys.
    pub fn len(&self) -> (len: usize)
        ensures
            len == self@.len(),
    {
        self.inner.len()
    }

    /// Whether the set holds no key.
    pub fn is_empty(&self) -> (empty: bool)
        ensures
            empty == (self@.len() == 0),
    {
        self.inner.is_empty()
    }

    /// Adds `key` at the end unless the set holds its identifier, and tells
    /// its index and whether it was new.
    pub fn insert_full(&mut self, key: K) -> (placed: (usize, bool))
        requires
            supported_id(key.uuid()),
        ensures
            final(self)@ == with_id(old(self)@, key.uuid()),
            placed.1 == !old(self)@.contains(key.uuid()),
            placed.0 < final(self)@.len(),
            final(self)@[placed.0 as int] == key.uuid(),
            final(self).wf(),
    {
        self.inner.insert_full(key.to_uuid())
    }

    /// Adds `key` at the end unless the set holds its identifier, and tells
    /// whether it was new.
    pub fn insert(&mut self, key: K) -> (fresh: bool)
        requires
            supported_id(key.uuid()),
        ensures
            final(self)@ == with_id(old(self)@, key.uuid()),
            fresh == !old(self)@.contains(key.uuid()),
            final(self).wf(),
    {
        self.inner.insert(key.to_uuid())
    }

    /// Whether `key` is in the set.
    pub fn contains(&self, key: &K) -> (found: bool)
        requires
            supported_id(key.uuid()),
        ensures
            found == self@.contains(key.uuid()),
    {
        let id = key.to_uuid();
        self.inner.contains(&id)
    }

    /// The index of `key`, if the set holds it.
    pub fn get_index_of(&self, key: &K) -> (found: Option<usize>)
        requires
            supported_id(key.uuid()),
        ensures
            match found {
                Some(index) => index < self@.len() && self@[index as int] == key.uuid(),
                None => !self@.contains(key.uuid()),
            },
    {
        let id = key.to_uuid();
        self.inner.get_index_of(&id)
    }

    /// The key at `index`, if there is one.
    pub fn get_index(&self, index: usize) -> (key: Option<K>)
        ensures
            match key {
                Some(found) => index < self@.len() && found.uuid() == self@[index as int],
                None => index >= self@.len(),
            },
    {
        match self.inner.get_index(index) {
            Some(id) => Some(K::from_uuid(*id)),
            None => None,
        }
    }

    /// Takes `key` out and puts the last key in its place: the order of the
    /// others stays, but for that one. Tells whether `key` was there.
    pub fn swap_remove(&mut self, key: &K) -> (found: bool)
        requires
            supported_id(key.uuid()),
        ensures
            found == old(self)@.contains(key.uuid()),
            found ==> final(self)@ == swap_removed(old(self)@, old(self)@.index_of(key.uuid())),
            !found ==> final(self)@ == old(self)@,
            final(self).wf(),
    {
        let id = key.to_uuid();
        self.inner.swap_remove(&id)
    }

    /// Takes `key` out and moves up those behind it: the order of the others
    /// stays. Tells whether `key` was there.
    pub fn shift_remove(&mut self, key: &K) -> (found: bool)
        requires
            supported_id(key.uuid()),
        ensures
            found == old(self)@.contains(key.uuid()),
            found ==> final(self)@ == old(self)@.remove(old(self)@.index_of(key.uuid())),
            !found ==> final(self)@ == old(self)@,
            final(self).wf(),
    {
        let id = key.to_uuid();
        self.inner.shift_remove(&id)
    }

    /// Adds the keys of `keys` one by one, first to last.
    pub fn extend(&mut self, keys: Vec<K>)
        requires
            forall|i: int| 0 <= i < keys@.len() ==> supported_id((#[trigger] keys@[i]).uuid()),
        ensures
            final(self)@ == with_ids(old(self)@, key_ids(keys@)),
            final(self).wf(),
    {
        self.inner.extend(ids_from_keys(keys));
    }

    /// Builds a set from the keys of `keys`, added one by one, first to last.
    pub fn from_iter(keys: Vec<K>) -> (set: Self)
        requires
            forall|i: int| 0 <= i < keys@.len() ==> supported_id((#[trigger] keys@[i]).uuid()),
        ensures
            set@ == with_ids(Seq::<Uuid>::empty(), key_ids(keys@)),
            set.wf(),
    {
        UuidLikeIndexSet { inner: UuidIndexSet::from_iter(ids_from_keys(keys)), key: PhantomData }
    }

    /// The keys of the set, in order.
    pub fn to_vec(&self) -> (keys: Vec<K>)
        ensures
            key_ids(keys@) == self@,
    {
        keys_from_ids(self.inner.to_vec())
    }

    /// Takes the set apart into its keys, in order.
    pub fn into_iter(self) -> (keys: Vec<K>)
        ensures
            key_ids(keys@) == self@,
    {
        keys_from_ids(self.inner.into_iter())
    }
}

impl<K: UuidLike> Default for UuidLikeIndexSet<K> {
    fn default() -> (set: Self)
        ensures
            set@ == Seq::<Uuid>::empty(),
            set.wf(),
    {
        UuidLikeIndexSet::new()
    }
}

impl<K: UuidLike> Clone for UuidLikeIndexSet<K> {
    fn clone(&self) -> (copy: Self)
        ensures
            copy@ == self@,
    {
        UuidLikeIndexSet { inner: self.inner.clone(), key: PhantomData }
    }
}

impl<K: UuidLike> PartialEqSpecImpl for UuidLikeIndexSet<K> {
    open spec fn obeys_eq_spec() -> bool {
        true
    }

    /// Two sets are equal when their keys stand for the same identifiers, in
    /// whatever order.
    open spec fn eq_spec(&self, other: &Self) -> bool {
        self@.to_set() =~= other@.to_set()
    }
}

impl<K: UuidLike> PartialEq for UuidLikeIndexSet<K> {
    fn eq(&self, other: &Self) -> (equal: bool) {
        self.inner == other.inner
    }
}

impl<K: UuidLike> Eq for UuidLikeIndexSet<K> {

}

} // verus!
