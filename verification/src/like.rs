//! Keys that stand for an identifier, and the unordered containers keyed by
//! them.
//!
//! A container of this family works on the identifiers of its keys: two keys
//! that stand for one identifier are one key to it.

use crate::id::supported_id;
use crate::map::UuidMap;
use crate::model::{collect, empty_map, entry_keys, entry_values, enumerates};
use crate::set::UuidSet;
use std::marker::PhantomData;
use uuid::Uuid;
use vstd::prelude::*;
use vstd::std_specs::cmp::{PartialEqSpec, PartialEqSpecImpl};

verus! {

/// A key that stands for one identifier, as a wrapper around a UUID does.
pub trait UuidLike: Sized {
    /// The identifier that the key stands for.
    spec fn uuid(&self) -> Uuid;

    /// Gives the identifier that the key stands for.
    fn to_uuid(&self) -> (id: Uuid)
        ensures
            id == self.uuid(),
    ;

    /// Makes the key that stands for `id`.
    fn from_uuid(id: Uuid) -> (key: Self)
        ensures
            key.uuid() == id,
    ;
}

impl UuidLike for Uuid {
    open spec fn uuid(&self) -> Uuid {
        *self
    }

    fn to_uuid(&self) -> (id: Uuid) {
        *self
    }

    fn from_uuid(id: Uuid) -> (key: Self) {
        id
    }
}

/// The identifiers that a sequence of keys stands for, in order.
pub open spec fn key_ids<K: UuidLike>(keys: Seq<K>) -> Seq<Uuid> {
    keys.map_values(|key: K| key.uuid())
}

/// A sequence of entries, with the identifier in place of each key.
pub open spec fn key_entries<K: UuidLike, V>(entries: Seq<(K, V)>) -> Seq<(Uuid, V)> {
    entries.map_values(|entry: (K, V)| (entry.0.uuid(), entry.1))
}

/// Makes the keys that stand for `ids`, in order.
pub(crate) fn keys_from_ids<K: UuidLike>(ids: Vec<Uuid>) -> (keys: Vec<K>)
    ensures
        key_ids(keys@) == ids@,
{
    let mut keys: Vec<K> = Vec::with_capacity(ids.len());
    let mut i: usize = 0;
    while i < ids.len()
        invariant
            i <= ids.len(),
            key_ids(keys@) == ids@.take(i as int),
        decreases ids.len() - i,
    {
        let key = K::from_uuid(ids[i]);
        proof {
            assert(ids@.take(i + 1) =~= ids@.take(i as int).push(ids@[i as int]));
        }
        keys.push(key);
        i += 1;
    }
    keys
}

/// Gives the identifiers that `keys` stand for, in order.
pub(crate) fn ids_from_keys<K: UuidLike>(keys: Vec<K>) -> (ids: Vec<Uuid>)
    ensures
        ids@ == key_ids(keys@),
{
    let mut ids: Vec<Uuid> = Vec::with_capacity(keys.len());
    let mut i: usize = 0;
    while i < keys.len()
        invariant
            i <= keys.len(),
            ids@ == key_ids(keys@.take(i as int)),
        decreases keys.len() - i,
    {
        let id = keys[i].to_uuid();
        ids.push(id);
        i += 1;
    }
    ids
}

/// Makes the entries whose keys stand for the identifiers of `entries`, in
/// order.
pub(crate) fn entries_from_ids<K: UuidLike, V>(entries: Vec<(Uuid, V)>) -> (keyed: Vec<(K, V)>)
    ensures
        key_entries(keyed@) == entries@,
{
    let ghost all = entries@;
    let mut keyed: Vec<(K, V)> = Vec::with_capacity(entries.len());
    for entry in it: entries
        invariant
            it.seq() == all,
            key_entries(keyed@) == all.take(it.index()),
    {
        let key = K::from_uuid(entry.0);
        proof {
            assert(all.take(it.index() + 1) =~= all.take(it.index()).push(entry));
        }
        keyed.push((key, entry.1));
    }
    keyed
}

/// Gives the entries of `keyed`, with the identifier in place of each key,
/// in order.
pub(crate) fn ids_from_entries<K: UuidLike, V>(keyed: Vec<(K, V)>) -> (entries: Vec<(Uuid, V)>)
    ensures
        entries@ == key_entries(keyed@),
{
    let ghost all = keyed@;
    let mut entries: Vec<(Uuid, V)> = Vec::with_capacity(keyed.len());
    for entry in it: keyed
        invariant
            it.seq() == all,
            entries@ == key_entries(all.take(it.index())),
    {
        let id = entry.0.to_uuid();
        entries.push((id, entry.1));
    }
    entries
}

/// An unordered map keyed by keys that stand for identifiers of version 4
/// or 7.
#[derive(Debug)]
pub struct UuidLikeMap<K: UuidLike, V> {
    inner: UuidMap<V>,
    key: PhantomData<K>,
}

impl<K: UuidLike, V> View for UuidLikeMap<K, V> {
    type V = Map<Uuid, V>;

    /// The values, by the identifiers that their keys stand for.
    closed spec fn view(&self) -> Map<Uuid, V> {
        self.inner@
    }
}

impl<K: UuidLike, V> UuidLikeMap<K, V> {
    /// What holds of every map: it is finite, and each identifier in it is
    /// of a supported format.
    pub open spec fn wf(&self) -> bool {
        &&& self@.dom().finite()
        &&& forall|id: Uuid| self@.contains_key(id) ==> supported_id(id)
    }

    /// Creates an empty map.
    pub fn new() -> (map: Self)
        ensures
            map@ == empty_map::<V>(),
            map.wf(),
    {
        UuidLikeMap { inner: UuidMap::new(), key: PhantomData }
    }

    /// Creates an empty map with room for `capacity` entries.
    pub fn with_capacity(capacity: usize) -> (map: Self)
        ensures
            map@ == empty_map::<V>(),
            map.wf(),
    {
        UuidLikeMap { inner: UuidMap::with_capacity(capacity), key: PhantomData }
    }

    /// The number of entries.
    pub fn len(&self) -> (len: usize)
        ensures
            len == self@.len(),
    {
        self.inner.len()
    }

    /// Whether the map has no entry.
    pub fn is_empty(&self) -> (empty: bool)
        ensures
            empty == (self@ == empty_map::<V>()),
    {
        self.inner.is_empty()
    }

    /// Inserts an entry, or overwrites the value that the identifier of
    /// `key` had, and returns that value.
    pub fn insert(&mut self, key: K, value: V) -> (previous: Option<V>)
        requires
            supported_id(key.uuid()),
        ensures
            final(self)@ == old(self)@.insert(key.uuid(), value),
            previous == if old(self)@.contains_key(key.uuid()) {
                Some(old(self)@[key.uuid()])
            } else {
                None
            },
            final(self).wf(),
    {
        self.inner.insert(key.to_uuid(), value)
    }

    /// The value of `key`, if the map holds one.
    pub fn get(&self, key: &K) -> (value: Option<&V>)
        requires
            supported_id(key.uuid()),
        ensures
            value == if self@.contains_key(key.uuid()) {
                Some(&self@[key.uuid()])
            } else {
                None
            },
    {
        let id = key.to_uuid();
        self.inner.get(&id)
    }

    /// Whether the map holds a value for `key`.
    pub fn contains_key(&self, key: &K) -> (found: bool)
        requires
            supported_id(key.uuid()),
        ensures
            found == self@.contains_key(key.uuid()),
    {
        let id = key.to_uuid();
        self.inner.contains_key(&id)
    }

    /// Removes the entry of `key`, if there is one, and returns its value.
    pub fn remove(&mut self, key: &K) -> (removed: Option<V>)
        requires
            supported_id(key.uuid()),
        ensures
            final(self)@ == old(self)@.remove(key.uuid()),
            removed == if old(self)@.contains_key(key.uuid()) {
                Some(old(self)@[key.uuid()])
            } else {
                None
            },
            final(self).wf(),
    {
        let id = key.to_uuid();
        self.inner.remove(&id)
    }

    /// Inserts the entries one by one, first to last.
    pub fn extend(&mut self, entries: Vec<(K, V)>)
        requires
            forall|i: int|
                0 <= i < entries@.len() ==> supported_id((#[trigger] entries@[i]).0.uuid()),
        ensures
            final(self)@ == collect(old(self)@, key_entries(entries@)),
            final(self).wf(),
    {
        self.inner.extend(ids_from_entries(entries));
    }

    /// Builds a map from entries, inserted one by one, first to last.
    pub fn from_iter(entries: Vec<(K, V)>) -> (map: Self)
        requires
            forall|i: int|
                0 <= i < entries@.len() ==> supported_id((#[trigger] entries@[i]).0.uuid()),
        ensures
            map@ == collect(empty_map::<V>(), key_entries(entries@)),
            map.wf(),
    {
        UuidLikeMap { inner: UuidMap::from_iter(ids_from_entries(entries)), key: PhantomData }
    }

    /// The keys of the map, one for each identifier, in no stated order.
    pub fn keys(&self) -> (keys: Vec<K>)
        ensures
            key_ids(keys@).no_duplicates(),
            key_ids(keys@).to_set() == self@.dom(),
            forall|i: int| 0 <= i < keys@.len() ==> supported_id((#[trigger] keys@[i]).uuid()),
    {
        let keys: Vec<K> = keys_from_ids(self.inner.keys());
        assert forall|i: int| 0 <= i < keys@.len() implies supported_id(
            (#[trigger] keys@[i]).uuid(),
        ) by {
            assert(key_ids(keys@)[i] == keys@[i].uuid());
        }
        keys
    }

    /// Whether `entries` has as many entries as the map and each of them has
    /// an equal value in the map. For a list without repeated identifiers
    /// that is to hold the same identifiers, with equal values, in whatever
    /// order.
    pub fn same_entries<A: PartialEq<V>>(&self, entries: &Vec<(K, &A)>) -> (same: bool)
        requires
            forall|i: int|
                0 <= i < entries@.len() ==> supported_id((#[trigger] entries@[i]).0.uuid()),
        ensures
            A::obeys_eq_spec() ==> same == (entries@.len() == self@.len() && forall|i: int|
                0 <= i < entries@.len() ==> self@.contains_key((#[trigger] entries@[i]).0.uuid())
                    && entries@[i].1.eq_spec(&self@[entries@[i].0.uuid()])),
            A::obeys_eq_spec() && entry_keys(key_entries(entries@)).no_duplicates() ==> same == (
            entry_keys(key_entries(entries@)).to_set() == self@.dom() && forall|i: int|
                0 <= i < entries@.len() ==> (#[trigger] entries@[i]).1.eq_spec(
                    &self@[entries@[i].0.uuid()],
                )),
    {
        let mut listed: Vec<(Uuid, &A)> = Vec::with_capacity(entries.len());
        let mut i: usize = 0;
        while i < entries.len()
            invariant
                i <= entries.len(),
                listed@ == key_entries(entries@.take(i as int)),
            decreases entries.len() - i,
        {
            let entry = &entries[i];
            proof {
                assert(key_entries(entries@.take(i + 1)) =~= key_entries(
                    entries@.take(i as int),
                ).push((entry.0.uuid(), entry.1)));
            }
            listed.push((entry.0.to_uuid(), entry.1));
            i += 1;
        }
        proof {
            assert(entries@.take(entries@.len() as int) =~= entries@);
            assert forall|j: int| 0 <= j < listed@.len() implies supported_id(
                (#[trigger] listed@[j]).0,
            ) by {
                assert(listed@[j].0 == entries@[j].0.uuid());
            }
        }
        let same = self.inner.same_entries(&listed);
        proof {
            let by_list = forall|i: int|
                0 <= i < listed@.len() ==> self@.contains_key((#[trigger] listed@[i]).0)
                    && listed@[i].1.eq_spec(&self@[listed@[i].0]);
            let by_keys = forall|i: int|
                0 <= i < entries@.len() ==> self@.contains_key((#[trigger] entries@[i]).0.uuid())
                    && entries@[i].1.eq_spec(&self@[entries@[i].0.uuid()]);
            if by_list {
                assert forall|i: int| 0 <= i < entries@.len() implies self@.contains_key(
                    (#[trigger] entries@[i]).0.uuid(),
                ) && entries@[i].1.eq_spec(&self@[entries@[i].0.uuid()]) by {
                    assert(listed@[i].0 == entries@[i].0.uuid());
                }
            }
            if by_keys {
                assert forall|i: int| 0 <= i < listed@.len() implies self@.contains_key(
                    (#[trigger] listed@[i]).0,
                ) && listed@[i].1.eq_spec(&self@[listed@[i].0]) by {
                    assert(listed@[i].0 == entries@[i].0.uuid());
                }
            }
            let values_list = forall|i: int|
                0 <= i < listed@.len() ==> (#[trigger] listed@[i]).1.eq_spec(
                    &self@[listed@[i].0],
                );
            let values_keys = forall|i: int|
                0 <= i < entries@.len() ==> (#[trigger] entries@[i]).1.eq_spec(
                    &self@[entries@[i].0.uuid()],
                );
            if values_list {
                assert forall|i: int| 0 <= i < entries@.len() implies (
                #[trigger] entries@[i]).1.eq_spec(&self@[entries@[i].0.uuid()]) by {
                    assert(listed@[i].0 == entries@[i].0.uuid());
                }
            }
            if values_keys {
                assert forall|i: int| 0 <= i < listed@.len() implies (
                #[trigger] listed@[i]).1.eq_spec(&self@[listed@[i].0]) by {
                    assert(listed@[i].0 == entries@[i].0.uuid());
                }
            }
        }
        same
    }

    /// Takes the map apart into its entries, each once, in no stated order.
    pub fn into_iter(self) -> (entries: Vec<(K, V)>)
        ensures
            enumerates(key_entries(entries@), self@),
    {
        entries_from_ids(self.inner.into_iter())
    }

    /// Takes the map apart and keeps the keys, one for each identifier, in
    /// no stated order.
    pub fn into_keys(self) -> (keys: Vec<K>)
        ensures
            key_ids(keys@).no_duplicates(),
            key_ids(keys@).to_set() == self@.dom(),
    {
        keys_from_ids(self.inner.into_keys())
    }

    /// Takes the map apart and keeps the values, one for each entry, in no
    /// stated order.
    pub fn into_values(self) -> (values: Vec<V>)
        ensures
            exists|entries: Seq<(Uuid, V)>|
                enumerates(entries, self@) && values@ == entry_values(entries),
    {
        self.inner.into_values()
    }
}

impl<K: UuidLike, V> Default for UuidLikeMap<K, V> {
    fn default() -> (map: Self)
        ensures
            map@ == empty_map::<V>(),
            map.wf(),
    {
        UuidLikeMap::new()
    }
}

impl<K: UuidLike, V: Clone> Clone for UuidLikeMap<K, V> {
    fn clone(&self) -> (copy: Self)
        ensures
            copy@ == self@,
    {
        UuidLikeMap { inner: self.inner.clone(), key: PhantomData }
    }
}

impl<K: UuidLike, V: PartialEq> PartialEqSpecImpl for UuidLikeMap<K, V> {
    open spec fn obeys_eq_spec() -> bool {
        V::obeys_eq_spec()
    }

    /// Two maps are equal when they hold the same identifiers, with equal
    /// values for each.
    open spec fn eq_spec(&self, other: &Self) -> bool {
        &&& self@.dom() =~= other@.dom()
        &&& forall|id: Uuid| self@.contains_key(id) ==> self@[id].eq_spec(&other@[id])
    }
}

impl<K: UuidLike, V: PartialEq> PartialEq for UuidLikeMap<K, V> {
    fn eq(&self, other: &Self) -> (equal: bool) {
        self.inner == other.inner
    }
}

impl<K: UuidLike, V: Eq> Eq for UuidLikeMap<K, V> {

}

/// An unordered set of keys that stand for identifiers of version 4 or 7.
#[derive(Debug)]
pub struct UuidLikeSet<K: UuidLike> {
    inner: UuidSet,
    key: PhantomData<K>,
}

impl<K: UuidLike> View for UuidLikeSet<K> {
    type V = Set<Uuid>;

    /// The identifiers that the keys of the set stand for.
    closed spec fn view(&self) -> Set<Uuid> {
        self.inner@
    }
}

impl<K: UuidLike> UuidLikeSet<K> {
    /// What holds of every set: it is finite, and each identifier in it is
    /// of a supported format.
    pub open spec fn wf(&self) -> bool {
        &&& self@.finite()
        &&& forall|id: Uuid| self@.contains(id) ==> supported_id(id)
    }

    /// Creates an empty set.
    pub fn new() -> (set: Self)
        ensures
            set@ == Set::<Uuid>::empty(),
            set.wf(),
    {
        UuidLikeSet { inner: UuidSet::new(), key: PhantomData }
    }

    /// Creates an empty set with room for `capacity` keys.
    pub fn with_capacity(capacity: usize) -> (set: Self)
        ensures
            set@ == Set::<Uuid>::empty(),
            set.wf(),
    {
        UuidLikeSet { inner: UuidSet::with_capacity(capacity), key: PhantomData }
    }

    /// The number of keys.
    pub fn len(&self) -> (len: usize)
        ensures
            len == self@.len(),
    {
        self.inner.len()
    }

    /// Whether the set holds no key.
    pub fn is_empty(&self) -> (empty: bool)
        ensures
            empty == (self@ == Set::<Uuid>::empty()),
    {
        self.inner.is_empty()
    }

    /// Adds `key`, and tells whether its identifier was new.
    pub fn insert(&mut self, key: K) -> (fresh: bool)
        requires
            supported_id(key.uuid()),
        ensures
            final(self)@ == old(self)@.insert(key.uuid()),
            fresh == !old(self)@.contains(key.uuid()),
            final(self).wf(),
    {
        self.inner.insert(key.to_uuid())
    }

    /// Whether `key` is in the set.
    pub fn contains(&self, key: &K) -> (found: bool)
        requires
            supported_id(key.uuid()),
        ensures
            found == self@.contains(key.uuid()),
    {
        let id = key.to_uuid();
        self.inner.contains(&id)
    }

    /// Takes `key` out, and tells whether it was there.
    pub fn remove(&mut self, key: &K) -> (found: bool)
        requires
            supported_id(key.uuid()),
        ensures
            final(self)@ == old(self)@.remove(key.uuid()),
            found == old(self)@.contains(key.uuid()),
            final(self).wf(),
    {
        let id = key.to_uuid();
        self.inner.remove(&id)
    }

    /// Adds every key of `keys`.
    pub fn extend(&mut self, keys: Vec<K>)
        requires
            forall|i: int| 0 <= i < keys@.len() ==> supported_id((#[trigger] keys@[i]).uuid()),
        ensures
            final(self)@ == old(self)@.union(key_ids(keys@).to_set()),
            final(self).wf(),
    {
        self.inner.extend(ids_from_keys(keys));
    }

    /// Builds a set from the keys of `keys`.
    pub fn from_iter(keys: Vec<K>) -> (set: Self)
        requires
            forall|i: int| 0 <= i < keys@.len() ==> supported_id((#[trigger] keys@[i]).uuid()),
        ensures
            set@ == key_ids(keys@).to_set(),
            set.wf(),
    {
        UuidLikeSet { inner: UuidSet::from_iter(ids_from_keys(keys)), key: PhantomData }
    }

    /// The keys of the set, one for each identifier, in no stated order.
    pub fn to_vec(&self) -> (keys: Vec<K>)
        ensures
            key_ids(keys@).no_duplicates(),
            key_ids(keys@).to_set() == self@,
            forall|i: int| 0 <= i < keys@.len() ==> supported_id((#[trigger] keys@[i]).uuid()),
    {
        let keys: Vec<K> = keys_from_ids(self.inner.to_vec());
        assert forall|i: int| 0 <= i < keys@.len() implies supported_id(
            (#[trigger] keys@[i]).uuid(),
        ) by {
            assert(key_ids(keys@)[i] == keys@[i].uuid());
        }
        keys
    }

    /// Whether `keys` has as many keys as the set and each of them is in the
    /// set. For a list without repeated identifiers that is to hold the same
    /// keys, in whatever order.
    pub fn same_keys(&self, keys: &Vec<K>) -> (same: bool)
        requires
            forall|i: int| 0 <= i < keys@.len() ==> supported_id((#[trigger] keys@[i]).uuid()),
        ensures
            same == (keys@.len() == self@.len() && forall|i: int|
                0 <= i < keys@.len() ==> self@.contains((#[trigger] keys@[i]).uuid())),
            key_ids(keys@).no_duplicates() ==> same == (key_ids(keys@).to_set() == self@),
    {
        let mut ids: Vec<Uuid> = Vec::with_capacity(keys.len());
        let mut i: usize = 0;
        while i < keys.len()
            invariant
                i <= keys.len(),
                ids@ == key_ids(keys@.take(i as int)),
            decreases keys.len() - i,
        {
            let id = keys[i].to_uuid();
            proof {
                assert(key_ids(keys@.take(i + 1)) =~= key_ids(keys@.take(i as int)).push(id));
            }
            ids.push(id);
            i += 1;
        }
        proof {
            assert(keys@.take(keys@.len() as int) =~= keys@);
            assert forall|j: int| 0 <= j < ids@.len() implies supported_id(#[trigger] ids@[j]) by {
                assert(ids@[j] == keys@[j].uuid());
            }
        }
        let same = self.inner.same_ids(&ids);
        proof {
            assert forall|j: int| 0 <= j < keys@.len() implies (self@.contains(
                (#[trigger] keys@[j]).uuid(),
            ) <==> self@.contains(ids@[j])) by {
                assert(ids@[j] == keys@[j].uuid());
            }
        }
        same
    }

    /// Takes the set apart into its keys, one for each identifier, in no
    /// stated order.
    pub fn into_iter(self) -> (keys: Vec<K>)
        ensures
            key_ids(keys@).no_duplicates(),
            key_ids(keys@).to_set() == self@,
    {
        keys_from_ids(self.inner.into_iter())
    }
}

impl<K: UuidLike> Default for UuidLikeSet<K> {
    fn default() -> (set: Self)
        ensures
            set@ == Set::<Uuid>::empty(),
            set.wf(),
    {
        UuidLikeSet::new()
    }
}

impl<K: UuidLike> Clone for UuidLikeSet<K> {
    fn clone(&self) -> (copy: Self)
        ensures
            copy@ == self@,
    {
        UuidLikeSet { inner: self.inner.clone(), key: PhantomData }
    }
}

impl<K: UuidLike> PartialEqSpecImpl for UuidLikeSet<K> {
    open spec fn obeys_eq_spec() -> bool {
        true
    }

    /// Two sets are equal when their keys stand for the same identifiers.
    open spec fn eq_spec(&self, other: &Self) -> bool {
        self@ =~= other@
    }
}

impl<K: UuidLike> PartialEq for UuidLikeSet<K> {
    fn eq(&self, other: &Self) -> (equal: bool) {
        self.inner == other.inner
    }
}

impl<K: UuidLike> Eq for UuidLikeSet<K> {

}

} // verus!
