//! The unordered map keyed by identifiers.

use crate::hasher::UuidBuildHasher;
use crate::id::supported_id;
use crate::model::{collect, empty_map, entry_keys, entry_values, enumerates};
use std::collections::HashMap;
use std::ops::Deref;
use uuid::Uuid;
use vstd::prelude::*;
use vstd::std_specs::cmp::{PartialEqSpec, PartialEqSpecImpl};

verus! {

/// `HashMap::with_hasher`: the new map is empty.
pub assume_specification<K, V, S>[ HashMap::<K, V, S>::with_hasher ](
    hash_builder: S,
) -> (table: HashMap<K, V, S>)
    ensures
        table@.dom() == Set::<K>::empty(),
;

/// `HashMap::with_capacity_and_hasher`: the new map is empty, whatever room
/// it has.
pub assume_specification<K, V, S>[ HashMap::<K, V, S>::with_capacity_and_hasher ](
    capacity: usize,
    hasher: S,
) -> (table: HashMap<K, V, S>)
    ensures
        table@.dom() == Set::<K>::empty(),
;

/// `HashMap::len`: the number of entries.
#[verifier::external_body]
fn table_len<V>(table: &HashMap<Uuid, V, UuidBuildHasher>) -> (len: usize)
    ensures
        len == table@.len(),
{
    table.len()
}

/// `HashMap::insert`: the entry is added, or takes the place of the entry
/// that `id` had, whose value is returned. Hashing stops the program on an
/// identifier of another format.
#[verifier::external_body]
fn table_insert<V>(table: &mut HashMap<Uuid, V, UuidBuildHasher>, id: Uuid, value: V) -> (previous:
    Option<V>)
    requires
        supported_id(id),
    ensures
        final(table)@ == old(table)@.insert(id, value),
        previous == if old(table)@.contains_key(id) {
            Some(old(table)@[id])
        } else {
            None
        },
{
    table.insert(id, value)
}

/// `HashMap::get`: the value that `id` has, if it has one.
#[verifier::external_body]
fn table_get<'a, V>(table: &'a HashMap<Uuid, V, UuidBuildHasher>, id: &Uuid) -> (value: Option<
    &'a V,
>)
    requires
        supported_id(*id),
    ensures
        value == if table@.contains_key(*id) {
            Some(&table@[*id])
        } else {
            None
        },
{
    table.get(id)
}

/// `HashMap::remove`: the entry of `id` leaves, and its value is returned.
#[verifier::external_body]
fn table_remove<V>(table: &mut HashMap<Uuid, V, UuidBuildHasher>, id: &Uuid) -> (removed: Option<V>)
    requires
        supported_id(*id),
    ensures
        final(table)@ == old(table)@.remove(*id),
        removed == if old(table)@.contains_key(*id) {
            Some(old(table)@[*id])
        } else {
            None
        },
{
    table.remove(id)
}

/// `HashMap::keys`, copied into a vector: each identifier of the table
/// once. The order is the table's own and is not stated.
#[verifier::external_body]
fn table_keys<V>(table: &HashMap<Uuid, V, UuidBuildHasher>) -> (keys: Vec<Uuid>)
    ensures
        keys@.no_duplicates(),
        keys@.to_set() == table@.dom(),
{
    table.keys().copied().collect()
}

/// `HashMap::into_iter`, collected into a vector: each entry of the table
/// once. The order is the table's own and is not stated.
#[verifier::external_body]
fn table_into_entries<V>(table: HashMap<Uuid, V, UuidBuildHasher>) -> (entries: Vec<(Uuid, V)>)
    ensures
        enumerates(entries@, table@),
{
    table.into_iter().collect()
}

/// An unordered map from identifiers of version 4 or 7 to values, hashed by
/// the random bytes of the identifiers.
#[derive(Debug)]
pub struct UuidMap<V> {
    table: HashMap<Uuid, V, UuidBuildHasher>,
}

impl<V> View for UuidMap<V> {
    type V = Map<Uuid, V>;

    closed spec fn view(&self) -> Map<Uuid, V> {
        self.table@
    }
}

impl<V> UuidMap<V> {
    /// What holds of every map: it is finite, and each identifier in it is
    /// of a supported format.
    pub open spec fn wf(&self) -> bool {
        &&& self@.dom().finite()
        &&& forall|id: Uuid| self@.contains_key(id) ==> supported_id(id)
    }

    #[verifier::type_invariant]
    spec fn inv(&self) -> bool {
        self.wf()
    }

    /// Creates an empty map.
    pub fn new() -> (map: Self)
        ensures
            map@ == empty_map::<V>(),
            map.wf(),
    {
        let table = HashMap::with_hasher(UuidBuildHasher);
        UuidMap { table }
    }

    /// Creates an empty map with room for `capacity` entries.
    pub fn with_capacity(capacity: usize) -> (map: Self)
        ensures
            map@ == empty_map::<V>(),
            map.wf(),
    {
        let table = HashMap::with_capacity_and_hasher(capacity, UuidBuildHasher);
        UuidMap { table }
    }

    /// Moves the table out and leaves an empty one, so that the table can
    /// change while the map stays valid.
    fn take_table(&mut self) -> (table: HashMap<Uuid, V, UuidBuildHasher>)
        ensures
            table@ == old(self)@,
            final(self)@ == empty_map::<V>(),
    {
        let mut table = HashMap::with_hasher(UuidBuildHasher);
        std::mem::swap(&mut table, &mut self.table);
        table
    }

    /// The number of entries.
    pub fn len(&self) -> (len: usize)
        ensures
            len == self@.len(),
    {
        proof {
            use_type_invariant(self);
        }
        table_len(&self.table)
    }

    /// Whether the map has no entry.
    pub fn is_empty(&self) -> (empty: bool)
        ensures
            empty == (self@ == empty_map::<V>()),
    {
        proof {
            use_type_invariant(self);
            if self@.len() == 0 {
                assert(self@ =~= empty_map::<V>());
            }
        }
        table_len(&self.table) == 0
    }

    /// Inserts an entry, or overwrites the value that `id` had, and returns
    /// that value.
    pub fn insert(&mut self, id: Uuid, value: V) -> (previous: Option<V>)
        requires
            supported_id(id),
        ensures
            final(self)@ == old(self)@.insert(id, value),
            previous == if old(self)@.contains_key(id) {
                Some(old(self)@[id])
            } else {
                None
            },
            final(self).wf(),
    {
        proof {
            use_type_invariant(&*self);
        }
        let mut table = self.take_table();
        let previous = table_insert(&mut table, id, value);
        self.table = table;
        previous
    }

    /// The value of `id`, if the map holds one.
    pub fn get(&self, id: &Uuid) -> (value: Option<&V>)
        requires
            supported_id(*id),
        ensures
            value == if self@.contains_key(*id) {
                Some(&self@[*id])
            } else {
                None
            },
    {
        table_get(&self.table, id)
    }

    /// Whether the map holds a value for `id`.
    pub fn contains_key(&self, id: &Uuid) -> (found: bool)
        requires
            supported_id(*id),
        ensures
            found == self@.contains_key(*id),
    {
        table_get(&self.table, id).is_some()
    }

    /// Removes the entry of `id`, if there is one, and returns its value.
    pub fn remove(&mut self, id: &Uuid) -> (removed: Option<V>)
        requires
            supported_id(*id),
        ensures
            final(self)@ == old(self)@.remove(*id),
            removed == if old(self)@.contains_key(*id) {
                Some(old(self)@[*id])
            } else {
                None
            },
            final(self).wf(),
    {
        proof {
            use_type_invariant(&*self);
        }
        let mut table = self.take_table();
        let removed = table_remove(&mut table, id);
        self.table = table;
        removed
    }

    /// Inserts the entries one by one, first to last.
    pub fn extend(&mut self, entries: Vec<(Uuid, V)>)
        requires
            forall|i: int| 0 <= i < entries@.len() ==> supported_id((#[trigger] entries@[i]).0),
        ensures
            final(self)@ == collect(old(self)@, entries@),
            final(self).wf(),
    {
        proof {
            use_type_invariant(&*self);
        }
        let mut table = self.take_table();
        let ghost all = entries@;
        let ghost start = table@;
        for entry in it: entries
            invariant
                it.seq() == all,
                forall|i: int| 0 <= i < all.len() ==> supported_id((#[trigger] all[i]).0),
                table@ == collect(start, all.take(it.index())),
                table@.dom().finite(),
                forall|id: Uuid| table@.contains_key(id) ==> supported_id(id),
        {
            proof {
                assert(all.take(it.index() + 1).drop_last() =~= all.take(it.index()));
            }
            table_insert(&mut table, entry.0, entry.1);
        }
        proof {
            assert(all.take(all.len() as int) =~= all);
        }
        self.table = table;
    }

    /// Builds a map from entries, inserted one by one, first to last.
    pub fn from_iter(entries: Vec<(Uuid, V)>) -> (map: Self)
        requires
            forall|i: int| 0 <= i < entries@.len() ==> supported_id((#[trigger] entries@[i]).0),
        ensures
            map@ == collect(empty_map::<V>(), entries@),
            map.wf(),
    {
        let mut map = UuidMap::with_capacity(entries.len());
        map.extend(entries);
        map
    }

    /// The identifiers of the map, each once, in no stated order.
    pub fn keys(&self) -> (keys: Vec<Uuid>)
        ensures
            keys@.no_duplicates(),
            keys@.to_set() == self@.dom(),
            forall|i: int| 0 <= i < keys@.len() ==> supported_id(#[trigger] keys@[i]),
    {
        proof {
            use_type_invariant(self);
        }
        table_keys(&self.table)
    }

    /// Whether `entries` has as many entries as the map and each of them has
    /// an equal value in the map. For a list without repeated identifiers
    /// that is to hold the same identifiers, with equal values, in whatever
    /// order.
    pub fn same_entries<A: PartialEq<V>>(&self, entries: &Vec<(Uuid, &A)>) -> (same: bool)
        requires
            forall|i: int| 0 <= i < entries@.len() ==> supported_id((#[trigger] entries@[i]).0),
        ensures
            A::obeys_eq_spec() ==> same == (entries@.len() == self@.len() && forall|i: int|
                0 <= i < entries@.len() ==> self@.contains_key((#[trigger] entries@[i]).0)
                    && entries@[i].1.eq_spec(&self@[entries@[i].0])),
            A::obeys_eq_spec() && entry_keys(entries@).no_duplicates() ==> same == (entry_keys(
                entries@,
            ).to_set() == self@.dom() && forall|i: int|
                0 <= i < entries@.len() ==> (#[trigger] entries@[i]).1.eq_spec(
                    &self@[entries@[i].0],
                )),
    {
        let ghost ids = entry_keys(entries@);
        proof {
            use_type_invariant(self);
            if ids.no_duplicates() {
                ids.unique_seq_to_set();
            }
        }
        if entries.len() != table_len(&self.table) {
            return false;
        }
        let mut i: usize = 0;
        while i < entries.len()
            invariant
                i <= entries.len(),
                ids == entry_keys(entries@),
                forall|j: int| 0 <= j < entries@.len() ==> supported_id((#[trigger] entries@[j]).0),
                forall|j: int| 0 <= j < i ==> self@.contains_key((#[trigger] entries@[j]).0),
                A::obeys_eq_spec() ==> forall|j: int|
                    0 <= j < i ==> (#[trigger] entries@[j]).1.eq_spec(&self@[entries@[j].0]),
            decreases entries.len() - i,
        {
            let entry = &entries[i];
            match table_get(&self.table, &entry.0) {
                Some(held) => {
                    if !(*entry.1 == *held) {
                        return false;
                    }
                },
                None => {
                    proof {
                        assert(ids[i as int] == entry.0);
                        assert(ids.to_set().contains(entry.0));
                    }
                    return false;
                },
            }
            i += 1;
        }
        proof {
            if ids.no_duplicates() {
                assert forall|id: Uuid| ids.to_set().contains(id) implies self@.dom().contains(
                    id,
                ) by {
                    let j = choose|j: int| 0 <= j < ids.len() && ids[j] == id;
                    assert(entries@[j].0 == id);
                }
                vstd::set_lib::lemma_subset_equality(ids.to_set(), self@.dom());
            }
        }
        true
    }

    /// Takes the map apart into its entries, each once, in no stated order.
    pub fn into_iter(self) -> (entries: Vec<(Uuid, V)>)
        ensures
            enumerates(entries@, self@),
    {
        table_into_entries(self.table)
    }

    /// Takes the map apart and keeps the identifiers, each once, in no
    /// stated order.
    pub fn into_keys(self) -> (keys: Vec<Uuid>)
        ensures
            keys@.no_duplicates(),
            keys@.to_set() == self@.dom(),
    {
        let entries = table_into_entries(self.table);
        let ghost all = entries@;
        let mut keys: Vec<Uuid> = Vec::with_capacity(entries.len());
        for entry in it: entries
            invariant
                it.seq() == all,
                keys@ == entry_keys(all.take(it.index())),
        {
            keys.push(entry.0);
        }
        proof {
            assert(all.take(all.len() as int) =~= all);
        }
        keys
    }

    /// Takes the map apart and keeps the values, one for each entry, in no
    /// stated order.
    pub fn into_values(self) -> (values: Vec<V>)
        ensures
            exists|entries: Seq<(Uuid, V)>|
                enumerates(entries, self@) && values@ == entry_values(entries),
    {
        let entries = table_into_entries(self.table);
        let ghost all = entries@;
        let mut values: Vec<V> = Vec::with_capacity(entries.len());
        for entry in it: entries
            invariant
                it.seq() == all,
                values@ == entry_values(all.take(it.index())),
        {
            values.push(entry.1);
        }
        proof {
            assert(all.take(all.len() as int) =~= all);
        }
        values
    }
}

impl<V> Deref for UuidMap<V> {
    type Target = HashMap<Uuid, V, UuidBuildHasher>;

    /// The table inside, to read from.
    fn deref(&self) -> (table: &HashMap<Uuid, V, UuidBuildHasher>)
        ensures
            table@ == self@,
    {
        &self.table
    }
}

impl<V> Default for UuidMap<V> {
    fn default() -> (map: Self)
        ensures
            map@ == empty_map::<V>(),
            map.wf(),
    {
        UuidMap::new()
    }
}

impl<V: Clone> Clone for UuidMap<V> {
    fn clone(&self) -> (copy: Self)
        ensures
            copy@ == self@,
    {
        proof {
            use_type_invariant(self);
        }
        UuidMap { table: self.table.clone() }
    }
}

impl<V: PartialEq> PartialEqSpecImpl for UuidMap<V> {
    open spec fn obeys_eq_spec() -> bool {
        V::obeys_eq_spec()
    }

    /// Two maps are equal when they hold the same identifiers, with equal
    /// values for each.
    open spec fn eq_spec(&self, other: &Self) -> bool {
        &&& self@.dom() =~= other@.dom()
        &&& forall|id: Uuid| self@.contains_key(id) ==> self@[id].eq_spec(&other@[id])
    }
}

impl<V: PartialEq> PartialEq for UuidMap<V> {
    fn eq(&self, other: &Self) -> (equal: bool) {
        proof {
            use_type_invariant(self);
            use_type_invariant(other);
        }
        if table_len(&self.table) != table_len(&other.table) {
            return false;
        }
        let keys = table_keys(&self.table);
        let mut i: usize = 0;
        while i < keys.len()
            invariant
                i <= keys.len(),
                keys@.to_set() == self@.dom(),
                forall|j: int| 0 <= j < keys@.len() ==> supported_id(#[trigger] keys@[j]),
                forall|j: int|
                    0 <= j < i ==> other@.contains_key(#[trigger] keys@[j]) && (V::obeys_eq_spec()
                        ==> self@[keys@[j]].eq_spec(&other@[keys@[j]])),
            decreases keys.len() - i,
        {
            let id = &keys[i];
            let ours = table_get(&self.table, id);
            let theirs = table_get(&other.table, id);
            match (ours, theirs) {
                (Some(a), Some(b)) => {
                    if !(*a == *b) {
                        return false;
                    }
                },
                _ => {
                    return false;
                },
            }
            i += 1;
        }
        proof {
            vstd::set_lib::lemma_subset_equality(self@.dom(), other@.dom());
        }
        true
    }
}

impl<V: Eq> Eq for UuidMap<V> {

}

} // verus!
