//! The insertion-ordered map keyed by identifiers.
//!
//! The identifiers live in an ordered set, and the values in a vector beside
//! it: the value of the identifier at index `i` is at index `i`.

use crate::hasher::UuidBuildHasher;
use crate::id::supported_id;
use crate::index_set::{
    ordered_at, ordered_clone, ordered_ids, ordered_index_of, ordered_insert_full, ordered_len,
    ordered_new, ordered_shift_remove, ordered_swap_remove, ordered_with_capacity,
};
use crate::model::{
    entry_keys, entry_values, swap_removed, value_of, with_entries, with_entry,
};
use indexmap::IndexSet;
use uuid::Uuid;
use vstd::prelude::*;
use vstd::std_specs::cmp::{PartialEqSpec, PartialEqSpecImpl};

verus! {

/// An insertion-ordered map from identifiers of version 4 or 7 to values,
/// hashed by the random bytes of the identifiers.
#[derive(Debug)]
pub struct UuidIndexMap<V> {
    keys: IndexSet<Uuid, UuidBuildHasher>,
    values: Vec<V>,
}

impl<V> View for UuidIndexMap<V> {
    type V = Seq<(Uuid, V)>;

    /// The entries, in the order in which their identifiers were first
    /// inserted.
    closed spec fn view(&self) -> Seq<(Uuid, V)> {
        Seq::new(self.values@.len(), |i: int| (ordered_ids(self.keys)[i], self.values@[i]))
    }
}

impl<V> UuidIndexMap<V> {
    /// What holds of every map: no identifier occurs twice, and each is of a
    /// supported format.
    pub open spec fn wf(&self) -> bool {
        &&& entry_keys(self@).no_duplicates()
        &&& forall|i: int| 0 <= i < self@.len() ==> supported_id((#[trigger] self@[i]).0)
    }

    #[verifier::type_invariant]
    spec fn inv(&self) -> bool {
        &&& ordered_ids(self.keys).len() == self.values@.len()
        &&& self.wf()
    }

    /// The entries of a map are its identifiers beside its values.
    proof fn lemma_view(self)
        requires
            ordered_ids(self.keys).len() == self.values@.len(),
        ensures
            entry_keys(self@) == ordered_ids(self.keys),
            entry_values(self@) == self.values@,
            self@.len() == self.values@.len(),
    {
    }

    /// Creates an empty map.
    pub fn new() -> (map: Self)
        ensures
            map@ == Seq::<(Uuid, V)>::empty(),
            map.wf(),
    {
        UuidIndexMap { keys: ordered_new(), values: Vec::new() }
    }

    /// Creates an empty map with room for `capacity` entries.
    pub fn with_capacity(capacity: usize) -> (map: Self)
        ensures
            map@ == Seq::<(Uuid, V)>::empty(),
            map.wf(),
    {
        UuidIndexMap { keys: ordered_with_capacity(capacity), values: Vec::with_capacity(capacity) }
    }

    /// Moves the two parts out and leaves an empty map, so that the parts can
    /// change one after the other while the map stays valid.
    fn take_parts(&mut self) -> (parts: (IndexSet<Uuid, UuidBuildHasher>, Vec<V>))
        ensures
            ordered_ids(parts.0) == entry_keys(old(self)@),
            parts.1@ == entry_values(old(self)@),
            parts.1@.len() == old(self)@.len(),
            old(self).wf(),
            final(self)@ == Seq::<(Uuid, V)>::empty(),
    {
        proof {
            use_type_invariant(&*self);
            self.lemma_view();
        }
        let mut taken = UuidIndexMap::new();
        std::mem::swap(self, &mut taken);
        (taken.keys, taken.values)
    }

    /// The number of entries.
    pub fn len(&self) -> (len: usize)
        ensures
            len == self@.len(),
    {
        self.values.len()
    }

    /// Whether the map has no entry.
    pub fn is_empty(&self) -> (empty: bool)
        ensures
            empty == (self@.len() == 0),
    {
        self.values.len() == 0
    }

    /// Inserts an entry at the end, or overwrites the value that `id` had
    /// and leaves the entry where it is. Returns the index of the entry and
    /// the value that `id` had.
    pub fn insert_full(&mut self, id: Uuid, value: V) -> (placed: (usize, Option<V>))
        requires
            supported_id(id),
        ensures
            final(self)@ == with_entry(old(self)@, id, value),
            placed.1 == value_of(old(self)@, id),
            placed.0 < final(self)@.len(),
            final(self)@[placed.0 as int] == (id, value),
            final(self).wf(),
    {
        let (mut keys, mut values) = self.take_parts();
        let (index, fresh) = ordered_insert_full(&mut keys, id);
        let previous = if fresh {
            values.push(value);
            None
        } else {
            let mut slot = value;
            values.set_and_swap(index, &mut slot);
            Some(slot)
        };
        let map = UuidIndexMap { keys, values };
        proof {
            map.lemma_view();
        }
        *self = map;
        (index, previous)
    }

    /// Inserts an entry at the end, or overwrites the value that `id` had
    /// and leaves the entry where it is. Returns the value that `id` had.
    pub fn insert(&mut self, id: Uuid, value: V) -> (previous: Option<V>)
        requires
            supported_id(id),
        ensures
            final(self)@ == with_entry(old(self)@, id, value),
            previous == value_of(old(self)@, id),
            final(self).wf(),
    {
        self.insert_full(id, value).1
    }

    /// The index of the entry of `id`, if the map holds one.
    pub fn get_index_of(&self, id: &Uuid) -> (found: Option<usize>)
        requires
            supported_id(*id),
        ensures
            match found {
                Some(index) => index < self@.len() && self@[index as int].0 == *id,
                None => !entry_keys(self@).contains(*id),
            },
    {
        proof {
            use_type_invariant(self);
            self.lemma_view();
        }
        ordered_index_of(&self.keys, id)
    }

    /// The value of `id`, if the map holds one.
    pub fn get(&self, id: &Uuid) -> (value: Option<&V>)
        requires
            supported_id(*id),
        ensures
            value == match value_of(self@, *id) {
                Some(held) => Some(&held),
                None => None,
            },
    {
        proof {
            use_type_invariant(self);
            self.lemma_view();
        }
        match ordered_index_of(&self.keys, id) {
            Some(index) => {
                Some(&self.values[index])
            },
            None => None,
        }
    }

    /// Whether the map holds a value for `id`.
    pub fn contains_key(&self, id: &Uuid) -> (found: bool)
        requires
            supported_id(*id),
        ensures
            found == entry_keys(self@).contains(*id),
    {
        proof {
            use_type_invariant(self);
            self.lemma_view();
        }
        ordered_index_of(&self.keys, id).is_some()
    }

    /// The entry at `index`, if there is one.
    pub fn get_index(&self, index: usize) -> (entry: Option<(&Uuid, &V)>)
        ensures
            entry == if index < self@.len() {
                Some((&self@[index as int].0, &self@[index as int].1))
            } else {
                None
            },
    {
        proof {
            use_type_invariant(self);
            self.lemma_view();
        }
        match ordered_at(&self.keys, index) {
            Some(id) => Some((id, &self.values[index])),
            None => None,
        }
    }

    /// Removes the entry of `id` and puts the last entry in its place: the
    /// order of the others stays, but for that one. Returns the value that
    /// `id` had.
    pub fn swap_remove(&mut self, id: &Uuid) -> (removed: Option<V>)
        requires
            supported_id(*id),
        ensures
            removed == value_of(old(self)@, *id),
            removed.is_some() ==> final(self)@ == swap_removed(
                old(self)@,
                entry_keys(old(self)@).index_of(*id),
            ),
            removed.is_none() ==> final(self)@ == old(self)@,
            final(self).wf(),
    {
        let (mut keys, mut values) = self.take_parts();
        let removed = match ordered_swap_remove(&mut keys, id) {
            Some(index) => Some(values.swap_remove(index)),
            None => None,
        };
        let map = UuidIndexMap { keys, values };
        proof {
            map.lemma_view();
        }
        *self = map;
        removed
    }

    /// Removes the entry of `id` and moves up those behind it: the order of
    /// the others stays. Returns the value that `id` had.
    pub fn shift_remove(&mut self, id: &Uuid) -> (removed: Option<V>)
        requires
            supported_id(*id),
        ensures
            removed == value_of(old(self)@, *id),
            removed.is_some() ==> final(self)@ == old(self)@.remove(
                entry_keys(old(self)@).index_of(*id),
            ),
            removed.is_none() ==> final(self)@ == old(self)@,
            final(self).wf(),
    {
        let (mut keys, mut values) = self.take_parts();
        let removed = match ordered_shift_remove(&mut keys, id) {
            Some(index) => Some(values.remove(index)),
            None => None,
        };
        let map = UuidIndexMap { keys, values };
        proof {
            map.lemma_view();
        }
        *self = map;
        removed
    }

    /// Inserts the entries one by one, first to last.
    pub fn extend(&mut self, entries: Vec<(Uuid, V)>)
        requires
            forall|i: int| 0 <= i < entries@.len() ==> supported_id((#[trigger] entries@[i]).0),
        ensures
            final(self)@ == with_entries(old(self)@, entries@),
            final(self).wf(),
    {
        proof {
            use_type_invariant(&*self);
        }
        let ghost all = entries@;
        let ghost start = self@;
        for entry in it: entries
            invariant
                it.seq() == all,
                forall|i: int| 0 <= i < all.len() ==> supported_id((#[trigger] all[i]).0),
                self@ == with_entries(start, all.take(it.index())),
                self.wf(),
        {
            proof {
                assert(all.take(it.index() + 1).drop_last() =~= all.take(it.index()));
            }
            self.insert_full(entry.0, entry.1);
        }
        proof {
            assert(all.take(all.len() as int) =~= all);
        }
    }

    /// Builds a map from entries, inserted one by one, first to last.
    pub fn from_iter(entries: Vec<(Uuid, V)>) -> (map: Self)
        requires
            forall|i: int| 0 <= i < entries@.len() ==> supported_id((#[trigger] entries@[i]).0),
        ensures
            map@ == with_entries(Seq::<(Uuid, V)>::empty(), entries@),
            map.wf(),
    {
        let mut map = UuidIndexMap::with_capacity(entries.len());
        map.extend(entries);
        map
    }

    /// The identifiers of the map, in order.
    pub fn keys(&self) -> (keys: Vec<Uuid>)
        ensures
            keys@ == entry_keys(self@),
    {
        proof {
            use_type_invariant(self);
            self.lemma_view();
        }
        let len = ordered_len(&self.keys);
        let ghost ids = ordered_ids(self.keys);
        let mut keys: Vec<Uuid> = Vec::with_capacity(len);
        let mut i: usize = 0;
        while i < len
            invariant
                i <= len,
                len == ids.len(),
                ids == ordered_ids(self.keys),
                keys@ == ids.take(i as int),
            decreases len - i,
        {
            match ordered_at(&self.keys, i) {
                Some(id) => {
                    keys.push(*id);
                },
                None => {},
            }
            i += 1;
        }
        keys
    }

    /// Takes the map apart into its entries, in order.
    pub fn into_iter(self) -> (entries: Vec<(Uuid, V)>)
        ensures
            entries@ == self@,
    {
        proof {
            use_type_invariant(&self);
            self.lemma_view();
        }
        let ghost whole = self@;
        let keys = self.keys;
        let values = self.values;
        let ghost held = values@;
        let mut entries: Vec<(Uuid, V)> = Vec::with_capacity(values.len());
        for value in it: values
            invariant
                it.seq() == held,
                held.len() == whole.len(),
                ordered_ids(keys).len() == whole.len(),
                forall|i: int|
                    0 <= i < whole.len() ==> #[trigger] whole[i] == (ordered_ids(keys)[i], held[i]),
                entries@ == whole.take(it.index()),
        {
            let index = entries.len();
            match ordered_at(&keys, index) {
                Some(id) => {
                    entries.push((*id, value));
                },
                None => {},
            }
        }
        entries
    }

    /// Takes the map apart and keeps the identifiers, in order.
    pub fn into_keys(self) -> (keys: Vec<Uuid>)
        ensures
            keys@ == entry_keys(self@),
    {
        self.keys()
    }

    /// Takes the map apart and keeps the values, in order.
    pub fn into_values(self) -> (values: Vec<V>)
        ensures
            values@ == entry_values(self@),
    {
        proof {
            use_type_invariant(&self);
            self.lemma_view();
        }
        self.values
    }
}

impl<V> Default for UuidIndexMap<V> {
    fn default() -> (map: Self)
        ensures
            map@ == Seq::<(Uuid, V)>::empty(),
            map.wf(),
    {
        UuidIndexMap::new()
    }
}

impl<V: Clone> Clone for UuidIndexMap<V> {
    fn clone(&self) -> (copy: Self)
        ensures
            entry_keys(copy@) == entry_keys(self@),
            forall|i: int| 0 <= i < self@.len() ==> cloned(self@[i].1, #[trigger] copy@[i].1),
    {
        proof {
            use_type_invariant(self);
            self.lemma_view();
        }
        let keys = ordered_clone(&self.keys);
        let values = self.values.clone();
        let copy = UuidIndexMap { keys, values };
        proof {
            copy.lemma_view();
        }
        copy
    }
}

impl<V: PartialEq> PartialEqSpecImpl for UuidIndexMap<V> {
    open spec fn obeys_eq_spec() -> bool {
        V::obeys_eq_spec()
    }

    /// Two maps are equal when they hold the same identifiers, in whatever
    /// order, with equal values for each.
    open spec fn eq_spec(&self, other: &Self) -> bool {
        &&& entry_keys(self@).to_set() =~= entry_keys(other@).to_set()
        &&& forall|i: int, j: int|
            0 <= i < self@.len() && 0 <= j < other@.len() && (#[trigger] self@[i]).0 == (
            #[trigger] other@[j]).0 ==> self@[i].1.eq_spec(&other@[j].1)
    }
}

impl<V: PartialEq> PartialEq for UuidIndexMap<V> {
    fn eq(&self, other: &Self) -> (equal: bool) {
        proof {
            use_type_invariant(self);
            use_type_invariant(other);
            self.lemma_view();
            other.lemma_view();
            entry_keys(self@).unique_seq_to_set();
            entry_keys(other@).unique_seq_to_set();
        }
        let len = self.values.len();
        if len != other.values.len() {
            return false;
        }
        let mut i: usize = 0;
        while i < len
            invariant
                i <= len,
                len == self@.len(),
                len == other@.len(),
                self.wf(),
                other.wf(),
                self.values@ == entry_values(self@),
                other.values@ == entry_values(other@),
                ordered_ids(self.keys) == entry_keys(self@),
                ordered_ids(other.keys) == entry_keys(other@),
                forall|k: int|
                    0 <= k < i ==> entry_keys(other@).contains(#[trigger] entry_keys(self@)[k]),
                V::obeys_eq_spec() ==> forall|k: int, j: int|
                    0 <= k < i && 0 <= j < other@.len() && (#[trigger] self@[k]).0 == (
                    #[trigger] other@[j]).0 ==> self@[k].1.eq_spec(&other@[j].1),
            decreases len - i,
        {
            match ordered_at(&self.keys, i) {
                Some(id) => {
                    match ordered_index_of(&other.keys, id) {
                        Some(index) => {
                            if !(self.values[i] == other.values[index]) {
                                return false;
                            }
                        },
                        None => {
                            assert(!entry_keys(other@).to_set().contains(*id));
                            return false;
                        },
                    }
                },
                None => {},
            }
            i += 1;
        }
        proof {
            vstd::set_lib::lemma_subset_equality(
                entry_keys(self@).to_set(),
                entry_keys(other@).to_set(),
            );
        }
        true
    }
}

impl<V: Eq> Eq for UuidIndexMap<V> {

}

} // verus!
