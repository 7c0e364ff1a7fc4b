//! The unordered set of identifiers.

use crate::hasher::UuidBuildHasher;
use crate::id::supported_id;
use std::collections::HashSet;
use std::ops::Deref;
use uuid::Uuid;
use vstd::prelude::*;
use vstd::std_specs::cmp::PartialEqSpecImpl;

verus! {

/// `HashSet::with_hasher`: the new set is empty.
pub assume_specification<T, S>[ HashSet::<T, S>::with_hasher ](hasher: S) -> (table: HashSet<T, S>)
    ensures
        table@ == Set::<T>::empty(),
;

/// `HashSet::with_capacity_and_hasher`: the new set is empty, whatever room
/// it has.
pub assume_specification<T, S>[ HashSet::<T, S>::with_capacity_and_hasher ](
    capacity: usize,
    hasher: S,
) -> (table: HashSet<T, S>)
    ensures
        table@ == Set::<T>::empty(),
;

/// `HashSet::len`: the number of identifiers.
#[verifier::external_body]
fn table_len(table: &HashSet<Uuid, UuidBuildHasher>) -> (len: usize)
    ensures
        len == table@.len(),
{
    table.len()
}

/// `HashSet::insert`: the identifier is in the set afterwards; the result
/// tells whether it was new. Hashing stops the program on an identifier of
/// another format.
#[verifier::external_body]
fn table_insert(table: &mut HashSet<Uuid, UuidBuildHasher>, id: Uuid) -> (fresh: bool)
    requires
        supported_id(id),
    ensures
        final(table)@ == old(table)@.insert(id),
        fresh == !old(table)@.contains(id),
{
    table.insert(id)
}

/// `HashSet::contains`: whether the identifier is in the set.
#[verifier::external_body]
fn table_contains(table: &HashSet<Uuid, UuidBuildHasher>, id: &Uuid) -> (found: bool)
    requires
        supported_id(*id),
    ensures
        found == table@.contains(*id),
{
    table.contains(id)
}

/// `HashSet::remove`: the identifier is not in the set afterwards; the
/// result tells whether it was there.
#[verifier::external_body]
fn table_remove(table: &mut HashSet<Uuid, UuidBuildHasher>, id: &Uuid) -> (found: bool)
    requires
        supported_id(*id),
    ensures
        final(table)@ == old(table)@.remove(*id),
        found == old(table)@.contains(*id),
{
    table.remove(id)
}

/// `HashSet::iter`, copied into a vector: each identifier of the set once.
/// The order is the table's own and is not stated.
#[verifier::external_body]
fn table_list(table: &HashSet<Uuid, UuidBuildHasher>) -> (ids: Vec<Uuid>)
    ensures
        ids@.no_duplicates(),
        ids@.to_set() == table@,
{
    table.iter().copied().collect()
}

/// `HashSet::clone`: a set with the same identifiers.
#[verifier::external_body]
fn table_clone(table: &HashSet<Uuid, UuidBuildHasher>) -> (copy: HashSet<Uuid, UuidBuildHasher>)
    ensures
        copy@ == table@,
{
    table.clone()
}

/// An unordered set of identifiers of version 4 or 7, hashed by their random
/// bytes.
#[derive(Debug)]
pub struct UuidSet {
    table: HashSet<Uuid, UuidBuildHasher>,
}

impl View for UuidSet {
    type V = Set<Uuid>;

    closed spec fn view(&self) -> Set<Uuid> {
        self.table@
    }
}

impl UuidSet {
    /// What holds of every set: it is finite, and each identifier in it is
    /// of a supported format.
    pub open spec fn wf(&self) -> bool {
        &&& self@.finite()
        &&& forall|id: Uuid| self@.contains(id) ==> supported_id(id)
    }

    #[verifier::type_invariant]
    spec fn inv(&self) -> bool {
        self.wf()
    }

    /// Creates an empty set.
    pub fn new() -> (set: Self)
        ensures
            set@ == Set::<Uuid>::empty(),
            set.wf(),
    {
        UuidSet { table: HashSet::with_hasher(UuidBuildHasher) }
    }

    /// Creates an empty set with room for `capacity` identifiers.
    pub fn with_capacity(capacity: usize) -> (set: Self)
        ensures
            set@ == Set::<Uuid>::empty(),
            set.wf(),
    {
        UuidSet { table: HashSet::with_capacity_and_hasher(capacity, UuidBuildHasher) }
    }

    /// Moves the table out and leaves an empty one, so that the table can
    /// change while the set stays valid.
    fn take_table(&mut self) -> (table: HashSet<Uuid, UuidBuildHasher>)
        ensures
            table@ == old(self)@,
            final(self)@ == Set::<Uuid>::empty(),
    {
        let mut table = HashSet::with_hasher(UuidBuildHasher);
        std::mem::swap(&mut table, &mut self.table);
        table
    }

    /// The number of identifiers.
    pub fn len(&self) -> (len: usize)
        ensures
            len == self@.len(),
    {
        table_len(&self.table)
    }

    /// Whether the set holds no identifier.
    pub fn is_empty(&self) -> (empty: bool)
        ensures
            empty == (self@ == Set::<Uuid>::empty()),
    {
        proof {
            use_type_invariant(self);
            if self@.len() == 0 {
                assert(self@ =~= Set::<Uuid>::empty());
            }
        }
        table_len(&self.table) == 0
    }

    /// Adds `id`, and tells whether it was new.
    pub fn insert(&mut self, id: Uuid) -> (fresh: bool)
        requires
            supported_id(id),
        ensures
            final(self)@ == old(self)@.insert(id),
            fresh == !old(self)@.contains(id),
            final(self).wf(),
    {
        proof {
            use_type_invariant(&*self);
        }
        let mut table = self.take_table();
        let fresh = table_insert(&mut table, id);
        self.table = table;
        fresh
    }

    /// Whether `id` is in the set.
    pub fn contains(&self, id: &Uuid) -> (found: bool)
        requires
            supported_id(*id),
        ensures
            found == self@.contains(*id),
    {
        table_contains(&self.table, id)
    }

    /// Takes `id` out, and tells whether it was there.
    pub fn remove(&mut self, id: &Uuid) -> (found: bool)
        requires
            supported_id(*id),
        ensures
            final(self)@ == old(self)@.remove(*id),
            found == old(self)@.contains(*id),
            final(self).wf(),
    {
        proof {
            use_type_invariant(&*self);
        }
        let mut table = self.take_table();
        let found = table_remove(&mut table, id);
        self.table = table;
        found
    }

    /// Adds every identifier of `ids`.
    pub fn extend(&mut self, ids: Vec<Uuid>)
        requires
            forall|i: int| 0 <= i < ids@.len() ==> supported_id(#[trigger] ids@[i]),
        ensures
            final(self)@ == old(self)@.union(ids@.to_set()),
            final(self).wf(),
    {
        proof {
            use_type_invariant(&*self);
        }
        let mut table = self.take_table();
        let ghost start = table@;
        let mut i: usize = 0;
        while i < ids.len()
            invariant
                i <= ids.len(),
                forall|j: int| 0 <= j < ids@.len() ==> supported_id(#[trigger] ids@[j]),
                table@ == start.union(ids@.take(i as int).to_set()),
                table@.finite(),
                forall|id: Uuid| table@.contains(id) ==> supported_id(id),
            decreases ids.len() - i,
        {
            proof {
                let before = ids@.take(i as int);
                let after = ids@.take(i + 1);
                assert(after =~= before.push(ids@[i as int]));
                assert forall|id: Uuid| after.to_set().contains(id) <==> before.to_set().contains(
                    id,
                ) || id == ids@[i as int] by {
                    if after.to_set().contains(id) {
                        let j = choose|j: int| 0 <= j < after.len() && after[j] == id;
                        if j < i {
                            assert(before[j] == id);
                        }
                    }
                    if before.to_set().contains(id) {
                        let j = choose|j: int| 0 <= j < before.len() && before[j] == id;
                        assert(after[j] == id);
                    }
                    if id == ids@[i as int] {
                        assert(after[i as int] == id);
                    }
                }
                assert(start.union(after.to_set()) =~= start.union(before.to_set()).insert(
                    ids@[i as int],
                ));
            }
            table_insert(&mut table, ids[i]);
            i += 1;
        }
        proof {
            assert(ids@.take(ids@.len() as int) =~= ids@);
        }
        self.table = table;
    }

    /// Builds a set from the identifiers of `ids`.
    pub fn from_iter(ids: Vec<Uuid>) -> (set: Self)
        requires
            forall|i: int| 0 <= i < ids@.len() ==> supported_id(#[trigger] ids@[i]),
        ensures
            set@ == ids@.to_set(),
            set.wf(),
    {
        let mut set = UuidSet::with_capacity(ids.len());
        set.extend(ids);
        set
    }

    /// The identifiers of the set, each once, in no stated order.
    pub fn to_vec(&self) -> (ids: Vec<Uuid>)
        ensures
            ids@.no_duplicates(),
            ids@.to_set() == self@,
            forall|i: int| 0 <= i < ids@.len() ==> supported_id(#[trigger] ids@[i]),
    {
        proof {
            use_type_invariant(self);
        }
        table_list(&self.table)
    }

    /// Whether `ids` has as many identifiers as the set and each of them is
    /// in the set. For a list without repeats that is to hold the same
    /// identifiers, in whatever order.
    pub fn same_ids(&self, ids: &Vec<Uuid>) -> (same: bool)
        requires
            forall|i: int| 0 <= i < ids@.len() ==> supported_id(#[trigger] ids@[i]),
        ensures
            same == (ids@.len() == self@.len() && forall|i: int|
                0 <= i < ids@.len() ==> self@.contains(#[trigger] ids@[i])),
            ids@.no_duplicates() ==> same == (ids@.to_set() == self@),
    {
        proof {
            use_type_invariant(self);
        }
        if ids.len() != table_len(&self.table) {
            proof {
                if ids@.no_duplicates() {
                    ids@.unique_seq_to_set();
                }
            }
            return false;
        }
        let mut i: usize = 0;
        while i < ids.len()
            invariant
                i <= ids.len(),
                forall|j: int| 0 <= j < ids@.len() ==> supported_id(#[trigger] ids@[j]),
                forall|j: int| 0 <= j < i ==> self@.contains(#[trigger] ids@[j]),
            decreases ids.len() - i,
        {
            if !table_contains(&self.table, &ids[i]) {
                return false;
            }
            i += 1;
        }
        proof {
            if ids@.no_duplicates() {
                ids@.unique_seq_to_set();
                vstd::set_lib::lemma_subset_equality(ids@.to_set(), self@);
            }
        }
        true
    }

    /// Takes the set apart into its identifiers, each once, in no stated
    /// order.
    pub fn into_iter(self) -> (ids: Vec<Uuid>)
        ensures
            ids@.no_duplicates(),
            ids@.to_set() == self@,
    {
        table_list(&self.table)
    }
}

impl Deref for UuidSet {
    type Target = HashSet<Uuid, UuidBuildHasher>;

    /// The table inside, to read from.
    fn deref(&self) -> (table: &HashSet<Uuid, UuidBuildHasher>)
        ensures
            table@ == self@,
    {
        &self.table
    }
}

impl Default for UuidSet {
    fn default() -> (set: Self)
        ensures
            set@ == Set::<Uuid>::empty(),
            set.wf(),
    {
        UuidSet::new()
    }
}

impl Clone for UuidSet {
    fn clone(&self) -> (copy: Self)
        ensures
            copy@ == self@,
    {
        proof {
            use_type_invariant(self);
        }
        UuidSet { table: table_clone(&self.table) }
    }
}

impl PartialEqSpecImpl for UuidSet {
    open spec fn obeys_eq_spec() -> bool {
        true
    }

    /// Two sets are equal when they hold the same identifiers.
    open spec fn eq_spec(&self, other: &Self) -> bool {
        self@ =~= other@
    }
}

impl PartialEq for UuidSet {
    fn eq(&self, other: &Self) -> (equal: bool) {
        proof {
            use_type_invariant(self);
            use_type_invariant(other);
        }
        if table_len(&self.table) != table_len(&other.table) {
            return false;
        }
        let ids = table_list(&self.table);
        let mut i: usize = 0;
        while i < ids.len()
            invariant
                i <= ids.len(),
                ids@.to_set() == self@,
                forall|id: Uuid| self@.contains(id) ==> supported_id(id),
                forall|j: int| 0 <= j < i ==> other@.contains(#[trigger] ids@[j]),
            decreases ids.len() - i,
        {
            let id = &ids[i];
            if !table_contains(&other.table, id) {
                return false;
            }
            i += 1;
        }
        proof {
            vstd::set_lib::lemma_subset_equality(self@, other@);
        }
        true
    }
}

impl Eq for UuidSet {

}

} // verus!
