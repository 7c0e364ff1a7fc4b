//! The insertion-ordered set of identifiers.

use crate::hasher::UuidBuildHasher;
use crate::id::supported_id;
use crate::model::{swap_removed, with_id, with_ids};
use indexmap::IndexSet;
use std::ops::Deref;
use uuid::Uuid;
use vstd::prelude::*;
use vstd::std_specs::cmp::PartialEqSpecImpl;

verus! {

/// indexmap's `IndexSet`, seen through the identifiers that it holds.
#[verifier::external_type_specification]
#[verifier::external_body]
#[verifier::reject_recursive_types(T)]
#[verifier::reject_recursive_types(S)]
pub struct ExIndexSet<T, S>(IndexSet<T, S>);

/// The identifiers that an `IndexSet` holds, first to last.
pub uninterp spec fn ordered_ids(table: IndexSet<Uuid, UuidBuildHasher>) -> Seq<Uuid>;

/// `IndexSet::with_hasher`: the new set is empty.
#[verifier::external_body]
pub(crate) fn ordered_new() -> (table: IndexSet<Uuid, UuidBuildHasher>)
    ensures
        ordered_ids(table) == Seq::<Uuid>::empty(),
{
    IndexSet::with_hasher(UuidBuildHasher)
}

/// `IndexSet::with_capacity_and_hasher`: the new set is empty, whatever room
/// it has.
#[verifier::external_body]
pub(crate) fn ordered_with_capacity(capacity: usize) -> (table: IndexSet<Uuid, UuidBuildHasher>)
    ensures
        ordered_ids(table) == Seq::<Uuid>::empty(),
{
    IndexSet::with_capacity_and_hasher(capacity, UuidBuildHasher)
}

/// `IndexSet::len`: the number of identifiers.
#[verifier::external_body]
pub(crate) fn ordered_len(table: &IndexSet<Uuid, UuidBuildHasher>) -> (len: usize)
    ensures
        len == ordered_ids(*table).len(),
{
    table.len()
}

/// `IndexSet::insert_full`: a new identifier goes to the end, a known one
/// stays where it is. The result is the index of the identifier, and
/// whether it was new. Hashing stops the program on an identifier of
/// another format.
#[verifier::external_body]
pub(crate) fn ordered_insert_full(table: &mut IndexSet<Uuid, UuidBuildHasher>, id: Uuid) -> (placed:
    (usize, bool))
    requires
        supported_id(id),
    ensures
        placed.1 == !ordered_ids(*old(table)).contains(id),
        placed.1 ==> ordered_ids(*final(table)) == ordered_ids(*old(table)).push(id) && placed.0
            == ordered_ids(*old(table)).len(),
        !placed.1 ==> ordered_ids(*final(table)) == ordered_ids(*old(table)) && placed.0
            < ordered_ids(*old(table)).len() && ordered_ids(*old(table))[placed.0 as int] == id,
{
    table.insert_full(id)
}

/// `IndexSet::get_index_of`: the index of the identifier, if the set holds
/// it.
#[verifier::external_body]
pub(crate) fn ordered_index_of(table: &IndexSet<Uuid, UuidBuildHasher>, id: &Uuid) -> (found: Option<
    usize,
>)
    requires
        supported_id(*id),
    ensures
        match found {
            Some(index) => index < ordered_ids(*table).len() && ordered_ids(*table)[index as int]
                == *id,
            None => !ordered_ids(*table).contains(*id),
        },
{
    table.get_index_of(id)
}

/// `IndexSet::get_index`: the identifier at `index`, if there is one.
#[verifier::external_body]
pub(crate) fn ordered_at(table: &IndexSet<Uuid, UuidBuildHasher>, index: usize) -> (id: Option<
    &Uuid,
>)
    ensures
        id == if index < ordered_ids(*table).len() {
            Some(&ordered_ids(*table)[index as int])
        } else {
            None
        },
{
    table.get_index(index)
}

/// `IndexSet::swap_remove_full`: the identifier leaves and the last one takes
/// its place. The result is the index that the identifier had.
#[verifier::external_body]
pub(crate) fn ordered_swap_remove(table: &mut IndexSet<Uuid, UuidBuildHasher>, id: &Uuid) -> (found:
    Option<usize>)
    requires
        supported_id(*id),
    ensures
        match found {
            Some(index) => index < ordered_ids(*old(table)).len() && ordered_ids(
                *old(table),
            )[index as int] == *id && ordered_ids(*final(table)) == swap_removed(
                ordered_ids(*old(table)),
                index as int,
            ),
            None => !ordered_ids(*old(table)).contains(*id) && ordered_ids(*final(table))
                == ordered_ids(*old(table)),
        },
{
    table.swap_remove_full(id).map(|removed| removed.0)
}

/// `IndexSet::shift_remove_full`: the identifier leaves and those behind it
/// move up by one. The result is the index that the identifier had.
#[verifier::external_body]
pub(crate) fn ordered_shift_remove(table: &mut IndexSet<Uuid, UuidBuildHasher>, id: &Uuid) -> (found:
    Option<usize>)
    requires
        supported_id(*id),
    ensures
        match found {
            Some(index) => index < ordered_ids(*old(table)).len() && ordered_ids(
                *old(table),
            )[index as int] == *id && ordered_ids(*final(table)) == ordered_ids(
                *old(table),
            ).remove(index as int),
            None => !ordered_ids(*old(table)).contains(*id) && ordered_ids(*final(table))
                == ordered_ids(*old(table)),
        },
{
    table.shift_remove_full(id).map(|removed| removed.0)
}

/// `IndexSet::clone`: a set with the same identifiers in the same order.
#[verifier::external_body]
pub(crate) fn ordered_clone(table: &IndexSet<Uuid, UuidBuildHasher>) -> (copy: IndexSet<
    Uuid,
    UuidBuildHasher,
>)
    ensures
        ordered_ids(copy) == ordered_ids(*table),
{
    table.clone()
}

/// An insertion-ordered set of identifiers of version 4 or 7, hashed by
/// their random bytes.
#[derive(Debug)]
pub struct UuidIndexSet {
    table: IndexSet<Uuid, UuidBuildHasher>,
}

impl View for UuidIndexSet {
    type V = Seq<Uuid>;

    /// The identifiers, in the order in which they were first inserted.
    closed spec fn view(&self) -> Seq<Uuid> {
        ordered_ids(self.table)
    }
}

impl UuidIndexSet {
    /// What holds of every set: no identifier occurs twice, and each is of a
    /// supported format.
    pub open spec fn wf(&self) -> bool {
        &&& self@.no_duplicates()
        &&& forall|i: int| 0 <= i < self@.len() ==> supported_id(#[trigger] self@[i])
    }

    #[verifier::type_invariant]
    spec fn inv(&self) -> bool {
        self.wf()
    }

    /// Creates an empty set.
    pub fn new() -> (set: Self)
        ensures
            set@ == Seq::<Uuid>::empty(),
            set.wf(),
    {
        UuidIndexSet { table: ordered_new() }
    }

    /// Creates an empty set with room for `capacity` identifiers.
    pub fn with_capacity(capacity: usize) -> (set: Self)
        ensures
            set@ == Seq::<Uuid>::empty(),
            set.wf(),
    {
        UuidIndexSet { table: ordered_with_capacity(capacity) }
    }

    /// Moves the table out and leaves an empty one, so that the table can
    /// change while the set stays valid.
    fn take_table(&mut self) -> (table: IndexSet<Uuid, UuidBuildHasher>)
        ensures
            ordered_ids(table) == old(self)@,
            final(self)@ == Seq::<Uuid>::empty(),
    {
        let mut table = ordered_new();
        std::mem::swap(&mut table, &mut self.table);
        table
    }

    /// The number of identifiers.
    pub fn len(&self) -> (len: usize)
        ensures
            len == self@.len(),
    {
        ordered_len(&self.table)
    }

    /// Whether the set holds no identifier.
    pub fn is_empty(&self) -> (empty: bool)
        ensures
            empty == (self@.len() == 0),
    {
        ordered_len(&self.table) == 0
    }

    /// Adds `id` at the end unless the set holds it, and tells its index and
    /// whether it was new.
    pub fn insert_full(&mut self, id: Uuid) -> (placed: (usize, bool))
        requires
            supported_id(id),
        ensures
            final(self)@ == with_id(old(self)@, id),
            placed.1 == !old(self)@.contains(id),
            placed.0 < final(self)@.len(),
            final(self)@[placed.0 as int] == id,
            final(self).wf(),
    {
        proof {
            use_type_invariant(&*self);
        }
        let mut table = self.take_table();
        let placed = ordered_insert_full(&mut table, id);
        self.table = table;
        placed
    }

    /// Adds `id` at the end unless the set holds it, and tells whether it
    /// was new.
    pub fn insert(&mut self, id: Uuid) -> (fresh: bool)
        requires
            supported_id(id),
        ensures
            final(self)@ == with_id(old(self)@, id),
            fresh == !old(self)@.contains(id),
            final(self).wf(),
    {
        self.insert_full(id).1
    }

    /// Whether `id` is in the set.
    pub fn contains(&self, id: &Uuid) -> (found: bool)
        requires
            supported_id(*id),
        ensures
            found == self@.contains(*id),
    {
        ordered_index_of(&self.table, id).is_some()
    }

    /// The index of `id`, if the set holds it.
    pub fn get_index_of(&self, id: &Uuid) -> (found: Option<usize>)
        requires
            supported_id(*id),
        ensures
            match found {
                Some(index) => index < self@.len() && self@[index as int] == *id,
                None => !self@.contains(*id),
            },
    {
        ordered_index_of(&self.table, id)
    }

    /// The identifier at `index`, if there is one.
    pub fn get_index(&self, index: usize) -> (id: Option<&Uuid>)
        ensures
            id == if index < self@.len() {
                Some(&self@[index as int])
            } else {
                None
            },
    {
        ordered_at(&self.table, index)
    }

    /// Takes `id` out and puts the last identifier in its place: the order of
    /// the others stays, but for that one. Tells whether `id` was there.
    pub fn swap_remove(&mut self, id: &Uuid) -> (found: bool)
        requires
            supported_id(*id),
        ensures
            found == old(self)@.contains(*id),
            found ==> final(self)@ == swap_removed(old(self)@, old(self)@.index_of(*id)),
            !found ==> final(self)@ == old(self)@,
            final(self).wf(),
    {
        proof {
            use_type_invariant(&*self);
        }
        let mut table = self.take_table();
        let found = ordered_swap_remove(&mut table, id);
        self.table = table;
        found.is_some()
    }

    /// Takes `id` out and moves up those behind it: the order of the others
    /// stays. Tells whether `id` was there.
    pub fn shift_remove(&mut self, id: &Uuid) -> (found: bool)
        requires
            supported_id(*id),
        ensures
            found == old(self)@.contains(*id),
            found ==> final(self)@ == old(self)@.remove(old(self)@.index_of(*id)),
            !found ==> final(self)@ == old(self)@,
            final(self).wf(),
    {
        proof {
            use_type_invariant(&*self);
        }
        let mut table = self.take_table();
        let found = ordered_shift_remove(&mut table, id);
        self.table = table;
        found.is_some()
    }

    /// Adds the identifiers of `ids` one by one, first to last.
    pub fn extend(&mut self, ids: Vec<Uuid>)
        requires
            forall|i: int| 0 <= i < ids@.len() ==> supported_id(#[trigger] ids@[i]),
        ensures
            final(self)@ == with_ids(old(self)@, ids@),
            final(self).wf(),
    {
        proof {
            use_type_invariant(&*self);
        }
        let ghost start = self@;
        let mut i: usize = 0;
        while i < ids.len()
            invariant
                i <= ids.len(),
                forall|j: int| 0 <= j < ids@.len() ==> supported_id(#[trigger] ids@[j]),
                self@ == with_ids(start, ids@.take(i as int)),
                self.wf(),
            decreases ids.len() - i,
        {
            proof {
                assert(ids@.take(i + 1).drop_last() =~= ids@.take(i as int));
            }
            self.insert_full(ids[i]);
            i += 1;
        }
        proof {
            assert(ids@.take(ids@.len() as int) =~= ids@);
        }
    }

    /// Builds a set from the identifiers of `ids`, added one by one, first to
    /// last.
    pub fn from_iter(ids: Vec<Uuid>) -> (set: Self)
        requires
            forall|i: int| 0 <= i < ids@.len() ==> supported_id(#[trigger] ids@[i]),
        ensures
            set@ == with_ids(Seq::<Uuid>::empty(), ids@),
            set.wf(),
    {
        let mut set = UuidIndexSet::with_capacity(ids.len());
        set.extend(ids);
        set
    }

    /// The identifiers of the set, in order.
    pub fn to_vec(&self) -> (ids: Vec<Uuid>)
        ensures
            ids@ == self@,
    {
        let len = ordered_len(&self.table);
        let mut ids: Vec<Uuid> = Vec::with_capacity(len);
        let mut i: usize = 0;
        while i < len
            invariant
                i <= len,
                len == self@.len(),
                ids@ == self@.take(i as int),
            decreases len - i,
        {
            match ordered_at(&self.table, i) {
                Some(id) => {
                    ids.push(*id);
                },
                None => {},
            }
            i += 1;
        }
        ids
    }

    /// Takes the set apart into its identifiers, in order.
    pub fn into_iter(self) -> (ids: Vec<Uuid>)
        ensures
            ids@ == self@,
    {
        self.to_vec()
    }
}

impl Deref for UuidIndexSet {
    type Target = IndexSet<Uuid, UuidBuildHasher>;

    /// The table inside, to read from.
    fn deref(&self) -> (table: &IndexSet<Uuid, UuidBuildHasher>)
        ensures
            ordered_ids(*table) == self@,
    {
        &self.table
    }
}

impl Default for UuidIndexSet {
    fn default() -> (set: Self)
        ensures
            set@ == Seq::<Uuid>::empty(),
            set.wf(),
    {
        UuidIndexSet::new()
    }
}

impl Clone for UuidIndexSet {
    fn clone(&self) -> (copy: Self)
        ensures
            copy@ == self@,
    {
        proof {
            use_type_invariant(self);
        }
        UuidIndexSet { table: ordered_clone(&self.table) }
    }
}

impl PartialEqSpecImpl for UuidIndexSet {
    open spec fn obeys_eq_spec() -> bool {
        true
    }

    /// Two sets are equal when they hold the same identifiers, in whatever
    /// order.
    open spec fn eq_spec(&self, other: &Self) -> bool {
        self@.to_set() =~= other@.to_set()
    }
}

impl PartialEq for UuidIndexSet {
    fn eq(&self, other: &Self) -> (equal: bool) {
        proof {
            use_type_invariant(self);
            use_type_invariant(other);
            self@.unique_seq_to_set();
            other@.unique_seq_to_set();
        }
        let len = ordered_len(&self.table);
        if len != ordered_len(&other.table) {
            return false;
        }
        let mut i: usize = 0;
        while i < len
            invariant
                i <= len,
                len == self@.len(),
                forall|j: int| 0 <= j < self@.len() ==> supported_id(#[trigger] self@[j]),
                forall|j: int| 0 <= j < i ==> other@.contains(#[trigger] self@[j]),
            decreases len - i,
        {
            match ordered_at(&self.table, i) {
                Some(id) => {
                    if ordered_index_of(&other.table, id).is_none() {
                        assert(!other@.to_set().contains(*id));
                        return false;
                    }
                },
                None => {},
            }
            i += 1;
        }
        proof {
            vstd::set_lib::lemma_subset_equality(self@.to_set(), other@.to_set());
        }
        true
    }
}

impl Eq for UuidIndexSet {

}

} // verus!
