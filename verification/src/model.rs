//! The mathematical models that the containers' contracts speak of.

use uuid::Uuid;
use vstd::prelude::*;

verus! {

/// The map without entries.
pub open spec fn empty_map<V>() -> Map<Uuid, V> {
    Map::empty()
}

/// The identifiers of a sequence of entries, in order.
pub open spec fn entry_keys<V>(entries: Seq<(Uuid, V)>) -> Seq<Uuid> {
    entries.map_values(|entry: (Uuid, V)| entry.0)
}

/// The values of a sequence of entries, in order.
pub open spec fn entry_values<V>(entries: Seq<(Uuid, V)>) -> Seq<V> {
    entries.map_values(|entry: (Uuid, V)| entry.1)
}

/// `entries` lists every entry of `map` exactly once, in whatever order.
pub open spec fn enumerates<V>(entries: Seq<(Uuid, V)>, map: Map<Uuid, V>) -> bool {
    &&& entry_keys(entries).no_duplicates()
    &&& entry_keys(entries).to_set() == map.dom()
    &&& forall|i: int| 0 <= i < entries.len() ==> map[(#[trigger] entries[i]).0] == entries[i].1
}

/// `map` after the entries were inserted one by one, first to last: of two
/// entries with one identifier the later one stays.
pub open spec fn collect<V>(map: Map<Uuid, V>, entries: Seq<(Uuid, V)>) -> Map<Uuid, V>
    decreases entries.len(),
{
    if entries.len() == 0 {
        map
    } else {
        collect(map, entries.drop_last()).insert(entries.last().0, entries.last().1)
    }
}

/// `items` after the item at `index` was taken out and the last item was put
/// in its place.
pub open spec fn swap_removed<T>(items: Seq<T>, index: int) -> Seq<T> {
    items.update(index, items.last()).drop_last()
}

/// `ids` with `id` at the end, unless `ids` holds it already.
pub open spec fn with_id(ids: Seq<Uuid>, id: Uuid) -> Seq<Uuid> {
    if ids.contains(id) {
        ids
    } else {
        ids.push(id)
    }
}

/// `ids` after the identifiers of `more` were added one by one, first to
/// last: each new one goes to the end, each known one stays where it is.
pub open spec fn with_ids(ids: Seq<Uuid>, more: Seq<Uuid>) -> Seq<Uuid>
    decreases more.len(),
{
    if more.len() == 0 {
        ids
    } else {
        with_id(with_ids(ids, more.drop_last()), more.last())
    }
}

/// `entries` with the entry of `id` set to `value`: a new identifier goes to
/// the end, a known one keeps its place and gets the new value.
pub open spec fn with_entry<V>(entries: Seq<(Uuid, V)>, id: Uuid, value: V) -> Seq<(Uuid, V)> {
    if entry_keys(entries).contains(id) {
        entries.update(entry_keys(entries).index_of(id), (id, value))
    } else {
        entries.push((id, value))
    }
}

/// `entries` after the entries of `more` were inserted one by one, first to
/// last.
pub open spec fn with_entries<V>(entries: Seq<(Uuid, V)>, more: Seq<(Uuid, V)>) -> Seq<(Uuid, V)>
    decreases more.len(),
{
    if more.len() == 0 {
        entries
    } else {
        with_entry(with_entries(entries, more.drop_last()), more.last().0, more.last().1)
    }
}

/// The value that `id` has in `entries`, if it has one.
pub open spec fn value_of<V>(entries: Seq<(Uuid, V)>, id: Uuid) -> Option<V> {
    if entry_keys(entries).contains(id) {
        Some(entries[entry_keys(entries).index_of(id)].1)
    } else {
        None
    }
}

} // verus!
