//! Laws of the containers, stated over the models that their contracts use.

use crate::hasher::version;
use crate::id::{supported_id, uuid_bytes};
use crate::index_map::UuidIndexMap;
use crate::index_set::UuidIndexSet;
use crate::map::UuidMap;
use crate::model::{
    collect, empty_map, entry_keys, enumerates, swap_removed, value_of, with_entries, with_entry,
    with_id, with_ids,
};
use crate::set::UuidSet;
use uuid::Uuid;
use vstd::prelude::*;

verus! {

/// After `a` and then `b` went into an empty map, `a` has the value that
/// was inserted for it, and an identifier that was never inserted has none.
pub proof fn lemma_map_insert_two<V>(a: Uuid, b: Uuid, c: Uuid, x: V, y: V)
    requires
        a != b,
        c != a,
        c != b,
    ensures
        empty_map::<V>().insert(a, x).insert(b, y).contains_key(a),
        empty_map::<V>().insert(a, x).insert(b, y)[a] == x,
        !empty_map::<V>().insert(a, x).insert(b, y).contains_key(c),
{
}

/// After `a` and then `b` went into an empty ordered map, `a` has the value
/// that was inserted for it, and an identifier that was never inserted has
/// none.
pub proof fn lemma_index_map_insert_two<V>(a: Uuid, b: Uuid, c: Uuid, x: V, y: V)
    requires
        a != b,
        c != a,
        c != b,
    ensures
        with_entry(with_entry(Seq::<(Uuid, V)>::empty(), a, x), b, y) == seq![(a, x), (b, y)],
        value_of(seq![(a, x), (b, y)], a) == Some(x),
        value_of(seq![(a, x), (b, y)], c) == None::<V>,
{
    let none = Seq::<(Uuid, V)>::empty();
    let one = with_entry(none, a, x);
    assert(entry_keys(none) =~= Seq::<Uuid>::empty());
    assert(one =~= seq![(a, x)]);
    assert(entry_keys(one) =~= seq![a]);
    let two = with_entry(one, b, y);
    assert(two =~= seq![(a, x), (b, y)]);
    assert(entry_keys(two) =~= seq![a, b]);
    assert(entry_keys(two)[0] == a);
    assert(entry_keys(two).index_of(a) == 0);
}

/// Inserting an entry changes nothing for any other identifier of an ordered
/// map: neither whether it is found, nor its value.
pub proof fn lemma_index_map_insert_keeps_others<V>(
    entries: Seq<(Uuid, V)>,
    id: Uuid,
    value: V,
    other: Uuid,
)
    requires
        entry_keys(entries).no_duplicates(),
        other != id,
    ensures
        entry_keys(with_entry(entries, id, value)).no_duplicates(),
        value_of(with_entry(entries, id, value), other) == value_of(entries, other),
        value_of(with_entry(entries, id, value), id) == Some(value),
{
    let keys = entry_keys(entries);
    let after = with_entry(entries, id, value);
    if keys.contains(id) {
        assert(entry_keys(after) =~= keys);
        if keys.contains(other) {
            let i = keys.index_of(other);
            assert(entry_keys(after)[i] == other);
        }
    } else {
        assert(entry_keys(after) =~= keys.push(id));
        assert(entry_keys(after)[keys.len() as int] == id);
        if keys.contains(other) {
            let i = keys.index_of(other);
            assert(entry_keys(after)[i] == other);
        }
        if entry_keys(after).contains(other) {
            let i = entry_keys(after).index_of(other);
            assert(keys[i] == other);
        }
    }
}

/// A container holds no identifier of another version than 4 or 7: such an
/// identifier meets the precondition of no operation, and no valid map has
/// it as a key.
pub proof fn lemma_map_rejects_other_versions<V>(map: UuidMap<V>, id: Uuid)
    requires
        map.wf(),
        version(uuid_bytes(id)) != 4,
        version(uuid_bytes(id)) != 7,
    ensures
        !supported_id(id),
        !map@.contains_key(id),
{
    if map@.contains_key(id) {
        assert(supported_id(id));
    }
}

/// No valid set holds an identifier of another version than 4 or 7.
pub proof fn lemma_set_rejects_other_versions(set: UuidSet, id: Uuid)
    requires
        set.wf(),
        version(uuid_bytes(id)) != 4,
        version(uuid_bytes(id)) != 7,
    ensures
        !supported_id(id),
        !set@.contains(id),
{
    if set@.contains(id) {
        assert(supported_id(id));
    }
}

/// No valid ordered map holds an identifier of another version than 4 or 7.
pub proof fn lemma_index_map_rejects_other_versions<V>(map: UuidIndexMap<V>, id: Uuid)
    requires
        map.wf(),
        version(uuid_bytes(id)) != 4,
        version(uuid_bytes(id)) != 7,
    ensures
        !supported_id(id),
        !entry_keys(map@).contains(id),
{
}

/// No valid ordered set holds an identifier of another version than 4 or 7.
pub proof fn lemma_index_set_rejects_other_versions(set: UuidIndexSet, id: Uuid)
    requires
        set.wf(),
        version(uuid_bytes(id)) != 4,
        version(uuid_bytes(id)) != 7,
    ensures
        !supported_id(id),
        !set@.contains(id),
{
}

/// In an unordered map, removing an identifier and inserting it again gives
/// what inserting it without the removal gives; with the value that it had,
/// that is the map as it was.
pub proof fn lemma_map_remove_then_insert<V>(map: Map<Uuid, V>, id: Uuid, value: V)
    ensures
        map.remove(id).insert(id, value) == map.insert(id, value),
        map.contains_key(id) && map[id] == value ==> map.remove(id).insert(id, value) == map,
{
}

/// In an unordered set, removing an identifier and inserting it again gives
/// what inserting it without the removal gives; if it was there, that is the
/// set as it was.
pub proof fn lemma_set_remove_then_insert(set: Set<Uuid>, id: Uuid)
    ensures
        set.remove(id).insert(id) == set.insert(id),
        set.contains(id) ==> set.remove(id).insert(id) == set,
{
}

/// In an ordered map, an identifier that was removed and is inserted again
/// goes to the end, whichever way it was removed.
pub proof fn lemma_index_map_remove_then_insert<V>(entries: Seq<(Uuid, V)>, id: Uuid, value: V)
    requires
        entry_keys(entries).no_duplicates(),
        entry_keys(entries).contains(id),
    ensures
        with_entry(entries.remove(entry_keys(entries).index_of(id)), id, value) == entries.remove(
            entry_keys(entries).index_of(id),
        ).push((id, value)),
        with_entry(swap_removed(entries, entry_keys(entries).index_of(id)), id, value)
            == swap_removed(entries, entry_keys(entries).index_of(id)).push((id, value)),
{
    let keys = entry_keys(entries);
    let index = keys.index_of(id);
    let shifted = entries.remove(index);
    assert(entry_keys(shifted) =~= keys.remove(index));
    if entry_keys(shifted).contains(id) {
        let i = entry_keys(shifted).index_of(id);
        if i < index {
            assert(keys[i] == id);
        } else {
            assert(keys[i + 1] == id);
        }
    }
    let swapped = swap_removed(entries, index);
    assert(entry_keys(swapped) =~= swap_removed(keys, index));
    if entry_keys(swapped).contains(id) {
        let i = entry_keys(swapped).index_of(id);
        if i == index {
            assert(keys[keys.len() - 1] == id);
        } else {
            assert(keys[i] == id);
        }
    }
}

/// In an ordered set, an identifier that was removed and is inserted again
/// goes to the end, whichever way it was removed.
pub proof fn lemma_index_set_remove_then_insert(ids: Seq<Uuid>, id: Uuid)
    requires
        ids.no_duplicates(),
        ids.contains(id),
    ensures
        with_id(ids.remove(ids.index_of(id)), id) == ids.remove(ids.index_of(id)).push(id),
        with_id(swap_removed(ids, ids.index_of(id)), id) == swap_removed(
            ids,
            ids.index_of(id),
        ).push(id),
{
}

/// Inserting the entries of `first` and then those of `second` gives what
/// inserting them all in one go gives.
pub proof fn lemma_collect_concat<V>(
    map: Map<Uuid, V>,
    first: Seq<(Uuid, V)>,
    second: Seq<(Uuid, V)>,
)
    ensures
        collect(collect(map, first), second) == collect(map, first + second),
    decreases second.len(),
{
    if second.len() == 0 {
    } else {
        lemma_collect_concat(map, first, second.drop_last());
        assert((first + second).drop_last() =~= first + second.drop_last());
    }
}

/// What `collect` builds: the identifiers of the map and of the entries,
/// each with the value of its last entry, or else with the value that the
/// map had.
pub proof fn lemma_collect_contents<V>(map: Map<Uuid, V>, entries: Seq<(Uuid, V)>)
    ensures
        collect(map, entries).dom() == map.dom().union(entry_keys(entries).to_set()),
        forall|id: Uuid|
            map.contains_key(id) && !entry_keys(entries).contains(id) ==> #[trigger] collect(
                map,
                entries,
            )[id] == map[id],
        forall|i: int|
            0 <= i < entries.len() && (forall|j: int|
                i < j < entries.len() ==> entries[j].0 != entries[i].0) ==> collect(
                map,
                entries,
            )[(#[trigger] entries[i]).0] == entries[i].1,
    decreases entries.len(),
{
    let keys = entry_keys(entries);
    if entries.len() == 0 {
        assert(map.dom().union(keys.to_set()) =~= map.dom());
    } else {
        let front = entries.drop_last();
        let last = entries.last();
        lemma_collect_contents(map, front);
        assert(entry_keys(front) =~= keys.drop_last());
        assert(keys.last() == last.0);
        assert forall|id: Uuid| keys.to_set().contains(id) <==> entry_keys(front).to_set().contains(
            id,
        ) || id == last.0 by {
            if keys.to_set().contains(id) {
                let i = choose|i: int| 0 <= i < keys.len() && keys[i] == id;
                if i < keys.len() - 1 {
                    assert(entry_keys(front)[i] == id);
                }
            }
            if entry_keys(front).to_set().contains(id) {
                let i = choose|i: int| 0 <= i < front.len() && entry_keys(front)[i] == id;
                assert(keys[i] == id);
            }
            if id == last.0 {
                assert(keys[keys.len() - 1] == id);
            }
        }
        assert(collect(map, entries).dom() =~= map.dom().union(keys.to_set()));
        assert forall|id: Uuid|
            map.contains_key(id) && !keys.contains(id) implies #[trigger] collect(map, entries)[id]
            == map[id] by {
            assert(id != last.0) by {
                if id == last.0 {
                    assert(keys[keys.len() - 1] == id);
                }
            }
            if entry_keys(front).contains(id) {
                let i = entry_keys(front).index_of(id);
                assert(keys[i] == id);
            }
        }
        assert forall|i: int|
            0 <= i < entries.len() && (forall|j: int|
                i < j < entries.len() ==> entries[j].0 != entries[i].0) implies collect(
            map,
            entries,
        )[(#[trigger] entries[i]).0] == entries[i].1 by {
            if i < entries.len() - 1 {
                assert(front[i] == entries[i]);
                assert(entries[entries.len() - 1].0 != entries[i].0);
                assert forall|j: int| i < j < front.len() implies front[j].0 != front[i].0 by {
                    assert(front[j] == entries[j]);
                }
            }
        }
    }
}

/// Building a map from any list of all the entries of `map`, each once,
/// gives `map` again, whatever the order of the list.
pub proof fn lemma_collect_enumeration<V>(entries: Seq<(Uuid, V)>, map: Map<Uuid, V>)
    requires
        enumerates(entries, map),
    ensures
        collect(empty_map::<V>(), entries) == map,
{
    let keys = entry_keys(entries);
    let built = collect(empty_map::<V>(), entries);
    lemma_collect_contents(empty_map::<V>(), entries);
    assert(built.dom() =~= map.dom());
    assert forall|id: Uuid| built.contains_key(id) implies built[id] == map[id] by {
        assert(keys.to_set().contains(id));
        let i = choose|i: int| 0 <= i < keys.len() && keys[i] == id;
        assert(entries[i].0 == id);
        assert forall|j: int| i < j < entries.len() implies entries[j].0 != entries[i].0 by {
            assert(keys[j] == entries[j].0);
            assert(keys[i] == entries[i].0);
        }
    }
    assert(built =~= map);
}

/// Adding the identifiers of `first` and then those of `second` to an
/// ordered set gives what adding them all in one go gives.
pub proof fn lemma_with_ids_concat(ids: Seq<Uuid>, first: Seq<Uuid>, second: Seq<Uuid>)
    ensures
        with_ids(with_ids(ids, first), second) == with_ids(ids, first + second),
    decreases second.len(),
{
    if second.len() == 0 {
    } else {
        lemma_with_ids_concat(ids, first, second.drop_last());
        assert((first + second).drop_last() =~= first + second.drop_last());
    }
}

/// Inserting the entries of `first` and then those of `second` into an
/// ordered map gives what inserting them all in one go gives.
pub proof fn lemma_with_entries_concat<V>(
    entries: Seq<(Uuid, V)>,
    first: Seq<(Uuid, V)>,
    second: Seq<(Uuid, V)>,
)
    ensures
        with_entries(with_entries(entries, first), second) == with_entries(entries, first + second),
    decreases second.len(),
{
    if second.len() == 0 {
    } else {
        lemma_with_entries_concat(entries, first, second.drop_last());
        assert((first + second).drop_last() =~= first + second.drop_last());
    }
}

} // verus!
