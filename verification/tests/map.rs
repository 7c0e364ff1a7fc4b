use std::array;

use uuid::Uuid;
use uuidmap::{UuidMap, UuidSet};

fn id4(n: u8) -> Uuid {
    Uuid::from_bytes([n, 0, 0, 0, 0, 0, 0x40, n, 0x80, 0, 0, 0, 0, 0, 0, n])
}

fn id7(n: u8) -> Uuid {
    Uuid::from_bytes([0, 0, 0, 0, 0, n, 0x70, n, 0xa0, 0, 0, 0, 0, 0, n, 0])
}

fn sorted<T: Ord>(mut items: Vec<T>) -> Vec<T> {
    items.sort();
    items
}

#[test]
fn v4() {
    let uuids: [_; 3] = array::from_fn(|_| Uuid::new_v4());

    let mut map = UuidMap::new();
    let mut set = UuidSet::new();

    map.insert(uuids[0], 0);
    map.insert(uuids[2], 2);

    set.insert(uuids[0]);
    set.insert(uuids[2]);

    assert_eq!(map.get(&uuids[0]), Some(&0));
    assert!(!map.contains_key(&uuids[1]));
    assert_eq!(map.get(&uuids[2]), Some(&2));

    assert!(set.contains(&uuids[0]));
    assert!(!set.contains(&uuids[1]));
    assert!(set.contains(&uuids[2]));

    map.remove(&uuids[2]);
    set.remove(&uuids[2]);

    assert_eq!(map.get(&uuids[0]), Some(&0));
    assert!(!map.contains_key(&uuids[1]));
    assert!(!map.contains_key(&uuids[2]));

    assert!(set.contains(&uuids[0]));
    assert!(!set.contains(&uuids[1]));
    assert!(!set.contains(&uuids[2]));
}

#[test]
fn v7() {
    let uuids: [_; 3] = array::from_fn(|_| Uuid::now_v7());

    let mut map = UuidMap::new();
    let mut set = UuidSet::new();

    map.insert(uuids[0], 0);
    map.insert(uuids[2], 2);

    set.insert(uuids[0]);
    set.insert(uuids[2]);

    assert_eq!(map.get(&uuids[0]), Some(&0));
    assert!(!map.contains_key(&uuids[1]));
    assert_eq!(map.get(&uuids[2]), Some(&2));

    assert!(set.contains(&uuids[0]));
    assert!(!set.contains(&uuids[1]));
    assert!(set.contains(&uuids[2]));

    map.remove(&uuids[2]);
    set.remove(&uuids[2]);

    assert_eq!(map.get(&uuids[0]), Some(&0));
    assert!(!map.contains_key(&uuids[1]));
    assert!(!map.contains_key(&uuids[2]));

    assert!(set.contains(&uuids[0]));
    assert!(!set.contains(&uuids[1]));
    assert!(!set.contains(&uuids[2]));
}

#[test]
#[should_panic]
fn map_v1() {
    let uuid = Uuid::now_v1(&[0; 6]);

    let mut map = UuidMap::new();
    map.insert(uuid, 0);
}

#[test]
#[should_panic]
fn set_v1() {
    let uuid = Uuid::now_v1(&[0; 6]);

    let mut set = UuidSet::new();
    set.insert(uuid);
}

#[test]
fn map_starts_empty() {
    let map: UuidMap<u32> = UuidMap::new();
    assert_eq!(map.len(), 0);
    assert!(map.is_empty());
    assert_eq!(map.get(&id4(1)), None);

    let map: UuidMap<u32> = UuidMap::with_capacity(64);
    assert_eq!(map.len(), 0);
    assert!(map.is_empty());

    let map: UuidMap<u32> = UuidMap::default();
    assert!(map.is_empty());
}

#[test]
fn map_insert_two_then_look_up() {
    let (a, b, c) = (id4(1), id7(2), id4(3));
    let mut map = UuidMap::new();
    assert_eq!(map.insert(a, "a"), None);
    assert_eq!(map.insert(b, "b"), None);
    assert_eq!(map.get(&a), Some(&"a"));
    assert_eq!(map.get(&b), Some(&"b"));
    assert_eq!(map.get(&c), None);
    assert!(!map.contains_key(&c));
    assert_eq!(map.len(), 2);
    assert!(!map.is_empty());
}

#[test]
fn map_insert_overwrites_and_returns_the_old_value() {
    let mut map = UuidMap::new();
    assert_eq!(map.insert(id4(1), 10), None);
    assert_eq!(map.insert(id4(1), 11), Some(10));
    assert_eq!(map.get(&id4(1)), Some(&11));
    assert_eq!(map.len(), 1);
}

#[test]
fn map_remove_returns_the_value_or_nothing() {
    let mut map = UuidMap::new();
    map.insert(id4(1), 10);
    map.insert(id4(2), 20);
    assert_eq!(map.remove(&id4(3)), None);
    assert_eq!(map.len(), 2);
    assert_eq!(map.remove(&id4(1)), Some(10));
    assert_eq!(map.remove(&id4(1)), None);
    assert_eq!(map.len(), 1);
    assert_eq!(map.get(&id4(2)), Some(&20));
}

#[test]
fn map_remove_then_insert_is_as_if_never_removed() {
    let mut kept = UuidMap::new();
    kept.insert(id4(1), 10);
    kept.insert(id4(2), 20);

    let mut changed = kept.clone();
    assert_eq!(changed.remove(&id4(1)), Some(10));
    assert!(changed != kept);
    assert_eq!(changed.insert(id4(1), 10), None);
    assert!(changed == kept);
    assert_eq!(changed.len(), 2);
}

#[test]
fn map_scenario_remove_the_middle_one() {
    let (x, y, z) = (id7(1), id7(2), id7(3));
    let mut map = UuidMap::new();
    map.insert(x, 1);
    map.insert(y, 2);
    map.insert(z, 3);
    map.remove(&y);
    assert_eq!(map.get(&x), Some(&1));
    assert_eq!(map.get(&y), None);
    assert_eq!(map.get(&z), Some(&3));

    assert_eq!(sorted(map.keys()), sorted(vec![z, x]));
    let mut expected = UuidMap::new();
    expected.insert(z, 3);
    expected.insert(x, 1);
    assert!(map == expected);
}

#[test]
fn map_from_iter_then_extend_equals_sequential_inserts() {
    let ids: Vec<Uuid> = (1u8..=5).map(id4).collect();
    let mut built = UuidMap::from_iter(vec![(ids[0], 0), (ids[1], 1), (ids[2], 2)]);
    assert_eq!(built.len(), 3);
    built.extend(vec![(ids[3], 3), (ids[4], 4)]);
    assert_eq!(built.len(), 5);

    let mut inserted = UuidMap::new();
    for (value, id) in ids.iter().enumerate() {
        inserted.insert(*id, value);
    }
    assert!(built == inserted);
    for (value, id) in ids.iter().enumerate() {
        assert_eq!(built.get(id), Some(&value));
    }
}

#[test]
fn map_extend_keeps_the_later_of_two_entries() {
    let mut map = UuidMap::new();
    map.insert(id4(1), 'a');
    map.extend(vec![(id4(2), 'b'), (id4(1), 'c'), (id4(2), 'd')]);
    assert_eq!(map.len(), 2);
    assert_eq!(map.get(&id4(1)), Some(&'c'));
    assert_eq!(map.get(&id4(2)), Some(&'d'));
}

#[test]
fn map_keys_and_entries_come_out_once_each() {
    let mut map = UuidMap::new();
    for n in 1u8..=20 {
        map.insert(id4(n), u32::from(n) * 10);
    }
    let expected_keys: Vec<Uuid> = sorted((1u8..=20).map(id4).collect());
    assert_eq!(sorted(map.keys()), expected_keys);
    assert_eq!(sorted(map.clone().into_keys()), expected_keys);
    assert_eq!(
        sorted(map.clone().into_values()),
        (1u32..=20).map(|n| n * 10).collect::<Vec<u32>>()
    );
    let entries = sorted(map.clone().into_iter());
    assert_eq!(entries.len(), 20);
    for (id, value) in entries {
        assert_eq!(map.get(&id), Some(&value));
    }
}

#[test]
fn map_rebuilt_from_its_entries_in_any_order_is_equal() {
    let mut map = UuidMap::new();
    for n in 1u8..=9 {
        map.insert(id7(n), n);
    }
    let mut entries = map.clone().into_iter();
    entries.reverse();
    assert!(UuidMap::from_iter(entries.clone()) == map);
    entries.rotate_left(4);
    assert!(UuidMap::from_iter(entries) == map);
}

#[test]
fn map_equality_looks_at_identifiers_and_values() {
    let mut left = UuidMap::new();
    left.insert(id4(1), 1);
    left.insert(id4(2), 2);
    let mut right = UuidMap::new();
    right.insert(id4(2), 2);
    assert!(left != right);
    right.insert(id4(1), 1);
    assert!(left == right);
    right.insert(id4(1), 5);
    assert!(left != right);
    right.insert(id4(1), 1);
    right.remove(&id4(2));
    right.insert(id4(3), 2);
    assert!(left != right);
}

#[test]
fn map_clone_holds_the_same_entries() {
    let mut map = UuidMap::new();
    map.insert(id4(1), String::from("one"));
    let mut copy = map.clone();
    assert!(copy == map);
    copy.insert(id4(2), String::from("two"));
    assert_eq!(map.len(), 1);
    assert_eq!(copy.len(), 2);
}

#[test]
fn map_same_entries_compares_with_a_list() {
    let mut map = UuidMap::new();
    map.insert(id4(1), 1u32);
    map.insert(id4(2), 2u32);
    assert!(map.same_entries(&vec![(id4(2), &2u32), (id4(1), &1u32)]));
    assert!(!map.same_entries(&vec![(id4(1), &1u32)]));
    assert!(!map.same_entries(&vec![(id4(1), &1u32), (id4(2), &3u32)]));
    assert!(!map.same_entries(&vec![(id4(1), &1u32), (id4(3), &2u32)]));
    assert!(!map.same_entries(&vec![(id4(1), &1u32), (id4(2), &2u32), (id4(3), &3u32)]));
    let empty: UuidMap<u32> = UuidMap::new();
    assert!(empty.same_entries(&Vec::<(Uuid, &u32)>::new()));
}

#[test]
fn map_can_be_read_as_the_table_inside() {
    let mut map = UuidMap::new();
    map.insert(id4(1), 1);
    map.insert(id4(2), 2);
    assert_eq!(map.values().sum::<i32>(), 3);
    assert_eq!(map.iter().count(), 2);
}

#[test]
fn map_holds_many_identifiers() {
    let ids: Vec<Uuid> = (0..2000).map(|_| Uuid::new_v4()).collect();
    let mut map = UuidMap::with_capacity(16);
    for (index, id) in ids.iter().enumerate() {
        assert_eq!(map.insert(*id, index), None);
    }
    assert_eq!(map.len(), ids.len());
    for (index, id) in ids.iter().enumerate() {
        assert_eq!(map.get(id), Some(&index));
    }
    for id in ids.iter().step_by(2) {
        assert!(map.remove(id).is_some());
    }
    assert_eq!(map.len(), ids.len() / 2);
    for (index, id) in ids.iter().enumerate() {
        assert_eq!(map.contains_key(id), index % 2 == 1);
    }
}
