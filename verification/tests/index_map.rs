use uuid::Uuid;
use uuidmap::UuidIndexMap;

fn id4(n: u8) -> Uuid {
    Uuid::from_bytes([n, 0, 0, 0, 0, 0, 0x40, n, 0x80, 0, 0, 0, 0, 0, 0, n])
}

fn id7(n: u8) -> Uuid {
    Uuid::from_bytes([0, 0, 0, 0, 0, n, 0x70, n, 0xa0, 0, 0, 0, 0, 0, n, 0])
}

fn letters() -> UuidIndexMap<char> {
    UuidIndexMap::from_iter(vec![(id4(1), 'a'), (id4(2), 'b'), (id4(3), 'c'), (id4(4), 'd')])
}

#[test]
fn index_map_starts_empty() {
    let map: UuidIndexMap<u8> = UuidIndexMap::new();
    assert_eq!(map.len(), 0);
    assert!(map.is_empty());
    assert_eq!(map.get(&id4(1)), None);
    assert_eq!(map.get_index(0), None);
    assert!(UuidIndexMap::<u8>::with_capacity(10).is_empty());
    assert!(UuidIndexMap::<u8>::default().is_empty());
}

#[test]
fn index_map_insert_two_then_look_up() {
    let (a, b, c) = (id4(1), id7(2), id4(3));
    let mut map = UuidIndexMap::new();
    assert_eq!(map.insert(a, "a"), None);
    assert_eq!(map.insert(b, "b"), None);
    assert_eq!(map.get(&a), Some(&"a"));
    assert_eq!(map.get(&b), Some(&"b"));
    assert_eq!(map.get(&c), None);
    assert!(map.contains_key(&a));
    assert!(!map.contains_key(&c));
    assert_eq!(map.len(), 2);
}

#[test]
fn index_map_keeps_the_order_of_insertion() {
    let map = letters();
    assert_eq!(map.keys(), vec![id4(1), id4(2), id4(3), id4(4)]);
    assert_eq!(map.clone().into_keys(), vec![id4(1), id4(2), id4(3), id4(4)]);
    assert_eq!(map.clone().into_values(), vec!['a', 'b', 'c', 'd']);
    assert_eq!(
        map.into_iter(),
        vec![(id4(1), 'a'), (id4(2), 'b'), (id4(3), 'c'), (id4(4), 'd')]
    );
}

#[test]
fn index_map_overwritten_entry_keeps_its_place() {
    let mut map = letters();
    assert_eq!(map.insert(id4(2), 'B'), Some('b'));
    assert_eq!(map.insert_full(id4(1), 'A'), (0, Some('a')));
    assert_eq!(map.insert_full(id4(5), 'e'), (4, None));
    assert_eq!(
        map.into_iter(),
        vec![(id4(1), 'A'), (id4(2), 'B'), (id4(3), 'c'), (id4(4), 'd'), (id4(5), 'e')]
    );
}

#[test]
fn index_map_finds_entries_by_identifier_and_by_index() {
    let map = letters();
    assert_eq!(map.get_index_of(&id4(1)), Some(0));
    assert_eq!(map.get_index_of(&id4(4)), Some(3));
    assert_eq!(map.get_index_of(&id4(9)), None);
    assert_eq!(map.get_index(1), Some((&id4(2), &'b')));
    assert_eq!(map.get_index(4), None);
}

#[test]
fn index_map_swap_remove_puts_the_last_in_the_gap() {
    let mut map = letters();
    assert_eq!(map.swap_remove(&id4(2)), Some('b'));
    assert_eq!(map.clone().into_iter(), vec![(id4(1), 'a'), (id4(4), 'd'), (id4(3), 'c')]);
    assert_eq!(map.swap_remove(&id4(2)), None);
    assert_eq!(map.swap_remove(&id4(3)), Some('c'));
    assert_eq!(map.clone().into_iter(), vec![(id4(1), 'a'), (id4(4), 'd')]);
    assert_eq!(map.get(&id4(4)), Some(&'d'));
    assert_eq!(map.get_index_of(&id4(4)), Some(1));
}

#[test]
fn index_map_shift_remove_keeps_the_order_of_the_rest() {
    let mut map = letters();
    assert_eq!(map.shift_remove(&id4(2)), Some('b'));
    assert_eq!(map.clone().into_iter(), vec![(id4(1), 'a'), (id4(3), 'c'), (id4(4), 'd')]);
    assert_eq!(map.shift_remove(&id4(2)), None);
    assert_eq!(map.shift_remove(&id4(1)), Some('a'));
    assert_eq!(map.clone().into_iter(), vec![(id4(3), 'c'), (id4(4), 'd')]);
    assert_eq!(map.get(&id4(4)), Some(&'d'));
}

#[test]
fn index_map_reinserted_entry_goes_to_the_end() {
    let mut map = letters();
    assert_eq!(map.shift_remove(&id4(1)), Some('a'));
    assert_eq!(map.insert_full(id4(1), 'a'), (3, None));
    assert_eq!(map.keys(), vec![id4(2), id4(3), id4(4), id4(1)]);

    let mut map = letters();
    assert_eq!(map.swap_remove(&id4(1)), Some('a'));
    assert_eq!(map.insert_full(id4(1), 'a'), (3, None));
    assert_eq!(map.keys(), vec![id4(4), id4(2), id4(3), id4(1)]);
    assert!(map == letters());
}

#[test]
fn index_map_scenario_remove_the_middle_one() {
    let (x, y, z) = (id7(1), id7(2), id7(3));
    let mut map = UuidIndexMap::new();
    map.insert(x, 1);
    map.insert(y, 2);
    map.insert(z, 3);
    map.shift_remove(&y);
    assert_eq!(map.get(&x), Some(&1));
    assert_eq!(map.get(&y), None);
    assert_eq!(map.get(&z), Some(&3));
    assert!(map == UuidIndexMap::from_iter(vec![(z, 3), (x, 1)]));
    assert!(map == UuidIndexMap::from_iter(vec![(x, 1), (z, 3)]));
}

#[test]
fn index_map_from_iter_then_extend_equals_sequential_inserts() {
    let ids: Vec<Uuid> = (1u8..=5).map(id4).collect();
    let mut built = UuidIndexMap::from_iter(vec![(ids[0], 0), (ids[1], 1), (ids[2], 2)]);
    built.extend(vec![(ids[3], 3), (ids[4], 4)]);
    assert_eq!(built.len(), 5);
    let mut inserted = UuidIndexMap::new();
    for (value, id) in ids.iter().enumerate() {
        inserted.insert(*id, value);
    }
    assert!(built == inserted);
    assert_eq!(built.into_iter(), inserted.into_iter());
}

#[test]
fn index_map_extend_overwrites_in_place() {
    let mut map = letters();
    map.extend(vec![(id4(3), 'C'), (id4(5), 'e'), (id4(3), 'x')]);
    assert_eq!(
        map.into_iter(),
        vec![(id4(1), 'a'), (id4(2), 'b'), (id4(3), 'x'), (id4(4), 'd'), (id4(5), 'e')]
    );
}

#[test]
fn index_map_equality_ignores_the_order() {
    let left = UuidIndexMap::from_iter(vec![(id4(1), 1), (id4(2), 2)]);
    let right = UuidIndexMap::from_iter(vec![(id4(2), 2), (id4(1), 1)]);
    assert!(left == right);
    assert!(left != UuidIndexMap::from_iter(vec![(id4(1), 1)]));
    assert!(left != UuidIndexMap::from_iter(vec![(id4(1), 1), (id4(2), 3)]));
    assert!(left != UuidIndexMap::from_iter(vec![(id4(1), 1), (id4(3), 2)]));
}

#[test]
fn index_map_clone_holds_the_same_entries_in_order() {
    let map = letters();
    let mut copy = map.clone();
    assert_eq!(copy.clone().into_iter(), map.clone().into_iter());
    copy.insert(id4(9), 'z');
    assert_eq!(map.len(), 4);
    assert_eq!(copy.len(), 5);
}

#[test]
fn index_map_holds_many_identifiers() {
    let ids: Vec<Uuid> = (0..1000).map(|_| Uuid::new_v4()).collect();
    let mut map = UuidIndexMap::with_capacity(4);
    for (index, id) in ids.iter().enumerate() {
        assert_eq!(map.insert_full(*id, index), (index, None));
    }
    assert_eq!(map.keys(), ids);
    for (index, id) in ids.iter().enumerate() {
        assert_eq!(map.get(id), Some(&index));
    }
    for id in ids.iter().take(500) {
        assert!(map.swap_remove(id).is_some());
    }
    assert_eq!(map.len(), 500);
    for (index, id) in ids.iter().enumerate().skip(500) {
        assert_eq!(map.get(id), Some(&index));
    }
}
