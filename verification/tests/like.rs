use uuid::Uuid;
use uuidmap::{UuidLike, UuidLikeIndexMap, UuidLikeIndexSet, UuidLikeMap, UuidLikeSet};

#[derive(Clone, Copy, Debug, PartialEq, Eq, PartialOrd, Ord)]
struct OrderId(Uuid);

impl UuidLike for OrderId {
    fn uuid(&self) -> Uuid {
        self.0
    }

    fn to_uuid(&self) -> Uuid {
        self.0
    }

    fn from_uuid(id: Uuid) -> Self {
        OrderId(id)
    }
}

fn order(n: u8) -> OrderId {
    OrderId(Uuid::from_bytes([n, 0, 0, 0, 0, 0, 0x40, n, 0x80, 0, 0, 0, 0, 0, 0, n]))
}

fn sorted<T: Ord>(mut items: Vec<T>) -> Vec<T> {
    items.sort();
    items
}

#[test]
fn an_identifier_is_its_own_key() {
    let id = Uuid::new_v4();
    assert_eq!(id.to_uuid(), id);
    assert_eq!(Uuid::from_uuid(id), id);
    assert_eq!(OrderId::from_uuid(id).to_uuid(), id);
}

#[test]
fn like_map_insert_two_then_look_up() {
    let mut map = UuidLikeMap::new();
    assert!(map.is_empty());
    assert_eq!(map.insert(order(1), "a"), None);
    assert_eq!(map.insert(order(2), "b"), None);
    assert_eq!(map.get(&order(1)), Some(&"a"));
    assert_eq!(map.get(&order(2)), Some(&"b"));
    assert_eq!(map.get(&order(3)), None);
    assert!(map.contains_key(&order(1)));
    assert!(!map.contains_key(&order(3)));
    assert_eq!(map.len(), 2);
    assert_eq!(map.insert(order(1), "c"), Some("a"));
    assert_eq!(map.remove(&order(1)), Some("c"));
    assert_eq!(map.remove(&order(1)), None);
    assert_eq!(map.len(), 1);
}

#[test]
fn like_map_works_with_plain_identifiers() {
    let id = Uuid::now_v7();
    let mut map: UuidLikeMap<Uuid, u8> = UuidLikeMap::with_capacity(2);
    map.insert(id, 1);
    assert_eq!(map.get(&id), Some(&1));
    assert_eq!(map.keys(), vec![id]);
}

#[test]
fn like_map_hands_its_keys_back() {
    let map = UuidLikeMap::from_iter(vec![(order(1), 10), (order(2), 20), (order(3), 30)]);
    assert_eq!(sorted(map.keys()), vec![order(1), order(2), order(3)]);
    assert_eq!(sorted(map.clone().into_keys()), vec![order(1), order(2), order(3)]);
    assert_eq!(sorted(map.clone().into_values()), vec![10, 20, 30]);
    assert_eq!(
        sorted(map.into_iter()),
        vec![(order(1), 10), (order(2), 20), (order(3), 30)]
    );
}

#[test]
fn like_map_from_iter_then_extend_equals_sequential_inserts() {
    let mut built = UuidLikeMap::from_iter(vec![(order(1), 1), (order(2), 2), (order(3), 3)]);
    built.extend(vec![(order(4), 4), (order(5), 5)]);
    assert_eq!(built.len(), 5);
    let mut inserted = UuidLikeMap::new();
    for n in 1u8..=5 {
        inserted.insert(order(n), i32::from(n));
    }
    assert!(built == inserted);
    assert!(built.clone() == inserted);
    inserted.insert(order(5), 0);
    assert!(built != inserted);
    assert!(UuidLikeMap::<OrderId, i32>::default().is_empty());
}

#[test]
fn like_set_holds_keys_by_their_identifiers() {
    let mut set = UuidLikeSet::new();
    assert!(set.is_empty());
    assert!(set.insert(order(1)));
    assert!(set.insert(order(2)));
    assert!(!set.insert(order(1)));
    assert!(set.contains(&order(1)));
    assert!(!set.contains(&order(3)));
    assert_eq!(set.len(), 2);
    assert!(set.remove(&order(1)));
    assert!(!set.remove(&order(1)));
    assert_eq!(set.to_vec(), vec![order(2)]);
    set.extend(vec![order(3), order(2)]);
    assert_eq!(sorted(set.clone().into_iter()), vec![order(2), order(3)]);
    assert!(set == UuidLikeSet::from_iter(vec![order(3), order(2)]));
    assert!(set != UuidLikeSet::from_iter(vec![order(3)]));
    assert!(UuidLikeSet::<OrderId>::with_capacity(3).is_empty());
    assert!(UuidLikeSet::<OrderId>::default().is_empty());
}

#[test]
fn like_index_map_keeps_the_order_of_insertion() {
    let mut map = UuidLikeIndexMap::with_capacity(4);
    assert!(map.is_empty());
    assert_eq!(map.insert(order(3), 'c'), None);
    assert_eq!(map.insert_full(order(1), 'a'), (1, None));
    assert_eq!(map.insert(order(2), 'b'), None);
    assert_eq!(map.insert(order(1), 'A'), Some('a'));
    assert_eq!(map.keys(), vec![order(3), order(1), order(2)]);
    assert_eq!(map.get(&order(1)), Some(&'A'));
    assert_eq!(map.get(&order(9)), None);
    assert!(map.contains_key(&order(2)));
    assert_eq!(map.get_index_of(&order(2)), Some(2));
    assert_eq!(map.get_index(0), Some((order(3), &'c')));
    assert_eq!(map.get_index(3), None);
    assert_eq!(map.len(), 3);
    assert_eq!(map.clone().into_values(), vec!['c', 'A', 'b']);
    assert_eq!(map.clone().into_keys(), vec![order(3), order(1), order(2)]);
    assert_eq!(map.into_iter(), vec![(order(3), 'c'), (order(1), 'A'), (order(2), 'b')]);
}

#[test]
fn like_index_map_removes_by_swap_or_by_shift() {
    let entries = vec![(order(1), 1), (order(2), 2), (order(3), 3), (order(4), 4)];
    let mut map = UuidLikeIndexMap::from_iter(entries.clone());
    assert_eq!(map.swap_remove(&order(1)), Some(1));
    assert_eq!(map.keys(), vec![order(4), order(2), order(3)]);
    assert_eq!(map.swap_remove(&order(1)), None);

    let mut map = UuidLikeIndexMap::from_iter(entries.clone());
    assert_eq!(map.shift_remove(&order(1)), Some(1));
    assert_eq!(map.keys(), vec![order(2), order(3), order(4)]);
    assert_eq!(map.shift_remove(&order(1)), None);
    map.extend(vec![(order(1), 1)]);
    assert_eq!(map.keys(), vec![order(2), order(3), order(4), order(1)]);
    assert!(map == UuidLikeIndexMap::from_iter(entries));
    assert!(map.clone() == map);
    assert!(UuidLikeIndexMap::<OrderId, u8>::new() == UuidLikeIndexMap::default());
}

#[test]
fn like_index_set_keeps_the_order_of_insertion() {
    let mut set = UuidLikeIndexSet::with_capacity(4);
    assert!(set.is_empty());
    assert!(set.insert(order(3)));
    assert_eq!(set.insert_full(order(1)), (1, true));
    assert_eq!(set.insert_full(order(3)), (0, false));
    assert!(!set.insert(order(1)));
    set.extend(vec![order(2), order(3)]);
    assert_eq!(set.to_vec(), vec![order(3), order(1), order(2)]);
    assert!(set.contains(&order(2)));
    assert!(!set.contains(&order(9)));
    assert_eq!(set.get_index_of(&order(1)), Some(1));
    assert_eq!(set.get_index(2), Some(order(2)));
    assert_eq!(set.get_index(3), None);
    assert_eq!(set.len(), 3);

    let mut swapped = set.clone();
    assert!(swapped.swap_remove(&order(3)));
    assert!(!swapped.swap_remove(&order(3)));
    assert_eq!(swapped.to_vec(), vec![order(2), order(1)]);

    assert!(set.shift_remove(&order(3)));
    assert!(!set.shift_remove(&order(3)));
    assert_eq!(set.clone().into_iter(), vec![order(1), order(2)]);
    assert!(set == swapped);
    assert!(set == UuidLikeIndexSet::from_iter(vec![order(2), order(1)]));
    assert!(set != UuidLikeIndexSet::from_iter(vec![order(2)]));
    assert!(UuidLikeIndexSet::<OrderId>::new() == UuidLikeIndexSet::default());
}

#[test]
fn like_map_same_entries_compares_with_a_list() {
    let map = UuidLikeMap::from_iter(vec![(order(1), 1u32), (order(2), 2u32)]);
    assert!(map.same_entries(&vec![(order(2), &2u32), (order(1), &1u32)]));
    assert!(!map.same_entries(&vec![(order(1), &1u32)]));
    assert!(!map.same_entries(&vec![(order(1), &1u32), (order(2), &3u32)]));
    assert!(!map.same_entries(&vec![(order(1), &1u32), (order(3), &2u32)]));
}

#[test]
fn like_set_same_keys_compares_with_a_list() {
    let set = UuidLikeSet::from_iter(vec![order(1), order(2)]);
    assert!(set.same_keys(&vec![order(2), order(1)]));
    assert!(!set.same_keys(&vec![order(1)]));
    assert!(!set.same_keys(&vec![order(1), order(3)]));
    assert!(!set.same_keys(&vec![order(1), order(2), order(3)]));
}
