use uuid::Uuid;
use uuidmap::UuidIndexSet;

fn id4(n: u8) -> Uuid {
    Uuid::from_bytes([n, 0, 0, 0, 0, 0, 0x40, n, 0x80, 0, 0, 0, 0, 0, 0, n])
}

fn id7(n: u8) -> Uuid {
    Uuid::from_bytes([0, 0, 0, 0, 0, n, 0x70, n, 0xa0, 0, 0, 0, 0, 0, n, 0])
}

#[test]
fn index_set_starts_empty() {
    let set = UuidIndexSet::new();
    assert_eq!(set.len(), 0);
    assert!(set.is_empty());
    assert_eq!(set.to_vec(), Vec::<Uuid>::new());
    assert_eq!(set.get_index(0), None);
    assert!(UuidIndexSet::with_capacity(10).is_empty());
    assert!(UuidIndexSet::default().is_empty());
}

#[test]
fn index_set_keeps_the_order_of_insertion() {
    let mut set = UuidIndexSet::new();
    assert!(set.insert(id4(3)));
    assert!(set.insert(id7(1)));
    assert!(set.insert(id4(2)));
    assert_eq!(set.to_vec(), vec![id4(3), id7(1), id4(2)]);
    assert_eq!(set.len(), 3);
    assert!(!set.is_empty());
}

#[test]
fn index_set_insert_of_a_known_identifier_changes_nothing() {
    let mut set = UuidIndexSet::from_iter(vec![id4(1), id4(2), id4(3)]);
    assert!(!set.insert(id4(1)));
    assert_eq!(set.insert_full(id4(2)), (1, false));
    assert_eq!(set.insert_full(id4(4)), (3, true));
    assert_eq!(set.to_vec(), vec![id4(1), id4(2), id4(3), id4(4)]);
}

#[test]
fn index_set_finds_identifiers_by_value_and_by_index() {
    let set = UuidIndexSet::from_iter(vec![id4(1), id4(2), id4(3)]);
    assert!(set.contains(&id4(2)));
    assert!(!set.contains(&id4(9)));
    assert_eq!(set.get_index_of(&id4(1)), Some(0));
    assert_eq!(set.get_index_of(&id4(3)), Some(2));
    assert_eq!(set.get_index_of(&id4(9)), None);
    assert_eq!(set.get_index(0), Some(&id4(1)));
    assert_eq!(set.get_index(2), Some(&id4(3)));
    assert_eq!(set.get_index(3), None);
}

#[test]
fn index_set_swap_remove_puts_the_last_in_the_gap() {
    let mut set = UuidIndexSet::from_iter(vec![id4(1), id4(2), id4(3), id4(4)]);
    assert!(set.swap_remove(&id4(2)));
    assert_eq!(set.to_vec(), vec![id4(1), id4(4), id4(3)]);
    assert!(!set.swap_remove(&id4(2)));
    assert_eq!(set.to_vec(), vec![id4(1), id4(4), id4(3)]);
    assert!(set.swap_remove(&id4(3)));
    assert_eq!(set.to_vec(), vec![id4(1), id4(4)]);
}

#[test]
fn index_set_shift_remove_keeps_the_order_of_the_rest() {
    let mut set = UuidIndexSet::from_iter(vec![id4(1), id4(2), id4(3), id4(4)]);
    assert!(set.shift_remove(&id4(2)));
    assert_eq!(set.to_vec(), vec![id4(1), id4(3), id4(4)]);
    assert!(!set.shift_remove(&id4(2)));
    assert!(set.shift_remove(&id4(1)));
    assert_eq!(set.to_vec(), vec![id4(3), id4(4)]);
}

#[test]
fn index_set_reinserted_identifier_goes_to_the_end() {
    let mut set = UuidIndexSet::from_iter(vec![id4(1), id4(2), id4(3)]);
    set.shift_remove(&id4(1));
    assert_eq!(set.insert_full(id4(1)), (2, true));
    assert_eq!(set.to_vec(), vec![id4(2), id4(3), id4(1)]);

    let mut set = UuidIndexSet::from_iter(vec![id4(1), id4(2), id4(3)]);
    set.swap_remove(&id4(1));
    assert_eq!(set.insert_full(id4(1)), (2, true));
    assert_eq!(set.to_vec(), vec![id4(3), id4(2), id4(1)]);
}

#[test]
fn index_set_extend_adds_new_identifiers_in_order() {
    let mut set = UuidIndexSet::from_iter(vec![id4(1), id4(2)]);
    set.extend(vec![id4(3), id4(1), id4(4), id4(3)]);
    assert_eq!(set.to_vec(), vec![id4(1), id4(2), id4(3), id4(4)]);
    assert_eq!(set.clone().into_iter(), vec![id4(1), id4(2), id4(3), id4(4)]);
}

#[test]
fn index_set_equality_ignores_the_order() {
    let left = UuidIndexSet::from_iter(vec![id7(1), id7(2), id7(3)]);
    let right = UuidIndexSet::from_iter(vec![id7(3), id7(1), id7(2)]);
    assert!(left == right);
    assert!(left != UuidIndexSet::from_iter(vec![id7(1), id7(2)]));
    assert!(left != UuidIndexSet::from_iter(vec![id7(1), id7(2), id7(4)]));
}

#[test]
fn index_set_scenario_equal_whatever_the_order() {
    let (x, y, z) = (id7(1), id7(2), id7(3));
    let mut set = UuidIndexSet::new();
    set.insert(x);
    set.insert(y);
    set.insert(z);
    set.shift_remove(&y);
    assert!(set == UuidIndexSet::from_iter(vec![x, z]));
    assert!(set == UuidIndexSet::from_iter(vec![z, x]));
}

#[test]
fn index_set_clone_holds_the_same_identifiers_in_order() {
    let set = UuidIndexSet::from_iter(vec![id4(2), id4(1)]);
    let mut copy = set.clone();
    assert_eq!(copy.to_vec(), vec![id4(2), id4(1)]);
    copy.insert(id4(3));
    assert_eq!(set.len(), 2);
    assert_eq!(copy.len(), 3);
}

#[test]
fn index_set_can_be_read_as_the_table_inside() {
    let set = UuidIndexSet::from_iter(vec![id4(2), id4(1)]);
    assert_eq!(set.iter().copied().collect::<Vec<Uuid>>(), vec![id4(2), id4(1)]);
    assert_eq!(set.first(), Some(&id4(2)));
}

#[test]
fn index_set_holds_many_identifiers() {
    let ids: Vec<Uuid> = (0..1000).map(|_| Uuid::now_v7()).collect();
    let mut set = UuidIndexSet::with_capacity(4);
    for (index, id) in ids.iter().enumerate() {
        assert_eq!(set.insert_full(*id), (index, true));
    }
    assert_eq!(set.to_vec(), ids);
    for (index, id) in ids.iter().enumerate() {
        assert_eq!(set.get_index_of(id), Some(index));
    }
}
