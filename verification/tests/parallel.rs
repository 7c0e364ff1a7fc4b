use rayon::iter::{IndexedParallelIterator, IntoParallelIterator, ParallelIterator};
use uuid::Uuid;
use uuidmap::{UuidIndexSet, UuidMap, UuidSet};

#[test]
fn map_built_from_a_parallel_stream_holds_every_entry() {
    let ids: Vec<Uuid> = (0..500).map(|_| Uuid::new_v4()).collect();
    let entries: Vec<(Uuid, usize)> = ids
        .clone()
        .into_par_iter()
        .enumerate()
        .map(|(index, id)| (id, index * 2))
        .collect();
    let map = UuidMap::from_iter(entries);
    assert_eq!(map.len(), ids.len());
    for (index, id) in ids.iter().enumerate() {
        assert_eq!(map.get(id), Some(&(index * 2)));
    }

    let total: usize = map.into_iter().into_par_iter().map(|(_, value)| value).sum();
    assert_eq!(total, 499 * 500);
}

#[test]
fn set_extended_from_a_parallel_stream_holds_every_identifier() {
    let ids: Vec<Uuid> = (0..500).map(|_| Uuid::now_v7()).collect();
    let mut set = UuidSet::from_iter(ids[..100].to_vec());
    let more: Vec<Uuid> = ids.clone().into_par_iter().filter(|id| !set.contains(id)).collect();
    assert_eq!(more.len(), 400);
    set.extend(more);
    assert!(set == UuidSet::from_iter(ids.clone()));
    assert!(UuidIndexSet::from_iter(set.into_iter()) == UuidIndexSet::from_iter(ids));
}
