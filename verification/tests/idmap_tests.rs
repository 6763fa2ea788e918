use reveal_engine::idmap::{Id, IdMap, IdMapError};

#[test]
fn test_new() {
    let map = IdMap::<String>::new();
    assert_eq!(map.len(), 0);
}

#[test]
fn added_ids_are_pairwise_distinct() {
    let mut map = IdMap::<u32>::new();
    let mut ids: Vec<Id<u32>> = Vec::new();
    for n in 0..10_000u32 {
        ids.push(map.add(n).unwrap());
    }
    assert_eq!(map.len(), 10_000);
    let mut raws: Vec<u64> = ids.iter().map(|id| id.raw()).collect();
    raws.sort();
    raws.dedup();
    assert_eq!(raws.len(), 10_000);
    for (n, id) in ids.iter().enumerate() {
        assert_eq!(map.get(id), Some(&(n as u32)));
    }
}

#[test]
fn add_from_takes_the_next_free_handle() {
    let mut map = IdMap::<&str>::new();
    let a = map.add_from(7, "a");
    let b = map.add_from(7, "b");
    let c = map.add_from(8, "c");
    let d = map.add_from(u64::MAX, "d");
    let e = map.add_from(u64::MAX, "e");
    assert_eq!(a.raw(), 7);
    assert_eq!(b.raw(), 8);
    assert_eq!(c.raw(), 9);
    assert_eq!(d.raw(), u64::MAX);
    assert_eq!(e.raw(), 0);
    assert_eq!(map.get(&b), Some(&"b"));
}

#[test]
fn replace_on_a_missing_id_is_an_error_and_inserts_nothing() {
    let mut map = IdMap::<u32>::new();
    let kept = map.add(1).unwrap();
    let gone = map.add(2).unwrap();
    assert_eq!(map.remove(&gone), Some(2));
    assert!(matches!(map.replace(&gone, 3), Err(IdMapError::IdDoesNotExist)));
    assert_eq!(map.len(), 1);
    assert_eq!(map.get(&gone), None);
    assert_eq!(map.get(&kept), Some(&1));
    assert!(matches!(map.replace(&kept, 5), Ok(1)));
    assert_eq!(map.get(&kept), Some(&5));
    assert_eq!(map.len(), 1);
}

#[test]
fn ids_entries_and_values_cover_the_map() {
    let mut map = IdMap::<u32>::new();
    let a = map.add(10).unwrap();
    let b = map.add(20).unwrap();
    let c = map.add(30).unwrap();
    let mut ids: Vec<u64> = map.ids().iter().map(|id| id.raw()).collect();
    ids.sort();
    let mut expected = vec![a.raw(), b.raw(), c.raw()];
    expected.sort();
    assert_eq!(ids, expected);
    let mut entries: Vec<(u64, u32)> = map.iter().iter().map(|(id, v)| (id.raw(), **v)).collect();
    entries.sort();
    let mut pairs = vec![(a.raw(), 10), (b.raw(), 20), (c.raw(), 30)];
    pairs.sort();
    assert_eq!(entries, pairs);
    let mut values: Vec<u32> = map.values().iter().map(|v| **v).collect();
    values.sort();
    assert_eq!(values, vec![10, 20, 30]);
    assert!(map.contains(&b));
}

#[test]
fn get_mut_changes_the_value_in_place() {
    let mut map = IdMap::<u32>::new();
    let a = map.add(1).unwrap();
    if let Some(v) = map.get_mut(&a) {
        *v += 41;
    }
    assert_eq!(map.get(&a), Some(&42));
    let gone = map.add(0).unwrap();
    map.remove(&gone);
    assert!(map.get_mut(&gone).is_none());
    assert_eq!(map.remove(&gone), None);
    assert_eq!(map.len(), 1);
}

#[test]
fn pause_is_due_after_4096_handles() {
    let mut map = IdMap::<u8>::new();
    for _ in 0..4095 {
        map.add(0).unwrap();
    }
    assert!(!map.is_pause_due());
    map.add(0).unwrap();
    assert!(map.is_pause_due());
    map.acknowledge_pause();
    assert!(!map.is_pause_due());
    assert_eq!(map.len(), 4096);
}
