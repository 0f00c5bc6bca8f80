use mco::sync_btree_map::SyncBtreeMap;
use mco::sync_map::SyncMap;
use std::ops::Deref;

#[test]
pub fn sync_btree_map_test_empty() {
    let m: SyncBtreeMap<i32, i32> = SyncBtreeMap::new();
    assert_eq!(0, m.len());
}

#[test]
pub fn sync_btree_map_test_insert() {
    let mut m = SyncBtreeMap::<i32, i32>::new();
    let insert = m.insert(1, 2);
    assert_eq!(insert.is_none(), true);
}

#[test]
pub fn sync_btree_map_test_get() {
    let mut m = SyncBtreeMap::<i32, i32>::new();
    let _insert = m.insert(1, 2);
    let g = m.get(&1).unwrap();
    assert_eq!(2, *g.deref());
}

#[test]
pub fn test_insert2() {
    let mut m = SyncBtreeMap::<String, String>::new();
    m.insert("/".to_string(), "1".to_string());
    m.insert("/js".to_string(), "2".to_string());
    m.insert("/fn".to_string(), "3".to_string());

    assert_eq!(&"1".to_string(), m.get(&"/".to_string()).unwrap());
    assert_eq!(&"2".to_string(), m.get(&"/js".to_string()).unwrap());
    assert_eq!(&"3".to_string(), m.get(&"/fn".to_string()).unwrap());
}

#[test]
pub fn test_iter() {
    let mut m = SyncBtreeMap::<i32, i32>::new();
    let _insert = m.insert(1, 2);
    for (k, v) in m.iter() {
        assert_eq!(*k, 1);
        assert_eq!(*v, 2);
    }
}

#[test]
pub fn sync_map_test_empty() {
    let m: SyncMap<i32, i32> = SyncMap::new();
    assert_eq!(0, m.len());
}

#[test]
pub fn sync_map_test_insert() {
    let mut m = SyncMap::<i32, i32>::new();
    let insert = m.insert(1, 2);
    assert_eq!(insert.is_none(), true);
}

#[test]
pub fn sync_map_test_get() {
    let mut m = SyncMap::<i32, i32>::new();
    let _insert = m.insert(1, 2);
    let g = m.get(&1).unwrap();
    assert_eq!(2, *g.deref());
}

#[test]
fn sync_map_insert_replaces_and_returns_old() {
    let mut m = SyncMap::<u64, u64>::new();
    assert_eq!(m.insert(7, 1), None);
    assert_eq!(m.insert(7, 2), Some(1));
    assert_eq!(m.get(&7), Some(&2));
    assert_eq!(m.len(), 1);
}

#[test]
fn sync_map_remove_clear_shrink() {
    let mut m = SyncMap::<u64, u64>::with_capacity(16);
    assert!(m.is_empty());
    m.insert(1, 10);
    m.insert(2, 20);
    assert_eq!(m.remove(&1), Some(10));
    assert_eq!(m.remove(&1), None);
    m.shrink_to_fit();
    assert_eq!(m.get(&2), Some(&20));
    assert_eq!(m.len(), 1);
    m.clear();
    assert!(m.is_empty());
    assert_eq!(m.get(&2), None);
}

#[test]
fn sync_btree_map_orders_and_removes() {
    let mut m = SyncBtreeMap::<i32, i32>::with_capacity(4);
    m.insert(3, 30);
    m.insert(1, 10);
    m.insert(2, 20);
    assert_eq!(m.insert(2, 21), Some(20));
    let keys: Vec<i32> = m.iter().map(|(k, _)| *k).collect();
    assert_eq!(keys, vec![1, 2, 3]);
    assert_eq!(m.remove(&1), Some(10));
    assert_eq!(m.remove(&1), None);
    assert_eq!(m.len(), 2);
    m.shrink_to_fit();
    m.clear();
    assert!(m.is_empty());
}

#[test]
fn sync_btree_map_new_arc_is_empty() {
    let m = SyncBtreeMap::<u64, u64>::new_arc();
    assert!(m.is_empty());
    assert_eq!(m.get(&1), None);
}

#[test]
fn sync_map_get_mut_changes_in_place() {
    let mut m = SyncMap::<u64, u64>::new();
    m.insert(1, 2);
    if let Some(v) = m.get_mut(&1) {
        *v = 5;
    }
    assert_eq!(m.get(&1), Some(&5));
    assert!(m.get_mut(&2).is_none());
    assert_eq!(m.len(), 1);
}

#[test]
fn sync_btree_map_get_mut_changes_in_place() {
    let mut m = SyncBtreeMap::<u64, u64>::new();
    m.insert(1, 2);
    *m.get_mut(&1).unwrap() += 40;
    assert_eq!(m.get(&1), Some(&42));
    assert!(m.get_mut(&3).is_none());
}

#[test]
fn sync_btree_map_from_hash_map() {
    let mut h = std::collections::HashMap::new();
    h.insert(3u64, 30u64);
    h.insert(1, 10);
    h.insert(2, 20);
    let m = SyncBtreeMap::from(h);
    assert_eq!(m.len(), 3);
    let entries: Vec<(u64, u64)> = m.iter().map(|(k, v)| (*k, *v)).collect();
    assert_eq!(entries, vec![(1, 10), (2, 20), (3, 30)]);
    let empty = SyncBtreeMap::<u64, u64>::from(std::collections::HashMap::new());
    assert!(empty.is_empty());
}

#[test]
pub fn test_iter_mut() {
    let mut m = SyncBtreeMap::<i32, i32>::new();
    let _insert = m.insert(1, 2);
    for (k, v) in m.iter_mut() {
        assert_eq!(*k, 1);
        assert_eq!(*v, 2);
    }
}

#[test]
fn sync_btree_map_iter_mut_changes_values() {
    let mut m = SyncBtreeMap::<u64, u64>::new();
    m.insert(2, 20);
    m.insert(1, 10);
    for (_, v) in m.iter_mut() {
        *v += 1;
    }
    assert_eq!(m.get(&1), Some(&11));
    assert_eq!(m.get(&2), Some(&21));
    assert_eq!(m.len(), 2);
}
