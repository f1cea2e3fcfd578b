use snap_sync::collections::{B256Index, B256Map, B256Set};
use snap_sync::primitives::B256;

fn key(first: u8, last: u8) -> B256 {
    let mut bytes = [0u8; 32];
    bytes[0] = first;
    bytes[31] = last;
    B256(bytes)
}

#[test]
fn index_keeps_first_places() {
    let mut index = B256Index::new();
    assert_eq!(index.insert(key(1, 0)), 0);
    assert_eq!(index.insert(key(2, 0)), 1);
    assert_eq!(index.insert(key(1, 0)), 0);
    // The same bucket, another hash.
    assert_eq!(index.insert(key(1, 1)), 2);
    assert_eq!(index.len(), 3);
    assert_eq!(index.position(&key(2, 0)), Some(1));
    assert_eq!(index.position(&key(2, 1)), None);
    assert_eq!(index.to_vec(), vec![key(1, 0), key(2, 0), key(1, 1)]);
}

#[test]
fn set_holds_each_hash_once() {
    let mut set = B256Set::new();
    assert!(set.is_empty());
    for i in 0..=255 {
        set.insert(key(i, 1));
        set.insert(key(i, 1));
        set.insert(key(0, i));
    }
    assert!(!set.is_empty());
    assert!(set.contains(&key(9, 1)));
    assert!(set.contains(&key(0, 9)));
    assert!(!set.contains(&key(9, 9)));
    assert_eq!(set.to_vec().len(), 511);
}

#[test]
fn map_replaces_values() {
    let mut map = B256Map::new();
    assert!(map.is_empty());
    assert_eq!(map.get(&key(1, 1)), None);
    map.insert(key(1, 1), key(5, 5));
    map.insert(key(1, 2), key(6, 6));
    map.insert(key(1, 1), key(7, 7));
    assert!(!map.is_empty());
    assert_eq!(map.get(&key(1, 1)), Some(key(7, 7)));
    assert_eq!(map.get(&key(1, 2)), Some(key(6, 6)));
    assert_eq!(map.get(&key(1, 3)), None);
    let mut keys = map.keys();
    keys.sort_by_key(|key| key.0);
    assert_eq!(keys, vec![key(1, 1), key(1, 2)]);
}
