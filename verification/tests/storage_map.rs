use peaq_pallet_rbac::storage::StorageMap;

#[test]
fn storage_map_starts_empty() {
    let map: StorageMap<u32> = StorageMap::new();
    assert_eq!(map.len(), 0);
    assert!(!map.contains_key(&[0u8; 32]));
    assert_eq!(map.get(&[0u8; 32]), None);
}

#[test]
fn storage_map_insert_get_and_overwrite() {
    let mut map: StorageMap<u32> = StorageMap::new();
    map.insert([1u8; 32], 10);
    map.insert([2u8; 32], 20);
    assert_eq!(map.len(), 2);
    assert_eq!(map.get(&[1u8; 32]), Some(&10));
    assert_eq!(map.get(&[2u8; 32]), Some(&20));
    assert_eq!(map.get(&[3u8; 32]), None);
    map.insert([1u8; 32], 11);
    assert_eq!(map.len(), 2);
    assert_eq!(map.get(&[1u8; 32]), Some(&11));
    assert_eq!(map.key_at(0), [1u8; 32]);
    assert_eq!(map.key_at(1), [2u8; 32]);
    assert_eq!(*map.value_at(0), 11);
    assert_eq!(*map.value_at(1), 20);
}

#[test]
fn storage_map_remove() {
    let mut map: StorageMap<u32> = StorageMap::new();
    map.insert([1u8; 32], 10);
    map.insert([2u8; 32], 20);
    map.insert([3u8; 32], 30);
    map.remove(&[2u8; 32]);
    assert_eq!(map.len(), 2);
    assert!(map.contains_key(&[1u8; 32]));
    assert!(!map.contains_key(&[2u8; 32]));
    assert_eq!(map.get(&[3u8; 32]), Some(&30));
    map.remove(&[9u8; 32]);
    assert_eq!(map.len(), 2);
}

#[test]
fn storage_map_clone_holds_the_same() {
    let mut map: StorageMap<Vec<u8>> = StorageMap::new();
    map.insert([1u8; 32], vec![1, 2, 3]);
    map.insert([2u8; 32], vec![]);
    let copy = map.clone();
    assert_eq!(copy, map);
    assert_eq!(copy.get(&[1u8; 32]), Some(&vec![1, 2, 3]));
}
