use velocityx::map::ConcurrentHashMap;

#[test]
fn concurrent_test_basic_operations() {
    let mut map: ConcurrentHashMap<i32, String> = ConcurrentHashMap::new();

    // Test empty map
    assert_eq!(map.len(), 0);
    assert!(map.is_empty());
    assert_eq!(map.get(&1), None);

    // Test insert and get
    assert_eq!(map.insert(1, "hello".to_string()), None);
    assert_eq!(map.len(), 1);
    assert!(!map.is_empty());
    assert_eq!(map.get(&1), Some(&"hello".to_string()));

    // Test update
    assert_eq!(map.insert(1, "world".to_string()), Some("hello".to_string()));
    assert_eq!(map.get(&1), Some(&"world".to_string()));

    // Test remove
    assert_eq!(map.remove(&1), Some("world".to_string()));
    assert_eq!(map.len(), 0);
    assert_eq!(map.get(&1), None);
}

#[test]
fn test_resize_behavior() {
    let mut map: ConcurrentHashMap<i32, i32> = ConcurrentHashMap::with_capacity(4);
    let initial_capacity = map.capacity();

    // Insert items to trigger resize
    for i in 0..10 {
        map.insert(i, i * 2);
    }

    // Should have resized
    assert!(map.capacity() > initial_capacity);

    // Verify all items are still accessible
    for i in 0..10 {
        assert_eq!(map.get(&i), Some(&(i * 2)));
    }
}

#[test]
fn test_clear() {
    let mut map: ConcurrentHashMap<i32, String> = ConcurrentHashMap::new();

    // Add some items
    for i in 0..10 {
        map.insert(i, format!("value_{}", i));
    }

    assert_eq!(map.len(), 10);

    // Clear the map
    map.clear();

    assert_eq!(map.len(), 0);
    assert!(map.is_empty());

    // Verify all items are gone
    for i in 0..10 {
        assert_eq!(map.get(&i), None);
    }
}

#[test]
fn test_clone() {
    let mut map1: ConcurrentHashMap<i32, String> = ConcurrentHashMap::new();

    // Add some items
    for i in 0..10 {
        map1.insert(i, format!("value_{}", i));
    }

    let map2 = map1.clone();

    // Verify both maps have the same content
    assert_eq!(map1.len(), map2.len());
    for i in 0..10 {
        assert_eq!(map1.get(&i), map2.get(&i));
    }

    // Modify original map
    map1.insert(10, "new_value".to_string());

    // Verify clone is unaffected
    assert_eq!(map1.get(&10), Some(&"new_value".to_string()));
    assert_eq!(map2.get(&10), None);
}

#[test]
fn test_map_growth_points() {
    let mut map: ConcurrentHashMap<u64, u64> = ConcurrentHashMap::with_capacity(4);
    assert_eq!(map.capacity(), 4);
    for i in 0..4 {
        assert_eq!(map.insert(i, i), None);
    }
    // Four entries over four buckets are not beyond three quarters of the
    // bucket count before the fourth insertion; the fifth insertion doubles.
    assert_eq!(map.capacity(), 4);
    map.insert(4, 4);
    assert_eq!(map.capacity(), 8);
    map.insert(5, 5);
    map.insert(6, 6);
    assert_eq!(map.capacity(), 8);
    map.insert(7, 7);
    assert_eq!(map.capacity(), 16);
    assert_eq!(map.len(), 8);
    for i in 0..8 {
        assert_eq!(map.get(&i), Some(&i));
    }
}

#[test]
fn test_map_capacity_rounding() {
    let map: ConcurrentHashMap<i32, i32> = ConcurrentHashMap::with_capacity(0);
    assert_eq!(map.capacity(), 1);
    let map: ConcurrentHashMap<i32, i32> = ConcurrentHashMap::with_capacity(100);
    assert_eq!(map.capacity(), 128);
    let map: ConcurrentHashMap<i32, i32> = ConcurrentHashMap::new();
    assert_eq!(map.capacity(), 16);
}

#[test]
fn test_map_hashed_operations_share_a_bucket() {
    // Hashes 3, 19 and 35 select the same one of 16 buckets.
    let mut map: ConcurrentHashMap<i32, &str> = ConcurrentHashMap::new();
    assert_eq!(map.insert_hashed(3, 1, "a"), None);
    assert_eq!(map.insert_hashed(19, 2, "b"), None);
    assert_eq!(map.insert_hashed(35, 3, "c"), None);
    // The same key under another hash is another entry.
    assert_eq!(map.insert_hashed(19, 1, "d"), None);
    assert_eq!(map.len(), 4);
    assert_eq!(map.get_hashed(3, &1), Some(&"a"));
    assert_eq!(map.get_hashed(19, &1), Some(&"d"));
    assert_eq!(map.insert_hashed(19, 2, "e"), Some("b"));
    assert_eq!(map.remove_hashed(3, &1), Some("a"));
    assert_eq!(map.remove_hashed(3, &1), None);
    assert_eq!(map.get_hashed(19, &2), Some(&"e"));
    assert_eq!(map.get_hashed(35, &3), Some(&"c"));
    assert_eq!(map.get_hashed(19, &1), Some(&"d"));
    assert_eq!(map.len(), 3);
}

#[test]
fn test_map_string_keys() {
    let mut map: ConcurrentHashMap<String, i32> = ConcurrentHashMap::new();
    assert_eq!(map.insert("key".to_string(), 42), None);
    assert_eq!(map.get(&"key".to_string()), Some(&42));
    assert_eq!(map.remove(&"key".to_string()), Some(42));
    assert!(map.is_empty());
}

#[test]
fn test_map_string_key_count_follows_results() {
    let mut map: ConcurrentHashMap<String, i32> = ConcurrentHashMap::new();
    // A new key adds an entry; an existing key returns the old value and
    // adds none; a removal that finds the key takes one away.
    assert_eq!(map.insert("a".to_string(), 1), None);
    assert_eq!(map.len(), 1);
    assert_eq!(map.insert("a".to_string(), 2), Some(1));
    assert_eq!(map.len(), 1);
    assert_eq!(map.insert("b".to_string(), 3), None);
    assert_eq!(map.len(), 2);
    assert_eq!(map.remove(&"c".to_string()), None);
    assert_eq!(map.len(), 2);
    assert_eq!(map.remove(&"a".to_string()), Some(2));
    assert_eq!(map.len(), 1);
    for i in 0..40 {
        map.insert(format!("k{}", i), i);
    }
    assert_eq!(map.len(), 41);
    assert!(map.capacity() >= 64);
    let copy = map.clone();
    assert_eq!(copy.len(), 41);
}
