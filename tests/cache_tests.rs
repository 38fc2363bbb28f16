use rustdis::cache::RustdisCache;
use rustdis::store::Store;

#[test]
fn test_basic_operations() {
    let cache = RustdisCache::new();

    cache.set("key1".to_string(), "value1".to_string()).unwrap();
    assert_eq!(cache.get("key1").unwrap(), Some("value1".to_string()));

    assert_eq!(cache.get("nonexistent").unwrap(), None);

    assert!(cache.key_exists("key1").unwrap());
    assert!(!cache.key_exists("nonexistent").unwrap());

    assert!(cache.del("key1").unwrap());
    assert!(!cache.del("key1").unwrap());
    assert_eq!(cache.get("key1").unwrap(), None);
}

#[test]
fn test_multiple_keys() {
    let cache = RustdisCache::new();

    cache.set("key1".to_string(), "value1".to_string()).unwrap();
    cache.set("key2".to_string(), "value2".to_string()).unwrap();
    cache.set("key3".to_string(), "value3".to_string()).unwrap();

    assert_eq!(cache.size().unwrap(), 3);

    let keys = cache.keys().unwrap();
    assert!(keys.contains(&"key1".to_string()));
    assert!(keys.contains(&"key2".to_string()));
    assert!(keys.contains(&"key3".to_string()));

    cache.flush().unwrap();
    assert_eq!(cache.size().unwrap(), 0);
}

#[test]
fn test_cache_creation() {
    let cache = RustdisCache::new();
    assert_eq!(cache.size().unwrap(), 0);
}

#[test]
fn set_then_get_and_exists() {
    let mut store = Store::new();
    store.set("k".to_string(), "v".to_string());
    assert_eq!(store.get("k"), Some("v".to_string()));
    assert!(store.contains_key("k"));
}

#[test]
fn missing_and_deleted_keys_are_absent() {
    let mut store = Store::new();
    assert_eq!(store.get("never"), None);
    assert!(!store.contains_key("never"));
    store.set("gone".to_string(), "x".to_string());
    assert!(store.del("gone"));
    assert_eq!(store.get("gone"), None);
    assert!(!store.contains_key("gone"));
}

#[test]
fn del_reports_removal_once() {
    let mut store = Store::new();
    store.set("k".to_string(), "a".to_string());
    store.set("k".to_string(), "b".to_string());
    assert!(store.del("k"));
    assert!(!store.del("k"));
    assert_eq!(store.size(), 0);
}

#[test]
fn size_counts_distinct_keys_and_flush_empties() {
    let mut store = Store::new();
    store.set("a".to_string(), "1".to_string());
    store.set("b".to_string(), "2".to_string());
    store.set("a".to_string(), "3".to_string());
    assert_eq!(store.size(), 2);
    assert_eq!(store.get("a"), Some("3".to_string()));
    let mut keys = store.keys();
    keys.sort();
    assert_eq!(keys, vec!["a".to_string(), "b".to_string()]);
    store.flush();
    assert_eq!(store.size(), 0);
    assert!(store.keys().is_empty());
}

#[test]
fn repeated_set_and_flush_are_idempotent() {
    let mut store = Store::new();
    store.set("k".to_string(), "v".to_string());
    store.set("k".to_string(), "v".to_string());
    assert_eq!(store.get("k"), Some("v".to_string()));
    assert_eq!(store.size(), 1);
    store.flush();
    store.flush();
    assert_eq!(store.size(), 0);
    assert!(store.keys().is_empty());
}

#[test]
fn empty_key_and_value_are_stored() {
    let cache = RustdisCache::default();
    cache.set(String::new(), String::new()).unwrap();
    assert_eq!(cache.get("").unwrap(), Some(String::new()));
    assert_eq!(cache.size().unwrap(), 1);
}

#[test]
fn clones_share_one_store() {
    let cache = RustdisCache::new();
    let other = cache.clone();
    other.set("shared".to_string(), "yes".to_string()).unwrap();
    assert_eq!(cache.get("shared").unwrap(), Some("yes".to_string()));
    assert!(cache.del("shared").unwrap());
    assert!(!other.key_exists("shared").unwrap());
}

#[test]
fn sets_through_many_handles_are_all_visible() {
    let cache = RustdisCache::new();
    let n: usize = 16;
    let handles: Vec<RustdisCache> = (0..n).map(|_| cache.clone()).collect();
    for (i, c) in handles.iter().enumerate() {
        c.set(format!("handle:{}", i), format!("value_{}", i)).unwrap();
    }
    let keys = cache.keys().unwrap();
    assert_eq!(keys.len(), n);
    for i in 0..n {
        assert_eq!(cache.get(&format!("handle:{}", i)).unwrap(), Some(format!("value_{}", i)));
    }
}
