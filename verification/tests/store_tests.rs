use mockbox::cache::Cache;
use mockbox::storage::Storage;

fn sorted(mut keys: Vec<String>) -> Vec<String> {
    keys.sort();
    keys
}

#[test]
fn cache_get_after_set_returns_value() {
    let mut cache: Cache<i64> = Cache::new();
    cache.set("demo_count", 1);
    assert_eq!(cache.get("demo_count"), Some(&1));
}

#[test]
fn cache_missing_key_reads_none() {
    let cache: Cache<i64> = Cache::new();
    assert_eq!(cache.get("nothing"), None);
    assert!(!cache.has("nothing"));
}

#[test]
fn cache_later_write_wins() {
    let mut cache: Cache<&str> = Cache::new();
    cache.set("k", "first");
    cache.set("k", "second");
    assert_eq!(cache.get("k"), Some(&"second"));
    assert_eq!(cache.len(), 1);
}

#[test]
fn cache_set_keeps_other_keys() {
    let mut cache: Cache<u8> = Cache::new();
    cache.set("a", 1);
    cache.set("b", 2);
    cache.set("a", 3);
    assert_eq!(cache.get("b"), Some(&2));
    assert_eq!(cache.get("a"), Some(&3));
}

#[test]
fn cache_delete_reports_presence() {
    let mut cache: Cache<u8> = Cache::new();
    cache.set("a", 1);
    cache.set("b", 2);
    assert!(cache.delete("a"));
    assert!(!cache.delete("a"));
    assert!(!cache.has("a"));
    assert_eq!(cache.get("b"), Some(&2));
    assert_eq!(cache.len(), 1);
}

#[test]
fn cache_clear_empties() {
    let mut cache: Cache<u8> = Cache::new();
    cache.set("a", 1);
    cache.set("b", 2);
    assert!(!cache.is_empty());
    cache.clear();
    assert!(cache.is_empty());
    assert_eq!(cache.len(), 0);
    assert_eq!(cache.get("a"), None);
    assert!(cache.keys().is_empty());
}

#[test]
fn cache_keys_lists_each_key_once() {
    let mut cache: Cache<u8> = Cache::new();
    cache.set("x", 1);
    cache.set("y", 2);
    cache.set("x", 3);
    cache.set("z", 4);
    cache.delete("y");
    assert_eq!(sorted(cache.keys()), vec!["x".to_string(), "z".to_string()]);
    assert_eq!(cache.len(), 2);
}

#[test]
fn cache_keys_are_case_sensitive() {
    let mut cache: Cache<u8> = Cache::new();
    cache.set("Key", 1);
    cache.set("key", 2);
    assert_eq!(cache.len(), 2);
    assert_eq!(cache.get("Key"), Some(&1));
    assert_eq!(cache.get("key"), Some(&2));
}

#[test]
fn cache_empty_key_is_a_key() {
    let mut cache: Cache<u8> = Cache::new();
    cache.set("", 7);
    assert!(cache.has(""));
    assert_eq!(cache.get(""), Some(&7));
}

#[test]
fn storage_get_after_set_returns_value() {
    let mut storage: Storage<String> = Storage::new();
    storage.set("user", "jane".to_string());
    assert_eq!(storage.get("user"), Some(&"jane".to_string()));
    assert!(storage.has("user"));
}

#[test]
fn storage_delete_and_clear() {
    let mut storage: Storage<u32> = Storage::new();
    assert!(storage.is_empty());
    storage.set("a", 1);
    storage.set("b", 2);
    assert_eq!(storage.len(), 2);
    assert!(storage.delete("b"));
    assert!(!storage.delete("b"));
    assert_eq!(sorted(storage.keys()), vec!["a".to_string()]);
    storage.clear();
    assert!(storage.is_empty());
    assert_eq!(storage.get("a"), None);
}
