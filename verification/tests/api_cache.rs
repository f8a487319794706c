use ishi::api::cache::{fresh_for, ResponseCache};
use std::time::Duration;

#[test]
fn insert_and_get_returns_value() {
    let mut cache = ResponseCache::new(Duration::from_secs(60));
    cache.insert("key1", vec![1, 2, 3]);
    assert_eq!(cache.get("key1"), Some(&vec![1, 2, 3]));
}

#[test]
fn get_returns_none_for_missing_key() {
    let cache: ResponseCache<String> = ResponseCache::new(Duration::from_secs(60));
    assert!(cache.get("missing").is_none());
}

#[test]
fn get_stale_returns_none_for_missing_key() {
    let cache: ResponseCache<String> = ResponseCache::new(Duration::from_secs(60));
    assert!(cache.get_stale("missing").is_none());
}

#[test]
fn is_fresh_returns_true_for_valid_entry() {
    let mut cache = ResponseCache::new(Duration::from_secs(60));
    cache.insert("key", 42);
    assert!(cache.is_fresh("key"));
}

#[test]
fn is_fresh_returns_false_for_missing_key() {
    let cache: ResponseCache<i32> = ResponseCache::new(Duration::from_secs(60));
    assert!(!cache.is_fresh("missing"));
}

#[test]
fn insert_replaces_existing_entry() {
    let mut cache = ResponseCache::new(Duration::from_secs(60));
    cache.insert("key", "old".to_string());
    cache.insert("key", "new".to_string());
    assert_eq!(cache.get("key"), Some(&"new".to_string()));
}

#[test]
fn invalidate_removes_entry() {
    let mut cache = ResponseCache::new(Duration::from_secs(60));
    cache.insert("key", 1);
    cache.invalidate("key");
    assert!(cache.get("key").is_none());
    assert!(cache.get_stale("key").is_none());
}

#[test]
fn invalidate_nonexistent_key_is_no_op() {
    let mut cache: ResponseCache<i32> = ResponseCache::new(Duration::from_secs(60));
    cache.invalidate("missing"); // should not panic
}

#[test]
fn clear_removes_all_entries() {
    let mut cache = ResponseCache::new(Duration::from_secs(60));
    cache.insert("a", 1);
    cache.insert("b", 2);
    cache.clear();
    assert!(cache.get("a").is_none());
    assert!(cache.get("b").is_none());
}

#[test]
fn multiple_keys_independent() {
    let mut cache = ResponseCache::new(Duration::from_secs(60));
    cache.insert("a", 1);
    cache.insert("b", 2);
    assert_eq!(cache.get("a"), Some(&1));
    assert_eq!(cache.get("b"), Some(&2));
    cache.invalidate("a");
    assert!(cache.get("a").is_none());
    assert_eq!(cache.get("b"), Some(&2));
}

#[test]
fn zero_ttl_entries_are_never_fresh_but_stay_readable_stale() {
    let mut cache = ResponseCache::new(Duration::from_secs(0));
    cache.insert("key", "value".to_string());
    assert!(cache.get("key").is_none());
    assert!(!cache.is_fresh("key"));
    assert_eq!(cache.get_stale("key"), Some(&"value".to_string()));
}

#[test]
fn value_if_fresh_follows_the_freshness_reading() {
    let mut cache = ResponseCache::new(Duration::from_secs(60));
    cache.insert("key", 7);
    assert_eq!(cache.value_if_fresh("key", true), Some(&7));
    assert_eq!(cache.value_if_fresh("key", false), None);
    assert_eq!(cache.value_if_fresh("missing", true), None);
}

#[test]
fn zero_ttl_is_never_fresh() {
    let mut cache = ResponseCache::with_ttl_nanos(0);
    cache.insert("key", 1);
    assert!(!cache.is_fresh("key"));
    assert!(cache.get("key").is_none());
    assert_eq!(cache.get_stale("key"), Some(&1));
}

#[test]
fn fresh_for_compares_age_with_ttl() {
    assert!(fresh_for(9, 10));
    assert!(!fresh_for(10, 10));
    assert!(!fresh_for(0, 0));
}

#[test]
fn zero_duration_cache_never_serves() {
    let mut cache = ResponseCache::new(Duration::ZERO);
    cache.insert("key", 3);
    assert!(!cache.is_fresh("key"));
    assert!(cache.get("key").is_none());
}
