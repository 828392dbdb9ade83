//! The in-memory backend: round-trips, misses, overwrites, and its loudly
//! failing unsupported operations.

use llm_cache_service::cache::CacheError;
use llm_cache_service::cache::mock_cache::MockCache;
use llm_cache_service::cache::traits::CacheLayer;

#[test]
fn mock_set_then_get_round_trips() {
    let mut cache = MockCache::new();
    cache.set("foo", "bar").unwrap();
    assert_eq!(cache.get("foo").unwrap(), Some("bar".to_string()));
}

#[test]
fn mock_get_on_empty_backend_returns_none() {
    let mut cache = MockCache::new();
    assert_eq!(cache.get("foo").unwrap(), None);
}

#[test]
fn mock_overwrites_existing_key() {
    let mut cache = MockCache::new();
    cache.set("foo", "bar").unwrap();
    cache.set("foo", "baz").unwrap();
    assert_eq!(cache.get("foo").unwrap(), Some("baz".to_string()));
}

#[test]
fn mock_handles_multiple_keys() {
    let mut cache = MockCache::new();
    cache.set("foo", "bar").unwrap();
    cache.set("baz", "qux").unwrap();
    assert_eq!(cache.get("foo").unwrap(), Some("bar".to_string()));
    assert_eq!(cache.get("baz").unwrap(), Some("qux".to_string()));
}

#[test]
fn mock_handles_empty_string_value() {
    let mut cache = MockCache::new();
    cache.set("empty", "").unwrap();
    assert_eq!(cache.get("empty").unwrap(), Some("".to_string()));
}

#[test]
fn mock_stores_large_values() {
    let mut cache = MockCache::new();
    let large_value = "x".repeat(10_000);
    cache.set("big", &large_value).unwrap();
    assert_eq!(cache.get("big").unwrap(), Some(large_value));
}

#[test]
fn mock_disjoint_key_writes_round_trip() {
    let mut cache = MockCache::new();
    for i in 0..10 {
        cache
            .set(&format!("key{}", i), &format!("val{}", i))
            .unwrap();
    }
    for i in 0..10 {
        assert_eq!(
            cache.get(&format!("key{}", i)).unwrap(),
            Some(format!("val{}", i)),
            "Mismatch for key key{}",
            i
        );
    }
}

#[test]
fn mock_counts_its_calls() {
    let mut cache = MockCache::new();
    assert_eq!(cache.get_calls, 0);
    assert_eq!(cache.set_calls, 0);
    cache.set("a", "1").unwrap();
    cache.set("b", "2").unwrap();
    cache.get("a").unwrap();
    assert_eq!(cache.set_calls, 2);
    assert_eq!(cache.get_calls, 1);
}

#[test]
fn mock_unsupported_operations_fail_loudly() {
    let mut cache = MockCache::new();
    cache.set("foo", "bar").unwrap();
    assert!(matches!(cache.delete("foo"), Err(CacheError::Unsupported(_))));
    assert!(matches!(cache.key_exists("foo"), Err(CacheError::Unsupported(_))));
    assert!(matches!(
        cache.set_if_absent("foo", "baz"),
        Err(CacheError::Unsupported(_))
    ));
    assert!(matches!(cache.update("foo", "baz"), Err(CacheError::Unsupported(_))));
    assert!(matches!(
        cache.compare_and_swap("foo", "bar", "baz"),
        Err(CacheError::Unsupported(_))
    ));
    assert!(matches!(cache.bulk_get(&["foo"]), Err(CacheError::Unsupported(_))));
    assert!(matches!(
        cache.bulk_set(&[("foo", "baz")]),
        Err(CacheError::Unsupported(_))
    ));
    assert!(matches!(cache.atomic_increment("n"), Err(CacheError::Unsupported(_))));
    assert!(matches!(cache.atomic_decrement("n"), Err(CacheError::Unsupported(_))));
    assert!(matches!(cache.flush(), Err(CacheError::Unsupported(_))));
    // a failed operation leaves the contents untouched
    assert_eq!(cache.get("foo").unwrap(), Some("bar".to_string()));
}
