//! The two-level coordinator over a pair of in-memory backends: tier
//! order, promotion, misses, and write-through.

use llm_cache_service::cache::manager::CacheManager;
use llm_cache_service::cache::mock_cache::MockCache;
use llm_cache_service::cache::traits::CacheLayer;

#[test]
fn test_get_from_l1_hits_first() {
    let mut l1 = MockCache::default();
    let l2 = MockCache::default();
    l1.set("foo", "bar").unwrap();

    let mut manager = CacheManager::new(l1, l2);
    let result = manager.get("foo").unwrap();
    assert_eq!(result, Some("bar".into()));

    // L1 was queried once, L2 not touched
    assert_eq!(manager.l1.get_calls, 1);
    assert_eq!(manager.l2.get_calls, 0);
}

#[test]
fn test_get_from_l2_warms_l1() {
    let l1 = MockCache::default();
    let mut l2 = MockCache::default();
    l2.set("foo", "bar").unwrap();

    // L1 miss, L2 hit
    let mut manager = CacheManager::new(l1, l2);
    let result = manager.get("foo").unwrap();
    assert_eq!(result, Some("bar".into()));

    // L1 and L2 were queried once
    assert_eq!(manager.l1.get_calls, 1);
    assert_eq!(manager.l2.get_calls, 1);

    // L1 was warmed up
    assert_eq!(manager.l1.get("foo").unwrap(), Some("bar".into()));
}

#[test]
fn test_get_cache_miss_in_both() {
    let mut manager = CacheManager::new(MockCache::default(), MockCache::default());

    let result = manager.get("missing").unwrap();
    assert_eq!(result, None);

    assert_eq!(manager.l1.get_calls, 1);
    assert_eq!(manager.l2.get_calls, 1);
}

#[test]
fn test_set_writes_to_both_layers() {
    let mut manager = CacheManager::new(MockCache::default(), MockCache::default());

    manager.set("foo", "bar").unwrap();

    assert_eq!(manager.l1.get("foo").unwrap(), Some("bar".into()));
    assert_eq!(manager.l2.get("foo").unwrap(), Some("bar".into()));
}

#[test]
fn manager_set_overwrites_both_layers() {
    let mut manager = CacheManager::new(MockCache::default(), MockCache::default());

    manager.set("user:2", "Ford Prefect").unwrap();
    assert_eq!(manager.get("user:2").unwrap(), Some("Ford Prefect".into()));

    manager.set("user:2", "Trillian").unwrap();

    assert_eq!(manager.l1.get("user:2").unwrap(), Some("Trillian".into()));
    assert_eq!(manager.l2.get("user:2").unwrap(), Some("Trillian".into()));
}

#[test]
fn manager_l1_hit_wins_over_differing_l2() {
    let mut l1 = MockCache::default();
    let mut l2 = MockCache::default();
    l1.set("k", "from-l1").unwrap();
    l2.set("k", "from-l2").unwrap();

    // first hit wins: L1 is authoritative, no merge with L2
    let mut manager = CacheManager::new(l1, l2);
    assert_eq!(manager.get("k").unwrap(), Some("from-l1".into()));
    assert_eq!(manager.l2.get_calls, 0);
}
