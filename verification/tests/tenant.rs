//! The tenant-scoping decorator: key rewriting, isolation between tenants
//! sharing one backend, and its unsupported flush.

use llm_cache_service::cache::CacheError;
use llm_cache_service::cache::mock_cache::MockCache;
use llm_cache_service::cache::tenant::{scoped_key_of, TenantCache};
use llm_cache_service::cache::traits::CacheLayer;

#[test]
fn tenant_builds_prefixed_keys() {
    assert_eq!(scoped_key_of("a", "k"), "a:k".to_string());
    assert_eq!(scoped_key_of("cowrie", "ls"), "cowrie:ls".to_string());
    assert_eq!(scoped_key_of("", ""), ":".to_string());
}

#[test]
fn tenant_writes_under_its_prefix() {
    let mut scope = TenantCache::new("a".to_string(), MockCache::new());
    scope.set("k", "v1").unwrap();
    assert_eq!(scope.inner.get("a:k").unwrap(), Some("v1".to_string()));
    assert_eq!(scope.inner.get("k").unwrap(), None);
}

#[test]
fn tenant_round_trips_through_its_scope() {
    let mut scope = TenantCache::new("a".to_string(), MockCache::new());
    scope.set("k", "v").unwrap();
    assert_eq!(scope.get("k").unwrap(), Some("v".to_string()));
    assert_eq!(scope.get("other").unwrap(), None);
}

#[test]
fn tenant_scopes_on_one_backend_are_isolated() {
    // one backend, two scopes; hand the backend from scope to scope
    let mut scope_a = TenantCache::new("a".to_string(), MockCache::new());
    scope_a.set("k", "v1").unwrap();

    let mut scope_b = TenantCache::new("b".to_string(), scope_a.inner);
    scope_b.set("k", "v2").unwrap();
    assert_eq!(scope_b.get("k").unwrap(), Some("v2".to_string()));

    let mut scope_a = TenantCache::new("a".to_string(), scope_b.inner);
    assert_eq!(scope_a.get("k").unwrap(), Some("v1".to_string()));
}

#[test]
fn tenant_flush_is_unsupported() {
    let mut scope = TenantCache::new("a".to_string(), MockCache::new());
    scope.set("k", "v").unwrap();
    assert!(matches!(scope.flush(), Err(CacheError::Unsupported(_))));
    assert_eq!(scope.get("k").unwrap(), Some("v".to_string()));
}
