//! Serving prompts through the cache: cached replies win, fresh replies
//! are written through, and the tenant-scoped variant keeps profiles
//! apart.

use llm_cache_service::cache::manager::CacheManager;
use llm_cache_service::cache::mock_cache::MockCache;
use llm_cache_service::cache::tenant::TenantCache;
use llm_cache_service::cache::traits::CacheLayer;
use llm_cache_service::llm_providers::mock::MockLLMProvider;
use llm_cache_service::prompt_provider::PromptProvider;
use llm_cache_service::prompts::prompt_provider::PromptProvider as ProfilePromptProvider;

#[test]
fn fresh_reply_is_written_through_both_tiers() {
    let manager = CacheManager::new(MockCache::new(), MockCache::new());
    let mut provider = PromptProvider::new(MockLLMProvider::new(), manager);

    let reply = provider.get_response("hi").unwrap();
    assert_eq!(reply, "Mock response for input: hi".to_string());

    assert_eq!(
        provider.cache_manager.l1.get("hi").unwrap(),
        Some("Mock response for input: hi".to_string())
    );
    assert_eq!(
        provider.cache_manager.l2.get("hi").unwrap(),
        Some("Mock response for input: hi".to_string())
    );
}

#[test]
fn cached_reply_wins_over_the_provider() {
    let mut l1 = MockCache::new();
    l1.set("hi", "canned").unwrap();
    let manager = CacheManager::new(l1, MockCache::new());
    let mut provider = PromptProvider::new(MockLLMProvider::new(), manager);

    assert_eq!(provider.get_response("hi").unwrap(), "canned".to_string());
}

#[test]
fn reply_found_in_l2_is_promoted() {
    let mut l2 = MockCache::new();
    l2.set("hi", "stored").unwrap();
    let manager = CacheManager::new(MockCache::new(), l2);
    let mut provider = PromptProvider::new(MockLLMProvider::new(), manager);

    assert_eq!(provider.get_response("hi").unwrap(), "stored".to_string());
    assert_eq!(
        provider.cache_manager.l1.get("hi").unwrap(),
        Some("stored".to_string())
    );
}

#[test]
fn profile_provider_caches_under_its_tenant() {
    let manager = CacheManager::new(
        TenantCache::new("cowrie".to_string(), MockCache::new()),
        TenantCache::new("cowrie".to_string(), MockCache::new()),
    );
    let mut provider = ProfilePromptProvider::new(MockLLMProvider::new(), manager);

    let reply = provider.get_response("ls").unwrap();
    assert_eq!(reply, "Mock response for input: ls".to_string());

    // the backend holds the reply under the tenant-scoped key
    assert_eq!(
        provider.cache_manager.l1.inner.get("cowrie:ls").unwrap(),
        Some("Mock response for input: ls".to_string())
    );
    assert_eq!(provider.cache_manager.l1.inner.get("ls").unwrap(), None);
}
