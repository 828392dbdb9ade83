//! TTL rules: configuration validation, the expiry instant of a write, and
//! the liveness check a backend performs at read time.

use llm_cache_service::cache::expiry::{compute_expires_at, is_live, validate_ttl};
use llm_cache_service::cache::CacheError;

#[test]
fn ttl_validation_accepts_positive() {
    assert_eq!(validate_ttl(1).unwrap(), 1);
    assert_eq!(validate_ttl(3600).unwrap(), 3600);
}

#[test]
fn ttl_validation_rejects_zero() {
    match validate_ttl(0) {
        Err(CacheError::InvalidConfig(m)) => {
            assert_eq!(m, "TTL must be greater than zero".to_string());
        }
        other => panic!("Expected InvalidConfig error, got: {:?}", other),
    }
}

#[test]
fn expiry_is_write_time_plus_ttl() {
    assert_eq!(compute_expires_at(1000, 60), 1060);
    assert_eq!(compute_expires_at(0, 1), 1);
}

#[test]
fn expiry_saturates_at_the_far_end() {
    assert_eq!(compute_expires_at(i64::MAX - 5, 10), i64::MAX);
    assert_eq!(compute_expires_at(5, u64::MAX), i64::MAX);
}

#[test]
fn value_is_live_only_inside_its_window() {
    let expires_at = compute_expires_at(1000, 1);
    // present immediately after the write
    assert!(is_live(expires_at, 1000));
    // absent once the window has passed
    assert!(!is_live(expires_at, 1001));
    assert!(!is_live(expires_at, 5000));
}

#[test]
fn rewrite_resets_the_window_from_the_new_write_time() {
    let first = compute_expires_at(1000, 2);
    assert!(!is_live(first, 3000));
    // writing the key again at a later instant opens a fresh window,
    // independent of the earlier one and of any other key's window
    let second = compute_expires_at(3000, 2);
    assert!(is_live(second, 3000));
    assert!(is_live(second, 3001));
    assert!(!is_live(second, 3002));
}
