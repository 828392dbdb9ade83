//! The configuration shape and the decimal parser behind its numeric
//! setting.

use llm_cache_service::config::Config;
use llm_cache_service::decimal::parse_u64;

#[test]
fn parse_u64_reads_plain_decimals() {
    assert_eq!(parse_u64("0"), Some(0));
    assert_eq!(parse_u64("42"), Some(42));
    assert_eq!(parse_u64("3600"), Some(3600));
    assert_eq!(parse_u64("007"), Some(7));
}

#[test]
fn parse_u64_accepts_a_leading_plus() {
    assert_eq!(parse_u64("+7"), Some(7));
}

#[test]
fn parse_u64_covers_the_full_range() {
    assert_eq!(parse_u64("18446744073709551615"), Some(u64::MAX));
    assert_eq!(parse_u64("18446744073709551616"), None);
    assert_eq!(parse_u64("99999999999999999999999"), None);
}

#[test]
fn parse_u64_rejects_what_is_not_an_unsigned_decimal() {
    assert_eq!(parse_u64(""), None);
    assert_eq!(parse_u64("+"), None);
    assert_eq!(parse_u64("-3"), None);
    assert_eq!(parse_u64("12a"), None);
    assert_eq!(parse_u64(" 12"), None);
    assert_eq!(parse_u64("1.5"), None);
}

#[test]
fn config_holds_its_settings() {
    let config = Config {
        llm_provider: "gemini".to_string(),
        llm_name: "some-model".to_string(),
        api_key: "test-key".to_string(),
        l1_cache_url: "redis://localhost:6379".to_string(),
        l2_cache_url: ":memory:".to_string(),
        cache_ttl: 3600,
        log_level: "error".to_string(),
    };
    let copy = config.clone();
    assert_eq!(copy.llm_provider, "gemini");
    assert_eq!(copy.cache_ttl, 3600);
    assert_eq!(copy.l2_cache_url, ":memory:");
}
