//! The providers: the deterministic test double, the handles that cannot
//! serve queries, reply extraction, and the factory's provider rule.

use llm_cache_service::llm_providers::gemini::{
    extract_first_text, GeminiCandidate, GeminiPart,
};
use llm_cache_service::llm_providers::mock::MockLLMProvider;
use llm_cache_service::llm_providers::ollama::OllamaProvider;
use llm_cache_service::llm_providers::openai::OpenAIProvider;
use llm_cache_service::llm_providers::openrouter::OpenRouterProvider;
use llm_cache_service::llm_providers::traits::{LLMError, LLMProvider};
use llm_cache_service::prompts::provider_is_supported;

#[test]
fn mock_llm_echoes_the_prompt() {
    let provider = MockLLMProvider::new();
    assert_eq!(
        provider.query("hi").unwrap(),
        "Mock response for input: hi".to_string()
    );
    assert_eq!(
        provider.query("").unwrap(),
        "Mock response for input: ".to_string()
    );
}

#[test]
fn stub_providers_fail_loudly() {
    let ollama = OllamaProvider::new("key".to_string(), "model".to_string());
    assert!(matches!(ollama.query("hi"), Err(LLMError::Other(_))));

    let openai = OpenAIProvider::new("key".to_string(), "model".to_string());
    assert!(matches!(openai.query("hi"), Err(LLMError::Other(_))));

    let openrouter = OpenRouterProvider::new("key".to_string(), "model".to_string());
    assert!(matches!(openrouter.query("hi"), Err(LLMError::Other(_))));
}

#[test]
fn provider_handles_keep_their_settings() {
    let ollama = OllamaProvider::new("key".to_string(), "model".to_string());
    assert_eq!(ollama.api_key, "key");
    assert_eq!(ollama.model, "model");
}

#[test]
fn reply_extraction_takes_the_first_part_of_the_first_candidate() {
    let candidates = vec![
        GeminiCandidate {
            parts: vec![
                GeminiPart { text: "first".to_string() },
                GeminiPart { text: "second".to_string() },
            ],
        },
        GeminiCandidate { parts: vec![GeminiPart { text: "other".to_string() }] },
    ];
    assert_eq!(extract_first_text(&candidates).unwrap(), "first".to_string());
}

#[test]
fn reply_extraction_rejects_an_empty_reply() {
    assert!(matches!(
        extract_first_text(&Vec::new()),
        Err(LLMError::InvalidResponse(_))
    ));
    let no_parts = vec![GeminiCandidate { parts: Vec::new() }];
    assert!(matches!(
        extract_first_text(&no_parts),
        Err(LLMError::InvalidResponse(_))
    ));
}

#[test]
fn only_the_gemini_provider_is_supported() {
    assert!(provider_is_supported("gemini"));
    assert!(!provider_is_supported("openai"));
    assert!(!provider_is_supported(""));
    assert!(!provider_is_supported("Gemini"));
}
