//! Serving a prompt through the cache: answer from the cache when a reply
//! is stored, otherwise query the provider and write the fresh reply
//! through both tiers before returning it.

use vstd::prelude::*;

use crate::cache::CacheError;
use crate::cache::manager::CacheManager;
use crate::cache::traits::CacheLayer;
use crate::llm_providers::traits::{LLMError, LLMProvider};

verus! {

/// A failure while serving a prompt: either the cache or the provider
/// failed, kept apart.
#[derive(Debug)]
pub enum PromptProviderError {
    /// The cache failed.
    CacheError(CacheError),
    /// The provider failed.
    LLMError(LLMError),
}

/// A provider fronted by a two-level cache, keyed by the prompt itself.
pub struct PromptProvider<P: LLMProvider, L1: CacheLayer, L2: CacheLayer> {
    /// The provider queried on a cache miss.
    pub llm_provider: P,
    /// The two-level cache consulted first.
    pub cache_manager: CacheManager<L1, L2>,
}

impl<P: LLMProvider, L1: CacheLayer, L2: CacheLayer> PromptProvider<P, L1, L2> {
    /// Fronts `llm_provider` with `cache_manager`.
    pub fn new(llm_provider: P, cache_manager: CacheManager<L1, L2>) -> (r: Self)
        ensures
            r.llm_provider == llm_provider,
            r.cache_manager == cache_manager,
    {
        PromptProvider { llm_provider, cache_manager }
    }

    /// Serves `prompt`: a reply stored in either tier is returned (promoted
    /// into L1 on an L2 hit, best-effort); otherwise the provider is
    /// queried and its reply written through both tiers before it is
    /// returned. Cache and provider failures propagate, kept apart.
    pub fn get_response(&mut self, prompt: &str) -> (r: Result<String, PromptProviderError>)
        requires
            old(self).cache_manager.inv(),
        ensures
            final(self).cache_manager.inv(),
            match r {
                Ok(v) => {
                    ||| {
                        &&& old(self).cache_manager.l1.contents().contains_key(prompt@)
                        &&& v@ == old(self).cache_manager.l1.contents()[prompt@]
                        &&& final(self).cache_manager.l1.contents() == old(
                            self,
                        ).cache_manager.l1.contents()
                        &&& final(self).cache_manager.l2.contents() == old(
                            self,
                        ).cache_manager.l2.contents()
                    }
                    ||| {
                        &&& !old(self).cache_manager.l1.contents().contains_key(prompt@)
                        &&& old(self).cache_manager.l2.contents().contains_key(prompt@)
                        &&& v@ == old(self).cache_manager.l2.contents()[prompt@]
                        &&& final(self).cache_manager.l2.contents() == old(
                            self,
                        ).cache_manager.l2.contents()
                        &&& {
                            ||| final(self).cache_manager.l1.contents() == old(
                                self,
                            ).cache_manager.l1.contents().insert(prompt@, v@)
                            ||| final(self).cache_manager.l1.contents() == old(
                                self,
                            ).cache_manager.l1.contents()
                        }
                    }
                    ||| {
                        &&& !old(self).cache_manager.l1.contents().contains_key(prompt@)
                        &&& !old(self).cache_manager.l2.contents().contains_key(prompt@)
                        &&& final(self).cache_manager.l1.contents() == old(
                            self,
                        ).cache_manager.l1.contents().insert(prompt@, v@)
                        &&& final(self).cache_manager.l2.contents() == old(
                            self,
                        ).cache_manager.l2.contents().insert(prompt@, v@)
                    }
                },
                Err(_) => {
                    &&& final(self).cache_manager.l2.contents() == old(
                        self,
                    ).cache_manager.l2.contents()
                    &&& {
                        ||| final(self).cache_manager.l1.contents() == old(
                            self,
                        ).cache_manager.l1.contents()
                        ||| exists|w: Seq<char>|
                            final(self).cache_manager.l1.contents() == old(
                                self,
                            ).cache_manager.l1.contents().insert(prompt@, w)
                    }
                },
            },
    {
        match self.cache_manager.get(prompt) {
            Err(e) => Err(PromptProviderError::CacheError(e)),
            Ok(Some(cached_response)) => Ok(cached_response),
            Ok(None) => match self.llm_provider.query(prompt) {
                Err(e) => Err(PromptProviderError::LLMError(e)),
                Ok(response) => match self.cache_manager.set(prompt, response.as_str()) {
                    Err(e) => Err(PromptProviderError::CacheError(e)),
                    Ok(_) => Ok(response),
                },
            },
        }
    }
}

} // verus!
