//! The guest token cache: one serialized token set, kept until it expires.

use vstd::prelude::*;

verus! {

/// How long a stored token set stays valid, in seconds.
pub const TOKEN_CACHE_TTL: u64 = 900;

/// The expiry of a token set stored at `now`.
pub open spec fn expiry_after(now: u64) -> u64 {
    if now as int + TOKEN_CACHE_TTL as int > u64::MAX as int {
        u64::MAX
    } else {
        (now + TOKEN_CACHE_TTL) as u64
    }
}

/// The serialized token set last stored, and the time at which it expires.
pub struct TokenCache {
    pub entry: Option<(String, u64)>,
}

impl TokenCache {
    pub fn new() -> (r: TokenCache)
        ensures
            r.entry.is_none(),
    {
        TokenCache { entry: None }
    }

    /// The stored token set, if one is stored and `now` is before its expiry.
    pub fn get_cached_token(&self, now: u64) -> (r: Option<String>)
        ensures
            match self.entry {
                Some((tokens, expires_at)) => if now < expires_at {
                    r matches Some(t) && t@ == tokens@
                } else {
                    r.is_none()
                },
                None => r.is_none(),
            },
    {
        match &self.entry {
            Some((tokens, expires_at)) => {
                if now < *expires_at {
                    Some(tokens.clone())
                } else {
                    None
                }
            },
            None => None,
        }
    }

    /// Replaces whatever is stored by `tokens_json`, valid for
    /// `TOKEN_CACHE_TTL` seconds from `now`.
    pub fn store_tokens(&mut self, tokens_json: String, now: u64)
        ensures
            final(self).entry == Some((tokens_json, expiry_after(now))),
    {
        let expires_at = now.saturating_add(TOKEN_CACHE_TTL);
        self.entry = Some((tokens_json, expires_at));
    }
}

} // verus!
