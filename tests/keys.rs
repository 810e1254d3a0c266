use blog_auth::keys::{find_signing_key, parse_jwks, KeyResolver, ResolveStep, SigningKey};
use blog_auth::token::AuthError;

const JWKS: &str = r#"{"keys":[{"alg":"RS256","e":"AQAB","kid":"k1","kty":"RSA","n":"bW9k","use":"sig"},{"kty":"EC","kid":"ec","x":"1","y":"2"},{"kid":"k2","n":"bjI","e":"AQAB"}]}"#;

const SRC: &str = "https://issuer.example/.well-known/jwks.json";

fn key(kid: &str) -> SigningKey {
    SigningKey { kid: kid.to_string(), modulus: "n".to_string(), exponent: "e".to_string() }
}

fn found_kid(step: &ResolveStep) -> Option<String> {
    match step {
        ResolveStep::Found(k) => Some(k.kid.clone()),
        _ => None,
    }
}

#[test]
fn jwks_entries_are_read() {
    let keys = parse_jwks(JWKS.as_bytes()).ok().unwrap();
    assert_eq!(keys.len(), 2);
    assert_eq!(keys[0].kid, "k1");
    assert_eq!(keys[0].modulus, "bW9k");
    assert_eq!(keys[0].exponent, "AQAB");
    assert_eq!(keys[1].kid, "k2");
    assert_eq!(keys[1].modulus, "bjI");
}

#[test]
fn jwks_many_entries_keep_their_order() {
    let mut doc = String::from("{\"keys\":[");
    for i in 0..12 {
        if i > 0 {
            doc.push(',');
        }
        doc.push_str(&format!("{{\"kid\":\"k{}\",\"n\":\"n{}\",\"e\":\"AQAB\"}}", i, i));
    }
    doc.push_str("]}");
    let keys = parse_jwks(doc.as_bytes()).ok().unwrap();
    assert_eq!(keys.len(), 12);
    assert_eq!(keys[11].kid, "k11");
    assert_eq!(keys[10].modulus, "n10");
}

#[test]
fn malformed_jwks_is_fetch_error() {
    assert_eq!(parse_jwks(b"not json").err(), Some(AuthError::KeyFetchError));
    assert_eq!(parse_jwks(b"{\"keys\":{}}").err(), Some(AuthError::KeyFetchError));
    assert_eq!(parse_jwks(b"{}").err(), Some(AuthError::KeyFetchError));
    assert_eq!(parse_jwks(b"{\"keys\":[]}").ok().map(|k| k.len()), Some(0));
}

#[test]
fn first_matching_key_is_found() {
    let keys = vec![key("a"), SigningKey { kid: "b".to_string(), modulus: "first".to_string(), exponent: "e".to_string() }, key("b")];
    assert_eq!(find_signing_key(&keys, "b").map(|k| k.modulus), Some("first".to_string()));
    assert!(find_signing_key(&keys, "c").is_none());
}

#[test]
fn unknown_key_triggers_refresh_that_finds_it() {
    let mut r = KeyResolver::new(3600);
    assert!(matches!(r.begin("k1", 100), ResolveStep::Fetch));
    let step = r.finish(Ok(vec![key("k0")]), SRC.to_string(), "k1", 100);
    assert!(matches!(step, ResolveStep::Failed(AuthError::KeyNotFound)));
    // the cached set lacks k1: a new fetch is due, and the rotated set has it
    assert!(matches!(r.begin("k1", 200), ResolveStep::Fetch));
    let step = r.finish(Ok(vec![key("k0"), key("k1")]), SRC.to_string(), "k1", 200);
    assert_eq!(found_kid(&step), Some("k1".to_string()));
    assert_eq!(found_kid(&r.begin("k1", 300)), Some("k1".to_string()));
    assert_eq!(r.cache.as_ref().map(|c| (c.fetched_at, c.source.clone())), Some((200, SRC.to_string())));
}

#[test]
fn fetch_failure_is_key_fetch_error() {
    let mut r = KeyResolver::new(60);
    assert!(matches!(r.begin("k1", 0), ResolveStep::Fetch));
    assert!(matches!(r.finish(Err(AuthError::KeyFetchError), SRC.to_string(), "k1", 1), ResolveStep::Failed(AuthError::KeyFetchError)));
    assert!(!r.fetching);
    assert!(matches!(r.after_refresh("k1", 1), ResolveStep::Failed(AuthError::KeyFetchError)));
}

#[test]
fn concurrent_callers_on_cold_cache_share_one_fetch() {
    let mut r = KeyResolver::new(60);
    let steps: Vec<ResolveStep> = (0..8).map(|i| r.begin(if i % 2 == 0 { "k1" } else { "k2" }, 10)).collect();
    let fetches = steps.iter().filter(|s| matches!(s, ResolveStep::Fetch)).count();
    let waits = steps.iter().filter(|s| matches!(s, ResolveStep::Wait)).count();
    assert_eq!(fetches, 1);
    assert_eq!(waits, 7);
    assert!(matches!(r.after_refresh("k2", 10), ResolveStep::Wait));
    r.finish(Ok(vec![key("k1")]), SRC.to_string(), "k1", 11);
    assert_eq!(found_kid(&r.after_refresh("k1", 11)), Some("k1".to_string()));
    assert!(matches!(r.after_refresh("k2", 11), ResolveStep::Failed(AuthError::KeyNotFound)));
}

#[test]
fn stale_set_is_refreshed() {
    let mut r = KeyResolver::new(60);
    r.begin("k1", 0);
    r.finish(Ok(vec![key("k1")]), SRC.to_string(), "k1", 0);
    assert_eq!(found_kid(&r.begin("k1", 59)), Some("k1".to_string()));
    assert!(matches!(r.begin("k1", 60), ResolveStep::Fetch));
    assert!(matches!(r.begin("k1", 61), ResolveStep::Wait));
}
