use blog_auth::cache::{TokenCache, TOKEN_CACHE_TTL};
use blog_auth::models::{default_published, default_tags, ApiErrorResponse, CreatePostRequest};
use blog_auth::records::{
    classify_sort_key, content_location, content_object_key, content_partition_key, extract_next_token,
    is_text_content, new_blog_post, new_content, object_key_of, parse_next_token, post_partition_key, ItemKind,
    PageKey,
};

#[test]
fn error_response_holds_message() {
    assert_eq!(ApiErrorResponse::new("Post not found").error, "Post not found");
}

#[test]
fn request_defaults() {
    assert_eq!(default_published(), "false");
    assert!(default_tags().is_empty());
}

#[test]
fn next_token_round_trip() {
    let t = extract_next_token(Some(PageKey { pk: "POST#1".to_string(), sk: "META".to_string() }));
    assert_eq!(t, Some("POST#1|META".to_string()));
    let k = parse_next_token("POST#1|META").unwrap();
    assert_eq!(k.pk, "POST#1");
    assert_eq!(k.sk, "META");
    assert!(extract_next_token(None).is_none());
}

#[test]
fn next_token_needs_one_bar() {
    assert!(parse_next_token("abc").is_none());
    assert!(parse_next_token("a|b|c").is_none());
    let k = parse_next_token("a|").unwrap();
    assert_eq!(k.pk, "a");
    assert_eq!(k.sk, "");
}

#[test]
fn sort_keys_are_classified() {
    assert_eq!(classify_sort_key("META"), ItemKind::Meta);
    assert_eq!(classify_sort_key("COMMENT#2024"), ItemKind::Comment);
    assert_eq!(classify_sort_key("COMMENT"), ItemKind::Other);
    assert_eq!(classify_sort_key("meta"), ItemKind::Other);
}

#[test]
fn record_keys_and_locations() {
    assert_eq!(post_partition_key("post-1"), "POST#post-1");
    assert_eq!(content_partition_key("c1"), "CONTENT#c1");
    let key = content_object_key("c1", "png");
    assert_eq!(key, "content/c1.png");
    let loc = content_location("bucket", &key);
    assert_eq!(loc, "s3://bucket/content/c1.png");
    assert_eq!(object_key_of(&loc, "bucket"), Some("content/c1.png".to_string()));
    assert_eq!(object_key_of(&loc, "other"), None);
}

#[test]
fn text_content_types() {
    assert!(is_text_content("text/markdown"));
    assert!(is_text_content("application/json"));
    assert!(!is_text_content("image/png"));
    assert!(!is_text_content("application/jsonl"));
}

#[test]
fn new_rows_have_meta_sort_key() {
    let req = CreatePostRequest {
        title: "Hello".to_string(),
        content_key: "ignored".to_string(),
        tags: vec!["rust".to_string()],
        published: "true".to_string(),
    };
    let p = new_blog_post("post-9", "author-1", req, "2024-01-01T00:00:00Z".to_string(), "ck".to_string());
    assert_eq!(p.pk, "POST#post-9");
    assert_eq!(p.sk, "META");
    assert_eq!(p.title, "Hello");
    assert_eq!(p.author_id, "author-1");
    assert_eq!(p.tags, vec!["rust".to_string()]);
    assert_eq!(p.content_key, "ck");
    let c = new_content("c1", "text/plain", "s3://b/k".to_string(), "now".to_string(), "a".to_string());
    assert_eq!(c.pk, "CONTENT#c1");
    assert_eq!(c.sk, "META");
    assert_eq!(c.content_type, "text/plain");
}

#[test]
fn cached_tokens_expire() {
    let mut cache = TokenCache::new();
    assert!(cache.get_cached_token(0).is_none());
    cache.store_tokens("{\"accessToken\":\"a\"}".to_string(), 1000);
    assert_eq!(cache.get_cached_token(1000 + TOKEN_CACHE_TTL - 1), Some("{\"accessToken\":\"a\"}".to_string()));
    assert!(cache.get_cached_token(1000 + TOKEN_CACHE_TTL).is_none());
    cache.store_tokens("b".to_string(), u64::MAX - 1);
    assert_eq!(cache.entry.as_ref().map(|e| e.1), Some(u64::MAX));
}
