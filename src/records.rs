//! Keys and locations of the stored records, and the pagination cursor
//! handed to clients.

use vstd::prelude::*;
use crate::strset::{
    has_prefix, index_of, index_of_from, lemma_index_of_from, starts_with, str_eq, strip_prefix,
};
use crate::models::{BlogPost, Content, CreatePostRequest};

verus! {

/// The partition and sort keys at which a page of results ended.
pub struct PageKey {
    pub pk: String,
    pub sk: String,
}

/// The cursor for the page key `(pk, sk)`: `<pk>|<sk>`.
pub open spec fn page_token_spec(pk: Seq<char>, sk: Seq<char>) -> Seq<char> {
    pk + seq!['|'] + sk
}

/// The page key that a cursor names: the text on either side of its one `|`.
pub open spec fn parse_page_token_spec(t: Seq<char>) -> Option<(Seq<char>, Seq<char>)> {
    match index_of_from(t, '|', 0) {
        Some(d) => if index_of_from(t, '|', d + 1).is_none() {
            Some((t.subrange(0, d), t.subrange(d + 1, t.len() as int)))
        } else {
            None
        },
        None => None,
    }
}

/// The cursor for the key at which a page ended, if it ended before the
/// last item.
pub fn extract_next_token(last_evaluated_key: Option<PageKey>) -> (r: Option<String>)
    ensures
        match last_evaluated_key {
            Some(k) => r matches Some(t) && t@ == page_token_spec(k.pk@, k.sk@),
            None => r.is_none(),
        },
{
    match last_evaluated_key {
        Some(k) => {
            let mut t = k.pk;
            t.append("|");
            proof { reveal_strlit("|"); }
            t.append(k.sk.as_str());
            Some(t)
        },
        None => None,
    }
}

/// The page key named by a cursor; `None` unless it holds exactly one `|`.
pub fn parse_next_token(token: &str) -> (r: Option<PageKey>)
    ensures
        match r {
            Some(k) => parse_page_token_spec(token@) == Some((k.pk@, k.sk@)),
            None => parse_page_token_spec(token@).is_none(),
        },
{
    let n = token.unicode_len();
    proof { lemma_index_of_from(token@, '|', 0); }
    let d = match index_of(token, n, '|', 0) {
        Some(d) => d,
        None => return None,
    };
    if index_of(token, n, '|', d + 1).is_some() {
        return None;
    }
    Some(PageKey {
        pk: String::from_str(token.substring_char(0, d)),
        sk: String::from_str(token.substring_char(d + 1, n)),
    })
}

proof fn lemma_no_char_from(s: Seq<char>, c: char, i: int)
    requires
        0 <= i,
        forall|k: int| i <= k < s.len() ==> s[k] != c,
    ensures
        index_of_from(s, c, i).is_none(),
    decreases s.len() - i,
{
    if i < s.len() {
        lemma_no_char_from(s, c, i + 1);
    }
}

proof fn lemma_first_char_at(s: Seq<char>, c: char, i: int, d: int)
    requires
        0 <= i <= d < s.len(),
        s[d] == c,
        forall|k: int| i <= k < d ==> s[k] != c,
    ensures
        index_of_from(s, c, i) == Some(d),
    decreases d - i,
{
    if i < d {
        lemma_first_char_at(s, c, i + 1, d);
    }
}

/// A cursor made from a page key whose two parts hold no `|` reads back as
/// that key.
pub proof fn lemma_page_token_round_trip(pk: Seq<char>, sk: Seq<char>)
    requires
        !pk.contains('|'),
        !sk.contains('|'),
    ensures
        parse_page_token_spec(page_token_spec(pk, sk)) == Some((pk, sk)),
{
    let t = page_token_spec(pk, sk);
    let d = pk.len() as int;
    assert forall|k: int| 0 <= k < d implies t[k] != '|' by {
        assert(t[k] == pk[k]);
    }
    lemma_first_char_at(t, '|', 0, d);
    assert forall|k: int| d + 1 <= k < t.len() implies t[k] != '|' by {
        assert(t[k] == sk[k - d - 1]);
    }
    lemma_no_char_from(t, '|', d + 1);
    assert(t.subrange(0, d) =~= pk);
    assert(t.subrange(d + 1, t.len() as int) =~= sk);
}

/// What a row of a post's partition holds, by its sort key.
#[derive(PartialEq, Eq, Structural, Clone, Copy, Debug)]
pub enum ItemKind {
    Meta,
    Comment,
    Other,
}

/// A row whose sort key is `META` is the post itself; one whose sort key
/// begins with `COMMENT#` is a comment.
pub fn classify_sort_key(sk: &str) -> (r: ItemKind)
    ensures
        r == (if sk@ == "META"@ {
            ItemKind::Meta
        } else if starts_with(sk@, "COMMENT#"@) {
            ItemKind::Comment
        } else {
            ItemKind::Other
        }),
{
    if str_eq(sk, "META") {
        ItemKind::Meta
    } else if has_prefix(sk, "COMMENT#") {
        ItemKind::Comment
    } else {
        ItemKind::Other
    }
}

pub fn post_partition_key(post_id: &str) -> (r: String)
    ensures
        r@ == "POST#"@ + post_id@,
{
    let mut r = String::from_str("POST#");
    r.append(post_id);
    r
}

pub fn content_partition_key(content_id: &str) -> (r: String)
    ensures
        r@ == "CONTENT#"@ + content_id@,
{
    let mut r = String::from_str("CONTENT#");
    r.append(content_id);
    r
}

/// The object key of an upload: `content/<id>.<extension>`.
pub fn content_object_key(content_id: &str, extension: &str) -> (r: String)
    ensures
        r@ == "content/"@ + content_id@ + "."@ + extension@,
{
    let mut r = String::from_str("content/");
    r.append(content_id);
    r.append(".");
    r.append(extension);
    r
}

/// `s3://<bucket>/`, the start of every location in `bucket`.
pub open spec fn bucket_prefix(bucket: Seq<char>) -> Seq<char> {
    "s3://"@ + bucket + "/"@
}

fn bucket_prefix_string(bucket: &str) -> (r: String)
    ensures
        r@ == bucket_prefix(bucket@),
{
    let mut r = String::from_str("s3://");
    r.append(bucket);
    r.append("/");
    r
}

/// The location of the object `key` in `bucket`: `s3://<bucket>/<key>`.
pub fn content_location(bucket: &str, key: &str) -> (r: String)
    ensures
        r@ == bucket_prefix(bucket@) + key@,
{
    let mut r = bucket_prefix_string(bucket);
    r.append(key);
    r
}

/// The object key of a location in `bucket`; `None` for a location
/// elsewhere.
pub fn object_key_of(location: &str, bucket: &str) -> (r: Option<String>)
    ensures
        match r {
            Some(k) => bucket_prefix(bucket@) + k@ == location@,
            None => !starts_with(location@, bucket_prefix(bucket@)),
        },
{
    let prefix = bucket_prefix_string(bucket);
    let r = strip_prefix(location, prefix.as_str());
    match &r {
        Some(k) => {
            assert(bucket_prefix(bucket@) + k@ =~= location@);
        },
        None => {},
    }
    r
}

/// Content served as text rather than base64: any `text/` type and JSON.
pub fn is_text_content(content_type: &str) -> (r: bool)
    ensures
        r == (starts_with(content_type@, "text/"@) || content_type@ == "application/json"@),
{
    has_prefix(content_type, "text/") || str_eq(content_type, "application/json")
}

/// The metadata row of a new post with id `post_id`.
pub fn new_blog_post(post_id: &str, author_id: &str, request: CreatePostRequest, created_at: String, content_key: String) -> (r: BlogPost)
    ensures
        r.pk@ == "POST#"@ + post_id@,
        r.sk@ == "META"@,
        r.title == request.title,
        r.author_id@ == author_id@,
        r.tags == request.tags,
        r.published == request.published,
        r.created_at == created_at,
        r.content_key == content_key,
{
    BlogPost {
        pk: post_partition_key(post_id),
        sk: String::from_str("META"),
        title: request.title,
        author_id: String::from_str(author_id),
        tags: request.tags,
        published: request.published,
        created_at,
        content_key,
    }
}

/// The metadata row of content `content_id` stored at `location`.
pub fn new_content(content_id: &str, content_type: &str, location: String, created_at: String, author_id: String) -> (r: Content)
    ensures
        r.pk@ == "CONTENT#"@ + content_id@,
        r.sk@ == "META"@,
        r.content_type@ == content_type@,
        r.location == location,
        r.created_at == created_at,
        r.author_id == author_id,
{
    Content {
        pk: content_partition_key(content_id),
        sk: String::from_str("META"),
        content_type: String::from_str(content_type),
        location,
        created_at,
        author_id,
    }
}

} // verus!
