//! The blog's stored records and the bodies of its requests and responses.

use vstd::prelude::*;

verus! {

/// A post's metadata row: partition key `POST#<id>`, sort key `META`.
pub struct BlogPost {
    pub pk: String,
    pub sk: String,
    pub title: String,
    pub author_id: String,
    pub tags: Vec<String>,
    pub published: String,
    pub created_at: String,
    pub content_key: String,
}

/// A comment row under a post: sort key `COMMENT#...`.
pub struct Comment {
    pub pk: String,
    pub sk: String,
    pub user_id: String,
    pub text: String,
    pub created_at: String,
}

/// The metadata row of a stored piece of content: partition key
/// `CONTENT#<id>`, sort key `META`.
pub struct Content {
    pub pk: String,
    pub sk: String,
    pub content_type: String,
    pub location: String,
    pub created_at: String,
    pub author_id: String,
}

/// The value of `published` when a request leaves it out.
pub fn default_published() -> (r: String)
    ensures
        r@ == "false"@,
{
    String::from_str("false")
}

/// The tags of a request that names none.
pub fn default_tags() -> (r: Vec<String>)
    ensures
        r@.len() == 0,
{
    Vec::new()
}

pub struct CreatePostRequest {
    pub title: String,
    pub content_key: String,
    pub tags: Vec<String>,
    pub published: String,
}

pub struct CreatePostResponse {
    pub post_id: String,
    pub title: String,
    pub content: String,
    pub author_id: String,
}

pub struct CreateContentRequest {
    pub content_type: String,
    pub file_extension: String,
    pub body: String,
    pub is_base64_encoded: bool,
}

pub struct CreateContentResponse {
    pub content_id: String,
    pub content_type: String,
    pub location: String,
    pub created_at: String,
    pub author_id: String,
}

/// The body of an error response.
pub struct ApiErrorResponse {
    pub error: String,
}

impl ApiErrorResponse {
    pub fn new(message: &str) -> (r: ApiErrorResponse)
        ensures
            r.error@ == message@,
    {
        ApiErrorResponse { error: String::from_str(message) }
    }
}

} // verus!
