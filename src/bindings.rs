//! The calls into serde_json, base64 and jsonwebtoken. Each result is named by
//! a spec function of the arguments alone: parsing and signature checks are
//! deterministic.

use vstd::prelude::*;
use base64::Engine;
use crate::strset::opt_seq;

verus! {

/// The string that `pointer` designates in the JSON document `doc`.
pub uninterp spec fn json_str_at(doc: Seq<u8>, pointer: Seq<char>) -> Option<Seq<char>>;

/// The unsigned integer that `pointer` designates in the JSON document `doc`.
pub uninterp spec fn json_u64_at(doc: Seq<u8>, pointer: Seq<char>) -> Option<u64>;

/// The length of the array that `pointer` designates in the JSON document `doc`.
pub uninterp spec fn json_len_at(doc: Seq<u8>, pointer: Seq<char>) -> Option<nat>;

/// The bytes that the unpadded URL-safe base64 text `text` encodes.
pub uninterp spec fn base64url_decoded(text: Seq<char>) -> Option<Seq<u8>>;

/// What the header of `token` says: whether its algorithm is RS256, and its
/// key id.
pub uninterp spec fn jwt_header(token: Seq<char>) -> Option<(bool, Option<Seq<char>>)>;

/// Whether `signature` is a valid RS256 signature of `message` under the RSA
/// public key of base64url modulus `n` and exponent `e`.
pub uninterp spec fn rs256_verifies(message: Seq<char>, signature: Seq<char>, n: Seq<char>, e: Seq<char>) -> bool;

/// Relies on serde_json::from_slice, Value::pointer and Value::as_str: the
/// string at `pointer`, if `doc` parses and holds one there.
#[verifier::external_body]
pub(crate) fn json_str(doc: &[u8], pointer: &str) -> (r: Option<String>)
    ensures
        opt_seq(r) == json_str_at(doc@, pointer@),
{
    let v: serde_json::Value = serde_json::from_slice(doc).ok()?;
    v.pointer(pointer)?.as_str().map(|s| s.to_string())
}

/// Relies on serde_json::from_slice, Value::pointer and Value::as_u64: the
/// unsigned integer at `pointer`, if `doc` parses and holds one there.
#[verifier::external_body]
pub(crate) fn json_u64(doc: &[u8], pointer: &str) -> (r: Option<u64>)
    ensures
        r == json_u64_at(doc@, pointer@),
{
    let v: serde_json::Value = serde_json::from_slice(doc).ok()?;
    v.pointer(pointer)?.as_u64()
}

/// Relies on serde_json::from_slice, Value::pointer and Value::as_array: the
/// length of the array at `pointer`, if `doc` parses and holds one there.
#[verifier::external_body]
pub(crate) fn json_len(doc: &[u8], pointer: &str) -> (r: Option<usize>)
    ensures
        match r {
            Some(n) => json_len_at(doc@, pointer@) == Some(n as nat),
            None => json_len_at(doc@, pointer@).is_none(),
        },
{
    let v: serde_json::Value = serde_json::from_slice(doc).ok()?;
    v.pointer(pointer)?.as_array().map(|a| a.len())
}

/// Relies on base64's URL_SAFE_NO_PAD engine: the decoded bytes, or `None`
/// where `text` is not such base64.
#[verifier::external_body]
pub(crate) fn decode_base64url(text: &str) -> (r: Option<Vec<u8>>)
    ensures
        match r {
            Some(b) => base64url_decoded(text@) == Some(b@),
            None => base64url_decoded(text@).is_none(),
        },
{
    base64::engine::general_purpose::URL_SAFE_NO_PAD.decode(text).ok()
}

/// What jsonwebtoken::decode_header reads from a token's header.
pub struct JwtHeader {
    pub rs256: bool,
    pub kid: Option<String>,
}

/// Relies on jsonwebtoken::decode_header: whether the header's algorithm is
/// RS256 and its key id, or `None` where the header does not decode.
#[verifier::external_body]
pub(crate) fn decode_jwt_header(token: &str) -> (r: Option<JwtHeader>)
    ensures
        match r {
            Some(h) => jwt_header(token@) == Some((h.rs256, opt_seq(h.kid))),
            None => jwt_header(token@).is_none(),
        },
{
    let h = jsonwebtoken::decode_header(token).ok()?;
    Some(JwtHeader { rs256: h.alg == jsonwebtoken::Algorithm::RS256, kid: h.kid })
}

/// Relies on jsonwebtoken's DecodingKey::from_rsa_components and
/// crypto::verify with RS256: true only where the key decodes and the
/// signature checks.
#[verifier::external_body]
pub(crate) fn verify_rs256(message: &str, signature: &str, n: &str, e: &str) -> (r: bool)
    ensures
        r == rs256_verifies(message@, signature@, n@, e@),
{
    match jsonwebtoken::DecodingKey::from_rsa_components(n, e) {
        Ok(key) => jsonwebtoken::crypto::verify(signature, message.as_bytes(), &key, jsonwebtoken::Algorithm::RS256)
            .unwrap_or(false),
        Err(_) => false,
    }
}

} // verus!
