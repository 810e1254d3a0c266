//! What the gateway and the identity provider ask of this library, request by
//! request: whether a request is let through, which scopes a new token
//! carries, and the identity and key locations of the provider.

use vstd::prelude::*;
use crate::strset::{no_dups, set_of};
use crate::decision::{
    allows, anonymous_spec, authorizer_response, invoke_action_spec, policy_version_spec,
    resource_arn_spec, user_key_spec, AccessPolicy, AuthorizerResponse, Effect,
};
use crate::keys::SigningKey;
use crate::mapping::{blog_mapping, blog_mapping_spec};
use crate::scopes::{compute_override, granted_spec, suppressed_spec, ScopeOverride};
use crate::token::{strings_view, token_outcome, validate, AuthError, ClaimsModel, TokenClaims};
use crate::bindings::{json_str, json_str_at};

verus! {

/// `https://cognito-idp.<region>.amazonaws.com/<pool>`.
pub open spec fn cognito_issuer_spec(region: Seq<char>, pool: Seq<char>) -> Seq<char> {
    "https://cognito-idp."@ + region + ".amazonaws.com/"@ + pool
}

/// The issuer of the tokens of user pool `pool` in `region`.
pub fn cognito_issuer(region: &str, pool: &str) -> (r: String)
    ensures
        r@ == cognito_issuer_spec(region@, pool@),
{
    let mut r = String::from_str("https://cognito-idp.");
    r.append(region);
    r.append(".amazonaws.com/");
    r.append(pool);
    r
}

/// Where the issuer publishes its signing keys.
pub fn jwks_url(issuer: &str) -> (r: String)
    ensures
        r@ == issuer@ + "/.well-known/jwks.json"@,
{
    let mut r = String::from_str(issuer);
    r.append("/.well-known/jwks.json");
    r
}

/// The author id that the gateway's authorizer handed on: the `sub` member
/// of its claims document, empty where there is none.
pub open spec fn author_id_spec(claims: Option<Seq<u8>>) -> Seq<char> {
    match claims {
        Some(doc) => match json_str_at(doc, "/sub"@) {
            Some(s) => s,
            None => Seq::empty(),
        },
        None => Seq::empty(),
    }
}

/// The id of the author making a request, read from the claims document
/// that the authorizer attached to the request context.
pub fn get_author_id_from_request_context(claims: Option<&[u8]>) -> (r: String)
    ensures
        r@ == author_id_spec(match claims { Some(d) => Some(d@), None => None }),
{
    match claims {
        Some(doc) => match json_str(doc, "/sub") {
            Some(s) => s,
            None => String::new(),
        },
        None => String::new(),
    }
}

/// Allowed only for a valid token whose groups may make the request.
pub open spec fn effect_of(p: AccessPolicy, outcome: Result<ClaimsModel, AuthError>, method: Seq<char>, path: Seq<char>) -> Effect {
    match outcome {
        Ok(c) => if allows(p, c.groups.to_set(), method, path) { Effect::Allow } else { Effect::Deny },
        Err(_) => Effect::Deny,
    }
}

/// The subject of a valid token; `anonymous` otherwise.
pub open spec fn principal_of(outcome: Result<ClaimsModel, AuthError>) -> Seq<char> {
    match outcome {
        Ok(c) => c.subject,
        Err(_) => anonymous_spec(),
    }
}

proof fn lemma_set_of_strings(v: Seq<String>)
    ensures
        set_of(v) == strings_view(v).to_set(),
{
    assert forall|s: Seq<char>| set_of(v).contains(s) implies strings_view(v).to_set().contains(s) by {
        let i = choose|i: int| 0 <= i < v.len() && v[i]@ == s;
        assert(strings_view(v)[i] == s);
    }
    assert forall|s: Seq<char>| strings_view(v).to_set().contains(s) implies set_of(v).contains(s) by {
        let i = choose|i: int| 0 <= i < strings_view(v).len() && strings_view(v)[i] == s;
        assert(v[i]@ == s);
    }
    assert(set_of(v) =~= strings_view(v).to_set());
}

/// The gateway's answer for a request of `method` on `path` that carries
/// `token`, given the outcome of resolving the token's key: a policy that
/// allows the request only for a valid token whose groups may make it, and
/// that names the token's subject, or `anonymous`, as principal.
pub fn authorize(
    policy: &AccessPolicy,
    token: &str,
    key: Result<SigningKey, AuthError>,
    aud: &str,
    iss: &str,
    method: &str,
    path: &str,
    now: u64,
) -> (r: AuthorizerResponse)
    ensures
        ({
            let outcome = token_outcome(token@, key, aud@, iss@, now);
            &&& r.principal_id@ == principal_of(outcome)
            &&& r.context@.len() == 1
            &&& r.context@[0].key@ == user_key_spec()
            &&& r.context@[0].value@ == principal_of(outcome)
            &&& r.policy_document.version@ == policy_version_spec()
            &&& r.policy_document.statement@.len() == 1
            &&& r.policy_document.statement@[0].effect == effect_of(*policy, outcome, method@, path@)
            &&& r.policy_document.statement@[0].action@.len() == 1
            &&& r.policy_document.statement@[0].action@[0]@ == invoke_action_spec()
            &&& r.policy_document.statement@[0].resource@.len() == 1
            &&& r.policy_document.statement@[0].resource@[0]@ == resource_arn_spec(*policy, method@)
        }),
{
    let outcome: Result<TokenClaims, AuthError> = validate(token, &key, aud, iss, now);
    proof {
        assert forall|v: Seq<String>| set_of(v) == #[trigger] strings_view(v).to_set() by {
            lemma_set_of_strings(v);
        }
    }
    let d = policy.decide_outcome(&outcome, method, path);
    authorizer_response(d)
}

/// The scope patch for a token of the blog API served under `domain`: the
/// baseline scope and the scopes of the caller's groups are added, and every
/// other requested scope is suppressed.
pub fn pretoken_scopes(domain: &str, groups: &Vec<String>, requested: &Vec<String>) -> (r: ScopeOverride)
    ensures
        no_dups(r.scopes_to_add@),
        no_dups(r.scopes_to_suppress@),
        set_of(r.scopes_to_add@) == granted_spec(blog_mapping_spec(domain@), set_of(groups@)),
        set_of(r.scopes_to_suppress@) == suppressed_spec(blog_mapping_spec(domain@), set_of(groups@), set_of(requested@)),
{
    let mapping = blog_mapping(domain);
    compute_override(&mapping, groups, requested)
}

} // verus!
