//! Bearer tokens: where they come from, how they are checked, and the claims
//! that a valid one carries.

use vstd::prelude::*;
use crate::strset::{decimal, decimal_spec, index_of, index_of_from, lemma_index_of_from};
use crate::bindings::{
    base64url_decoded, decode_base64url, decode_jwt_header, json_len, json_len_at, json_str,
    json_str_at, json_u64, json_u64_at, jwt_header, rs256_verifies, verify_rs256,
};
use crate::keys::{KeyModel, SigningKey};

verus! {

/// Why a request was refused. Every failure of the token checks is reported
/// as `TokenInvalid`, whatever the check that failed.
#[derive(PartialEq, Eq, Structural, Clone, Copy, Debug)]
pub enum AuthError {
    MissingCredential,
    TokenInvalid,
    KeyFetchError,
    KeyNotFound,
}

/// The claims of a token that passed every check.
pub struct TokenClaims {
    pub subject: String,
    pub issuer: String,
    pub audience: String,
    pub expiry: u64,
    pub groups: Vec<String>,
    pub scopes: Vec<String>,
}

pub struct ClaimsModel {
    pub subject: Seq<char>,
    pub issuer: Seq<char>,
    pub audience: Seq<char>,
    pub expiry: u64,
    pub groups: Seq<Seq<char>>,
    pub scopes: Seq<Seq<char>>,
}

pub open spec fn strings_view(v: Seq<String>) -> Seq<Seq<char>> {
    v.map_values(|s: String| s@)
}

impl View for TokenClaims {
    type V = ClaimsModel;

    open spec fn view(&self) -> ClaimsModel {
        ClaimsModel {
            subject: self.subject@,
            issuer: self.issuer@,
            audience: self.audience@,
            expiry: self.expiry,
            groups: strings_view(self.groups@),
            scopes: strings_view(self.scopes@),
        }
    }
}

pub open spec fn outcome_view(r: Result<TokenClaims, AuthError>) -> Result<ClaimsModel, AuthError> {
    match r {
        Ok(c) => Ok(c@),
        Err(e) => Err(e),
    }
}

// ---------------------------------------------------------------------------
// The Authorization header

pub open spec fn bearer_prefix() -> Seq<char> {
    seq!['B', 'e', 'a', 'r', 'e', 'r', ' ']
}

/// The token of an `Authorization: Bearer <token>` header; `None` where the
/// header is absent, does not start with the scheme, or holds no token.
pub open spec fn bearer_spec(header: Option<Seq<char>>) -> Option<Seq<char>> {
    match header {
        Some(h) => if h.len() > 7 && h.subrange(0, 7) == bearer_prefix() {
            Some(h.subrange(7, h.len() as int))
        } else {
            None
        },
        None => None,
    }
}

/// The bearer token of the Authorization header `header`, or
/// `MissingCredential`.
pub fn bearer_token(header: Option<&str>) -> (r: Result<String, AuthError>)
    ensures
        match r {
            Ok(t) => bearer_spec(match header { Some(h) => Some(h@), None => None }) == Some(t@),
            Err(e) => e == AuthError::MissingCredential
                && bearer_spec(match header { Some(h) => Some(h@), None => None }).is_none(),
        },
{
    let h = match header {
        Some(h) => h,
        None => return Err(AuthError::MissingCredential),
    };
    let n = h.unicode_len();
    if n <= 7 {
        return Err(AuthError::MissingCredential);
    }
    let prefix = "Bearer ";
    proof { reveal_strlit("Bearer "); }
    assert(prefix@ == bearer_prefix());
    let mut i: usize = 0;
    while i < 7
        invariant
            i <= 7,
            header == Some(h),
            n == h@.len(),
            n > 7,
            prefix@ == bearer_prefix(),
            forall|k: int| 0 <= k < i ==> h@[k] == bearer_prefix()[k],
        decreases 7 - i,
    {
        if h.get_char(i) != prefix.get_char(i) {
            assert(h@.subrange(0, 7)[i as int] != bearer_prefix()[i as int]);
            assert(h@.subrange(0, 7) != bearer_prefix());
            return Err(AuthError::MissingCredential);
        }
        i = i + 1;
    }
    assert(h@.subrange(0, 7) =~= bearer_prefix());
    Ok(String::from_str(h.substring_char(7, n)))
}

// ---------------------------------------------------------------------------
// The three segments of a token

/// The positions of the two dots of a token made of exactly three segments.
pub open spec fn dot_positions(t: Seq<char>) -> Option<(int, int)> {
    match index_of_from(t, '.', 0) {
        Some(d1) => match index_of_from(t, '.', d1 + 1) {
            Some(d2) => if index_of_from(t, '.', d2 + 1).is_none() { Some((d1, d2)) } else { None },
            None => None,
        },
        None => None,
    }
}

/// The text that the signature covers: the header and payload segments with
/// the dot between them.
pub open spec fn signing_input(t: Seq<char>) -> Seq<char> {
    t.subrange(0, dot_positions(t).unwrap().1)
}

pub open spec fn payload_segment(t: Seq<char>) -> Seq<char> {
    t.subrange(dot_positions(t).unwrap().0 + 1, dot_positions(t).unwrap().1)
}

pub open spec fn signature_segment(t: Seq<char>) -> Seq<char> {
    t.subrange(dot_positions(t).unwrap().1 + 1, t.len() as int)
}

fn split_token(t: &str, len: usize) -> (r: Option<(usize, usize)>)
    requires
        len == t@.len(),
    ensures
        match r {
            Some((d1, d2)) => dot_positions(t@) == Some((d1 as int, d2 as int)) && d1 < d2 < len,
            None => dot_positions(t@).is_none(),
        },
{
    proof { lemma_index_of_from(t@, '.', 0); }
    let d1 = match index_of(t, len, '.', 0) {
        Some(d) => d,
        None => return None,
    };
    proof { lemma_index_of_from(t@, '.', d1 + 1); }
    let d2 = match index_of(t, len, '.', d1 + 1) {
        Some(d) => d,
        None => return None,
    };
    match index_of(t, len, '.', d2 + 1) {
        Some(_) => None,
        None => Some((d1, d2)),
    }
}

// ---------------------------------------------------------------------------
// Claims

/// The pointer to the `i`th item of the array at `base`.
pub open spec fn item_pointer(base: Seq<char>, i: nat) -> Seq<char> {
    base + "/"@ + decimal_spec(i)
}

/// The strings among the first `count` items of the array at `base`, in order.
pub open spec fn str_items(doc: Seq<u8>, base: Seq<char>, count: nat) -> Seq<Seq<char>>
    decreases count,
{
    if count == 0 {
        Seq::empty()
    } else {
        let prev = str_items(doc, base, (count - 1) as nat);
        match json_str_at(doc, item_pointer(base, (count - 1) as nat)) {
            Some(s) => prev.push(s),
            None => prev,
        }
    }
}

/// The strings of the array at `base`; none where there is no array.
pub open spec fn str_list(doc: Seq<u8>, base: Seq<char>) -> Seq<Seq<char>> {
    match json_len_at(doc, base) {
        Some(count) => str_items(doc, base, count),
        None => Seq::empty(),
    }
}

/// The words of `s` from `i` on, where the word under way began at `start`;
/// words are separated by spaces, and empty words are dropped.
pub open spec fn words_from(s: Seq<char>, start: int, i: int) -> Seq<Seq<char>>
    decreases s.len() - i,
{
    if i < 0 || i >= s.len() {
        if 0 <= start < s.len() { seq![s.subrange(start, s.len() as int)] } else { Seq::empty() }
    } else if s[i] == ' ' {
        (if 0 <= start < i { seq![s.subrange(start, i)] } else { Seq::empty() }) + words_from(s, i + 1, i + 1)
    } else {
        words_from(s, start, i + 1)
    }
}

/// The space-separated words of `s`.
pub open spec fn words(s: Seq<char>) -> Seq<Seq<char>> {
    words_from(s, 0, 0)
}

pub open spec fn claims_issuer_is(doc: Seq<u8>, iss: Seq<char>) -> bool {
    json_str_at(doc, "/iss"@) == Some(iss)
}

/// The audience claim is `aud`, or a list that holds it.
pub open spec fn claims_audience_has(doc: Seq<u8>, aud: Seq<char>) -> bool {
    json_str_at(doc, "/aud"@) == Some(aud) || str_list(doc, "/aud"@).contains(aud)
}

/// The token carries an expiry that `now` has not reached: no grace period.
pub open spec fn claims_unexpired(doc: Seq<u8>, now: u64) -> bool {
    json_u64_at(doc, "/exp"@) matches Some(exp) && now < exp
}

/// The subject claim, `unknown-user` where there is none.
pub open spec fn subject_of(doc: Seq<u8>) -> Seq<char> {
    match json_str_at(doc, "/sub"@) {
        Some(s) => s,
        None => "unknown-user"@,
    }
}

/// The claims of a token whose payload is `doc`, checked against `aud` and
/// `iss`.
pub open spec fn claims_of(doc: Seq<u8>, aud: Seq<char>, iss: Seq<char>) -> ClaimsModel {
    ClaimsModel {
        subject: subject_of(doc),
        issuer: iss,
        audience: aud,
        expiry: json_u64_at(doc, "/exp"@).unwrap(),
        groups: str_list(doc, "/cognito:groups"@),
        scopes: match json_str_at(doc, "/scope"@) {
            Some(s) => words(s),
            None => Seq::empty(),
        },
    }
}

/// The token is made of three segments and its header names RS256.
pub open spec fn well_formed(t: Seq<char>) -> bool {
    dot_positions(t).is_some() && jwt_header(t) matches Some((true, _))
}

/// The token's signature checks under `key`.
pub open spec fn signature_holds(t: Seq<char>, key: KeyModel) -> bool {
    dot_positions(t).is_some() && rs256_verifies(signing_input(t), signature_segment(t), key.n, key.e)
}

/// The decoded payload of the token.
pub open spec fn payload_of(t: Seq<char>) -> Option<Seq<u8>> {
    if dot_positions(t).is_some() { base64url_decoded(payload_segment(t)) } else { None }
}

/// The outcome of checking token `t` under `key`, for audience `aud` and
/// issuer `iss`, at time `now`.
pub open spec fn validation_outcome(t: Seq<char>, key: KeyModel, aud: Seq<char>, iss: Seq<char>, now: u64) -> Result<ClaimsModel, AuthError> {
    if well_formed(t) && signature_holds(t, key) && payload_of(t).is_some()
        && claims_issuer_is(payload_of(t).unwrap(), iss)
        && claims_audience_has(payload_of(t).unwrap(), aud)
        && claims_unexpired(payload_of(t).unwrap(), now) {
        Ok(claims_of(payload_of(t).unwrap(), aud, iss))
    } else {
        Err(AuthError::TokenInvalid)
    }
}

fn item_pointer_string(base: &str, i: usize) -> (r: String)
    ensures
        r@ == item_pointer(base@, i as nat),
{
    let mut r = String::from_str(base);
    r.append("/");
    let d = decimal(i);
    r.append(d.as_str());
    r
}

fn read_str_list(doc: &[u8], base: &str) -> (r: Vec<String>)
    ensures
        strings_view(r@) == str_list(doc@, base@),
{
    let count = match json_len(doc, base) {
        Some(c) => c,
        None => {
            let r: Vec<String> = Vec::new();
            assert(strings_view(r@) =~= Seq::<Seq<char>>::empty());
            return r;
        },
    };
    let mut out: Vec<String> = Vec::new();
    let mut i: usize = 0;
    assert(strings_view(out@) =~= str_items(doc@, base@, 0));
    while i < count
        invariant
            i <= count,
            json_len_at(doc@, base@) == Some(count as nat),
            strings_view(out@) == str_items(doc@, base@, i as nat),
        decreases count - i,
    {
        let ghost prev = out@;
        match json_str(doc, item_pointer_string(base, i).as_str()) {
            Some(s) => {
                out.push(s);
                assert(strings_view(out@) =~= strings_view(prev).push(out@[prev.len() as int]@));
            },
            None => {},
        }
        i = i + 1;
    }
    out
}

/// The space-separated words of `s`, in order, empty words left out.
pub fn split_words(s: &str) -> (r: Vec<String>)
    ensures
        strings_view(r@) == words(s@),
{
    let n = s.unicode_len();
    let mut out: Vec<String> = Vec::new();
    let mut start: usize = 0;
    let mut i: usize = 0;
    while i < n
        invariant
            n == s@.len(),
            start <= i <= n,
            strings_view(out@) + words_from(s@, start as int, i as int) == words(s@),
        decreases n - i,
    {
        if s.get_char(i) == ' ' {
            let ghost prev = out@;
            if start < i {
                out.push(String::from_str(s.substring_char(start, i)));
                assert(strings_view(out@) =~= strings_view(prev) + seq![s@.subrange(start as int, i as int)]);
            }
            assert(strings_view(out@) + words_from(s@, (i + 1) as int, (i + 1) as int) =~= words(s@));
            start = i + 1;
        }
        i = i + 1;
    }
    let ghost prev = out@;
    if start < n {
        out.push(String::from_str(s.substring_char(start, n)));
        assert(strings_view(out@) =~= strings_view(prev) + seq![s@.subrange(start as int, n as int)]);
    }
    assert(strings_view(out@) =~= words(s@));
    out
}

fn audience_has(doc: &[u8], aud: &str) -> (r: bool)
    ensures
        r == claims_audience_has(doc@, aud@),
{
    match json_str(doc, "/aud") {
        Some(a) => {
            if a == String::from_str(aud) {
                return true;
            }
        },
        None => {},
    }
    let list = read_str_list(doc, "/aud");
    let mut i: usize = 0;
    while i < list.len()
        invariant
            i <= list@.len(),
            strings_view(list@) == str_list(doc@, "/aud"@),
            json_str_at(doc@, "/aud"@) != Some(aud@),
            forall|k: int| 0 <= k < i ==> list@[k]@ != aud@,
        decreases list.len() - i,
    {
        if list[i] == String::from_str(aud) {
            assert(strings_view(list@)[i as int] == aud@);
            return true;
        }
        i = i + 1;
    }
    assert(!str_list(doc@, "/aud"@).contains(aud@)) by {
        if str_list(doc@, "/aud"@).contains(aud@) {
            let k = choose|k: int| 0 <= k < str_list(doc@, "/aud"@).len() && str_list(doc@, "/aud"@)[k] == aud@;
            assert(strings_view(list@)[k] == list@[k]@);
        }
    }
    false
}

/// Checks `token` under `key`, for the audience `aud` and the issuer `iss`,
/// at time `now`: three segments, an RS256 header, a signature that checks,
/// the issuer equal to `iss`, the audience holding `aud`, and an expiry that
/// `now` has not reached. Any failure is `TokenInvalid`.
pub fn validate_with_key(token: &str, key: &SigningKey, aud: &str, iss: &str, now: u64) -> (r: Result<TokenClaims, AuthError>)
    ensures
        outcome_view(r) == validation_outcome(token@, key@, aud@, iss@, now),
{
    let n = token.unicode_len();
    let (d1, d2) = match split_token(token, n) {
        Some(p) => p,
        None => return Err(AuthError::TokenInvalid),
    };
    match decode_jwt_header(token) {
        Some(h) => {
            if !h.rs256 {
                return Err(AuthError::TokenInvalid);
            }
        },
        None => return Err(AuthError::TokenInvalid),
    }
    let message = token.substring_char(0, d2);
    let signature = token.substring_char(d2 + 1, n);
    if !verify_rs256(message, signature, key.modulus.as_str(), key.exponent.as_str()) {
        return Err(AuthError::TokenInvalid);
    }
    let payload = token.substring_char(d1 + 1, d2);
    let doc_vec = match decode_base64url(payload) {
        Some(d) => d,
        None => return Err(AuthError::TokenInvalid),
    };
    let doc = doc_vec.as_slice();
    match json_str(doc, "/iss") {
        Some(i) => {
            if !(i == String::from_str(iss)) {
                return Err(AuthError::TokenInvalid);
            }
        },
        None => return Err(AuthError::TokenInvalid),
    }
    if !audience_has(doc, aud) {
        return Err(AuthError::TokenInvalid);
    }
    let expiry = match json_u64(doc, "/exp") {
        Some(e) => e,
        None => return Err(AuthError::TokenInvalid),
    };
    if !(now < expiry) {
        return Err(AuthError::TokenInvalid);
    }
    let subject = match json_str(doc, "/sub") {
        Some(s) => s,
        None => String::from_str("unknown-user"),
    };
    let groups = read_str_list(doc, "/cognito:groups");
    let scopes = match json_str(doc, "/scope") {
        Some(s) => split_words(s.as_str()),
        None => {
            let v: Vec<String> = Vec::new();
            assert(strings_view(v@) =~= Seq::<Seq<char>>::empty());
            v
        },
    };
    let claims = TokenClaims {
        subject,
        issuer: String::from_str(iss),
        audience: String::from_str(aud),
        expiry,
        groups,
        scopes,
    };
    assert(claims@ == claims_of(doc@, aud@, iss@));
    Ok(claims)
}

/// The key id named by the header of `token`, read without trusting
/// anything else in it. A token that is not three segments, whose header
/// does not decode, names another algorithm than RS256, or names no key,
/// is `TokenInvalid`.
pub fn token_key_id(token: &str) -> (r: Result<String, AuthError>)
    ensures
        match r {
            Ok(kid) => well_formed(token@) && jwt_header(token@) == Some((true, Some(kid@))),
            Err(e) => e == AuthError::TokenInvalid
                && !(well_formed(token@) && jwt_header(token@) matches Some((_, Some(_)))),
        },
{
    let n = token.unicode_len();
    if split_token(token, n).is_none() {
        return Err(AuthError::TokenInvalid);
    }
    match decode_jwt_header(token) {
        Some(h) => {
            if !h.rs256 {
                return Err(AuthError::TokenInvalid);
            }
            match h.kid {
                Some(kid) => Ok(kid),
                None => Err(AuthError::TokenInvalid),
            }
        },
        None => Err(AuthError::TokenInvalid),
    }
}

/// The outcome of checking `token` with the key that resolution gave.
pub open spec fn token_outcome(
    token: Seq<char>,
    key: Result<SigningKey, AuthError>,
    aud: Seq<char>,
    iss: Seq<char>,
    now: u64,
) -> Result<ClaimsModel, AuthError> {
    match key {
        Ok(k) => validation_outcome(token, k@, aud, iss, now),
        Err(e) => Err(e),
    }
}

/// Checks `token` with the key that resolving its key id gave: a failed
/// resolution is passed on, and a key is used as `validate_with_key` does.
pub fn validate(token: &str, key: &Result<SigningKey, AuthError>, aud: &str, iss: &str, now: u64) -> (r: Result<TokenClaims, AuthError>)
    ensures
        outcome_view(r) == token_outcome(token@, *key, aud@, iss@, now),
{
    match key {
        Ok(k) => validate_with_key(token, k, aud, iss, now),
        Err(e) => Err(*e),
    }
}

/// A bad signature, an expired token, a wrong audience and a wrong issuer
/// each make the token invalid, and all four are reported alike.
pub proof fn lemma_rejections_are_uniform(t: Seq<char>, key: KeyModel, aud: Seq<char>, iss: Seq<char>, now: u64)
    requires
        !signature_holds(t, key)
            || (payload_of(t) matches Some(doc) && (!claims_unexpired(doc, now)
                || !claims_audience_has(doc, aud) || !claims_issuer_is(doc, iss))),
    ensures
        validation_outcome(t, key, aud, iss, now) == Err::<ClaimsModel, AuthError>(AuthError::TokenInvalid),
{
}

} // verus!
