//! The key resolver: the identity provider's signing keys, read from its
//! JWKS document and cached for a configured time. Fetching the document is
//! left to the caller; the resolver decides when a fetch is due, makes
//! concurrent callers share a single fetch, and what each caller gets once
//! the fetch is over.

use vstd::prelude::*;
use crate::strset::{decimal, decimal_spec, str_eq};
use crate::bindings::{json_str, json_len, json_str_at, json_len_at};
use crate::token::AuthError;

verus! {

/// A signing key as the contracts see it.
pub struct KeyModel {
    pub kid: Seq<char>,
    pub n: Seq<char>,
    pub e: Seq<char>,
}

/// An RS256 public key: its key id, and its modulus and exponent in
/// base64url.
pub struct SigningKey {
    pub kid: String,
    pub modulus: String,
    pub exponent: String,
}

impl View for SigningKey {
    type V = KeyModel;

    open spec fn view(&self) -> KeyModel {
        KeyModel { kid: self.kid@, n: self.modulus@, e: self.exponent@ }
    }
}

impl SigningKey {
    pub fn copy(&self) -> (r: SigningKey)
        ensures
            r@ == self@,
    {
        SigningKey { kid: self.kid.clone(), modulus: self.modulus.clone(), exponent: self.exponent.clone() }
    }
}

pub open spec fn keys_view(keys: Seq<SigningKey>) -> Seq<KeyModel> {
    keys.map_values(|k: SigningKey| k@)
}

/// The first key from index `i` on whose id is `kid`.
pub open spec fn find_from(keys: Seq<KeyModel>, kid: Seq<char>, i: int) -> Option<KeyModel>
    decreases keys.len() - i,
{
    if i < 0 || i >= keys.len() {
        None
    } else if keys[i].kid == kid {
        Some(keys[i])
    } else {
        find_from(keys, kid, i + 1)
    }
}

/// The first key of `keys` whose id is `kid`.
pub open spec fn find_key(keys: Seq<KeyModel>, kid: Seq<char>) -> Option<KeyModel> {
    find_from(keys, kid, 0)
}

/// Some key of `keys` has the id `kid`.
pub open spec fn has_key(keys: Seq<KeyModel>, kid: Seq<char>) -> bool {
    exists|j: int| 0 <= j < keys.len() && #[trigger] keys[j].kid == kid
}

proof fn lemma_find_from(keys: Seq<KeyModel>, kid: Seq<char>, i: int)
    requires
        0 <= i <= keys.len(),
    ensures
        find_from(keys, kid, i).is_some() == exists|j: int| i <= j < keys.len() && #[trigger] keys[j].kid == kid,
        find_from(keys, kid, i) matches Some(k) ==> k.kid == kid && exists|j: int| i <= j < keys.len() && keys[j] == k,
    decreases keys.len() - i,
{
    if i < keys.len() {
        lemma_find_from(keys, kid, i + 1);
        if keys[i].kid != kid {
            assert forall|j: int| i <= j < keys.len() && #[trigger] keys[j].kid == kid implies i + 1 <= j by {}
        }
    }
}

/// The key found is one of the set, with the id asked for, and there is one
/// exactly when some key has that id.
pub proof fn lemma_find_key(keys: Seq<KeyModel>, kid: Seq<char>)
    ensures
        find_key(keys, kid).is_some() == has_key(keys, kid),
        find_key(keys, kid) matches Some(k) ==> k.kid == kid && keys.contains(k),
{
    lemma_find_from(keys, kid, 0);
}

/// The first key of `keys` whose id is `kid`.
pub fn find_signing_key(keys: &Vec<SigningKey>, kid: &str) -> (r: Option<SigningKey>)
    ensures
        match r {
            Some(k) => find_key(keys_view(keys@), kid@) == Some(k@),
            None => find_key(keys_view(keys@), kid@).is_none(),
        },
{
    let ghost ks = keys_view(keys@);
    let mut i: usize = 0;
    while i < keys.len()
        invariant
            i <= keys@.len(),
            ks == keys_view(keys@),
            find_key(ks, kid@) == find_from(ks, kid@, i as int),
        decreases keys.len() - i,
    {
        if str_eq(keys[i].kid.as_str(), kid) {
            return Some(keys[i].copy());
        }
        i = i + 1;
    }
    None
}

/// The pointer to the member `field` of the `i`th entry of a JWKS document.
pub open spec fn key_pointer(i: nat, field: Seq<char>) -> Seq<char> {
    "/keys/"@ + decimal_spec(i) + "/"@ + field
}

/// The `i`th entry of the JWKS document `doc`, where it holds a key id, a
/// modulus and an exponent as strings.
pub open spec fn jwk_at(doc: Seq<u8>, i: nat) -> Option<KeyModel> {
    let kid = json_str_at(doc, key_pointer(i, "kid"@));
    let n = json_str_at(doc, key_pointer(i, "n"@));
    let e = json_str_at(doc, key_pointer(i, "e"@));
    if kid.is_some() && n.is_some() && e.is_some() {
        Some(KeyModel { kid: kid.unwrap(), n: n.unwrap(), e: e.unwrap() })
    } else {
        None
    }
}

/// The usable keys among the first `count` entries of `doc`, in order.
pub open spec fn jwks_prefix(doc: Seq<u8>, count: nat) -> Seq<KeyModel>
    decreases count,
{
    if count == 0 {
        Seq::empty()
    } else {
        let prev = jwks_prefix(doc, (count - 1) as nat);
        match jwk_at(doc, (count - 1) as nat) {
            Some(k) => prev.push(k),
            None => prev,
        }
    }
}

/// The keys of a JWKS document: every entry of its `keys` array that holds a
/// key id, a modulus and an exponent; `None` where there is no such array.
pub open spec fn jwks_spec(doc: Seq<u8>) -> Option<Seq<KeyModel>> {
    match json_len_at(doc, "/keys"@) {
        Some(count) => Some(jwks_prefix(doc, count)),
        None => None,
    }
}

fn key_pointer_string(i: usize, field: &str) -> (r: String)
    ensures
        r@ == key_pointer(i as nat, field@),
{
    let mut r = String::from_str("/keys/");
    let d = decimal(i);
    r.append(d.as_str());
    r.append("/");
    r.append(field);
    r
}

/// Reads the keys of the JWKS document `doc`. A document without a `keys`
/// array is a failed fetch; entries that are not RSA keys with a key id are
/// passed over.
pub fn parse_jwks(doc: &[u8]) -> (r: Result<Vec<SigningKey>, AuthError>)
    ensures
        match r {
            Ok(keys) => jwks_spec(doc@) == Some(keys_view(keys@)),
            Err(e) => e == AuthError::KeyFetchError && jwks_spec(doc@).is_none(),
        },
{
    let count = match json_len(doc, "/keys") {
        Some(c) => c,
        None => return Err(AuthError::KeyFetchError),
    };
    let mut keys: Vec<SigningKey> = Vec::new();
    let mut i: usize = 0;
    while i < count
        invariant
            i <= count,
            json_len_at(doc@, "/keys"@) == Some(count as nat),
            keys_view(keys@) == jwks_prefix(doc@, i as nat),
        decreases count - i,
    {
        let kid = json_str(doc, key_pointer_string(i, "kid").as_str());
        let n = json_str(doc, key_pointer_string(i, "n").as_str());
        let e = json_str(doc, key_pointer_string(i, "e").as_str());
        let ghost prev = keys@;
        match (kid, n, e) {
            (Some(kid), Some(modulus), Some(exponent)) => {
                keys.push(SigningKey { kid, modulus, exponent });
                assert(keys_view(keys@) =~= keys_view(prev).push(keys@[prev.len() as int]@));
            },
            _ => {},
        }
        i = i + 1;
    }
    Ok(keys)
}

/// A set of keys, when it was fetched, and from where.
pub struct KeySet {
    pub keys: Vec<SigningKey>,
    pub fetched_at: u64,
    pub source: String,
}

pub struct KeySetModel {
    pub keys: Seq<KeyModel>,
    pub fetched_at: u64,
    pub source: Seq<char>,
}

impl View for KeySet {
    type V = KeySetModel;

    open spec fn view(&self) -> KeySetModel {
        KeySetModel { keys: keys_view(self.keys@), fetched_at: self.fetched_at, source: self.source@ }
    }
}

/// A set fetched at `fetched_at` may still be used at `now`. A clock that
/// went back leaves it fresh.
pub open spec fn is_fresh(fetched_at: u64, ttl: u64, now: u64) -> bool {
    now < fetched_at || now - fetched_at < ttl
}

/// The resolver's cache: the last key set fetched, if any, the time for
/// which a set stays fresh, and whether a fetch is under way.
pub struct KeyResolver {
    pub cache: Option<KeySet>,
    pub ttl: u64,
    pub fetching: bool,
}

pub struct ResolverModel {
    pub cache: Option<KeySetModel>,
    pub ttl: u64,
    pub fetching: bool,
}

impl View for KeyResolver {
    type V = ResolverModel;

    open spec fn view(&self) -> ResolverModel {
        ResolverModel {
            cache: match self.cache {
                Some(c) => Some(c@),
                None => None,
            },
            ttl: self.ttl,
            fetching: self.fetching,
        }
    }
}

/// What a caller of the resolver does next: use the key found, fetch the
/// key set and hand it back, wait for the fetch under way, or fail.
pub enum ResolveStep {
    Found(SigningKey),
    Fetch,
    Wait,
    Failed(AuthError),
}

pub enum StepModel {
    Found(KeyModel),
    Fetch,
    Wait,
    Failed(AuthError),
}

impl View for ResolveStep {
    type V = StepModel;

    open spec fn view(&self) -> StepModel {
        match self {
            ResolveStep::Found(k) => StepModel::Found(k@),
            ResolveStep::Fetch => StepModel::Fetch,
            ResolveStep::Wait => StepModel::Wait,
            ResolveStep::Failed(e) => StepModel::Failed(*e),
        }
    }
}

/// The key that a fresh cached set holds under `kid`.
pub open spec fn serves(s: ResolverModel, kid: Seq<char>, now: u64) -> Option<KeyModel> {
    match s.cache {
        Some(c) => if is_fresh(c.fetched_at, s.ttl, now) { find_key(c.keys, kid) } else { None },
        None => None,
    }
}

/// A caller asks for `kid` at `now`: a fresh set that holds it answers at
/// once; otherwise the first caller is sent to fetch and the others wait.
pub open spec fn begin_spec(s: ResolverModel, kid: Seq<char>, now: u64) -> (ResolverModel, StepModel) {
    match serves(s, kid, now) {
        Some(k) => (s, StepModel::Found(k)),
        None => if s.fetching {
            (s, StepModel::Wait)
        } else {
            (ResolverModel { cache: s.cache, ttl: s.ttl, fetching: true }, StepModel::Fetch)
        },
    }
}

/// The fetch for `kid` from `source` ended at `now`, with a new key set or
/// with none. A new set replaces the cached one whole; a key id it does not
/// hold is unknown.
pub open spec fn finish_spec(
    s: ResolverModel,
    fetched: Option<Seq<KeyModel>>,
    source: Seq<char>,
    now: u64,
    kid: Seq<char>,
) -> (ResolverModel, StepModel) {
    match fetched {
        None => (ResolverModel { cache: s.cache, ttl: s.ttl, fetching: false }, StepModel::Failed(AuthError::KeyFetchError)),
        Some(ks) => (
            ResolverModel {
                cache: Some(KeySetModel { keys: ks, fetched_at: now, source }),
                ttl: s.ttl,
                fetching: false,
            },
            match find_key(ks, kid) {
                Some(k) => StepModel::Found(k),
                None => StepModel::Failed(AuthError::KeyNotFound),
            },
        ),
    }
}

/// A caller that waited asks again for `kid`: a fetch still under way keeps
/// it waiting; after it, a fresh set answers, and holds the key or not; a
/// set that is not fresh means the fetch failed.
pub open spec fn after_refresh_spec(s: ResolverModel, kid: Seq<char>, now: u64) -> StepModel {
    if s.fetching {
        StepModel::Wait
    } else {
        match s.cache {
            Some(c) => if is_fresh(c.fetched_at, s.ttl, now) {
                match find_key(c.keys, kid) {
                    Some(k) => StepModel::Found(k),
                    None => StepModel::Failed(AuthError::KeyNotFound),
                }
            } else {
                StepModel::Failed(AuthError::KeyFetchError)
            },
            None => StepModel::Failed(AuthError::KeyFetchError),
        }
    }
}

pub open spec fn fetched_view(fetched: Result<Vec<SigningKey>, AuthError>) -> Option<Seq<KeyModel>> {
    match fetched {
        Ok(keys) => Some(keys_view(keys@)),
        Err(_) => None,
    }
}

impl KeyResolver {
    /// A resolver with nothing cached, whose key sets stay fresh for `ttl`.
    pub fn new(ttl: u64) -> (r: KeyResolver)
        ensures
            r@ == (ResolverModel { cache: None, ttl, fetching: false }),
    {
        KeyResolver { cache: None, ttl, fetching: false }
    }

    fn fresh_key(&self, kid: &str, now: u64) -> (r: Option<SigningKey>)
        ensures
            match r {
                Some(k) => serves(self@, kid@, now) == Some(k@),
                None => serves(self@, kid@, now).is_none(),
            },
    {
        match &self.cache {
            Some(c) => {
                if now < c.fetched_at || now - c.fetched_at < self.ttl {
                    find_signing_key(&c.keys, kid)
                } else {
                    None
                }
            },
            None => None,
        }
    }

    /// Asks for the key `kid` at `now`.
    pub fn begin(&mut self, kid: &str, now: u64) -> (r: ResolveStep)
        ensures
            (final(self)@, r@) == begin_spec(old(self)@, kid@, now),
    {
        match self.fresh_key(kid, now) {
            Some(k) => ResolveStep::Found(k),
            None => {
                if self.fetching {
                    ResolveStep::Wait
                } else {
                    self.fetching = true;
                    ResolveStep::Fetch
                }
            },
        }
    }

    /// Hands back the outcome of the fetch from `source` made for `kid`,
    /// which ended at `now`.
    pub fn finish(
        &mut self,
        fetched: Result<Vec<SigningKey>, AuthError>,
        source: String,
        kid: &str,
        now: u64,
    ) -> (r: ResolveStep)
        ensures
            (final(self)@, r@) == finish_spec(old(self)@, fetched_view(fetched), source@, now, kid@),
    {
        self.fetching = false;
        match fetched {
            Ok(keys) => {
                let found = find_signing_key(&keys, kid);
                self.cache = Some(KeySet { keys, fetched_at: now, source });
                match found {
                    Some(k) => ResolveStep::Found(k),
                    None => ResolveStep::Failed(AuthError::KeyNotFound),
                }
            },
            Err(_) => ResolveStep::Failed(AuthError::KeyFetchError),
        }
    }

    /// Asks again for `kid` at `now`, after waiting for a fetch.
    pub fn after_refresh(&self, kid: &str, now: u64) -> (r: ResolveStep)
        ensures
            r@ == after_refresh_spec(self@, kid@, now),
    {
        if self.fetching {
            return ResolveStep::Wait;
        }
        match &self.cache {
            Some(c) => {
                if now < c.fetched_at || now - c.fetched_at < self.ttl {
                    match find_signing_key(&c.keys, kid) {
                        Some(k) => ResolveStep::Found(k),
                        None => ResolveStep::Failed(AuthError::KeyNotFound),
                    }
                } else {
                    ResolveStep::Failed(AuthError::KeyFetchError)
                }
            },
            None => ResolveStep::Failed(AuthError::KeyFetchError),
        }
    }
}

/// When the cached set does not serve `kid` and no fetch is under way, the
/// caller is sent to fetch; once the fetch brings a new set, the key is
/// found if and only if that set holds the key id, and is otherwise unknown.
pub proof fn lemma_refresh_decides(
    s: ResolverModel,
    kid: Seq<char>,
    now: u64,
    later: u64,
    fetched: Seq<KeyModel>,
    source: Seq<char>,
)
    requires
        serves(s, kid, now).is_none(),
        !s.fetching,
    ensures
        begin_spec(s, kid, now).1 == StepModel::Fetch,
        ({
            let step = finish_spec(begin_spec(s, kid, now).0, Some(fetched), source, later, kid).1;
            &&& (step is Found) == has_key(fetched, kid)
            &&& step matches StepModel::Found(k) ==> k.kid == kid && fetched.contains(k)
            &&& !has_key(fetched, kid) ==> step == StepModel::Failed(AuthError::KeyNotFound)
        }),
{
    lemma_find_key(fetched, kid);
}

/// How many of the callers asking in turn for `requests` (key id and time)
/// are sent to fetch.
pub open spec fn fetches_in(s: ResolverModel, requests: Seq<(Seq<char>, u64)>) -> nat
    decreases requests.len(),
{
    if requests.len() == 0 {
        0
    } else {
        let (next, step) = begin_spec(s, requests[0].0, requests[0].1);
        (if step is Fetch { 1nat } else { 0nat }) + fetches_in(next, requests.drop_first())
    }
}

proof fn lemma_waiting_fetches_none(s: ResolverModel, requests: Seq<(Seq<char>, u64)>)
    requires
        s.cache.is_none(),
        s.fetching,
    ensures
        fetches_in(s, requests) == 0,
    decreases requests.len(),
{
    if requests.len() > 0 {
        lemma_waiting_fetches_none(s, requests.drop_first());
    }
}

/// On a cold cache, however many callers ask, and for whatever keys, exactly
/// one of them is sent to fetch.
pub proof fn lemma_cold_cache_single_fetch(s: ResolverModel, requests: Seq<(Seq<char>, u64)>)
    requires
        s.cache.is_none(),
        !s.fetching,
        requests.len() >= 1,
    ensures
        fetches_in(s, requests) == 1,
{
    let next = begin_spec(s, requests[0].0, requests[0].1).0;
    lemma_waiting_fetches_none(next, requests.drop_first());
}

} // verus!
