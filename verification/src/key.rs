//! API keys and the per-request access guard.
//!
//! A stored key is a bcrypt hash of the plain token handed to the customer.
//! Verifying a presented token therefore scans the stored rows and checks
//! each hash, rather than hashing the token afresh and comparing for
//! equality: a fresh hash carries a fresh salt and would never match. A
//! request with a matching credential is authorized and exempt from rate
//! limiting; one without any credential falls back to the rate table.

use vstd::prelude::*;
use crate::rate::{RateDecision, RateTable};
use rand::distr::SampleString;

verus! {

/// How many characters a freshly issued plain token has.
pub const KEY_LENGTH: usize = 30;

/// What went wrong while handling stored keys. The query, connection and
/// serialization variants carry the persistence layer's message; they are
/// built by the caller that owns that layer.
#[derive(Debug)]
pub enum ApiKeyError {
    /// The key-store query failed.
    Query(String),
    /// The key store could not be reached.
    Connection(String),
    /// A row could not be encoded or decoded.
    Json(String),
    /// A stored hash was malformed, so a token could not be checked.
    Bcrypt,
    /// The credential header held bytes that do not decode as a string.
    ToString,
}

/// One stored API key row. The persistence layer creates these on payment
/// completion; the guard only reads them. The paid amount is kept in cents.
#[derive(Debug)]
pub struct ApiKey {
    pub id: i32,
    pub user_id: i32,
    pub token: String,
    pub paid: u64,
    pub stripe_session_id: String,
    pub created_at: i64,
}

/// The outcome bcrypt's check gives for a token against a stored hash:
/// whether the pair matches, or nothing when the stored hash is malformed.
/// Both the salt and the cost are read out of the hash string, so the
/// outcome depends on the two strings alone.
pub uninterp spec fn bcrypt_check(secret: Seq<char>, hashed: Seq<char>) -> Option<bool>;

/// Relies on bcrypt::verify: deterministic in the token and the hash, true
/// exactly for the token the hash was made from, erring only on a malformed
/// hash.
#[verifier::external_body]
fn verify_token(secret: &str, hashed: &str) -> (r: Option<bool>)
    ensures
        r == bcrypt_check(secret@, hashed@),
{
    match bcrypt::verify(secret, hashed) {
        Ok(matched) => Some(matched),
        Err(_) => None,
    }
}

/// Relies on bcrypt::hash with the crate's default cost: a returned hash is
/// well formed and bcrypt::verify accepts the hashed token against it.
#[verifier::external_body]
fn hash_token(secret: &str) -> (r: Option<String>)
    ensures
        r is Some ==> bcrypt_check(secret@, r->Some_0@) == Some(true),
{
    bcrypt::hash(secret, bcrypt::DEFAULT_COST).ok()
}

/// An ASCII letter or digit.
pub open spec fn spec_ascii_alphanumeric(c: char) -> bool {
    ||| 'a' as u32 <= c as u32 <= 'z' as u32
    ||| 'A' as u32 <= c as u32 <= 'Z' as u32
    ||| '0' as u32 <= c as u32 <= '9' as u32
}

/// Relies on rand's Alphanumeric distribution: a sampled string has exactly
/// the asked length, every character an ASCII letter or digit.
#[verifier::external_body]
fn random_alphanumeric(len: usize) -> (r: String)
    ensures
        r@.len() == len,
        forall|i: int| 0 <= i < r@.len() ==> spec_ascii_alphanumeric(r@[i]),
{
    rand::distr::Alphanumeric.sample_string(&mut rand::rng(), len)
}

impl ApiKey {
    /// Draw a fresh plain token: `KEY_LENGTH` random letters and digits.
    pub fn generate() -> (r: String)
        ensures
            r@.len() == KEY_LENGTH,
            forall|i: int| 0 <= i < r@.len() ==> spec_ascii_alphanumeric(r@[i]),
    {
        random_alphanumeric(KEY_LENGTH)
    }
}

/// Issue a key: a fresh plain token together with the bcrypt hash that is
/// stored in its place. Only the hash is persisted; the plain token is shown
/// once and later checked against the hash. Comes back empty only when
/// hashing itself fails.
pub fn issue_token() -> (r: Option<(String, String)>)
    ensures
        r is Some ==> ({
            &&& r->Some_0.0@.len() == KEY_LENGTH
            &&& forall|i: int|
                0 <= i < r->Some_0.0@.len() ==> spec_ascii_alphanumeric(r->Some_0.0@[i])
            &&& bcrypt_check(r->Some_0.0@, r->Some_0.1@) == Some(true)
        }),
{
    let plain = ApiKey::generate();
    match hash_token(plain.as_str()) {
        Some(hashed) => Some((plain, hashed)),
        None => None,
    }
}

/// What scanning the stored rows for a presented token gives: the first row
/// whose hash accepts the token, nothing when no row does, or an error as
/// soon as a malformed hash is met.
pub open spec fn spec_find(presented: Seq<char>, keys: Seq<ApiKey>) -> Result<Option<ApiKey>, ()>
    decreases keys.len(),
{
    if keys.len() == 0 {
        Ok(None)
    } else {
        match bcrypt_check(presented, keys[0].token@) {
            Option::None => Err(()),
            Option::Some(true) => Ok(Some(keys[0])),
            Option::Some(false) => spec_find(presented, keys.drop_first()),
        }
    }
}

/// Scan the stored rows for the row whose hash accepts the presented token.
/// Rows are checked in order; a malformed stored hash fails the scan.
pub fn find_matching_key(presented: &str, keys: Vec<ApiKey>) -> (r: Result<
    Option<ApiKey>,
    ApiKeyError,
>)
    ensures
        match r {
            Ok(found) => spec_find(presented@, keys@) == Ok::<_, ()>(found),
            Err(e) => spec_find(presented@, keys@) is Err && e is Bcrypt,
        },
{
    let ghost orig = keys@;
    let mut rest = keys;
    #[verifier::loop_isolation(false)]
    while rest.len() > 0
        invariant
            spec_find(presented@, orig) == spec_find(presented@, rest@),
        decreases rest@.len(),
    {
        let ghost before = rest@;
        let row = rest.remove(0);
        proof {
            assert(rest@ =~= before.drop_first());
        }
        match verify_token(presented, row.token.as_str()) {
            None => {
                return Err(ApiKeyError::Bcrypt);
            },
            Some(true) => {
                return Ok(Some(row));
            },
            Some(false) => {},
        }
    }
    Ok(None)
}

/// The identifiers of a user's keys, in row order.
pub fn key_ids(keys: &Vec<ApiKey>) -> (r: Vec<i32>)
    ensures
        r@ == keys@.map_values(|k: ApiKey| k.id),
{
    let n = keys.len();
    let mut ids: Vec<i32> = Vec::new();
    let mut i: usize = 0;
    while i < n
        invariant
            i <= n,
            n == keys@.len(),
            ids@ =~= keys@.take(i as int).map_values(|k: ApiKey| k.id),
        decreases n - i,
    {
        ids.push(keys[i].id);
        proof {
            assert(keys@.take(i + 1) =~= keys@.take(i as int).push(keys@[i as int]));
            assert(keys@.take(i + 1).map_values(|k: ApiKey| k.id) =~= keys@.take(
                i as int,
            ).map_values(|k: ApiKey| k.id).push(keys@[i as int].id));
        }
        i += 1;
    }
    proof {
        assert(keys@.take(n as int) =~= keys@);
    }
    ids
}

/// What the access guard decided about one request.
pub enum MaybeApiKey {
    /// A presented credential matched this stored key; the request is
    /// exempt from rate limiting.
    Authorized(ApiKey),
    /// No credential was presented; the request passed the rate limiter.
    Unauthorized,
}

impl MaybeApiKey {
    /// The matched key, if the request was authorized.
    pub fn into_option(self) -> (r: Option<ApiKey>)
        ensures
            match self {
                MaybeApiKey::Authorized(k) => r == Some(k),
                MaybeApiKey::Unauthorized => r is None,
            },
    {
        match self {
            MaybeApiKey::Authorized(key) => Some(key),
            MaybeApiKey::Unauthorized => None,
        }
    }
}

/// Why the access guard turned a request away.
#[derive(Debug)]
pub enum GateRejection {
    /// A credential was presented and no stored key matches it.
    InvalidKey,
    /// The stored rows could not be checked against the credential.
    StoreFailure,
    /// No credential, and the caller's window has not expired: the whole
    /// seconds left until it does.
    TooManyRequests { wait_seconds: i64 },
    /// No credential and no usable client address to rate-limit by.
    MissingAddress,
    /// The credential header held bytes that do not decode as a string.
    MalformedHeader,
}

/// The guard's answer to a request that carries a credential, as a function
/// of the credential and the stored rows alone: no rate-limit state plays
/// any part in it.
pub open spec fn spec_gate_credential(presented: Seq<char>, keys: Seq<ApiKey>) -> Result<
    MaybeApiKey,
    GateRejection,
> {
    match spec_find(presented, keys) {
        Result::Ok(Option::Some(k)) => Ok(MaybeApiKey::Authorized(k)),
        Result::Ok(Option::None) => Err(GateRejection::InvalidKey),
        Result::Err(_) => Err(GateRejection::StoreFailure),
    }
}

/// Gate a request that carries a credential: authorized with the matching
/// stored key, turned away as invalid when no row matches, failed when the
/// rows cannot be checked. Never touches the rate table.
pub fn gate_with_credential(presented: &str, keys: Vec<ApiKey>) -> (r: Result<
    MaybeApiKey,
    GateRejection,
>)
    ensures
        r == spec_gate_credential(presented@, keys@),
{
    match find_matching_key(presented, keys) {
        Ok(Some(key)) => Ok(MaybeApiKey::Authorized(key)),
        Ok(None) => Err(GateRejection::InvalidKey),
        Err(_) => Err(GateRejection::StoreFailure),
    }
}

/// Gate a request that carries no credential: it passes as anonymous when
/// the caller's window has expired, standing a fresh one, and is turned
/// away with the remaining whole seconds while one still stands.
pub fn gate_anonymous(table: &mut RateTable, ip: &String, now: i64) -> (r: Result<
    MaybeApiKey,
    GateRejection,
>)
    requires
        old(table).wf(),
        0 <= now,
        now + crate::rate::RATE_WINDOW_SECONDS <= i64::MAX,
    ensures
        final(table).wf(),
        ({
            let prior = old(table).spec_expiry(ip@);
            if prior is Some && prior->Some_0 > now {
                &&& r == Err::<MaybeApiKey, GateRejection>(
                    GateRejection::TooManyRequests { wait_seconds: (prior->Some_0 - now) as i64 },
                )
                &&& final(table).entries@ == old(table).entries@
            } else {
                &&& r == Ok::<MaybeApiKey, GateRejection>(MaybeApiKey::Unauthorized)
                &&& final(table).spec_expiry(ip@) == Some(
                    (now + crate::rate::RATE_WINDOW_SECONDS) as i64,
                )
                &&& forall|q: Seq<char>|
                    q != ip@ ==> final(table).spec_expiry(q) == old(table).spec_expiry(q)
            }
        }),
{
    match table.check_and_update(ip, now) {
        RateDecision::Allowed => Ok(MaybeApiKey::Unauthorized),
        RateDecision::Limited { wait_seconds } => Err(
            GateRejection::TooManyRequests { wait_seconds },
        ),
    }
}

/// A request whose credential matches a stored key is authorized however
/// the rate table stands: even while its address is limited, the guard's
/// answer is the matched key, and no table state is read or written on that
/// path.
pub proof fn lemma_authorized_bypasses_rate_limit(
    presented: Seq<char>,
    keys: Seq<ApiKey>,
    k: ApiKey,
    table: RateTable,
    ip: Seq<char>,
    now: i64,
)
    requires
        spec_find(presented, keys) == Ok::<Option<ApiKey>, ()>(Some(k)),
        table.spec_expiry(ip) is Some,
        table.spec_expiry(ip)->Some_0 > now,
    ensures
        spec_gate_credential(presented, keys) == Ok::<MaybeApiKey, GateRejection>(
            MaybeApiKey::Authorized(k),
        ),
{
}

} // verus!
