//! Signed bearer tokens (HMAC-SHA256 JSON Web Tokens) and their claims.

use jsonwebtoken::errors::ErrorKind;
use jsonwebtoken::{decode, encode, Algorithm, DecodingKey, EncodingKey, Header, Validation};
use serde_json::{from_value, Value};
use std::time::{SystemTime, UNIX_EPOCH};
use vstd::prelude::*;

verus! {

/// Seconds of clock skew tolerated before a token counts as expired.
pub const TOKEN_LEEWAY_SECS: u64 = 60;

/// Lifetime of a token made by `create_token`, in seconds.
pub const TOKEN_TTL_SECS: u64 = 3600;

/// The verified payload of a token.
#[derive(Debug, Clone)]
pub struct Claims {
    /// The principal (user id).
    pub sub: String,
    /// Expiry, in seconds since the Unix epoch.
    pub exp: usize,
    /// Issue time, in seconds since the Unix epoch.
    pub iat: usize,
}

impl Claims {
    /// The claims as plain values: subject, expiry, issue time.
    pub open spec fn model(&self) -> (Seq<char>, usize, usize) {
        (self.sub@, self.exp, self.iat)
    }
}

/// Why a token was not accepted. Callers treat every variant alike.
#[derive(Debug, Clone, Copy, PartialEq, Eq, Structural)]
pub enum AuthError {
    /// The token does not have the expected structure or claims.
    Malformed,
    /// The signature does not verify under the secret.
    SignatureMismatch,
    /// The expiry lies further in the past than the leeway allows.
    Expired,
    /// The system clock reads a time before the Unix epoch.
    ClockBeforeEpoch,
}

/// Why a token could not be made.
#[derive(Debug, Clone, Copy, PartialEq, Eq, Structural)]
pub enum IssueError {
    /// The clock reads a time whose expiry does not fit the claims.
    ClockOutOfRange,
    /// The system clock reads a time before the Unix epoch.
    ClockBeforeEpoch,
    /// The signing library reported an error (it reports none for HS256).
    Encoding,
}

/// The claims (subject, expiry, issue time) of `token` when it is an HS256
/// token whose signature verifies under `secret` and whose payload carries a
/// string `sub` and integer `exp` and `iat`; `None` otherwise, and also where
/// the payload carries an `aud` claim, which the decoder rejects when no
/// audience is expected.
pub uninterp spec fn hs256_claims(token: Seq<char>, secret: Seq<char>) -> Option<(Seq<char>, usize, usize)>;

/// The HS256 token whose payload holds `sub`, `exp` and `iat`, signed under
/// `secret`; it depends on these values alone.
pub uninterp spec fn hs256_token(sub: Seq<char>, exp: usize, iat: usize, secret: Seq<char>) -> Seq<char>;

#[verifier::external_type_specification]
#[verifier::external_body]
pub struct ExJwtError(jsonwebtoken::errors::Error);

/// Whether an expiry of `exp` lies in the past at `now`, beyond the leeway.
pub open spec fn is_expired(exp: int, now: int) -> bool {
    exp + TOKEN_LEEWAY_SECS < now
}

/// The claims that verification at time `now` accepts, if any.
pub open spec fn accepted_claims(token: Seq<char>, secret: Seq<char>, now: int) -> Option<(Seq<char>, usize, usize)> {
    match hs256_claims(token, secret) {
        Some(c) => if is_expired(c.1 as int, now) { None } else { Some(c) },
        None => None,
    }
}

/// `token` carries exactly the claims that `create_token` writes for
/// `subject` at time `issued_at`, signed under `secret`.
pub open spec fn issued_for(token: Seq<char>, subject: Seq<char>, secret: Seq<char>, issued_at: int) -> bool {
    hs256_claims(token, secret) == Some((subject, (issued_at + TOKEN_TTL_SECS) as usize, issued_at as usize))
}

/// The token that `create_token` makes for `subject` under `secret` at time
/// `issued_at`.
pub open spec fn issued_token(subject: Seq<char>, secret: Seq<char>, issued_at: int) -> Seq<char> {
    hs256_token(subject, (issued_at + TOKEN_TTL_SECS) as usize, issued_at as usize, secret)
}

/// Relies on jsonwebtoken::decode with an HS256 `Validation` whose expiry check
/// is switched off: it checks the signature under `secret` and the payload's
/// structure, and depends on its two arguments alone.
#[verifier::external_body]
fn hs256_decode(token: &str, secret: &str) -> (r: Result<(String, usize, usize), AuthError>)
    ensures
        r is Ok <==> hs256_claims(token@, secret@) is Some,
        r matches Ok(v) ==> hs256_claims(token@, secret@) == Some((v.0@, v.1, v.2)),
        r is Err ==> r->Err_0 == AuthError::Malformed || r->Err_0 == AuthError::SignatureMismatch,
{
    let mut validation = Validation::new(Algorithm::HS256);
    validation.validate_exp = false;
    let key = DecodingKey::from_secret(secret.as_bytes());
    let claims = match decode::<serde_json::Map<String, Value>>(token, &key, &validation) {
        Ok(data) => data.claims,
        Err(e) if *e.kind() == ErrorKind::InvalidSignature => return Err(AuthError::SignatureMismatch),
        Err(_) => return Err(AuthError::Malformed),
    };
    let field = |name: &str| claims.get(name).cloned().unwrap_or_default();
    match (from_value(field("sub")), from_value(field("exp")), from_value(field("iat"))) {
        (Ok(sub), Ok(exp), Ok(iat)) => Ok((sub, exp, iat)),
        _ => Err(AuthError::Malformed),
    }
}

/// Relies on jsonwebtoken::encode with an HS256 header and a key made from
/// `secret`: it fails only where key and algorithm families differ, which an
/// HMAC key and HS256 never do; HMAC signing is deterministic; and the token
/// decodes, under the same secret, to the claims it was given.
#[verifier::external_body]
fn hs256_encode(sub: &str, exp: usize, iat: usize, secret: &str) -> (r: Result<String, jsonwebtoken::errors::Error>)
    ensures
        r is Ok,
        r matches Ok(t) ==> t@ == hs256_token(sub@, exp, iat, secret@),
        r matches Ok(t) ==> hs256_claims(t@, secret@) == Some((sub@, exp, iat)),
{
    let mut claims = serde_json::Map::new();
    claims.insert("sub".to_owned(), Value::from(sub));
    claims.insert("exp".to_owned(), Value::from(exp));
    claims.insert("iat".to_owned(), Value::from(iat));
    let key = EncodingKey::from_secret(secret.as_bytes());
    encode(&Header::new(Algorithm::HS256), &claims, &key)
}

/// Relies on SystemTime::duration_since(UNIX_EPOCH) on the system clock: the
/// whole seconds since the epoch, or `None` where the clock reads earlier.
/// Nothing can be promised of the value.
#[verifier::external_body]
fn unix_now() -> (r: Option<u64>) {
    SystemTime::now().duration_since(UNIX_EPOCH).ok().map(|d| d.as_secs())
}

/// Verifies `token` under `secret` at time `now` (seconds since the epoch).
pub fn verify_token_at(token: &str, secret: &str, now: u64) -> (r: Result<Claims, AuthError>)
    ensures
        r is Ok <==> accepted_claims(token@, secret@, now as int) is Some,
        r is Ok ==> accepted_claims(token@, secret@, now as int) == Some(r->Ok_0.model()),
        r == Err::<Claims, AuthError>(AuthError::Expired) <==> (hs256_claims(token@, secret@) matches Some(c)
            && is_expired(c.1 as int, now as int)),
        r != Err::<Claims, AuthError>(AuthError::ClockBeforeEpoch),
{
    match hs256_decode(token, secret) {
        Ok((sub, exp, iat)) => {
            if (exp as u128) + (TOKEN_LEEWAY_SECS as u128) < (now as u128) {
                Err(AuthError::Expired)
            } else {
                Ok(Claims { sub, exp, iat })
            }
        },
        Err(e) => Err(e),
    }
}

/// Verifies `token` under `secret` against the system clock.
pub fn verify_token(token: &str, secret: &str) -> (r: Result<Claims, AuthError>)
    ensures
        r is Ok ==> hs256_claims(token@, secret@) == Some(r->Ok_0.model()),
        hs256_claims(token@, secret@) is None ==> r is Err && r != Err::<Claims, AuthError>(AuthError::Expired),
        hs256_claims(token@, secret@) matches Some(c) ==> (r matches Ok(v) && v.model() == c)
            || r == Err::<Claims, AuthError>(AuthError::Expired)
            || r == Err::<Claims, AuthError>(AuthError::ClockBeforeEpoch),
{
    match unix_now() {
        Some(now) => verify_token_at(token, secret, now),
        None => Err(AuthError::ClockBeforeEpoch),
    }
}

/// Signs `claims` under `secret` as an HS256 token.
pub fn sign_claims(claims: &Claims, secret: &str) -> (r: Result<String, IssueError>)
    ensures
        r matches Ok(t) && t@ == hs256_token(claims.sub@, claims.exp, claims.iat, secret@),
        r matches Ok(t) ==> hs256_claims(t@, secret@) == Some(claims.model()),
{
    match hs256_encode(claims.sub.as_str(), claims.exp, claims.iat, secret) {
        Ok(t) => Ok(t),
        Err(_) => Err(IssueError::Encoding),
    }
}

/// Makes a token for `user_id` issued at `now`, expiring `TOKEN_TTL_SECS` later.
pub fn create_token_at(user_id: &str, secret: &str, now: u64) -> (r: Result<String, IssueError>)
    ensures
        r is Ok <==> now + TOKEN_TTL_SECS <= usize::MAX,
        r is Err ==> r->Err_0 == IssueError::ClockOutOfRange,
        r matches Ok(t) ==> t@ == issued_token(user_id@, secret@, now as int)
            && issued_for(t@, user_id@, secret@, now as int),
{
    if (now as u128) + (TOKEN_TTL_SECS as u128) > (usize::MAX as u128) {
        return Err(IssueError::ClockOutOfRange);
    }
    let iat = now as usize;
    let exp = iat + TOKEN_TTL_SECS as usize;
    let claims = Claims { sub: String::from_str(user_id), exp, iat };
    sign_claims(&claims, secret)
}

/// Makes a token for `user_id` issued now, expiring `TOKEN_TTL_SECS` later.
pub fn create_token(user_id: &str, secret: &str) -> (r: Result<String, IssueError>)
    ensures
        r is Err ==> r->Err_0 == IssueError::ClockOutOfRange || r->Err_0 == IssueError::ClockBeforeEpoch,
        r matches Ok(tok) ==> exists|t: int| 0 <= t && t + TOKEN_TTL_SECS <= usize::MAX
            && tok@ == issued_token(user_id@, secret@, t) && issued_for(tok@, user_id@, secret@, t),
{
    match unix_now() {
        Some(now) => create_token_at(user_id, secret, now),
        None => Err(IssueError::ClockBeforeEpoch),
    }
}

/// A token made for `subject` under `secret` verifies under that same secret,
/// with that subject, at any time up to its expiry plus the leeway.
pub proof fn lemma_issued_token_verifies(token: Seq<char>, subject: Seq<char>, secret: Seq<char>, issued_at: int, now: int)
    requires
        0 <= issued_at,
        issued_at + TOKEN_TTL_SECS <= usize::MAX,
        issued_for(token, subject, secret, issued_at),
        now <= issued_at + TOKEN_TTL_SECS + TOKEN_LEEWAY_SECS,
    ensures
        accepted_claims(token, secret, now) matches Some(c) && c.0 == subject,
{
}

/// A token whose expiry lies further in the past than the leeway is never
/// accepted, whether or not its signature verifies.
pub proof fn lemma_expired_token_rejected(token: Seq<char>, secret: Seq<char>, now: int)
    requires
        hs256_claims(token, secret) matches Some(c) ==> is_expired(c.1 as int, now),
    ensures
        accepted_claims(token, secret, now) is None,
{
}

} // verus!
