//! Signed, time-bounded bearer tokens (HS256 JWTs).
use crate::auth::Identity;
use jsonwebtoken::{decode, encode, Algorithm, DecodingKey, EncodingKey, Header, Validation};
use serde_json::Value;
use vstd::prelude::*;

verus! {

#[verifier::external_type_specification]
#[verifier::external_body]
pub struct ExJwtError(jsonwebtoken::errors::Error);

/// What a token asserts: the holder's identity, an expiry, a serial number that
/// keeps tokens minted in the same second apart, and the time of issue. Times
/// are seconds since the Unix epoch.
pub struct TokenClaims {
    pub id: u64,
    pub username: String,
    pub pbkdf2_salt: String,
    pub created_at: i64,
    pub exp: u64,
    pub jti: u64,
    pub iat: u64,
}

/// Claims as a mathematical value: identity, expiry, serial number, time of issue.
pub type ClaimsView = (Identity, u64, u64, u64);

impl TokenClaims {
    pub open spec fn view(&self) -> ClaimsView {
        ((self.id, self.username@, self.pbkdf2_salt@, self.created_at), self.exp, self.jti, self.iat)
    }
}

/// The user id that claims are about.
pub open spec fn owner(c: ClaimsView) -> u64 {
    (c.0).0
}

/// The HS256 token that encodes `claims` under `secret`.
pub uninterp spec fn hs256_token(claims: ClaimsView, secret: Seq<char>) -> Seq<char>;

/// The claims that `token` carries, if its HS256 signature checks under `secret`
/// and its payload has the claim fields.
pub uninterp spec fn hs256_claims(token: Seq<char>, secret: Seq<char>) -> Option<ClaimsView>;

/// Relies on `jsonwebtoken::encode` with the default (HS256) header and an HMAC key
/// made from the secret's bytes; the claims go in as a flat JSON object. The
/// token depends on claims and secret alone. Header and key are both of the
/// HMAC family and HMAC takes a key of any length, so encoding succeeds; and
/// `decode` under the same secret, with the settings of `decode_claims`,
/// verifies the signature and reads every claim back.
#[verifier::external_body]
pub(crate) fn encode_claims(claims: &TokenClaims, secret: &str) -> (r: Result<String, jsonwebtoken::errors::Error>)
    ensures
        r is Ok,
        r matches Ok(t) ==> t@ == hs256_token(claims.view(), secret@) && hs256_claims(t@, secret@) == Some(claims.view()),
{
    let mut c = serde_json::Map::new();
    c.insert("id".to_string(), claims.id.into());
    c.insert("username".to_string(), claims.username.as_str().into());
    c.insert("pbkdf2_salt".to_string(), claims.pbkdf2_salt.as_str().into());
    c.insert("created_at".to_string(), claims.created_at.into());
    c.insert("exp".to_string(), claims.exp.into());
    c.insert("jti".to_string(), claims.jti.into());
    c.insert("iat".to_string(), claims.iat.into());
    encode(&Header::default(), &c, &EncodingKey::from_secret(secret.as_bytes()))
}

/// Relies on `jsonwebtoken::decode` with HS256 as the only accepted algorithm,
/// an HMAC key made from the secret's bytes, and no claim checks (expiry is
/// checked by the caller). Depends on token and secret alone.
#[verifier::external_body]
pub(crate) fn decode_claims(token: &str, secret: &str) -> (r: Option<TokenClaims>)
    ensures
        match r {
            Some(c) => hs256_claims(token@, secret@) == Some(c.view()),
            None => hs256_claims(token@, secret@) is None,
        },
{
    let mut v = Validation::new(Algorithm::HS256);
    v.validate_exp = false;
    v.required_spec_claims.clear();
    let c = decode::<serde_json::Map<String, Value>>(token, &DecodingKey::from_secret(secret.as_bytes()), &v).ok()?.claims;
    Some(TokenClaims {
        id: c.get("id")?.as_u64()?,
        username: c.get("username")?.as_str()?.to_string(),
        pbkdf2_salt: c.get("pbkdf2_salt")?.as_str()?.to_string(),
        created_at: c.get("created_at")?.as_i64()?,
        exp: c.get("exp")?.as_u64()?,
        jti: c.get("jti")?.as_u64()?,
        iat: c.get("iat")?.as_u64()?,
    })
}

/// A token is current at `now` until the second of its expiry has passed.
pub open spec fn unexpired(exp: u64, now: u64) -> bool {
    now <= exp
}

/// The expiry of a token minted at `now` that lives `ttl` seconds, held at the
/// largest representable time.
pub open spec fn expiry(now: u64, ttl: u64) -> u64 {
    if now + ttl <= u64::MAX {
        (now + ttl) as u64
    } else {
        u64::MAX
    }
}

pub fn expiry_of(now: u64, ttl: u64) -> (r: u64)
    ensures
        r == expiry(now, ttl),
{
    now.saturating_add(ttl)
}

} // verus!
