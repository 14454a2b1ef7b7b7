//! Peppered Argon2id password hashing.
use argon2::password_hash::rand_core::{OsRng, RngCore};
use argon2::password_hash::{PasswordHash, PasswordHasher, PasswordVerifier, Salt, SaltString};
use argon2::{Algorithm, Argon2, Params, Version};
use vstd::prelude::*;

verus! {

#[verifier::external_type_specification]
#[verifier::external_body]
pub struct ExPasswordHashError(argon2::password_hash::Error);

/// Whether `password` matches the PHC hash string `hash` under Argon2 keyed with
/// `pepper`; a malformed hash matches nothing.
pub uninterp spec fn argon2_matches(pepper: Seq<char>, password: Seq<char>, hash: Seq<char>) -> bool;

/// Relies on `Argon2::new_with_secret` (Argon2id, version 0x13, default
/// parameters, the pepper's bytes as secret), `OsRng::try_fill_bytes` for a salt
/// of `Salt::RECOMMENDED_LENGTH` bytes, `SaltString::encode_b64`, and
/// `PasswordHasher::hash_password`: a PHC hash string under a fresh random salt,
/// or the crate's error (`Crypto` when the generator fails). The string holds
/// algorithm, version, parameters and salt, and `verify_password` recomputes
/// with exactly those and the same secret, so the password matches it.
#[verifier::external_body]
pub(crate) fn hash_password(pepper: &str, password: &str) -> (r: Result<String, argon2::password_hash::Error>)
    ensures
        r matches Ok(h) ==> argon2_matches(pepper@, password@, h@),
{
    let argon = Argon2::new_with_secret(pepper.as_bytes(), Algorithm::Argon2id, Version::V0x13, Params::default())?;
    let mut bytes = [0u8; Salt::RECOMMENDED_LENGTH];
    OsRng.try_fill_bytes(&mut bytes).map_err(|_| argon2::password_hash::Error::Crypto)?;
    let salt = SaltString::encode_b64(&bytes)?;
    Ok(argon.hash_password(password.as_bytes(), &salt)?.to_string())
}

/// Relies on `Argon2::new_with_secret` (as in `hash_password`), `PasswordHash::new`
/// and `PasswordVerifier::verify_password`, which recomputes the hash with the
/// parameters and salt that the hash string holds and compares in constant time.
/// A secret that Argon2 refuses, or a hash string that does not parse, gives
/// `false`.
#[verifier::external_body]
pub(crate) fn verify_password(pepper: &str, password: &str, hash: &str) -> (r: bool)
    ensures
        r == argon2_matches(pepper@, password@, hash@),
{
    let Ok(argon) = Argon2::new_with_secret(pepper.as_bytes(), Algorithm::Argon2id, Version::V0x13, Params::default()) else {
        return false;
    };
    let Ok(parsed) = PasswordHash::new(hash) else {
        return false;
    };
    argon.verify_password(password.as_bytes(), &parsed).is_ok()
}

} // verus!
