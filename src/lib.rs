//! Identity layer of a messaging service: input validation, password
//! hashing, bearer tokens, and the login-session lifecycle with refresh-token
//! rotation and reuse detection.
use vstd::prelude::*;

pub mod auth;
pub mod bearer;
pub mod contacts;
pub mod credentials;
pub mod keys;
pub mod laws;
pub mod lifecycle;
pub mod password;
pub mod sessions;
pub mod tokens;
pub mod validation;

verus! {

/// A request body that can check its own shape before any storage access.
pub trait Validate {
    /// Whether the value is well-shaped.
    spec fn valid(&self) -> bool;

    fn validate(&self) -> (r: bool)
        ensures
            r == self.valid(),
    ;
}

} // verus!
