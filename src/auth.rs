//! Request bodies, user records and the outcomes of the session lifecycle.
use crate::validation::{is_valid_password, is_valid_username, valid_password, valid_username};
use crate::Validate;
use vstd::prelude::*;

verus! {

/// Body of a sign-up request.
pub struct SignUp {
    pub username: String,
    pub password: String,
    pub password_check: String,
}

impl Validate for SignUp {
    open spec fn valid(&self) -> bool {
        &&& valid_username(self.username@)
        &&& valid_password(self.password@)
        &&& self.password@ == self.password_check@
    }

    fn validate(&self) -> (r: bool) {
        is_valid_username(self.username.as_str()) && is_valid_password(self.password.as_str())
            && self.password == self.password_check
    }
}

/// Body of a sign-in request.
pub struct SignIn {
    pub username: String,
    pub password: String,
}

impl Validate for SignIn {
    open spec fn valid(&self) -> bool {
        valid_username(self.username@) && valid_password(self.password@)
    }

    fn validate(&self) -> (r: bool) {
        is_valid_username(self.username.as_str()) && is_valid_password(self.password.as_str())
    }
}

/// The public identity of a user as a mathematical value: id, username,
/// key-material salt, creation time.
pub type Identity = (u64, Seq<char>, Seq<char>, i64);

/// A stored account.
pub struct User {
    pub id: u64,
    pub username: String,
    /// Self-describing password hash string.
    pub password: String,
    /// Key-material salt for the messaging subsystem, unrelated to authentication.
    pub pbkdf2_salt: String,
    /// Creation time, in seconds since the Unix epoch.
    pub created_at: i64,
}

impl User {
    pub open spec fn identity(&self) -> Identity {
        (self.id, self.username@, self.pbkdf2_salt@, self.created_at)
    }
}

/// The non-secret projection of a `User` that tokens carry and clients see.
pub struct AuthenticatedUser {
    pub id: u64,
    pub username: String,
    pub pbkdf2_salt: String,
    pub created_at: i64,
}

impl AuthenticatedUser {
    pub open spec fn identity(&self) -> Identity {
        (self.id, self.username@, self.pbkdf2_salt@, self.created_at)
    }

    pub fn from_user(user: &User) -> (r: AuthenticatedUser)
        ensures
            r.identity() == user.identity(),
    {
        AuthenticatedUser {
            id: user.id,
            username: user.username.clone(),
            pbkdf2_salt: user.pbkdf2_salt.clone(),
            created_at: user.created_at,
        }
    }
}

/// Response body of a successful sign-in or refresh.
pub struct AccessToken {
    pub token: String,
}

/// The failures of the session lifecycle, as a client sees them.
#[derive(PartialEq, Eq, Structural, Debug, Clone, Copy)]
pub enum AuthError {
    /// The request's shape is wrong; nothing was stored or looked up.
    InvalidInput,
    /// Bad credentials, or a missing, invalid, expired, stale or reused token.
    Unauthorized,
    /// The username is taken.
    Conflict,
    /// Hashing, signing or storage failed.
    Internal,
}

impl AuthError {
    /// The HTTP status that reports this failure.
    pub fn status_code(&self) -> (r: u16)
        ensures
            r == match self {
                AuthError::InvalidInput => 422u16,
                AuthError::Unauthorized => 401u16,
                AuthError::Conflict => 409u16,
                AuthError::Internal => 500u16,
            },
    {
        match self {
            AuthError::InvalidInput => 422,
            AuthError::Unauthorized => 401,
            AuthError::Conflict => 409,
            AuthError::Internal => 500,
        }
    }
}

} // verus!
