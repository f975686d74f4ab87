//! The closed set of reasons the core refuses a request, and the one place
//! the client-visible wording lives. The transport layer maps each kind to
//! a status code; nothing here distinguishes which token sub-check failed,
//! and a wrong password reads the same as an unknown user, so that neither
//! can be probed apart.

use vstd::prelude::*;

verus! {

/// Why a request was refused.
#[derive(Clone, Copy, Debug, PartialEq, Eq, Structural)]
pub enum AuthError {
    /// The token is absent, malformed, expired or carries a bad signature.
    /// Deliberately one kind for all of these.
    InvalidToken,
    UserBanned,
    UserNotFound,
    RateLimited,
    NotPrivileged,
    /// The password does not match. Reported with the same wording as
    /// `UserNotFound` to avoid account enumeration.
    CredentialMismatch,
}

impl AuthError {
    /// The short client-visible message for this kind.
    pub fn message(&self) -> (r: String)
        ensures
            r@ == self.spec_message(),
    {
        match self {
            AuthError::InvalidToken => String::from_str("Wrong token"),
            AuthError::UserBanned => String::from_str("User is banned"),
            AuthError::UserNotFound => String::from_str("User not found"),
            AuthError::RateLimited => String::from_str("Ur too fast"),
            AuthError::NotPrivileged => String::from_str("User is not admin"),
            AuthError::CredentialMismatch => String::from_str("User not found"),
        }
    }

    pub open spec fn spec_message(&self) -> Seq<char> {
        match self {
            AuthError::InvalidToken => "Wrong token"@,
            AuthError::UserBanned => "User is banned"@,
            AuthError::UserNotFound => "User not found"@,
            AuthError::RateLimited => "Ur too fast"@,
            AuthError::NotPrivileged => "User is not admin"@,
            AuthError::CredentialMismatch => "User not found"@,
        }
    }
}

} // verus!
