//! The failure taxonomy of the authentication core, as one tagged union:
//! header-shape faults, payload decode faults, credential and token
//! rejections, and store faults. Every error is terminal for the request
//! that raised it; nothing here retries.

use vstd::prelude::*;

verus! {

/// Why an authentication step failed.
#[derive(Debug)]
pub enum AuthError {
    /// No `Authorization` header was present.
    HeaderMissing,
    /// More than one `Authorization` header was present.
    HeaderInvalid,
    /// The header value held no scheme token at all.
    MethodMissing,
    /// The scheme token was not the expected one; it is carried verbatim.
    MethodInvalid(String),
    /// A `Basic` header had no payload token after the scheme.
    CredentialMissing,
    /// The decoded `Basic` payload held no `':'` separator.
    CredentialInvalid,
    /// A `Bearer` header had no payload token after the scheme.
    TokenMissing,
    /// The token was found but its session has expired; the token is
    /// carried verbatim.
    TokenExpire(String),
    /// The payload was not valid base64.
    DecodeError,
    /// The base64-decoded payload was not valid UTF-8.
    EncodingError,
    /// An account carries a token but no expiry: half-written session
    /// state, reported instead of assumed away.
    SessionStateMissing,
    /// Unknown username or wrong password; one message for both, so that
    /// usernames cannot be probed.
    InvalidCredentials,
    /// The account already holds a live session token.
    AlreadyLoggedIn,
    /// Logout was asked of an account with no session token set.
    NotLoggedIn,
    /// Signup was asked for a username that is already taken.
    UserExists,
    /// The account store could not complete a lookup or a write.
    StoreError,
    /// The account store could not be reached at all.
    StoreConnectionError,
}

impl AuthError {
    /// The HTTP status the transport reports for this error: 401 for a
    /// credential rejection, 500 for store faults, 400 for the rest.
    pub open spec fn spec_status(&self) -> u16 {
        match self {
            AuthError::InvalidCredentials => 401,
            AuthError::StoreError => 500,
            AuthError::StoreConnectionError => 500,
            _ => 400,
        }
    }

    pub fn status(&self) -> (r: u16)
        ensures
            r == self.spec_status(),
    {
        match self {
            AuthError::InvalidCredentials => 401,
            AuthError::StoreError => 500,
            AuthError::StoreConnectionError => 500,
            _ => 400,
        }
    }
}

} // verus!
