//! The credential extractor: turns the raw value(s) of an untrusted
//! `Authorization` header into a username/password pair, or says exactly
//! why it refuses. The payload is base64, then UTF-8, then split on the
//! first `':'` only, so a password may itself contain colons.

use crate::errors::AuthError;
use crate::text::{
    has_payload, has_scheme, parse_auth_value, scan_colon, spec_payload, spec_scheme, str_eq,
};
use base64::Engine;
use vstd::prelude::*;
use vstd::string::StrSliceExecFns;
use vstd::utf8::{decode_utf8, valid_utf8};

verus! {

/// What base64's standard-alphabet decoder returns for a text: a
/// function of that text alone; `None` stands for a reject.
pub uninterp spec fn base64_decoded(text: Seq<char>) -> Option<Seq<u8>>;

/// Relies on base64's `STANDARD` engine: decoding is deterministic in
/// the input text and fails exactly where the engine rejects it.
#[verifier::external_body]
fn base64_decode(s: &str) -> (r: Option<Vec<u8>>)
    ensures
        match r {
            Some(v) => base64_decoded(s@) matches Some(b) && v@ == b,
            None => base64_decoded(s@) is None,
        },
{
    base64::engine::general_purpose::STANDARD.decode(s).ok()
}

/// Relies on String::from_utf8: it accepts exactly the valid UTF-8 byte
/// strings and decodes them to their character sequence.
#[verifier::external_body]
fn bytes_to_string(bytes: Vec<u8>) -> (r: Option<String>)
    ensures
        match r {
            Some(p) => valid_utf8(bytes@) && p@ == decode_utf8(bytes@),
            None => !valid_utf8(bytes@),
        },
{
    String::from_utf8(bytes).ok()
}

/// The decoded payload holds a `':'`.
pub open spec fn has_colon(payload: Seq<char>) -> bool {
    scan_colon(payload, 0) < payload.len()
}

/// The payload text is not base64 at all.
pub open spec fn payload_not_base64(text: Seq<char>) -> bool {
    base64_decoded(text) is None
}

/// The payload text decodes to bytes that are not UTF-8.
pub open spec fn payload_not_utf8(text: Seq<char>) -> bool {
    base64_decoded(text) matches Some(b) && !valid_utf8(b)
}

/// The payload text decodes to text with no `':'` separator.
pub open spec fn payload_no_colon(text: Seq<char>) -> bool {
    base64_decoded(text) matches Some(b) && valid_utf8(b) && !has_colon(decode_utf8(b))
}

/// `c` is the credential the payload text carries: the decoded text up
/// to its first `':'` as the username, everything after that `':'` —
/// colons included — as the password.
pub open spec fn credential_of(text: Seq<char>, c: Credential) -> bool {
    base64_decoded(text) matches Some(b) && valid_utf8(b) && {
        let p = decode_utf8(b);
        &&& has_colon(p)
        &&& c.username@ == p.subrange(0, scan_colon(p, 0))
        &&& c.password@ == p.subrange(scan_colon(p, 0) + 1, p.len() as int)
    }
}

/// A username/password pair decoded from a `Basic` header; it lives for
/// one verification and is never stored.
#[derive(Debug)]
pub struct Credential {
    pub username: String,
    pub password: String,
}

impl Credential {
    /// Split decoded payload text at its first `':'`: what comes before
    /// is the username, everything after — colons included — is the
    /// password. Text with no `':'` is refused.
    pub fn from_payload(p: &str) -> (r: Result<Credential, AuthError>)
        ensures
            match r {
                Ok(c) => {
                    &&& has_colon(p@)
                    &&& c.username@ == p@.subrange(0, scan_colon(p@, 0))
                    &&& c.password@ == p@.subrange(scan_colon(p@, 0) + 1, p@.len() as int)
                },
                Err(e) => e is CredentialInvalid && !has_colon(p@),
            },
    {
        let n = p.unicode_len();
        let mut i: usize = 0;
        while i < n
            invariant
                i <= n,
                n == p@.len(),
                scan_colon(p@, 0) == scan_colon(p@, i as int),
            ensures
                i <= n,
                scan_colon(p@, 0) == scan_colon(p@, i as int),
                i == n || p@[i as int] == ':',
            decreases n - i,
        {
            if p.get_char(i) == ':' {
                break ;
            }
            i += 1;
        }
        if i == n {
            return Err(AuthError::CredentialInvalid);
        }
        let username = p.substring_char(0, i).to_owned();
        let password = p.substring_char(i + 1, n).to_owned();
        Ok(Credential { username, password })
    }

    /// Decode a `Basic` payload: base64, then UTF-8, then split at the
    /// first `':'`.
    pub fn from_str(s: &str) -> (r: Result<Credential, AuthError>)
        ensures
            match r {
                Ok(c) => credential_of(s@, c),
                Err(e) => match e {
                    AuthError::DecodeError => payload_not_base64(s@),
                    AuthError::EncodingError => payload_not_utf8(s@),
                    AuthError::CredentialInvalid => payload_no_colon(s@),
                    _ => false,
                },
            },
    {
        let bytes = match base64_decode(s) {
            Some(v) => v,
            None => {
                return Err(AuthError::DecodeError);
            },
        };
        let payload = match bytes_to_string(bytes) {
            Some(p) => p,
            None => {
                return Err(AuthError::EncodingError);
            },
        };
        Self::from_payload(payload.as_str())
    }

    /// Extract a credential from the raw `Authorization` values of one
    /// request: exactly one header, scheme `Basic`, then the payload as
    /// `from_str` reads it.
    pub fn from_headers(values: &Vec<String>) -> (r: Result<Credential, AuthError>)
        ensures
            match r {
                Ok(c) => {
                    &&& values@.len() == 1
                    &&& has_scheme(values@[0]@)
                    &&& spec_scheme(values@[0]@) == "Basic"@
                    &&& has_payload(values@[0]@)
                    &&& credential_of(spec_payload(values@[0]@), c)
                },
                Err(e) => match e {
                    AuthError::HeaderMissing => values@.len() == 0,
                    AuthError::HeaderInvalid => values@.len() >= 2,
                    AuthError::MethodMissing => values@.len() == 1 && !has_scheme(values@[0]@),
                    AuthError::MethodInvalid(m) => {
                        &&& values@.len() == 1
                        &&& has_scheme(values@[0]@)
                        &&& m@ == spec_scheme(values@[0]@)
                        &&& spec_scheme(values@[0]@) != "Basic"@
                    },
                    AuthError::CredentialMissing => {
                        &&& values@.len() == 1
                        &&& has_scheme(values@[0]@)
                        &&& spec_scheme(values@[0]@) == "Basic"@
                        &&& !has_payload(values@[0]@)
                    },
                    AuthError::DecodeError => values@.len() == 1 && spec_scheme(values@[0]@)
                        == "Basic"@ && has_payload(values@[0]@) && payload_not_base64(
                        spec_payload(values@[0]@),
                    ),
                    AuthError::EncodingError => values@.len() == 1 && spec_scheme(values@[0]@)
                        == "Basic"@ && has_payload(values@[0]@) && payload_not_utf8(
                        spec_payload(values@[0]@),
                    ),
                    AuthError::CredentialInvalid => values@.len() == 1 && spec_scheme(values@[0]@)
                        == "Basic"@ && has_payload(values@[0]@) && payload_no_colon(
                        spec_payload(values@[0]@),
                    ),
                    _ => false,
                },
            },
    {
        if values.len() == 0 {
            return Err(AuthError::HeaderMissing);
        }
        if values.len() > 1 {
            return Err(AuthError::HeaderInvalid);
        }
        let parts = match parse_auth_value(values[0].as_str()) {
            None => {
                return Err(AuthError::MethodMissing);
            },
            Some(p) => p,
        };
        if !str_eq(parts.scheme.as_str(), "Basic") {
            return Err(AuthError::MethodInvalid(parts.scheme));
        }
        match parts.payload {
            None => Err(AuthError::CredentialMissing),
            Some(pl) => Self::from_str(pl.as_str()),
        }
    }
}

} // verus!
