//! The token service: session-token generation, Bearer-header
//! extraction, and token verification against the account store. A
//! token is the sole secret guarding its session, so generation draws
//! from a secure random source; expiry is compared at second
//! granularity, and an expiry equal to `now` already counts as expired.

use crate::accounts::{first_by_token, some_token, Account, AccountStore};
use crate::errors::AuthError;
use crate::rng::alnum_string;
use crate::text::{
    has_payload, has_scheme, is_alnum, parse_auth_value, spec_payload, spec_scheme, str_eq,
};
use vstd::prelude::*;

verus! {

/// The row's session is live at `now`: an expiry is set and lies
/// strictly in the future.
pub open spec fn active_at(a: Account, now: i64) -> bool {
    a.token_expire matches Some(e) && now < e
}

/// A resolved bearer token: the token string and the account it proved,
/// valid for the handling of one request.
#[derive(Debug)]
pub struct Token {
    pub token: String,
    pub account: Account,
}

/// Everything `Token::verify` promises of its result, over the store's
/// rows: success carries the first row holding the token, live at
/// `now`; an expired or half-written session and an unknown token each
/// come back as their own error, and nothing else can come back.
pub open spec fn verify_outcome(
    rows: Seq<Account>,
    tok: Seq<char>,
    now: i64,
    r: Result<Token, AuthError>,
) -> bool {
    match r {
        Ok(t) => {
            &&& t.token@ == tok
            &&& exists|i: int|
                #[trigger] first_by_token(rows, tok, i) && t.account == rows[i] && active_at(
                    rows[i],
                    now,
                )
        },
        Err(e) => match e {
            AuthError::TokenExpire(tk) => {
                &&& tk@ == tok
                &&& exists|i: int|
                    #[trigger] first_by_token(rows, tok, i) && (rows[i].token_expire matches Some(
                        ex,
                    ) && now >= ex)
            },
            AuthError::SessionStateMissing => exists|i: int|
                #[trigger] first_by_token(rows, tok, i) && rows[i].token_expire is None,
            AuthError::StoreError => !some_token(rows, tok),
            _ => false,
        },
    }
}

/// The store holds a session that is live at `now` under this token.
pub open spec fn session_live(rows: Seq<Account>, tok: Seq<char>, now: i64) -> bool {
    exists|j: int| #[trigger] first_by_token(rows, tok, j) && active_at(rows[j], now)
}

/// At most one row can be the first to carry a token.
pub(crate) proof fn lemma_first_by_token_unique(rows: Seq<Account>, tok: Seq<char>, i: int, j: int)
    requires
        first_by_token(rows, tok, i),
        first_by_token(rows, tok, j),
    ensures
        i == j,
{
}

/// When `verify` turns a token away, the store holds no live session
/// under it.
pub(crate) proof fn lemma_verify_err_not_live(
    rows: Seq<Account>,
    tok: Seq<char>,
    now: i64,
    e: AuthError,
)
    requires
        verify_outcome(rows, tok, now, Err(e)),
    ensures
        !session_live(rows, tok, now),
{
    if session_live(rows, tok, now) {
        let j = choose|j: int|
            #[trigger] first_by_token(rows, tok, j) && active_at(rows[j], now);
        match e {
            AuthError::TokenExpire(_) => {
                let k = choose|k: int|
                    #[trigger] first_by_token(rows, tok, k) && (rows[k].token_expire matches Some(
                        ex,
                    ) && now >= ex);
                lemma_first_by_token_unique(rows, tok, j, k);
            },
            AuthError::SessionStateMissing => {
                let k = choose|k: int|
                    #[trigger] first_by_token(rows, tok, k) && rows[k].token_expire is None;
                lemma_first_by_token_unique(rows, tok, j, k);
            },
            AuthError::StoreError => {
                assert(crate::accounts::tok_match(rows[j], tok));
            },
            _ => {
            },
        }
    }
}

/// Everything Bearer extraction promises, over the raw header values
/// and the store's rows: the header-shape errors come exactly on their
/// shapes, and any other outcome is `verify`'s on the payload token.
pub open spec fn bearer_outcome(
    values: Seq<String>,
    rows: Seq<Account>,
    now: i64,
    r: Result<Token, AuthError>,
) -> bool {
    match r {
        Err(AuthError::HeaderMissing) => values.len() == 0,
        Err(AuthError::HeaderInvalid) => values.len() >= 2,
        Err(AuthError::MethodMissing) => values.len() == 1 && !has_scheme(values[0]@),
        Err(AuthError::MethodInvalid(m)) => {
            &&& values.len() == 1
            &&& has_scheme(values[0]@)
            &&& m@ == spec_scheme(values[0]@)
            &&& spec_scheme(values[0]@) != "Bearer"@
        },
        Err(AuthError::TokenMissing) => {
            &&& values.len() == 1
            &&& has_scheme(values[0]@)
            &&& spec_scheme(values[0]@) == "Bearer"@
            &&& !has_payload(values[0]@)
        },
        _ => {
            &&& values.len() == 1
            &&& has_scheme(values[0]@)
            &&& spec_scheme(values[0]@) == "Bearer"@
            &&& has_payload(values[0]@)
            &&& verify_outcome(rows, spec_payload(values[0]@), now, r)
        },
    }
}

impl Token {
    /// A fresh session token: `len` characters drawn from the
    /// alphanumeric alphabet by a secure random source.
    pub fn generate(len: usize) -> (r: String)
        ensures
            r@.len() == len,
            forall|i: int| 0 <= i < len ==> is_alnum(#[trigger] r@[i]),
    {
        alnum_string(len)
    }

    /// Resolve a token against the store at time `now`. An account
    /// found with no expiry set is reported, never unwrapped into a
    /// crash.
    pub fn verify(token: &str, store: &AccountStore, now: i64) -> (r: Result<Token, AuthError>)
        ensures
            verify_outcome(store.rows(), token@, now, r),
    {
        let account = match Account::by_token(token, store) {
            Ok(a) => a,
            Err(_) => {
                return Err(AuthError::StoreError);
            },
        };
        match account.token_expire {
            None => Err(AuthError::SessionStateMissing),
            Some(exp) => {
                if now >= exp {
                    Err(AuthError::TokenExpire(token.to_owned()))
                } else {
                    Ok(Token { token: token.to_owned(), account })
                }
            },
        }
    }

    /// Extract and resolve a bearer token from the raw `Authorization`
    /// values of one request: exactly one header, scheme `Bearer`, then
    /// the payload resolved by `verify`.
    pub fn from_headers(values: &Vec<String>, store: &AccountStore, now: i64) -> (r: Result<
        Token,
        AuthError,
    >)
        ensures
            bearer_outcome(values@, store.rows(), now, r),
    {
        if values.len() == 0 {
            return Err(AuthError::HeaderMissing);
        }
        if values.len() > 1 {
            return Err(AuthError::HeaderInvalid);
        }
        let parts = match parse_auth_value(values[0].as_str()) {
            None => {
                return Err(AuthError::MethodMissing);
            },
            Some(p) => p,
        };
        if !str_eq(parts.scheme.as_str(), "Bearer") {
            return Err(AuthError::MethodInvalid(parts.scheme));
        }
        match parts.payload {
            None => Err(AuthError::TokenMissing),
            Some(pl) => Self::verify(pl.as_str(), store, now),
        }
    }
}

} // verus!
