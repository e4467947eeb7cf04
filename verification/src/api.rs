//! The session orchestrator: login, signup, logout, and the guard for
//! protected requests. It joins the extractor, the hasher and the token
//! service over the account store. Outcomes are typed; the transport
//! maps them to status codes (see `AuthError::status`) and messages.
//! Unknown username and wrong password yield the same rejection, so
//! usernames cannot be probed.

use crate::accounts::{
    first_by_name, session_cleared, session_updated, some_name, Account, AccountStore, NewAccount,
    TOKEN_LIFETIME_SECONDS,
};
use crate::errors::AuthError;
use crate::hashing::{spec_hash, utf8_len};
use crate::text::is_alnum;
use crate::token::{bearer_outcome, session_live, Token};
use vstd::prelude::*;

verus! {

/// What the transport sends back: a payload and a human-readable line.
pub struct Response {
    pub body: String,
    pub message: String,
}

impl Response {
    pub fn new(body: String, message: String) -> (r: Response)
        ensures
            r.body == body,
            r.message == message,
    {
        Response { body, message }
    }
}

/// The two signup form fields.
pub struct SignupForm {
    pub name: String,
    pub password: String,
}

/// Login is turned away without touching the store: no such username,
/// or a digest mismatch. Both look the same to the caller.
pub open spec fn login_rejected(rows: Seq<Account>, username: Seq<char>, password: Seq<char>) -> bool {
    ||| !some_name(rows, username)
    ||| exists|i: int|
        #[trigger] first_by_name(rows, username, i) && !rows[i].spec_verify(password)
}

/// The password is right but the account already holds a token whose
/// session is still live at `now`.
pub open spec fn login_blocked(
    rows: Seq<Account>,
    username: Seq<char>,
    password: Seq<char>,
    now: i64,
) -> bool {
    exists|i: int|
        #[trigger] first_by_name(rows, username, i) && rows[i].spec_verify(password) && (
        rows[i].token matches Some(t) && session_live(rows, t@, now))
}

/// Log an account in: find it by name, check the password, refuse a
/// still-live session, then write a fresh 32-character token with a
/// one-day expiry onto the account in one atomic step and hand the
/// token back.
pub fn login(store: &mut AccountStore, username: &str, password: &str, now: i64) -> (r: Result<
    String,
    AuthError,
>)
    requires
        old(store).wf(),
        now <= i64::MAX - TOKEN_LIFETIME_SECONDS,
        utf8_len(password@) <= 0xffff_ffff,
    ensures
        final(store).wf(),
        match r {
            Err(AuthError::InvalidCredentials) => {
                &&& login_rejected(old(store).rows(), username@, password@)
                &&& *final(store) == *old(store)
            },
            Err(AuthError::AlreadyLoggedIn) => {
                &&& login_blocked(old(store).rows(), username@, password@, now)
                &&& *final(store) == *old(store)
            },
            Ok(tok) => {
                &&& tok@.len() == 32
                &&& forall|k: int| 0 <= k < 32 ==> is_alnum(#[trigger] tok@[k])
                &&& final(store).rows().len() == old(store).rows().len()
                &&& final(store).spec_next_id() == old(store).spec_next_id()
                &&& exists|i: int|
                    {
                        &&& #[trigger] first_by_name(old(store).rows(), username@, i)
                        &&& old(store).rows()[i].spec_verify(password@)
                        &&& (old(store).rows()[i].token matches Some(t) ==> !session_live(
                            old(store).rows(),
                            t@,
                            now,
                        ))
                        &&& session_updated(
                            old(store).rows()[i],
                            final(store).rows()[i],
                            Some(tok@),
                            now,
                        )
                        &&& forall|j: int|
                            0 <= j < old(store).rows().len() && j != i ==> final(store).rows()[j]
                                == old(store).rows()[j]
                    }
            },
            _ => false,
        },
{
    let account = match Account::by_name(username, store) {
        Ok(a) => a,
        Err(_) => {
            return Err(AuthError::InvalidCredentials);
        },
    };
    proof {
        assert(exists|i: int|
            #[trigger] first_by_name(store.rows(), username@, i) && account == store.rows()[i]);
        let i = choose|i: int|
            #[trigger] first_by_name(store.rows(), username@, i) && account == store.rows()[i];
        assert(store.rows()[i].salt_ok());
    }
    if !account.verify(password) {
        return Err(AuthError::InvalidCredentials);
    }
    let blocked = match &account.token {
        Some(t) => match Token::verify(t.as_str(), store, now) {
            Ok(_) => true,
            Err(e) => {
                proof {
                    crate::token::lemma_verify_err_not_live(store.rows(), t@, now, e);
                }
                false
            },
        },
        None => false,
    };
    if blocked {
        return Err(AuthError::AlreadyLoggedIn);
    }
    let token = Token::generate(32);
    let upd = account.update_token(Some(token.as_str()), store, now);
    proof {
        let rows0 = old(store).rows();
        let i = choose|i: int|
            #[trigger] first_by_name(rows0, username@, i) && account == rows0[i];
        assert forall|j: int| 0 <= j < rows0.len() && j != i implies rows0[j].id != account.id by {
            if j < i {
                assert(rows0[j].id != rows0[i].id);
            } else {
                assert(rows0[i].id != rows0[j].id);
            }
        }
        assert(rows0[i].id == account.id);
    }
    match upd {
        Ok(_) => Ok(token),
        Err(_) => Err(AuthError::StoreError),
    }
}

/// Sign a fresh account up under role 1: refuse a taken username,
/// otherwise hash the password under a new salt and insert the row.
pub fn signup(form: &SignupForm, store: &mut AccountStore) -> (r: Result<(), AuthError>)
    requires
        old(store).wf(),
        old(store).spec_next_id() < u64::MAX,
        utf8_len(form.password@) <= 0xffff_ffff,
    ensures
        final(store).wf(),
        match r {
            Err(AuthError::UserExists) => {
                &&& some_name(old(store).rows(), form.name@)
                &&& *final(store) == *old(store)
            },
            Ok(_) => {
                &&& !some_name(old(store).rows(), form.name@)
                &&& final(store).rows().len() == old(store).rows().len() + 1
                &&& forall|j: int|
                    0 <= j < old(store).rows().len() ==> final(store).rows()[j] == old(
                        store,
                    ).rows()[j]
                &&& {
                    let a = final(store).rows()[old(store).rows().len() as int];
                    &&& a.id == old(store).spec_next_id()
                    &&& a.username@ == form.name@
                    &&& a.role == 1
                    &&& a.token is None
                    &&& a.token_expire is None
                    &&& a.salt@.len() == 32
                    &&& a.password@ == spec_hash(form.password@, a.salt@)
                }
                &&& final(store).spec_next_id() == old(store).spec_next_id() + 1
            },
            _ => false,
        },
{
    match Account::by_name(form.name.as_str(), store) {
        Ok(_) => Err(AuthError::UserExists),
        Err(_) => {
            let member = NewAccount::new(form.name.clone(), form.password.clone(), 1);
            match Account::insert(member, store) {
                Ok(_) => Ok(()),
                Err(_) => Err(AuthError::StoreError),
            }
        },
    }
}

/// Log an account out: an account that is missing or holds no token is
/// not logged in; otherwise both halves of its session pair are cleared
/// in one atomic step.
pub fn logout(store: &mut AccountStore, username: &str) -> (r: Result<(), AuthError>)
    requires
        old(store).wf(),
    ensures
        final(store).wf(),
        match r {
            Err(AuthError::NotLoggedIn) => {
                &&& (!some_name(old(store).rows(), username@) || exists|i: int|
                    #[trigger] first_by_name(old(store).rows(), username@, i) && old(
                        store,
                    ).rows()[i].token is None)
                &&& *final(store) == *old(store)
            },
            Ok(_) => exists|i: int|
                {
                    &&& #[trigger] first_by_name(old(store).rows(), username@, i)
                    &&& old(store).rows()[i].token is Some
                    &&& final(store).rows().len() == old(store).rows().len()
                    &&& final(store).spec_next_id() == old(store).spec_next_id()
                    &&& session_cleared(old(store).rows()[i], final(store).rows()[i])
                    &&& forall|j: int|
                        0 <= j < old(store).rows().len() && j != i ==> final(store).rows()[j] == old(
                            store,
                        ).rows()[j]
                },
            _ => false,
        },
{
    let account = match Account::by_name(username, store) {
        Ok(a) => a,
        Err(_) => {
            return Err(AuthError::NotLoggedIn);
        },
    };
    let has_token = match &account.token {
        Some(_) => true,
        None => false,
    };
    if !has_token {
        return Err(AuthError::NotLoggedIn);
    }
    let upd = account.expire_token(store);
    proof {
        let rows0 = old(store).rows();
        let i = choose|i: int|
            #[trigger] first_by_name(rows0, username@, i) && account == rows0[i];
        assert forall|j: int| 0 <= j < rows0.len() && j != i implies rows0[j].id != account.id by {
            if j < i {
                assert(rows0[j].id != rows0[i].id);
            } else {
                assert(rows0[i].id != rows0[j].id);
            }
        }
        assert(rows0[i].id == account.id);
    }
    match upd {
        Ok(_) => Ok(()),
        Err(_) => Err(AuthError::StoreError),
    }
}

/// The guard in front of protected requests: hands back the Bearer
/// token it resolved, with its account, or the exact refusal.
pub fn authenticate(values: &Vec<String>, store: &AccountStore, now: i64) -> (r: Result<
    Token,
    AuthError,
>)
    ensures
        bearer_outcome(values@, store.rows(), now, r),
{
    Token::from_headers(values, store, now)
}

} // verus!
