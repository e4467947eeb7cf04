//! Accounts and the account store. The store is the single source of
//! truth for session state; this crate realizes its interface in memory,
//! with every mutation of the `token` / `token_expire` pair written
//! atomically, so no account is ever left with a token but no expiry.
//! Mutation runs only through an exclusive borrow of the store, so a
//! check-then-write sequence such as login cannot interleave with
//! another writer and hand out a token that is silently overwritten.

use crate::errors::AuthError;
use crate::hashing::{hash, spec_hash, utf8_len};
use crate::rng::alnum_string;
use crate::text::{is_alnum, str_eq};
use vstd::prelude::*;
use vstd::utf8::is_ascii_chars_encode_utf8;

verus! {

/// Seconds a fresh session lives: exactly one day.
pub const TOKEN_LIFETIME_SECONDS: i64 = 86400;

/// One account row: identity, salted password digest, permission level,
/// and the session pair. A session is active at `now` iff both `token`
/// and `token_expire` are set and `now < token_expire`.
#[derive(Debug)]
pub struct Account {
    pub id: u64,
    pub username: String,
    pub password: String,
    pub salt: String,
    pub role: i32,
    pub token: Option<String>,
    pub token_expire: Option<i64>,
}

impl Account {
    /// The stored digest belongs to `password`.
    pub open spec fn spec_verify(&self, password: Seq<char>) -> bool {
        self.password@ == spec_hash(password, self.salt@)
    }

    /// The salt is one the hasher accepts: 8 to 2^32 - 1 bytes.
    pub open spec fn salt_ok(&self) -> bool {
        8 <= utf8_len(self.salt@) <= 0xffff_ffff
    }
}

impl Clone for Account {
    fn clone(&self) -> (r: Self)
        ensures
            r == *self,
    {
        Account {
            id: self.id,
            username: self.username.clone(),
            password: self.password.clone(),
            salt: self.salt.clone(),
            role: self.role,
            token: match &self.token {
                Some(t) => Some(t.clone()),
                None => None,
            },
            token_expire: self.token_expire,
        }
    }
}

/// Row `i` is the first whose username reads `name`.
pub open spec fn first_by_name(rows: Seq<Account>, name: Seq<char>, i: int) -> bool {
    &&& 0 <= i < rows.len()
    &&& rows[i].username@ == name
    &&& forall|j: int| 0 <= j < i ==> rows[j].username@ != name
}

/// Some row's username reads `name`.
pub open spec fn some_name(rows: Seq<Account>, name: Seq<char>) -> bool {
    exists|i: int| 0 <= i < rows.len() && (#[trigger] rows[i]).username@ == name
}

/// The row carries `tok` as its session token.
pub open spec fn tok_match(a: Account, tok: Seq<char>) -> bool {
    a.token matches Some(t) && t@ == tok
}

/// Row `i` is the first that carries `tok`.
pub open spec fn first_by_token(rows: Seq<Account>, tok: Seq<char>, i: int) -> bool {
    &&& 0 <= i < rows.len()
    &&& tok_match(rows[i], tok)
    &&& forall|j: int| 0 <= j < i ==> !tok_match(rows[j], tok)
}

/// Some row carries `tok`.
pub open spec fn some_token(rows: Seq<Account>, tok: Seq<char>) -> bool {
    exists|i: int| 0 <= i < rows.len() && tok_match(#[trigger] rows[i], tok)
}

/// Row `after` is row `before` with its session pair rewritten in one
/// step: the token replaced when one is given, the expiry set to
/// `now + TOKEN_LIFETIME_SECONDS`; everything else untouched.
pub open spec fn session_updated(
    before: Account,
    after: Account,
    token: Option<Seq<char>>,
    now: i64,
) -> bool {
    &&& after.id == before.id
    &&& after.username == before.username
    &&& after.password == before.password
    &&& after.salt == before.salt
    &&& after.role == before.role
    &&& match token {
        Some(t) => after.token matches Some(s) && s@ == t,
        None => after.token == before.token,
    }
    &&& after.token_expire matches Some(e) && e == now + TOKEN_LIFETIME_SECONDS
}

/// Row `after` is row `before` with both halves of the session pair
/// cleared in one step.
pub open spec fn session_cleared(before: Account, after: Account) -> bool {
    &&& after.id == before.id
    &&& after.username == before.username
    &&& after.password == before.password
    &&& after.salt == before.salt
    &&& after.role == before.role
    &&& after.token is None
    &&& after.token_expire is None
}

/// Well-formed rows under a given id bound: ids unique and below the
/// bound, usernames unique, every salt acceptable to the hasher.
pub open spec fn rows_wf(rows: Seq<Account>, next_id: u64) -> bool {
    &&& forall|i: int| 0 <= i < rows.len() ==> (#[trigger] rows[i]).id < next_id
    &&& forall|i: int, j: int| 0 <= i < j < rows.len() ==> rows[i].id != rows[j].id
    &&& forall|i: int, j: int| 0 <= i < j < rows.len() ==> rows[i].username@ != rows[j].username@
    &&& forall|i: int| 0 <= i < rows.len() ==> (#[trigger] rows[i]).salt_ok()
}

/// Rewriting one row in place preserves well-formedness as long as the
/// row keeps its id, username and salt.
proof fn lemma_rows_wf_update(rows: Seq<Account>, next_id: u64, i: int, a: Account)
    requires
        rows_wf(rows, next_id),
        0 <= i < rows.len(),
        a.id == rows[i].id,
        a.username == rows[i].username,
        a.salt == rows[i].salt,
    ensures
        rows_wf(rows.update(i, a), next_id),
{
    let rows1 = rows.update(i, a);
    assert forall|k: int| 0 <= k < rows1.len() implies (#[trigger] rows1[k]).id < next_id by {
        assert(rows[k].id < next_id);
    }
    assert forall|p: int, q: int| 0 <= p < q < rows1.len() implies rows1[p].id != rows1[q].id by {
        assert(rows[p].id != rows[q].id);
    }
    assert forall|p: int, q: int| 0 <= p < q < rows1.len() implies rows1[p].username@
        != rows1[q].username@ by {
        assert(rows[p].username@ != rows[q].username@);
    }
    assert forall|k: int| 0 <= k < rows1.len() implies (#[trigger] rows1[k]).salt_ok() by {
        assert(rows[k].salt_ok());
    }
}

/// Appending a fresh row with the next id and an unused username
/// preserves well-formedness under the bumped bound.
proof fn lemma_rows_wf_push(rows: Seq<Account>, next_id: u64, a: Account)
    requires
        rows_wf(rows, next_id),
        next_id < u64::MAX,
        a.id == next_id,
        a.salt_ok(),
        forall|j: int| 0 <= j < rows.len() ==> (#[trigger] rows[j]).username@ != a.username@,
    ensures
        rows_wf(rows.push(a), (next_id + 1) as u64),
{
    let rows1 = rows.push(a);
    assert forall|k: int| 0 <= k < rows1.len() implies (#[trigger] rows1[k]).id < next_id + 1 by {
        if k < rows.len() {
            assert(rows[k].id < next_id);
        }
    }
    assert forall|p: int, q: int| 0 <= p < q < rows1.len() implies rows1[p].id != rows1[q].id by {
        if q < rows.len() {
            assert(rows[p].id != rows[q].id);
        } else {
            assert(rows[p].id < next_id);
        }
    }
    assert forall|p: int, q: int| 0 <= p < q < rows1.len() implies rows1[p].username@
        != rows1[q].username@ by {
        if q < rows.len() {
            assert(rows[p].username@ != rows[q].username@);
        } else {
            assert(rows[p].username@ != a.username@);
        }
    }
    assert forall|k: int| 0 <= k < rows1.len() implies (#[trigger] rows1[k]).salt_ok() by {
        if k < rows.len() {
            assert(rows[k].salt_ok());
        }
    }
}

/// The persistence collaborator, realized in memory.
pub struct AccountStore {
    accounts: Vec<Account>,
    next_id: u64,
}

impl AccountStore {
    /// The rows, for specification purposes.
    pub closed spec fn rows(&self) -> Seq<Account> {
        self.accounts@
    }

    /// The id the next inserted account receives.
    pub closed spec fn spec_next_id(&self) -> u64 {
        self.next_id
    }

    /// Well-formed: ids unique and below `next_id`, usernames unique,
    /// every salt acceptable to the hasher.
    pub open spec fn wf(&self) -> bool {
        rows_wf(self.rows(), self.spec_next_id())
    }

    /// An empty store.
    pub fn new() -> (r: AccountStore)
        ensures
            r.wf(),
            r.rows() == Seq::<Account>::empty(),
            r.spec_next_id() == 0,
    {
        AccountStore { accounts: Vec::new(), next_id: 0 }
    }

    /// A store seeded with the given rows, as a persistence layer would
    /// hand them over. The rows must satisfy the store invariant.
    pub fn from_accounts(accounts: Vec<Account>) -> (r: AccountStore)
        requires
            forall|i: int, j: int|
                0 <= i < j < accounts@.len() ==> accounts@[i].id != accounts@[j].id,
            forall|i: int, j: int|
                0 <= i < j < accounts@.len() ==> accounts@[i].username@ != accounts@[j].username@,
            forall|i: int| 0 <= i < accounts@.len() ==> (#[trigger] accounts@[i]).salt_ok(),
            forall|i: int| 0 <= i < accounts@.len() ==> (#[trigger] accounts@[i]).id < u64::MAX,
        ensures
            r.wf(),
            r.rows() == accounts@,
    {
        let mut next: u64 = 0;
        let n = accounts.len();
        let mut i: usize = 0;
        while i < n
            invariant
                i <= n,
                n == accounts@.len(),
                forall|k: int| 0 <= k < accounts@.len() ==> (#[trigger] accounts@[k]).id < u64::MAX,
                forall|k: int| 0 <= k < i ==> (#[trigger] accounts@[k]).id < next,
            decreases n - i,
        {
            if accounts[i].id >= next {
                next = accounts[i].id + 1;
            }
            i += 1;
        }
        AccountStore { accounts, next_id: next }
    }

    /// How many accounts the store holds.
    pub fn len(&self) -> (r: usize)
        ensures
            r == self.rows().len(),
    {
        self.accounts.len()
    }

    /// The id the next inserted account receives; callers check it
    /// against the id space before asking for an insert.
    pub fn next_id(&self) -> (r: u64)
        ensures
            r == self.spec_next_id(),
    {
        self.next_id
    }
}

/// What signup hands the store: a fresh username, the salted digest of
/// the chosen password, the salt it was built with, and a permission
/// level.
#[derive(Debug)]
pub struct NewAccount {
    username: String,
    password: String,
    salt: String,
    role: i32,
}

impl NewAccount {
    pub closed spec fn spec_username(&self) -> Seq<char> {
        self.username@
    }

    pub closed spec fn spec_password(&self) -> Seq<char> {
        self.password@
    }

    pub closed spec fn spec_salt(&self) -> Seq<char> {
        self.salt@
    }

    pub closed spec fn spec_role(&self) -> i32 {
        self.role
    }

    /// A random alphanumeric string of the given length, for use as a
    /// per-account salt.
    fn salt_generater(len: usize) -> (r: String)
        ensures
            r@.len() == len,
            forall|i: int| 0 <= i < len ==> is_alnum(#[trigger] r@[i]),
    {
        alnum_string(len)
    }

    /// Build the row for a fresh account: draw a 32-character salt and
    /// store the salted digest of `password`, never the password itself.
    pub fn new(username: String, password: String, role: i32) -> (r: NewAccount)
        requires
            utf8_len(password@) <= 0xffff_ffff,
        ensures
            r.spec_username() == username@,
            r.spec_role() == role,
            r.spec_salt().len() == 32,
            forall|i: int| 0 <= i < 32 ==> is_alnum(#[trigger] r.spec_salt()[i]),
            8 <= utf8_len(r.spec_salt()) <= 0xffff_ffff,
            r.spec_password() == spec_hash(password@, r.spec_salt()),
    {
        let salt = Self::salt_generater(32);
        proof {
            assert forall|i: int| 0 <= i < salt@.len() implies '\0' <= #[trigger] salt@[i]
                <= '\u{7f}' by {
                assert(is_alnum(salt@[i]));
            }
            is_ascii_chars_encode_utf8(salt@);
        }
        let digest = hash(password.as_str(), salt.as_str());
        NewAccount { username, password: digest, salt, role }
    }
}

impl Account {
    /// Look an account up by id; the id is unique in a well-formed
    /// store. A miss is a store-level lookup failure.
    pub fn by_id(id: u64, store: &AccountStore) -> (r: Result<Account, AuthError>)
        ensures
            match r {
                Ok(a) => exists|i: int|
                    0 <= i < store.rows().len() && (#[trigger] store.rows()[i]).id == id && a
                        == store.rows()[i],
                Err(e) => e is StoreError && forall|i: int|
                    0 <= i < store.rows().len() ==> (#[trigger] store.rows()[i]).id != id,
            },
    {
        let n = store.accounts.len();
        let mut i: usize = 0;
        while i < n
            invariant
                i <= n,
                n == store.rows().len(),
                forall|j: int| 0 <= j < i ==> (#[trigger] store.rows()[j]).id != id,
            decreases n - i,
        {
            if store.accounts[i].id == id {
                return Ok(store.accounts[i].clone());
            }
            i += 1;
        }
        Err(AuthError::StoreError)
    }

    /// Look an account up by username: the first row whose username
    /// matches. A miss is a store-level lookup failure.
    pub fn by_name(name: &str, store: &AccountStore) -> (r: Result<Account, AuthError>)
        ensures
            match r {
                Ok(a) => exists|i: int|
                    #[trigger] first_by_name(store.rows(), name@, i) && a == store.rows()[i],
                Err(e) => e is StoreError && !some_name(store.rows(), name@),
            },
    {
        let n = store.accounts.len();
        let mut i: usize = 0;
        while i < n
            invariant
                i <= n,
                n == store.rows().len(),
                forall|j: int| 0 <= j < i ==> (#[trigger] store.rows()[j]).username@ != name@,
            decreases n - i,
        {
            if str_eq(store.accounts[i].username.as_str(), name) {
                proof {
                    assert(first_by_name(store.rows(), name@, i as int));
                }
                return Ok(store.accounts[i].clone());
            }
            i += 1;
        }
        Err(AuthError::StoreError)
    }

    /// Look an account up by session token: the first row that carries
    /// it. A miss is a store-level lookup failure.
    pub fn by_token(token: &str, store: &AccountStore) -> (r: Result<Account, AuthError>)
        ensures
            match r {
                Ok(a) => exists|i: int|
                    #[trigger] first_by_token(store.rows(), token@, i) && a == store.rows()[i],
                Err(e) => e is StoreError && !some_token(store.rows(), token@),
            },
    {
        let n = store.accounts.len();
        let mut i: usize = 0;
        while i < n
            invariant
                i <= n,
                n == store.rows().len(),
                forall|j: int| 0 <= j < i ==> !tok_match(#[trigger] store.rows()[j], token@),
            decreases n - i,
        {
            let hit = match &store.accounts[i].token {
                Some(t) => str_eq(t.as_str(), token),
                None => false,
            };
            if hit {
                proof {
                    assert(first_by_token(store.rows(), token@, i as int));
                }
                return Ok(store.accounts[i].clone());
            }
            i += 1;
        }
        Err(AuthError::StoreError)
    }

    /// True iff `password` is the one whose digest this account stores.
    pub fn verify(&self, password: &str) -> (r: bool)
        requires
            self.salt_ok(),
            utf8_len(password@) <= 0xffff_ffff,
        ensures
            r == self.spec_verify(password@),
    {
        let digest = hash(password, self.salt.as_str());
        self.password == digest
    }

    /// Write a session onto the row with this account's id: the token
    /// (when one is given) and its expiry, one day from `now`, in a
    /// single atomic step. Returns how many rows matched.
    pub fn update_token(&self, token: Option<&str>, store: &mut AccountStore, now: i64) -> (r:
        Result<usize, AuthError>)
        requires
            old(store).wf(),
            now <= i64::MAX - TOKEN_LIFETIME_SECONDS,
        ensures
            final(store).wf(),
            final(store).rows().len() == old(store).rows().len(),
            final(store).spec_next_id() == old(store).spec_next_id(),
            match r {
                Ok(cnt) => {
                    &&& (cnt == 1 <==> exists|i: int|
                        0 <= i < old(store).rows().len() && (#[trigger] old(store).rows()[i]).id
                            == self.id)
                    &&& (cnt == 0 <==> forall|i: int|
                        0 <= i < old(store).rows().len() ==> (#[trigger] old(store).rows()[i]).id
                            != self.id)
                    &&& forall|i: int|
                        0 <= i < old(store).rows().len() && (#[trigger] old(store).rows()[i]).id
                            != self.id ==> final(store).rows()[i] == old(store).rows()[i]
                    &&& forall|i: int|
                        0 <= i < old(store).rows().len() && (#[trigger] old(store).rows()[i]).id
                            == self.id ==> session_updated(
                            old(store).rows()[i],
                            final(store).rows()[i],
                            match token {
                                Some(t) => Some(t@),
                                None => None,
                            },
                            now,
                        )
                },
                Err(_) => false,
            },
    {
        let n = store.accounts.len();
        let mut i: usize = 0;
        while i < n
            invariant
                i <= n,
                n == store.rows().len(),
                store == old(store),
                old(store).wf(),
                now <= i64::MAX - TOKEN_LIFETIME_SECONDS,
                forall|j: int| 0 <= j < i ==> (#[trigger] store.rows()[j]).id != self.id,
            decreases n - i,
        {
            if store.accounts[i].id == self.id {
                let mut a = store.accounts[i].clone();
                if let Some(t) = token {
                    a.token = Some(t.to_owned());
                }
                a.token_expire = Some(now + TOKEN_LIFETIME_SECONDS);
                let ghost rows0 = store.rows();
                store.accounts[i] = a;
                proof {
                    lemma_rows_wf_update(rows0, old(store).spec_next_id(), i as int, a);
                    assert(store.rows() == rows0.update(i as int, a));
                    assert(0 <= (i as int) < rows0.len() && rows0[i as int].id == self.id);
                }
                return Ok(1);
            }
            i += 1;
        }
        Ok(0)
    }

    /// Clear the session on the row with this account's id: token and
    /// expiry dropped together, in a single atomic step. Returns how
    /// many rows matched.
    pub fn expire_token(&self, store: &mut AccountStore) -> (r: Result<usize, AuthError>)
        requires
            old(store).wf(),
        ensures
            final(store).wf(),
            final(store).rows().len() == old(store).rows().len(),
            final(store).spec_next_id() == old(store).spec_next_id(),
            match r {
                Ok(cnt) => {
                    &&& (cnt == 1 <==> exists|i: int|
                        0 <= i < old(store).rows().len() && (#[trigger] old(store).rows()[i]).id
                            == self.id)
                    &&& (cnt == 0 <==> forall|i: int|
                        0 <= i < old(store).rows().len() ==> (#[trigger] old(store).rows()[i]).id
                            != self.id)
                    &&& forall|i: int|
                        0 <= i < old(store).rows().len() && (#[trigger] old(store).rows()[i]).id
                            != self.id ==> final(store).rows()[i] == old(store).rows()[i]
                    &&& forall|i: int|
                        0 <= i < old(store).rows().len() && (#[trigger] old(store).rows()[i]).id
                            == self.id ==> session_cleared(
                            old(store).rows()[i],
                            final(store).rows()[i],
                        )
                },
                Err(_) => false,
            },
    {
        let n = store.accounts.len();
        let mut i: usize = 0;
        while i < n
            invariant
                i <= n,
                n == store.rows().len(),
                store == old(store),
                old(store).wf(),
                forall|j: int| 0 <= j < i ==> (#[trigger] store.rows()[j]).id != self.id,
            decreases n - i,
        {
            if store.accounts[i].id == self.id {
                let mut a = store.accounts[i].clone();
                a.token = None;
                a.token_expire = None;
                let ghost rows0 = store.rows();
                store.accounts[i] = a;
                proof {
                    lemma_rows_wf_update(rows0, old(store).spec_next_id(), i as int, a);
                    assert(store.rows() == rows0.update(i as int, a));
                    assert(0 <= (i as int) < rows0.len() && rows0[i as int].id == self.id);
                }
                return Ok(1);
            }
            i += 1;
        }
        Ok(0)
    }

    /// Insert a fresh account. The store refuses a username that is
    /// already taken, as the unique column constraint would.
    pub fn insert(member: NewAccount, store: &mut AccountStore) -> (r: Result<Account, AuthError>)
        requires
            old(store).wf(),
            old(store).spec_next_id() < u64::MAX,
            8 <= utf8_len(member.spec_salt()) <= 0xffff_ffff,
        ensures
            final(store).wf(),
            match r {
                Ok(a) => {
                    &&& !some_name(old(store).rows(), member.spec_username())
                    &&& a.id == old(store).spec_next_id()
                    &&& a.username@ == member.spec_username()
                    &&& a.password@ == member.spec_password()
                    &&& a.salt@ == member.spec_salt()
                    &&& a.role == member.spec_role()
                    &&& a.token is None
                    &&& a.token_expire is None
                    &&& final(store).rows().len() == old(store).rows().len() + 1
                    &&& forall|j: int|
                        0 <= j < old(store).rows().len() ==> final(store).rows()[j] == old(
                            store,
                        ).rows()[j]
                    &&& final(store).rows()[old(store).rows().len() as int] == a
                    &&& final(store).spec_next_id() == old(store).spec_next_id() + 1
                },
                Err(e) => {
                    &&& e is StoreError
                    &&& some_name(old(store).rows(), member.spec_username())
                    &&& *final(store) == *old(store)
                },
            },
    {
        let n = store.accounts.len();
        let mut i: usize = 0;
        while i < n
            invariant
                i <= n,
                n == store.rows().len(),
                store == old(store),
                old(store).wf(),
                forall|j: int|
                    0 <= j < i ==> (#[trigger] store.rows()[j]).username@
                        != member.spec_username(),
            decreases n - i,
        {
            if str_eq(store.accounts[i].username.as_str(), member.username.as_str()) {
                proof {
                    assert(0 <= (i as int) < store.rows().len() && store.rows()[i as int].username@
                        == member.spec_username());
                }
                return Err(AuthError::StoreError);
            }
            i += 1;
        }
        let row = Account {
            id: store.next_id,
            username: member.username,
            password: member.password,
            salt: member.salt,
            role: member.role,
            token: None,
            token_expire: None,
        };
        let result = row.clone();
        let ghost rows0 = store.rows();
        proof {
            lemma_rows_wf_push(rows0, old(store).spec_next_id(), row);
        }
        store.accounts.push(row);
        store.next_id = store.next_id + 1;
        Ok(result)
    }
}

/// Law: verification answers exactly the question "does the candidate's
/// digest match the stored one". For an account built from `original`,
/// `original` itself always verifies, and any `candidate` verifies iff
/// its digest under the account's salt equals the digest of `original`.
/// (That a verifying candidate must equal `original` would need the
/// digest to be collision-free, which no finite digest is; it holds only
/// with overwhelming probability.)
pub proof fn lemma_verify_characterizes_password(
    acct: Account,
    original: Seq<char>,
    candidate: Seq<char>,
)
    requires
        acct.password@ == spec_hash(original, acct.salt@),
    ensures
        acct.spec_verify(original),
        acct.spec_verify(candidate) <==> spec_hash(candidate, acct.salt@) == spec_hash(
            original,
            acct.salt@,
        ),
{
}

} // verus!
