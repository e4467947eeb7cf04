use auth_core::accounts::{Account, AccountStore, NewAccount};
use auth_core::api::{authenticate, login, logout, signup, SignupForm};
use auth_core::errors::AuthError;
use auth_core::token::Token;

const NOW: i64 = 1_700_000_000;
const DAY: i64 = 86400;

fn form(name: &str, password: &str) -> SignupForm {
    SignupForm { name: name.to_string(), password: password.to_string() }
}

fn seeded(accounts: Vec<Account>) -> AccountStore {
    AccountStore::from_accounts(accounts)
}

#[test]
fn signup_then_login_then_relogin_then_logout_then_login() {
    let mut store = AccountStore::new();
    signup(&form("alice", "wonderland"), &mut store).unwrap();
    let token1 = login(&mut store, "alice", "wonderland", NOW).unwrap();
    assert_eq!(token1.chars().count(), 32);
    assert!(token1.chars().all(|c| c.is_ascii_alphanumeric()));
    let e = login(&mut store, "alice", "wonderland", NOW + 10).unwrap_err();
    assert!(matches!(e, AuthError::AlreadyLoggedIn));
    logout(&mut store, "alice").unwrap();
    let a = Account::by_name("alice", &store).unwrap();
    assert!(a.token.is_none());
    assert!(a.token_expire.is_none());
    let token2 = login(&mut store, "alice", "wonderland", NOW + 20).unwrap();
    assert_eq!(token2.chars().count(), 32);
    assert_ne!(token1, token2);
}

#[test]
fn login_writes_token_and_exact_expiry() {
    let mut store = AccountStore::new();
    signup(&form("alice", "wonderland"), &mut store).unwrap();
    let token = login(&mut store, "alice", "wonderland", NOW).unwrap();
    let a = Account::by_name("alice", &store).unwrap();
    assert_eq!(a.token.as_deref(), Some(token.as_str()));
    assert_eq!(a.token_expire, Some(NOW + DAY));
}

#[test]
fn login_over_an_expired_session_succeeds() {
    let mut store = AccountStore::new();
    signup(&form("alice", "wonderland"), &mut store).unwrap();
    let token1 = login(&mut store, "alice", "wonderland", NOW).unwrap();
    let token2 = login(&mut store, "alice", "wonderland", NOW + DAY).unwrap();
    assert_ne!(token1, token2);
    let a = Account::by_name("alice", &store).unwrap();
    assert_eq!(a.token_expire, Some(NOW + DAY + DAY));
}

#[test]
fn unknown_user_and_wrong_password_are_indistinguishable() {
    let mut store = AccountStore::new();
    signup(&form("alice", "wonderland"), &mut store).unwrap();
    let e1 = login(&mut store, "nobody", "wonderland", NOW).unwrap_err();
    let e2 = login(&mut store, "alice", "not-the-password", NOW).unwrap_err();
    assert!(matches!(e1, AuthError::InvalidCredentials));
    assert!(matches!(e2, AuthError::InvalidCredentials));
    assert_eq!(e1.status(), 401);
    assert_eq!(e2.status(), 401);
}

#[test]
fn signup_refuses_a_taken_username() {
    let mut store = AccountStore::new();
    signup(&form("alice", "wonderland"), &mut store).unwrap();
    let e = signup(&form("alice", "other"), &mut store).unwrap_err();
    assert!(matches!(e, AuthError::UserExists));
    assert_eq!(e.status(), 400);
    assert_eq!(store.len(), 1);
}

#[test]
fn logout_without_session_is_refused() {
    let mut store = AccountStore::new();
    signup(&form("alice", "wonderland"), &mut store).unwrap();
    let e = logout(&mut store, "alice").unwrap_err();
    assert!(matches!(e, AuthError::NotLoggedIn));
    let e = logout(&mut store, "nobody").unwrap_err();
    assert!(matches!(e, AuthError::NotLoggedIn));
}

#[test]
fn token_verify_respects_expiry_boundaries() {
    let mut store = AccountStore::new();
    signup(&form("alice", "wonderland"), &mut store).unwrap();
    let token = login(&mut store, "alice", "wonderland", NOW).unwrap();
    // expiry one second in the future: still a valid session
    let t = Token::verify(&token, &store, NOW + DAY - 1).unwrap();
    assert_eq!(t.token, token);
    assert_eq!(t.account.username, "alice");
    // expiry equal to now already counts as expired
    match Token::verify(&token, &store, NOW + DAY).unwrap_err() {
        AuthError::TokenExpire(tk) => assert_eq!(tk, token),
        _ => panic!("expected TokenExpire"),
    }
    // expiry one second in the past
    match Token::verify(&token, &store, NOW + DAY + 1).unwrap_err() {
        AuthError::TokenExpire(tk) => assert_eq!(tk, token),
        _ => panic!("expected TokenExpire"),
    }
}

#[test]
fn unknown_token_is_a_store_lookup_failure() {
    let store = AccountStore::new();
    let e = Token::verify("no-such-token", &store, NOW).unwrap_err();
    assert!(matches!(e, AuthError::StoreError));
    assert_eq!(e.status(), 500);
}

#[test]
fn token_without_expiry_is_reported_not_unwrapped() {
    let store = seeded(vec![Account {
        id: 7,
        username: "bob".to_string(),
        password: "irrelevant".to_string(),
        salt: "saltsalt".to_string(),
        role: 1,
        token: Some("tok123".to_string()),
        token_expire: None,
    }]);
    let e = Token::verify("tok123", &store, NOW).unwrap_err();
    assert!(matches!(e, AuthError::SessionStateMissing));
}

#[test]
fn bearer_round_trip_through_authenticate() {
    let mut store = AccountStore::new();
    signup(&form("alice", "wonderland"), &mut store).unwrap();
    let token = login(&mut store, "alice", "wonderland", NOW).unwrap();
    let values = vec![format!("Bearer {}", token)];
    let t = authenticate(&values, &store, NOW + 1).unwrap();
    assert_eq!(t.token, token);
    assert_eq!(t.account.username, "alice");
    assert_eq!(t.account.role, 1);
    match authenticate(&values, &store, NOW + DAY).unwrap_err() {
        AuthError::TokenExpire(tk) => assert_eq!(tk, token),
        _ => panic!("expected TokenExpire"),
    }
}

#[test]
fn lookups_find_accounts_by_each_key() {
    let mut store = AccountStore::new();
    signup(&form("alice", "wonderland"), &mut store).unwrap();
    signup(&form("bob", "builder"), &mut store).unwrap();
    let alice = Account::by_name("alice", &store).unwrap();
    let bob = Account::by_name("bob", &store).unwrap();
    assert_ne!(alice.id, bob.id);
    assert_eq!(Account::by_id(bob.id, &store).unwrap().username, "bob");
    assert!(matches!(Account::by_id(999, &store).unwrap_err(), AuthError::StoreError));
    assert!(matches!(Account::by_name("carol", &store).unwrap_err(), AuthError::StoreError));
    let token = login(&mut store, "bob", "builder", NOW).unwrap();
    assert_eq!(Account::by_token(&token, &store).unwrap().username, "bob");
    assert!(matches!(Account::by_token("zzz", &store).unwrap_err(), AuthError::StoreError));
}

#[test]
fn update_token_without_token_only_moves_the_expiry() {
    let mut store = AccountStore::new();
    signup(&form("alice", "wonderland"), &mut store).unwrap();
    let token = login(&mut store, "alice", "wonderland", NOW).unwrap();
    let a = Account::by_name("alice", &store).unwrap();
    let n = a.update_token(None, &mut store, NOW + 100).unwrap();
    assert_eq!(n, 1);
    let a = Account::by_name("alice", &store).unwrap();
    assert_eq!(a.token.as_deref(), Some(token.as_str()));
    assert_eq!(a.token_expire, Some(NOW + 100 + DAY));
}

#[test]
fn update_and_expire_report_zero_matches_for_a_missing_id() {
    let mut store = AccountStore::new();
    signup(&form("alice", "wonderland"), &mut store).unwrap();
    let mut ghost_row = Account::by_name("alice", &store).unwrap();
    ghost_row.id = 42;
    assert_eq!(ghost_row.update_token(Some("tok"), &mut store, NOW).unwrap(), 0);
    assert_eq!(ghost_row.expire_token(&mut store).unwrap(), 0);
    let a = Account::by_name("alice", &store).unwrap();
    assert!(a.token.is_none());
}

#[test]
fn new_account_hashes_and_salts() {
    let member = NewAccount::new("carol".to_string(), "pw-secret".to_string(), 3);
    let mut store = AccountStore::new();
    let a = Account::insert(member, &mut store).unwrap();
    assert_eq!(a.username, "carol");
    assert_eq!(a.role, 3);
    assert_eq!(a.salt.chars().count(), 32);
    assert!(a.salt.chars().all(|c| c.is_ascii_alphanumeric()));
    assert_ne!(a.password, "pw-secret");
    assert_eq!(a.password.len(), 64);
    assert!(a.verify("pw-secret"));
    assert!(!a.verify("pw-secret "));
}
