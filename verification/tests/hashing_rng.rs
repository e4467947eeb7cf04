use auth_core::api::Response;
use auth_core::errors::AuthError;
use auth_core::hashing::hash;
use auth_core::token::Token;

#[test]
fn generate_returns_the_asked_length_over_the_alphanumeric_alphabet() {
    for len in [0usize, 1, 5, 32, 64] {
        let t = Token::generate(len);
        assert_eq!(t.chars().count(), len);
        assert!(t.chars().all(|c| c.is_ascii_alphanumeric()));
    }
}

#[test]
fn ten_thousand_tokens_have_no_duplicate() {
    let mut seen: Vec<String> = Vec::new();
    for _ in 0..10_000 {
        seen.push(Token::generate(32));
    }
    seen.sort();
    for i in 1..seen.len() {
        assert_ne!(seen[i - 1], seen[i]);
    }
}

#[test]
fn hash_is_deterministic_and_hex_encoded() {
    let a = hash("wonderland", "0123456789abcdef");
    let b = hash("wonderland", "0123456789abcdef");
    assert_eq!(a, b);
    assert_eq!(a.len(), 64);
    assert!(a.chars().all(|c| c.is_ascii_digit() || ('a'..='f').contains(&c)));
}

#[test]
fn hash_changes_with_the_salt_and_with_the_password() {
    let base = hash("wonderland", "salt-one-aaaa");
    assert_ne!(base, hash("wonderland", "salt-two-bbbb"));
    assert_ne!(base, hash("wonderland2", "salt-one-aaaa"));
}

#[test]
fn error_statuses_follow_the_taxonomy() {
    assert_eq!(AuthError::HeaderMissing.status(), 400);
    assert_eq!(AuthError::HeaderInvalid.status(), 400);
    assert_eq!(AuthError::MethodMissing.status(), 400);
    assert_eq!(AuthError::MethodInvalid("x".to_string()).status(), 400);
    assert_eq!(AuthError::CredentialMissing.status(), 400);
    assert_eq!(AuthError::CredentialInvalid.status(), 400);
    assert_eq!(AuthError::TokenMissing.status(), 400);
    assert_eq!(AuthError::TokenExpire("t".to_string()).status(), 400);
    assert_eq!(AuthError::DecodeError.status(), 400);
    assert_eq!(AuthError::EncodingError.status(), 400);
    assert_eq!(AuthError::SessionStateMissing.status(), 400);
    assert_eq!(AuthError::InvalidCredentials.status(), 401);
    assert_eq!(AuthError::AlreadyLoggedIn.status(), 400);
    assert_eq!(AuthError::NotLoggedIn.status(), 400);
    assert_eq!(AuthError::UserExists.status(), 400);
    assert_eq!(AuthError::StoreError.status(), 500);
    assert_eq!(AuthError::StoreConnectionError.status(), 500);
}

#[test]
fn response_keeps_body_and_message() {
    let r = Response::new("tok".to_string(), "user: alice login successfully".to_string());
    assert_eq!(r.body, "tok");
    assert_eq!(r.message, "user: alice login successfully");
}
