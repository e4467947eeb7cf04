use auth_core::api::authenticate;
use auth_core::credential::Credential;
use auth_core::errors::AuthError;
use auth_core::token::Token;
use base64::Engine as _;

fn b64(s: &[u8]) -> String {
    base64::engine::general_purpose::STANDARD.encode(s)
}

#[test]
fn basic_payload_decodes_to_credential() {
    let c = Credential::from_str(&b64(b"alice:wonderland")).unwrap();
    assert_eq!(c.username, "alice");
    assert_eq!(c.password, "wonderland");
}

#[test]
fn password_keeps_embedded_colons() {
    let c = Credential::from_str(&b64(b"alice:a:b")).unwrap();
    assert_eq!(c.username, "alice");
    assert_eq!(c.password, "a:b");
}

#[test]
fn empty_username_and_empty_password_are_preserved() {
    let c = Credential::from_str(&b64(b":secret")).unwrap();
    assert_eq!(c.username, "");
    assert_eq!(c.password, "secret");
    let c = Credential::from_str(&b64(b"alice:")).unwrap();
    assert_eq!(c.username, "alice");
    assert_eq!(c.password, "");
}

#[test]
fn non_ascii_credentials_survive_decoding() {
    let c = Credential::from_str(&b64("münchen:straße".as_bytes())).unwrap();
    assert_eq!(c.username, "münchen");
    assert_eq!(c.password, "straße");
}

#[test]
fn payload_without_colon_is_refused() {
    let e = Credential::from_str(&b64(b"alicewonderland")).unwrap_err();
    assert!(matches!(e, AuthError::CredentialInvalid));
}

#[test]
fn payload_that_is_not_base64_is_refused() {
    let e = Credential::from_str("!!!not-base64!!!").unwrap_err();
    assert!(matches!(e, AuthError::DecodeError));
}

#[test]
fn payload_that_is_not_utf8_is_refused() {
    let e = Credential::from_str(&b64(&[0xff, 0xfe, 0x3a])).unwrap_err();
    assert!(matches!(e, AuthError::EncodingError));
}

#[test]
fn full_basic_header_is_extracted() {
    let values = vec![format!("Basic {}", b64(b"alice:wonderland"))];
    let c = Credential::from_headers(&values).unwrap();
    assert_eq!(c.username, "alice");
    assert_eq!(c.password, "wonderland");
}

#[test]
fn surrounding_whitespace_and_extra_tokens_are_tolerated() {
    let values = vec![format!("  Basic \t {}  trailing junk", b64(b"alice:wonderland"))];
    let c = Credential::from_headers(&values).unwrap();
    assert_eq!(c.username, "alice");
    assert_eq!(c.password, "wonderland");
}

#[test]
fn missing_header_is_refused() {
    let e = Credential::from_headers(&vec![]).unwrap_err();
    assert!(matches!(e, AuthError::HeaderMissing));
}

#[test]
fn repeated_header_is_refused() {
    let v = format!("Basic {}", b64(b"alice:wonderland"));
    let e = Credential::from_headers(&vec![v.clone(), v]).unwrap_err();
    assert!(matches!(e, AuthError::HeaderInvalid));
}

#[test]
fn blank_header_value_has_no_scheme() {
    let e = Credential::from_headers(&vec!["   ".to_string()]).unwrap_err();
    assert!(matches!(e, AuthError::MethodMissing));
}

#[test]
fn wrong_scheme_is_reported_verbatim() {
    let e = Credential::from_headers(&vec![format!("Bearer {}", b64(b"a:b"))]).unwrap_err();
    match e {
        AuthError::MethodInvalid(m) => assert_eq!(m, "Bearer"),
        _ => panic!("expected MethodInvalid"),
    }
}

#[test]
fn scheme_comparison_is_case_sensitive() {
    let e = Credential::from_headers(&vec![format!("basic {}", b64(b"a:b"))]).unwrap_err();
    match e {
        AuthError::MethodInvalid(m) => assert_eq!(m, "basic"),
        _ => panic!("expected MethodInvalid"),
    }
}

#[test]
fn basic_scheme_without_payload_is_refused() {
    let e = Credential::from_headers(&vec!["Basic".to_string()]).unwrap_err();
    assert!(matches!(e, AuthError::CredentialMissing));
}

#[test]
fn bearer_scheme_without_payload_is_refused() {
    let store = auth_core::accounts::AccountStore::new();
    let e = Token::from_headers(&vec!["Bearer  ".to_string()], &store, 0).unwrap_err();
    assert!(matches!(e, AuthError::TokenMissing));
    let e = authenticate(&vec!["Bearer".to_string()], &store, 0).unwrap_err();
    assert!(matches!(e, AuthError::TokenMissing));
}

#[test]
fn bearer_header_shape_errors_match_basic_ones() {
    let store = auth_core::accounts::AccountStore::new();
    assert!(matches!(
        Token::from_headers(&vec![], &store, 0).unwrap_err(),
        AuthError::HeaderMissing
    ));
    assert!(matches!(
        Token::from_headers(&vec!["Bearer x".to_string(), "Bearer y".to_string()], &store, 0)
            .unwrap_err(),
        AuthError::HeaderInvalid
    ));
    assert!(matches!(
        Token::from_headers(&vec!["".to_string()], &store, 0).unwrap_err(),
        AuthError::MethodMissing
    ));
    match Token::from_headers(&vec!["Basic zzz".to_string()], &store, 0).unwrap_err() {
        AuthError::MethodInvalid(m) => assert_eq!(m, "Basic"),
        _ => panic!("expected MethodInvalid"),
    }
}

#[test]
fn payload_text_splits_at_the_first_colon_only() {
    let c = Credential::from_payload("alice:a:b").unwrap();
    assert_eq!(c.username, "alice");
    assert_eq!(c.password, "a:b");
    let e = Credential::from_payload("nocolonhere").unwrap_err();
    assert!(matches!(e, AuthError::CredentialInvalid));
}
