use exchange_auth::credential::{hash_password, verify_password};
use exchange_auth::error::TokenError;
use exchange_auth::token::{accept_claims, claims_at, issue_token, verify_token_at, Claims, TOKEN_LIFETIME};

const NOW: u64 = 1_700_000_000;

#[test]
fn hashed_password_verifies_and_differs() {
    let d = hash_password("secret1").unwrap();
    assert_ne!(d, "secret1");
    assert_eq!(d.len(), 60);
    assert!(verify_password("secret1", &d));
}

#[test]
fn wrong_password_does_not_verify() {
    let d = hash_password("secret1").unwrap();
    assert!(!verify_password("secret2", &d));
}

#[test]
fn malformed_digest_fails_closed() {
    assert!(!verify_password("secret1", "not-a-digest"));
    assert!(!verify_password("secret1", ""));
}

#[test]
fn issued_token_verifies_to_its_subject() {
    let t = issue_token("topsecret", "user-42", NOW).unwrap();
    let c = verify_token_at("topsecret", &t, NOW).unwrap();
    assert_eq!(c, Claims { sub: "user-42".to_string(), exp: NOW + 86400, iat: NOW });
}

#[test]
fn token_valid_until_its_expiry() {
    let t = issue_token("topsecret", "user-42", NOW).unwrap();
    assert!(verify_token_at("topsecret", &t, NOW + TOKEN_LIFETIME).is_ok());
}

#[test]
fn token_after_expiry_is_expired() {
    let t = issue_token("topsecret", "user-42", NOW).unwrap();
    assert_eq!(verify_token_at("topsecret", &t, NOW + TOKEN_LIFETIME + 1), Err(TokenError::Expired));
}

#[test]
fn token_under_other_secret_is_bad_signature() {
    let t = issue_token("topsecret", "user-42", NOW).unwrap();
    assert_eq!(verify_token_at("othersecret", &t, NOW), Err(TokenError::BadSignature));
}

#[test]
fn garbage_token_is_malformed() {
    assert_eq!(verify_token_at("topsecret", "abc", NOW), Err(TokenError::Malformed));
    assert_eq!(verify_token_at("topsecret", "a.b.c", NOW), Err(TokenError::Malformed));
}

#[test]
fn claims_last_one_day() {
    let c = claims_at("u", 100);
    assert_eq!(c, Claims { sub: "u".to_string(), exp: 86500, iat: 100 });
}

#[test]
fn accept_claims_at_and_after_expiry() {
    let c = Claims { sub: "u".to_string(), exp: 10, iat: 0 };
    assert_eq!(accept_claims(c, 10), Ok(Claims { sub: "u".to_string(), exp: 10, iat: 0 }));
    let c = Claims { sub: "u".to_string(), exp: 10, iat: 0 };
    assert_eq!(accept_claims(c, 11), Err(TokenError::Expired));
}
