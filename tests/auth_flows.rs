use exchange_auth::auth::{
    contains_at_sign, prepare_signup, validate_signup, AuthService, SigninRequest, SignupRequest,
};
use exchange_auth::error::{AuthError, StorageError, TokenError, ValidationError};
use exchange_auth::user::{User, UserTable};

fn service() -> AuthService {
    AuthService::new("topsecret".to_string())
}

fn signup_req(email: &str, password: &str) -> SignupRequest {
    SignupRequest { email: email.to_string(), password: password.to_string() }
}

fn signin_req(email: &str, password: &str) -> SigninRequest {
    SigninRequest { email: email.to_string(), password: password.to_string() }
}

#[test]
fn signup_gives_token_for_new_user_id() {
    let svc = service();
    let mut users = UserTable::new();
    let resp = match svc.signup(&mut users, signup_req("a@b.com", "secret1")) {
        Ok(r) => r,
        Err(e) => panic!("signup failed: {:?}", e),
    };
    assert_eq!(resp.user.email, "a@b.com");
    assert_eq!(users.len(), 1);
    let claims = svc.verify_token(&resp.token).unwrap();
    assert_eq!(claims.sub, uuid::Uuid::from_u128(resp.user.id).to_string());
    assert_eq!(claims.exp, claims.iat + 86400);
}

#[test]
fn signup_with_short_password_creates_nothing() {
    let svc = service();
    let mut users = UserTable::new();
    let r = svc.signup(&mut users, signup_req("a@b.com", "12345"));
    assert!(matches!(r, Err(AuthError::Validation(ValidationError::PasswordTooShort))));
    assert_eq!(users.len(), 0);
}

#[test]
fn signup_without_at_sign_is_invalid_email() {
    let svc = service();
    let mut users = UserTable::new();
    let r = svc.signup(&mut users, signup_req("ab.com", "secret1"));
    assert!(matches!(r, Err(AuthError::Validation(ValidationError::InvalidEmail))));
    assert_eq!(users.len(), 0);
}

#[test]
fn validation_edges() {
    assert_eq!(validate_signup(&signup_req("a@b", "123456")), Ok(()));
    assert_eq!(
        validate_signup(&signup_req("a@b", "")),
        Err(AuthError::Validation(ValidationError::PasswordTooShort))
    );
    assert_eq!(
        validate_signup(&signup_req("", "secret1")),
        Err(AuthError::Validation(ValidationError::InvalidEmail))
    );
    assert!(contains_at_sign("@"));
    assert!(!contains_at_sign("nobody"));
}

#[test]
fn second_signup_with_same_email_conflicts() {
    let svc = service();
    let mut users = UserTable::new();
    assert!(svc.signup(&mut users, signup_req("a@b.com", "secret1")).is_ok());
    let r = svc.signup(&mut users, signup_req("a@b.com", "other-pass"));
    assert!(matches!(r, Err(AuthError::Conflict)));
    assert_eq!(users.len(), 1);
}

#[test]
fn racing_signups_one_wins_other_conflicts() {
    let svc = service();
    let mut users = UserTable::new();
    let req = signup_req("a@b.com", "secret1");
    // Both pass the existence check before either inserts.
    assert!(users.find_by_email("a@b.com").is_none());
    assert!(users.find_by_email("a@b.com").is_none());
    let d1 = prepare_signup(&req, Ok(false)).unwrap();
    let first = users.create("a@b.com", &d1, 1);
    let second = users.create("a@b.com", &d1, 2);
    assert!(first.is_ok());
    assert!(matches!(second, Err(StorageError::UniqueViolation)));
    assert!(svc.complete_signup(first).is_ok());
    assert!(matches!(svc.complete_signup(second), Err(AuthError::Conflict)));
    assert_eq!(users.len(), 1);
}

#[test]
fn prepare_signup_outcomes() {
    let req = signup_req("a@b.com", "secret1");
    assert_eq!(prepare_signup(&req, Ok(true)), Err(AuthError::Conflict));
    assert_eq!(
        prepare_signup(&req, Err(StorageError::Backend("timeout".to_string()))),
        Err(AuthError::Storage(StorageError::Backend("timeout".to_string())))
    );
}

#[test]
fn complete_signup_storage_failure() {
    let svc = service();
    assert!(matches!(
        svc.complete_signup(Err(StorageError::Backend("timeout".to_string()))),
        Err(AuthError::Storage(StorageError::Backend(ref c))) if c == "timeout"
    ));
}

#[test]
fn signin_with_wrong_password_is_invalid_credentials() {
    let svc = service();
    let mut users = UserTable::new();
    assert!(svc.signup(&mut users, signup_req("a@b.com", "secret1")).is_ok());
    match svc.signin(&users, signin_req("a@b.com", "wrong-pass")) {
        Err(e) => {
            assert_eq!(e, AuthError::InvalidCredentials);
            assert_eq!(e.message(), "Invalid credentials");
        },
        Ok(_) => panic!("wrong password accepted"),
    }
}

#[test]
fn signin_unknown_email_matches_wrong_password() {
    let svc = service();
    let users = UserTable::new();
    match svc.signin(&users, signin_req("nobody@b.com", "secret1")) {
        Err(e) => assert_eq!(e.message(), AuthError::InvalidCredentials.message()),
        Ok(_) => panic!("unknown email accepted"),
    }
}

#[test]
fn signin_with_right_password_succeeds() {
    let svc = service();
    let mut users = UserTable::new();
    let id = match svc.signup(&mut users, signup_req("a@b.com", "secret1")) {
        Ok(r) => r.user.id,
        Err(e) => panic!("signup failed: {:?}", e),
    };
    match svc.signin(&users, signin_req("a@b.com", "secret1")) {
        Ok(r) => {
            assert_eq!(r.user.id, id);
            assert_eq!(svc.verify_token(&r.token).unwrap().sub, uuid::Uuid::from_u128(id).to_string());
        },
        Err(e) => panic!("signin failed: {:?}", e),
    }
}

#[test]
fn complete_signin_outcomes() {
    let svc = service();
    let req = signin_req("a@b.com", "secret1");
    assert!(matches!(svc.complete_signin(&req, Ok(None)), Err(AuthError::InvalidCredentials)));
    assert!(matches!(
        svc.complete_signin(&req, Err(StorageError::Backend("timeout".to_string()))),
        Err(AuthError::Storage(StorageError::Backend(ref c))) if c == "timeout"
    ));
    let u = User {
        id: 7,
        email: "a@b.com".to_string(),
        password_hash: "corrupt".to_string(),
        created_at: 0,
        updated_at: 0,
    };
    assert!(matches!(svc.complete_signin(&req, Ok(Some(u))), Err(AuthError::InvalidCredentials)));
}

#[test]
fn verify_token_refuses_foreign_token() {
    let svc = service();
    assert!(matches!(svc.verify_token("abc"), Err(AuthError::Token(TokenError::Malformed))));
}

#[test]
fn register_with_given_id_and_taken_id() {
    let svc = service();
    let mut users = UserTable::new();
    let resp = match svc.register(&mut users, signup_req("a@b.com", "secret1"), 77, 1000) {
        Ok(r) => r,
        Err(e) => panic!("register failed: {:?}", e),
    };
    assert_eq!(resp.user.id, 77);
    assert_eq!(resp.user.created_at, 1000);
    let stored = users.find_by_id(77).unwrap();
    assert_ne!(stored.password_hash, "secret1");
    let r = svc.register(&mut users, signup_req("c@d.com", "secret1"), 77, 1001);
    assert!(matches!(r, Err(AuthError::Conflict)));
    assert_eq!(users.len(), 1);
}

#[test]
fn verify_token_tells_bad_signature_from_malformed() {
    let svc = service();
    let other = AuthService::new("othersecret".to_string());
    let t = other.generate_token(9).unwrap();
    assert!(matches!(svc.verify_token(&t), Err(AuthError::Token(TokenError::BadSignature))));
    assert!(matches!(svc.verify_token(""), Err(AuthError::Token(TokenError::Malformed))));
    assert_eq!(other.verify_token(&t).unwrap().sub, uuid::Uuid::from_u128(9).to_string());
}

#[test]
fn token_subject_is_hyphenated_lower_hex_id() {
    let svc = service();
    let t = svc.generate_token(0x0123_4567_89ab_cdef_0123_4567_89ab_cdef).unwrap();
    assert_eq!(svc.verify_token(&t).unwrap().sub, "01234567-89ab-cdef-0123-456789abcdef");
}

#[test]
fn error_messages() {
    assert_eq!(AuthError::Validation(ValidationError::InvalidEmail).message(), "Invalid email");
    assert_eq!(
        AuthError::Validation(ValidationError::PasswordTooShort).message(),
        "Password must be at least 6 characters"
    );
    assert_eq!(AuthError::Conflict.message(), "User already exists");
    assert_eq!(AuthError::Token(TokenError::Expired).message(), "Token expired");
    assert_eq!(AuthError::Token(TokenError::BadSignature).message(), "Invalid token");
    assert_eq!(AuthError::Storage(StorageError::Backend("timeout".to_string())).message(), "Storage error");
    assert_eq!(AuthError::Hashing.message(), "Hash error");
}

#[test]
fn user_table_lookups() {
    let mut users = UserTable::new();
    let u = users.create("x@y.z", "digest", 5).unwrap();
    assert_eq!(users.find_by_email("x@y.z").unwrap().id, u.id);
    assert!(users.find_by_email("X@y.z").is_none());
    assert_eq!(users.find_by_id(u.id).unwrap().email, "x@y.z");
    assert_eq!(u.created_at, 5);
    assert_eq!(u.updated_at, 5);
}
