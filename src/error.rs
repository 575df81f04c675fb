use vstd::prelude::*;

verus! {

/// Why a token was refused.
#[derive(Debug, Clone, Copy, PartialEq, Eq, Structural)]
pub enum TokenError {
    /// The token is not a well-formed signed token with our claims.
    Malformed,
    /// The signature does not match the shared secret.
    BadSignature,
    /// The expiry timestamp has passed.
    Expired,
    /// The token could not be signed.
    Signing,
}

/// Why a storage operation failed.
#[derive(Debug, PartialEq, Eq)]
pub enum StorageError {
    /// A uniqueness constraint refused the row.
    UniqueViolation,
    /// A conditional update or point lookup matched no row.
    NoRowMatched,
    /// The store could not be reached or the query failed; the driver's
    /// description of the cause, for logs, never shown to callers.
    Backend(String),
}

/// Why an input was refused before any work was done.
#[derive(Debug, Clone, Copy, PartialEq, Eq, Structural)]
pub enum ValidationError {
    InvalidEmail,
    PasswordTooShort,
}

/// The outcome classes of the registration and login flows.
#[derive(Debug, PartialEq, Eq)]
pub enum AuthError {
    Validation(ValidationError),
    Conflict,
    InvalidCredentials,
    Storage(StorageError),
    Token(TokenError),
    /// The password could not be hashed.
    Hashing,
}

/// The message shown to a caller for each outcome.
pub open spec fn error_message(e: AuthError) -> Seq<char> {
    match e {
        AuthError::Validation(ValidationError::InvalidEmail) => "Invalid email"@,
        AuthError::Validation(ValidationError::PasswordTooShort) => "Password must be at least 6 characters"@,
        AuthError::Conflict => "User already exists"@,
        AuthError::InvalidCredentials => "Invalid credentials"@,
        AuthError::Storage(_) => "Storage error"@,
        AuthError::Token(TokenError::Expired) => "Token expired"@,
        AuthError::Token(_) => "Invalid token"@,
        AuthError::Hashing => "Hash error"@,
    }
}

impl AuthError {
    /// The message shown to a caller.
    pub fn message(&self) -> (r: String)
        ensures
            r@ == error_message(*self),
    {
        match self {
            AuthError::Validation(ValidationError::InvalidEmail) => "Invalid email".to_string(),
            AuthError::Validation(ValidationError::PasswordTooShort) => {
                "Password must be at least 6 characters".to_string()
            },
            AuthError::Conflict => "User already exists".to_string(),
            AuthError::InvalidCredentials => "Invalid credentials".to_string(),
            AuthError::Storage(_) => "Storage error".to_string(),
            AuthError::Token(TokenError::Expired) => "Token expired".to_string(),
            AuthError::Token(_) => "Invalid token".to_string(),
            AuthError::Hashing => "Hash error".to_string(),
        }
    }
}

} // verus!
