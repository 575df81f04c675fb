use vstd::prelude::*;
use crate::error::AuthError;

verus! {

#[verifier::external_type_specification]
#[verifier::external_body]
pub struct ExBcryptError(bcrypt::BcryptError);

/// Whether `bcrypt::verify(password, digest)` returns `Ok(true)`.
pub uninterp spec fn digest_matches(password: Seq<char>, digest: Seq<char>) -> bool;

/// Relies on bcrypt::hash at the default cost: a `$2b$` digest of 60 characters
/// under a random salt, which bcrypt::verify accepts for the same password.
#[verifier::external_body]
fn bcrypt_hash(password: &str) -> (r: Result<String, bcrypt::BcryptError>)
    ensures
        r matches Ok(d) ==> d@.len() == 60 && d@[0] == '$' && digest_matches(password@, d@),
{
    bcrypt::hash(password, bcrypt::DEFAULT_COST)
}

/// Relies on bcrypt::verify: `Ok(true)` exactly when the digest is well formed
/// and was made from this password.
#[verifier::external_body]
fn bcrypt_verify(password: &str, digest: &str) -> (r: Result<bool, bcrypt::BcryptError>)
    ensures
        (r matches Ok(true)) == digest_matches(password@, digest@),
{
    bcrypt::verify(password, digest)
}

/// Hashes a password into a salted one-way digest.
pub fn hash_password(password: &str) -> (r: Result<String, AuthError>)
    ensures
        r matches Ok(d) ==> digest_matches(password@, d@),
        r matches Ok(d) ==> !(password@.len() == 60 && password@[0] == '$') ==> d@ != password@,
        r matches Err(e) ==> e == AuthError::Hashing,
{
    match bcrypt_hash(password) {
        Ok(d) => Ok(d),
        Err(_) => Err(AuthError::Hashing),
    }
}

/// Checks a password against a digest; a malformed digest is a non-match.
pub fn verify_password(password: &str, digest: &str) -> (r: bool)
    ensures
        r == digest_matches(password@, digest@),
{
    match bcrypt_verify(password, digest) {
        Ok(b) => b,
        Err(_) => false,
    }
}

/// A digest of bcrypt's shape (60 characters starting with `$`) differs from
/// every password that does not have that shape.
pub proof fn lemma_digest_differs(password: Seq<char>, digest: Seq<char>)
    requires
        digest.len() == 60 && digest[0] == '$',
    ensures
        !(password.len() == 60 && password[0] == '$') ==> digest != password,
{
}

} // verus!
