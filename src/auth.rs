use vstd::prelude::*;
use vstd::string::StringSliceAdditionalSpecFns;
use vstd::utf8::encode_utf8;
use crate::credential::{digest_matches, hash_password, verify_password};
use crate::error::{AuthError, StorageError, TokenError, ValidationError};
use crate::token::{jwt_decoded, issue_token, verify_token_at, now_epoch, now_seconds, Claims, TOKEN_LIFETIME};
use crate::user::{User, UserTable, has_email, has_id, row_with_email, uuid_text, id_text, fresh_id};

verus! {

/// The shortest password accepted at registration, in bytes.
pub const MIN_PASSWORD_LEN: usize = 6;

/// A registration request.
pub struct SignupRequest {
    pub email: String,
    pub password: String,
}

/// A login request.
pub struct SigninRequest {
    pub email: String,
    pub password: String,
}

/// The public projection of a user: the digest is never part of it.
pub struct UserResponse {
    pub id: u128,
    pub email: String,
    pub created_at: i64,
}

/// What both flows return on success.
pub struct AuthResponse {
    pub user: UserResponse,
    pub token: String,
}

impl UserResponse {
    pub fn from_user(user: &User) -> (r: UserResponse)
        ensures
            r.id == user.id,
            r.email@ == user.email@,
            r.created_at == user.created_at,
    {
        UserResponse { id: user.id, email: user.email.clone(), created_at: user.created_at }
    }
}

/// The outcome of the input checks of registration, on the UTF-8 bytes of the
/// email and password.
pub open spec fn signup_validation(email: Seq<u8>, password: Seq<u8>) -> Result<(), AuthError> {
    if !email.contains(64u8) {
        Err(AuthError::Validation(ValidationError::InvalidEmail))
    } else if password.len() < MIN_PASSWORD_LEN {
        Err(AuthError::Validation(ValidationError::PasswordTooShort))
    } else {
        Ok(())
    }
}

/// The token carries claims for `sub` that last exactly one lifetime.
pub open spec fn issued_for(token: Seq<char>, secret: Seq<u8>, sub: Seq<char>) -> bool {
    match jwt_decoded(token, secret) {
        Ok(c) => c.0 == sub && c.2 == c.1 + TOKEN_LIFETIME,
        Err(_) => false,
    }
}

/// The response describes `user` and holds a token issued for its identifier.
pub open spec fn responds_for(resp: AuthResponse, user: User, secret: Seq<u8>) -> bool {
    &&& resp.user.id == user.id
    &&& resp.user.email@ == user.email@
    &&& resp.user.created_at == user.created_at
    &&& issued_for(resp.token@, secret, uuid_text(user.id))
}

/// How a login is refused before any token is made: an unknown email and a
/// wrong password give the same outcome.
pub open spec fn login_refusal(rows: Seq<User>, email: Seq<char>, password: Seq<char>) -> Option<AuthError> {
    if !has_email(rows, email) {
        Some(AuthError::InvalidCredentials)
    } else if !digest_matches(password, row_with_email(rows, email).password_hash@) {
        Some(AuthError::InvalidCredentials)
    } else {
        None
    }
}

/// The digest is not the password itself, unless the password has the shape
/// of a digest (60 characters starting with `$`).
pub open spec fn differs_from_password(password: Seq<char>, digest: Seq<char>) -> bool {
    !(password.len() == 60 && password[0] == '$') ==> digest != password
}

/// A successful registration added exactly one row, for this email, whose
/// digest verifies the password and is not the password, and the response
/// describes that row.
pub open spec fn registered(before: Seq<User>, after: Seq<User>, email: Seq<char>, password: Seq<char>, resp: AuthResponse, secret: Seq<u8>) -> bool {
    let u = after.last();
    &&& after == before.push(u)
    &&& !has_email(before, email)
    &&& u.email@ == email
    &&& digest_matches(password, u.password_hash@)
    &&& differs_from_password(password, u.password_hash@)
    &&& responds_for(resp, u, secret)
}

/// Whether the text holds an `@`.
pub fn contains_at_sign(s: &str) -> (r: bool)
    ensures
        r == s.spec_bytes().contains(64u8),
{
    let b = s.as_bytes();
    let mut i: usize = 0;
    while i < b.len()
        invariant
            b@ == s.spec_bytes(),
            0 <= i <= b@.len(),
            forall|k: int| 0 <= k < i ==> b@[k] != 64u8,
        decreases b@.len() - i,
    {
        if b[i] == 64u8 {
            assert(b@[i as int] == 64u8);
            return true;
        }
        i += 1;
    }
    false
}

/// The input checks of registration, made before any storage work.
pub fn validate_signup(req: &SignupRequest) -> (r: Result<(), AuthError>)
    ensures
        r == signup_validation(encode_utf8(req.email@), encode_utf8(req.password@)),
{
    if !contains_at_sign(req.email.as_str()) {
        return Err(AuthError::Validation(ValidationError::InvalidEmail));
    }
    if req.password.as_str().as_bytes().len() < MIN_PASSWORD_LEN {
        return Err(AuthError::Validation(ValidationError::PasswordTooShort));
    }
    Ok(())
}

/// The registration step after the lookup by email: a row already holding the
/// email is a conflict, a failed lookup a storage error; otherwise the password
/// is hashed.
pub fn prepare_signup(req: &SignupRequest, existing: Result<bool, StorageError>) -> (r: Result<String, AuthError>)
    ensures
        existing matches Err(e) ==> r == Err::<String, AuthError>(AuthError::Storage(e)),
        existing == Ok::<bool, StorageError>(true) ==> r == Err::<String, AuthError>(AuthError::Conflict),
        existing == Ok::<bool, StorageError>(false) ==> (r matches Ok(d) ==> digest_matches(req.password@, d@)),
        existing == Ok::<bool, StorageError>(false) ==> (r matches Ok(d) ==> differs_from_password(req.password@, d@)),
        existing == Ok::<bool, StorageError>(false) ==> (r matches Err(e) ==> e == AuthError::Hashing),
{
    match existing {
        Err(e) => Err(AuthError::Storage(e)),
        Ok(true) => Err(AuthError::Conflict),
        Ok(false) => hash_password(req.password.as_str()),
    }
}

/// Issues tokens and runs the registration and login flows.
pub struct AuthService {
    jwt_secret: String,
}

impl AuthService {
    /// The signing secret, as bytes.
    pub closed spec fn secret(&self) -> Seq<u8> {
        encode_utf8(self.jwt_secret@)
    }

    pub fn new(jwt_secret: String) -> (r: AuthService)
        ensures
            r.secret() == encode_utf8(jwt_secret@),
    {
        AuthService { jwt_secret }
    }

    /// A token for the user's identifier, issued now and valid for one lifetime.
    pub fn generate_token(&self, user_id: u128) -> (r: Result<String, AuthError>)
        ensures
            r matches Ok(t) && issued_for(t@, self.secret(), uuid_text(user_id)),
    {
        let now = now_epoch();
        let sub = id_text(user_id);
        match issue_token(self.jwt_secret.as_str(), sub.as_str(), now) {
            Ok(t) => Ok(t),
            Err(e) => Err(AuthError::Token(e)),
        }
    }

    /// The response for a user, with a fresh token.
    fn respond(&self, user: &User) -> (r: Result<AuthResponse, AuthError>)
        ensures
            r matches Ok(resp) && responds_for(resp, *user, self.secret()),
    {
        let token = self.generate_token(user.id);
        match token {
            Ok(t) => Ok(AuthResponse { user: UserResponse::from_user(user), token: t }),
            Err(e) => Err(e),
        }
    }

    /// The registration step after the insert: a uniqueness violation is the
    /// same conflict as a row found beforehand; a created row gets a token.
    pub fn complete_signup(&self, created: Result<User, StorageError>) -> (r: Result<AuthResponse, AuthError>)
        ensures
            created == Err::<User, StorageError>(StorageError::UniqueViolation) ==> r == Err::<AuthResponse, AuthError>(AuthError::Conflict),
            created matches Err(e) ==> (e != StorageError::UniqueViolation ==> r == Err::<AuthResponse, AuthError>(AuthError::Storage(e))),
            created matches Ok(u) ==> (r matches Ok(resp) && responds_for(resp, u, self.secret())),
    {
        match created {
            Err(StorageError::UniqueViolation) => Err(AuthError::Conflict),
            Err(e) => Err(AuthError::Storage(e)),
            Ok(u) => self.respond(&u),
        }
    }

    /// The login step after the lookup by email: an unknown email and a wrong
    /// password are the same refusal.
    pub fn complete_signin(&self, req: &SigninRequest, found: Result<Option<User>, StorageError>) -> (r: Result<AuthResponse, AuthError>)
        ensures
            found matches Err(e) ==> r == Err::<AuthResponse, AuthError>(AuthError::Storage(e)),
            found matches Ok(None) ==> r == Err::<AuthResponse, AuthError>(AuthError::InvalidCredentials),
            found matches Ok(Some(u)) ==> (!digest_matches(req.password@, u.password_hash@)
                ==> r == Err::<AuthResponse, AuthError>(AuthError::InvalidCredentials)),
            found matches Ok(Some(u)) ==> (digest_matches(req.password@, u.password_hash@)
                ==> (r matches Ok(resp) && responds_for(resp, u, self.secret()))),
    {
        match found {
            Err(e) => Err(AuthError::Storage(e)),
            Ok(None) => Err(AuthError::InvalidCredentials),
            Ok(Some(u)) => {
                if !verify_password(req.password.as_str(), u.password_hash.as_str()) {
                    return Err(AuthError::InvalidCredentials);
                }
                self.respond(&u)
            },
        }
    }

    /// Registration against a user table, with the identifier and time for the
    /// new row given: validate, check uniqueness, hash, insert, issue a token.
    pub fn register(&self, users: &mut UserTable, req: SignupRequest, id: u128, now: i64) -> (r: Result<AuthResponse, AuthError>)
        requires
            old(users).wf(),
        ensures
            final(users).wf(),
            r is Err ==> final(users).rows() == old(users).rows(),
            signup_validation(encode_utf8(req.email@), encode_utf8(req.password@)) matches Err(e)
                ==> r == Err::<AuthResponse, AuthError>(e),
            signup_validation(encode_utf8(req.email@), encode_utf8(req.password@)) is Ok && has_email(old(users).rows(), req.email@)
                ==> r == Err::<AuthResponse, AuthError>(AuthError::Conflict),
            signup_validation(encode_utf8(req.email@), encode_utf8(req.password@)) is Ok && !has_email(old(users).rows(), req.email@)
                && has_id(old(users).rows(), id)
                ==> r == Err::<AuthResponse, AuthError>(AuthError::Conflict) || r == Err::<AuthResponse, AuthError>(AuthError::Hashing),
            signup_validation(encode_utf8(req.email@), encode_utf8(req.password@)) is Ok && !has_email(old(users).rows(), req.email@)
                && !has_id(old(users).rows(), id)
                ==> r is Ok || r == Err::<AuthResponse, AuthError>(AuthError::Hashing),
            r matches Ok(resp) ==> registered(old(users).rows(), final(users).rows(), req.email@, req.password@, resp, self.secret())
                && final(users).rows().last().id == id && final(users).rows().last().created_at == now,
    {
        match validate_signup(&req) {
            Err(e) => return Err(e),
            Ok(()) => {},
        }
        let existing = users.find_by_email(req.email.as_str()).is_some();
        let digest = match prepare_signup(&req, Ok(existing)) {
            Ok(d) => d,
            Err(e) => return Err(e),
        };
        let user = User { id, email: req.email.clone(), password_hash: digest, created_at: now, updated_at: now };
        let kept = user.copy();
        let created = match users.insert(user) {
            Ok(()) => Ok(kept),
            Err(e) => Err(e),
        };
        assert(created is Ok ==> users.rows().last() == kept);
        self.complete_signup(created)
    }

    /// Registration against a user table, with a new random identifier.
    pub fn signup(&self, users: &mut UserTable, req: SignupRequest) -> (r: Result<AuthResponse, AuthError>)
        requires
            old(users).wf(),
        ensures
            final(users).wf(),
            r is Err ==> final(users).rows() == old(users).rows(),
            signup_validation(encode_utf8(req.email@), encode_utf8(req.password@)) matches Err(e)
                ==> r == Err::<AuthResponse, AuthError>(e),
            signup_validation(encode_utf8(req.email@), encode_utf8(req.password@)) is Ok && has_email(old(users).rows(), req.email@)
                ==> r == Err::<AuthResponse, AuthError>(AuthError::Conflict),
            signup_validation(encode_utf8(req.email@), encode_utf8(req.password@)) is Ok && !has_email(old(users).rows(), req.email@)
                ==> r is Ok || r == Err::<AuthResponse, AuthError>(AuthError::Hashing) || r == Err::<AuthResponse, AuthError>(AuthError::Conflict),
            signup_validation(encode_utf8(req.email@), encode_utf8(req.password@)) is Ok && old(users).rows().len() == 0
                ==> r is Ok || r == Err::<AuthResponse, AuthError>(AuthError::Hashing),
            r matches Ok(resp) ==> registered(old(users).rows(), final(users).rows(), req.email@, req.password@, resp, self.secret())
                && !has_id(old(users).rows(), final(users).rows().last().id),
    {
        let id = fresh_id();
        let now = now_seconds();
        self.register(users, req, id, now)
    }

    /// Login against a user table.
    pub fn signin(&self, users: &UserTable, req: SigninRequest) -> (r: Result<AuthResponse, AuthError>)
        requires
            users.wf(),
        ensures
            login_refusal(users.rows(), req.email@, req.password@) matches Some(e) ==> r == Err::<AuthResponse, AuthError>(e),
            login_refusal(users.rows(), req.email@, req.password@) is None ==>
                (r matches Ok(resp) && responds_for(resp, row_with_email(users.rows(), req.email@), self.secret())),
    {
        let found = users.find_by_email(req.email.as_str());
        self.complete_signin(&req, Ok(found))
    }

    /// Checks a token's signature, structure and expiry against the clock.
    pub fn verify_token(&self, token: &str) -> (r: Result<Claims, AuthError>)
        ensures
            r matches Ok(c) ==> jwt_decoded(token@, self.secret()) == Ok::<(Seq<char>, u64, u64), bool>((c.sub@, c.iat, c.exp)),
            jwt_decoded(token@, self.secret()) == Err::<(Seq<char>, u64, u64), bool>(true)
                ==> r == Err::<Claims, AuthError>(AuthError::Token(TokenError::BadSignature)),
            jwt_decoded(token@, self.secret()) == Err::<(Seq<char>, u64, u64), bool>(false)
                ==> r == Err::<Claims, AuthError>(AuthError::Token(TokenError::Malformed)),
            jwt_decoded(token@, self.secret()) is Ok
                ==> (r is Ok || r == Err::<Claims, AuthError>(AuthError::Token(TokenError::Expired))),
            jwt_decoded(token@, self.secret()) matches Ok(c) && c.2 >= i64::MAX ==> r is Ok,
    {
        let now = now_epoch();
        match verify_token_at(self.jwt_secret.as_str(), token, now) {
            Ok(c) => Ok(c),
            Err(e) => Err(AuthError::Token(e)),
        }
    }
}

/// Login with an unknown email and login with a known email and a wrong
/// password are refused alike.
pub proof fn lemma_login_failures_alike(
    rows: Seq<User>,
    unknown: Seq<char>,
    any_password: Seq<char>,
    known: Seq<char>,
    wrong_password: Seq<char>,
)
    requires
        !has_email(rows, unknown),
        has_email(rows, known),
        !digest_matches(wrong_password, row_with_email(rows, known).password_hash@),
    ensures
        login_refusal(rows, unknown, any_password) == login_refusal(rows, known, wrong_password),
        login_refusal(rows, unknown, any_password) == Some(AuthError::InvalidCredentials),
{
}

} // verus!
