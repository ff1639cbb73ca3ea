//! Who a request comes from: the claims that a login token carries, and why a
//! login or a token is turned down. Signing and checking tokens is the
//! caller's business; what goes into one is decided here.

use vstd::prelude::*;

use crate::ident::Id;
use crate::models::user::User;
use crate::repositories::users::{UsersRepository, UsersState};
use crate::repositories::RepoError;

verus! {

/// For how many seconds a login is good.
pub const TOKEN_LIFETIME: u64 = 86400;

/// Why authentication failed.
#[derive(Debug, Clone, Copy, PartialEq, Eq, Structural)]
pub enum AuthError {
    TokenCreation,
    InvalidToken,
    InvalidCredentials,
}

impl AuthError {
    /// The HTTP status that reports the error.
    pub open spec fn status(self) -> u16 {
        match self {
            AuthError::TokenCreation => 500,
            AuthError::InvalidToken => 401,
            AuthError::InvalidCredentials => 401,
        }
    }

    /// The HTTP status that reports the error: a failure to make a token is
    /// the server's, every other error is the client's lack of authorization.
    pub fn status_code(&self) -> (status: u16)
        ensures
            status == self.status(),
    {
        match self {
            AuthError::TokenCreation => 500,
            AuthError::InvalidToken => 401,
            AuthError::InvalidCredentials => 401,
        }
    }

    /// The message that reports the error.
    pub fn message(&self) -> (message: &'static str)
        ensures
            message@ == match self {
                AuthError::TokenCreation => "Token creation error"@,
                AuthError::InvalidToken => "Invalid token"@,
                AuthError::InvalidCredentials => "Invalid credentials"@,
            },
    {
        match self {
            AuthError::TokenCreation => "Token creation error",
            AuthError::InvalidToken => "Invalid token",
            AuthError::InvalidCredentials => "Invalid credentials",
        }
    }
}

/// What a login token says: who the user is, and from when until when the
/// token is good, in seconds since the Unix epoch.
#[derive(Debug)]
pub struct Claims {
    pub exp: u64,
    pub nbf: u64,
    pub iat: u64,
    pub user_id: Id,
    pub username: String,
}

/// The name and password that a login presents.
#[derive(Debug)]
pub struct AuthorizeRequest {
    pub username: String,
    pub password: String,
}

/// The answer to a login: the signed token.
#[derive(Debug)]
pub struct AuthorizeResponse {
    pub token: String,
}

impl AuthorizeResponse {
    /// The answer that carries `token`.
    pub fn new(token: String) -> (response: AuthorizeResponse)
        ensures
            response.token == token,
    {
        AuthorizeResponse { token }
    }
}

/// The name and password that a registration presents.
#[derive(Debug)]
pub struct RegisterRequest {
    pub username: String,
    pub password: String,
}

impl Claims {
    /// The claims of a token issued to `user` at the time `now`: good from
    /// then on, for `TOKEN_LIFETIME` seconds.
    pub fn issue(user: &User, now: u64) -> (claims: Claims)
        requires
            now + TOKEN_LIFETIME <= u64::MAX,
        ensures
            claims.exp == now + TOKEN_LIFETIME,
            claims.nbf == now,
            claims.iat == now,
            claims.user_id == user.user_id,
            claims.username@ == user.username@,
    {
        Claims {
            exp: now + TOKEN_LIFETIME,
            nbf: now,
            iat: now,
            user_id: user.user_id,
            username: user.username.clone(),
        }
    }
}

/// What a login gives: the claims for the user of that name where the
/// password is the user's, and `InvalidCredentials` for an unknown name and
/// for a wrong password alike.
pub open spec fn logs_in(
    users: UsersState,
    result: Result<Claims, AuthError>,
    username: Seq<char>,
    password: Seq<char>,
    now: u64,
) -> bool {
    if users.has_name(username) && crate::repositories::users::password_hash(
        users.users[users.named_row(username)].user_id,
        password,
        users.users[users.named_row(username)].salt,
    ) == users.users[users.named_row(username)].password_hash {
        &&& result matches Ok(claims)
        &&& claims.user_id == users.users[users.named_row(username)].user_id
        &&& claims.username@ == username
        &&& claims.iat == now
        &&& claims.nbf == now
        &&& claims.exp == now + TOKEN_LIFETIME
    } else {
        result == Err::<Claims, AuthError>(AuthError::InvalidCredentials)
    }
}

/// Checks the name and password of a login at the time `now`.
pub fn login(users: &UsersRepository, data: &AuthorizeRequest, now: u64) -> (result: Result<
    Claims,
    AuthError,
>)
    requires
        users@.wf(),
        now + TOKEN_LIFETIME <= u64::MAX,
    ensures
        logs_in(users@, result, data.username@, data.password@, now),
{
    match users.verify(data.username.as_str(), data.password.as_str()) {
        Ok(Some(user)) => Ok(Claims::issue(&user, now)),
        Ok(None) => Err(AuthError::InvalidCredentials),
        Err(_) => Err(AuthError::InvalidCredentials),
    }
}

/// Registers a user. Whatever stands in the way, a taken name included, is
/// reported as `InvalidCredentials`.
pub fn register(users: &mut UsersRepository, data: RegisterRequest) -> (result: Result<
    (),
    AuthError,
>)
    requires
        old(users)@.wf(),
    ensures
        final(users)@.wf(),
        exists|user_id: Id, salt: Id, made: Result<User, RepoError>| #[trigger]
            old(users)@.registers(
                final(users)@,
                made,
                user_id,
                salt,
                data.username@,
                data.password@,
            ) && (result is Ok <==> made is Ok),
        result is Err ==> result == Err::<(), AuthError>(AuthError::InvalidCredentials),
{
    match users.create_user(data.username, data.password) {
        Ok(_) => Ok(()),
        Err(_) => Err(AuthError::InvalidCredentials),
    }
}

} // verus!
