//! Login with credentials: the rule that decides it, and the session token
//! that an accepted login is answered with.

use vstd::prelude::*;

use crate::protocol::{LoginCredentials, Session};
use crate::token::{
    creation, is_uuid_v4_text, token_claims, token_result, token_subject, Token, TokenError,
    TokenView, DEFAULT_TOKEN_VALIDITY,
};

verus! {

/// Why a login was refused.
#[derive(Debug, Clone, Copy, PartialEq, Eq, Structural)]
pub enum LoginError {
    /// The user name or the password is wrong.
    WrongCredentials,
    /// The credentials are right but no session token could be made.
    TokenCreation,
}

impl LoginError {
    /// The HTTP status code of the refusal: 401 (unauthorized) for wrong
    /// credentials, 500 where no token could be made.
    pub fn status_code(&self) -> (code: u16)
        ensures
            code == match self {
                LoginError::WrongCredentials => 401u16,
                LoginError::TokenCreation => 500u16,
            },
    {
        match self {
            LoginError::WrongCredentials => 401,
            LoginError::TokenCreation => 500,
        }
    }

    /// The message sent with the refusal.
    pub fn message(&self) -> (m: String)
        ensures
            m@ == match self {
                LoginError::WrongCredentials => "wrong username or password"@,
                LoginError::TokenCreation => "Token creation error"@,
            },
    {
        match self {
            LoginError::WrongCredentials => String::from_str("wrong username or password"),
            LoginError::TokenCreation => String::from_str("Token creation error"),
        }
    }
}

/// When a login with credentials is accepted: both the user name and the
/// password are non-empty and they are equal.
pub open spec fn credentials_accepted(username: Seq<char>, password: Seq<char>) -> bool {
    username.len() > 0 && password.len() > 0 && username == password
}

/// The answer to a login with the given credentials at the time `now` with
/// `jti` as the id of the session token: wrong credentials are refused, right
/// ones get the token that `Token::create_at` makes for the user.
pub open spec fn login_answer(
    username: Seq<char>,
    password: Seq<char>,
    now: Option<u64>,
    jti: Seq<char>,
) -> Result<Seq<char>, LoginError> {
    if !credentials_accepted(username, password) {
        Err(LoginError::WrongCredentials)
    } else {
        match creation(username, now, jti) {
            Ok(t) => Ok(t),
            Err(_) => Err(LoginError::TokenCreation),
        }
    }
}

/// The view of a login answer: the token of the session.
pub open spec fn login_result(r: Result<Session, LoginError>) -> Result<Seq<char>, LoginError> {
    match r {
        Ok(s) => Ok(s.token@),
        Err(e) => Err(e),
    }
}

/// Decides a login with credentials at the time `now_secs` (whole seconds
/// since the epoch, `None` where the clock is before it), with `jti` as the
/// id of the session token.
pub fn login_credentials_at(credentials: &LoginCredentials, now_secs: Option<u64>, jti: String) -> (res:
    Result<Session, LoginError>)
    ensures
        login_result(res) == login_answer(
            credentials.username@,
            credentials.password@,
            now_secs,
            jti@,
        ),
        (credentials_accepted(credentials.username@, credentials.password@) && (now_secs matches Some(
            n,
        ) && n <= i64::MAX - DEFAULT_TOKEN_VALIDITY)) ==> res is Ok,
        res matches Ok(s) ==> token_subject(s.token@) == Some(credentials.username@),
        res matches Ok(s) ==> (now_secs matches Some(n) && token_claims(s.token@) == Some(
            TokenView { sub: credentials.username@, exp: n + 3600, iat: n as int, jti: jti@ },
        )),
{
    if credentials.username.as_str().is_empty() || credentials.password.as_str().is_empty()
        || credentials.username != credentials.password {
        return Err(LoginError::WrongCredentials);
    }
    match Token::create_at(credentials.username.as_str(), now_secs, jti) {
        Ok(token) => Ok(Session { token }),
        Err(_) => Err(LoginError::TokenCreation),
    }
}

/// Decides a login with credentials; an accepted one is answered with a
/// session whose token names the user, issued now with a fresh random id.
pub fn login_credentials(credentials: &LoginCredentials) -> (res: Result<Session, LoginError>)
    ensures
        exists|now: Option<u64>, jti: Seq<char>|
            is_uuid_v4_text(jti) && #[trigger] login_result(res) == login_answer(
                credentials.username@,
                credentials.password@,
                now,
                jti,
            ),
        res matches Err(LoginError::WrongCredentials) <==> !credentials_accepted(
            credentials.username@,
            credentials.password@,
        ),
        res matches Ok(s) ==> token_subject(s.token@) == Some(credentials.username@),
        res matches Ok(s) ==> (token_claims(s.token@) matches Some(w) && w.sub
            == credentials.username@ && 0 <= w.iat && w.exp == w.iat + 3600 && is_uuid_v4_text(
            w.jti,
        )),
{
    let now = crate::token::clock_secs();
    let jti = crate::token::fresh_token_id();
    let ghost jti_view = jti@;
    let res = login_credentials_at(credentials, now, jti);
    proof {
        assert(login_result(res) == login_answer(
            credentials.username@,
            credentials.password@,
            now,
            jti_view,
        ));
    }
    res
}

} // verus!
