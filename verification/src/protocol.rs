//! The data exchanged with clients and stored for sessions.

use vstd::prelude::*;

verus! {

/// A login session.
#[derive(Debug)]
pub struct Session {
    /// The actual session token.
    pub token: String,
}

impl Session {
    /// The session that holds `token`.
    pub fn new(token: &str) -> (s: Session)
        ensures
            s.token@ == token@,
    {
        Session { token: String::from_str(token) }
    }
}

impl PartialEq for Session {
    fn eq(&self, other: &Session) -> (r: bool) {
        self.token == other.token
    }
}

impl vstd::std_specs::cmp::PartialEqSpecImpl for Session {
    open spec fn obeys_eq_spec() -> bool {
        true
    }

    open spec fn eq_spec(&self, other: &Session) -> bool {
        self.token@ == other.token@
    }
}

/// The answer to an accepted login: the session of the user.
pub struct Login(pub Session);

/// The credentials of a login request.
pub struct LoginCredentials {
    pub username: String,
    pub password: String,
}

} // verus!
