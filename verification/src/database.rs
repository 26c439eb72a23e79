//! The messages that the database executor answers.

use vstd::prelude::*;

use crate::protocol::Session;

verus! {

/// The create session message: stores a session that holds the token.
pub struct CreateSession(pub String);

impl CreateSession {
    /// The row that the message inserts.
    pub fn session(&self) -> (s: Session)
        ensures
            s.token@ == self.0@,
    {
        Session::new(self.0.as_str())
    }
}

/// The update session message: the session that holds `old_token` gets
/// `new_token`.
pub struct UpdateSession {
    /// The old session token.
    pub old_token: String,
    /// The new session token.
    pub new_token: String,
}

/// The delete session message: removes the session that holds the token.
pub struct DeleteSession(pub String);

} // verus!
