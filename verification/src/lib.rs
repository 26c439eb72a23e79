//! Verified core of the webapp backend: the credential rule, the session
//! token format and its signing round trip, the server's URL planning and the
//! configuration model.

pub mod base64;
pub mod claims;
pub mod config;
pub mod database;
pub mod json;
pub mod json_value;
pub mod login;
pub mod protocol;
pub mod server;
pub mod text;
pub mod token;

use vstd::prelude::*;

verus! {

/// Name of the configuration file that the programs read by default.
pub const CONFIG_FILENAME: &'static str = "Config.toml";

/// Route of the credential login endpoint.
pub const API_URL_LOGIN_CREDENTIALS: &'static str = "login/credentials";

/// Route of the session login endpoint.
pub const API_URL_LOGIN_SESSION: &'static str = "login/session";

/// Route of the logout endpoint.
pub const API_URL_LOGOUT: &'static str = "logout";

} // verus!
