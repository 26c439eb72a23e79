//! The configuration of the server.

use std::path::PathBuf;

use vstd::prelude::*;

verus! {

/// `std::path::PathBuf`, carried as an opaque value.
#[verifier::external_type_specification]
#[verifier::external_body]
pub struct ExPathBuf(PathBuf);

/// `PathBuf::clone`: the same path (`PathBuf` clones its bytes).
#[verifier::external_body]
fn clone_path(p: &PathBuf) -> (c: PathBuf)
    ensures
        c == *p,
{
    p.clone()
}

/// The whole configuration.
pub struct Config {
    pub server: ServerConfig,
    pub log: LogConfig,
    pub postgres: PostgresConfig,
}

/// Where and how the server listens.
pub struct ServerConfig {
    /// The URL the server listens on.
    pub url: String,
    /// The path of the server certificate.
    pub cert: PathBuf,
    /// The path of the server key.
    pub key: PathBuf,
    /// The URLs that redirect to the server.
    pub redirect_from: Vec<String>,
}

/// The logging levels.
pub struct LogConfig {
    /// The logging level of actix-web.
    pub actix_web: String,
    /// The logging level of the application.
    pub webapp: String,
}

/// The database connection.
pub struct PostgresConfig {
    pub host: String,
    pub username: String,
    pub password: String,
    pub database: String,
}

impl LogConfig {
    /// The logger filter: the application level for both the `webapp` and the
    /// `backend` targets.
    pub fn filter(&self) -> (f: String)
        ensures
            f@ == "webapp="@ + self.webapp@ + ",backend="@ + self.webapp@,
    {
        let mut f = String::from_str("webapp=");
        f.append(self.webapp.as_str());
        f.append(",backend=");
        f.append(self.webapp.as_str());
        f
    }
}

impl Config {
    /// Both configurations hold the same values.
    pub open spec fn same_as(&self, other: &Config) -> bool {
        &&& self.server.same_as(&other.server)
        &&& self.log == other.log
        &&& self.postgres == other.postgres
    }
}

impl ServerConfig {
    /// Both server configurations hold the same values.
    pub open spec fn same_as(&self, other: &ServerConfig) -> bool {
        &&& self.url == other.url
        &&& self.cert == other.cert
        &&& self.key == other.key
        &&& self.redirect_from@ == other.redirect_from@
    }
}

impl Clone for Config {
    fn clone(&self) -> (c: Self)
        ensures
            c.same_as(self),
    {
        Config { server: self.server.clone(), log: self.log.clone(), postgres: self.postgres.clone() }
    }
}

impl Clone for ServerConfig {
    fn clone(&self) -> (c: Self)
        ensures
            c.same_as(self),
    {
        let redirect_from = self.redirect_from.clone();
        assert forall|i: int| 0 <= i < redirect_from.len() implies redirect_from@[i]
            == self.redirect_from@[i] by {
            assert(vstd::pervasive::cloned::<String>(self.redirect_from[i], redirect_from[i]));
        }
        assert(redirect_from@ =~= self.redirect_from@);
        ServerConfig {
            url: self.url.clone(),
            cert: clone_path(&self.cert),
            key: clone_path(&self.key),
            redirect_from,
        }
    }
}

impl Clone for LogConfig {
    fn clone(&self) -> (c: Self)
        ensures
            c == *self,
    {
        LogConfig { actix_web: self.actix_web.clone(), webapp: self.webapp.clone() }
    }
}

impl Clone for PostgresConfig {
    fn clone(&self) -> (c: Self)
        ensures
            c == *self,
    {
        PostgresConfig {
            host: self.host.clone(),
            username: self.username.clone(),
            password: self.password.clone(),
            database: self.database.clone(),
        }
    }
}

} // verus!
