use std::path::PathBuf;

use webapp::config::{Config, LogConfig, PostgresConfig, ServerConfig};
use webapp::login::{login_credentials, login_credentials_at, LoginError};
use webapp::protocol::{LoginCredentials, Session};
use webapp::server::{Host, Redirect, Server, ServerError};
use webapp::token::{Token, TokenError};

fn config_with(url: &str, redirect_from: Vec<String>) -> Config {
    Config {
        server: ServerConfig {
            url: url.to_owned(),
            cert: PathBuf::from("tls/cert.pem"),
            key: PathBuf::from("tls/key.pem"),
            redirect_from,
        },
        log: LogConfig { actix_web: "info".to_owned(), webapp: "debug".to_owned() },
        postgres: PostgresConfig {
            host: "localhost".to_owned(),
            username: "username".to_owned(),
            password: "password".to_owned(),
            database: "database".to_owned(),
        },
    }
}

fn credentials(username: &str, password: &str) -> LoginCredentials {
    LoginCredentials { username: username.to_owned(), password: password.to_owned() }
}

#[test]
fn succeed_to_create_server_with_common_redirects() {
    // Given
    let url = "http://127.0.0.1:30665";
    let redirect_url = "http://127.0.0.1:30666".to_owned();
    let config = config_with(
        url,
        vec![redirect_url.clone(), "https://localhost:30667".to_owned(), "invalid".to_owned()],
    );

    // When
    let server = Server::from_config(&config).unwrap();
    let plan = server.redirects();

    // Then
    assert_eq!(server.url.text, "http://127.0.0.1:30665/");
    assert_eq!(server.redirect_location(), "http://127.0.0.1:30665/");
    assert!(!server.uses_tls());
    assert_eq!(plan.len(), 3);
    match &plan[0] {
        Redirect::Bind { url, target, tls } => {
            assert_eq!(url.text, "http://127.0.0.1:30666/");
            assert!(!tls);
            let t = target.as_ref().unwrap();
            assert!(matches!(t.host, Host::Ipv4(0x7f00_0001)));
            assert_eq!(t.port, 30666);
        }
        Redirect::Skip(_) => panic!("the first URL is valid"),
    }
    match &plan[1] {
        Redirect::Bind { target, tls, .. } => {
            assert!(tls);
            let t = target.as_ref().unwrap();
            assert!(matches!(&t.host, Host::Domain(d) if d == "localhost"));
            assert_eq!(t.port, 30667);
        }
        Redirect::Skip(_) => panic!("the second URL is valid"),
    }
    assert!(matches!(&plan[2], Redirect::Skip(s) if s == "invalid"));
}

// A login needs the password to equal the user name: the request with user
// name "username" and password "password" is refused, as the next test asserts,
// so no test expects that request to succeed.
#[test]
fn fail_to_login_with_wrong_credentials() {
    // Given
    let request = credentials("username", "password");

    // When
    let res = login_credentials(&request);

    // Then
    assert_eq!(res.unwrap_err().status_code(), 401);
}

#[test]
fn succeed_to_login_with_session() {
    // Given
    let request = credentials("username", "username");
    let session: Session = login_credentials(&request).unwrap();
    assert_eq!(session.token.len(), 211);

    // When
    let new_session = Session::new(&Token::verify(&session.token).unwrap());

    // Then
    assert_eq!(new_session.token.len(), 211);
}

#[test]
fn fail_to_login_with_wrong_session() {
    // Given
    let session = Session::new("wrong");

    // When
    let res = Token::verify(&session.token);

    // Then
    assert_eq!(res.unwrap_err().status_code(), 401);
}

const JTI: &str = "0f8fad5b-d9cb-469f-a165-70867728950e";

#[test]
fn login_accepts_equal_non_empty_credentials() {
    let session = login_credentials(&credentials("a", "a")).unwrap();
    assert_eq!(session.token.split('.').count(), 3);
    assert!(Token::verify(&session.token).is_ok());
    let at = login_credentials_at(&credentials("user", "user"), Some(1_700_000_000), JTI.to_owned())
        .unwrap();
    assert_eq!(at.token, Token::create_at("user", Some(1_700_000_000), JTI.to_owned()).unwrap());
}

#[test]
fn login_refuses_empty_or_different_credentials() {
    for (u, p) in [("", ""), ("a", ""), ("", "a"), ("a", "b"), ("username", "password")] {
        assert_eq!(login_credentials(&credentials(u, p)), Err(LoginError::WrongCredentials));
    }
    assert_eq!(LoginError::WrongCredentials.message(), "wrong username or password");
    assert_eq!(LoginError::WrongCredentials.status_code(), 401);
}

#[test]
fn login_without_a_usable_clock_fails_to_make_a_token() {
    let res = login_credentials_at(&credentials("user", "user"), None, JTI.to_owned());
    assert_eq!(res, Err(LoginError::TokenCreation));
    assert_eq!(LoginError::TokenCreation.status_code(), 500);
    let res = login_credentials_at(&credentials("user", "other"), None, JTI.to_owned());
    assert_eq!(res, Err(LoginError::WrongCredentials));
}

#[test]
fn server_listens_on_the_configured_address() {
    let server = Server::from_config(&config_with("http://127.0.0.1:8080", vec![])).unwrap();
    assert!(matches!(server.target.host, Host::Ipv4(0x7f00_0001)));
    assert_eq!(server.target.port, 8080);
    assert_eq!(server.url.explicit_port, Some(8080));
    assert!(!server.uses_tls());
    assert!(server.redirects().is_empty());
    assert_eq!(server.config.server.url, "http://127.0.0.1:8080");
}

#[test]
fn server_takes_the_default_port_of_the_scheme() {
    let server = Server::from_config(&config_with("https://localhost", vec![])).unwrap();
    assert!(matches!(&server.target.host, Host::Domain(d) if d == "localhost"));
    assert_eq!(server.url.explicit_port, None);
    assert_eq!(server.target.port, 443);
    assert!(server.uses_tls());
    let server = Server::from_config(&config_with("http://[::1]", vec![])).unwrap();
    assert!(matches!(server.target.host, Host::Ipv6(1)));
    assert_eq!(server.target.port, 80);
}

#[test]
fn server_refuses_unusable_urls() {
    assert_eq!(
        Server::from_config(&config_with("invalid", vec![])).err(),
        Some(ServerError::InvalidUrl("relative URL without a base".to_owned()))
    );
    assert_eq!(
        ServerError::InvalidUrl("relative URL without a base".to_owned()).message(),
        "relative URL without a base"
    );
    assert_eq!(
        Server::from_config(&config_with("unix:/run/socket", vec![])).err(),
        Some(ServerError::NoHost)
    );
    assert_eq!(
        Server::from_config(&config_with("foo://host", vec![])).err(),
        Some(ServerError::NoPort)
    );
    assert_eq!(ServerError::NoHost.message(), "No host name in the URL");
    assert_eq!(ServerError::NoPort.message(), "No port number in the URL");
}

#[test]
fn redirect_with_unusable_url_is_kept_with_its_error() {
    let config = config_with("http://127.0.0.1:8080", vec!["unix:/run/socket".to_owned()]);
    let plan = Server::from_config(&config).unwrap().redirects();
    assert_eq!(plan.len(), 1);
    match &plan[0] {
        Redirect::Bind { target, tls, .. } => {
            assert!(!tls);
            assert!(matches!(target, Err(ServerError::NoHost)));
        }
        Redirect::Skip(_) => panic!("the URL parses"),
    }
}

#[test]
fn log_filter_names_both_targets() {
    let config = config_with("http://127.0.0.1:8080", vec![]);
    assert_eq!(config.log.filter(), "webapp=debug,backend=debug");
}

#[test]
fn config_clone_keeps_every_value() {
    let config = config_with("http://127.0.0.1:8080", vec!["http://a".to_owned()]);
    let copy = config.clone();
    assert_eq!(copy.server.url, config.server.url);
    assert_eq!(copy.server.redirect_from, config.server.redirect_from);
    assert_eq!(copy.postgres.database, "database");
    assert_eq!(copy.log.actix_web, "info");
    assert_eq!(copy.server.cert, PathBuf::from("tls/cert.pem"));
    assert_eq!(copy.server.key, PathBuf::from("tls/key.pem"));
}

#[test]
fn token_errors_answer_with_their_status() {
    assert_eq!(TokenError::Create.status_code(), 500);
    assert_eq!(TokenError::Verify.status_code(), 401);
    assert_eq!(TokenError::Create.message(), "Token creation error");
    assert_eq!(TokenError::Verify.message(), "Token verification error");
}
