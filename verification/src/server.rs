//! What the server listens on and where it redirects from, decided from the
//! configuration.

use vstd::prelude::*;

use crate::config::Config;

verus! {

/// The host of a URL.
#[derive(Debug)]
pub enum Host {
    /// A domain name, to be resolved.
    Domain(String),
    /// An IPv4 address, as the big-endian number of its four octets.
    Ipv4(u32),
    /// An IPv6 address, as the big-endian number of its sixteen octets.
    Ipv6(u128),
}

impl Clone for Host {
    fn clone(&self) -> (c: Self)
        ensures
            c == *self,
    {
        match self {
            Host::Domain(d) => Host::Domain(d.clone()),
            Host::Ipv4(a) => Host::Ipv4(*a),
            Host::Ipv6(a) => Host::Ipv6(*a),
        }
    }
}

/// The host of a URL, as mathematical values.
pub enum HostView {
    Domain(Seq<char>),
    Ipv4(u32),
    Ipv6(u128),
}

impl View for Host {
    type V = HostView;

    open spec fn view(&self) -> HostView {
        match self {
            Host::Domain(d) => HostView::Domain(d@),
            Host::Ipv4(a) => HostView::Ipv4(*a),
            Host::Ipv6(a) => HostView::Ipv6(*a),
        }
    }
}

/// What the server reads of a parsed URL.
#[derive(Debug)]
pub struct UrlParts {
    /// The serialization of the URL.
    pub text: String,
    /// The scheme, in lower case.
    pub scheme: String,
    /// The host, where the URL has one.
    pub host: Option<Host>,
    /// The port given in the URL, if any.
    pub explicit_port: Option<u16>,
    /// The port: the one given, else the default of the scheme where it is
    /// known.
    pub port: Option<u16>,
}

/// A parsed URL, as mathematical values.
pub struct UrlView {
    pub text: Seq<char>,
    pub scheme: Seq<char>,
    pub host: Option<HostView>,
    pub explicit_port: Option<u16>,
    pub port: Option<u16>,
}

impl View for UrlParts {
    type V = UrlView;

    open spec fn view(&self) -> UrlView {
        UrlView {
            text: self.text@,
            scheme: self.scheme@,
            host: match self.host {
                Some(h) => Some(h@),
                None => None,
            },
            explicit_port: self.explicit_port,
            port: self.port,
        }
    }
}

/// What `url::Url::parse` makes of `input`: the message of its error where it
/// refuses the input, else the serialization, scheme, host and port
/// (`port_or_known_default`) of the URL.
pub uninterp spec fn parsed_url(input: Seq<char>) -> Result<UrlView, Seq<char>>;

/// The port that `url` knows for a scheme: 80 for `http` and `ws`, 443 for
/// `https` and `wss`, 21 for `ftp`.
pub open spec fn default_port(scheme: Seq<char>) -> Option<u16> {
    if scheme == "http"@ || scheme == "ws"@ {
        Some(80)
    } else if scheme == "https"@ || scheme == "wss"@ {
        Some(443)
    } else if scheme == "ftp"@ {
        Some(21)
    } else {
        None
    }
}

/// `url::Url::parse`, with the parts of the URL that the server reads
/// (`as_str`, `scheme`, `host`, `port`, `port_or_known_default`) converted to
/// plain values, and its error converted to its message (`Display`); its
/// result is named by `parsed_url`. `port_or_known_default` is the given port,
/// else `default_port` of the scheme.
#[verifier::external_body]
fn parse_url(input: &str) -> (res: Result<UrlParts, String>)
    ensures
        match res {
            Ok(u) => parsed_url(input@) == Ok::<UrlView, Seq<char>>(u@),
            Err(m) => parsed_url(input@) == Err::<UrlView, Seq<char>>(m@),
        },
        res matches Ok(u) ==> u.port == match u.explicit_port {
            Some(p) => Some(p),
            None => default_port(u.scheme@),
        },
{
    let url = url::Url::parse(input).map_err(|e| e.to_string())?;
    let host = url.host().map(|h| match h {
        url::Host::Domain(d) => Host::Domain(d.to_string()),
        url::Host::Ipv4(a) => Host::Ipv4(u32::from(a)),
        url::Host::Ipv6(a) => Host::Ipv6(u128::from(a)),
    });
    Ok(UrlParts {
        text: url.as_str().to_string(),
        scheme: url.scheme().to_string(),
        host,
        explicit_port: url.port(),
        port: url.port_or_known_default(),
    })
}

/// Why a server could not be set up from its configuration.
#[derive(Debug, PartialEq, Eq)]
pub enum ServerError {
    /// The URL could not be parsed; the message says why.
    InvalidUrl(String),
    /// The URL has no host name.
    NoHost,
    /// The URL has no port number, and its scheme has no known default.
    NoPort,
}

impl ServerError {
    /// The message of the error.
    pub fn message(&self) -> (m: String)
        ensures
            m@ == match self {
                ServerError::InvalidUrl(why) => why@,
                ServerError::NoHost => "No host name in the URL"@,
                ServerError::NoPort => "No port number in the URL"@,
            },
    {
        match self {
            ServerError::InvalidUrl(why) => why.clone(),
            ServerError::NoHost => String::from_str("No host name in the URL"),
            ServerError::NoPort => String::from_str("No port number in the URL"),
        }
    }
}

/// The host and port to bind: a domain is resolved to its addresses, an
/// address is taken as it is.
#[derive(Debug)]
pub struct SocketTarget {
    pub host: Host,
    pub port: u16,
}

/// The target of a parsed URL: its host and port, or why there is none.
pub open spec fn url_target(u: UrlView) -> Result<(HostView, u16), ServerError> {
    match u.host {
        None => Err(ServerError::NoHost),
        Some(h) => match u.port {
            None => Err(ServerError::NoPort),
            Some(p) => Ok((h, p)),
        },
    }
}

/// Whether a parsed URL asks for TLS: its scheme is `https`.
pub open spec fn url_uses_tls(u: UrlView) -> bool {
    u.scheme == "https"@
}

/// How one of the redirecting URLs is served.
#[derive(Debug)]
pub enum Redirect {
    /// The URL cannot be parsed: it is skipped.
    Skip(String),
    /// The URL is served, over TLS or not; the target is where to bind, or why
    /// the URL gives none.
    Bind { url: UrlParts, target: Result<SocketTarget, ServerError>, tls: bool },
}

/// What `redirect_for` says of one redirecting URL.
pub open spec fn redirect_matches(r: Redirect, input: Seq<char>) -> bool {
    match parsed_url(input) {
        Err(_) => r matches Redirect::Skip(s) && s@ == input,
        Ok(u) => match r {
            Redirect::Bind { url, target, tls } => {
                &&& url@ == u
                &&& tls == url_uses_tls(u)
                &&& match url_target(u) {
                    Ok((h, p)) => target matches Ok(t) && t.host@ == h && t.port == p,
                    Err(e) => target == Err::<SocketTarget, ServerError>(e),
                }
            },
            Redirect::Skip(_) => false,
        },
    }
}

/// The server set up from its configuration: the URL it listens on.
pub struct Server {
    pub config: Config,
    pub url: UrlParts,
    /// Where the main server binds.
    pub target: SocketTarget,
}

fn is_https(scheme: &String) -> (r: bool)
    ensures
        r == (scheme@ == "https"@),
{
    let https = String::from_str("https");
    *scheme == https
}

impl Server {
    /// The host and port of a URL, for binding.
    pub fn url_to_socket_addrs(url: &UrlParts) -> (res: Result<SocketTarget, ServerError>)
        ensures
            match url_target(url@) {
                Ok((h, p)) => res matches Ok(t) && t.host@ == h && t.port == p,
                Err(e) => res == Err::<SocketTarget, ServerError>(e),
            },
            res matches Ok(t) ==> url@.host == Some(t.host@) && url@.port == Some(t.port),
            res is Ok <==> (url@.host is Some && url@.port is Some),
            url@.host is None ==> res == Err::<SocketTarget, ServerError>(ServerError::NoHost),
            (url@.host is Some && url@.port is None) ==> res == Err::<SocketTarget, ServerError>(
                ServerError::NoPort,
            ),
    {
        let host = match &url.host {
            Some(h) => h.clone(),
            None => {
                return Err(ServerError::NoHost);
            },
        };
        let port = match url.port {
            Some(p) => p,
            None => {
                return Err(ServerError::NoPort);
            },
        };
        Ok(SocketTarget { host, port })
    }

    /// Sets the server up from the configuration: the URL must parse and give
    /// a host and a port.
    pub fn from_config(config: &Config) -> (res: Result<Server, ServerError>)
        ensures
            match parsed_url(config.server.url@) {
                Err(m) => res matches Err(ServerError::InvalidUrl(why)) && why@ == m,
                Ok(u) => match url_target(u) {
                    Err(e) => res == Err::<Server, ServerError>(e),
                    Ok((h, p)) => res matches Ok(s) && s.url@ == u && s.target.host@ == h
                        && s.target.port == p && s.config.same_as(config) && u.port == match u.explicit_port {
                        Some(x) => Some(x),
                        None => default_port(u.scheme),
                    },
                },
            },
            res matches Ok(s) ==> parsed_url(config.server.url@) == Ok::<UrlView, Seq<char>>(s.url@)
                && s.url@.host == Some(s.target.host@) && s.url@.port == Some(s.target.port),
            res matches Ok(s) ==> s.url@.port == match s.url@.explicit_port {
                Some(x) => Some(x),
                None => default_port(s.url@.scheme),
            },
    {
        let url = match parse_url(config.server.url.as_str()) {
            Ok(u) => u,
            Err(why) => {
                return Err(ServerError::InvalidUrl(why));
            },
        };
        let target = match Server::url_to_socket_addrs(&url) {
            Ok(t) => t,
            Err(e) => {
                return Err(e);
            },
        };
        Ok(Server { config: config.clone(), url, target })
    }

    /// Where the redirecting servers send their clients: the URL of the main
    /// server.
    pub fn redirect_location(&self) -> (location: String)
        ensures
            location@ == self.url.text@,
    {
        self.url.text.clone()
    }

    /// Whether the main server serves over TLS.
    pub fn uses_tls(&self) -> (r: bool)
        ensures
            r == url_uses_tls(self.url@),
    {
        is_https(&self.url.scheme)
    }

    /// How each redirecting URL of the configuration is served, in order.
    pub fn redirects(&self) -> (plan: Vec<Redirect>)
        ensures
            plan.len() == self.config.server.redirect_from.len(),
            forall|i: int|
                0 <= i < plan.len() ==> redirect_matches(
                    #[trigger] plan@[i],
                    self.config.server.redirect_from@[i]@,
                ),
            forall|i: int|
                0 <= i < plan.len() ==> (#[trigger] plan@[i] matches Redirect::Skip(_)) == (
                parsed_url(self.config.server.redirect_from@[i]@) is Err),
            forall|i: int|
                0 <= i < plan.len() ==> (#[trigger] plan@[i] matches Redirect::Bind {
                    url,
                    target,
                    tls,
                } ==> {
                    &&& parsed_url(self.config.server.redirect_from@[i]@) == Ok::<
                        UrlView,
                        Seq<char>,
                    >(url@)
                    &&& url@.port == match url@.explicit_port {
                        Some(x) => Some(x),
                        None => default_port(url@.scheme),
                    }
                    &&& tls == (url@.scheme == "https"@)
                    &&& target matches Ok(t) ==> url@.host == Some(t.host@) && url@.port == Some(
                        t.port,
                    )
                    &&& target is Err ==> (url@.host is None || url@.port is None)
                }),
    {
        let urls = &self.config.server.redirect_from;
        let mut plan: Vec<Redirect> = Vec::new();
        for i in 0..urls.len()
            invariant
                plan.len() == i,
                forall|j: int| 0 <= j < i ==> redirect_matches(#[trigger] plan@[j], urls@[j]@),
                forall|j: int|
                    0 <= j < i ==> (#[trigger] plan@[j] matches Redirect::Skip(_)) == (parsed_url(
                        urls@[j]@,
                    ) is Err),
                forall|j: int|
                    0 <= j < i ==> (#[trigger] plan@[j] matches Redirect::Bind {
                        url,
                        target,
                        tls,
                    } ==> {
                        &&& parsed_url(urls@[j]@) == Ok::<UrlView, Seq<char>>(url@)
                        &&& url@.port == match url@.explicit_port {
                            Some(x) => Some(x),
                            None => default_port(url@.scheme),
                        }
                        &&& tls == (url@.scheme == "https"@)
                        &&& target matches Ok(t) ==> url@.host == Some(t.host@) && url@.port
                            == Some(t.port)
                        &&& target is Err ==> (url@.host is None || url@.port is None)
                    }),
        {
            let input = &urls[i];
            let r = match parse_url(input.as_str()) {
                Err(_) => Redirect::Skip(input.clone()),
                Ok(url) => {
                    let target = Server::url_to_socket_addrs(&url);
                    let tls = is_https(&url.scheme);
                    Redirect::Bind { url, target, tls }
                },
            };
            plan.push(r);
        }
        plan
    }
}

/// The bind target of a parsed URL is its own host and port, unchanged: a URL
/// with both has exactly that target, and a URL without one of them has none.
pub proof fn lemma_url_target_is_host_and_port(u: UrlView)
    ensures
        (u.host is Some && u.port is Some) ==> url_target(u) == Ok::<(HostView, u16), ServerError>(
            (u.host->0, u.port->0),
        ),
        url_target(u) matches Ok((h, p)) ==> u.host == Some(h) && u.port == Some(p),
        u.host is None ==> url_target(u) == Err::<(HostView, u16), ServerError>(
            ServerError::NoHost,
        ),
        (u.host is Some && u.port is None) ==> url_target(u) == Err::<(HostView, u16), ServerError>(
            ServerError::NoPort,
        ),
{
}

/// A planned redirect is bound where its URL says: the URL is the parse of
/// the configured text, and a bind target is that URL's host and port.
pub proof fn lemma_redirect_entry(r: Redirect, input: Seq<char>)
    requires
        redirect_matches(r, input),
    ensures
        r is Skip ==> parsed_url(input) is Err,
        r matches Redirect::Bind { url: u, target: tg, tls: b } ==> {
            &&& parsed_url(input) == Ok::<UrlView, Seq<char>>(u@)
            &&& b == (u@.scheme == "https"@)
            &&& tg matches Ok(t) ==> u@.host == Some(t.host@) && u@.port == Some(t.port)
        },
{
}

} // verus!
