//! URLs, held as their serialized text; every question about a URL's parts is
//! answered by the `url` crate on that text.
use vstd::prelude::*;

use crate::net::IpAddress;

verus! {

/// A URL, held as the text the `url` crate serializes it to. Only the
/// functions below make one, so its text is always such a serialization.
pub struct Url {
    href: String,
}

impl View for Url {
    type V = Seq<char>;

    /// The URL's text.
    closed spec fn view(&self) -> Seq<char> {
        self.href@
    }
}

impl Url {
    /// The text is one the `url` crate serialized, so it parses back to itself.
    #[verifier::type_invariant]
    pub open spec fn is_serialized(self) -> bool {
        is_serialization(self@)
    }
}

/// The serialization of `url::Url::parse(input)`, or `None` when the text does not parse.
pub uninterp spec fn url_parse(input: Seq<char>) -> Option<Seq<char>>;

/// `url::Url::port` of the URL `href` parses to (`None` also when it does not parse).
pub uninterp spec fn url_port(href: Seq<char>) -> Option<u16>;

/// `url::Url::host_str` of the URL `href` parses to (`None` also when it does not parse).
pub uninterp spec fn url_host_str(href: Seq<char>) -> Option<Seq<char>>;

/// The address of the URL's host when `url::Url::host` is an IPv4 or IPv6 address.
pub uninterp spec fn url_host_ip(href: Seq<char>) -> Option<IpAddress>;

/// `url::Url::scheme` of the URL `href` parses to (`None` when it does not parse).
pub uninterp spec fn url_scheme(href: Seq<char>) -> Option<Seq<char>>;

/// `url::Url::path` of the URL `href` parses to (`None` when it does not parse).
pub uninterp spec fn url_path(href: Seq<char>) -> Option<Seq<char>>;

/// `url::Url::query` of the URL `href` parses to (`None` also when it does not parse).
pub uninterp spec fn url_query(href: Seq<char>) -> Option<Seq<char>>;

/// The serialization after `url::Url::set_port(Some(port))` on the URL `href`
/// parses to; `None` when `href` does not parse or `set_port` refuses.
pub uninterp spec fn url_with_port(href: Seq<char>, port: u16) -> Option<Seq<char>>;

/// The text is a serialization the `url` crate gives back unchanged when it
/// parses it again.
pub open spec fn is_serialization(href: Seq<char>) -> bool {
    url_parse(href) == Some(href)
}

/// Calls `url::Url::parse` and serializes the result.
/// Claimed: the result is a function of the input text, named `url_parse`;
/// `http://localhost` parses (its host is a valid domain and `http` a special
/// scheme); and the serialization parses back to itself, one of the invariants
/// that `url::Url::check_invariants` states every `Url` keeps.
#[verifier::external_body]
fn parse_url_text(input: &str) -> (r: Option<String>)
    ensures
        r matches Some(s) ==> url_parse(input@) == Some(s@),
        r is None ==> url_parse(input@) is None,
        input@ == "http://localhost"@ ==> r is Some,
        r matches Some(s) ==> is_serialization(s@),
{
    match ::url::Url::parse(input) {
        Ok(u) => Some(u.to_string()),
        Err(_) => None,
    }
}

/// Calls `url::Url::port` on the parsed URL.
/// Claimed: the result is a function of the text, named `url_port`; and setting
/// the port the URL already has leaves the URL as parsed. (`set_port` skips an
/// equal port, and a parsed URL never holds its scheme's default port.)
#[verifier::external_body]
fn port_of(href: &str) -> (r: Option<u16>)
    ensures
        r == url_port(href@),
        r matches Some(p) ==> (url_with_port(href@, p) is None || url_with_port(href@, p)
            == url_parse(href@)),
{
    match ::url::Url::parse(href) {
        Ok(u) => u.port(),
        Err(_) => None,
    }
}

/// Calls `url::Url::host_str` on the parsed URL.
/// Claimed: the result is a function of the text, named `url_host_str`.
#[verifier::external_body]
fn host_str_of(href: &str) -> (r: Option<String>)
    ensures
        r matches Some(s) ==> url_host_str(href@) == Some(s@),
        r is None ==> url_host_str(href@) is None,
{
    match ::url::Url::parse(href) {
        Ok(u) => match u.host_str() {
            Some(h) => Some(h.to_string()),
            None => None,
        },
        Err(_) => None,
    }
}

/// Calls `url::Url::host` on the parsed URL and keeps an IP address host.
/// Claimed: the result is a function of the text, named `url_host_ip`.
#[verifier::external_body]
fn host_ip_of(href: &str) -> (r: Option<IpAddress>)
    ensures
        r == url_host_ip(href@),
{
    let u = match ::url::Url::parse(href) {
        Ok(u) => u,
        Err(_) => return None,
    };
    match u.host() {
        Some(::url::Host::Ipv4(a)) => Some(IpAddress::V4(a.octets())),
        Some(::url::Host::Ipv6(a)) => Some(IpAddress::V6(a.segments())),
        Some(::url::Host::Domain(_)) => None,
        None => None,
    }
}

/// Calls `url::Url::scheme` on the parsed URL.
/// Claimed: the result is a function of the text, named `url_scheme`, and a
/// URL that parses has one.
#[verifier::external_body]
fn scheme_of(href: &str) -> (r: Option<String>)
    ensures
        r matches Some(s) ==> url_scheme(href@) == Some(s@),
        r is None ==> url_scheme(href@) is None && url_parse(href@) is None,
{
    match ::url::Url::parse(href) {
        Ok(u) => Some(u.scheme().to_string()),
        Err(_) => None,
    }
}

/// Calls `url::Url::path` on the parsed URL.
/// Claimed: the result is a function of the text, named `url_path`, and a URL
/// that parses has one.
#[verifier::external_body]
fn path_of(href: &str) -> (r: Option<String>)
    ensures
        r matches Some(s) ==> url_path(href@) == Some(s@),
        r is None ==> url_path(href@) is None && url_parse(href@) is None,
{
    match ::url::Url::parse(href) {
        Ok(u) => Some(u.path().to_string()),
        Err(_) => None,
    }
}

/// Calls `url::Url::query` on the parsed URL.
/// Claimed: the result is a function of the text, named `url_query`.
#[verifier::external_body]
fn query_of(href: &str) -> (r: Option<String>)
    ensures
        r matches Some(s) ==> url_query(href@) == Some(s@),
        r is None ==> url_query(href@) is None,
{
    match ::url::Url::parse(href) {
        Ok(u) => match u.query() {
            Some(q) => Some(q.to_string()),
            None => None,
        },
        Err(_) => None,
    }
}

/// Calls `url::Url::set_port(Some(port))` on the parsed URL and serializes it.
/// Claimed: the result is a function of the text and the port, named
/// `url_with_port`. Of a URL whose port was set: its scheme, host, path and
/// query are the ones it had (`set_port` rewrites only the text between host
/// and path); its port is `port`, or none when `port` is the scheme's default
/// (which `set_port` drops); it is a serialization that parses back to itself
/// (an invariant `url::Url::check_invariants` states); and setting the same
/// port again changes nothing.
#[verifier::external_body]
fn with_port_of(href: &str, port: u16) -> (r: Option<String>)
    ensures
        r matches Some(s) ==> url_with_port(href@, port) == Some(s@),
        r is None ==> url_with_port(href@, port) is None,
        r matches Some(s) ==> url_host_str(s@) == url_host_str(href@) && url_host_ip(s@)
            == url_host_ip(href@),
        r matches Some(s) ==> is_serialization(s@),
        r matches Some(s) ==> url_with_port(s@, port) == Some(s@),
        r matches Some(s) ==> url_scheme(s@) == url_scheme(href@) && url_path(s@) == url_path(
            href@,
        ) && url_query(s@) == url_query(href@),
        r matches Some(s) ==> (url_port(s@) == Some(port) || url_port(s@) is None),
{
    let mut u = match ::url::Url::parse(href) {
        Ok(u) => u,
        Err(_) => return None,
    };
    match u.set_port(Some(port)) {
        Ok(()) => Some(u.to_string()),
        Err(()) => None,
    }
}

impl Url {
    /// Parses `input`; `None` when it is not a URL.
    pub fn parse(input: &str) -> (r: Option<Url>)
        ensures
            r matches Some(u) ==> url_parse(input@) == Some(u@),
            r is None ==> url_parse(input@) is None,
            input@ == "http://localhost"@ ==> r is Some,
            r matches Some(u) ==> is_serialization(u@),
    {
        match parse_url_text(input) {
            Some(href) => Some(Url { href }),
            None => None,
        }
    }

    /// The URL `http://localhost` parses to.
    pub fn localhost() -> (u: Url)
        ensures
            url_parse("http://localhost"@) == Some(u@),
            is_serialization(u@),
    {
        match Url::parse("http://localhost") {
            Some(u) => u,
            None => {
                proof {
                    assert(false);
                }
                Url { href: String::new() }
            },
        }
    }

    /// The URL's explicit port (`None` when absent or the scheme's default).
    pub fn port(&self) -> (r: Option<u16>)
        ensures
            r == url_port(self@),
            r matches Some(p) ==> (url_with_port(self@, p) is None || url_with_port(self@, p)
                == url_parse(self@)),
    {
        port_of(self.href.as_str())
    }

    /// The URL's host as text.
    pub fn host_str(&self) -> (r: Option<String>)
        ensures
            r matches Some(s) ==> url_host_str(self@) == Some(s@),
            r is None ==> url_host_str(self@) is None,
    {
        host_str_of(self.href.as_str())
    }

    /// The URL's host when it is an IP address.
    pub fn host_ip(&self) -> (r: Option<IpAddress>)
        ensures
            r == url_host_ip(self@),
    {
        host_ip_of(self.href.as_str())
    }

    /// The URL with its port set to `port`; `None` when the URL cannot carry a port.
    pub fn with_port(&self, port: u16) -> (r: Option<Url>)
        ensures
            r matches Some(u) ==> url_with_port(self@, port) == Some(u@),
            r is None ==> url_with_port(self@, port) is None,
            r matches Some(u) ==> url_host_str(u@) == url_host_str(self@) && url_host_ip(u@)
                == url_host_ip(self@),
            r matches Some(u) ==> is_serialization(u@),
            r matches Some(u) ==> url_with_port(u@, port) == Some(u@),
            r matches Some(u) ==> url_scheme(u@) == url_scheme(self@) && url_path(u@) == url_path(
                self@,
            ) && url_query(u@) == url_query(self@),
            r matches Some(u) ==> (url_port(u@) == Some(port) || url_port(u@) is None),
    {
        match with_port_of(self.href.as_str(), port) {
            Some(href) => Some(Url { href }),
            None => None,
        }
    }

    /// The URL's scheme.
    pub fn scheme(&self) -> (r: String)
        ensures
            url_scheme(self@) == Some(r@),
    {
        proof {
            use_type_invariant(self);
        }
        match scheme_of(self.href.as_str()) {
            Some(s) => s,
            None => {
                proof {
                    assert(false);
                }
                String::new()
            },
        }
    }

    /// The URL's path.
    pub fn path(&self) -> (r: String)
        ensures
            url_path(self@) == Some(r@),
    {
        proof {
            use_type_invariant(self);
        }
        match path_of(self.href.as_str()) {
            Some(s) => s,
            None => {
                proof {
                    assert(false);
                }
                String::new()
            },
        }
    }

    /// The URL's query, if it has one.
    pub fn query(&self) -> (r: Option<String>)
        ensures
            r matches Some(q) ==> url_query(self@) == Some(q@),
            r is None ==> url_query(self@) is None,
    {
        query_of(self.href.as_str())
    }

    /// The URL's text.
    pub fn to_text(&self) -> (s: String)
        ensures
            s@ == self@,
    {
        self.href.clone()
    }
}

} // verus!
