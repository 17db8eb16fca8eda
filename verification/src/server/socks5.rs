//! What the SOCKS5 handler decides about a request: the name it routes by.

use vstd::prelude::*;
use url::Url;
use crate::router::router::UpstreamLookup;

verus! {

#[verifier::external_type_specification]
#[verifier::external_body]
pub struct ExUrl(Url);

#[verifier::external_type_specification]
#[verifier::external_body]
pub struct ExUrlParseError(url::ParseError);

/// Whether `Url::parse` accepts `text`.
pub uninterp spec fn url_parses(text: Seq<char>) -> bool;

/// The domain that `Url::domain` gives for the URL parsed from `text`.
pub uninterp spec fn url_domain_of(text: Seq<char>) -> Option<Seq<char>>;

/// Calls `Url::parse`. Claimed: it succeeds exactly when `url_parses` holds
/// of the text; the URL grammar is left to the name.
#[verifier::external_body]
fn parse_url(text: &str) -> (r: Result<Url, url::ParseError>)
    ensures
        r is Ok <==> url_parses(text@),
{
    Url::parse(text)
}

/// A URL, kept with the text it was parsed from.
pub struct ParsedUrl {
    text: String,
    url: Url,
}

impl ParsedUrl {
    /// The text the URL was parsed from.
    pub closed spec fn text(&self) -> Seq<char> {
        self.text@
    }
}

/// Calls `Url::domain` on the URL of `u`. Claimed: the result is
/// `url_domain_of` of the text it was parsed from, which holds since a
/// `ParsedUrl` is only made by parsing its text.
#[verifier::external_body]
fn url_domain(u: &ParsedUrl) -> (r: Option<String>)
    ensures
        match (r, url_domain_of(u.text())) {
            (Some(d), Some(e)) => d@ == e,
            (None, None) => true,
            _ => false,
        },
{
    u.url.domain().map(|d| d.to_string())
}

/// The domain of `url`, when it parses as a URL that has one.
pub open spec fn domain_of(url: Seq<char>) -> Option<Seq<char>> {
    if url_parses(url) {
        url_domain_of(url)
    } else {
        None
    }
}

/// The domain of `url`, when it parses as a URL that has one.
pub fn extract_domain(url: &str) -> (r: Option<String>)
    ensures
        match (r, domain_of(url@)) {
            (Some(d), Some(e)) => d@ == e,
            (None, None) => true,
            _ => false,
        },
{
    match parse_url(url) {
        Ok(parsed) => {
            let u = ParsedUrl { text: String::from_str(url), url: parsed };
            url_domain(&u)
        },
        Err(_) => None,
    }
}

/// The name a SOCKS5 target is routed and cached by: the domain of the
/// target when it parses as a URL with a domain, else the target itself.
pub open spec fn routing_key_of(target: Seq<char>) -> Seq<char> {
    match domain_of(target) {
        Some(d) => d,
        None => target,
    }
}

/// The name a SOCKS5 target is routed and cached by.
pub fn routing_key(target_addr: &str) -> (r: String)
    ensures
        r@ == routing_key_of(target_addr@),
{
    match extract_domain(target_addr) {
        Some(d) => d,
        None => String::from_str(target_addr),
    }
}

/// The request commands of SOCKS5.
#[derive(Debug, Clone, Copy, PartialEq, Eq, Structural)]
pub enum SocksCommand {
    TcpConnect,
    TcpBind,
    UdpAssociate,
}

/// What the proxy does with a SOCKS5 request.
#[derive(Debug, Clone, PartialEq, Eq)]
pub enum SocksPlan {
    /// Answer that the command is not supported, and end the request.
    Refuse,
    /// Serve the request: first run `command` if there is one, then cache
    /// `upstream` for the routing key if `cache` holds, then relay through
    /// `upstream`, or directly when there is none; over UDP if `udp` holds,
    /// else over TCP.
    Serve { upstream: Option<String>, command: Option<String>, cache: bool, udp: bool },
}

/// How a SOCKS5 request is served, given its command and where the router
/// sends its routing key: a bind request is refused; otherwise a cached
/// upstream is used as it is, a routed upstream is used after its command
/// has run and is then cached, and an unrouted key is reached directly.
pub fn plan_socks_request(command: SocksCommand, lookup: UpstreamLookup) -> (r: SocksPlan)
    ensures
        command == SocksCommand::TcpBind ==> r == SocksPlan::Refuse,
        command != SocksCommand::TcpBind ==> (r matches SocksPlan::Serve { upstream, command: c, cache, udp } && udp
            == (command == SocksCommand::UdpAssociate) && match lookup {
            UpstreamLookup::Cached(u) => upstream == Some(u) && c is None && !cache,
            UpstreamLookup::Routed { upstream: u, command: d } => upstream == Some(u) && c == d && cache,
            UpstreamLookup::Unrouted => upstream is None && c is None && !cache,
        }),
{
    let udp = match command {
        SocksCommand::TcpBind => return SocksPlan::Refuse,
        SocksCommand::TcpConnect => false,
        SocksCommand::UdpAssociate => true,
    };
    match lookup {
        UpstreamLookup::Cached(u) => SocksPlan::Serve { upstream: Some(u), command: None, cache: false, udp },
        UpstreamLookup::Routed { upstream, command } => SocksPlan::Serve {
            upstream: Some(upstream),
            command,
            cache: true,
            udp,
        },
        UpstreamLookup::Unrouted => SocksPlan::Serve { upstream: None, command: None, cache: false, udp },
    }
}

} // verus!
