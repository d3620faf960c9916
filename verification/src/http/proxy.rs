//! The request state machine of the proxy.
//!
//! A CONNECT with an authority is answered 200 with an empty body before
//! any tunnel work starts; a CONNECT without one is answered 400 with the
//! literal body below; every other method is forwarded upstream.

use vstd::prelude::*;

use crate::config::Config;
use crate::text::str_eq;
use crate::uri::UriParts;

verus! {

/// The per-request service; it reads a configuration snapshot.
#[derive(Clone, Copy, Debug, PartialEq, Eq, Structural)]
pub struct HttpProxy {
    pub config: Config,
}

impl HttpProxy {
    pub fn new(config: Config) -> (r: HttpProxy)
        ensures
            r.config == config,
    {
        HttpProxy { config }
    }
}

/// A response the proxy writes itself.
#[derive(Clone, Debug)]
pub struct ProxyResponse {
    pub status: u16,
    pub body: String,
}

/// How one request is handled.
pub enum ProxyDecision {
    /// Forward the request upstream as it stands.
    Forward,
    /// Answer 200 and tunnel bytes to this authority.
    OpenTunnel(String),
    /// Answer with this response and do nothing else.
    Respond(ProxyResponse),
}

/// The authority of the request target, as CONNECT names its peer.
pub fn host_addr(uri: &UriParts) -> (r: Option<String>)
    ensures
        match r {
            Some(s) => uri.authority matches Some(a) && s@ == a@,
            None => uri.authority is None,
        },
{
    match &uri.authority {
        Some(a) => Some(a.clone()),
        None => None,
    }
}

/// Dispatch one request: CONNECT with an authority opens a tunnel; CONNECT
/// without one is exactly `400` with the literal body `CONNECT must be to
/// a socket address`; anything else is forwarded.
pub fn route_request(method: &str, uri: &UriParts) -> (r: ProxyDecision)
    ensures
        method@ != "CONNECT"@ ==> r is Forward,
        method@ == "CONNECT"@ && uri.authority is None ==> (r matches ProxyDecision::Respond(
            resp,
        ) && resp.status == 400 && resp.body@ == "CONNECT must be to a socket address"@),
        method@ == "CONNECT"@ && uri.authority is Some ==> (r matches ProxyDecision::OpenTunnel(
            t,
        ) && t@ == uri.authority->Some_0@),
{
    if str_eq(method, "CONNECT") {
        match host_addr(uri) {
            Some(addr) => ProxyDecision::OpenTunnel(addr),
            None => ProxyDecision::Respond(
                ProxyResponse {
                    status: 400,
                    body: String::from_str("CONNECT must be to a socket address"),
                },
            ),
        }
    } else {
        ProxyDecision::Forward
    }
}

/// The response sent the moment a CONNECT is accepted, before the tunnel
/// is attempted: 200 with an empty body.
pub fn connect_established_response() -> (r: ProxyResponse)
    ensures
        r.status == 200,
        r.body@.len() == 0,
{
    ProxyResponse { status: 200, body: String::new() }
}

} // verus!
