//! The parts of a request URI that the proxy reads.

use vstd::prelude::*;

verus! {

/// A request target, reduced to what dispatch and connecting need: the
/// scheme's default port, the host, the explicit port and the authority.
#[derive(Clone, Debug)]
pub struct UriParts {
    /// The scheme is `https`, so the default port is 443.
    pub is_https: bool,
    /// The URI's host, brackets kept on an IPv6 literal.
    pub host: Option<String>,
    /// The URI's explicit port.
    pub port: Option<u16>,
    /// The URI's authority, as written.
    pub authority: Option<String>,
}

impl UriParts {
    /// The port a connection goes to: the explicit one, else the scheme's
    /// default — 443 for `https`, 80 otherwise.
    pub open spec fn spec_effective_port(&self) -> u16 {
        match self.port {
            Some(p) => p,
            None => if self.is_https {
                443
            } else {
                80
            },
        }
    }

    /// The effective port, executable form.
    pub fn effective_port(&self) -> (r: u16)
        ensures
            r == self.spec_effective_port(),
    {
        match self.port {
            Some(p) => p,
            None => if self.is_https {
                443
            } else {
                80
            },
        }
    }
}

} // verus!
