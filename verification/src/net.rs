//! Plain-value models of IP and socket addresses.
//!
//! An IPv4 address is its 32 bits, an IPv6 address its 128 bits, both in
//! host order with the most significant byte first on the wire. A socket
//! address pairs an address with a port.

use vstd::prelude::*;

verus! {

/// An IP address of either family, held as its raw bits.
#[derive(Clone, Copy, Debug, PartialEq, Eq, Structural)]
pub enum IpAddress {
    V4(u32),
    V6(u128),
}

impl IpAddress {
    /// Whether the address belongs to the IPv4 family.
    pub open spec fn spec_is_v4(&self) -> bool {
        matches!(*self, IpAddress::V4(_))
    }

    /// Whether the address belongs to the IPv6 family.
    pub open spec fn spec_is_v6(&self) -> bool {
        matches!(*self, IpAddress::V6(_))
    }

    #[verifier::when_used_as_spec(spec_is_v4)]
    pub fn is_v4(&self) -> (r: bool)
        ensures
            r == self.spec_is_v4(),
    {
        match *self {
            IpAddress::V4(_) => true,
            IpAddress::V6(_) => false,
        }
    }

    #[verifier::when_used_as_spec(spec_is_v6)]
    pub fn is_v6(&self) -> (r: bool)
        ensures
            r == self.spec_is_v6(),
    {
        match *self {
            IpAddress::V4(_) => false,
            IpAddress::V6(_) => true,
        }
    }
}

/// An IP address together with a port.
#[derive(Clone, Copy, Debug, PartialEq, Eq, Structural)]
pub struct SocketAddress {
    pub ip: IpAddress,
    pub port: u16,
}

impl SocketAddress {
    /// Whether the socket address belongs to the IPv4 family.
    pub open spec fn spec_is_v4(&self) -> bool {
        self.ip.spec_is_v4()
    }

    /// Whether the socket address belongs to the IPv6 family.
    pub open spec fn spec_is_v6(&self) -> bool {
        self.ip.spec_is_v6()
    }

    #[verifier::when_used_as_spec(spec_is_v4)]
    pub fn is_v4(&self) -> (r: bool)
        ensures
            r == self.spec_is_v4(),
    {
        self.ip.is_v4()
    }

    #[verifier::when_used_as_spec(spec_is_v6)]
    pub fn is_v6(&self) -> (r: bool)
        ensures
            r == self.spec_is_v6(),
    {
        self.ip.is_v6()
    }

    /// Replace the port with `host_port` when the URI carried an explicit
    /// port or when the resolver left the port zero; keep it otherwise.
    pub fn set_port(&mut self, host_port: u16, explicit: bool)
        ensures
            final(self).ip == old(self).ip,
            final(self).port == if explicit || old(self).port == 0 {
                host_port
            } else {
                old(self).port
            },
    {
        if explicit || self.port == 0 {
            self.port = host_port;
        }
    }
}

} // verus!
