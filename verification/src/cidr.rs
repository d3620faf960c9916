//! CIDR prefixes and the random source-address sampler.
//!
//! A prefix is held as its network bits and prefix length, with the
//! invariant that every bit below the prefix is zero. The sampler draws a
//! uniformly random host inside the prefix; for IPv4 prefixes of length at
//! most 30 it skips the network and broadcast addresses.

use vstd::prelude::*;

use crate::net::IpAddress;
use crate::rng::random_u128_any;
use crate::rng::random_u128_below;
use crate::rng::random_u32_below;

verus! {

/// The mask of the host bits of an IPv4 prefix of the given length: ones in
/// every bit position below the prefix.
pub open spec fn spec_v4_host_mask(prefix_len: u8) -> u32 {
    if prefix_len >= 32 {
        0u32
    } else {
        u32::MAX >> prefix_len
    }
}

/// The mask of the host bits of an IPv6 prefix of the given length.
pub open spec fn spec_v6_host_mask(prefix_len: u8) -> u128 {
    if prefix_len >= 128 {
        0u128
    } else {
        u128::MAX >> prefix_len
    }
}

#[verifier::when_used_as_spec(spec_v4_host_mask)]
pub fn v4_host_mask(prefix_len: u8) -> (r: u32)
    ensures
        r == spec_v4_host_mask(prefix_len),
{
    if prefix_len >= 32 {
        0
    } else {
        u32::MAX >> prefix_len
    }
}

#[verifier::when_used_as_spec(spec_v6_host_mask)]
pub fn v6_host_mask(prefix_len: u8) -> (r: u128)
    ensures
        r == spec_v6_host_mask(prefix_len),
{
    if prefix_len >= 128 {
        0
    } else {
        u128::MAX >> prefix_len
    }
}

/// An IPv4 prefix: `network/prefix_len`.
#[derive(Clone, Copy, Debug, PartialEq, Eq, Structural)]
pub struct Ipv4Cidr {
    pub network: u32,
    pub prefix_len: u8,
}

impl Ipv4Cidr {
    /// The prefix length is in range and no host bit is set in the network.
    pub open spec fn wf(&self) -> bool {
        &&& self.prefix_len <= 32
        &&& self.network & spec_v4_host_mask(self.prefix_len) == 0
    }

    /// Whether `addr` lies inside the prefix.
    pub open spec fn spec_contains(&self, addr: u32) -> bool {
        addr & !spec_v4_host_mask(self.prefix_len) == self.network
    }

    /// The broadcast address of the prefix: all host bits set.
    pub open spec fn spec_broadcast(&self) -> u32 {
        self.network | spec_v4_host_mask(self.prefix_len)
    }

    /// Build a prefix from any address inside it, masking the host bits off.
    pub fn new(addr: u32, prefix_len: u8) -> (r: Option<Ipv4Cidr>)
        ensures
            match r {
                Some(c) => {
                    &&& prefix_len <= 32
                    &&& c.wf()
                    &&& c.prefix_len == prefix_len
                    &&& c.network == addr & !spec_v4_host_mask(prefix_len)
                    &&& c.spec_contains(addr)
                },
                None => prefix_len > 32,
            },
    {
        if prefix_len > 32 {
            return None;
        }
        let mask = v4_host_mask(prefix_len);
        let network = addr & !mask;
        proof {
            assert((addr & !mask) & mask == 0) by (bit_vector);
            assert((addr & !mask) & !mask == addr & !mask) by (bit_vector);
        }
        Some(Ipv4Cidr { network, prefix_len })
    }

    pub fn contains(&self, addr: u32) -> (r: bool)
        ensures
            r == self.spec_contains(addr),
    {
        let mask = v4_host_mask(self.prefix_len);
        addr & !mask == self.network
    }

    pub fn broadcast(&self) -> (r: u32)
        ensures
            r == self.spec_broadcast(),
    {
        self.network | v4_host_mask(self.prefix_len)
    }

    /// Draw a random host address inside the prefix. For prefixes of length
    /// at most 30, the network and broadcast addresses are never returned;
    /// for lengths 31 and 32 every address of the prefix may come back.
    pub fn sample(&self) -> (r: u32)
        requires
            self.wf(),
        ensures
            self.spec_contains(r),
            self.prefix_len <= 30 ==> r != self.network && r != self.spec_broadcast(),
    {
        let k = self.prefix_len;
        let mask = v4_host_mask(k);
        let host: u32;
        if k <= 30 {
            proof {
                assert(u32::MAX >> k >= 3) by (bit_vector)
                    requires
                        k <= 30,
                ;
            }
            // skip host 0 (network) and host `mask` (broadcast)
            host = 1 + random_u32_below(mask - 1);
        } else {
            proof {
                if k < 32 {
                    assert(u32::MAX >> k <= 1) by (bit_vector)
                        requires
                            k >= 31 && k < 32,
                    ;
                }
            }
            // the whole host range: 2 addresses at /31, 1 at /32
            host = random_u32_below(mask + 1);
        }
        let r = self.network | host;
        proof {
            let n = self.network;
            assert((n | host) & !spec_v4_host_mask(k) == n) by (bit_vector)
                requires
                    n & spec_v4_host_mask(k) == 0,
                    host <= spec_v4_host_mask(k),
            ;
            assert(host >= 1 && host < spec_v4_host_mask(k) ==> (n | host) != n && (n | host)
                != (n | spec_v4_host_mask(k))) by (bit_vector)
                requires
                    n & spec_v4_host_mask(k) == 0,
            ;
        }
        r
    }
}

/// An IPv6 prefix: `network/prefix_len`.
#[derive(Clone, Copy, Debug, PartialEq, Eq, Structural)]
pub struct Ipv6Cidr {
    pub network: u128,
    pub prefix_len: u8,
}

impl Ipv6Cidr {
    /// The prefix length is in range and no host bit is set in the network.
    pub open spec fn wf(&self) -> bool {
        &&& self.prefix_len <= 128
        &&& self.network & spec_v6_host_mask(self.prefix_len) == 0
    }

    /// Whether `addr` lies inside the prefix.
    pub open spec fn spec_contains(&self, addr: u128) -> bool {
        addr & !spec_v6_host_mask(self.prefix_len) == self.network
    }

    /// Build a prefix from any address inside it, masking the host bits off.
    pub fn new(addr: u128, prefix_len: u8) -> (r: Option<Ipv6Cidr>)
        ensures
            match r {
                Some(c) => {
                    &&& prefix_len <= 128
                    &&& c.wf()
                    &&& c.prefix_len == prefix_len
                    &&& c.network == addr & !spec_v6_host_mask(prefix_len)
                    &&& c.spec_contains(addr)
                },
                None => prefix_len > 128,
            },
    {
        if prefix_len > 128 {
            return None;
        }
        let mask = v6_host_mask(prefix_len);
        let network = addr & !mask;
        proof {
            assert((addr & !mask) & mask == 0) by (bit_vector);
            assert((addr & !mask) & !mask == addr & !mask) by (bit_vector);
        }
        Some(Ipv6Cidr { network, prefix_len })
    }

    pub fn contains(&self, addr: u128) -> (r: bool)
        ensures
            r == self.spec_contains(addr),
    {
        let mask = v6_host_mask(self.prefix_len);
        addr & !mask == self.network
    }

    /// Draw a random host address inside the prefix. No address of the
    /// prefix is excluded.
    pub fn sample(&self) -> (r: u128)
        requires
            self.wf(),
        ensures
            self.spec_contains(r),
    {
        let k = self.prefix_len;
        let mask = v6_host_mask(k);
        let host: u128;
        if k == 0 {
            // the host range is all 128-bit values
            host = random_u128_any();
            proof {
                assert(u128::MAX >> 0u8 == u128::MAX) by (bit_vector);
            }
        } else {
            proof {
                if k < 128 {
                    assert(u128::MAX >> k < u128::MAX) by (bit_vector)
                        requires
                            1 <= k && k < 128,
                    ;
                }
            }
            host = random_u128_below(mask + 1);
        }
        let r = self.network | host;
        proof {
            let n = self.network;
            assert((n | host) & !spec_v6_host_mask(k) == n) by (bit_vector)
                requires
                    n & spec_v6_host_mask(k) == 0,
                    host <= spec_v6_host_mask(k),
            ;
        }
        r
    }
}

/// A CIDR prefix of either family.
#[derive(Clone, Copy, Debug, PartialEq, Eq, Structural)]
pub enum IpCidr {
    V4(Ipv4Cidr),
    V6(Ipv6Cidr),
}

impl IpCidr {
    pub open spec fn wf(&self) -> bool {
        match *self {
            IpCidr::V4(c) => c.wf(),
            IpCidr::V6(c) => c.wf(),
        }
    }

    /// Whether `addr` lies inside the prefix; an address of the other
    /// family never does.
    pub open spec fn spec_contains(&self, addr: IpAddress) -> bool {
        match (*self, addr) {
            (IpCidr::V4(c), IpAddress::V4(a)) => c.spec_contains(a),
            (IpCidr::V6(c), IpAddress::V6(a)) => c.spec_contains(a),
            _ => false,
        }
    }

    pub fn contains(&self, addr: IpAddress) -> (r: bool)
        ensures
            r == self.spec_contains(addr),
    {
        match (self, addr) {
            (IpCidr::V4(c), IpAddress::V4(a)) => c.contains(a),
            (IpCidr::V6(c), IpAddress::V6(a)) => c.contains(a),
            _ => false,
        }
    }

    /// Draw a random address inside the prefix, in the prefix's family.
    /// For IPv4 prefixes of length at most 30 the network and broadcast
    /// addresses are never returned.
    pub fn sample(&self) -> (r: IpAddress)
        requires
            self.wf(),
        ensures
            self.spec_contains(r),
            r.spec_is_v4() == matches!(*self, IpCidr::V4(_)),
            match (*self, r) {
                (IpCidr::V4(c), IpAddress::V4(a)) => c.prefix_len <= 30 ==> a != c.network && a
                    != c.spec_broadcast(),
                _ => true,
            },
    {
        match self {
            IpCidr::V4(c) => IpAddress::V4(c.sample()),
            IpCidr::V6(c) => IpAddress::V6(c.sample()),
        }
    }
}

} // verus!
