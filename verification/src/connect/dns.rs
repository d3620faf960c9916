//! Host names and resolved address lists.
//!
//! `try_parse` short-circuits resolution: a host that is already an IPv4 or
//! IPv6 literal becomes a one-element address list with the supplied port,
//! and no resolver runs. `split_by_preference` cuts a resolved list into
//! the preferred sweep and the fallback sweep by address family.

use vstd::prelude::*;

use crate::connect::error::DnsError;
use crate::error::IoErrorKind;
use crate::ip_parse::parse_ipv4;
use crate::ip_parse::parse_ipv6;
use crate::ip_parse::spec_parse_ipv4;
use crate::ip_parse::spec_parse_ipv6;
use crate::net::IpAddress;
use crate::net::SocketAddress;

verus! {

/// A host name handed to the resolver.
#[derive(Clone, Debug)]
pub struct Name {
    host: String,
}

impl Name {
    pub fn new(host: String) -> (r: Name)
        ensures
            r@ == host@,
    {
        Name { host }
    }

    pub fn as_str(&self) -> (r: &str)
        ensures
            r@ == self@,
    {
        self.host.as_str()
    }
}

impl View for Name {
    type V = Seq<char>;

    closed spec fn view(&self) -> Seq<char> {
        self.host@
    }
}

/// A name the resolver cannot accept.
#[derive(Clone, Copy, Debug, PartialEq, Eq, Structural)]
pub struct InvalidNameError {}

impl InvalidNameError {
    pub fn new() -> InvalidNameError {
        InvalidNameError {}
    }
}

/// The name resolver handle. Resolution itself is I/O and runs outside the
/// library; the handle only marks where it plugs in.
#[derive(Clone, Debug)]
pub struct Resolver {}

impl Resolver {
    pub fn new() -> Resolver {
        Resolver {}
    }
}

/// An ordered list of resolved socket addresses.
#[derive(Clone, Debug)]
pub struct SocketAddrs {
    addrs: Vec<SocketAddress>,
}

impl View for SocketAddrs {
    type V = Seq<SocketAddress>;

    closed spec fn view(&self) -> Seq<SocketAddress> {
        self.addrs@
    }
}

/// The one socket address a literal host denotes, if it is a literal.
pub open spec fn spec_literal_addr(host: Seq<char>, port: u16) -> Option<SocketAddress> {
    match spec_parse_ipv4(host) {
        Some(ip) => Some(SocketAddress { ip: IpAddress::V4(ip), port }),
        None => match spec_parse_ipv6(host) {
            Some(ip) => Some(SocketAddress { ip: IpAddress::V6(ip), port }),
            None => None,
        },
    }
}

/// The preferred sweep of a resolved list, per the local-address
/// configuration: the matching family when only one local address is
/// configured, else the family of the first resolved address.
pub open spec fn spec_preferred(
    addrs: Seq<SocketAddress>,
    local_v4: Option<u32>,
    local_v6: Option<u128>,
) -> Seq<SocketAddress> {
    match (local_v4, local_v6) {
        (Some(_), None) => addrs.filter(|a: SocketAddress| a.spec_is_v4()),
        (None, Some(_)) => addrs.filter(|a: SocketAddress| a.spec_is_v6()),
        _ => {
            let preferring_v6 = addrs.len() > 0 && addrs[0].spec_is_v6();
            addrs.filter(|a: SocketAddress| a.spec_is_v6() == preferring_v6)
        },
    }
}

/// The fallback sweep of a resolved list: empty when only one local address
/// is configured, else the addresses of the non-preferred family, in order.
pub open spec fn spec_fallback(
    addrs: Seq<SocketAddress>,
    local_v4: Option<u32>,
    local_v6: Option<u128>,
) -> Seq<SocketAddress> {
    match (local_v4, local_v6) {
        (Some(_), None) => Seq::<SocketAddress>::empty(),
        (None, Some(_)) => Seq::<SocketAddress>::empty(),
        _ => {
            let preferring_v6 = addrs.len() > 0 && addrs[0].spec_is_v6();
            addrs.filter(|a: SocketAddress| a.spec_is_v6() != preferring_v6)
        },
    }
}

impl SocketAddrs {
    pub fn new(addrs: Vec<SocketAddress>) -> (r: SocketAddrs)
        ensures
            r@ == addrs@,
    {
        SocketAddrs { addrs }
    }

    /// A host that is an address literal resolves to exactly one address,
    /// carrying the supplied port; any other host yields nothing here and
    /// goes to the OS resolver instead.
    pub fn try_parse(host: &str, port: u16) -> (r: Option<SocketAddrs>)
        ensures
            match r {
                Some(addrs) => {
                    &&& spec_literal_addr(host@, port) matches Some(a) && addrs@ =~= seq![a]
                },
                None => spec_literal_addr(host@, port) is None,
            },
    {
        match parse_ipv4(host) {
            Some(ip) => {
                let a = SocketAddress { ip: IpAddress::V4(ip), port };
                Some(SocketAddrs { addrs: vec![a] })
            },
            None => {
                match parse_ipv6(host) {
                    Some(ip) => {
                        let a = SocketAddress { ip: IpAddress::V6(ip), port };
                        Some(SocketAddrs { addrs: vec![a] })
                    },
                    None => None,
                }
            },
        }
    }

    /// Split into the preferred and the fallback sweep. With only a local
    /// IPv4 address configured, only IPv4 targets are kept (and nothing
    /// falls back); likewise for IPv6. Otherwise the family of the first
    /// resolved address is preferred and the rest fall back, order kept.
    pub fn split_by_preference(
        self,
        local_addr_ipv4: Option<u32>,
        local_addr_ipv6: Option<u128>,
    ) -> (r: (SocketAddrs, SocketAddrs))
        ensures
            r.0@ == spec_preferred(self@, local_addr_ipv4, local_addr_ipv6),
            r.1@ == spec_fallback(self@, local_addr_ipv4, local_addr_ipv6),
    {
        match (local_addr_ipv4, local_addr_ipv6) {
            (Some(_), None) => {
                let kept = filter_by_family(&self.addrs, true);
                (SocketAddrs { addrs: kept }, SocketAddrs { addrs: Vec::new() })
            },
            (None, Some(_)) => {
                let kept = filter_by_family(&self.addrs, false);
                (SocketAddrs { addrs: kept }, SocketAddrs { addrs: Vec::new() })
            },
            _ => {
                let preferring_v6 = if self.addrs.len() > 0 {
                    self.addrs[0].is_v6()
                } else {
                    false
                };
                let (preferred, fallback) = partition_by_v6(&self.addrs, preferring_v6);
                (SocketAddrs { addrs: preferred }, SocketAddrs { addrs: fallback })
            },
        }
    }

    pub fn is_empty(&self) -> (r: bool)
        ensures
            r == (self@.len() == 0),
    {
        self.addrs.len() == 0
    }

    pub fn len(&self) -> (r: usize)
        ensures
            r == self@.len(),
    {
        self.addrs.len()
    }

    /// The address at `i`, for walking the list in order.
    pub fn get(&self, i: usize) -> (r: SocketAddress)
        requires
            i < self@.len(),
        ensures
            r == self@[i as int],
    {
        self.addrs[i]
    }

    /// Overwrite each address's port with `host_port` where the URI's port
    /// was explicit, and wherever the resolver left a zero port.
    pub fn apply_port_policy(&mut self, host_port: u16, explicit: bool)
        ensures
            final(self)@.len() == old(self)@.len(),
            forall|i: int|
                0 <= i < final(self)@.len() ==> #[trigger] final(self)@[i] == (SocketAddress {
                    ip: old(self)@[i].ip,
                    port: if explicit || old(self)@[i].port == 0 {
                        host_port
                    } else {
                        old(self)@[i].port
                    },
                }),
    {
        let n = self.addrs.len();
        let mut i: usize = 0;
        while i < n
            invariant
                i <= n,
                n == self.addrs@.len() == old(self)@.len(),
                forall|j: int| i <= j < n ==> #[trigger] self.addrs@[j] == old(self)@[j],
                forall|j: int|
                    0 <= j < i ==> #[trigger] self.addrs@[j] == (SocketAddress {
                        ip: old(self)@[j].ip,
                        port: if explicit || old(self)@[j].port == 0 {
                            host_port
                        } else {
                            old(self)@[j].port
                        },
                    }),
            decreases n - i,
        {
            let mut a = self.addrs[i];
            a.set_port(host_port, explicit);
            self.addrs.set(i, a);
            i = i + 1;
        }
    }
}

/// Keep the addresses of one family, in order.
fn filter_by_family(addrs: &Vec<SocketAddress>, keep_v4: bool) -> (r: Vec<SocketAddress>)
    ensures
        keep_v4 ==> r@ == addrs@.filter(|a: SocketAddress| a.spec_is_v4()),
        !keep_v4 ==> r@ == addrs@.filter(|a: SocketAddress| a.spec_is_v6()),
{
    let ghost pred = if keep_v4 {
        |a: SocketAddress| a.spec_is_v4()
    } else {
        |a: SocketAddress| a.spec_is_v6()
    };
    let mut out: Vec<SocketAddress> = Vec::new();
    let n = addrs.len();
    let mut i: usize = 0;
    proof {
        reveal(Seq::filter);
    }
    while i < n
        invariant
            i <= n,
            n == addrs@.len(),
            pred == if keep_v4 {
                |a: SocketAddress| a.spec_is_v4()
            } else {
                |a: SocketAddress| a.spec_is_v6()
            },
            out@ == addrs@.take(i as int).filter(pred),
        decreases n - i,
    {
        let a = addrs[i];
        let keep = if keep_v4 {
            a.is_v4()
        } else {
            a.is_v6()
        };
        proof {
            reveal(Seq::filter);
            assert(addrs@.take(i + 1).drop_last() =~= addrs@.take(i as int));
            assert(addrs@.take(i + 1).last() == addrs@[i as int]);
        }
        if keep {
            out.push(a);
        }
        i = i + 1;
    }
    proof {
        assert(addrs@.take(n as int) =~= addrs@);
    }
    out
}

/// Cut into the addresses whose family matches the preference and the
/// rest, both in order.
fn partition_by_v6(addrs: &Vec<SocketAddress>, preferring_v6: bool) -> (r: (
    Vec<SocketAddress>,
    Vec<SocketAddress>,
))
    ensures
        r.0@ == addrs@.filter(|a: SocketAddress| a.spec_is_v6() == preferring_v6),
        r.1@ == addrs@.filter(|a: SocketAddress| a.spec_is_v6() != preferring_v6),
{
    let ghost keep_pred = |a: SocketAddress| a.spec_is_v6() == preferring_v6;
    let ghost drop_pred = |a: SocketAddress| a.spec_is_v6() != preferring_v6;
    let mut kept: Vec<SocketAddress> = Vec::new();
    let mut rest: Vec<SocketAddress> = Vec::new();
    let n = addrs.len();
    let mut i: usize = 0;
    proof {
        reveal(Seq::filter);
    }
    while i < n
        invariant
            i <= n,
            n == addrs@.len(),
            keep_pred == (|a: SocketAddress| a.spec_is_v6() == preferring_v6),
            drop_pred == (|a: SocketAddress| a.spec_is_v6() != preferring_v6),
            kept@ == addrs@.take(i as int).filter(keep_pred),
            rest@ == addrs@.take(i as int).filter(drop_pred),
        decreases n - i,
    {
        let a = addrs[i];
        proof {
            reveal(Seq::filter);
            assert(addrs@.take(i + 1).drop_last() =~= addrs@.take(i as int));
            assert(addrs@.take(i + 1).last() == addrs@[i as int]);
        }
        if a.is_v6() == preferring_v6 {
            kept.push(a);
        } else {
            rest.push(a);
        }
        i = i + 1;
    }
    proof {
        assert(addrs@.take(n as int) =~= addrs@);
    }
    (kept, rest)
}

} // verus!

verus! {

/// How the blocking OS lookup ended: with addresses, with a resolver
/// error, or cancelled before it finished. A panic in the worker is not an
/// outcome; it propagates.
pub enum ResolveOutcome {
    Resolved(Vec<SocketAddress>),
    Failed(IoErrorKind),
    Cancelled,
}

/// Turn the worker's outcome into the resolver's answer: the addresses in
/// the order the OS gave them, the OS error as a DNS error, and a
/// cancelled lookup as an interruption.
pub fn resolve_result(out: ResolveOutcome) -> (r: Result<SocketAddrs, DnsError>)
    ensures
        match out {
            ResolveOutcome::Resolved(v) => r matches Ok(addrs) && addrs@ == v@,
            ResolveOutcome::Failed(k) => r == Err::<SocketAddrs, DnsError>(DnsError(k)),
            ResolveOutcome::Cancelled => r == Err::<SocketAddrs, DnsError>(
                DnsError(IoErrorKind::Interrupted),
            ),
        },
{
    match out {
        ResolveOutcome::Resolved(v) => Ok(SocketAddrs::new(v)),
        ResolveOutcome::Failed(k) => Err(DnsError(k)),
        ResolveOutcome::Cancelled => Err(DnsError(IoErrorKind::Interrupted)),
    }
}

} // verus!
