//! The kernel-route installer's decisions: whether the local table already
//! claims the prefix, and the exact route to add when it does not.

use vstd::prelude::*;

use crate::cidr::IpCidr;
use crate::net::IpAddress;

verus! {

/// The kernel's local routing table.
pub const LOCAL_TABLE_ID: u8 = 255;

/// The default priority of the added route.
pub const ROUTE_PRIORITY: u32 = 1024;

/// An address family as a route header carries it.
#[derive(Clone, Copy, Debug, PartialEq, Eq, Structural)]
pub enum RouteFamily {
    V4,
    V6,
}

/// A route's type.
#[derive(Clone, Copy, Debug, PartialEq, Eq, Structural)]
pub enum RouteKind {
    Local,
    Unicast,
}

/// Who installed a route.
#[derive(Clone, Copy, Debug, PartialEq, Eq, Structural)]
pub enum RouteProtocol {
    Boot,
    Kernel,
}

/// A route's scope.
#[derive(Clone, Copy, Debug, PartialEq, Eq, Structural)]
pub enum RouteScope {
    Universe,
    Link,
}

/// What the kernel reports of one existing route: the header fields the
/// matching reads, and the destination attribute if present.
#[derive(Clone, Copy, Debug, PartialEq, Eq, Structural)]
pub struct RouteRecord {
    pub family: RouteFamily,
    pub destination_prefix_len: u8,
    pub table: u8,
    pub destination: Option<IpAddress>,
}

/// The family of a prefix.
pub open spec fn spec_cidr_family(cidr: IpCidr) -> RouteFamily {
    match cidr {
        IpCidr::V4(_) => RouteFamily::V4,
        IpCidr::V6(_) => RouteFamily::V6,
    }
}

/// The network address of a prefix.
pub open spec fn spec_cidr_network(cidr: IpCidr) -> IpAddress {
    match cidr {
        IpCidr::V4(c) => IpAddress::V4(c.network),
        IpCidr::V6(c) => IpAddress::V6(c.network),
    }
}

/// The prefix length of a prefix.
pub open spec fn spec_cidr_prefix_len(cidr: IpCidr) -> u8 {
    match cidr {
        IpCidr::V4(c) => c.prefix_len,
        IpCidr::V6(c) => c.prefix_len,
    }
}

/// An existing route already claims the prefix: same family, same prefix
/// length, in the local table, and its destination is the prefix's
/// network address.
pub open spec fn spec_route_matches(rec: RouteRecord, cidr: IpCidr) -> bool {
    &&& rec.family == spec_cidr_family(cidr)
    &&& rec.destination_prefix_len == spec_cidr_prefix_len(cidr)
    &&& rec.table == LOCAL_TABLE_ID
    &&& rec.destination == Some(spec_cidr_network(cidr))
}

pub fn route_matches(rec: &RouteRecord, cidr: &IpCidr) -> (r: bool)
    ensures
        r == spec_route_matches(*rec, *cidr),
{
    let family_ok = match (rec.family, cidr) {
        (RouteFamily::V4, IpCidr::V4(_)) => true,
        (RouteFamily::V6, IpCidr::V6(_)) => true,
        _ => false,
    };
    let (network, prefix_len) = match cidr {
        IpCidr::V4(c) => (IpAddress::V4(c.network), c.prefix_len),
        IpCidr::V6(c) => (IpAddress::V6(c.network), c.prefix_len),
    };
    let dest_ok = match rec.destination {
        Some(d) => d == network,
        None => false,
    };
    family_ok && rec.destination_prefix_len == prefix_len && rec.table == LOCAL_TABLE_ID && dest_ok
}

/// Whether any reported route already claims the prefix; installing again
/// would not be needed, which keeps the installer idempotent.
pub fn route_exists(records: &Vec<RouteRecord>, cidr: &IpCidr) -> (r: bool)
    ensures
        r == exists|i: int|
            0 <= i < records@.len() && spec_route_matches(#[trigger] records@[i], *cidr),
{
    let n = records.len();
    let mut i: usize = 0;
    while i < n
        invariant
            i <= n,
            n == records@.len(),
            forall|j: int| 0 <= j < i ==> !spec_route_matches(#[trigger] records@[j], *cidr),
        decreases n - i,
    {
        if route_matches(&records[i], cidr) {
            return true;
        }
        i = i + 1;
    }
    false
}

/// The route the installer adds, field by field.
#[derive(Clone, Copy, Debug, PartialEq, Eq, Structural)]
pub struct RouteRequest {
    pub family: RouteFamily,
    pub destination: IpAddress,
    pub destination_prefix_len: u8,
    pub output_interface: u32,
    pub kind: RouteKind,
    pub protocol: RouteProtocol,
    pub scope: RouteScope,
    pub priority: u32,
    pub table: u8,
}

/// The route that claims the prefix on the loopback interface: a local
/// route for the prefix's network, out of `lo`, protocol boot, universe
/// scope, priority 1024, in the local table.
pub fn route_request_for(cidr: &IpCidr, lo_index: u32) -> (r: RouteRequest)
    ensures
        r == (RouteRequest {
            family: spec_cidr_family(*cidr),
            destination: spec_cidr_network(*cidr),
            destination_prefix_len: spec_cidr_prefix_len(*cidr),
            output_interface: lo_index,
            kind: RouteKind::Local,
            protocol: RouteProtocol::Boot,
            scope: RouteScope::Universe,
            priority: ROUTE_PRIORITY,
            table: LOCAL_TABLE_ID,
        }),
{
    let (family, destination, destination_prefix_len) = match cidr {
        IpCidr::V4(c) => (RouteFamily::V4, IpAddress::V4(c.network), c.prefix_len),
        IpCidr::V6(c) => (RouteFamily::V6, IpAddress::V6(c.network), c.prefix_len),
    };
    RouteRequest {
        family,
        destination,
        destination_prefix_len,
        output_interface: lo_index,
        kind: RouteKind::Local,
        protocol: RouteProtocol::Boot,
        scope: RouteScope::Universe,
        priority: ROUTE_PRIORITY,
        table: LOCAL_TABLE_ID,
    }
}

} // verus!
