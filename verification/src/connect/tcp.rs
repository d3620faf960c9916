//! One outbound TCP connection: extract the target from the URI, resolve or
//! short-circuit a literal host, normalize ports, split by family, budget
//! the per-address timeout, and sweep the candidates — racing the fallback
//! family after the Happy-Eyeballs delay.
//!
//! The I/O itself (the resolver and the sockets) runs outside the library;
//! what stands here is every decision those steps consult, and the state
//! machine the sweep follows.

use vstd::prelude::*;

use crate::cidr::IpCidr;
use crate::connect::dns::Name;
use crate::connect::dns::Resolver;
use crate::connect::dns::SocketAddrs;
use crate::connect::dns::spec_fallback;
use crate::connect::dns::spec_literal_addr;
use crate::connect::dns::spec_preferred;
use crate::connect::error::InvalidUriError;
use crate::connect::error::TcpError;
use crate::error::IoErrorKind;
use crate::net::IpAddress;
use crate::net::SocketAddress;
use crate::uri::UriParts;

verus! {

/// The connector's settings. Timeouts are in nanoseconds.
#[derive(Clone, Copy, Debug, PartialEq, Eq, Structural)]
pub struct ConnectorConfig {
    pub connect_timeout: Option<u64>,
    pub happy_eyeballs_timeout: Option<u64>,
    pub local_address_ipv4: Option<u32>,
    pub local_address_ipv6: Option<u128>,
    pub nodelay: bool,
}

/// The Happy-Eyeballs delay a new connector starts with: 300 ms.
pub const DEFAULT_HAPPY_EYEBALLS_TIMEOUT_NS: u64 = 300_000_000;

/// The connector: its settings and its resolver handle. Each `connect`
/// call is independent; the struct holds no other state.
#[derive(Clone, Debug)]
pub struct TcpConnector {
    pub config: ConnectorConfig,
    pub resolver: Resolver,
}

impl TcpConnector {
    pub fn new() -> (r: TcpConnector)
        ensures
            r.config == (ConnectorConfig {
                connect_timeout: None,
                happy_eyeballs_timeout: Some(DEFAULT_HAPPY_EYEBALLS_TIMEOUT_NS),
                local_address_ipv4: None,
                local_address_ipv6: None,
                nodelay: false,
            }),
    {
        TcpConnector::new_with_resolver(Resolver::new())
    }

    pub fn new_with_resolver(resolver: Resolver) -> (r: TcpConnector)
        ensures
            r.config == (ConnectorConfig {
                connect_timeout: None,
                happy_eyeballs_timeout: Some(DEFAULT_HAPPY_EYEBALLS_TIMEOUT_NS),
                local_address_ipv4: None,
                local_address_ipv6: None,
                nodelay: false,
            }),
    {
        TcpConnector {
            config: ConnectorConfig {
                connect_timeout: None,
                happy_eyeballs_timeout: Some(DEFAULT_HAPPY_EYEBALLS_TIMEOUT_NS),
                local_address_ipv4: None,
                local_address_ipv6: None,
                nodelay: false,
            },
            resolver,
        }
    }

    pub fn set_connect_timeout(&mut self, dur: Option<u64>)
        ensures
            final(self).config == (ConnectorConfig { connect_timeout: dur, ..old(self).config }),
            final(self).resolver == old(self).resolver,
    {
        self.config.connect_timeout = dur;
    }

    pub fn set_happy_eyeballs_timeout(&mut self, dur: Option<u64>)
        ensures
            final(self).config == (ConnectorConfig {
                happy_eyeballs_timeout: dur,
                ..old(self).config
            }),
            final(self).resolver == old(self).resolver,
    {
        self.config.happy_eyeballs_timeout = dur;
    }

    /// Make `addr` the one local address; the other family's local address
    /// is cleared.
    pub fn set_local_address(&mut self, addr: Option<IpAddress>)
        ensures
            final(self).config == (ConnectorConfig {
                local_address_ipv4: match addr {
                    Some(IpAddress::V4(a)) => Some(a),
                    _ => None,
                },
                local_address_ipv6: match addr {
                    Some(IpAddress::V6(a)) => Some(a),
                    _ => None,
                },
                ..old(self).config
            }),
            final(self).resolver == old(self).resolver,
    {
        let (v4, v6) = match addr {
            Some(IpAddress::V4(a)) => (Some(a), None),
            Some(IpAddress::V6(a)) => (None, Some(a)),
            None => (None, None),
        };
        self.config.local_address_ipv4 = v4;
        self.config.local_address_ipv6 = v6;
    }

    pub fn set_local_addresses(&mut self, addr_ipv4: u32, addr_ipv6: u128)
        ensures
            final(self).config == (ConnectorConfig {
                local_address_ipv4: Some(addr_ipv4),
                local_address_ipv6: Some(addr_ipv6),
                ..old(self).config
            }),
            final(self).resolver == old(self).resolver,
    {
        self.config.local_address_ipv4 = Some(addr_ipv4);
        self.config.local_address_ipv6 = Some(addr_ipv6);
    }

    pub fn set_nodelay(&mut self, nodelay: bool)
        ensures
            final(self).config == (ConnectorConfig { nodelay, ..old(self).config }),
            final(self).resolver == old(self).resolver,
    {
        self.config.nodelay = nodelay;
    }

    /// Draw a fresh random local address from the prefix and make it the
    /// connector's local address. With no prefix configured nothing
    /// changes. For an IPv4 prefix of length at most 30 the drawn address
    /// is neither the network nor the broadcast address.
    pub fn assign_local_address_from_cidr(&mut self, cidr: Option<IpCidr>)
        requires
            match cidr {
                Some(c) => c.wf(),
                None => true,
            },
        ensures
            match cidr {
                None => *final(self) == *old(self),
                Some(c) => {
                    &&& final(self).resolver == old(self).resolver
                    &&& final(self).config.connect_timeout == old(self).config.connect_timeout
                    &&& final(self).config.happy_eyeballs_timeout
                        == old(self).config.happy_eyeballs_timeout
                    &&& final(self).config.nodelay == old(self).config.nodelay
                    &&& match c {
                        IpCidr::V4(c4) => {
                            &&& final(self).config.local_address_ipv6 is None
                            &&& final(self).config.local_address_ipv4 matches Some(a)
                            &&& c4.spec_contains(final(self).config.local_address_ipv4->Some_0)
                            &&& c4.prefix_len <= 30 ==> {
                                &&& final(self).config.local_address_ipv4->Some_0 != c4.network
                                &&& final(self).config.local_address_ipv4->Some_0
                                    != c4.spec_broadcast()
                            }
                        },
                        IpCidr::V6(c6) => {
                            &&& final(self).config.local_address_ipv4 is None
                            &&& final(self).config.local_address_ipv6 matches Some(a)
                                && c6.spec_contains(a)
                        },
                    }
                },
            },
    {
        if let Some(c) = cidr {
            let addr = c.sample();
            self.set_local_address(Some(addr));
        }
    }
}

/// How an outbound target is found: a literal host is its one address and
/// no lookup runs; any other host goes to the resolver.
pub enum TargetPlan {
    Literal(SocketAddrs),
    Lookup(Name),
}

/// A prepared target: how to obtain the addresses, and the port to impose
/// on resolved ones.
pub struct TargetQuery {
    pub plan: TargetPlan,
    pub port: u16,
    pub port_explicit: bool,
}

/// Characters `[` trimmed from the start of a host.
pub open spec fn trim_char_start(s: Seq<char>, c: char) -> Seq<char>
    decreases s.len(),
{
    if s.len() > 0 && s[0] == c {
        trim_char_start(s.subrange(1, s.len() as int), c)
    } else {
        s
    }
}

/// Characters `]` trimmed from the end of a host.
pub open spec fn trim_char_end(s: Seq<char>, c: char) -> Seq<char>
    decreases s.len(),
{
    if s.len() > 0 && s.last() == c {
        trim_char_end(s.drop_last(), c)
    } else {
        s
    }
}

proof fn lemma_trim_start_at(s: Seq<char>, c: char, k: int)
    requires
        0 <= k <= s.len(),
        forall|j: int| 0 <= j < k ==> s[j] == c,
        k == s.len() || s[k] != c,
    ensures
        trim_char_start(s, c) == s.subrange(k, s.len() as int),
    decreases k,
{
    if k == 0 {
        assert(s.subrange(0, s.len() as int) =~= s);
    } else {
        let tail = s.subrange(1, s.len() as int);
        lemma_trim_start_at(tail, c, k - 1);
        assert(tail.subrange(k - 1, tail.len() as int) =~= s.subrange(k, s.len() as int));
    }
}

proof fn lemma_trim_end_at(s: Seq<char>, c: char, k: int)
    requires
        0 <= k <= s.len(),
        forall|j: int| k <= j < s.len() ==> s[j] == c,
        k == 0 || s[k - 1] != c,
    ensures
        trim_char_end(s, c) == s.subrange(0, k),
    decreases s.len(),
{
    if k == s.len() {
        assert(s.subrange(0, k) =~= s);
    } else {
        lemma_trim_end_at(s.drop_last(), c, k);
    }
}

/// The host with surrounding square brackets removed, as an IPv6 literal
/// in a URI carries them.
pub fn strip_brackets(host: &str) -> (r: String)
    ensures
        r@ == trim_char_end(trim_char_start(host@, '['), ']'),
{
    let n = host.unicode_len();
    let mut lo: usize = 0;
    while lo < n
        invariant
            lo <= n,
            n == host@.len(),
            forall|j: int| 0 <= j < lo ==> host@[j] == '[',
        ensures
            lo <= n,
            n == host@.len(),
            forall|j: int| 0 <= j < lo ==> host@[j] == '[',
            lo == n || host@[lo as int] != '[',
        decreases n - lo,
    {
        if host.get_char(lo) != '[' {
            break ;
        }
        lo = lo + 1;
    }
    let mut hi: usize = n;
    while hi > lo
        invariant
            lo <= hi <= n,
            n == host@.len(),
            forall|j: int| hi <= j < n ==> host@[j] == ']',
        ensures
            lo <= hi <= n,
            n == host@.len(),
            forall|j: int| hi <= j < n ==> host@[j] == ']',
            hi == lo || host@[hi - 1] != ']',
        decreases hi,
    {
        if host.get_char(hi - 1) != ']' {
            break ;
        }
        hi = hi - 1;
    }
    proof {
        lemma_trim_start_at(host@, '[', lo as int);
        let mid = host@.subrange(lo as int, n as int);
        assert forall|j: int| (hi - lo) <= j < mid.len() implies mid[j] == ']' by {
            assert(mid[j] == host@[lo + j]);
        }
        if hi > lo {
            assert(mid[hi - lo - 1] == host@[hi - 1]);
        }
        lemma_trim_end_at(mid, ']', hi - lo);
        assert(mid.subrange(0, hi - lo) =~= host@.subrange(lo as int, hi as int));
    }
    let out = host.substring_char(lo, hi);
    out.to_owned()
}

/// The target's host and effective port. A URI without a host cannot be
/// connected to and is refused as invalid input.
pub fn get_host_port(dst: &UriParts) -> (r: Result<(String, u16), InvalidUriError>)
    ensures
        match r {
            Ok(hp) => {
                &&& dst.host matches Some(h) && hp.0@ == h@
                &&& hp.1 == dst.spec_effective_port()
            },
            Err(e) => dst.host is None && e == InvalidUriError(IoErrorKind::InvalidInput),
        },
{
    let host = match &dst.host {
        Some(h) => h.clone(),
        None => {
            return Err(InvalidUriError(IoErrorKind::InvalidInput));
        },
    };
    let port = dst.effective_port();
    Ok((host, port))
}

/// Prepare the outbound target of a URI: take host and effective port,
/// strip brackets, and short-circuit a literal host to its one address —
/// exactly then no lookup is planned.
pub fn prepare_target(dst: &UriParts) -> (r: Result<TargetQuery, InvalidUriError>)
    ensures
        match r {
            Ok(q) => {
                &&& dst.host matches Some(h)
                &&& q.port == dst.spec_effective_port()
                &&& q.port_explicit == (dst.port matches Some(_))
                &&& {
                    let stripped = trim_char_end(
                        trim_char_start(dst.host->Some_0@, '['),
                        ']',
                    );
                    match spec_literal_addr(stripped, dst.spec_effective_port()) {
                        Some(a) => q.plan matches TargetPlan::Literal(addrs) && addrs@ =~= seq![a],
                        None => q.plan matches TargetPlan::Lookup(name) && name@ == stripped,
                    }
                }
            },
            Err(e) => dst.host is None && e == InvalidUriError(IoErrorKind::InvalidInput),
        },
{
    let (host, port) = match get_host_port(dst) {
        Ok(hp) => hp,
        Err(e) => {
            return Err(e);
        },
    };
    let port_explicit = match dst.port {
        Some(_) => true,
        None => false,
    };
    let stripped = strip_brackets(host.as_str());
    let plan = match SocketAddrs::try_parse(stripped.as_str(), port) {
        Some(addrs) => TargetPlan::Literal(addrs),
        None => TargetPlan::Lookup(Name::new(stripped)),
    };
    Ok(TargetQuery { plan, port, port_explicit })
}

/// The per-address connect budget: the total budget divided evenly over
/// the `n` addresses, and no budget at all when none was configured, the
/// budget is zero, or the list is empty.
pub open spec fn per_address_timeout(t: Option<u64>, n: nat) -> Option<u64> {
    match t {
        Some(d) => if d == 0 || n == 0 {
            None
        } else {
            Some((d as int / n as int) as u64)
        },
        None => None,
    }
}

/// One family's sweep: its addresses in order and the per-address budget.
pub struct ConnectingTcpRemote {
    pub addrs: SocketAddrs,
    pub connect_timeout: Option<u64>,
}

impl ConnectingTcpRemote {
    /// Budget the per-address timeout over the list.
    pub fn new(addrs: SocketAddrs, connect_timeout: Option<u64>) -> (r: ConnectingTcpRemote)
        ensures
            r.addrs@ == addrs@,
            r.connect_timeout == per_address_timeout(connect_timeout, addrs@.len()),
    {
        let n = addrs.len();
        let connect_timeout = match connect_timeout {
            Some(d) => if d == 0 || n == 0 {
                None
            } else {
                Some(d / (n as u64))
            },
            None => None,
        };
        ConnectingTcpRemote { addrs, connect_timeout }
    }
}

/// What one connect attempt came to.
#[derive(Clone, Copy, Debug, PartialEq, Eq, Structural)]
pub enum AttemptOutcome {
    Success,
    Failure(IoErrorKind),
}

/// Every attempt so far failed.
pub open spec fn all_failed(h: Seq<AttemptOutcome>) -> bool {
    forall|i: int| 0 <= i < h.len() ==> (#[trigger] h[i]) matches AttemptOutcome::Failure(_)
}

/// The error a sweep ends with: the last attempt's error, or NotConnected
/// when there was no attempt at all.
pub open spec fn sweep_failure_kind(h: Seq<AttemptOutcome>) -> IoErrorKind {
    if h.len() == 0 {
        IoErrorKind::NotConnected
    } else {
        match h.last() {
            AttemptOutcome::Failure(k) => k,
            AttemptOutcome::Success => IoErrorKind::NotConnected,
        }
    }
}

/// The sweep's progress: the next address to try, the last error, and the
/// recorded outcomes.
pub struct SweepState {
    pub idx: usize,
    pub last_err: Option<IoErrorKind>,
    pub history: Ghost<Seq<AttemptOutcome>>,
}

/// What the sweep asks for next: try one address with the per-address
/// budget, or give up with the sweep's error.
pub enum SweepCommand {
    Try(SocketAddress, Option<u64>),
    Fail(TcpError),
}

impl ConnectingTcpRemote {
    /// The sweep state is consistent: one recorded outcome per tried
    /// address, all of them failures, and the last error is the latest.
    pub open spec fn sweep_inv(&self, st: SweepState) -> bool {
        &&& st.idx == st.history@.len()
        &&& st.idx <= self.addrs@.len()
        &&& all_failed(st.history@)
        &&& st.last_err == if st.history@.len() == 0 {
            None::<IoErrorKind>
        } else {
            Some(sweep_failure_kind(st.history@))
        }
    }

    pub fn sweep_begin(&self) -> (st: SweepState)
        ensures
            self.sweep_inv(st),
            st.idx == 0,
            st.history@ == Seq::<AttemptOutcome>::empty(),
    {
        SweepState { idx: 0, last_err: None, history: Ghost(Seq::empty()) }
    }

    /// The next step: attempt the addresses in list order; when they are
    /// exhausted, fail with the last error, or NotConnected if there was
    /// no address to try.
    pub fn sweep_next(&self, st: &SweepState) -> (c: SweepCommand)
        requires
            self.sweep_inv(*st),
        ensures
            st.idx < self.addrs@.len() ==> c == SweepCommand::Try(
                self.addrs@[st.idx as int],
                self.connect_timeout,
            ),
            st.idx == self.addrs@.len() ==> c == SweepCommand::Fail(
                TcpError(sweep_failure_kind(st.history@)),
            ),
    {
        if st.idx < self.addrs.len() {
            SweepCommand::Try(self.addrs.get(st.idx), self.connect_timeout)
        } else {
            match st.last_err {
                Some(k) => SweepCommand::Fail(TcpError(k)),
                None => SweepCommand::Fail(TcpError(IoErrorKind::NotConnected)),
            }
        }
    }

    /// Record a failed attempt and move to the next address.
    pub fn sweep_failed(&self, st: SweepState, kind: IoErrorKind) -> (st2: SweepState)
        requires
            self.sweep_inv(st),
            st.idx < self.addrs@.len(),
        ensures
            self.sweep_inv(st2),
            st2.idx == st.idx + 1,
            st2.history@ == st.history@.push(AttemptOutcome::Failure(kind)),
    {
        let n = self.addrs.len();
        proof {
            assert(st.idx < n);
        }
        let st2 = SweepState {
            idx: st.idx + 1,
            last_err: Some(kind),
            history: Ghost(st.history@.push(AttemptOutcome::Failure(kind))),
        };
        proof {
            assert(st2.history@.last() == AttemptOutcome::Failure(kind));
            assert(all_failed(st2.history@)) by {
                assert(forall|i: int|
                    0 <= i < st.history@.len() ==> st2.history@[i] == #[trigger] st.history@[i]);
            }
        }
        st2
    }
}

/// The Happy-Eyeballs plan: the preferred sweep, and — when a delay is
/// configured and the other family resolved too — the fallback sweep that
/// starts after the delay.
pub struct ConnectingTcp {
    pub preferred: ConnectingTcpRemote,
    pub fallback: Option<ConnectingTcpFallback>,
}

pub struct ConnectingTcpFallback {
    pub delay: u64,
    pub remote: ConnectingTcpRemote,
}

impl ConnectingTcp {
    /// Build the plan. With no Happy-Eyeballs delay configured, all
    /// addresses are swept in order and nothing races.
    pub fn new(remote_addrs: SocketAddrs, config: &ConnectorConfig) -> (r: ConnectingTcp)
        ensures
            match config.happy_eyeballs_timeout {
                Some(d) => {
                    let p = spec_preferred(
                        remote_addrs@,
                        config.local_address_ipv4,
                        config.local_address_ipv6,
                    );
                    let f = spec_fallback(
                        remote_addrs@,
                        config.local_address_ipv4,
                        config.local_address_ipv6,
                    );
                    &&& r.preferred.addrs@ == p
                    &&& r.preferred.connect_timeout == per_address_timeout(
                        config.connect_timeout,
                        p.len(),
                    )
                    &&& if f.len() == 0 {
                        r.fallback is None
                    } else {
                        &&& r.fallback matches Some(fb)
                        &&& fb.delay == d
                        &&& fb.remote.addrs@ == f
                        &&& fb.remote.connect_timeout == per_address_timeout(
                            config.connect_timeout,
                            f.len(),
                        )
                    }
                },
                None => {
                    &&& r.preferred.addrs@ == remote_addrs@
                    &&& r.preferred.connect_timeout == per_address_timeout(
                        config.connect_timeout,
                        remote_addrs@.len(),
                    )
                    &&& r.fallback is None
                },
            },
    {
        match config.happy_eyeballs_timeout {
            Some(fallback_timeout) => {
                let (preferred_addrs, fallback_addrs) = remote_addrs.split_by_preference(
                    config.local_address_ipv4,
                    config.local_address_ipv6,
                );
                if fallback_addrs.is_empty() {
                    ConnectingTcp {
                        preferred: ConnectingTcpRemote::new(
                            preferred_addrs,
                            config.connect_timeout,
                        ),
                        fallback: None,
                    }
                } else {
                    ConnectingTcp {
                        preferred: ConnectingTcpRemote::new(
                            preferred_addrs,
                            config.connect_timeout,
                        ),
                        fallback: Some(
                            ConnectingTcpFallback {
                                delay: fallback_timeout,
                                remote: ConnectingTcpRemote::new(
                                    fallback_addrs,
                                    config.connect_timeout,
                                ),
                            },
                        ),
                    }
                }
            },
            None => ConnectingTcp {
                preferred: ConnectingTcpRemote::new(remote_addrs, config.connect_timeout),
                fallback: None,
            },
        }
    }
}

/// A finished connect: the peer it reached, or the error it ended with.
pub type ConnectResult = Result<SocketAddress, TcpError>;

/// What the race returns once the branch that finished first is known: its
/// success stands; on its failure the other branch's result stands.
pub open spec fn spec_settle(first: ConnectResult, other: ConnectResult) -> ConnectResult {
    match first {
        Ok(a) => Ok(a),
        Err(_) => other,
    }
}

/// Settle the race between the sweep that finished first and the other
/// one: a winner's error falls back to the other's result.
pub fn race_settle(first: ConnectResult, other: ConnectResult) -> (r: ConnectResult)
    ensures
        r == spec_settle(first, other),
{
    match first {
        Ok(a) => Ok(a),
        Err(_) => other,
    }
}

/// Happy-Eyeballs law: when every preferred attempt fails and the fallback
/// sweep connects, the race returns the fallback's connection — whichever
/// branch finished first — and so no preferred address is returned.
pub proof fn lemma_fallback_success_wins(
    preferred: ConnectResult,
    fallback: ConnectResult,
    preferred_first: bool,
)
    requires
        preferred is Err,
        fallback is Ok,
    ensures
        (if preferred_first {
            spec_settle(preferred, fallback)
        } else {
            spec_settle(fallback, preferred)
        }) == fallback,
{
}

/// Which local address a connect attempt binds, by the table of the
/// binding policy: the configured local address of the target's family
/// with port zero; with none configured, no bind on Unix and the family's
/// wildcard on Windows.
pub fn local_bind_address(
    target: &SocketAddress,
    local_v4: Option<u32>,
    local_v6: Option<u128>,
    windows: bool,
) -> (r: Option<SocketAddress>)
    ensures
        match (target.ip, local_v4, local_v6) {
            (IpAddress::V4(_), Some(a), _) => r == Some(
                SocketAddress { ip: IpAddress::V4(a), port: 0 },
            ),
            (IpAddress::V6(_), _, Some(a)) => r == Some(
                SocketAddress { ip: IpAddress::V6(a), port: 0 },
            ),
            _ => if windows {
                r == Some(
                    SocketAddress {
                        ip: if target.ip is V4 {
                            IpAddress::V4(0)
                        } else {
                            IpAddress::V6(0)
                        },
                        port: 0,
                    },
                )
            } else {
                r is None
            },
        },
{
    match (target.ip, local_v4, local_v6) {
        (IpAddress::V4(_), Some(a), _) => Some(SocketAddress { ip: IpAddress::V4(a), port: 0 }),
        (IpAddress::V6(_), _, Some(a)) => Some(SocketAddress { ip: IpAddress::V6(a), port: 0 }),
        _ => {
            if windows {
                let ip = match target.ip {
                    IpAddress::V4(_) => IpAddress::V4(0),
                    IpAddress::V6(_) => IpAddress::V6(0),
                };
                Some(SocketAddress { ip, port: 0 })
            } else {
                None
            }
        },
    }
}

} // verus!
