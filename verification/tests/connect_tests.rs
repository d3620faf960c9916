use jproxy::cidr::{IpCidr, Ipv4Cidr, Ipv6Cidr};
use jproxy::connect::dns::{resolve_result, InvalidNameError, Name, ResolveOutcome, Resolver,
    SocketAddrs};
use jproxy::connect::error::{DnsError, Error, InvalidUriError, TcpError};
use jproxy::error::Error as TopError;
use jproxy::connect::tcp::{
    local_bind_address, get_host_port, prepare_target, race_settle, strip_brackets,
    ConnectingTcp, ConnectingTcpRemote, SweepCommand, TargetPlan, TcpConnector,
    DEFAULT_HAPPY_EYEBALLS_TIMEOUT_NS,
};
use jproxy::error::IoErrorKind;
use jproxy::net::{IpAddress, SocketAddress};
use jproxy::uri::UriParts;

fn v4(a: u32, port: u16) -> SocketAddress {
    SocketAddress { ip: IpAddress::V4(a), port }
}

fn v6(a: u128, port: u16) -> SocketAddress {
    SocketAddress { ip: IpAddress::V6(a), port }
}

fn uri(is_https: bool, host: Option<&str>, port: Option<u16>) -> UriParts {
    UriParts {
        is_https,
        host: host.map(|h| h.to_string()),
        port,
        authority: host.map(|h| h.to_string()),
    }
}

#[test]
fn connector_defaults() {
    let c = TcpConnector::new();
    assert_eq!(c.config.connect_timeout, None);
    assert_eq!(
        c.config.happy_eyeballs_timeout,
        Some(DEFAULT_HAPPY_EYEBALLS_TIMEOUT_NS)
    );
    assert_eq!(c.config.local_address_ipv4, None);
    assert_eq!(c.config.local_address_ipv6, None);
    assert!(!c.config.nodelay);
}

#[test]
fn connector_setters() {
    let mut c = TcpConnector::new();
    c.set_connect_timeout(Some(5_000_000_000));
    assert_eq!(c.config.connect_timeout, Some(5_000_000_000));
    c.set_happy_eyeballs_timeout(None);
    assert_eq!(c.config.happy_eyeballs_timeout, None);
    c.set_nodelay(true);
    assert!(c.config.nodelay);
    c.set_local_address(Some(IpAddress::V4(0x7F00_0001)));
    assert_eq!(c.config.local_address_ipv4, Some(0x7F00_0001));
    assert_eq!(c.config.local_address_ipv6, None);
    c.set_local_address(Some(IpAddress::V6(1)));
    assert_eq!(c.config.local_address_ipv4, None);
    assert_eq!(c.config.local_address_ipv6, Some(1));
    c.set_local_addresses(7, 9);
    assert_eq!(c.config.local_address_ipv4, Some(7));
    assert_eq!(c.config.local_address_ipv6, Some(9));
    c.set_local_address(None);
    assert_eq!(c.config.local_address_ipv4, None);
    assert_eq!(c.config.local_address_ipv6, None);
}

#[test]
fn cidr_assignment_draws_inside_prefix() {
    let mut c = TcpConnector::new();
    let net = 0x2001_0DB8_0000_0000_0000_0000_0000_0000u128;
    let cidr = IpCidr::V6(Ipv6Cidr::new(net, 64).unwrap());
    c.assign_local_address_from_cidr(Some(cidr));
    let a = c.config.local_address_ipv6.expect("a local v6 address");
    assert_eq!(a >> 64, net >> 64);
    assert_eq!(c.config.local_address_ipv4, None);

    let mut c = TcpConnector::new();
    let cidr4 = IpCidr::V4(Ipv4Cidr::new(0xC0A8_0100, 24).unwrap());
    c.assign_local_address_from_cidr(Some(cidr4));
    let a = c.config.local_address_ipv4.expect("a local v4 address");
    assert_ne!(a, 0xC0A8_0100);
    assert_ne!(a, 0xC0A8_01FF);
    assert_eq!(a & 0xFFFF_FF00, 0xC0A8_0100);
}

#[test]
fn cidr_assignment_none_changes_nothing() {
    let mut c = TcpConnector::new();
    c.set_local_addresses(7, 9);
    c.assign_local_address_from_cidr(None);
    assert_eq!(c.config.local_address_ipv4, Some(7));
    assert_eq!(c.config.local_address_ipv6, Some(9));
}

#[test]
fn host_port_defaults_by_scheme() {
    let (h, p) = get_host_port(&uri(false, Some("example.com"), None)).unwrap();
    assert_eq!(h, "example.com");
    assert_eq!(p, 80);
    let (_, p) = get_host_port(&uri(true, Some("example.com"), None)).unwrap();
    assert_eq!(p, 443);
    let (_, p) = get_host_port(&uri(true, Some("example.com"), Some(8443))).unwrap();
    assert_eq!(p, 8443);
}

#[test]
fn host_port_requires_a_host() {
    let e = get_host_port(&uri(false, None, None)).unwrap_err();
    assert_eq!(e, InvalidUriError(IoErrorKind::InvalidInput));
}

#[test]
fn brackets_are_stripped() {
    assert_eq!(strip_brackets("[::1]"), "::1");
    assert_eq!(strip_brackets("[2001:db8::1]"), "2001:db8::1");
    assert_eq!(strip_brackets("example.com"), "example.com");
    assert_eq!(strip_brackets("[[x]]"), "x");
    assert_eq!(strip_brackets("]x["), "]x[");
    assert_eq!(strip_brackets(""), "");
}

#[test]
fn literal_hosts_skip_the_resolver() {
    let q = prepare_target(&uri(false, Some("127.0.0.1"), Some(8080))).unwrap();
    match q.plan {
        TargetPlan::Literal(addrs) => {
            assert_eq!(addrs.len(), 1);
            assert_eq!(addrs.get(0), v4(0x7F00_0001, 8080));
        }
        TargetPlan::Lookup(_) => panic!("a literal host must not be looked up"),
    }
    assert!(q.port_explicit);

    let q = prepare_target(&uri(true, Some("[::1]"), None)).unwrap();
    match q.plan {
        TargetPlan::Literal(addrs) => {
            assert_eq!(addrs.len(), 1);
            assert_eq!(addrs.get(0), v6(1, 443));
        }
        TargetPlan::Lookup(_) => panic!("a literal host must not be looked up"),
    }
    assert!(!q.port_explicit);
}

#[test]
fn named_hosts_go_to_the_resolver() {
    let q = prepare_target(&uri(false, Some("example.com"), None)).unwrap();
    match q.plan {
        TargetPlan::Lookup(name) => assert_eq!(name.as_str(), "example.com"),
        TargetPlan::Literal(_) => panic!("a name is no literal"),
    }
    assert_eq!(q.port, 80);
}

#[test]
fn per_address_timeout_divides_evenly() {
    let addrs = SocketAddrs::new(vec![v4(1, 80), v4(2, 80), v4(3, 80)]);
    let r = ConnectingTcpRemote::new(addrs, Some(10_000_000_000));
    assert_eq!(r.connect_timeout, Some(3_333_333_333));
}

#[test]
fn per_address_timeout_unset_cases() {
    let none = ConnectingTcpRemote::new(SocketAddrs::new(vec![v4(1, 80)]), None);
    assert_eq!(none.connect_timeout, None);
    let empty = ConnectingTcpRemote::new(SocketAddrs::new(vec![]), Some(10));
    assert_eq!(empty.connect_timeout, None);
    let zero = ConnectingTcpRemote::new(SocketAddrs::new(vec![v4(1, 80)]), Some(0));
    assert_eq!(zero.connect_timeout, None);
}

#[test]
fn split_prefers_the_first_family() {
    let addrs = SocketAddrs::new(vec![v6(1, 80), v4(2, 80), v6(3, 80), v4(4, 80)]);
    let (p, f) = addrs.split_by_preference(None, None);
    assert_eq!(p.len(), 2);
    assert_eq!(p.get(0), v6(1, 80));
    assert_eq!(p.get(1), v6(3, 80));
    assert_eq!(f.len(), 2);
    assert_eq!(f.get(0), v4(2, 80));
    assert_eq!(f.get(1), v4(4, 80));
}

#[test]
fn split_with_one_local_keeps_one_family() {
    let addrs = SocketAddrs::new(vec![v6(1, 80), v4(2, 80), v4(4, 80)]);
    let (p, f) = addrs.split_by_preference(Some(0x7F00_0001), None);
    assert_eq!(p.len(), 2);
    assert_eq!(p.get(0), v4(2, 80));
    assert!(f.is_empty());

    let addrs = SocketAddrs::new(vec![v6(1, 80), v4(2, 80)]);
    let (p, f) = addrs.split_by_preference(None, Some(1));
    assert_eq!(p.len(), 1);
    assert_eq!(p.get(0), v6(1, 80));
    assert!(f.is_empty());
}

#[test]
fn plan_races_only_mixed_families() {
    let mut config = TcpConnector::new().config;
    config.connect_timeout = Some(8_000_000_000);
    let mixed = SocketAddrs::new(vec![v6(1, 80), v4(2, 80)]);
    let plan = ConnectingTcp::new(mixed, &config);
    let fb = plan.fallback.expect("mixed families must race");
    assert_eq!(fb.delay, DEFAULT_HAPPY_EYEBALLS_TIMEOUT_NS);
    assert_eq!(fb.remote.addrs.len(), 1);
    assert_eq!(fb.remote.connect_timeout, Some(8_000_000_000));
    assert_eq!(plan.preferred.addrs.len(), 1);
    assert_eq!(plan.preferred.connect_timeout, Some(8_000_000_000));

    let single = SocketAddrs::new(vec![v4(1, 80), v4(2, 80)]);
    let plan = ConnectingTcp::new(single, &config);
    assert!(plan.fallback.is_none());
    assert_eq!(plan.preferred.addrs.len(), 2);

    config.happy_eyeballs_timeout = None;
    let mixed = SocketAddrs::new(vec![v6(1, 80), v4(2, 80)]);
    let plan = ConnectingTcp::new(mixed, &config);
    assert!(plan.fallback.is_none());
    assert_eq!(plan.preferred.addrs.len(), 2);
}

#[test]
fn sweep_walks_addresses_in_order() {
    let remote = ConnectingTcpRemote::new(
        SocketAddrs::new(vec![v4(1, 80), v4(2, 80)]),
        Some(4_000_000_000),
    );
    let st = remote.sweep_begin();
    match remote.sweep_next(&st) {
        SweepCommand::Try(a, t) => {
            assert_eq!(a, v4(1, 80));
            assert_eq!(t, Some(2_000_000_000));
        }
        SweepCommand::Fail(_) => panic!("addresses remain"),
    }
    let st = remote.sweep_failed(st, IoErrorKind::ConnectionRefused);
    match remote.sweep_next(&st) {
        SweepCommand::Try(a, _) => assert_eq!(a, v4(2, 80)),
        SweepCommand::Fail(_) => panic!("one address remains"),
    }
    let st = remote.sweep_failed(st, IoErrorKind::TimedOut);
    match remote.sweep_next(&st) {
        SweepCommand::Fail(e) => assert_eq!(e, TcpError(IoErrorKind::TimedOut)),
        SweepCommand::Try(..) => panic!("the list is exhausted"),
    }
}

#[test]
fn empty_sweep_is_not_connected() {
    let remote = ConnectingTcpRemote::new(SocketAddrs::new(vec![]), Some(1_000_000_000));
    let st = remote.sweep_begin();
    match remote.sweep_next(&st) {
        SweepCommand::Fail(e) => assert_eq!(e, TcpError(IoErrorKind::NotConnected)),
        SweepCommand::Try(..) => panic!("nothing to try"),
    }
}

#[test]
fn race_returns_fallback_when_preferred_fails() {
    let p: Result<SocketAddress, TcpError> = Err(TcpError(IoErrorKind::TimedOut));
    let f: Result<SocketAddress, TcpError> = Ok(v4(0x7F00_0001, 80));
    // preferred finished first
    assert_eq!(race_settle(p, f), Ok(v4(0x7F00_0001, 80)));
    // fallback finished first
    assert_eq!(race_settle(f, p), Ok(v4(0x7F00_0001, 80)));
}

#[test]
fn race_keeps_the_winner_and_the_last_error() {
    let a = Ok(v4(1, 80));
    let b = Ok(v6(2, 80));
    assert_eq!(race_settle(a, b), a);
    let e1: Result<SocketAddress, TcpError> = Err(TcpError(IoErrorKind::ConnectionRefused));
    let e2: Result<SocketAddress, TcpError> = Err(TcpError(IoErrorKind::TimedOut));
    assert_eq!(race_settle(e1, e2), e2);
}

#[test]
fn bind_policy_follows_the_table() {
    let t4 = v4(0x0807_0605, 80);
    let t6 = v6(3, 80);
    assert_eq!(
        local_bind_address(&t4, Some(0x7F00_0001), None, false),
        Some(v4(0x7F00_0001, 0))
    );
    assert_eq!(
        local_bind_address(&t4, Some(0x7F00_0001), Some(9), false),
        Some(v4(0x7F00_0001, 0))
    );
    assert_eq!(local_bind_address(&t6, None, Some(9), false), Some(v6(9, 0)));
    assert_eq!(local_bind_address(&t4, None, Some(9), false), None);
    assert_eq!(local_bind_address(&t6, Some(7), None, false), None);
    assert_eq!(local_bind_address(&t4, None, None, false), None);
    assert_eq!(local_bind_address(&t4, None, None, true), Some(v4(0, 0)));
    assert_eq!(local_bind_address(&t6, None, None, true), Some(v6(0, 0)));
}

#[test]
fn port_policy_rewrites_resolved_ports() {
    let mut addrs = SocketAddrs::new(vec![v4(1, 0), v4(2, 53)]);
    addrs.apply_port_policy(8080, false);
    assert_eq!(addrs.get(0).port, 8080);
    assert_eq!(addrs.get(1).port, 53);

    let mut addrs = SocketAddrs::new(vec![v4(1, 0), v4(2, 53)]);
    addrs.apply_port_policy(8080, true);
    assert_eq!(addrs.get(0).port, 8080);
    assert_eq!(addrs.get(1).port, 8080);
}

#[test]
fn literal_list_has_exactly_one_element() {
    let addrs = SocketAddrs::try_parse("127.0.0.1", 443).expect("a literal");
    assert_eq!(addrs.len(), 1);
    assert_eq!(addrs.get(0), v4(0x7F00_0001, 443));
    let addrs = SocketAddrs::try_parse("2001:db8::7", 80).expect("a literal");
    assert_eq!(addrs.len(), 1);
    assert_eq!(
        addrs.get(0),
        v6(0x2001_0DB8_0000_0000_0000_0000_0000_0007, 80)
    );
    assert!(SocketAddrs::try_parse("example.com", 80).is_none());
    assert!(SocketAddrs::try_parse("127.0.0.1:80", 80).is_none());
}

#[test]
fn resolver_outcomes_become_answers() {
    let addrs = resolve_result(ResolveOutcome::Resolved(vec![v4(1, 0), v6(2, 0)])).unwrap();
    assert_eq!(addrs.len(), 2);
    assert_eq!(addrs.get(0), v4(1, 0));
    assert_eq!(addrs.get(1), v6(2, 0));

    let err = resolve_result(ResolveOutcome::Failed(IoErrorKind::Other)).unwrap_err();
    assert_eq!(err, DnsError(IoErrorKind::Other));

    let err = resolve_result(ResolveOutcome::Cancelled).unwrap_err();
    assert_eq!(err, DnsError(IoErrorKind::Interrupted));
}

#[test]
fn names_keep_their_text() {
    let n = Name::new("example.com".to_string());
    assert_eq!(n.as_str(), "example.com");
    let _ = Resolver::new();
    let _ = InvalidNameError::new();
}

#[test]
fn connect_error_variants_carry_their_kind() {
    let e = Error::Dns(DnsError(IoErrorKind::Interrupted));
    assert_eq!(e, Error::Dns(DnsError(IoErrorKind::Interrupted)));
    let e = Error::InvalidUri(InvalidUriError(IoErrorKind::InvalidInput));
    assert_ne!(e, Error::Tcp(TcpError(IoErrorKind::InvalidInput)));
    let t = TopError::IOError(IoErrorKind::Other);
    assert_eq!(t, TopError::IOError(IoErrorKind::Other));
}

#[test]
fn split_with_both_locals_prefers_the_first_family() {
    let addrs = SocketAddrs::new(vec![v4(2, 80), v6(1, 80), v4(4, 80)]);
    let (p, f) = addrs.split_by_preference(Some(0x7F00_0001), Some(1));
    assert_eq!(p.len(), 2);
    assert_eq!(p.get(0), v4(2, 80));
    assert_eq!(p.get(1), v4(4, 80));
    assert_eq!(f.len(), 1);
    assert_eq!(f.get(0), v6(1, 80));
}

#[test]
fn split_of_an_empty_list_is_empty() {
    let addrs = SocketAddrs::new(vec![]);
    let (p, f) = addrs.split_by_preference(None, None);
    assert!(p.is_empty());
    assert!(f.is_empty());
}
