use jproxy::cidr::{IpCidr, Ipv4Cidr, Ipv6Cidr};
use jproxy::config::Config;
use jproxy::error::IoErrorKind;
use jproxy::http::proxy::{
    connect_established_response, host_addr, route_request, HttpProxy, ProxyDecision,
};
use jproxy::net::IpAddress;
use jproxy::proxy::{default_conf_dir, log_level};
use jproxy::route::{
    route_exists, route_matches, route_request_for, RouteFamily, RouteKind, RouteProtocol,
    RouteRecord, RouteScope, LOCAL_TABLE_ID, ROUTE_PRIORITY,
};
use jproxy::serve::{
    accept_error_action, is_connection_error, is_http_verb_initial, screen_connection,
    AcceptErrorAction, ConnDecision, PeekOutcome, ACCEPT_ERROR_PAUSE_NS,
};
use jproxy::uri::UriParts;

fn uri_with_authority(authority: Option<&str>) -> UriParts {
    UriParts {
        is_https: false,
        host: authority.map(|a| a.to_string()),
        port: None,
        authority: authority.map(|a| a.to_string()),
    }
}

#[test]
fn connect_without_authority_is_a_400() {
    let r = route_request("CONNECT", &uri_with_authority(None));
    match r {
        ProxyDecision::Respond(resp) => {
            assert_eq!(resp.status, 400);
            assert_eq!(resp.body, "CONNECT must be to a socket address");
        }
        _ => panic!("a CONNECT without authority must be answered 400"),
    }
}

#[test]
fn connect_with_authority_opens_a_tunnel() {
    let r = route_request("CONNECT", &uri_with_authority(Some("127.0.0.1:443")));
    match r {
        ProxyDecision::OpenTunnel(t) => assert_eq!(t, "127.0.0.1:443"),
        _ => panic!("a CONNECT with authority must open a tunnel"),
    }
}

#[test]
fn other_methods_are_forwarded() {
    for m in ["GET", "HEAD", "POST", "DELETE", "OPTIONS", "TRACE", "PUT", "connect"] {
        match route_request(m, &uri_with_authority(Some("example.com:80"))) {
            ProxyDecision::Forward => {}
            _ => panic!("{m} must be forwarded"),
        }
    }
}

#[test]
fn accepted_connect_is_200_with_empty_body() {
    let r = connect_established_response();
    assert_eq!(r.status, 200);
    assert_eq!(r.body, "");
}

#[test]
fn authority_is_taken_verbatim() {
    assert_eq!(
        host_addr(&uri_with_authority(Some("[::1]:8080"))),
        Some("[::1]:8080".to_string())
    );
    assert_eq!(host_addr(&uri_with_authority(None)), None);
}

#[test]
fn proxy_holds_its_snapshot() {
    let c = Config::default();
    let p = HttpProxy::new(c);
    assert_eq!(p.config, c);
}

#[test]
fn verb_initials_are_recognized_in_both_cases() {
    for b in [
        b'G', b'g', b'H', b'h', b'P', b'p', b'D', b'd', b'C', b'c', b'O', b'o', b'T', b't',
    ] {
        assert!(is_http_verb_initial(b), "{} begins a verb", b as char);
    }
    for b in [b'S', b'X', b'A', b'e', 0u8, 0xFF, b' ', b'\r'] {
        assert!(!is_http_verb_initial(b), "{} begins no verb", b);
    }
}

#[test]
fn version_sniff_drops_foreign_protocols() {
    // the first byte of "SSH-2.0\r\n"
    assert_eq!(screen_connection(PeekOutcome::Byte(b'S')), ConnDecision::Drop);
    assert_eq!(screen_connection(PeekOutcome::Byte(b'G')), ConnDecision::Serve);
    assert_eq!(screen_connection(PeekOutcome::Byte(b'c')), ConnDecision::Serve);
    assert_eq!(screen_connection(PeekOutcome::Empty), ConnDecision::Drop);
    assert_eq!(
        screen_connection(PeekOutcome::Failed(IoErrorKind::ConnectionReset)),
        ConnDecision::Drop
    );
}

#[test]
fn transient_accept_errors_retry_silently() {
    for k in [
        IoErrorKind::ConnectionRefused,
        IoErrorKind::ConnectionAborted,
        IoErrorKind::ConnectionReset,
    ] {
        assert!(is_connection_error(k));
        assert_eq!(accept_error_action(k), AcceptErrorAction::RetrySilently);
    }
    for k in [IoErrorKind::TimedOut, IoErrorKind::Other, IoErrorKind::NotConnected] {
        assert!(!is_connection_error(k));
        assert_eq!(
            accept_error_action(k),
            AcceptErrorAction::LogAndPause(ACCEPT_ERROR_PAUSE_NS)
        );
    }
    assert_eq!(ACCEPT_ERROR_PAUSE_NS, 1_000_000_000);
}

#[test]
fn route_matching_reads_the_header_and_destination() {
    let cidr = IpCidr::V6(Ipv6Cidr::new(0x2001_0DB8u128 << 96, 64).unwrap());
    let good = RouteRecord {
        family: RouteFamily::V6,
        destination_prefix_len: 64,
        table: LOCAL_TABLE_ID,
        destination: Some(IpAddress::V6(0x2001_0DB8u128 << 96)),
    };
    assert!(route_matches(&good, &cidr));
    let wrong_table = RouteRecord { table: 254, ..good };
    assert!(!route_matches(&wrong_table, &cidr));
    let wrong_len = RouteRecord { destination_prefix_len: 48, ..good };
    assert!(!route_matches(&wrong_len, &cidr));
    let no_dest = RouteRecord { destination: None, ..good };
    assert!(!route_matches(&no_dest, &cidr));
    let wrong_family = RouteRecord { family: RouteFamily::V4, ..good };
    assert!(!route_matches(&wrong_family, &cidr));

    assert!(route_exists(&vec![wrong_table, good], &cidr));
    assert!(!route_exists(&vec![wrong_table, wrong_len], &cidr));
    assert!(!route_exists(&vec![], &cidr));
}

#[test]
fn the_added_route_claims_the_prefix_on_loopback() {
    let cidr = IpCidr::V4(Ipv4Cidr::new(0x0A00_0000, 8).unwrap());
    let req = route_request_for(&cidr, 1);
    assert_eq!(req.family, RouteFamily::V4);
    assert_eq!(req.destination, IpAddress::V4(0x0A00_0000));
    assert_eq!(req.destination_prefix_len, 8);
    assert_eq!(req.output_interface, 1);
    assert_eq!(req.kind, RouteKind::Local);
    assert_eq!(req.protocol, RouteProtocol::Boot);
    assert_eq!(req.scope, RouteScope::Universe);
    assert_eq!(req.priority, ROUTE_PRIORITY);
    assert_eq!(req.priority, 1024);
    assert_eq!(req.table, LOCAL_TABLE_ID);
    assert_eq!(req.table, 255);
}

#[test]
fn bootstrap_defaults() {
    assert_eq!(default_conf_dir(), "configs");
    assert_eq!(log_level(true), "trace");
    assert_eq!(log_level(false), "info");
}
