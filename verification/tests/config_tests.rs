use jproxy::cidr::{IpCidr, Ipv6Cidr};
use jproxy::config::{
    is_config_extension, merge_fragments, watcher_action, Config, ConfigFragment, ManagerState,
    WatchMessage, WatcherStep, WATCH_POLL_INTERVAL_NS,
};
use jproxy::net::{IpAddress, SocketAddress};

fn empty_fragment() -> ConfigFragment {
    ConfigFragment {
        debug: None,
        bind: None,
        concurrent: None,
        connect_timeout: None,
        cidr: None,
        fallback: None,
    }
}

#[test]
fn defaults_match_the_table() {
    let c = Config::default();
    assert!(!c.debug);
    assert_eq!(c.bind, SocketAddress { ip: IpAddress::V4(0), port: 3000 });
    assert_eq!(c.concurrent, 1024);
    assert_eq!(c.connect_timeout, Some(10_000_000_000));
    assert_eq!(c.cidr, None);
    assert_eq!(c.fallback, None);
}

#[test]
fn merge_of_nothing_is_the_default() {
    assert_eq!(merge_fragments(&vec![]), Config::default());
}

#[test]
fn later_fragments_override_earlier_ones() {
    let mut a = empty_fragment();
    a.concurrent = Some(64);
    a.debug = Some(true);
    let mut b = empty_fragment();
    b.concurrent = Some(256);
    let merged = merge_fragments(&vec![a, b]);
    assert_eq!(merged.concurrent, 256);
    assert!(merged.debug);
    assert_eq!(merged.bind, Config::default().bind);
}

#[test]
fn unset_fields_keep_their_defaults() {
    let mut a = empty_fragment();
    let cidr = IpCidr::V6(Ipv6Cidr::new(0x2001_0DB8u128 << 96, 64).unwrap());
    a.cidr = Some(cidr);
    a.connect_timeout = Some(5_000_000_000);
    let merged = merge_fragments(&vec![a, empty_fragment()]);
    assert_eq!(merged.cidr, Some(cidr));
    assert_eq!(merged.connect_timeout, Some(5_000_000_000));
    assert_eq!(merged.concurrent, 1024);
}

#[test]
fn config_extensions_are_the_six() {
    for ext in ["toml", "json", "yaml", "ini", "ron", "json5"] {
        assert!(is_config_extension(ext), "{ext} must be read");
    }
    for ext in ["txt", "TOML", "yml", "conf", "", "json5x"] {
        assert!(!is_config_extension(ext), "{ext} must be skipped");
    }
}

#[test]
fn snapshot_taken_before_a_reload_keeps_old_values() {
    let mut a = empty_fragment();
    a.concurrent = Some(10);
    let mut m = ManagerState::new_from(&vec![a]);
    let before = m.snapshot();
    assert_eq!(before.concurrent, 10);

    let mut b = empty_fragment();
    b.concurrent = Some(99);
    b.debug = Some(true);
    m.reload(&vec![b]);

    // the earlier snapshot is untouched, in full
    assert_eq!(before.concurrent, 10);
    assert!(!before.debug);
    // a new snapshot sees the new values, in full
    let after = m.snapshot();
    assert_eq!(after.concurrent, 99);
    assert!(after.debug);
}

#[test]
fn watcher_reloads_on_modify_only() {
    assert_eq!(watcher_action(WatchMessage::Modify), WatcherStep::Reload);
    assert_eq!(watcher_action(WatchMessage::OtherEvent), WatcherStep::Ignore);
    assert_eq!(watcher_action(WatchMessage::WatchError), WatcherStep::Ignore);
    assert_eq!(watcher_action(WatchMessage::Closed), WatcherStep::Stop);
    assert_eq!(WATCH_POLL_INTERVAL_NS, 2_000_000_000);
}
