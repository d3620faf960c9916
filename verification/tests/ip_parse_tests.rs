use jproxy::ip_parse::{parse_ipv4, parse_ipv6};

#[test]
fn ipv4_accepts_plain_addresses() {
    assert_eq!(parse_ipv4("127.0.0.1"), Some(0x7F00_0001));
    assert_eq!(parse_ipv4("0.0.0.0"), Some(0));
    assert_eq!(parse_ipv4("255.255.255.255"), Some(0xFFFF_FFFF));
    assert_eq!(parse_ipv4("203.0.113.9"), Some(0xCB00_7109));
    assert_eq!(parse_ipv4("192.168.1.100"), Some(0xC0A8_0164));
}

#[test]
fn ipv4_rejects_out_of_range_octets() {
    assert_eq!(parse_ipv4("256.0.0.1"), None);
    assert_eq!(parse_ipv4("1.2.3.999"), None);
    assert_eq!(parse_ipv4("300.300.300.300"), None);
}

#[test]
fn ipv4_rejects_leading_zeros() {
    assert_eq!(parse_ipv4("01.2.3.4"), None);
    assert_eq!(parse_ipv4("1.2.3.04"), None);
    assert_eq!(parse_ipv4("00.0.0.0"), None);
}

#[test]
fn ipv4_rejects_wrong_shapes() {
    assert_eq!(parse_ipv4(""), None);
    assert_eq!(parse_ipv4("1.2.3"), None);
    assert_eq!(parse_ipv4("1.2.3.4.5"), None);
    assert_eq!(parse_ipv4("1..2.3"), None);
    assert_eq!(parse_ipv4("1.2.3."), None);
    assert_eq!(parse_ipv4(".1.2.3"), None);
    assert_eq!(parse_ipv4("a.b.c.d"), None);
    assert_eq!(parse_ipv4("1.2.3.4 "), None);
    assert_eq!(parse_ipv4("+1.2.3.4"), None);
    assert_eq!(parse_ipv4("1.2.3.4x"), None);
}

#[test]
fn ipv6_accepts_full_form() {
    assert_eq!(
        parse_ipv6("1:2:3:4:5:6:7:8"),
        Some(0x0001_0002_0003_0004_0005_0006_0007_0008)
    );
    assert_eq!(
        parse_ipv6("fe80:0:0:0:0:0:0:1"),
        Some(0xFE80_0000_0000_0000_0000_0000_0000_0001)
    );
}

#[test]
fn ipv6_accepts_compression() {
    assert_eq!(parse_ipv6("::"), Some(0));
    assert_eq!(parse_ipv6("::1"), Some(1));
    assert_eq!(
        parse_ipv6("2001:db8::"),
        Some(0x2001_0DB8_0000_0000_0000_0000_0000_0000)
    );
    assert_eq!(
        parse_ipv6("fe80::1"),
        Some(0xFE80_0000_0000_0000_0000_0000_0000_0001)
    );
    assert_eq!(parse_ipv6("1::8"), Some(0x0001_0000_0000_0000_0000_0000_0000_0008));
    assert_eq!(
        parse_ipv6("1:2:3:4:5:6:7::"),
        Some(0x0001_0002_0003_0004_0005_0006_0007_0000)
    );
}

#[test]
fn ipv6_accepts_either_hex_case_and_long_groups() {
    assert_eq!(parse_ipv6("ABCD::ef01"), Some(0xABCD_0000_0000_0000_0000_0000_0000_EF01));
    assert_eq!(parse_ipv6("0000:0000:0000:0000:0000:0000:0000:0001"), Some(1));
}

#[test]
fn ipv6_accepts_embedded_ipv4() {
    assert_eq!(parse_ipv6("::ffff:1.2.3.4"), Some(0xFFFF_0102_0304));
    assert_eq!(
        parse_ipv6("1:2:3:4:5:6:7.8.9.10"),
        Some(0x0001_0002_0003_0004_0005_0006_0708_090A)
    );
    assert_eq!(parse_ipv6("::203.0.113.9"), Some(0xCB00_7109));
}

#[test]
fn ipv6_rejects_bad_compression() {
    assert_eq!(parse_ipv6("1::2::3"), None);
    assert_eq!(parse_ipv6(":::"), None);
    assert_eq!(parse_ipv6("::1::"), None);
    assert_eq!(parse_ipv6("1:2:3:4:5:6:7:8::"), None);
    assert_eq!(parse_ipv6("1:2:3:4::5:6:7:8"), None);
}

#[test]
fn ipv6_rejects_wrong_group_counts() {
    assert_eq!(parse_ipv6("1:2:3:4:5:6:7"), None);
    assert_eq!(parse_ipv6("1:2:3:4:5:6:7:8:9"), None);
    assert_eq!(parse_ipv6(""), None);
    assert_eq!(parse_ipv6("1"), None);
}

#[test]
fn ipv6_rejects_bad_groups() {
    assert_eq!(parse_ipv6("12345::"), None);
    assert_eq!(parse_ipv6("g::1"), None);
    assert_eq!(parse_ipv6(":1:2:3:4:5:6:7"), None);
    assert_eq!(parse_ipv6("1:2:3:4:5:6:7:"), None);
    assert_eq!(parse_ipv6("1.2.3.4"), None);
    assert_eq!(parse_ipv6("1:2:3:4:5:6:7:1.2.3.4"), None);
    assert_eq!(parse_ipv6("1.2.3.4::"), None);
    assert_eq!(parse_ipv6("::ffff:1.2.3.4.5"), None);
    assert_eq!(parse_ipv6("::ffff:01.2.3.4"), None);
}

#[test]
fn rendered_addresses_parse_back() {
    for ip in [0u32, 1, 0x7F00_0001, 0xFFFF_FFFF, 0xCB00_7109, 0x0A00_0001] {
        let s = format!(
            "{}.{}.{}.{}",
            ip >> 24,
            (ip >> 16) & 0xFF,
            (ip >> 8) & 0xFF,
            ip & 0xFF
        );
        assert_eq!(parse_ipv4(&s), Some(ip));
    }
}
