use traffic_engine::address::{resolve, resolve_text, HostAddress, TargetAddress};
use traffic_engine::error::TrafficError;

fn v4(host: &str, port: i64) -> ([u8; 4], u16) {
    let target: TargetAddress = resolve(host, port).expect("a valid IPv4 target");
    assert!(target.is_ipv4());
    match target.host() {
        HostAddress::V4(octets) => (octets, target.port()),
        HostAddress::V6(_, _) => panic!("expected an IPv4 address"),
    }
}

fn v6(host: &str) -> ([u16; 8], u32) {
    let target: TargetAddress = resolve(host, 443).expect("a valid IPv6 target");
    assert!(!target.is_ipv4());
    assert_eq!(target.port(), 443);
    match target.host() {
        HostAddress::V6(groups, zone) => (groups, zone),
        HostAddress::V4(_) => panic!("expected an IPv6 address"),
    }
}

fn invalid(host: &str) {
    assert_eq!(resolve(host, 80), Err(TrafficError::InvalidAddress), "host {:?}", host);
}

#[test]
fn resolves_dotted_addresses() {
    assert_eq!(v4("10.0.0.1", 80), ([10, 0, 0, 1], 80));
    assert_eq!(v4("127.0.0.1", 9), ([127, 0, 0, 1], 9));
    assert_eq!(v4("0.0.0.0", 0), ([0, 0, 0, 0], 0));
    assert_eq!(v4("255.255.255.255", 65535), ([255, 255, 255, 255], 65535));
    assert_eq!(v4("192.168.1.254", 8080), ([192, 168, 1, 254], 8080));
}

#[test]
fn empty_host_is_invalid() {
    assert_eq!(resolve("", 80), Err(TrafficError::InvalidAddress));
}

#[test]
fn port_out_of_range_is_invalid() {
    assert_eq!(resolve("10.0.0.1", 70000), Err(TrafficError::InvalidAddress));
    assert_eq!(resolve("10.0.0.1", 65536), Err(TrafficError::InvalidAddress));
    assert_eq!(resolve("10.0.0.1", i64::MAX), Err(TrafficError::InvalidAddress));
    assert!(resolve("10.0.0.1", 65535).is_ok());
}

#[test]
fn negative_port_is_invalid() {
    assert_eq!(resolve("10.0.0.1", -1), Err(TrafficError::InvalidAddress));
    assert_eq!(resolve("10.0.0.1", i64::MIN), Err(TrafficError::InvalidAddress));
    assert!(resolve("10.0.0.1", 0).is_ok());
}

#[test]
fn malformed_dotted_addresses_are_invalid() {
    for host in [
        "1.2.3", "1.2.3.4.5", "1..2.3", ".1.2.3", "1.2.3.", "1.2.3.4.", "256.1.1.1", "1.2.3.256",
        "01.2.3.4", "1.2.3.04", "00.0.0.0", "1.2.3.4 ", " 1.2.3.4", "a.b.c.d", "1.2.3.-4",
        "+1.2.3.4", "1.2.3.4:80", "localhost", "example.com", "1,2,3,4", "1.2.3.0x4", "1.2.3.\u{ff11}",
        "1000.1.1.1", "0000.0.0.0", ".", "...", "....",
    ] {
        invalid(host);
    }
}

#[test]
fn zero_is_an_octet_but_not_with_more_zeros() {
    assert_eq!(v4("0.10.100.0", 1), ([0, 10, 100, 0], 1));
    invalid("0.010.100.0");
}

#[test]
fn resolves_bracketed_addresses_in_full() {
    assert_eq!(v6("[1:2:3:4:5:6:7:8]"), ([1, 2, 3, 4, 5, 6, 7, 8], 0));
    assert_eq!(
        v6("[2001:0db8:85a3:0000:0000:8a2e:0370:7334]"),
        ([0x2001, 0x0db8, 0x85a3, 0, 0, 0x8a2e, 0x0370, 0x7334], 0)
    );
    assert_eq!(
        v6("[FFFF:ffff:AbCd:0:00:000:0000:f]"),
        ([0xffff, 0xffff, 0xabcd, 0, 0, 0, 0, 0xf], 0)
    );
}

#[test]
fn resolves_bracketed_addresses_with_a_gap() {
    assert_eq!(v6("[::]"), ([0; 8], 0));
    assert_eq!(v6("[::1]"), ([0, 0, 0, 0, 0, 0, 0, 1], 0));
    assert_eq!(v6("[1::]"), ([1, 0, 0, 0, 0, 0, 0, 0], 0));
    assert_eq!(v6("[1::8]"), ([1, 0, 0, 0, 0, 0, 0, 8], 0));
    assert_eq!(v6("[fe80::1:2]"), ([0xfe80, 0, 0, 0, 0, 0, 1, 2], 0));
    assert_eq!(v6("[1:2:3:4:5:6:7::]"), ([1, 2, 3, 4, 5, 6, 7, 0], 0));
    assert_eq!(v6("[::2:3:4:5:6:7:8]"), ([0, 2, 3, 4, 5, 6, 7, 8], 0));
    assert_eq!(v6("[1:2:3::6:7:8]"), ([1, 2, 3, 0, 0, 6, 7, 8], 0));
    assert_eq!(v6("[1:2:3:4::6:7:8]"), ([1, 2, 3, 4, 0, 6, 7, 8], 0));
}

#[test]
fn resolves_bracketed_addresses_with_a_dotted_end() {
    assert_eq!(v6("[::ffff:1.2.3.4]"), ([0, 0, 0, 0, 0, 0xffff, 0x0102, 0x0304], 0));
    assert_eq!(v6("[::255.255.255.255]"), ([0, 0, 0, 0, 0, 0, 0xffff, 0xffff], 0));
    assert_eq!(v6("[1:2:3:4:5:6:10.0.0.1]"), ([1, 2, 3, 4, 5, 6, 0x0a00, 0x0001], 0));
    assert_eq!(v6("[64:ff9b::192.0.2.33]"), ([0x64, 0xff9b, 0, 0, 0, 0, 0xc000, 0x0221], 0));
    assert_eq!(v6("[1:2:3:4:5::1.2.3.4]"), ([1, 2, 3, 4, 5, 0, 0x0102, 0x0304], 0));
}

#[test]
fn resolves_zones() {
    assert_eq!(v6("[fe80::1%5]"), ([0xfe80, 0, 0, 0, 0, 0, 0, 1], 5));
    assert_eq!(v6("[::1%0]"), ([0, 0, 0, 0, 0, 0, 0, 1], 0));
    assert_eq!(v6("[::%007]"), ([0; 8], 7));
    assert_eq!(v6("[::1%4294967295]"), ([0, 0, 0, 0, 0, 0, 0, 1], 4294967295));
    for host in ["[::1%4294967296]", "[::1%]", "[::1%eth0]", "[::1%1%2]", "[%1]", "[::1%+1]"] {
        invalid(host);
    }
}

#[test]
fn malformed_bracketed_addresses_are_invalid() {
    for host in [
        "::1", "[::1", "::1]", "[]", "[", "]", "[[::1]]", "[:::]", "[:]", "[1:2:3:4:5:6:7]",
        "[1:2:3:4:5:6:7:8:9]", "[1::2::3]", "[12345::]", "[g::]", "[::1.2.3.4:5]", "[1.2.3.4::]",
        "[1:2:3:4:5:6:7:1.2.3.4]", "[1:2:3:4:5:6:7::8]", "[1:2:3:4:5:6::1.2.3.4]",
        "[1:2:3:4:5:6:7:8::]", "[::1:2:3:4:5:6:7:8]", "[:1:2:3:4:5:6:7]", "[1:2:3:4:5:6:7:]",
        "[1.2.3.4]", "[::1.2.3]", "[::01.2.3.4]", "[:: 1]", "[::-1]", "[1:2:3:4:5:6:7:8]x",
        "[::1]:80", "[1:2:3:4:5:6:1.2.3.4:8]", "[::ffff:1.2.3.4.5]",
    ] {
        invalid(host);
    }
}

#[test]
fn resolves_port_given_as_text() {
    let target = resolve_text("10.0.0.1", "8080").unwrap();
    assert_eq!(target.port(), 8080);
    assert_eq!(target.host(), HostAddress::V4([10, 0, 0, 1]));
    assert_eq!(resolve_text("10.0.0.1", "+80").unwrap().port(), 80);
    assert_eq!(resolve_text("10.0.0.1", "0080").unwrap().port(), 80);
    assert_eq!(resolve_text("10.0.0.1", "0").unwrap().port(), 0);
    assert_eq!(resolve_text("[::1]", "65535").unwrap().port(), 65535);
}

#[test]
fn port_text_that_is_no_port_is_invalid() {
    for port in ["", "http", "80a", "a80", "-1", "65536", "70000", "8 0", " 80", "80 ", "+", "++80", "8.0", "0x50", "99999999999999999999999999"] {
        assert_eq!(resolve_text("10.0.0.1", port), Err(TrafficError::InvalidAddress), "port {:?}", port);
    }
    assert_eq!(resolve_text("", "80"), Err(TrafficError::InvalidAddress));
}

#[test]
fn same_target_resolves_the_same() {
    assert_eq!(resolve("10.0.0.1", 80), resolve("10.0.0.1", 80));
    assert_ne!(resolve("10.0.0.1", 80), resolve("10.0.0.2", 80));
    assert_ne!(resolve("10.0.0.1", 80), resolve("10.0.0.1", 81));
    assert_eq!(resolve("[::1]", 80), resolve("[0:0:0:0:0:0:0:1]", 80));
    assert_eq!(resolve("[::1.2.3.4]", 80), resolve("[::102:304]", 80));
}
