use real_ip::forwarded::forwarded_hops;
use real_ip::headers::{parse_ip_list, parse_real_ip_header, CommaSeparated};
use real_ip::ip::{IpAddress, IpNetwork, TrustSet};
use real_ip::ipparse::parse_ip;

fn ip4(a: u8, b: u8, c: u8, d: u8) -> IpAddress {
    IpAddress::V4(
        ((a as u32) << 24) | ((b as u32) << 16) | ((c as u32) << 8) | (d as u32),
    )
}

#[test]
fn test_parse_ipv4_value() {
    assert_eq!(Some(IpAddress::V4(0x0A0A0A0A)), parse_ip("10.10.10.10"));
    assert_eq!(Some(ip4(1, 2, 3, 4)), parse_ip("1.2.3.4"));
    assert_eq!(Some(ip4(0, 0, 0, 0)), parse_ip("0.0.0.0"));
    assert_eq!(Some(ip4(255, 255, 255, 255)), parse_ip("255.255.255.255"));
}

#[test]
fn test_parse_ipv4_rejects_malformed() {
    assert_eq!(None, parse_ip(""));
    assert_eq!(None, parse_ip("1.2.3"));
    assert_eq!(None, parse_ip("1.2.3.4.5"));
    assert_eq!(None, parse_ip("256.1.1.1"));
    assert_eq!(None, parse_ip("01.2.3.4"));
    assert_eq!(None, parse_ip("1.2.3.4 "));
    assert_eq!(None, parse_ip("a.b.c.d"));
    assert_eq!(None, parse_ip("1..2.3"));
}

#[test]
fn test_parse_ipv6_value() {
    assert_eq!(Some(IpAddress::V6(1)), parse_ip("::1"));
    assert_eq!(Some(IpAddress::V6(0)), parse_ip("::"));
    assert_eq!(
        Some(IpAddress::V6(0x0001_0002_0003_0004_0005_0006_0007_0008)),
        parse_ip("1:2:3:4:5:6:7:8")
    );
    assert_eq!(
        Some(IpAddress::V6(0x2001_0db8_0000_0000_0000_0000_0000_0045)),
        parse_ip("2001:db8::45")
    );
    assert_eq!(
        Some(IpAddress::V6(0x0000_0000_0000_0000_0000_ffff_0102_0304)),
        parse_ip("::ffff:1.2.3.4")
    );
    assert_eq!(
        Some(IpAddress::V6(0x00FF_0000_0000_0000_0000_0000_0000_0000)),
        parse_ip("ff::")
    );
    assert_eq!(Some(IpAddress::V6(0xABCD)), parse_ip("::ABCD"));
}

#[test]
fn test_parse_ipv6_rejects_malformed() {
    assert_eq!(None, parse_ip(":::"));
    assert_eq!(None, parse_ip("1::2::3"));
    assert_eq!(None, parse_ip("1:2:3:4:5:6:7"));
    assert_eq!(None, parse_ip("1:2:3:4:5:6:7:8:9"));
    assert_eq!(None, parse_ip("1:2:3:4:5:6:7:8::"));
    assert_eq!(None, parse_ip("12345::"));
    assert_eq!(None, parse_ip("g::1"));
    assert_eq!(None, parse_ip("1:2:3:4:5:6:7:1.2.3.4"));
    assert_eq!(None, parse_ip("::ffff:01.2.3.4"));
}

#[test]
fn test_ip_list_keeps_order() {
    assert_eq!(
        vec![ip4(10, 10, 10, 10), ip4(11, 11, 11, 11)],
        parse_ip_list("10.10.10.10, 11.11.11.11")
    );
}

#[test]
fn test_ip_list_drops_malformed_entries() {
    assert_eq!(
        vec![ip4(10, 10, 10, 10), ip4(11, 11, 11, 11)],
        parse_ip_list("10.10.10.10, not-an-ip, 11.11.11.11")
    );
    assert_eq!(Vec::<IpAddress>::new(), parse_ip_list(""));
    assert_eq!(Vec::<IpAddress>::new(), parse_ip_list("junk"));
}

#[test]
fn test_quoted_and_bracketed_entries_round_trip() {
    assert_eq!(parse_ip("10.10.10.10"), Some(ip4(10, 10, 10, 10)));
    assert_eq!(
        parse_ip_list("\"10.10.10.10\""),
        vec![ip4(10, 10, 10, 10)]
    );
    assert_eq!(parse_ip("::1"), Some(IpAddress::V6(1)));
    assert_eq!(parse_ip_list("[::1]"), vec![IpAddress::V6(1)]);
    assert_eq!(parse_ip_list("\"[::1]\""), vec![IpAddress::V6(1)]);
}

#[test]
fn test_comma_separated_into_inner() {
    let list = CommaSeparated::parse("1.2.3.4, [::1]");
    assert_eq!(vec![ip4(1, 2, 3, 4), IpAddress::V6(1)], list.into_inner());
}

#[test]
fn test_real_ip_header_single_value() {
    assert_eq!(vec![ip4(9, 8, 7, 6)], parse_real_ip_header("9.8.7.6"));
    assert_eq!(vec![ip4(9, 8, 7, 6)], parse_real_ip_header("\"9.8.7.6\""));
    assert_eq!(vec![IpAddress::V6(1)], parse_real_ip_header("[::1]"));
    assert_eq!(Vec::<IpAddress>::new(), parse_real_ip_header("junk"));
}

#[test]
fn test_forwarded_extracts_for_values() {
    assert_eq!(vec![ip4(10, 10, 10, 10)], forwarded_hops("for=10.10.10.10"));
    assert_eq!(
        vec![ip4(192, 0, 2, 60), ip4(192, 168, 10, 10)],
        forwarded_hops("for=192.0.2.60;proto=http;by=203.0.113.43,for=192.168.10.10")
    );
}

#[test]
fn test_forwarded_without_for_yields_nothing() {
    assert_eq!(Vec::<IpAddress>::new(), forwarded_hops("by=11.11.11.11"));
    assert_eq!(Vec::<IpAddress>::new(), forwarded_hops("proto=https;host=example"));
}

#[test]
fn test_forwarded_key_is_case_insensitive() {
    assert_eq!(vec![ip4(1, 2, 3, 4)], forwarded_hops("For=1.2.3.4"));
    assert_eq!(vec![ip4(1, 2, 3, 4)], forwarded_hops("FOR=1.2.3.4"));
}

#[test]
fn test_forwarded_quoted_and_ported_nodes() {
    assert_eq!(
        vec![ip4(1, 2, 3, 4)],
        forwarded_hops("for=\"1.2.3.4:8080\"")
    );
    assert_eq!(
        vec![IpAddress::V6(0x2001_0db8_0000_0000_0000_0000_0000_0001)],
        forwarded_hops("for=\"[2001:db8::1]:8080\"")
    );
    assert_eq!(
        vec![IpAddress::V6(0x2001_0db8_0000_0000_0000_0000_0000_0001)],
        forwarded_hops("for=\"[2001:db8::1]\"")
    );
}

#[test]
fn test_parse_ipv6_extremes() {
    assert_eq!(
        Some(IpAddress::V6(u128::MAX)),
        parse_ip("ffff:ffff:ffff:ffff:ffff:ffff:ffff:ffff")
    );
    assert_eq!(
        Some(IpAddress::V6(0x0001_0000_0000_0000_0000_0000_0000_0000)),
        parse_ip("1::")
    );
}

#[test]
fn test_forwarded_unquoted_bracketed_node() {
    assert_eq!(vec![IpAddress::V6(1)], forwarded_hops("for=[::1]"));
    assert_eq!(vec![ip4(1, 2, 3, 4)], forwarded_hops("for=1.2.3.4:0"));
}

#[test]
fn test_forwarded_skips_non_ip_nodes() {
    assert_eq!(Vec::<IpAddress>::new(), forwarded_hops("for=unknown"));
    assert_eq!(Vec::<IpAddress>::new(), forwarded_hops("for=_hidden"));
    assert_eq!(Vec::<IpAddress>::new(), forwarded_hops("for=\"1.2.3.4:99999\""));
    assert_eq!(
        vec![ip4(5, 6, 7, 8)],
        forwarded_hops("for=unknown, for=5.6.7.8")
    );
}

#[test]
fn test_forwarded_malformed_element_is_skipped() {
    assert_eq!(
        vec![ip4(5, 6, 7, 8)],
        forwarded_hops("for=1.2.3.4;oops, for=5.6.7.8")
    );
}

#[test]
fn test_forwarded_comma_inside_quotes() {
    assert_eq!(
        vec![ip4(5, 6, 7, 8)],
        forwarded_hops("host=\"a,b\";for=5.6.7.8")
    );
}

#[test]
fn test_trust_set_networks() {
    let t = TrustSet::from_networks(vec![
        IpNetwork::V4 { addr: 0x0A000000, prefix: 8 },
        IpNetwork::V6 { addr: 0x2001_0db8_0000_0000_0000_0000_0000_0000, prefix: 32 },
    ]);
    assert!(t.contains(ip4(10, 1, 2, 3)));
    assert!(!t.contains(ip4(11, 1, 2, 3)));
    assert!(t.contains(IpAddress::V6(0x2001_0db8_0000_0000_0000_0000_0000_0045)));
    assert!(!t.contains(IpAddress::V6(0x2001_0db9_0000_0000_0000_0000_0000_0045)));
}

#[test]
fn test_trust_set_families_are_distinct() {
    let v4_net = TrustSet::from_networks(vec![IpNetwork::V4 { addr: 0, prefix: 0 }]);
    assert!(v4_net.contains(ip4(1, 2, 3, 4)));
    assert!(!v4_net.contains(IpAddress::V6(0x0102_0304)));
    let v6_net = TrustSet::from_networks(vec![IpNetwork::V6 { addr: 0, prefix: 0 }]);
    assert!(!v6_net.contains(ip4(1, 2, 3, 4)));
    assert!(v6_net.contains(IpAddress::V6(0x0102_0304)));
}

#[test]
fn test_trust_set_from_addresses_is_exact() {
    let t = TrustSet::from_addresses(vec![ip4(1, 2, 3, 4)]);
    assert!(t.contains(ip4(1, 2, 3, 4)));
    assert!(!t.contains(ip4(1, 2, 3, 5)));
    assert!(!t.contains(IpAddress::V6(0x0102_0304)));
}
