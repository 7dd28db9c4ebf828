use real_ip::headers::resolve_client_ip;
use real_ip::ip::{IpAddress, TrustSet};
use real_ip::resolver::{resolve, resolve_optional};

fn ip4(a: u8, b: u8, c: u8, d: u8) -> IpAddress {
    IpAddress::V4(
        ((a as u32) << 24) | ((b as u32) << 16) | ((c as u32) << 8) | (d as u32),
    )
}

fn peer() -> IpAddress {
    ip4(1, 2, 3, 4)
}

#[test]
fn test_not_forwarded() {
    let trust = TrustSet::empty();
    let got = resolve_client_ip(&trust, Some(peer()), None, None, None);
    assert_eq!(Some(ip4(1, 2, 3, 4)), got);
}

#[test]
fn test_not_trusted() {
    let trust = TrustSet::empty();
    let got = resolve_client_ip(&trust, Some(peer()), Some("10.10.10.10"), None, None);
    assert_eq!(Some(ip4(1, 2, 3, 4)), got);
}

#[test]
fn test_trusted() {
    let trust = TrustSet::from_addresses(vec![ip4(1, 2, 3, 4)]);
    let got = resolve_client_ip(&trust, Some(peer()), Some("10.10.10.10"), None, None);
    assert_eq!(Some(ip4(10, 10, 10, 10)), got);
}

#[test]
fn test_nested_denied() {
    let trust = TrustSet::from_addresses(vec![ip4(1, 2, 3, 4)]);
    let got = resolve_client_ip(
        &trust,
        Some(peer()),
        Some("10.10.10.10, 11.11.11.11"),
        None,
        None,
    );
    assert_eq!(Some(ip4(11, 11, 11, 11)), got);
}

#[test]
fn test_nested_allowed() {
    let trust = TrustSet::from_addresses(vec![ip4(1, 2, 3, 4), ip4(10, 10, 10, 10)]);
    let got = resolve_client_ip(
        &trust,
        Some(peer()),
        Some("10.10.10.10, 11.11.11.11"),
        None,
        None,
    );
    assert_eq!(Some(ip4(11, 11, 11, 11)), got);
}

#[test]
fn test_trusted_forwarded() {
    let trust = TrustSet::from_addresses(vec![ip4(1, 2, 3, 4)]);
    let got = resolve_client_ip(&trust, Some(peer()), None, None, Some("for=10.10.10.10"));
    assert_eq!(Some(ip4(10, 10, 10, 10)), got);
}

#[test]
fn test_trusted_forwarded_no_for() {
    let trust = TrustSet::from_addresses(vec![ip4(1, 2, 3, 4)]);
    let got = resolve_client_ip(&trust, Some(peer()), None, None, Some("by=11.11.11.11"));
    assert_eq!(Some(ip4(1, 2, 3, 4)), got);
}

#[test]
fn test_real_ip_header_trusted_peer() {
    let trust = TrustSet::from_addresses(vec![ip4(1, 2, 3, 4)]);
    let got = resolve_client_ip(&trust, Some(peer()), None, Some("\"10.10.10.10\""), None);
    assert_eq!(Some(ip4(10, 10, 10, 10)), got);
}

#[test]
fn test_forwarded_for_takes_precedence_over_real_ip() {
    let trust = TrustSet::from_addresses(vec![ip4(1, 2, 3, 4)]);
    let got = resolve_client_ip(
        &trust,
        Some(peer()),
        Some("10.10.10.10"),
        Some("11.11.11.11"),
        None,
    );
    assert_eq!(Some(ip4(10, 10, 10, 10)), got);
}

#[test]
fn test_no_peer_resolves_to_nothing() {
    let trust = TrustSet::empty();
    let got = resolve_client_ip(&trust, None, Some("10.10.10.10"), None, None);
    assert_eq!(None, got);
    assert_eq!(None, resolve_optional(&trust, &Vec::new(), None));
}

#[test]
fn test_whole_chain_trusted_returns_furthest_hop() {
    let trust = TrustSet::from_addresses(vec![
        ip4(1, 2, 3, 4),
        ip4(10, 10, 10, 10),
        ip4(11, 11, 11, 11),
    ]);
    let hops = vec![ip4(10, 10, 10, 10), ip4(11, 11, 11, 11)];
    assert_eq!(ip4(10, 10, 10, 10), resolve(&trust, &hops, peer()));
}

#[test]
fn test_whole_chain_trusted_no_hops_returns_peer() {
    let trust = TrustSet::from_addresses(vec![ip4(1, 2, 3, 4)]);
    assert_eq!(ip4(1, 2, 3, 4), resolve(&trust, &Vec::new(), peer()));
}

#[test]
fn test_untrusted_peer_ignores_hops() {
    let trust = TrustSet::empty();
    let hops = vec![ip4(10, 10, 10, 10), ip4(11, 11, 11, 11)];
    assert_eq!(ip4(1, 2, 3, 4), resolve(&trust, &hops, peer()));
}

#[test]
fn test_ipv6_chain() {
    let six = IpAddress::V6(1);
    let trust = TrustSet::from_addresses(vec![six]);
    let got = resolve_client_ip(&trust, Some(six), Some("10.10.10.10"), None, None);
    assert_eq!(Some(ip4(10, 10, 10, 10)), got);
}
