use fac_test::ipv4::{compute_scan_range, ipv4_to_string, parse_ipv4, scan_range};
use fac_test::types::NetworkInterface;

fn addr(a: u32, b: u32, c: u32, d: u32) -> u32 {
    (a << 24) | (b << 16) | (c << 8) | d
}

#[test]
fn formats_dotted_decimal() {
    assert_eq!(ipv4_to_string(addr(192, 168, 1, 10)), "192.168.1.10");
    assert_eq!(ipv4_to_string(0), "0.0.0.0");
    assert_eq!(ipv4_to_string(u32::MAX), "255.255.255.255");
}

#[test]
fn parses_dotted_decimal() {
    assert_eq!(parse_ipv4("10.0.0.1"), Some(addr(10, 0, 0, 1)));
    assert_eq!(parse_ipv4("255.255.255.255"), Some(u32::MAX));
    assert_eq!(parse_ipv4("0.0.0.0"), Some(0));
}

#[test]
fn rejects_malformed_addresses() {
    assert_eq!(parse_ipv4(""), None);
    assert_eq!(parse_ipv4("1.2.3"), None);
    assert_eq!(parse_ipv4("1.2.3.4.5"), None);
    assert_eq!(parse_ipv4("256.0.0.1"), None);
    assert_eq!(parse_ipv4("01.2.3.4"), None);
    assert_eq!(parse_ipv4("1..3.4"), None);
    assert_eq!(parse_ipv4(" 1.2.3.4"), None);
    assert_eq!(parse_ipv4("1.2.3.a"), None);
    assert_eq!(parse_ipv4("1.2.3.4 "), None);
}

#[test]
fn parse_reads_back_formatted_text() {
    for a in [0u32, 1, 255, 256, 0x7f00_0001, 0xc0a8_0164, u32::MAX, 0x0a00_00ff] {
        assert_eq!(parse_ipv4(&ipv4_to_string(a)), Some(a));
    }
}

#[test]
fn small_subnet_range_excludes_network_and_broadcast() {
    let iface = NetworkInterface {
        name: "eth0".to_string(),
        ip: addr(192, 168, 1, 100),
        netmask: addr(255, 255, 255, 0),
    };
    assert_eq!(
        compute_scan_range(&iface),
        ("192.168.1.1".to_string(), "192.168.1.254".to_string())
    );
    let iface = NetworkInterface {
        name: "eth1".to_string(),
        ip: addr(10, 1, 2, 3),
        netmask: addr(255, 255, 252, 0),
    };
    assert_eq!(compute_scan_range(&iface), ("10.1.0.1".to_string(), "10.1.3.254".to_string()));
}

#[test]
fn large_subnet_range_is_own_slash_24() {
    let iface = NetworkInterface {
        name: "eth0".to_string(),
        ip: addr(10, 20, 30, 40),
        netmask: addr(255, 0, 0, 0),
    };
    assert_eq!(compute_scan_range(&iface), ("10.20.30.1".to_string(), "10.20.30.254".to_string()));
    assert_eq!(scan_range(addr(172, 16, 5, 9), addr(255, 255, 248, 0)), (addr(172, 16, 5, 1), addr(172, 16, 5, 254)));
}

#[test]
fn point_to_point_mask_gives_reversed_range() {
    // A /31 has no host between network and broadcast.
    assert_eq!(scan_range(addr(10, 0, 0, 4), addr(255, 255, 255, 254)), (addr(10, 0, 0, 5), addr(10, 0, 0, 4)));
}
