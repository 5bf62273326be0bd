use socket_addrs::addr::{Endpoint, IpAddress, Ipv4Address, Ipv6Address};
use socket_addrs::parse::{parse_ip_addr, parse_ipv4_addr, parse_ipv6_addr, parse_socket_addr};

fn v4(a: u8, b: u8, c: u8, d: u8) -> Ipv4Address {
    Ipv4Address::new(a, b, c, d)
}

fn v6(g: [u16; 8]) -> Ipv6Address {
    Ipv6Address::new(g[0], g[1], g[2], g[3], g[4], g[5], g[6], g[7])
}

#[test]
fn ipv4_simple() {
    assert_eq!(parse_ipv4_addr("127.0.0.1"), Some(v4(127, 0, 0, 1)));
    assert_eq!(parse_ipv4_addr("0.0.0.0"), Some(v4(0, 0, 0, 0)));
    assert_eq!(parse_ipv4_addr("255.255.255.255"), Some(v4(255, 255, 255, 255)));
    assert_eq!(parse_ipv4_addr("192.168.1.42"), Some(v4(192, 168, 1, 42)));
}

#[test]
fn ipv4_rejects_out_of_range_octet() {
    assert_eq!(parse_ipv4_addr("256.1.1.1"), None);
    assert_eq!(parse_ipv4_addr("1.1.1.999"), None);
    assert_eq!(parse_ipv4_addr("1234.1.1.1"), None);
}

#[test]
fn ipv4_rejects_wrong_part_count() {
    assert_eq!(parse_ipv4_addr("1.2.3"), None);
    assert_eq!(parse_ipv4_addr("1.2.3.4.5"), None);
    assert_eq!(parse_ipv4_addr(""), None);
    assert_eq!(parse_ipv4_addr("1..2.3"), None);
    assert_eq!(parse_ipv4_addr("1.2.3."), None);
}

#[test]
fn ipv4_rejects_leading_zero_and_nondigits() {
    assert_eq!(parse_ipv4_addr("01.2.3.4"), None);
    assert_eq!(parse_ipv4_addr("1.2.00.4"), None);
    assert_eq!(parse_ipv4_addr("a.b.c.d"), None);
    assert_eq!(parse_ipv4_addr("1.2.3.4 "), None);
}

#[test]
fn ipv6_full_form() {
    assert_eq!(
        parse_ipv6_addr("1:2:3:4:5:6:7:8"),
        Some(v6([1, 2, 3, 4, 5, 6, 7, 8]))
    );
    assert_eq!(
        parse_ipv6_addr("2001:db8:0:0:0:0:0:7"),
        Some(v6([0x2001, 0xdb8, 0, 0, 0, 0, 0, 7]))
    );
    assert_eq!(
        parse_ipv6_addr("FFFF:ffff:abCD:0:1:20:300:4000"),
        Some(v6([0xffff, 0xffff, 0xabcd, 0, 1, 0x20, 0x300, 0x4000]))
    );
}

#[test]
fn ipv6_compressed_forms() {
    assert_eq!(parse_ipv6_addr("::"), Some(v6([0, 0, 0, 0, 0, 0, 0, 0])));
    assert_eq!(parse_ipv6_addr("::1"), Some(v6([0, 0, 0, 0, 0, 0, 0, 1])));
    assert_eq!(parse_ipv6_addr("1::"), Some(v6([1, 0, 0, 0, 0, 0, 0, 0])));
    assert_eq!(
        parse_ipv6_addr("2001:db8::7"),
        Some(v6([0x2001, 0xdb8, 0, 0, 0, 0, 0, 7]))
    );
    assert_eq!(
        parse_ipv6_addr("fe80::1:2"),
        Some(v6([0xfe80, 0, 0, 0, 0, 0, 1, 2]))
    );
    assert_eq!(
        parse_ipv6_addr("1:2:3:4:5:6:7::"),
        Some(v6([1, 2, 3, 4, 5, 6, 7, 0]))
    );
}

#[test]
fn ipv6_rejects_malformed() {
    assert_eq!(parse_ipv6_addr(""), None);
    assert_eq!(parse_ipv6_addr(":::"), None);
    assert_eq!(parse_ipv6_addr("1::2::3"), None);
    assert_eq!(parse_ipv6_addr("1:2:3:4:5:6:7"), None);
    assert_eq!(parse_ipv6_addr("1:2:3:4:5:6:7:8:9"), None);
    assert_eq!(parse_ipv6_addr("1:2:3:4:5:6:7:8::"), None);
    assert_eq!(parse_ipv6_addr("::1:2:3:4:5:6:7:8"), None);
    assert_eq!(parse_ipv6_addr("12345::"), None);
    assert_eq!(parse_ipv6_addr("g::1"), None);
    assert_eq!(parse_ipv6_addr("fe80::1%eth0"), None);
}

#[test]
fn ip_addr_tries_v4_then_v6() {
    assert_eq!(
        parse_ip_addr("127.0.0.1"),
        Some(IpAddress::V4(v4(127, 0, 0, 1)))
    );
    assert_eq!(
        parse_ip_addr("::1"),
        Some(IpAddress::V6(v6([0, 0, 0, 0, 0, 0, 0, 1])))
    );
    assert_eq!(parse_ip_addr("localhost"), None);
    assert_eq!(parse_ip_addr("example.com"), None);
}

#[test]
fn endpoint_v4_form() {
    assert_eq!(
        parse_socket_addr("127.0.0.1:8080"),
        Some(Endpoint::new(IpAddress::V4(v4(127, 0, 0, 1)), 8080))
    );
    assert_eq!(
        parse_socket_addr("1.2.3.4:0"),
        Some(Endpoint::new(IpAddress::V4(v4(1, 2, 3, 4)), 0))
    );
    assert_eq!(
        parse_socket_addr("1.2.3.4:65535"),
        Some(Endpoint::new(IpAddress::V4(v4(1, 2, 3, 4)), 65535))
    );
    assert_eq!(
        parse_socket_addr("1.2.3.4:080"),
        Some(Endpoint::new(IpAddress::V4(v4(1, 2, 3, 4)), 80))
    );
}

#[test]
fn endpoint_v6_form() {
    assert_eq!(
        parse_socket_addr("[::1]:443"),
        Some(Endpoint::new(IpAddress::V6(v6([0, 0, 0, 0, 0, 0, 0, 1])), 443))
    );
    assert_eq!(
        parse_socket_addr("[2001:db8::7]:80"),
        Some(Endpoint::new(
            IpAddress::V6(v6([0x2001, 0xdb8, 0, 0, 0, 0, 0, 7])),
            80
        ))
    );
}

#[test]
fn endpoint_rejects_malformed() {
    assert_eq!(parse_socket_addr("1.2.3.4"), None);
    assert_eq!(parse_socket_addr("1.2.3.4:"), None);
    assert_eq!(parse_socket_addr("1.2.3.4:65536"), None);
    assert_eq!(parse_socket_addr("1.2.3.4:123456"), None);
    assert_eq!(parse_socket_addr("1.2.3.4:port"), None);
    assert_eq!(parse_socket_addr("::1:443"), None);
    assert_eq!(parse_socket_addr("[::1]443"), None);
    assert_eq!(parse_socket_addr("[::1]:"), None);
    assert_eq!(parse_socket_addr("[::1:443"), None);
    assert_eq!(parse_socket_addr("localhost:80"), None);
    assert_eq!(parse_socket_addr("example.com:443"), None);
    assert_eq!(parse_socket_addr(""), None);
}
