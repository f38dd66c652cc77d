use server_naive::proxy_core::address::Address;
use server_naive::proxy_core::ip::{parse_ipv4, parse_ipv6, push_ipv6, IpAddr};
use server_naive::proxy_core::ip_filter::{is_private_ip, is_private_ipv4, is_private_ipv6};
use std::borrow::Cow;

fn v6(text: &str) -> [u8; 16] {
    match IpAddr::parse(text) {
        Some(IpAddr::V6(o)) => o,
        other => panic!("{text} reads as {other:?}"),
    }
}

#[test]
fn test_from_authority_domain() {
    let addr = Address::from_authority("example.com:443").unwrap();
    assert!(matches!(addr, Address::Domain(ref d, 443) if d == "example.com"));
}

#[test]
fn test_from_authority_ipv4() {
    let addr = Address::from_authority("1.2.3.4:80").unwrap();
    assert!(matches!(addr, Address::IPv4([1, 2, 3, 4], 80)));
}

#[test]
fn test_from_authority_ipv6() {
    let addr = Address::from_authority("[::1]:443").unwrap();
    assert!(matches!(addr, Address::IPv6(_, 443)));
}

#[test]
fn test_display_domain() {
    let addr = Address::Domain("example.com".into(), 443);
    assert_eq!(addr.to_string(), "example.com:443");
}

#[test]
fn test_display_ipv4() {
    let addr = Address::IPv4([8, 8, 8, 8], 53);
    assert_eq!(addr.to_string(), "8.8.8.8:53");
}

#[test]
fn test_from_authority_invalid_port() {
    assert!(Address::from_authority("example.com:99999").is_none());
    assert!(Address::from_authority("example.com").is_none());
}

#[test]
fn test_host_domain_borrows() {
    let addr = Address::Domain("example.com".into(), 80);
    assert!(matches!(addr.host(), Cow::Borrowed(_)));
    assert_eq!(addr.host(), "example.com");
}

#[test]
fn test_host_ipv4_owns() {
    let addr = Address::IPv4([1, 2, 3, 4], 80);
    assert!(matches!(addr.host(), Cow::Owned(_)));
    assert_eq!(addr.host(), "1.2.3.4");
}

#[test]
fn authorities_are_read_back_from_their_text() {
    for text in ["example.com:443", "1.2.3.4:80", "[::1]:443", "[2001:db8::ff:0]:0"] {
        let addr = Address::from_authority(text).unwrap();
        assert_eq!(addr.to_string(), text);
    }
    assert_eq!(Address::from_authority("[::1]:443").unwrap().host(), "::1");
    assert_eq!(Address::from_authority("example.com:443").unwrap().port(), 443);
}

#[test]
fn test_private_ipv4() {
    assert!(is_private_ipv4(&[127, 0, 0, 1]));
    assert!(is_private_ipv4(&[10, 0, 0, 1]));
    assert!(is_private_ipv4(&[192, 168, 1, 1]));
    assert!(!is_private_ipv4(&[8, 8, 8, 8]));
}

#[test]
fn test_private_ipv6() {
    assert!(is_private_ipv6(&v6("::1")));
    assert!(is_private_ipv6(&v6("fc00::1")));
    assert!(is_private_ipv6(&v6("fe80::1")));
    assert!(!is_private_ipv6(&v6("2001:4860:4860::8888")));
}

#[test]
fn addresses_are_filtered_in_both_families() {
    for octets in [
        [172, 16, 0, 1], [172, 31, 255, 255], [169, 254, 169, 254], [0, 1, 2, 3], [100, 64, 0, 1],
        [100, 127, 0, 1], [192, 0, 0, 8], [255, 255, 255, 255], [224, 0, 0, 1], [239, 1, 1, 1],
    ] {
        assert!(is_private_ip(&IpAddr::V4(octets)), "{octets:?}");
    }
    for octets in [
        [172, 15, 0, 1], [172, 32, 0, 1], [169, 253, 0, 1], [100, 63, 0, 1], [100, 128, 0, 1],
        [192, 0, 1, 8], [255, 255, 255, 254], [223, 0, 0, 1], [240, 1, 1, 1], [192, 167, 0, 1],
    ] {
        assert!(!is_private_ip(&IpAddr::V4(octets)), "{octets:?}");
    }
    for text in ["::1", "fd00::1", "fe80::1", "febf::1"] {
        assert!(is_private_ip(&IpAddr::V6(v6(text))), "{text}");
    }
    for text in ["::2", "fec0::1", "fb00::1", "2606:4700::1111"] {
        assert!(!is_private_ip(&IpAddr::V6(v6(text))), "{text}");
    }
}

#[test]
fn ipv4_text_is_strict() {
    let read = |t: &str| parse_ipv4(&t.chars().collect::<Vec<char>>());
    assert_eq!(read("1.2.3.4"), Some([1, 2, 3, 4]));
    assert_eq!(read("255.255.255.255"), Some([255; 4]));
    for bad in ["", "1.2.3", "1.2.3.4.5", "256.1.1.1", "01.2.3.4", "1..3.4", "1.2.3.4 ", "+1.2.3.4"] {
        assert_eq!(read(bad), None, "{bad}");
    }
}

#[test]
fn ipv6_text_is_read_and_written() {
    // The text, its groups, and the text that they are written as.
    let samples: [(&str, [u16; 8], &str); 14] = [
        ("::", [0, 0, 0, 0, 0, 0, 0, 0], "::"),
        ("::1", [0, 0, 0, 0, 0, 0, 0, 1], "::1"),
        ("1::", [1, 0, 0, 0, 0, 0, 0, 0], "1::"),
        ("1:2:3:4:5:6:7:8", [1, 2, 3, 4, 5, 6, 7, 8], "1:2:3:4:5:6:7:8"),
        ("2001:DB8::1", [0x2001, 0xdb8, 0, 0, 0, 0, 0, 1], "2001:db8::1"),
        ("fe80::1:2:3:4", [0xfe80, 0, 0, 0, 1, 2, 3, 4], "fe80::1:2:3:4"),
        ("::ffff:1.2.3.4", [0, 0, 0, 0, 0, 0xffff, 0x102, 0x304], "::ffff:1.2.3.4"),
        ("1:0:0:2::3", [1, 0, 0, 2, 0, 0, 0, 3], "1:0:0:2::3"),
        ("0:0:1:0:0:0:1:0", [0, 0, 1, 0, 0, 0, 1, 0], "0:0:1::1:0"),
        ("1:0:0:2:0:0:3:4", [1, 0, 0, 2, 0, 0, 3, 4], "1::2:0:0:3:4"),
        ("1:2:3:4:5:6:1.2.3.4", [1, 2, 3, 4, 5, 6, 0x102, 0x304], "1:2:3:4:5:6:102:304"),
        ("::1.2.3.4", [0, 0, 0, 0, 0, 0, 0x102, 0x304], "::102:304"),
        ("1:2:3:4:5:6:7::", [1, 2, 3, 4, 5, 6, 7, 0], "1:2:3:4:5:6:7:0"),
        ("::2:3:4:5:6:7:8", [0, 2, 3, 4, 5, 6, 7, 8], "0:2:3:4:5:6:7:8"),
    ];
    for (text, groups, written) in samples {
        let octets = v6(text);
        for i in 0..8 {
            assert_eq!(octets[2 * i] as u16 * 256 + octets[2 * i + 1] as u16, groups[i], "{text}");
        }
        let mut out: Vec<char> = Vec::new();
        push_ipv6(&mut out, &octets);
        assert_eq!(out.iter().collect::<String>(), written, "{text}");
    }
    let read = |t: &str| parse_ipv6(&t.chars().collect::<Vec<char>>());
    for bad in [
        "", ":", ":::", "1:2:3:4:5:6:7", "1:2:3:4:5:6:7:8:9", "1::2::3", "12345::", "g::",
        "1:2:3:4:5:6:7:1.2.3.4", "::1.2.3", "1.2.3.4::", "1:2:3:4::5:6:7:8", ":1::", "fe80::1%eth0",
    ] {
        assert_eq!(read(bad), None, "{bad}");
    }
}

#[test]
fn ip_text_is_read_back() {
    for text in ["10.20.30.40", "::", "2001:db8::8:800:200c:417a", "::ffff:192.168.0.1"] {
        assert_eq!(IpAddr::parse(text).unwrap().to_string(), text);
    }
    assert!(IpAddr::parse("example.com").is_none());
}
