use flowcap::conf::{AddrError, IpAddr, IpAddrOrHostname, IpV4, IpV6, MacAddr, Protocol};
use flowcap::numfmt::{u16_to_hex, u64_to_dec};
use flowcap::text::{eq_ignore_case, parse_dec_u8, parse_hex_bounded, split_str, str_contains_char};

#[test]
fn ipv4_parse_ok() {
    let ip = IpV4::from_str("192.168.0.1").unwrap();
    assert_eq!(ip.octets, [192, 168, 0, 1]);
    let ip = IpV4::from_str("0.0.0.0").unwrap();
    assert_eq!(ip.octets, [0, 0, 0, 0]);
    let ip = IpV4::from_str("255.255.255.255").unwrap();
    assert_eq!(ip.octets, [255, 255, 255, 255]);
}

#[test]
fn ipv4_parse_err() {
    assert_eq!(IpV4::from_str("1.2.3").unwrap_err(), AddrError::InvalidIp);
    assert_eq!(IpV4::from_str("1.2.3.4.5").unwrap_err(), AddrError::InvalidIp);
    assert_eq!(IpV4::from_str("256.1.1.1").unwrap_err(), AddrError::InvalidIp);
    assert_eq!(IpV4::from_str("a.b.c.d").unwrap_err(), AddrError::InvalidIp);
    assert_eq!(IpV4::from_str("").unwrap_err(), AddrError::InvalidIp);
    assert_eq!(IpV4::from_str("1..2.3").unwrap_err(), AddrError::InvalidIp);
}

#[test]
fn ipv6_parse_ok() {
    let ip = IpV6::from_str("2001:db8:0:0:0:0:0:1").unwrap();
    assert_eq!(
        ip.octets,
        [0x20, 0x01, 0x0d, 0xb8, 0, 0, 0, 0, 0, 0, 0, 0, 0, 0, 0, 1]
    );
    let ip = IpV6::from_str("0:0:0:0:0:0:0:0").unwrap();
    assert_eq!(ip.octets, [0u8; 16]);
    // either case of hex digits is accepted
    let ip = IpV6::from_str("2001:DB8:0:0:0:0:0:1").unwrap();
    assert_eq!(ip.octets[2], 0x0d);
    assert_eq!(ip.octets[3], 0xb8);
}

#[test]
fn ipv6_parse_err() {
    // the abbreviated form is not a full eight-group literal
    assert_eq!(IpV6::from_str("::1").unwrap_err(), AddrError::InvalidIp);
    assert_eq!(IpV6::from_str("1:2:3:4:5:6:7").unwrap_err(), AddrError::InvalidIp);
    assert_eq!(
        IpV6::from_str("1:2:3:4:5:6:7:8:9").unwrap_err(),
        AddrError::InvalidIp
    );
    assert_eq!(
        IpV6::from_str("10000:0:0:0:0:0:0:0").unwrap_err(),
        AddrError::InvalidIp
    );
    assert_eq!(
        IpV6::from_str("g:0:0:0:0:0:0:0").unwrap_err(),
        AddrError::InvalidIp
    );
}

#[test]
fn mac_parse() {
    let mac = MacAddr::from_str("aa:bb:cc:dd:ee:ff").unwrap();
    assert_eq!(mac.octets, [0xaa, 0xbb, 0xcc, 0xdd, 0xee, 0xff]);
    let mac = MacAddr::from_str("0:1:2:3:4:5").unwrap();
    assert_eq!(mac.octets, [0, 1, 2, 3, 4, 5]);
    assert_eq!(
        MacAddr::from_str("aa:bb:cc:dd:ee").unwrap_err(),
        AddrError::InvalidMac
    );
    assert_eq!(
        MacAddr::from_str("aa:bb:cc:dd:ee:ff:00").unwrap_err(),
        AddrError::InvalidMac
    );
    assert_eq!(
        MacAddr::from_str("zz:bb:cc:dd:ee:ff").unwrap_err(),
        AddrError::InvalidMac
    );
}

#[test]
fn ip_addr_parse_dispatch() {
    match IpAddr::from_str("1.2.3.4").unwrap() {
        IpAddr::V4(ip) => assert_eq!(ip.octets, [1, 2, 3, 4]),
        IpAddr::V6(_) => panic!("wrong family"),
    }
    match IpAddr::from_str("0:0:0:0:0:0:0:1").unwrap() {
        IpAddr::V6(ip) => assert_eq!(ip.octets[15], 1),
        IpAddr::V4(_) => panic!("wrong family"),
    }
    assert!(IpAddr::from_str("not an address").is_err());
}

#[test]
fn entry_parse_dispatch() {
    match IpAddrOrHostname::from("example.com") {
        IpAddrOrHostname::Hostname(h) => assert_eq!(h, "example.com"),
        _ => panic!("expected a hostname"),
    }
    match IpAddrOrHostname::from("0:0:0:0:0:0:0:1") {
        IpAddrOrHostname::Ip(IpAddr::V6(ip)) => assert_eq!(ip.octets[15], 1),
        _ => panic!("expected a literal"),
    }
    // a dotted literal is still read as a hostname entry, as filters match
    // displayed strings
    match IpAddrOrHostname::from("1.2.3.4") {
        IpAddrOrHostname::Hostname(h) => assert_eq!(h, "1.2.3.4"),
        _ => panic!("expected a hostname"),
    }
}

#[test]
fn protocol_mapping() {
    assert_eq!(Protocol::from(1u8), Protocol::Icmp);
    assert_eq!(Protocol::from(6u8), Protocol::Tcp);
    assert_eq!(Protocol::from(17u8), Protocol::Udp);
    assert_eq!(Protocol::from(250u8), Protocol::Unknown);
}

#[test]
fn protocol_names() {
    assert_eq!(Protocol::from_str("tcp").unwrap(), Protocol::Tcp);
    assert_eq!(Protocol::from_str("TCP").unwrap(), Protocol::Tcp);
    assert_eq!(Protocol::from_str("Udp").unwrap(), Protocol::Udp);
    assert_eq!(Protocol::from_str("icmp").unwrap(), Protocol::Icmp);
    assert_eq!(Protocol::from_str("http").unwrap(), Protocol::Unknown);
    assert_eq!(Protocol::from_str("").unwrap(), Protocol::Unknown);
    assert_eq!(Protocol::Tcp.to_display_string(), "TCP");
    assert_eq!(Protocol::Udp.to_display_string(), "UDP");
    assert_eq!(Protocol::Icmp.to_display_string(), "ICMP");
    assert_eq!(Protocol::Unknown.to_display_string(), "???");
}

#[test]
fn display_strings() {
    let ip = IpV4 { octets: [1, 2, 3, 4] };
    assert_eq!(ip.to_display_string(), "1.2.3.4");
    let ip = IpV6 {
        octets: [0x20, 0x01, 0x0d, 0xb8, 0, 0, 0, 0, 0, 0, 0, 0, 0, 0, 0, 1],
    };
    assert_eq!(ip.to_display_string(), "2001:db8:0:0:0:0:0:1");
    let mac = MacAddr::from([0xaa, 0x0b, 0xcc, 0x00, 0xee, 0xff]);
    assert_eq!(mac.to_display_string(), "aa:b:cc:0:ee:ff");
    let a = IpAddr::V4(IpV4 { octets: [10, 0, 0, 1] });
    assert_eq!(a.to_display_string(), "10.0.0.1");
}

#[test]
fn number_rendering() {
    assert_eq!(u64_to_dec(0), "0");
    assert_eq!(u64_to_dec(7), "7");
    assert_eq!(u64_to_dec(1234567890), "1234567890");
    assert_eq!(u16_to_hex(0), "0");
    assert_eq!(u16_to_hex(0xabcd), "abcd");
    assert_eq!(u16_to_hex(255), "ff");
}

#[test]
fn text_utilities() {
    let parts = split_str("a.b..c", '.');
    let views: Vec<&str> = parts.iter().map(|p| p.as_str()).collect();
    assert_eq!(views, ["a", "b", "", "c"]);
    let parts = split_str("", '.');
    assert_eq!(parts.len(), 1);
    assert_eq!(parts[0], "");
    assert_eq!(parse_dec_u8("255"), Some(255));
    assert_eq!(parse_dec_u8("256"), None);
    assert_eq!(parse_dec_u8(""), None);
    assert_eq!(parse_dec_u8("007"), Some(7));
    assert_eq!(parse_hex_bounded("ff", 255), Some(255));
    assert_eq!(parse_hex_bounded("FF", 255), Some(255));
    assert_eq!(parse_hex_bounded("100", 255), None);
    assert_eq!(parse_hex_bounded("ffff", 0xffff), Some(0xffff));
    assert!(str_contains_char("a:b", ':'));
    assert!(!str_contains_char("ab", ':'));
    assert!(eq_ignore_case("TcP", "tcp"));
    assert!(!eq_ignore_case("tcpx", "tcp"));
}

#[test]
fn error_messages() {
    assert_eq!(AddrError::InvalidIp.message(), "Invalid IP address");
    assert_eq!(AddrError::InvalidMac.message(), "Invalid MAC address");
}

#[test]
fn equality_helpers() {
    let a = IpAddr::V4(IpV4 { octets: [1, 2, 3, 4] });
    let b = IpAddr::V4(IpV4 { octets: [1, 2, 3, 4] });
    let c = IpAddr::V4(IpV4 { octets: [1, 2, 3, 5] });
    assert!(a.eq_addr(&b));
    assert!(!a.eq_addr(&c));
    let v6 = IpAddr::from_str("0:0:0:0:0:0:0:1").unwrap();
    assert!(!a.eq_addr(&v6));
    assert!(v6.eq_addr(&v6));
    let m1 = MacAddr::from([1, 2, 3, 4, 5, 6]);
    let m2 = MacAddr::from((1, 2, 3, 4, 5, 6));
    let m3 = MacAddr::from([1, 2, 3, 4, 5, 7]);
    assert!(m1.eq_mac(&m2));
    assert!(!m1.eq_mac(&m3));
    let h1 = IpAddrOrHostname::Hostname(String::from("example.com"));
    let h2 = IpAddrOrHostname::Hostname(String::from("example.com"));
    let e1 = IpAddrOrHostname::Ip(a);
    assert!(h1.eq_entry(&h2));
    assert!(!h1.eq_entry(&e1));
    assert!(e1.eq_entry(&IpAddrOrHostname::Ip(b)));
}

#[test]
fn conversions() {
    let ip = IpV4::from((10, 20, 30, 40));
    assert_eq!(ip.octets, [10, 20, 30, 40]);
    let ip = IpV4::from([9, 8, 7, 6]);
    assert_eq!(ip.octets, [9, 8, 7, 6]);
    let ip = IpV4::from_octet_vec(&vec![1, 2, 3, 4, 99]);
    assert_eq!(ip.octets, [1, 2, 3, 4]);
    let ip = IpV6::from((0x2001, 0xdb8, 0, 0, 0, 0, 0, 1));
    assert_eq!(ip.octets[0], 0x20);
    assert_eq!(ip.octets[1], 0x01);
    assert_eq!(ip.octets[2], 0x0d);
    assert_eq!(ip.octets[3], 0xb8);
    assert_eq!(ip.octets[15], 1);
    let ip2 = IpV6::from_group_vec(&vec![0x2001, 0xdb8, 0, 0, 0, 0, 0, 1]);
    assert_eq!(ip.octets, ip2.octets);
    let mac = MacAddr::from_octet_vec(&vec![1, 2, 3, 4, 5, 6, 7]);
    assert_eq!(mac.octets, [1, 2, 3, 4, 5, 6]);
}
