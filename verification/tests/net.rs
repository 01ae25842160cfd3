//! Addresses and texts.
use hickory_proto::rr::rdata::{A, AAAA};
use hushwarren::net::{ip_string, parse_addresses, parse_ip, parse_v4, socket_string, IpAddr, SocketAddr};
use hushwarren::table::Table;
use hushwarren::text::{
    contains_text, decimal_of, join, lines, parse_unsigned, same_text,
    sort_texts, split_on, split_whitespace, strip_prefix, strip_suffix, to_ascii_lowercase, trim,
    trim_end_matches,
};

#[test]
fn addresses_are_read() {
    assert_eq!(parse_ip("192.168.1.50"), Some(IpAddr::v4(192, 168, 1, 50)));
    assert_eq!(parse_ip("::"), Some(IpAddr::V6(0)));
    assert_eq!(parse_ip("::1"), Some(IpAddr::V6(1)));
    assert_eq!(parse_ip("fe80::1"), Some(IpAddr::V6(0xfe80 << 112 | 1)));
    assert_eq!(
        parse_ip("1:2:3:4:5:6:7:8"),
        Some(IpAddr::V6(0x0001_0002_0003_0004_0005_0006_0007_0008))
    );
    assert_eq!(parse_ip("::ffff:1.2.3.4"), Some(IpAddr::V6(0xffff_0102_0304)));
    for bad in ["", "1.2.3", "1.2.3.256", "01.2.3.4", "1.2.3.4 ", ":::", "1::2::3", "12345::", "g::"] {
        assert_eq!(parse_ip(bad), None, "{bad}");
    }
    assert_eq!(parse_v4("0.0.0.1"), Some(1));
}

#[test]
fn addresses_agree_with_the_standard_library() {
    for s in [
        "0.0.0.0", "255.255.255.255", "1.2.3.4", "::", "::1", "1::", "1::2", "fe80::1:2:3",
        "2606:2800:220:1:248:1893:25c8:1946", "::ffff:1.2.3.4", "1:0:0:2:0:0:0:3", "1:2:3:4:5:6:7::",
        "::2:3:4:5:6:7:8", "1:0:2:0:3:0:4:0",
    ] {
        let ours = parse_ip(s).unwrap();
        let (bits, text) = match s.parse::<A>() {
            Ok(a) => (IpAddr::V4(a.0.to_bits()), a.0.to_string()),
            Err(_) => {
                let a = s.parse::<AAAA>().unwrap();
                (IpAddr::V6(a.0.to_bits()), a.0.to_string())
            }
        };
        assert_eq!(ours, bits);
        assert_eq!(ip_string(ours), text);
    }
}

#[test]
fn socket_addresses_are_written() {
    let s = SocketAddr { ip: IpAddr::V6(1), port: 853 };
    assert_eq!(socket_string(s), "[::1]:853");
    let s = SocketAddr { ip: IpAddr::v4(10, 0, 0, 1), port: 53 };
    assert_eq!(socket_string(s), "10.0.0.1:53");
}

#[test]
fn texts_that_are_no_address_are_passed_over() {
    let v = vec!["::1".to_string(), "x".to_string(), "1.2.3.4".to_string()];
    assert_eq!(parse_addresses(&v), vec![IpAddr::V6(1), IpAddr::v4(1, 2, 3, 4)]);
}

#[test]
fn loopback_and_unspecified() {
    assert!(IpAddr::v4(127, 9, 9, 9).is_loopback());
    assert!(!IpAddr::v4(128, 0, 0, 1).is_loopback());
    assert!(IpAddr::V6(1).is_loopback());
    assert!(IpAddr::V6(0).is_unspecified());
    assert!(!IpAddr::v4(0, 0, 0, 1).is_unspecified());
}

#[test]
fn text_functions_agree_with_the_standard_library() {
    for s in ["", " a b ", "a\r\nb\n\nc", "\u{2003}x\u{85}", "A\u{c4}z", "a,b,,c", "aa..", "\n"] {
        assert_eq!(trim(s), s.trim());
        assert_eq!(lines(s), s.lines().collect::<Vec<_>>());
        assert_eq!(split_on(s, ','), s.split(',').collect::<Vec<_>>());
        assert_eq!(split_whitespace(s), s.split_whitespace().collect::<Vec<_>>());
        assert_eq!(to_ascii_lowercase(s), s.to_ascii_lowercase());
        assert_eq!(trim_end_matches(s, '.'), s.trim_end_matches('.'));
        assert_eq!(strip_prefix(s, "a").as_deref(), s.strip_prefix("a"));
        assert_eq!(strip_suffix(s, "c").as_deref(), s.strip_suffix("c"));
        assert_eq!(contains_text(s, "b"), s.contains("b"));
        assert!(same_text(s, s));
    }
}

#[test]
fn numbers_as_text() {
    for n in [0, 7, 10, 4294967295, u64::MAX] {
        assert_eq!(decimal_of(n), n.to_string());
        assert_eq!(parse_unsigned(&n.to_string(), u64::MAX), Some(n));
    }
    assert_eq!(parse_unsigned("+5", 255), "+5".parse::<u8>().ok().map(|n| n as u64));
    for bad in ["", "-1", " 1", "1x", "256"] {
        assert_eq!(parse_unsigned(bad, 255), None, "{bad}");
    }
}

#[test]
fn sorting_and_joining() {
    let v = vec!["b".to_string(), "".to_string(), "ab".to_string(), "a".to_string()];
    let mut want = v.clone();
    want.sort();
    assert_eq!(sort_texts(v), want);
    assert_eq!(join(&want, ", "), ", a, ab, b");
}

#[test]
fn table_keeps_the_last_value() {
    let mut t: Table<u32> = Table::new();
    t.insert("a", 1);
    t.insert("b", 2);
    t.insert("a", 3);
    assert_eq!(t.get("a"), Some(&3));
    assert_eq!(t.get("b"), Some(&2));
    assert_eq!(t.get("c"), None);
}
