//! Host names from multicast DNS.
use hickory_proto::op::{Message, MessageType, OpCode};
use hickory_proto::rr::{rdata, Name, RData, Record};
use hushwarren::mdns::{
    parse_arpa_to_ip, process_mdns_packet, sanitize_hostname, MdnsMap, MAP_CAP, MAX_HOSTNAME_LEN,
};
use hushwarren::net::{parse_ip, IpAddr};

fn build_mdns_response(records: Vec<Record>) -> Vec<u8> {
    let mut msg = Message::new(0, MessageType::Response, OpCode::Query);
    msg.metadata.authoritative = true;
    for r in records {
        msg.add_answer(r);
    }
    msg.to_vec().unwrap()
}

fn record(name: &str, ttl: u32, data: RData) -> Record {
    let name: Name = name.parse().unwrap();
    Record::from_rdata(name, ttl, data)
}

fn a_record(name: &str, ip: [u8; 4], ttl: u32) -> Record {
    record(name, ttl, RData::A(rdata::A(ip.into())))
}

fn aaaa_record(name: &str, ip: [u8; 16], ttl: u32) -> Record {
    record(name, ttl, RData::AAAA(rdata::AAAA(ip.into())))
}

fn ptr_record(arpa: &str, target: &str, ttl: u32) -> Record {
    let target_name: Name = target.parse().unwrap();
    record(arpa, ttl, RData::PTR(rdata::PTR(target_name)))
}

const FE80_1: [u8; 16] = [0xfe, 0x80, 0, 0, 0, 0, 0, 0, 0, 0, 0, 0, 0, 0, 0, 1];

#[test]
fn parse_a_record_updates_map() {
    let mut map = MdnsMap::new();
    let packet = build_mdns_response(vec![a_record("living-room.local.", [192, 168, 1, 50], 120)]);

    let applied = process_mdns_packet(&packet, &mut map);
    assert!(applied, "A record must be applied");
    assert_eq!(map.get(IpAddr::v4(192, 168, 1, 50)).as_deref(), Some("living-room.local"));
}

#[test]
fn parse_aaaa_record_updates_map() {
    let mut map = MdnsMap::new();
    let packet = build_mdns_response(vec![aaaa_record("tv.local.", FE80_1, 60)]);

    let applied = process_mdns_packet(&packet, &mut map);
    assert!(applied, "AAAA record must be applied");
    assert_eq!(map.get(parse_ip("fe80::1").unwrap()).as_deref(), Some("tv.local"));
}

#[test]
fn parse_ptr_record_updates_map() {
    let mut map = MdnsMap::new();
    let packet = build_mdns_response(vec![ptr_record(
        "50.1.168.192.in-addr.arpa.",
        "printer.local.",
        240,
    )]);

    let applied = process_mdns_packet(&packet, &mut map);
    assert!(applied, "PTR record must be applied");
    assert_eq!(map.get(IpAddr::v4(192, 168, 1, 50)).as_deref(), Some("printer.local"));
}

#[test]
fn malformed_packet_does_not_panic_and_returns_false() {
    let mut map = MdnsMap::new();
    let junk: &[u8] = &[0xFF, 0x42, 0x00, 0x01, 0x80, 0x00, 0xAA, 0xBB];
    assert!(!process_mdns_packet(junk, &mut map), "malformed packet must return false");
}

#[test]
fn empty_packet_does_not_panic() {
    let mut map = MdnsMap::new();
    assert!(!process_mdns_packet(&[], &mut map), "empty packet must return false");
}

#[test]
fn fuzz_sample_malformed_packets() {
    let cases: &[&[u8]] = &[
        &[],
        &[0],
        &[0x00, 0x00],
        &[0xFF, 0xFF, 0xFF, 0xFF],
        &[0x00; 12],
        &[0xFF; 512],
        &[0x00, 0x01, 0x84, 0x00, 0x00, 0x01, 0x00, 0x00, 0x00, 0x00, 0x00, 0x00],
        &[
            0x00, 0x00, 0x84, 0x00, 0x00, 0x00, 0x00, 0x01, 0x00, 0x00, 0x00, 0x00, 0x07, b'e', b'x',
            b'a', b'm', b'p', b'l', b'e',
        ],
        &[0xDE, 0xAD, 0xBE, 0xEF, 0x00, 0x00, 0x00, 0x00, 0x00, 0x00, 0x00, 0x00],
        b"HTTP/1.1",
        &[0x00, 0x00, 0x00, 0x00, 0x00, 0x00, 0x00, 0x00, 0xFF, 0xFF],
        &[0x84, 0x00, 0x00, 0x00, 0x00, 0x01, 0x00, 0x00, 0x00, 0x00, 0x00, 0x00],
        &[0x00, 0x00, 0x84, 0x00, 0x00, 0x00, 0x00, 0x00, 0x00, 0x00, 0x00, 0x05],
        &[0x00; 1],
        &[0xAB; 100],
        &[
            0x00, 0x00, 0x80, 0x00, 0x00, 0x00, 0x00, 0x01, 0x00, 0x00, 0x00, 0x00, 0xC0, 0x0C, 0x00,
            0x01, 0x80, 0x01, 0x00, 0x00, 0x00, 0x3C, 0x00, 0x04, 0xC0, 0xA8, 0x01, 0x0A,
        ],
    ];

    let mut map = MdnsMap::new();
    for pkt in cases.iter() {
        let _ = process_mdns_packet(pkt, &mut map);
    }
}

#[test]
fn map_ttl_expiry() {
    let mut map = MdnsMap::new();
    let ip = IpAddr::v4(10, 0, 0, 1);
    map.insert_at(ip, "expired.local".to_string(), 1, 0);
    assert_eq!(map.get_at(ip, 999_999_999).as_deref(), Some("expired.local"));
    assert!(map.get_at(ip, 1_000_000_000).is_none(), "expired entry must not be returned");
}

#[test]
fn map_cap_evicts_when_full() {
    let mut map = MdnsMap::new();
    for i in 0..MAP_CAP {
        let ip = IpAddr::v4(((i >> 16) & 0xFF) as u8, ((i >> 8) & 0xFF) as u8, (i & 0xFF) as u8, 0);
        map.insert(ip, format!("host{i}.local"), 120);
    }
    map.insert(IpAddr::v4(200, 200, 200, 200), "new.local".to_string(), 120);
    assert!(map.len() <= MAP_CAP, "map must not exceed cap after eviction");
    assert_eq!(map.get(IpAddr::v4(200, 200, 200, 200)).as_deref(), Some("new.local"));
}

#[test]
fn entry_that_expires_first_makes_room() {
    let mut map = MdnsMap::new();
    for i in 0..MAP_CAP {
        let ttl = if i == 17 { 5 } else { 100 };
        map.insert_at(IpAddr::V4(i as u32), "h".to_string(), ttl, 0);
    }
    map.insert_at(IpAddr::V4(99_999), "new".to_string(), 100, 0);
    assert!(map.get_at(IpAddr::V4(17), 0).is_none());
    assert!(map.get_at(IpAddr::V4(16), 0).is_some());
    assert_eq!(map.len_at(0), MAP_CAP);
}

#[test]
fn known_address_is_updated_in_a_full_map() {
    let mut map = MdnsMap::new();
    for i in 0..MAP_CAP {
        map.insert_at(IpAddr::V4(i as u32), "h".to_string(), 100, 0);
    }
    map.insert_at(IpAddr::V4(3), "other".to_string(), 100, 0);
    assert_eq!(map.get_at(IpAddr::V4(3), 0).as_deref(), Some("other"));
    assert_eq!(map.len_at(0), MAP_CAP);
}

#[test]
fn pruning_drops_expired_entries_only() {
    let mut map = MdnsMap::new();
    assert!(map.is_empty());
    map.insert_at(IpAddr::V4(1), "a".to_string(), 1, 0);
    map.insert_at(IpAddr::V4(2), "b".to_string(), 3, 0);
    assert_eq!(map.len_at(0), 2);
    assert_eq!(map.len_at(2_000_000_000), 1);
    map.prune_expired_at(2_000_000_000);
    assert_eq!(map.len_at(0), 1);
    map.prune_expired();
    assert_eq!(map.get_at(IpAddr::V4(2), 0).as_deref(), Some("b"));
}

#[test]
fn arpa_ipv4_roundtrip() {
    let ip = parse_arpa_to_ip("50.1.168.192.in-addr.arpa.");
    assert_eq!(ip, Some(IpAddr::v4(192, 168, 1, 50)));
}

#[test]
fn arpa_invalid_returns_none() {
    assert!(parse_arpa_to_ip("not-arpa").is_none());
    assert!(parse_arpa_to_ip("1.in-addr.arpa.").is_none());
    assert!(parse_arpa_to_ip("1.2.3.256.in-addr.arpa.").is_none());
}

#[test]
fn arpa_ipv6_names_are_read() {
    let localhost = format!("1.{}ip6.arpa.", "0.".repeat(31));
    assert_eq!(parse_arpa_to_ip(&localhost), Some(IpAddr::V6(1)));
    let name = format!("b.A.9.8.7.6.5.0.{}8.b.d.0.1.0.0.2.ip6.arpa", "0.".repeat(16));
    assert_eq!(
        parse_arpa_to_ip(&name),
        Some(IpAddr::V6(0x2001_0db8_0000_0000_0000_0000_0567_89ab))
    );
    assert!(parse_arpa_to_ip("1.0.ip6.arpa.").is_none());
    assert!(parse_arpa_to_ip(&format!("g.{}ip6.arpa.", "0.".repeat(31))).is_none());
    assert!(parse_arpa_to_ip(&format!("10.{}ip6.arpa.", "0.".repeat(31))).is_none());
}

#[test]
fn sanitize_hostname_valid_name_passes_through() {
    let result = sanitize_hostname("living-room.local");
    assert_eq!(result.as_deref(), Some("living-room.local"));
}

#[test]
fn sanitize_hostname_strips_control_characters() {
    let raw = "evil\x00host\x0A.local";
    let result = sanitize_hostname(raw);
    assert_eq!(result.as_deref(), Some("evilhost.local"));
}

#[test]
fn sanitize_hostname_strips_script_tag() {
    let raw = "<script>alert(1)</script>.local";
    let result = sanitize_hostname(raw);
    assert!(result.is_some(), "non-empty hostile name must survive as Some");
}

#[test]
fn sanitize_hostname_empty_after_stripping_returns_none() {
    let raw: String = (0u8..=0x1F).map(|b| b as char).collect();
    let result = sanitize_hostname(&raw);
    assert!(result.is_none(), "all-control-char input must yield None");
}

#[test]
fn sanitize_hostname_10kb_input_is_capped_at_253() {
    let raw = "a".repeat(10_000);
    let result = sanitize_hostname(&raw);
    assert!(result.is_some());
    assert!(result.unwrap().len() <= MAX_HOSTNAME_LEN);
}

#[test]
fn sanitize_hostname_exactly_253_chars_is_accepted() {
    let raw = "a".repeat(253);
    let result = sanitize_hostname(&raw);
    assert_eq!(result.map(|s| s.len()), Some(253));
}

#[test]
fn sanitize_hostname_254_chars_is_truncated() {
    let raw = "b".repeat(254);
    let result = sanitize_hostname(&raw);
    assert_eq!(result.map(|s| s.len()), Some(253));
}

#[test]
fn socket_is_never_written_structural_check() {
    // Nothing in the library takes or makes a socket: a packet goes in, and what comes out is
    // whether it taught anything.
    let f: fn(&[u8], &mut MdnsMap) -> bool = process_mdns_packet;
    assert!(!f(&[], &mut MdnsMap::new()));
}

#[test]
fn goodbyes_teach_nothing() {
    let mut map = MdnsMap::new();
    let packet = build_mdns_response(vec![a_record("gone.local.", [10, 0, 0, 9], 0)]);
    assert!(!process_mdns_packet(&packet, &mut map));
    assert!(map.is_empty());
}

#[test]
fn additional_records_teach_too() {
    let mut msg = Message::new(0, MessageType::Response, OpCode::Query);
    msg.add_additional(a_record("extra.local.", [10, 0, 0, 3], 60));
    let packet = msg.to_vec().unwrap();
    let mut map = MdnsMap::new();
    assert!(process_mdns_packet(&packet, &mut map));
    assert_eq!(map.get(IpAddr::v4(10, 0, 0, 3)).as_deref(), Some("extra.local"));
}
