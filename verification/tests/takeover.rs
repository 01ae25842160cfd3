//! Taking over the machine's DNS.
use hushwarren::net::{parse_ip, IpAddr, SocketAddr};
use hushwarren::platform::{DnsSetting, DnsSnapshot, PlatformError, ServiceDns};
use hushwarren::sentinel::takeover::{
    build_dns_query, parse_dns_a_response, probe_allowed, probe_blocked, resolve_restore_baseline,
    restore_from_snapshot, skip_name, verify_via_system_path, RestoreStep, SystemLookup,
    TakeoverConfig, TakeoverError, TakeoverEvent, TakeoverState, SELFTEST_BLOCKED_DOMAIN,
};

fn ip(s: &str) -> IpAddr {
    parse_ip(s).unwrap()
}


#[test]
fn build_dns_query_produces_valid_header() {
    let pkt = build_dns_query("example.com", 1);
    // Minimum length: 12 header + labels + null + qtype + qclass.
    assert!(pkt.len() >= 12);
    // QDCOUNT = 1.
    assert_eq!(u16::from_be_bytes([pkt[4], pkt[5]]), 1);
    // RD flag set.
    assert!(pkt[2] & 0x01 != 0);
}

#[test]
fn build_dns_query_encodes_labels() {
    let pkt = build_dns_query("ads.example.com", 1);
    // Check the label encoding: 3,'a','d','s', 7,'e','x','a','m','p','l','e', 3,'c','o','m', 0
    let qname_start = 12;
    assert_eq!(pkt[qname_start], 3); // len("ads")
    assert_eq!(&pkt[qname_start + 1..qname_start + 4], b"ads");
}

#[test]
fn parse_empty_packet_returns_empty() {
    let ips = parse_dns_a_response(&[]).unwrap();
    assert!(ips.is_empty());
}

#[test]
fn parse_nxdomain_response_returns_empty() {
    // Build a response with RCODE=3 (NXDOMAIN), ANCOUNT=0.
    let mut pkt = vec![
        0xAB, 0x01, 0x81, 0x83, 0x00, 0x01, 0x00, 0x00, 0x00, 0x00, 0x00, 0x00,
    ];
    // Add question: single-label "x\0" + QTYPE A + QCLASS IN.
    pkt.extend_from_slice(&[1, b'x', 0, 0, 1, 0, 1]);
    let ips = parse_dns_a_response(&pkt).unwrap();
    assert!(ips.is_empty());
}

#[test]
fn parse_sinkhole_a_record_0_0_0_0() {
    // Construct a minimal A response with 0.0.0.0.
    let domain = "test";
    let mut pkt = build_dns_query(domain, 1);
    // Turn query into response: set QR bit (0x80), RA bit; ANCOUNT = 1.
    pkt[2] |= 0x80;
    pkt[6] = 0x00;
    pkt[7] = 0x01; // ANCOUNT = 1
    // Append answer RR: name pointer to offset 12, TYPE A, CLASS IN, TTL 10, RDLEN 4, 0.0.0.0.
    pkt.extend_from_slice(&[
        0xC0, 0x0C, // name pointer to offset 12
        0x00, 0x01, // TYPE A
        0x00, 0x01, // CLASS IN
        0x00, 0x00, 0x00, 0x0A, // TTL 10
        0x00, 0x04, // RDLEN 4
        0x00, 0x00, 0x00, 0x00, // 0.0.0.0
    ]);
    let ips = parse_dns_a_response(&pkt).unwrap();
    assert_eq!(ips, vec![IpAddr::v4(0, 0, 0, 0)]);
}

#[test]
fn probe_blocked_empty_ips_is_sinkholed() {
    // No address at all (NXDOMAIN) counts as sinkholed.
    let ips: Vec<IpAddr> = vec![];
    assert!(probe_blocked(&ips));
}

#[test]
fn probe_blocked_null_ip_is_sinkholed() {
    let ips = vec![IpAddr::v4(0, 0, 0, 0)];
    assert!(probe_blocked(&ips));
}

#[test]
fn probe_allowed_real_ip_is_passing() {
    let ips = vec![ip("93.184.216.34")];
    assert!(probe_allowed(&ips));
}

#[test]
fn probe_allowed_loopback_only_is_failing() {
    let ips = vec![ip("127.0.0.1")];
    assert!(!probe_allowed(&ips));
}

#[test]
fn skip_name_root_label() {
    // Single null byte = root label.
    let pkt = &[0x00u8];
    assert_eq!(skip_name(pkt, 0).unwrap(), 1);
}

#[test]
fn skip_name_pointer() {
    // Pointer 0xC0 0x0C.
    let pkt = &[0xC0u8, 0x0C];
    assert_eq!(skip_name(pkt, 0).unwrap(), 2);
}

#[test]
fn skip_name_two_labels() {
    // "com" (3 bytes) + root.
    let pkt: &[u8] = &[3, b'c', b'o', b'm', 0];
    assert_eq!(skip_name(pkt, 0).unwrap(), 5);
}

#[test]
fn blocked_canary_must_not_have_an_address() {
    assert!(!probe_blocked(&vec![ip("0.0.0.0"), ip("1.2.3.4")]));
    assert!(probe_blocked(&vec![ip("0.0.0.0"), ip("::")]));
    assert!(!probe_allowed(&vec![]));
    assert!(!probe_allowed(&vec![ip("0.0.0.0"), ip("::")]));
    assert!(probe_allowed(&vec![ip("127.0.0.1"), ip("1.2.3.4")]));
}

#[test]
fn what_cannot_be_read_is_passed_over() {
    let header = [0xAB, 0x01, 0x81, 0x80, 0x00, 0x01, 0x00, 0x01, 0x00, 0x00, 0x00, 0x00];
    assert_eq!(parse_dns_a_response(&header), Ok(vec![]));
    let mut pkt = build_dns_query("a.b", 1);
    pkt[2] |= 0x80;
    pkt[7] = 2;
    pkt.extend_from_slice(&[0xC0, 0x0C, 0, 1, 0, 1, 0, 0, 0, 10, 0, 4, 1, 2, 3, 4]);
    pkt.extend_from_slice(&[9, b'x']);
    assert_eq!(parse_dns_a_response(&pkt), Ok(vec![ip("1.2.3.4")]));
}

#[test]
fn aaaa_answers_are_read() {
    let mut pkt = build_dns_query("a.b", 28);
    pkt[2] |= 0x80;
    pkt[7] = 1;
    pkt.extend_from_slice(&[0xC0, 0x0C, 0, 28, 0, 1, 0, 0, 0, 10, 0, 16]);
    pkt.extend_from_slice(&[0, 0, 0, 0, 0, 0, 0, 0, 0, 0, 0, 0, 0, 0, 0, 1]);
    assert_eq!(parse_dns_a_response(&pkt).unwrap(), vec![ip("::1")]);
    pkt.truncate(pkt.len() - 1);
    assert!(parse_dns_a_response(&pkt).unwrap().is_empty());
}

#[test]
fn names_that_run_over_the_end() {
    assert!(skip_name(&[], 0).is_err());
    assert!(skip_name(&[3, b'c'], 0).is_err());
}

fn snapshot(name: &str) -> DnsSnapshot {
    DnsSnapshot {
        v: 1,
        taken_unix_ms: 5,
        services: vec![ServiceDns { service: name.to_owned(), setting: DnsSetting::Dhcp }],
        linux_regime: None,
    }
}

fn config() -> TakeoverConfig {
    TakeoverConfig {
        listener_addr: SocketAddr { ip: ip("127.0.0.1"), port: 5353 },
        blocked_canary: SELFTEST_BLOCKED_DOMAIN.to_owned(),
        allowed_canary: "example.com".to_owned(),
        probe_timeout_ms: 1000,
        state_dir: "/state".to_owned(),
    }
}

fn run(events: Vec<TakeoverEvent>) -> TakeoverState {
    let cfg = config();
    events.into_iter().fold(TakeoverState::Prepare, |s, e| s.advance(&cfg, e))
}

fn up_to_commit(existing: Option<DnsSnapshot>) -> Vec<TakeoverEvent> {
    vec![
        TakeoverEvent::Prepared(Ok(())),
        TakeoverEvent::Probed(Ok(vec![])),
        TakeoverEvent::Probed(Ok(vec![ip("1.2.3.4")])),
        TakeoverEvent::SnapshotRead(Ok(snapshot("now"))),
        TakeoverEvent::BaselineLoaded(existing),
    ]
}

#[test]
fn takeover_that_succeeds() {
    let mut events = up_to_commit(None);
    events.push(TakeoverEvent::BaselinePersisted(Ok(())));
    events.push(TakeoverEvent::Committed(Ok(())));
    events.push(TakeoverEvent::Verified(Ok(())));
    events.push(TakeoverEvent::TripCleared);
    match run(events) {
        TakeoverState::Done { baseline } => assert_eq!(baseline, snapshot("now")),
        other => panic!("expected Done, got {other:?}"),
    }
}

#[test]
fn first_baseline_is_kept() {
    match run(up_to_commit(Some(snapshot("first")))) {
        TakeoverState::Commit { current, baseline } => {
            assert_eq!(baseline, snapshot("first"));
            assert_eq!(current, snapshot("now"));
        }
        other => panic!("expected Commit, got {other:?}"),
    }
    let (baseline, write) = resolve_restore_baseline(None, &snapshot("now"));
    assert!(write);
    assert_eq!(baseline, snapshot("now"));
}

#[test]
fn failed_verification_rolls_back() {
    let mut events = up_to_commit(Some(snapshot("first")));
    events.push(TakeoverEvent::Committed(Ok(())));
    events.push(TakeoverEvent::Verified(Err("no answer".to_owned())));
    let cfg = config();
    match run(events) {
        TakeoverState::RollBack { baseline, error } => {
            assert_eq!(baseline, snapshot("first"));
            let s = TakeoverState::RollBack { baseline, error };
            match s.advance(&cfg, TakeoverEvent::RolledBack) {
                TakeoverState::Failed { error } => assert_eq!(
                    error.message(),
                    "post-commit verify failed (DNS restored): no answer"
                ),
                other => panic!("expected Failed, got {other:?}"),
            }
        }
        other => panic!("expected RollBack, got {other:?}"),
    }
}

#[test]
fn failed_commit_rolls_back() {
    let mut events = up_to_commit(Some(snapshot("first")));
    events.push(TakeoverEvent::Committed(Err(PlatformError::NeedsRoot)));
    assert!(matches!(
        run(events),
        TakeoverState::RollBack { error: TakeoverError::Platform(PlatformError::NeedsRoot), .. }
    ));
}

fn failure(events: Vec<TakeoverEvent>) -> String {
    match run(events) {
        TakeoverState::Failed { error } => error.message(),
        other => panic!("expected Failed, got {other:?}"),
    }
}

#[test]
fn failures_before_the_commit() {
    assert_eq!(
        failure(vec![TakeoverEvent::Prepared(Err("in use".to_owned()))]),
        "port 53 is already in use; cannot start takeover: cannot bind loopback UDP: in use"
    );
    assert_eq!(
        failure(vec![
            TakeoverEvent::Prepared(Ok(())),
            TakeoverEvent::Probed(Ok(vec![ip("1.2.3.4")])),
        ]),
        "self-test failed: blocked canary 'hushwarren-selftest-blocked.invalid' was NOT sinkholes \
         (returned a real address)"
    );
    assert_eq!(
        failure(vec![
            TakeoverEvent::Prepared(Ok(())),
            TakeoverEvent::Probed(Err("timeout".to_owned())),
        ]),
        "self-test failed: blocked canary probe error: timeout"
    );
    assert_eq!(
        failure(vec![
            TakeoverEvent::Prepared(Ok(())),
            TakeoverEvent::Probed(Ok(vec![])),
            TakeoverEvent::Probed(Ok(vec![])),
        ]),
        "self-test failed: allowed canary 'example.com' returned no A records \
         (upstream path broken)"
    );
    let mut events = up_to_commit(None);
    events.push(TakeoverEvent::BaselinePersisted(Err("disk full".to_owned())));
    assert_eq!(failure(events), "snapshot persist failed: disk full");
}

#[test]
fn foreign_events_change_nothing() {
    assert!(matches!(run(vec![TakeoverEvent::RolledBack]), TakeoverState::Prepare));
}

#[test]
fn system_path_lookups() {
    assert!(verify_via_system_path("c.test", SystemLookup::Found).is_ok());
    assert_eq!(
        verify_via_system_path("c.test", SystemLookup::NoAddress).unwrap_err(),
        "'c.test' resolved to no addresses via system path"
    );
    assert_eq!(
        verify_via_system_path("c.test", SystemLookup::Error("x".to_owned())).unwrap_err(),
        "'c.test' system-path resolution failed: x"
    );
    assert_eq!(
        verify_via_system_path("c.test", SystemLookup::TimedOut("5s".to_owned())).unwrap_err(),
        "system-path resolution of 'c.test' timed out after 5s"
    );
}

#[test]
fn baseline_goes_only_after_a_restore() {
    assert!(matches!(restore_from_snapshot(Ok(())), RestoreStep::RemoveBaseline));
    assert!(matches!(
        restore_from_snapshot(Err(PlatformError::Unsupported)),
        RestoreStep::Fail(PlatformError::Unsupported)
    ));
}
