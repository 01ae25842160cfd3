//! What is done with a query.
use hickory_proto::rr::RecordType;
use hushwarren::clock::unix_ms_now;
use hushwarren::config::{BlockAction, PrivacyConfig, QueryLogMode};
use hushwarren::dns::{
    begin_query, bind_guard_listeners, block_response, chain_too_long, decide_query,
    find_rebind_offender, finish_protected, hops_to_inspect, inspect_query, is_canary, is_private_relay, strip_dot, Answer,
    Incoming, Inspection, Query, QueryRoute, QueryStart, Reply, CNAME_DEPTH_CAP,
    PRIVATE_RELAY_DOMAIN, PRIVATE_RELAY_H2_DOMAIN,
};
use hushwarren::metrics::Metrics;
use hushwarren::net::{parse_ip, IpAddr};
use hushwarren::querylog::{Reason, Verdict};

fn privacy() -> PrivacyConfig {
    PrivacyConfig {
        browser_doh_canary: true,
        cname_inspection: true,
        query_log: QueryLogMode::Full,
        retain_days: 7,
        block_doh_bypass: false,
        block_private_relay: false,
        odoh: false,
        doh_padding: true,
        rebind_protection: true,
        rebind_allow: vec![],
    }
}

fn ip(s: &str) -> IpAddr {
    parse_ip(s).unwrap()
}

fn query(name: &str, qtype: u16) -> Query {
    Query { qname: name.to_string(), qtype, now_ms: 7, client: None }
}

fn address(s: &str, private: bool) -> Answer {
    Answer::Address { ip: ip(s), private }
}

#[test]
fn canary_domain_lowercase_matches() {
    for input in &["use-application-dns.net", "USE-APPLICATION-DNS.NET", "Use-Application-Dns.Net"] {
        let lower = input.to_ascii_lowercase();
        assert!(is_canary(&lower), "canary domain must match case-insensitively");
    }
}

#[test]
fn non_canary_domain_does_not_match() {
    for non_canary in &[
        "example.com",
        "use-application-dns.net.evil.com",
        "use-application-dns.net.local",
        "notuse-application-dns.net",
    ] {
        let lower = non_canary.to_ascii_lowercase();
        assert!(!is_canary(&lower), "{non_canary} must not match canary domain");
    }
}

#[test]
fn private_relay_exact_match() {
    for pr in &[PRIVATE_RELAY_DOMAIN, PRIVATE_RELAY_H2_DOMAIN] {
        let qname = pr.to_ascii_lowercase();
        assert!(is_private_relay(&qname), "{pr} must match private relay domains");
    }
}

#[test]
fn private_relay_subdomain_matches() {
    let sub = "sub.mask.icloud.com";
    assert!(is_private_relay(&sub.to_ascii_lowercase()), "subdomain of private relay must match");
}

#[test]
fn non_private_relay_does_not_match() {
    for non_pr in &["example.com", "mask.icloud.com.evil.net", "notmask.icloud.com"] {
        let qname = non_pr.to_ascii_lowercase();
        assert!(!is_private_relay(&qname), "{non_pr} must not match private relay domains");
    }
}

#[test]
fn cname_depth_cap_value() {
    assert_eq!(CNAME_DEPTH_CAP, 10);
}

fn is_nodata(t: RecordType) -> bool {
    block_response(u16::from(t), BlockAction::NullIp, 10) == Reply::NoData
}

#[test]
fn https_qtype_is_nodata_not_a_record() {
    assert!(is_nodata(RecordType::HTTPS));
}

#[test]
fn txt_qtype_is_nodata() {
    assert!(is_nodata(RecordType::TXT));
}

#[test]
fn mx_qtype_is_nodata() {
    assert!(is_nodata(RecordType::MX));
}

#[test]
fn srv_qtype_is_nodata() {
    assert!(is_nodata(RecordType::SRV));
}

#[test]
fn ptr_qtype_is_nodata() {
    assert!(is_nodata(RecordType::PTR));
}

#[test]
fn svcb_qtype_is_nodata() {
    assert!(is_nodata(RecordType::SVCB));
}

#[test]
fn unix_ms_now_nonzero() {
    assert!(unix_ms_now() > 0);
}

#[test]
fn block_action_variants_exhaustive() {
    let _ = BlockAction::NullIp;
    let _ = BlockAction::Nxdomain;
}

#[test]
fn blocked_addresses_are_null() {
    assert_eq!(
        block_response(1, BlockAction::NullIp, 60),
        Reply::NullV4 { ttl_secs: 60 }
    );
    assert_eq!(
        block_response(28, BlockAction::NullIp, 60),
        Reply::NullV6 { ttl_secs: 60 }
    );
    assert_eq!(block_response(1, BlockAction::Nxdomain, 60), Reply::NxDomain);
}

#[test]
fn rebind_walker_empty_answer_no_offender() {
    assert!(find_rebind_offender(&[]).is_none(), "empty answer must have no offender");
}

#[test]
fn rebind_walker_stops_at_first_offender() {
    let answers = vec![
        address("1.1.1.1", false),
        address("192.168.0.1", true),
        address("10.0.0.1", true),
    ];
    assert_eq!(find_rebind_offender(&answers), Some(ip("192.168.0.1")));
}

#[test]
fn rebind_walker_cname_record_not_inspected() {
    let answers = vec![Answer::Cname("target.example.com.".to_string())];
    assert!(find_rebind_offender(&answers).is_none());
}

#[test]
fn trailing_dot_is_dropped() {
    assert_eq!(strip_dot("example.com."), "example.com");
    assert_eq!(strip_dot("example.com"), "example.com");
}

#[test]
fn canary_is_answered_with_nxdomain() {
    let mut m = Metrics::new();
    let incoming = Incoming {
        name: "Use-Application-Dns.Net.".to_string(),
        qtype: 1,
        source: ip("127.0.0.1"),
    };
    match begin_query(&mut m, Some(incoming), &privacy(), 5, false) {
        QueryStart::Handled(h) => {
            assert_eq!(h.reply, Reply::NxDomain);
            assert_eq!(h.record.reason, Reason::BrowserDohCanary);
            assert_eq!(h.record.verdict, Verdict::Block);
        }
        other => panic!("expected an answer, got {other:?}"),
    }
    assert_eq!(m.snapshot().blocked_total, 1);
}

#[test]
fn malformed_query_is_counted() {
    let mut m = Metrics::new();
    assert!(matches!(begin_query(&mut m, None, &privacy(), 5, false), QueryStart::Malformed));
    assert_eq!(m.snapshot().malformed_total, 1);
}

#[test]
fn protected_private_relay_is_forwarded() {
    let mut m = Metrics::new();
    let incoming =
        Incoming { name: "mask.icloud.com.".to_string(), qtype: 1, source: ip("127.0.0.1") };
    let q = match begin_query(&mut m, Some(incoming), &privacy(), 5, false) {
        QueryStart::ForwardProtected(q) => q,
        other => panic!("expected a forward, got {other:?}"),
    };
    let h = finish_protected(&mut m, &q, true, 12);
    assert_eq!(h.reply, Reply::Relay);
    assert_eq!(h.record.reason, Reason::PrivateRelayProtected);
    assert_eq!(h.record.upstream_ms, Some(12));
    let h = finish_protected(&mut m, &q, false, 12);
    assert_eq!(h.reply, Reply::ServFail);
}

#[test]
fn clients_are_recorded_only_where_asked_for() {
    let mut m = Metrics::new();
    for (log, want) in [(false, None), (true, Some(ip("192.168.1.9")))] {
        let incoming =
            Incoming { name: "example.com.".to_string(), qtype: 1, source: ip("192.168.1.9") };
        match begin_query(&mut m, Some(incoming), &privacy(), 5, log) {
            QueryStart::Decide(q) => assert_eq!(q.client, want),
            other => panic!("expected a decision, got {other:?}"),
        }
    }
}

#[test]
fn blocked_query_gets_the_sinkhole() {
    let mut m = Metrics::new();
    let decision = Some((Verdict::Block, Reason::ListBlocked));
    match decide_query(&mut m, query("ads.example.com", 1), decision, &privacy(), BlockAction::NullIp, 30) {
        QueryRoute::Handled(h) => {
            assert_eq!(h.reply, Reply::NullV4 { ttl_secs: 30 });
            assert_eq!(h.record.reason, Reason::ListBlocked);
        }
        other => panic!("expected an answer, got {other:?}"),
    }
    assert_eq!(m.snapshot().blocked_total, 1);
}

fn inspect(answers: &Vec<Answer>, hops: Vec<Option<Verdict>>, exempt: bool) -> (Reply, Reason) {
    let mut m = Metrics::new();
    let h = inspect_query(
        &mut m,
        &query("example.com", 1),
        Verdict::Forward,
        Reason::NoMatch,
        Inspection { cname: true, rebind: true },
        Some(answers),
        &hops,
        exempt,
        BlockAction::NullIp,
        30,
        4,
    );
    assert_eq!(h.record.upstream_ms.is_none(), h.record.verdict == Verdict::Block);
    (h.reply, h.record.reason)
}

#[test]
fn cloaked_name_is_blocked() {
    let answers = vec![Answer::Cname("tracker.example.".to_string()), address("1.1.1.1", false)];
    let hops = hops_to_inspect(&answers);
    assert_eq!(hops, vec!["tracker.example".to_string()]);
    let (reply, reason) = inspect(&answers, vec![Some(Verdict::Block)], false);
    assert_eq!(reply, Reply::NullV4 { ttl_secs: 30 });
    assert_eq!(reason, Reason::CnameCloaked { hop: "tracker.example".to_string() });
}

#[test]
fn rebinding_answer_is_blocked_unless_exempt() {
    let answers = vec![address("192.168.1.1", true)];
    let (reply, reason) = inspect(&answers, vec![], false);
    assert_eq!(reply, Reply::NoData);
    assert_eq!(reason, Reason::RebindBlocked { addr: "192.168.1.1".to_string() });
    let (reply, reason) = inspect(&answers, vec![], true);
    assert_eq!(reply, Reply::Relay);
    assert_eq!(reason, Reason::NoMatch);
}

#[test]
fn cloaking_wins_over_rebinding() {
    let answers = vec![Answer::Cname("tracker.example.".to_string()), address("10.0.0.1", true)];
    let (_, reason) = inspect(&answers, vec![Some(Verdict::Block)], false);
    assert_eq!(reason, Reason::CnameCloaked { hop: "tracker.example".to_string() });
}

#[test]
fn long_chains_pass_uninspected() {
    let chain = |n: usize| -> Vec<Answer> {
        (0..n).map(|i| Answer::Cname(format!("hop{i}.example."))).collect()
    };
    let answers = chain(11);
    assert!(hops_to_inspect(&answers).len() <= CNAME_DEPTH_CAP);
    assert!(chain_too_long(&answers));
    let ten = chain(CNAME_DEPTH_CAP);
    assert!(!chain_too_long(&ten));
    assert_eq!(hops_to_inspect(&ten).len(), CNAME_DEPTH_CAP);
    assert!(!chain_too_long(&vec![]));
}

#[test]
fn guard_listens_on_port_53() {
    let ips = vec!["192.168.1.2".to_string(), "::1".to_string()];
    let addrs = bind_guard_listeners(&ips).unwrap();
    assert_eq!(addrs.len(), 2);
    assert!(addrs.iter().all(|a| a.port == 53));
    assert_eq!(
        bind_guard_listeners(&vec!["nonsense".to_string()]).unwrap_err(),
        "invalid IP: nonsense"
    );
}

#[test]
fn every_query_is_accounted_for() {
    let p = privacy();
    let mut m = Metrics::new();
    let incoming = |name: &str| {
        Some(Incoming { name: name.to_string(), qtype: 1, source: ip("192.0.2.9") })
    };
    begin_query(&mut m, None, &p, 1, false);
    begin_query(&mut m, incoming("use-application-dns.net."), &p, 1, false);
    let q = match begin_query(&mut m, incoming("mask.icloud.com."), &p, 1, false) {
        QueryStart::ForwardProtected(q) => q,
        _ => panic!("forwarded"),
    };
    finish_protected(&mut m, &q, false, 0);
    for (verdict, answers, hops) in [
        (Verdict::Block, None, vec![]),
        (Verdict::Forward, None, vec![]),
        (Verdict::Forward, Some(vec![address("192.0.2.1", false)]), vec![]),
        (Verdict::Forward, Some(vec![address("10.0.0.1", true)]), vec![]),
        (
            Verdict::Forward,
            Some(vec![Answer::Cname("t.example.".to_string())]),
            vec![Some(Verdict::Block)],
        ),
    ] {
        let q = match begin_query(&mut m, incoming("a.example."), &p, 1, false) {
            QueryStart::Decide(q) => q,
            _ => panic!("decided by the rules"),
        };
        let decision = Some((verdict, Reason::NoMatch));
        let route = decide_query(&mut m, q, decision, &p, BlockAction::NullIp, 10);
        if let QueryRoute::Resolve { query, verdict, reason, inspection } = route {
            inspect_query(
                &mut m,
                &query,
                verdict,
                reason,
                inspection,
                answers.as_ref(),
                &hops,
                false,
                BlockAction::NullIp,
                10,
                5,
            );
        }
    }
    assert_eq!(m.queries_total, 8);
    assert_eq!(m.malformed_total, 1);
    assert_eq!(m.blocked_total, 4);
    assert_eq!(m.forwarded_total, 3);
    assert_eq!(m.servfail_total, 2);
}
