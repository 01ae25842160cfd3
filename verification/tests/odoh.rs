//! Oblivious lookups.
use hickory_proto::op::Message;
use hickory_proto::rr::RecordType;
use hushwarren::config::OdohUpstreamConfig;
use hushwarren::net::{IpAddr, SocketAddr};
use hushwarren::odoh::{
    accept_answer, after_fetch, after_query, build_dns_query, check_config_status,
    check_query_status, fresh_at_age, lookup_start, odohconfigs_url, open_answer, parse_https_url,
    parse_url, percent_encode, prepare_query, query_end, query_plaintext, query_with_id, seal_query,
    target_key, CachedConfig, LookupStep, OdohError, OdohRung, QueryEnd,
    CONFIG_CACHE_TTL_NANOS,
};

fn key_pair() -> odoh_rs::ObliviousDoHKeyPair {
    let mut rng = <rand::rngs::StdRng as rand::SeedableRng>::from_seed([0u8; 32]);
    odoh_rs::ObliviousDoHKeyPair::new(&mut rng)
}

fn served_configs(kp: &odoh_rs::ObliviousDoHKeyPair) -> Vec<u8> {
    let list: odoh_rs::ObliviousDoHConfigs =
        vec![odoh_rs::ObliviousDoHConfig::from(kp.public().clone())].into();
    odoh_rs::compose(&list).unwrap().to_vec()
}

fn config(target: &str, relay: &str, ips: &[&str]) -> OdohUpstreamConfig {
    OdohUpstreamConfig {
        target: target.to_string(),
        relay: relay.to_string(),
        bootstrap_ips: ips.iter().map(|s| s.to_string()).collect(),
    }
}

#[test]
fn odohconfigs_url_extracts_origin() {
    assert_eq!(
        odohconfigs_url("https://odoh.cloudflare-dns.com/dns-query").unwrap(),
        "https://odoh.cloudflare-dns.com/.well-known/odohconfigs"
    );
    assert_eq!(
        odohconfigs_url("https://odoh.example.com").unwrap(),
        "https://odoh.example.com/.well-known/odohconfigs"
    );
}

#[test]
fn odohconfigs_url_accepts_http_for_test_mocks() {
    assert_eq!(
        odohconfigs_url("http://localhost:8080/dns-query").unwrap(),
        "http://localhost:8080/.well-known/odohconfigs"
    );
}

#[test]
fn odohconfigs_url_rejects_other_schemes() {
    assert!(odohconfigs_url("ftp://odoh.example.com/dns-query").is_err());
    assert!(odohconfigs_url("ws://odoh.example.com/dns-query").is_err());
}

#[test]
fn parse_https_url_with_path() {
    let (host, path) = parse_https_url("https://odoh.cloudflare-dns.com/dns-query").unwrap();
    assert_eq!(host, "odoh.cloudflare-dns.com");
    assert_eq!(path, "/dns-query");
}

#[test]
fn parse_https_url_no_path_defaults_dns_query() {
    let (host, path) = parse_https_url("https://odoh.example.com").unwrap();
    assert_eq!(host, "odoh.example.com");
    assert_eq!(path, "/dns-query");
}

#[test]
fn parse_https_url_accepts_http_scheme() {
    let (host, path) = parse_https_url("http://localhost:9000/dns-query").unwrap();
    assert_eq!(host, "localhost:9000");
    assert_eq!(path, "/dns-query");
}

#[test]
fn parse_https_url_rejects_unknown_scheme() {
    assert!(parse_https_url("ftp://example.com/dns-query").is_err());
}

#[test]
fn percent_encode_passthrough_unreserved() {
    assert_eq!(percent_encode("odoh.cloudflare-dns.com"), "odoh.cloudflare-dns.com");
    assert_eq!(percent_encode("/dns-query"), "/dns-query");
}

#[test]
fn percent_encode_colons_and_slashes() {
    let encoded = percent_encode("https://odoh.cloudflare-dns.com/dns-query");
    assert!(!encoded.contains(':'), "colon must be percent-encoded");
    assert!(encoded.contains('/'), "slash must be preserved");
}

#[test]
fn percent_encoding_of_other_bytes() {
    assert_eq!(percent_encode("a b&c=\u{e9}~_"), "a%20b%26c%3D%C3%A9~_");
}

#[test]
fn post_url_direct_to_target_when_relay_empty() {
    let rung =
        OdohRung::new(config("https://odoh.cloudflare-dns.com/dns-query", "", &["1.1.1.1"])).unwrap();
    assert_eq!(rung.post_url().unwrap(), "https://odoh.cloudflare-dns.com/dns-query");
}

#[test]
fn post_url_relay_mode_includes_target_params() {
    let rung = OdohRung::new(config(
        "https://odoh.cloudflare-dns.com/dns-query",
        "https://relay.example.com/proxy",
        &["1.1.1.1"],
    ))
    .unwrap();
    let url = rung.post_url().unwrap();
    assert!(url.starts_with("https://relay.example.com/proxy?"));
    assert!(url.contains("targethost=odoh.cloudflare-dns.com"));
    assert!(url.contains("targetpath="));
    assert_eq!(
        url,
        "https://relay.example.com/proxy?targethost=odoh.cloudflare-dns.com&targetpath=/dns-query"
    );
}

#[test]
fn build_dns_query_produces_valid_wire_message() {
    let bytes = build_dns_query("example.com", u16::from(RecordType::A)).unwrap();
    let msg = Message::from_vec(&bytes).unwrap();
    assert!(!msg.queries.is_empty(), "query section must be non-empty");
    let q = &msg.queries[0];
    assert_eq!(q.query_type(), RecordType::A);
    assert!(q.name().to_ascii().to_lowercase().contains("example"));
}

#[test]
fn build_dns_query_no_opt_record() {
    let bytes = build_dns_query("example.com", u16::from(RecordType::A)).unwrap();
    let msg = Message::from_vec(&bytes).unwrap();
    assert!(msg.additionals.is_empty());
    assert!(msg.edns.is_none());
}

#[test]
fn config_cache_freshness() {
    let cached = CachedConfig { contents: vec![1], fetched_at: std::time::Instant::now() };
    assert!(cached.is_fresh(), "brand-new cache entry must be fresh");
    assert!(fresh_at_age(CONFIG_CACHE_TTL_NANOS - 1));
    assert!(!fresh_at_age(CONFIG_CACHE_TTL_NANOS));
}

#[test]
fn query_has_the_given_number() {
    let bytes = query_with_id("example.com", 28, 0xabcd).unwrap();
    assert_eq!(&bytes[..12], &[0xab, 0xcd, 1, 0, 0, 1, 0, 0, 0, 0, 0, 0]);
    assert_eq!(Message::from_vec(&bytes).unwrap().queries[0].query_type(), RecordType::AAAA);
    assert!(matches!(
        query_with_id(&"a".repeat(70), 1, 1),
        Err(OdohError::DnsParse(_))
    ));
}

#[test]
fn ports_of_urls() {
    assert_eq!(parse_url("https://a.example/x").unwrap(), ("a.example".to_string(), 443));
    assert_eq!(parse_url("http://a.example").unwrap(), ("a.example".to_string(), 80));
    assert_eq!(parse_url("http://a:8080/x").unwrap(), ("a:8080".to_string(), 8080));
    assert_eq!(parse_url("https://a:99999/x").unwrap(), ("a:99999".to_string(), 443));
    assert!(parse_url("a.example").is_err());
}

#[test]
fn rung_pins_its_hosts() {
    let rung = OdohRung::new_with_padding(
        config("https://t.example/q", "http://r.example:81/p", &["nonsense", "1.2.3.4"]),
        true,
    )
    .unwrap();
    assert!(rung.pad());
    let ip = IpAddr::v4(1, 2, 3, 4);
    assert_eq!(rung.hosts().target.host, "t.example");
    assert_eq!(rung.hosts().target.addrs, vec![SocketAddr { ip, port: 443 }]);
    let relay = rung.hosts().relay.as_ref().unwrap();
    assert_eq!(relay.host, "r.example:81");
    assert_eq!(relay.addrs, vec![SocketAddr { ip, port: 81 }]);
    assert_eq!(rung.configs_url().unwrap(), "https://t.example/.well-known/odohconfigs");
}

#[test]
fn unusable_configurations() {
    let message = |c: OdohUpstreamConfig| OdohRung::new(c).unwrap_err().message();
    assert_eq!(
        message(config("ftp://t", "", &["1.2.3.4"])),
        "ODoH config error: URL must start with https:// or http://: ftp://t"
    );
    assert_eq!(
        message(config("https://t", "", &["nonsense"])),
        "ODoH config error: bootstrap_ips contains no valid IP addresses"
    );
    assert_eq!(
        message(config("https://t", "r.example", &["1.2.3.4"])),
        "ODoH config error: URL must start with https:// or http://: r.example"
    );
}

#[test]
fn keys_are_remembered_until_dropped() {
    let mut rung = OdohRung::new(config("https://t", "", &["1.2.3.4"])).unwrap();
    assert_eq!(rung.fresh_key(), None);
    rung.remember_key(vec![1, 2, 3]);
    assert_eq!(rung.fresh_key(), Some(vec![1, 2, 3]));
    rung.evict_key();
    assert_eq!(rung.fresh_key(), None);
}

#[test]
fn first_supported_key_is_used() {
    let kp = key_pair();
    let key = target_key(&served_configs(&kp)).unwrap();
    assert_eq!(key, odoh_rs::compose(kp.public()).unwrap().to_vec());
    assert_eq!(
        target_key(&[0, 0]).unwrap_err().message(),
        "ODoH config parse failed: no supported ODoH config in response"
    );
    assert!(matches!(target_key(&[9]), Err(OdohError::ConfigParse(_))));
}

fn answer_for(kp: &odoh_rs::ObliviousDoHKeyPair, sealed: &[u8], dns: &[u8]) -> Vec<u8> {
    let mut buf = sealed;
    let query: odoh_rs::ObliviousDoHMessage = odoh_rs::parse(&mut buf).unwrap();
    let (plain, secret) = odoh_rs::decrypt_query(&query, kp).unwrap();
    let answer = odoh_rs::ObliviousDoHMessagePlaintext::new(dns, 0);
    let m = odoh_rs::encrypt_response(&plain, &answer, secret, [7u8; 16]).unwrap();
    odoh_rs::compose(&m).unwrap().to_vec()
}

#[test]
fn query_travels_sealed_and_its_answer_is_opened() {
    let kp = key_pair();
    let key = target_key(&served_configs(&kp)).unwrap();
    let p = prepare_query("example.com", 1, true, &key).unwrap();
    assert_eq!(p.plaintext.len() % 128, 0);
    assert_eq!(p.sealed.message[0], 1);

    let mut buf = p.sealed.message.as_slice();
    let query: odoh_rs::ObliviousDoHMessage = odoh_rs::parse(&mut buf).unwrap();
    let (plain, _) = odoh_rs::decrypt_query(&query, &kp).unwrap();
    assert_eq!(plain.into_msg().to_vec(), p.plaintext);

    let dns = query_with_id("example.com", 1, 5).unwrap();
    let response = answer_for(&kp, &p.sealed.message, &dns);
    let opened = open_answer(&p.plaintext, &response, &p.sealed.secret);
    assert_eq!(opened.unwrap(), dns);
}

#[test]
fn seal_depends_on_the_seed_alone() {
    let kp = key_pair();
    let key = odoh_rs::compose(kp.public()).unwrap().to_vec();
    let a = seal_query(b"query", &key, &vec![1u8; 32]).unwrap();
    let b = seal_query(b"query", &key, &vec![1u8; 32]).unwrap();
    let c = seal_query(b"query", &key, &vec![2u8; 32]).unwrap();
    assert_eq!(a.message, b.message);
    assert_eq!(a.secret, b.secret);
    assert_ne!(a.message, c.message);
    assert!(matches!(seal_query(b"query", b"no key", &vec![1u8; 32]), Err(OdohError::Encrypt(_))));
}

#[test]
fn foreign_answers_are_not_opened() {
    let kp = key_pair();
    let key = odoh_rs::compose(kp.public()).unwrap().to_vec();
    let p = prepare_query("example.com", 1, false, &key).unwrap();
    let r = open_answer(&p.plaintext, b"nonsense", &p.sealed.secret);
    assert!(matches!(r, Err(OdohError::Decrypt(_))));
    assert_eq!(query_end(&r), QueryEnd::NotOpened);

    let response = answer_for(&kp, &p.sealed.message, b"no message");
    let r = open_answer(&p.plaintext, &response, &p.sealed.secret);
    assert!(matches!(r, Err(OdohError::DnsParse(_))));
    assert_eq!(query_end(&r), QueryEnd::Failed);
}

#[test]
fn padding_is_optional() {
    let raw = query_with_id("example.com", 1, 5).unwrap();
    assert_eq!(query_plaintext(raw.clone(), false).unwrap(), raw);
    assert_eq!(query_plaintext(raw, true).unwrap().len(), 128);
    let e = query_plaintext(vec![1, 2], true).unwrap_err();
    assert!(e.message().starts_with("ODoH encrypt failed: EDNS padding error: padding build error: parse: "));
}

#[test]
fn one_retry_under_a_fresh_key() {
    assert_eq!(lookup_start(true), LookupStep::QueryCached);
    assert_eq!(lookup_start(false), LookupStep::FetchKey);
    assert_eq!(after_query(LookupStep::QueryCached, QueryEnd::NotOpened), LookupStep::FetchKey);
    assert_eq!(after_fetch(true), LookupStep::QueryFetched);
    assert_eq!(after_query(LookupStep::QueryFetched, QueryEnd::NotOpened), LookupStep::Done);
    assert_eq!(after_query(LookupStep::QueryCached, QueryEnd::Failed), LookupStep::Done);
    assert_eq!(after_fetch(false), LookupStep::Done);
}

#[test]
fn refusing_servers() {
    assert!(check_config_status(true, "200 OK").is_ok());
    assert_eq!(
        check_config_status(false, "404 Not Found").unwrap_err().message(),
        "ODoH config fetch failed: odohconfigs endpoint returned HTTP 404 Not Found"
    );
    assert!(check_query_status(true, "200 OK").is_ok());
    assert_eq!(
        check_query_status(false, "502 Bad Gateway").unwrap_err().message(),
        "ODoH transport error: ODoH server returned HTTP 502 Bad Gateway"
    );
}

#[test]
fn odoh_error_messages() {
    assert_eq!(OdohError::Decrypt("x".to_string()).message(), "ODoH decrypt failed: x");
    assert_eq!(OdohError::DnsParse("x".to_string()).message(), "ODoH DNS parse failed: x");
    assert_eq!(query_end(&Ok(vec![])), QueryEnd::Answered);
    assert!(matches!(accept_answer(Err("x".to_string())), Err(OdohError::Decrypt(_))));
}
