//! Encrypted queries from other devices.
use hushwarren::config::InboundTlsConfig;
use hushwarren::inbound_tls::{
    bind_inbound_tls, build_certified_key, cert_source, certificate_chain, certificate_outcome,
    certificate_request, generate_self_signed_cert, hostname_or_localhost, needs_regen,
    pem_to_der, san_fingerprint, signing_outcome, CertDer, CertMade, CertSource, InboundTlsError,
    CERT_COMMON_NAME, DOT_PORT,
};
use hushwarren::net::{IpAddr, SocketAddr};

fn config(bind: &[&str]) -> InboundTlsConfig {
    InboundTlsConfig {
        enabled: true,
        bind: bind.iter().map(|s| s.to_string()).collect(),
        cert_path: String::new(),
        key_path: String::new(),
        doq: false,
    }
}

#[test]
fn san_fingerprint_is_stable() {
    let ips = vec!["127.0.0.1".to_string(), "192.168.1.1".to_string()];
    let fp1 = san_fingerprint(&ips, "host");
    let fp2 = san_fingerprint(&ips, "host");
    assert_eq!(fp1, fp2, "fingerprint must be deterministic");
}

#[test]
fn san_fingerprint_changes_when_ips_change() {
    let fp1 = san_fingerprint(&vec!["127.0.0.1".to_string()], "host");
    let fp2 =
        san_fingerprint(&vec!["127.0.0.1".to_string(), "10.0.0.1".to_string()], "host");
    assert_ne!(fp1, fp2, "fingerprint must change when IPs change");
}

#[test]
fn fingerprint_is_sorted() {
    let ips = vec!["192.168.1.1".to_string(), "10.0.0.1".to_string()];
    assert_eq!(san_fingerprint(&ips, "host"), "10.0.0.1,192.168.1.1,host");
    let turned = vec!["10.0.0.1".to_string(), "192.168.1.1".to_string()];
    assert_eq!(san_fingerprint(&turned, "host"), san_fingerprint(&ips, "host"));
}

#[test]
fn self_signed_cert_generates_and_loads() {
    let pem = generate_self_signed_cert(&config(&["127.0.0.1"]), "host").unwrap();
    let der = pem_to_der(pem.cert.as_bytes(), pem.key.as_bytes()).unwrap();
    assert!(!der.certs.is_empty(), "cert chain must be non-empty");
    assert!(!der.key.is_empty(), "key must be non-empty");
    let holds = |b: &[u8]| der.certs[0].windows(b.len()).any(|w| w == b);
    assert!(holds(CERT_COMMON_NAME.as_bytes()));
    assert!(holds(&[0x87, 4, 127, 0, 0, 1]));
    assert!(holds(&[0x82, 4, b'h', b'o', b's', b't']));
}

#[test]
fn self_signed_cert_idempotent() {
    let ips = vec!["127.0.0.1".to_string()];
    let fp1 = san_fingerprint(&ips, "host");
    assert!(!needs_regen(true, true, Some(fp1.as_str()), &san_fingerprint(&ips, "host")));
    assert!(!needs_regen(true, true, Some("host\n"), "host"));
}

#[test]
fn self_signed_cert_regenerates_on_san_change() {
    let fp1 = san_fingerprint(&vec!["127.0.0.1".to_string()], "host");
    let fp2 =
        san_fingerprint(&vec!["127.0.0.1".to_string(), "10.0.0.1".to_string()], "host");
    assert!(needs_regen(true, true, Some(fp1.as_str()), &fp2));
    assert!(needs_regen(false, true, Some(fp1.as_str()), &fp1));
    assert!(needs_regen(true, false, Some(fp1.as_str()), &fp1));
    assert!(needs_regen(true, true, None, &fp1));
}

#[test]
fn hostname_or_localhost_non_empty() {
    let h = hostname_or_localhost(None);
    assert!(!h.is_empty());
    assert_eq!(h, "localhost");
    assert_eq!(hostname_or_localhost(Some(" box\n")), "box");
    assert_eq!(hostname_or_localhost(Some(" \n")), "localhost");
}

#[test]
fn certificate_is_asked_for_names_and_addresses() {
    let q = certificate_request(&config(&["::1", "box.local", "10.0.0.1"]), "box").unwrap();
    assert_eq!(q.host, "box");
    assert_eq!(q.ips, vec![IpAddr::V6(1), IpAddr::v4(10, 0, 0, 1)]);
    assert_eq!(q.organization, "hushwarren");
}

#[test]
fn host_names_have_to_be_ascii() {
    let e = generate_self_signed_cert(&config(&[]), "b\u{f6}x").unwrap_err();
    assert_eq!(
        e.message(),
        "certificate generation error: invalid hostname SAN: Invalid IA5String: 'b\u{f6}x'"
    );
}

#[test]
fn failed_certificates() {
    assert_eq!(
        certificate_outcome(CertMade::NoKey("x".to_string())).unwrap_err().message(),
        "certificate generation error: key generation error: x"
    );
    assert_eq!(
        certificate_outcome(CertMade::NotSigned("x".to_string())).unwrap_err().message(),
        "certificate generation error: certificate signing error: x"
    );
}

#[test]
fn unusable_pem() {
    assert_eq!(
        pem_to_der(b"", b"").unwrap_err().message(),
        "TLS configuration error: no certificate found in cert_path"
    );
    let pem = generate_self_signed_cert(&config(&[]), "host").unwrap();
    let e = pem_to_der(pem.cert.as_bytes(), b"no key").unwrap_err();
    assert!(e.message().starts_with("TLS configuration error: key PEM parse error: "));
    let e = certificate_chain(Err("x".to_string()), Ok(vec![])).unwrap_err();
    assert!(matches!(e, InboundTlsError::TlsConfig(m) if m == "cert PEM parse error: x"));
}

#[test]
fn two_certificates_are_both_found() {
    let a = generate_self_signed_cert(&config(&[]), "a").unwrap();
    let b = generate_self_signed_cert(&config(&[]), "b").unwrap();
    let both = format!("{}{}", a.cert, b.cert);
    let der = pem_to_der(both.as_bytes(), a.key.as_bytes()).unwrap();
    assert_eq!(der.certs.len(), 2);
    assert_ne!(der.certs[0], der.certs[1]);
}

#[test]
fn configured_certificate_is_used() {
    let mut cfg = config(&[]);
    assert_eq!(cert_source(&cfg), CertSource::SelfSigned);
    cfg.cert_path = "/c.pem".to_string();
    assert_eq!(cert_source(&cfg), CertSource::Configured);
}

#[test]
fn listeners_are_bound_per_address() {
    let mut cfg = config(&["127.0.0.1", "::1"]);
    cfg.doq = true;
    let bound = bind_inbound_tls(&cfg, DOT_PORT).unwrap();
    let want = vec![
        SocketAddr { ip: IpAddr::v4(127, 0, 0, 1), port: 853 },
        SocketAddr { ip: IpAddr::V6(1), port: 853 },
    ];
    assert_eq!(bound.dot_addrs, want);
    assert_eq!(bound.doq_addrs, want);
    cfg.doq = false;
    assert!(bind_inbound_tls(&cfg, DOT_PORT).unwrap().doq_addrs.is_empty());
    assert!(bind_inbound_tls(&config(&["nonsense"]), DOT_PORT).is_err());
}

#[test]
fn generated_key_can_sign() {
    let pem = generate_self_signed_cert(&config(&["127.0.0.1"]), "localhost").unwrap();
    let der = pem_to_der(pem.cert.as_bytes(), pem.key.as_bytes()).unwrap();
    let first = der.certs[0].clone();
    let key = build_certified_key(der).unwrap();
    assert_eq!(key.cert.len(), 1);
    assert_eq!(key.cert[0].as_ref(), first.as_slice());
    assert!(key.keys_match().is_ok());
}

#[test]
fn unusable_keys() {
    let message = |key: &[u8]| {
        let der = CertDer { certs: vec![vec![1]], key: key.to_vec() };
        build_certified_key(der).unwrap_err().message()
    };
    let invalid =
        "TLS configuration error: invalid private key DER: unknown or invalid key format";
    assert_eq!(message(&[]), invalid);
    assert_eq!(message(&[0x30]), invalid);
    assert_eq!(message(&[0x31, 3, 2, 1, 0]), invalid);
    assert_eq!(message(&[0x30, 0x84, 2, 1, 0]), invalid);
    assert_eq!(message(&[0x30, 3, 2, 1, 2]), invalid);
    let unsupported = "TLS configuration error: unsupported key type: unexpected error: \
                       failed to parse private key as RSA, ECDSA, or EdDSA";
    assert_eq!(message(&[0x30, 3, 2, 1, 0]), unsupported);
    assert_eq!(message(&[0x30, 3, 2, 1, 1]), unsupported);
    assert_eq!(message(&[0x30, 0x81, 4, 2, 1, 0]), unsupported);
    assert_eq!(message(&[0x30, 4, 2, 1, 7, 0x30]), unsupported);
    let e = signing_outcome(Err("no".to_owned())).unwrap_err();
    assert_eq!(e.message(), "TLS configuration error: unsupported key type: no");
}
