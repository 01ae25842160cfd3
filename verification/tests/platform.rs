//! Snapshots of the DNS settings, and the scripted platform.
use hushwarren::net::{parse_ip, IpAddr};
use hushwarren::platform::stub::{Fail, MockPlatform};
use hushwarren::platform::unsupported::UnsupportedDns;
use hushwarren::platform::{
    is_pointing_at_self, restore_outcome, sinkhole_setting, DnsSetting, DnsSnapshot, PlatformDns,
    PlatformError, ServiceDns,
};

fn ip(s: &str) -> IpAddr {
    parse_ip(s).unwrap()
}

fn service(name: &str, setting: DnsSetting) -> ServiceDns {
    ServiceDns { service: name.to_owned(), setting }
}

fn wifi_on_dhcp() -> MockPlatform {
    MockPlatform::new(vec![service("Wi-Fi", DnsSetting::Dhcp)])
}





#[test]
fn snapshot_schema_version_is_1() {
    let snap = DnsSnapshot::new(vec![]);
    assert_eq!(snap.v, 1);
}







#[test]
fn dhcp_is_not_self() {
    assert!(!is_pointing_at_self(&DnsSetting::Dhcp));
}

#[test]
fn static_loopback_v4_is_self() {
    let setting = DnsSetting::Static {
        servers: vec![ip("127.0.0.1")],
    };
    assert!(is_pointing_at_self(&setting));
}

#[test]
fn static_loopback_v6_is_self() {
    let setting = DnsSetting::Static {
        servers: vec![ip("::1")],
    };
    assert!(is_pointing_at_self(&setting));
}

#[test]
fn static_external_is_not_self() {
    let setting = DnsSetting::Static {
        servers: vec![ip("8.8.8.8")],
    };
    assert!(!is_pointing_at_self(&setting));
}

#[test]
fn all_pointing_at_self_mixed() {
    let snap = DnsSnapshot {
        v: 1,
        taken_unix_ms: 0,
        services: vec![
            ServiceDns {
                service: "Wi-Fi".to_owned(),
                setting: DnsSetting::Static {
                    servers: vec![ip("127.0.0.1")],
                },
            },
            ServiceDns {
                service: "Ethernet".to_owned(),
                setting: DnsSetting::Dhcp,
            },
        ],
        linux_regime: None,
    };
    assert!(!snap.all_pointing_at_self());
}

#[test]
fn all_pointing_at_self_all_loopback() {
    let snap = DnsSnapshot {
        v: 1,
        taken_unix_ms: 0,
        services: vec![ServiceDns {
            service: "Wi-Fi".to_owned(),
            setting: DnsSetting::Static {
                servers: vec![ip("127.0.0.1"), ip("::1")],
            },
        }],
        linux_regime: None,
    };
    assert!(snap.all_pointing_at_self());
}


#[test]
fn mock_snapshot_returns_initial_state() {
    let mut mock = wifi_on_dhcp();
    let snap = mock.snapshot().unwrap();
    assert_eq!(snap.services.len(), 1);
    assert_eq!(snap.services[0].service, "Wi-Fi");
    assert_eq!(snap.services[0].setting, DnsSetting::Dhcp);
}

#[test]
fn mock_point_at_self_updates_settings() {
    let mut mock = wifi_on_dhcp();
    mock.point_at_self(&vec!["Wi-Fi".to_owned()]).unwrap();
    let setting = mock.get_setting("Wi-Fi").unwrap();
    assert!(matches!(setting, DnsSetting::Static { .. }));
}

#[test]
fn mock_restore_restores_dhcp() {
    let mut mock = wifi_on_dhcp();
    mock.point_at_self(&vec!["Wi-Fi".to_owned()]).unwrap();
    let snap = DnsSnapshot {
        v: 1,
        taken_unix_ms: 0,
        services: vec![ServiceDns {
            service: "Wi-Fi".to_owned(),
            setting: DnsSetting::Dhcp,
        }],
        linux_regime: None,
    };
    mock.restore(&snap).unwrap();
    assert_eq!(mock.get_setting("Wi-Fi").unwrap(), DnsSetting::Dhcp);
}

#[test]
fn mock_inject_snapshot_failure() {
    let mut mock = wifi_on_dhcp();
    mock.inject_failure(Fail::OnSnapshot);
    assert!(mock.snapshot().is_err());
    // Failure cleared after one use; next call succeeds.
    assert!(mock.snapshot().is_ok());
}

#[test]
fn mock_records_calls() {
    let mut mock = wifi_on_dhcp();
    mock.snapshot().unwrap();
    mock.point_at_self(&vec!["Wi-Fi".to_owned()]).unwrap();
    let calls = mock.calls();
    assert_eq!(calls[0], "snapshot");
    assert!(calls[1].starts_with("point_at_self"));
}

#[test]
fn restoring_undoes_pointing() {
    let mut mock = MockPlatform::new(vec![
        service("Wi-Fi", DnsSetting::Dhcp),
        service("Ethernet", DnsSetting::Static { servers: vec![ip("8.8.8.8")] }),
    ]);
    let snap = mock.snapshot().unwrap();
    mock.point_at_self(&snap.service_names()).unwrap();
    assert!(mock.snapshot().unwrap().all_pointing_at_self());
    mock.restore(&snap).unwrap();
    assert_eq!(mock.snapshot().unwrap(), snap);
}

#[test]
fn injected_failures_come_once() {
    let mut mock = wifi_on_dhcp();
    mock.set_setting("Ethernet", DnsSetting::Dhcp);
    let both = vec!["Wi-Fi".to_owned(), "Ethernet".to_owned()];
    mock.inject_failure(Fail::OnPointAtSelf);
    assert_eq!(
        mock.point_at_self(&both).unwrap_err().message(),
        "networksetup error: injected point_at_self failure"
    );
    assert_eq!(mock.get_setting("Wi-Fi"), Some(DnsSetting::Dhcp));
    mock.inject_failure(Fail::OnPointAtSelfAfter(1));
    assert!(mock.point_at_self(&both).is_err());
    assert_eq!(mock.get_setting("Wi-Fi"), Some(sinkhole_setting()));
    assert_eq!(mock.get_setting("Ethernet"), Some(DnsSetting::Dhcp));
    assert!(mock.point_at_self(&both).is_ok());
    mock.inject_failure(Fail::OnRestore);
    assert!(mock.restore(&DnsSnapshot::new(vec![])).is_err());
    assert!(mock.restore(&DnsSnapshot::new(vec![])).is_ok());
    assert_eq!(mock.calls().last().unwrap(), "restore(0 services)");
    assert_eq!(mock.calls()[0], "point_at_self([\"Wi-Fi\", \"Ethernet\"])");
}

#[test]
fn unknown_service_of_the_scripted_platform() {
    let mut mock = wifi_on_dhcp();
    assert_eq!(mock.get_setting("Nope"), None);
    assert!(mock.current_setting("Nope").is_err());
    assert_eq!(mock.current_setting("Wi-Fi").unwrap(), DnsSetting::Dhcp);
}

#[test]
fn nothing_works_where_unsupported() {
    let mut p = UnsupportedDns;
    assert!(matches!(p.snapshot(), Err(PlatformError::Unsupported)));
    assert!(matches!(p.point_at_self(&vec![]), Err(PlatformError::Unsupported)));
    assert!(matches!(p.restore(&DnsSnapshot::new(vec![])), Err(PlatformError::Unsupported)));
    assert!(matches!(p.current_setting("Wi-Fi"), Err(PlatformError::Unsupported)));
}

#[test]
fn failures_of_a_restore_are_collected() {
    assert!(restore_outcome(&vec![]).is_ok());
    let failures = vec![
        ("Wi-Fi".to_owned(), PlatformError::NeedsRoot),
        ("Ethernet".to_owned(), PlatformError::ParseError("x".to_owned())),
    ];
    let e = restore_outcome(&failures).unwrap_err();
    assert!(matches!(e, PlatformError::PartialFailure(_)));
    assert_eq!(
        e.message(),
        "restore failed for some services: Wi-Fi: DNS write requires root privileges; please run as \
         root; Ethernet: failed to parse networksetup output: x"
    );
}
