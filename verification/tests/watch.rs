//! Watching the machine's DNS settings.
use hushwarren::clock::unix_ms_now;
use hushwarren::net::{parse_ip, IpAddr, SocketAddr};
use hushwarren::platform::windows::NetAdapter;
use hushwarren::platform::{sinkhole_setting, DnsSetting, DnsSnapshot, ServiceDns};
use hushwarren::sentinel::watch::{
    begin_tick, classify_drift, clocks_show_sleep, detect_wake, dhcp_ips_from_snapshot,
    drift_polled, drift_probed, parse_vpn_interfaces, parse_vpn_interfaces_list,
    parse_vpn_interfaces_windows, portal_probed, probe_portal, rearmed, vpn_adapters, vpn_checked,
    DriftKind, DriftReaction, PolledService, PortalFetch, Rearm, TickStart, WatcherState,
    APPLE_SUCCESS_BODY,
};
use hushwarren::sentinel::{GuardState, StandbyReason};
use std::time::{Duration, Instant};

fn ip(s: &str) -> IpAddr {
    parse_ip(s).unwrap()
}

fn has(names: &Vec<String>, name: &str) -> bool {
    names.iter().any(|n| n == name)
}


fn make_snapshot_dhcp() -> DnsSnapshot {
    DnsSnapshot {
        v: 1,
        taken_unix_ms: 0,
        services: vec![ServiceDns {
            service: "Wi-Fi".to_owned(),
            setting: DnsSetting::Dhcp,
        }],
        linux_regime: None,
    }
}

#[test]
fn classify_drift_clean_when_pointing_at_self() {
    let current = DnsSetting::Static {
        servers: vec![ip("127.0.0.1")],
    };
    let snapped = DnsSetting::Dhcp;
    assert_eq!(classify_drift(&current, &snapped, false), DriftKind::Clean);
}

#[test]
fn classify_drift_dhcp_when_reverted() {
    let current = DnsSetting::Dhcp;
    let snapped = DnsSetting::Dhcp;
    assert_eq!(classify_drift(&current, &snapped, false), DriftKind::Dhcp);
}

#[test]
fn classify_drift_vpn_when_static_and_vpn_iface() {
    let current = DnsSetting::Static {
        servers: vec![ip("10.0.0.1")],
    };
    let snapped = DnsSetting::Dhcp;
    assert_eq!(
        classify_drift(&current, &snapped, true),
        DriftKind::VpnActive
    );
}

#[test]
fn classify_drift_user_set_when_static_no_vpn() {
    let current = DnsSetting::Static {
        servers: vec![ip("8.8.8.8")],
    };
    let snapped = DnsSetting::Dhcp;
    assert_eq!(
        classify_drift(&current, &snapped, false),
        DriftKind::UserSet
    );
}

#[test]
fn parse_vpn_interfaces_finds_utun() {
    let output = "lo0 en0 utun0 utun1 en1";
    let ifaces = parse_vpn_interfaces(output);
    assert!(has(&ifaces, "utun0"));
    assert!(has(&ifaces, "utun1"));
    assert!(!has(&ifaces, "en0"));
    assert!(!has(&ifaces, "lo0"));
}

#[test]
fn parse_vpn_interfaces_finds_ppp() {
    let output = "lo0 en0 ppp0";
    let ifaces = parse_vpn_interfaces(output);
    assert!(has(&ifaces, "ppp0"));
}

#[test]
fn parse_vpn_interfaces_finds_wg() {
    let output = "lo0 wg0 en0";
    let ifaces = parse_vpn_interfaces(output);
    assert!(has(&ifaces, "wg0"));
}

#[test]
fn parse_vpn_interfaces_empty_output() {
    let ifaces = parse_vpn_interfaces("");
    assert!(ifaces.is_empty());
}

#[test]
fn parse_vpn_interfaces_no_vpn() {
    let output = "lo0 en0 en1 bridge0";
    let ifaces = parse_vpn_interfaces(output);
    assert!(ifaces.is_empty());
}

#[test]
fn detect_wake_no_gap_is_not_wake() {
    // Monotonic elapsed ≈ wall elapsed → no wake.
    let prev_mono = Instant::now() - Duration::from_secs(5);
    // Wall advanced ~5 seconds too.
    let now_wall = unix_ms_now();
    let prev_wall = now_wall - 5_000;
    let threshold = Duration::from_secs(30);
    assert!(!detect_wake(prev_mono, prev_wall, threshold));
}

#[test]
fn detect_wake_large_gap_is_wake() {
    // Monotonic says 5s elapsed; wall says 3600s elapsed → wake.
    let prev_mono = Instant::now() - Duration::from_secs(5);
    let now_wall = unix_ms_now();
    // Pretend the wall clock was set 3600 seconds ago.
    let prev_wall = now_wall - 3_600_000;
    let threshold = Duration::from_secs(30);
    assert!(detect_wake(prev_mono, prev_wall, threshold));
}

#[test]
fn dhcp_ips_from_dhcp_snapshot_is_nonempty() {
    let snap = make_snapshot_dhcp();
    let ips = dhcp_ips_from_snapshot(&snap);
    assert!(!ips.is_empty());
}

#[test]
fn dhcp_ips_from_static_snapshot_is_empty() {
    let snap = DnsSnapshot {
        v: 1,
        taken_unix_ms: 0,
        services: vec![ServiceDns {
            service: "Wi-Fi".to_owned(),
            setting: DnsSetting::Static {
                servers: vec![ip("8.8.8.8")],
            },
        }],
        linux_regime: None,
    };
    let ips = dhcp_ips_from_snapshot(&snap);
    assert!(ips.is_empty());
}

/// WireGuard adapter detected by InterfaceDescription keyword.
const WIN_ADAPTER_WIREGUARD: &str = r#"[
    {
        "Name": "WireGuard Tunnel",
        "InterfaceGuid": "{GUID-WG}",
        "Status": "Up",
        "InterfaceDescription": "WireGuard Tunnel",
        "MacAddress": ""
    },
    {
        "Name": "Ethernet",
        "InterfaceGuid": "{GUID-ETH}",
        "Status": "Up",
        "InterfaceDescription": "Realtek PCIe GbE Family Controller",
        "MacAddress": "AA:BB:CC:DD:EE:FF"
    }
]"#;

/// Tailscale adapter detected by InterfaceDescription.
const WIN_ADAPTER_TAILSCALE: &str = r#"{
    "Name": "Tailscale",
    "InterfaceGuid": "{GUID-TS}",
    "Status": "Up",
    "InterfaceDescription": "Tailscale Virtual Machine Network",
    "MacAddress": ""
}"#;

/// wintun adapter detected by name prefix.
const WIN_ADAPTER_WINTUN_PREFIX: &str = r#"{
    "Name": "wintun0",
    "InterfaceGuid": "{GUID-WT}",
    "Status": "Up",
    "InterfaceDescription": "Generic tunnel adapter",
    "MacAddress": ""
}"#;

/// no VPN adapters — only a plain Ethernet.
const WIN_ADAPTER_NO_VPN: &str = r#"{
    "Name": "Ethernet",
    "InterfaceGuid": "{GUID-ETH}",
    "Status": "Up",
    "InterfaceDescription": "Realtek PCIe GbE Family Controller",
    "MacAddress": "AA:BB:CC:DD:EE:FF"
}"#;

/// disabled adapter — must be excluded even if VPN-looking.
const WIN_ADAPTER_DISABLED_VPN: &str = r#"{
    "Name": "WireGuard Tunnel",
    "InterfaceGuid": "{GUID-WG}",
    "Status": "Disconnected",
    "InterfaceDescription": "WireGuard Tunnel",
    "MacAddress": ""
}"#;

#[test]
fn windows_vpn_detects_wireguard_by_description() {
    let ifaces = parse_vpn_interfaces_windows(WIN_ADAPTER_WIREGUARD);
    assert!(
        has(&ifaces, "WireGuard Tunnel"),
        "WireGuard must be detected"
    );
    assert!(
        !has(&ifaces, "Ethernet"),
        "plain Ethernet must not match"
    );
}

#[test]
fn windows_vpn_detects_tailscale_by_description() {
    let ifaces = parse_vpn_interfaces_windows(WIN_ADAPTER_TAILSCALE);
    assert!(has(&ifaces, "Tailscale"), "Tailscale must be detected");
}

#[test]
fn windows_vpn_detects_wintun_by_name_prefix() {
    let ifaces = parse_vpn_interfaces_windows(WIN_ADAPTER_WINTUN_PREFIX);
    assert!(has(&ifaces, "wintun0"), "wintun prefix must match");
}

#[test]
fn windows_vpn_no_match_for_plain_ethernet() {
    let ifaces = parse_vpn_interfaces_windows(WIN_ADAPTER_NO_VPN);
    assert!(
        ifaces.is_empty(),
        "plain Ethernet must not trigger VPN detection"
    );
}

#[test]
fn windows_vpn_excludes_disabled_adapters() {
    let ifaces = parse_vpn_interfaces_windows(WIN_ADAPTER_DISABLED_VPN);
    assert!(ifaces.is_empty(), "disabled adapter must be excluded");
}

#[test]
fn windows_vpn_empty_json_returns_empty() {
    let ifaces = parse_vpn_interfaces_windows("");
    assert!(ifaces.is_empty());
}

#[test]
fn interface_lists() {
    let names = vec!["eth0".to_string(), "tun0".to_string(), "wg1".to_string()];
    assert_eq!(parse_vpn_interfaces_list(&names), vec!["tun0", "wg1"]);
}

#[test]
fn sleep_shows_in_the_clocks() {
    let threshold: u128 = 30_000_000_000;
    assert!(!clocks_show_sleep(5_000_000_000, 35_000, threshold));
    assert!(clocks_show_sleep(5_000_000_000, 35_001, threshold));
    assert!(!clocks_show_sleep(5_000_000_000, 0, threshold));
}

#[test]
fn gateway_is_asked_on_dhcp() {
    let ips: Vec<SocketAddr> = dhcp_ips_from_snapshot(&make_snapshot_dhcp());
    assert!(ips.iter().all(|a| a.port == 53));
}

#[test]
fn portals_change_the_page() {
    assert!(probe_portal(&PortalFetch::Skipped));
    assert!(probe_portal(&PortalFetch::Body(format!("{APPLE_SUCCESS_BODY}\n"))));
    assert!(!probe_portal(&PortalFetch::Body("<html>log in</html>".to_string())));
    assert!(!probe_portal(&PortalFetch::Redirected));
}

fn polled(name: &str, current: Option<DnsSetting>) -> PolledService {
    PolledService { service: name.to_string(), snapped: DnsSetting::Dhcp, current }
}

fn third_party() -> Option<DnsSetting> {
    Some(DnsSetting::Static { servers: vec![ip("8.8.8.8")] })
}

#[test]
fn user_is_warned_once() {
    let mut w = WatcherState::new();
    let services = vec![polled("Wi-Fi", third_party()), polled("Ethernet", Some(DnsSetting::Dhcp))];
    let r = drift_polled(&mut w, &services, false, false, 7);
    assert!(matches!(r, DriftReaction::StandBy { why: StandbyReason::UserDns, warn: true }));
    assert_eq!(w.last_tick_wall_ms, 7);
    let r = drift_polled(&mut w, &services, false, false, 8);
    assert!(matches!(r, DriftReaction::StandBy { why: StandbyReason::UserDns, warn: false }));
}

#[test]
fn vpn_is_not_fought() {
    let mut w = WatcherState::new();
    let services = vec![polled("Wi-Fi", third_party()), polled("Ethernet", Some(DnsSetting::Dhcp))];
    let r = drift_polled(&mut w, &services, true, true, 7);
    assert!(matches!(r, DriftReaction::StandBy { why: StandbyReason::VpnActive, warn: false }));
}

#[test]
fn dhcp_drift_is_repaired() {
    let mut w = WatcherState::new();
    let services = vec![
        polled("a", Some(DnsSetting::Dhcp)),
        polled("b", Some(sinkhole_setting())),
        polled("c", None),
        polled("d", Some(DnsSetting::Dhcp)),
    ];
    match drift_polled(&mut w, &services, false, false, 7) {
        DriftReaction::Repair { services, probe } => {
            assert_eq!(services, vec!["a", "d"]);
            assert!(probe);
        }
        other => panic!("expected a repair, got {other:?}"),
    }
    match drift_polled(&mut w, &vec![], false, false, 9) {
        DriftReaction::Repair { services, probe } => assert!(services.is_empty() && !probe),
        other => panic!("expected nothing to repair, got {other:?}"),
    }
    assert_eq!(w.last_tick_wall_ms, 9);
}

#[test]
fn portal_stands_by_until_clear() {
    let mut w = WatcherState::new();
    assert_eq!(
        drift_probed(&mut w, false, 100),
        Some(GuardState::StandingBy { why: StandbyReason::Portal })
    );
    assert_eq!(w.portal_start_ms, Some(100));
    let portal = GuardState::StandingBy { why: StandbyReason::Portal };
    assert_eq!(begin_tick(&portal, &mut w, 150, 50), TickStart::ProbePortal);
    assert_eq!(begin_tick(&portal, &mut w, 151, 50), TickStart::Over);
    assert_eq!(w.portal_start_ms, Some(151));
    assert_eq!(portal_probed(&mut w, false, 160), Rearm::No);
    assert_eq!(portal_probed(&mut w, true, 170), Rearm::Takeover);
    assert_eq!(w.portal_start_ms, None);
    assert_eq!(rearmed(&mut w, true, 180), Some(GuardState::Filtering));
    assert_eq!(rearmed(&mut w, false, 190), None);
    assert_eq!(drift_probed(&mut w, true, 200), None);
}

#[test]
fn ticks_by_state() {
    let mut w = WatcherState::new();
    assert_eq!(begin_tick(&GuardState::Filtering, &mut w, 5, 50), TickStart::PollDrift);
    let vpn = GuardState::StandingBy { why: StandbyReason::VpnActive };
    assert_eq!(begin_tick(&vpn, &mut w, 5, 50), TickStart::CheckVpn);
    assert_eq!(vpn_checked(&mut w, &vec!["utun0".to_string()], 6), Rearm::No);
    assert_eq!(vpn_checked(&mut w, &vec![], 7), Rearm::Takeover);
    let snoozed = GuardState::Snoozed { until_unix_ms: 9 };
    assert_eq!(begin_tick(&snoozed, &mut w, 8, 50), TickStart::Over);
    assert_eq!(w.last_tick_wall_ms, 8);
    assert_eq!(begin_tick(&snoozed, &mut w, 9, 50), TickStart::PollDrift);
}

#[test]
fn vpn_adapters_are_told_by_name_or_description() {
    let adapter = |name: &str, what: &str| NetAdapter {
        name: name.to_owned(),
        interface_guid: "{1}".to_owned(),
        status: "Up".to_owned(),
        interface_description: what.to_owned(),
    };
    let found = vpn_adapters(&vec![
        adapter("Ethernet", "Realtek"),
        adapter("WinTun-1", "x"),
        adapter("work", "OpenVPN Data Channel Offload"),
        adapter("work", "WireGuard Tunnel"),
    ]);
    assert_eq!(found, vec!["WinTun-1", "work"]);
    assert!(vpn_adapters(&vec![]).is_empty());
}
