//! The commands of macOS.
use hushwarren::net::{parse_ip, IpAddr};
use hushwarren::platform::macos::{
    check_root, networksetup_outcome, parse_getdnsservers, parse_list_all_network_services,
    restore_service,
};
use hushwarren::platform::{sinkhole_setting, DnsSetting};

fn ip(s: &str) -> IpAddr {
    parse_ip(s).unwrap()
}




/// Four enabled services.
const LIST_ALL_SERVICES_REAL: &str = "\
An asterisk (*) denotes that a network service is disabled.
USB 10/100/1000 LAN
Thunderbolt Bridge
Wi-Fi
iPhone USB";

/// output with a disabled service.
const LIST_ALL_SERVICES_WITH_DISABLED: &str = "\
An asterisk (*) denotes that a network service is disabled.
Wi-Fi
*Thunderbolt Bridge
Ethernet";

#[test]
fn parse_list_services_real_fixture() {
    let result = parse_list_all_network_services(LIST_ALL_SERVICES_REAL);
    assert_eq!(
        result,
        vec![
            "USB 10/100/1000 LAN",
            "Thunderbolt Bridge",
            "Wi-Fi",
            "iPhone USB",
        ]
    );
}

#[test]
fn parse_list_services_skips_disabled() {
    let result = parse_list_all_network_services(LIST_ALL_SERVICES_WITH_DISABLED);
    assert_eq!(result, vec!["Wi-Fi", "Ethernet"]);
    assert!(!result.contains(&"*Thunderbolt Bridge".to_owned()));
}

#[test]
fn parse_list_services_empty_input() {
    let result = parse_list_all_network_services("");
    assert!(result.is_empty());
}

#[test]
fn parse_list_services_all_disabled() {
    let input = "\
An asterisk (*) denotes that a network service is disabled.
*Wi-Fi
*Ethernet";
    let result = parse_list_all_network_services(input);
    assert!(result.is_empty());
}


/// DHCP on Wi-Fi.
const DNS_DHCP_WIFI: &str = "There aren't any DNS Servers set on Wi-Fi.";

/// DHCP on Thunderbolt Bridge.
const DNS_DHCP_BRIDGE: &str = "There aren't any DNS Servers set on Thunderbolt Bridge.";

/// static DNS with two entries.
const DNS_STATIC_TWO: &str = "8.8.8.8\n8.8.4.4\n";

/// static DNS with single entry.
const DNS_STATIC_ONE: &str = "1.1.1.1\n";

/// our own sinkhole setting.
const DNS_SINKHOLE: &str = "127.0.0.1\n::1\n";

#[test]
fn parse_dns_dhcp_wifi_fixture() {
    let result = parse_getdnsservers(DNS_DHCP_WIFI);
    assert_eq!(result, DnsSetting::Dhcp);
}

#[test]
fn parse_dns_dhcp_bridge_fixture() {
    let result = parse_getdnsservers(DNS_DHCP_BRIDGE);
    assert_eq!(result, DnsSetting::Dhcp);
}

#[test]
fn parse_dns_static_two_servers() {
    let result = parse_getdnsservers(DNS_STATIC_TWO);
    match result {
        DnsSetting::Static { servers } => {
            assert_eq!(servers.len(), 2);
            assert!(servers.contains(&ip("8.8.8.8")));
            assert!(servers.contains(&ip("8.8.4.4")));
        }
        other => panic!("expected Static, got {other:?}"),
    }
}

#[test]
fn parse_dns_static_one_server() {
    let result = parse_getdnsservers(DNS_STATIC_ONE);
    match result {
        DnsSetting::Static { servers } => {
            assert_eq!(servers.len(), 1);
            assert_eq!(servers[0], ip("1.1.1.1"));
        }
        other => panic!("expected Static, got {other:?}"),
    }
}

#[test]
fn parse_dns_sinkhole_setting() {
    let result = parse_getdnsservers(DNS_SINKHOLE);
    match result {
        DnsSetting::Static { servers } => {
            assert!(servers.contains(&ip("127.0.0.1")));
            assert!(servers.contains(&ip("::1")));
        }
        other => panic!("expected Static, got {other:?}"),
    }
}

#[test]
fn parse_dns_empty_output_returns_dhcp() {
    let result = parse_getdnsservers("");
    assert_eq!(result, DnsSetting::Dhcp);
}

#[test]
fn parse_dns_non_ip_lines_skipped() {
    // Simulate an error-ish output with garbage mixed in.
    let output = "Some error message\n8.8.8.8\n";
    let result = parse_getdnsservers(output);
    // Should skip the non-IP line and parse 8.8.8.8.
    match result {
        DnsSetting::Static { servers } => {
            assert_eq!(servers, vec![ip("8.8.8.8")]);
        }
        other => panic!("expected Static, got {other:?}"),
    }
}

#[test]
fn parse_dns_all_non_ip_lines_returns_dhcp() {
    let output = "Error: no such service\nCannot get DNS\n";
    let result = parse_getdnsservers(output);
    assert_eq!(result, DnsSetting::Dhcp);
}

#[test]
fn setting_arguments() {
    assert_eq!(restore_service("Wi-Fi", &DnsSetting::Dhcp), vec!["-setdnsservers", "Wi-Fi", "Empty"]);
    assert_eq!(
        restore_service("Wi-Fi", &sinkhole_setting()),
        vec!["-setdnsservers", "Wi-Fi", "127.0.0.1", "::1"]
    );
}

#[test]
fn failed_commands_show_what_they_wrote() {
    let args = vec!["-getdnsservers".to_string(), "Wi-Fi".to_string()];
    assert_eq!(networksetup_outcome(&args, true, "exit status: 0", "out", "err").unwrap(), "out");
    assert_eq!(
        networksetup_outcome(&args, false, "exit status: 1", "out", "err").unwrap_err().message(),
        "networksetup error: networksetup -getdnsservers Wi-Fi exited exit status: 1: err"
    );
    assert_eq!(
        networksetup_outcome(&args, false, "exit status: 1", "out", "").unwrap_err().message(),
        "networksetup error: networksetup -getdnsservers Wi-Fi exited exit status: 1: out"
    );
}

#[test]
fn only_root_may_write() {
    assert!(check_root(Some("0\n")).is_ok());
    assert!(check_root(None).is_ok());
    assert!(check_root(Some("501\n")).is_err());
    assert!(check_root(Some("root")).is_err());
}
