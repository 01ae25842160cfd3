//! The commands of Windows.
use hushwarren::net::{parse_ip, IpAddr};
use hushwarren::platform::windows::{
    build_ifindex_query, build_set_dns_command, check_admin, decode_service_name, encode_service_name,
    interface_key, keep_up, parse_ifindex, parse_net_adapter_json, parse_reg_query_nameserver,
    parse_whoami_groups_for_admin, point_targets, powershell_outcome, reg_outcome, setting_target,
    snapshot_services, NetAdapter, TCPIP6_INTERFACES, TCPIP_INTERFACES,
};
use hushwarren::platform::{DnsSetting, PlatformError};

fn ip(s: &str) -> IpAddr {
    parse_ip(s).unwrap()
}



/// two adapters — normal multi-adapter JSON (array).
const ADAPTER_JSON_ARRAY: &str = r#"[
    {
        "Name": "Wi-Fi",
        "InterfaceGuid": "{4C4C4544-0000-1000-8000-000000000000}",
        "Status": "Up",
        "InterfaceDescription": "Intel(R) Wi-Fi 6 AX200",
        "MacAddress": "AA:BB:CC:DD:EE:FF"
    },
    {
        "Name": "Ethernet",
        "InterfaceGuid": "{4C4C4544-0000-1000-8000-000000000001}",
        "Status": "Up",
        "InterfaceDescription": "Realtek PCIe GbE Family Controller",
        "MacAddress": "00:11:22:33:44:55"
    }
]"#;

/// one adapter — PowerShell ConvertTo-Json emits an object, not array.
const ADAPTER_JSON_SINGLE_OBJECT: &str = r#"{
    "Name": "Wi-Fi",
    "InterfaceGuid": "{4C4C4544-0000-1000-8000-000000000000}",
    "Status": "Up",
    "InterfaceDescription": "Intel(R) Wi-Fi 6 AX200",
    "MacAddress": "AA:BB:CC:DD:EE:FF"
}"#;

/// adapter with Status "Disconnected" (disabled — must be filtered).
const ADAPTER_JSON_WITH_DISABLED: &str = r#"[
    {
        "Name": "Wi-Fi",
        "InterfaceGuid": "{4C4C4544-0000-1000-8000-000000000000}",
        "Status": "Up",
        "InterfaceDescription": "Intel(R) Wi-Fi 6 AX200",
        "MacAddress": "AA:BB:CC:DD:EE:FF"
    },
    {
        "Name": "Bluetooth Network Connection",
        "InterfaceGuid": "{4C4C4544-0000-1000-8000-000000000002}",
        "Status": "Disconnected",
        "InterfaceDescription": "Bluetooth Device (Personal Area Network)",
        "MacAddress": "AA:BB:CC:DD:EE:01"
    }
]"#;

/// adapter with a localised name (non-ASCII) — must parse cleanly.
const ADAPTER_JSON_LOCALIZED: &str = r#"{
    "Name": "イーサネット",
    "InterfaceGuid": "{4C4C4544-0000-1000-8000-000000000099}",
    "Status": "Up",
    "InterfaceDescription": "Realtek PCIe GbE Family Controller",
    "MacAddress": "AA:BB:CC:DD:EE:99"
}"#;

#[test]
fn parse_adapter_array_two_adapters() {
    let adapters = parse_net_adapter_json(ADAPTER_JSON_ARRAY);
    assert_eq!(adapters.len(), 2);
    assert_eq!(adapters[0].name, "Wi-Fi");
    assert_eq!(adapters[1].name, "Ethernet");
}

#[test]
fn parse_adapter_single_object_not_array() {
    // PowerShell single-adapter quirk: object, not array.
    let adapters = parse_net_adapter_json(ADAPTER_JSON_SINGLE_OBJECT);
    assert_eq!(adapters.len(), 1);
    assert_eq!(adapters[0].name, "Wi-Fi");
    assert_eq!(
        adapters[0].interface_guid,
        "{4C4C4544-0000-1000-8000-000000000000}"
    );
}

#[test]
fn parse_adapter_filters_disabled_adapters() {
    let adapters = parse_net_adapter_json(ADAPTER_JSON_WITH_DISABLED);
    // Only "Wi-Fi" (Status: "Up") should survive.
    assert_eq!(adapters.len(), 1);
    assert_eq!(adapters[0].name, "Wi-Fi");
}

#[test]
fn parse_adapter_localized_name_parses_cleanly() {
    let adapters = parse_net_adapter_json(ADAPTER_JSON_LOCALIZED);
    assert_eq!(adapters.len(), 1);
    assert_eq!(adapters[0].name, "イーサネット");
}

#[test]
fn parse_adapter_empty_json_returns_empty() {
    let adapters = parse_net_adapter_json("");
    assert!(adapters.is_empty());
}

#[test]
fn parse_adapter_invalid_json_returns_empty() {
    let adapters = parse_net_adapter_json("not json at all");
    assert!(adapters.is_empty());
}

const FIELDS: &str =
    r#""Name":"n","InterfaceGuid":"{g}","Status":"Up","InterfaceDescription":"d""#;

fn listed(json: &str) -> Vec<String> {
    parse_net_adapter_json(json).into_iter().map(|a| a.name).collect()
}

#[test]
fn every_key_of_an_adapter_stands_once() {
    assert_eq!(listed(&format!("{{{FIELDS}}}")), vec!["n"]);
    assert!(listed(&format!(r#"{{{FIELDS},"Name":"m"}}"#)).is_empty());
    assert!(listed(&format!(r#"{{{FIELDS},"Name":"n"}}"#)).is_empty());
    assert!(listed(&format!(r#"{{{FIELDS},"N\u0061me":"n"}}"#)).is_empty());
    assert!(listed(&format!(r#"[{{{FIELDS}}},{{{FIELDS},"Status":"Up"}}]"#)).is_empty());
    assert_eq!(listed(&format!(r#"{{"x":1,{FIELDS},"x":2,"name":3}}"#)), vec!["n"]);
    assert!(listed(r#"{"Name":"n","InterfaceGuid":"{g}","Status":"Up"}"#).is_empty());
    assert!(listed(&FIELDS.replace(r#""d""#, "null")).is_empty());
    assert!(listed(&format!("{{{}}}", FIELDS.replace(r#""d""#, "null"))).is_empty());
    assert!(listed("{}").is_empty());
}

#[test]
fn other_keys_hold_anything() {
    let deep = format!("{}{}", "[".repeat(300), "]".repeat(300));
    for value in ["1e999", "-0.5", r#""\ud800""#, "null", "true", &deep, r#"{"a":[1,{"b":"}"}]}"#] {
        assert_eq!(listed(&format!(r#"{{"x": {value} ,{FIELDS}}}"#)), vec!["n"], "{value}");
        assert_eq!(listed(&format!(r#"[{{{FIELDS},"x":{value}}}]"#)), vec!["n"], "{value}");
    }
    for value in ["", "01", "1.", "nul", "'a'", "[1,]", r#"{"a"}"#, r#""a"#, "1 2", "12a"] {
        assert!(listed(&format!(r#"{{"x":{value},{FIELDS}}}"#)).is_empty(), "{value}");
    }
}

#[test]
fn adapters_are_listed_by_position_too() {
    assert_eq!(listed(r#"[["n","{g}","Up","d"]]"#), vec!["n"]);
    assert_eq!(listed(&format!(r#" [ [ "m" , "g","up","d" ] , {{{FIELDS}}}, ["o","g","Down","d"]] "#)), vec!["m", "n"]);
    assert!(listed(r#"[["n","{g}","Up"]]"#).is_empty());
    assert!(listed(r#"[["n","{g}","Up","d","e"]]"#).is_empty());
    assert!(listed(r#"[["n","{g}","Up","d",]]"#).is_empty());
    assert!(listed(r#"[["n","{g}",1,"d"]]"#).is_empty());
    assert!(listed(r#"["n","{g}","Up","d"]"#).is_empty());
    assert!(listed("[]").is_empty());
}

#[test]
fn listings_end_where_they_should() {
    let one = format!("{{{FIELDS}}}");
    assert_eq!(listed(&format!("\r\n[\t{one}\n,\r{one} ]\u{a0}")), vec!["n", "n"]);
    for text in [
        format!("[{one},]"),
        format!("[,{one}]"),
        format!("[{one} {one}]"),
        format!("[{one}"),
        format!("[{one}]]"),
        format!("[{one}] x"),
        format!("{one}{one}"),
        format!("{{{FIELDS},}}"),
        format!("{{{FIELDS}"),
        format!("{{,{FIELDS}}}"),
        format!("{{{}}}", FIELDS.replacen(':', "=", 1)),
        format!("[{one}, 1]"),
        format!("[[{one}]]"),
    ] {
        assert!(listed(&text).is_empty(), "{text}");
    }
}


/// `reg query` output when NameServer is set to `127.0.0.1,::1`.
const REG_SINKHOLE: &str = r"
HKEY_LOCAL_MACHINE\SYSTEM\CurrentControlSet\Services\Tcpip\Parameters\Interfaces\{4C4C4544-0000-1000-8000-000000000000}
NameServer    REG_SZ    127.0.0.1,::1
";

/// `reg query` output with a comma-separated static list.
const REG_STATIC_TWO: &str = r"
HKEY_LOCAL_MACHINE\SYSTEM\CurrentControlSet\Services\Tcpip\Parameters\Interfaces\{GUID}
NameServer    REG_SZ    8.8.8.8,8.8.4.4
";

/// NameServer value is empty (DHCP).
const REG_EMPTY: &str = r"
HKEY_LOCAL_MACHINE\SYSTEM\...\{GUID}
NameServer    REG_SZ
";

/// the value does not exist at all (error line from reg.exe).
const REG_NOT_FOUND: &str =
    "ERROR: The system was unable to find the specified registry key or value.";

/// single IPv4 server.
const REG_SINGLE_IP: &str = r"
HKEY_LOCAL_MACHINE\...\{GUID}
NameServer    REG_SZ    1.1.1.1
";

#[test]
fn parse_reg_sinkhole_setting() {
    let result = parse_reg_query_nameserver(REG_SINKHOLE);
    match result {
        DnsSetting::Static { servers } => {
            assert!(servers.contains(&ip("127.0.0.1")));
            assert!(servers.contains(&ip("::1")));
        }
        other => panic!("expected Static, got {other:?}"),
    }
}

#[test]
fn parse_reg_static_two_servers() {
    let result = parse_reg_query_nameserver(REG_STATIC_TWO);
    match result {
        DnsSetting::Static { servers } => {
            assert_eq!(servers.len(), 2);
            assert!(servers.contains(&ip("8.8.8.8")));
            assert!(servers.contains(&ip("8.8.4.4")));
        }
        other => panic!("expected Static, got {other:?}"),
    }
}

#[test]
fn parse_reg_empty_value_returns_dhcp() {
    let result = parse_reg_query_nameserver(REG_EMPTY);
    assert_eq!(result, DnsSetting::Dhcp);
}

#[test]
fn parse_reg_not_found_returns_dhcp() {
    let result = parse_reg_query_nameserver(REG_NOT_FOUND);
    assert_eq!(result, DnsSetting::Dhcp);
}

#[test]
fn parse_reg_single_ip() {
    let result = parse_reg_query_nameserver(REG_SINGLE_IP);
    match result {
        DnsSetting::Static { servers } => {
            assert_eq!(servers.len(), 1);
            assert_eq!(servers[0], ip("1.1.1.1"));
        }
        other => panic!("expected Static, got {other:?}"),
    }
}

#[test]
fn parse_reg_empty_string_returns_dhcp() {
    let result = parse_reg_query_nameserver("");
    assert_eq!(result, DnsSetting::Dhcp);
}


#[test]
fn service_name_encode_decode_roundtrip() {
    let encoded = encode_service_name("Wi-Fi", "{4C4C4544-0000-1000-8000-000000000000}");
    assert_eq!(encoded, "{4C4C4544-0000-1000-8000-000000000000}|Wi-Fi");
    let (name, guid) = decode_service_name(&encoded).unwrap();
    assert_eq!(name, "Wi-Fi");
    assert_eq!(guid, "{4C4C4544-0000-1000-8000-000000000000}");
}

#[test]
fn service_name_no_separator_returns_none() {
    assert!(decode_service_name("no-separator-here").is_none());
}

/// The GUID stands before the first '|', so a friendly name may hold one.
#[test]
fn service_name_friendly_name_with_pipe_is_unambiguous() {
    let encoded = encode_service_name("Tap|Adapter", "{GUID-0}");
    assert_eq!(encoded, "{GUID-0}|Tap|Adapter");
    let (name, guid) = decode_service_name(&encoded).unwrap();
    assert_eq!(guid, "{GUID-0}");
    assert_eq!(name, "Tap|Adapter");
}

#[test]
fn service_name_simple_adapter() {
    let encoded = encode_service_name("Adapter", "{GUID}");
    let (name, guid) = decode_service_name(&encoded).unwrap();
    assert_eq!(name, "Adapter");
    assert_eq!(guid, "{GUID}");
}





#[test]
fn build_set_dns_command_dhcp_resets_servers() {
    // DHCP restore MUST use -ResetServerAddresses (not write an empty list)
    // so the stack is notified to fall back to DHCP.
    let cmd = build_set_dns_command(10, &DnsSetting::Dhcp);
    assert_eq!(
        cmd,
        "Set-DnsClientServerAddress -InterfaceIndex 10 -ResetServerAddresses"
    );
    // It must be the stack-notifying cmdlet, never a raw registry write.
    assert!(!cmd.contains("reg "));
    assert!(!cmd.contains("NameServer"));
}

#[test]
fn build_set_dns_command_sinkhole_sets_v4_and_v6() {
    let setting = DnsSetting::Static {
        servers: vec![
            ip("127.0.0.1"),
            ip("::1"),
        ],
    };
    let cmd = build_set_dns_command(7, &setting);
    assert_eq!(
        cmd,
        "Set-DnsClientServerAddress -InterfaceIndex 7 -ServerAddresses '127.0.0.1','::1'"
    );
}

#[test]
fn build_set_dns_command_static_quotes_each_server() {
    let setting = DnsSetting::Static {
        servers: vec![
            ip("8.8.8.8"),
            ip("8.8.4.4"),
        ],
    };
    let cmd = build_set_dns_command(3, &setting);
    assert_eq!(
        cmd,
        "Set-DnsClientServerAddress -InterfaceIndex 3 -ServerAddresses '8.8.8.8','8.8.4.4'"
    );
}

#[test]
fn build_ifindex_query_matches_guid_and_extracts_ifindex() {
    let guid = "{4C4C4544-0000-1000-8000-000000000000}";
    let q = build_ifindex_query(guid);
    // Locale-stable GUID match, hidden adapters included, single ifIndex out.
    assert!(q.contains("-IncludeHidden"));
    assert!(q.contains(&format!("$_.InterfaceGuid -eq '{guid}'")));
    assert!(q.contains("-ExpandProperty ifIndex"));
}


#[test]
fn admin_check_sid_present_returns_true() {
    let output = "GROUP INFORMATION\n\
        BUILTIN\\Administrators         Well-known group S-1-5-32-544 Enabled by default\n\
        NT AUTHORITY\\SYSTEM            Well-known group S-1-5-18      Enabled by default";
    assert!(parse_whoami_groups_for_admin(output));
}

#[test]
fn admin_check_sid_absent_returns_false() {
    // Standard user: Administrators group is listed but disabled.
    let output = "GROUP INFORMATION\n\
        NT AUTHORITY\\INTERACTIVE       Well-known group S-1-5-4 Enabled by default\n\
        NT AUTHORITY\\Authenticated Users S-1-5-11 Enabled by default";
    assert!(!parse_whoami_groups_for_admin(output));
}

#[test]
fn admin_check_empty_output_returns_false() {
    assert!(!parse_whoami_groups_for_admin(""));
}


#[test]
fn registry_key_constants_are_correct() {
    assert!(TCPIP_INTERFACES.contains("Tcpip\\Parameters\\Interfaces"));
    assert!(TCPIP6_INTERFACES.contains("Tcpip6\\Parameters\\Interfaces"));
}

#[test]
fn adapter_index_is_read_from_the_query() {
    assert_eq!(parse_ifindex("{G}", " 12\r\n").unwrap(), 12);
    assert_eq!(
        parse_ifindex("{G}", "a \"b\"\n").unwrap_err().message(),
        "networksetup error: could not resolve ifIndex for adapter GUID {G}: got \"a \\\"b\\\"\""
    );
}

#[test]
fn powershell_and_reg_failures() {
    assert_eq!(powershell_outcome(true, "exit code: 0", "out", "").unwrap(), "out");
    assert_eq!(
        powershell_outcome(false, "exit code: 1", "out", "err").unwrap_err().message(),
        "networksetup error: powershell exited exit code: 1: err"
    );
    let args = vec!["query".to_string(), "KEY".to_string()];
    assert_eq!(reg_outcome(&args, true, false, "exit code: 1", "out", "err").unwrap(), "out");
    assert_eq!(
        reg_outcome(&args, false, false, "exit code: 1", "out", "").unwrap_err().message(),
        "networksetup error: reg.exe query KEY exited exit code: 1: out"
    );
}

#[test]
fn interface_keys() {
    assert_eq!(interface_key("Tcpip", "{G}"), format!("{TCPIP_INTERFACES}\\{{G}}"));
    assert_eq!(interface_key("Tcpip6", "{G}"), format!("{TCPIP6_INTERFACES}\\{{G}}"));
}

#[test]
fn services_are_found_by_guid() {
    let names = vec!["{A}|Wi-Fi".to_string(), "loose".to_string(), "{B}|E|1".to_string()];
    assert_eq!(point_targets(&names), vec!["{A}", "{B}"]);
    assert_eq!(setting_target("{A}|Wi-Fi").unwrap(), "{A}");
    assert_eq!(
        setting_target("loose").unwrap_err().message(),
        "failed to parse networksetup output: cannot decode GUID from service name: \"loose\""
    );
}

#[test]
fn snapshot_names_adapters_by_guid() {
    let adapters = parse_net_adapter_json(ADAPTER_JSON_ARRAY);
    let settings = vec![DnsSetting::Dhcp, DnsSetting::Static { servers: vec![ip("8.8.8.8")] }];
    let services = snapshot_services(&adapters, &settings);
    assert_eq!(services[0].service, "{4C4C4544-0000-1000-8000-000000000000}|Wi-Fi");
    assert_eq!(services[1].setting, settings[1]);
}

#[test]
fn adapters_that_are_not_up_are_dropped() {
    let adapter = |name: &str, status: &str| NetAdapter {
        name: name.to_string(),
        interface_guid: "{G}".to_string(),
        status: status.to_string(),
        interface_description: String::new(),
    };
    let kept = keep_up(vec![adapter("a", "UP"), adapter("b", "Down"), adapter("c", "up")]);
    assert_eq!(kept.len(), 2);
    assert_eq!(kept[1].name, "c");
}

#[test]
fn session_tells_who_may_write() {
    assert!(check_admin(Some(true)).is_ok());
    assert!(check_admin(None).is_ok());
    assert!(matches!(check_admin(Some(false)), Err(PlatformError::NeedsRoot)));
}
