//! Profiles and reloading.
use hushwarren::api::routes::{
    handle_config_reload, handle_profile_show, handle_profiles_list, nothing_to_reload,
    reload_target, requested_profile,
};
use hushwarren::api::types::ConfigReloadReq;
use hushwarren::config::{
    apply_env_overrides, load_config, query_log_mode_to_str, ApiConfig, BlockAction, BlockConfig,
    ConfigChoice, ConfigRead, DashboardConfig, HushConfig, InboundTlsConfig, ListenConfig,
    ListsConfig, NetworkGuardConfig, OdohUpstreamConfig, PrivacyConfig, QueryLogMode,
    RuntimeConfig, SentinelConfig, UpstreamConfig,
};
use hushwarren::profiles::{
    classify_reload, list_profiles, load_active_profile_at_startup, load_active_profile_name,
    load_profile, profile_path, read_profile_content, validate_profile_name, FileRead,
    ProfileError,
};

fn config() -> HushConfig {
    HushConfig {
        listen: ListenConfig {
            udp: vec!["127.0.0.1:53".to_owned()],
            tcp: vec!["127.0.0.1:53".to_owned()],
        },
        upstream: UpstreamConfig {
            doh: vec!["cloudflare".to_owned()],
            do53_fallback: vec![],
            odoh: OdohUpstreamConfig {
                target: String::new(),
                relay: String::new(),
                bootstrap_ips: vec![],
            },
        },
        lists: ListsConfig {
            preset: "balanced".to_owned(),
            extra_categories: vec![],
            sources: vec![],
            refresh_hours: 24,
            jitter_minutes: 30,
            snapshot_dir: None,
        },
        block: BlockConfig { action: BlockAction::NullIp, ttl_secs: 10 },
        api: ApiConfig { listen: "127.0.0.1:0".to_owned() },
        runtime: RuntimeConfig { settings: String::new() },
        sentinel: SentinelConfig {
            canary_domain: "example.com".to_owned(),
            breaker_threshold: 3,
            breaker_window_secs: 300,
            poll_secs: 5,
            wake_gap_secs: 30,
            portal_timebox_secs: 300,
        },
        dashboard: DashboardConfig { enabled: true },
        privacy: PrivacyConfig {
            browser_doh_canary: true,
            cname_inspection: true,
            query_log: QueryLogMode::Full,
            retain_days: 7,
            block_doh_bypass: false,
            block_private_relay: false,
            odoh: false,
            doh_padding: false,
            rebind_protection: true,
            rebind_allow: vec![],
        },
        network_guard: NetworkGuardConfig {
            enabled: false,
            bind: vec![],
            log_clients: false,
            mdns_insight: false,
        },
        inbound_tls: InboundTlsConfig {
            enabled: false,
            bind: vec![],
            cert_path: String::new(),
            key_path: String::new(),
            doq: false,
        },
    }
}

fn names(v: &[&str]) -> Vec<String> {
    v.iter().map(|s| s.to_string()).collect()
}

#[test]
fn list_profiles_empty_when_no_dir() {
    assert!(list_profiles(&vec![]).is_empty());
}

#[test]
fn list_profiles_returns_sorted_names() {
    let files = names(&["work.toml", "home.toml", "strict.toml", "notes.txt"]);
    assert_eq!(list_profiles(&files), vec!["home", "strict", "work"]);
}

#[test]
fn load_profile_not_found_returns_error() {
    let r = read_profile_content("missing", FileRead::Missing);
    assert!(matches!(r, Err(ProfileError::NotFound(_))));
}

#[test]
fn load_profile_roundtrip() {
    let loaded = load_profile("default-rt", Ok(config()), &vec![]).unwrap();
    assert!(loaded.listen.same(&config().listen));
}

#[test]
fn active_profile_roundtrip() {
    assert!(load_active_profile_name(FileRead::Missing).is_none());
    assert_eq!(
        load_active_profile_name(FileRead::Content("work".to_owned())).as_deref(),
        Some("work")
    );
    assert_eq!(
        load_active_profile_name(FileRead::Content(" work\n".to_owned())).as_deref(),
        Some("work")
    );
    assert!(load_active_profile_name(FileRead::Content("  \n".to_owned())).is_none());
}

#[test]
fn classify_reload_no_changes_empty_result() {
    let result = classify_reload(&config(), &config());
    assert!(result.applied.is_empty());
    assert!(result.requires_restart.is_empty());
}

#[test]
fn classify_reload_lists_change_goes_to_applied() {
    let mut new = config();
    new.lists.preset = "strict".to_owned();
    let result = classify_reload(&config(), &new);
    assert!(result.applied.contains(&"lists".to_owned()));
    assert!(!result.requires_restart.contains(&"lists".to_owned()));
}

#[test]
fn classify_reload_listen_change_goes_to_requires_restart() {
    let mut new = config();
    new.listen.udp = vec!["0.0.0.0:5353".to_owned()];
    let result = classify_reload(&config(), &new);
    assert!(result.requires_restart.contains(&"listen".to_owned()));
    assert!(!result.applied.contains(&"listen".to_owned()));
}

#[test]
fn classify_reload_inbound_tls_change_goes_to_requires_restart() {
    let mut new = config();
    new.inbound_tls.enabled = true;
    let result = classify_reload(&config(), &new);
    assert!(result.requires_restart.contains(&"inbound_tls".to_owned()));
}

#[test]
fn every_section_is_reported() {
    let mut new = config();
    new.privacy.rebind_allow = vec!["home.arpa".to_owned()];
    new.upstream.doh = vec!["quad9".to_owned()];
    new.block.ttl_secs = 11;
    new.api.listen = "127.0.0.1:1".to_owned();
    new.runtime.settings = "workers".to_owned();
    new.sentinel.poll_secs = 6;
    new.dashboard.enabled = false;
    new.network_guard.enabled = true;
    let result = classify_reload(&config(), &new);
    assert_eq!(result.applied, vec!["privacy", "upstream"]);
    let mut restart = result.requires_restart;
    restart.sort();
    assert_eq!(
        restart,
        vec!["api", "block", "dashboard", "network_guard", "runtime", "sentinel"]
    );
}

#[test]
fn changed_target_of_oblivious_lookups_is_a_changed_upstream() {
    let mut new = config();
    new.upstream.odoh.target = "https://odoh.example".to_owned();
    let result = classify_reload(&config(), &new);
    assert_eq!(result.applied, vec!["upstream"]);
    assert!(result.requires_restart.is_empty());
}

#[test]
fn profile_names() {
    assert!(validate_profile_name("Work-1_b").is_ok());
    assert!(validate_profile_name(&"a".repeat(64)).is_ok());
    assert!(validate_profile_name(&"a".repeat(65)).is_err());
    for bad in ["", "..", "a/b", "a b", "\u{e9}"] {
        assert!(validate_profile_name(bad).is_err(), "{bad}");
    }
    assert_eq!(
        validate_profile_name("a/b").unwrap_err().message(),
        "invalid profile name 'a/b' (must match [A-Za-z0-9_-]{1,64})"
    );
    assert_eq!(profile_path("/state", "work").unwrap(), "/state/profiles/work.toml");
    assert!(matches!(profile_path("/state", "../x"), Err(ProfileError::InvalidName(_))));
    assert!(matches!(
        load_profile("../x", Ok(config()), &vec![]),
        Err(ProfileError::InvalidName(_))
    ));
}

#[test]
fn profile_errors() {
    assert_eq!(
        read_profile_content("w", FileRead::Missing).unwrap_err().message(),
        "profile not found: w"
    );
    assert_eq!(
        read_profile_content("w", FileRead::Failed("denied".to_owned())).unwrap_err().message(),
        "I/O error: denied"
    );
    assert_eq!(
        read_profile_content("a/b", FileRead::Missing).unwrap_err().message(),
        "invalid profile name 'a/b' (must match [A-Za-z0-9_-]{1,64})"
    );
    assert_eq!(
        load_profile("w", Err("bad key".to_owned()), &vec![]).unwrap_err().message(),
        "TOML parse error in profile w: bad key"
    );
    assert_eq!(
        load_profile("w", Ok(config()), &names(&["one", "two"])).unwrap_err().message(),
        "profile w validation error: one; two"
    );
}

#[test]
fn profile_at_startup() {
    let mut work = config();
    work.block.ttl_secs = 77;
    let (c, active) = load_active_profile_at_startup(config(), Some(("work".to_owned(), Ok(work))));
    assert_eq!(c.block.ttl_secs, 77);
    assert_eq!(active.as_deref(), Some("work"));
    let gone = Err(ProfileError::NotFound("work".to_owned()));
    let (c, active) = load_active_profile_at_startup(config(), Some(("work".to_owned(), gone)));
    assert_eq!(c.block.ttl_secs, 10);
    assert_eq!(active, None);
    let (_, active) = load_active_profile_at_startup(config(), None);
    assert_eq!(active, None);
}

const TOKEN: &str = "0123456789abcdef0123456789abcdef0123456789abcdef0123456789abcdef";

const HEADER: Option<&str> =
    Some("Bearer 0123456789abcdef0123456789abcdef0123456789abcdef0123456789abcdef");

fn reload(profile: Option<&str>) -> Result<ConfigReloadReq, String> {
    Ok(ConfigReloadReq { profile: profile.map(|s| s.to_owned()) })
}

#[test]
fn what_is_reloaded() {
    let active = Some("home".to_owned());
    let named = reload_target(HEADER, TOKEN, reload(Some("work")), &active).unwrap();
    assert_eq!(named.as_deref(), Some("work"));
    let usual = reload_target(HEADER, TOKEN, reload(None), &active).unwrap();
    assert_eq!(usual.as_deref(), Some("home"));
    assert!(reload_target(HEADER, TOKEN, reload(None), &None).unwrap().is_none());
    assert!(nothing_to_reload().applied.is_empty());

    assert_eq!(reload_target(None, TOKEN, reload(None), &active).unwrap_err().status, 401);
    let e = reload_target(HEADER, TOKEN, Err("eof".to_owned()), &active).unwrap_err();
    assert_eq!((e.status, e.body.error.as_str()), (400, "invalid_body"));
    let e = reload_target(HEADER, TOKEN, reload(Some("../x")), &active).unwrap_err();
    assert_eq!((e.status, e.body.error.as_str()), (400, "invalid_profile_name"));
}

fn changed() -> HushConfig {
    let mut new = config();
    new.lists.preset = "strict".to_owned();
    new.block.ttl_secs = 77;
    new
}

#[test]
fn reloading_twice_applies_once() {
    let mut current = config();
    let mut active = None;
    let r = handle_config_reload("work", Ok(changed()), &mut current, &mut active).unwrap();
    assert_eq!(r.body.applied, vec!["lists"]);
    assert_eq!(r.body.requires_restart, vec!["block"]);
    assert!(r.lists && !r.privacy);
    assert_eq!(current.lists.preset, "strict");
    assert_eq!(current.block.ttl_secs, 10);
    assert_eq!(active.as_deref(), Some("work"));
    let r = handle_config_reload("work", Ok(changed()), &mut current, &mut active).unwrap();
    assert!(r.body.applied.is_empty());
    assert_eq!(r.body.requires_restart, vec!["block"]);
}

#[test]
fn failed_reload_changes_nothing() {
    let mut current = config();
    let mut active = Some("home".to_owned());
    let e = handle_config_reload(
        "work",
        Err(ProfileError::NotFound("work".to_owned())),
        &mut current,
        &mut active,
    )
    .unwrap_err();
    assert_eq!(e.status, 404);
    assert_eq!(e.body.detail.as_deref(), Some("profile 'work' not found"));
    let e = handle_config_reload(
        "work",
        Err(ProfileError::Io("denied".to_owned())),
        &mut current,
        &mut active,
    )
    .unwrap_err();
    assert_eq!((e.status, e.body.error.as_str()), (422, "profile_invalid"));
    assert_eq!(active.as_deref(), Some("home"));
}

#[test]
fn profiles_are_listed_and_shown() {
    let list = handle_profiles_list(&names(&["home", "work"]), &Some("work".to_owned()));
    assert!(!list.profiles[0].active && list.profiles[1].active);
    assert_eq!(list.active.as_deref(), Some("work"));
    let shown = handle_profile_show("work", Ok("a = 1".to_owned())).unwrap();
    assert_eq!((shown.name.as_str(), shown.content.as_str()), ("work", "a = 1"));
    let e = handle_profile_show("work", Err(ProfileError::Io("denied".to_owned()))).unwrap_err();
    assert_eq!((e.status, e.body.error.as_str()), (500, "internal_error"));
    assert!(requested_profile(HEADER, TOKEN, "work").is_ok());
    assert_eq!(requested_profile(HEADER, TOKEN, "a/b").unwrap_err().status, 400);
    assert_eq!(requested_profile(HEADER, "other", "work").unwrap_err().status, 401);
}

#[test]
fn configuration_file_is_chosen() {
    assert!(matches!(load_config(None, None), ConfigChoice::UseDefault));
    let c = load_config(None, Some(ConfigRead::Loaded(changed())));
    assert!(matches!(c, ConfigChoice::Use(c) if c.block.ttl_secs == 77));
    let c = load_config(
        Some(("/etc/h.toml", ConfigRead::Loaded(config()))),
        Some(ConfigRead::Loaded(changed())),
    );
    assert!(matches!(c, ConfigChoice::Use(c) if c.block.ttl_secs == 10));
    let c = load_config(Some(("/etc/h.toml", ConfigRead::Unreadable("gone".to_owned()))), None);
    assert!(matches!(c, ConfigChoice::Refuse(_)));
    assert_eq!(apply_env_overrides(Some("a".to_owned()), Some("b")).as_deref(), Some("a"));
    assert_eq!(apply_env_overrides(None, Some("b")).as_deref(), Some("b"));
    assert_eq!(apply_env_overrides(None, Some(" ")), None);
    assert_eq!(apply_env_overrides(None, None), None);
}

#[test]
fn names_of_log_modes() {
    assert_eq!(query_log_mode_to_str(QueryLogMode::Full), "full");
    assert_eq!(query_log_mode_to_str(QueryLogMode::Anonymous), "anonymous");
    assert_eq!(query_log_mode_to_str(QueryLogMode::Off), "off");
}
