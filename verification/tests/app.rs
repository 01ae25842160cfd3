//! The start of the daemon.
use hushwarren::api::ApiStartError;
use hushwarren::app::{
    apply_breaker, check_config, failure_is_fatal, handler_plan, next_start_step,
    takeover_listener, App, AppConfig, RunningApp, StartError, StartStep,
};
use hushwarren::config::{
    ApiConfig, BlockAction, BlockConfig, DashboardConfig, HushConfig, InboundTlsConfig,
    ListenConfig, ListsConfig, NetworkGuardConfig, OdohUpstreamConfig, PrivacyConfig,
    QueryLogMode, RuntimeConfig, SentinelConfig, UpstreamConfig,
};
use hushwarren::dns::BoundAddrs;
use hushwarren::inbound_tls::InboundTlsError;
use hushwarren::net::{IpAddr, SocketAddr};
use hushwarren::sentinel::breaker::BreakerOutcome;
use hushwarren::sentinel::{GuardState, Sentinel};
use hushwarren::state_dir::StateDirError;

fn local(port: u16) -> SocketAddr {
    SocketAddr { ip: IpAddr::v4(127, 0, 0, 1), port }
}

fn config() -> HushConfig {
    HushConfig {
        listen: ListenConfig {
            udp: vec!["127.0.0.1:53".to_owned()],
            tcp: vec!["127.0.0.1:53".to_owned()],
        },
        upstream: UpstreamConfig {
            doh: vec!["cloudflare".to_owned()],
            do53_fallback: vec![],
            odoh: OdohUpstreamConfig {
                target: String::new(),
                relay: String::new(),
                bootstrap_ips: vec![],
            },
        },
        lists: ListsConfig {
            preset: "balanced".to_owned(),
            extra_categories: vec![],
            sources: vec![],
            refresh_hours: 24,
            jitter_minutes: 30,
            snapshot_dir: None,
        },
        block: BlockConfig { action: BlockAction::NullIp, ttl_secs: 10 },
        api: ApiConfig { listen: "127.0.0.1:0".to_owned() },
        runtime: RuntimeConfig { settings: String::new() },
        sentinel: SentinelConfig {
            canary_domain: "example.com".to_owned(),
            breaker_threshold: 3,
            breaker_window_secs: 300,
            poll_secs: 5,
            wake_gap_secs: 30,
            portal_timebox_secs: 300,
        },
        dashboard: DashboardConfig { enabled: true },
        privacy: PrivacyConfig {
            browser_doh_canary: true,
            cname_inspection: true,
            query_log: QueryLogMode::Full,
            retain_days: 7,
            block_doh_bypass: false,
            block_private_relay: false,
            odoh: false,
            doh_padding: false,
            rebind_protection: true,
            rebind_allow: vec![],
        },
        network_guard: NetworkGuardConfig {
            enabled: false,
            bind: vec![],
            log_clients: false,
            mdns_insight: false,
        },
        inbound_tls: InboundTlsConfig {
            enabled: false,
            bind: vec![],
            cert_path: String::new(),
            key_path: String::new(),
            doq: false,
        },
    }
}

/// A start with settings that have no problems.
fn start(config: HushConfig) -> App {
    App::start(AppConfig { config, state_dir_override: None }, &vec![]).unwrap()
}

/// Every step that a start takes, where no step fails.
fn steps(cfg: HushConfig) -> Vec<StartStep> {
    let mut app = start(cfg);
    let mut r = vec![app.step()];
    while app.step() != StartStep::Running {
        assert!(app.taken(true));
        r.push(app.step());
    }
    r
}

#[test]
fn start_takes_the_wanted_steps() {
    assert_eq!(
        steps(config()),
        vec![
            StartStep::StateDir,
            StartStep::Profile,
            StartStep::Breaker,
            StartStep::Rollup,
            StartStep::Upstream,
            StartStep::Lists,
            StartStep::DnsListeners,
            StartStep::Api,
            StartStep::Watcher,
            StartStep::Running,
        ]
    );
    let mut cfg = config();
    cfg.network_guard.enabled = true;
    cfg.network_guard.mdns_insight = true;
    cfg.inbound_tls.enabled = true;
    let all = steps(cfg);
    assert_eq!(all.len(), 13);
    assert_eq!(
        all[6..],
        [
            StartStep::DnsListeners,
            StartStep::Mdns,
            StartStep::InboundTls,
            StartStep::Api,
            StartStep::Watcher,
            StartStep::Guard,
            StartStep::Running,
        ]
    );
    assert_eq!(next_start_step(StartStep::Running, &config()), StartStep::Running);
}

#[test]
fn failed_steps() {
    let mut cfg = config();
    cfg.network_guard.enabled = true;
    let mut app = start(cfg);
    assert!(!app.taken(false));
    assert_eq!(app.step(), StartStep::StateDir);
    assert!(app.taken(true));
    assert!(app.taken(false));
    assert_eq!(app.step(), StartStep::Breaker);
    while app.step() != StartStep::Guard {
        assert!(app.taken(true));
    }
    assert!(app.taken(false));
    assert_eq!(app.step(), StartStep::Running);
}

#[test]
fn clients_are_logged_for_the_household_alone() {
    let mut cfg = config();
    cfg.block.ttl_secs = 11;
    cfg.network_guard.log_clients = true;
    assert!(!handler_plan(&cfg, false).log_clients);
    let plan = handler_plan(&cfg, true);
    assert!(plan.log_clients);
    assert_eq!(plan.block_action, BlockAction::NullIp);
    assert_eq!(plan.block_ttl_secs, 11);
    cfg.network_guard.log_clients = false;
    assert!(!handler_plan(&cfg, true).log_clients);
}

#[test]
fn bad_config_returns_error() {
    let mut config = config();
    config.listen.udp = vec!["not-a-socket".to_owned()];
    let problems = vec!["listen.udp: not-a-socket".to_owned()];
    let result = App::start(AppConfig { config, state_dir_override: None }, &problems);
    assert!(matches!(result, Err(StartError::Config(_))), "bad config must fail at start");
}

#[test]
fn problems_of_the_settings() {
    let problems = vec!["listen.udp is empty".to_owned(), "no upstream".to_owned()];
    let e = check_config(&problems).unwrap_err();
    assert!(matches!(e, StartError::Config(_)));
    assert_eq!(e.message(), "invalid configuration: listen.udp is empty; no upstream");
    assert!(check_config(&vec![]).is_ok());
}

#[test]
fn start_error_messages() {
    let e = StateDirError::Create { path: "/s".to_owned(), source: "denied".to_owned() };
    assert_eq!(
        StartError::StateDir(e).message(),
        "state directory error: failed to create state directory /s: denied"
    );
    assert_eq!(StartError::Bind("in use".to_owned()).message(), "DNS bind error: in use");
    assert_eq!(StartError::Upstream("x".to_owned()).message(), "upstream init error: x");
    assert_eq!(
        StartError::Api(ApiStartError::Bind("x".to_owned())).message(),
        "API start error: API listener bind error: x"
    );
    assert_eq!(
        StartError::InboundTls(InboundTlsError::Io("x".to_owned())).message(),
        "inbound TLS error: I/O error: x"
    );
}

#[test]
fn crash_loop_asks_for_attention() {
    let mut s = Sentinel::new();
    apply_breaker(&BreakerOutcome::Nominal, &mut s);
    assert_eq!(s.current_state(), GuardState::Filtering);
    apply_breaker(&BreakerOutcome::Fired { reason: "crash loop".to_owned() }, &mut s);
    assert_eq!(s.current_state(), GuardState::Attention { why: "crash loop".to_owned() });
}

#[test]
fn vital_steps() {
    assert!(failure_is_fatal(StartStep::DnsListeners));
    assert!(failure_is_fatal(StartStep::Api));
    assert!(!failure_is_fatal(StartStep::Guard));
    assert!(!failure_is_fatal(StartStep::Lists));
}

#[test]
fn addresses_of_a_running_daemon() {
    let app = RunningApp::new(
        BoundAddrs { udp: vec![local(53), local(54)], tcp: vec![local(55)] },
        local(80),
    );
    assert_eq!(app.udp_addr(), Some(local(53)));
    assert_eq!(app.udp_addrs().len(), 2);
    assert_eq!(app.tcp_addrs(), &vec![local(55)]);
    assert_eq!(app.api_addr(), local(80));
    assert_eq!(takeover_listener(app.udp_addrs(), app.api_addr()), local(53));
    assert_eq!(takeover_listener(&vec![], app.api_addr()), local(80));
}
