//! The control API.
use hushwarren::api::auth::TokenError;
use hushwarren::api::endpoints::{let_in, Endpoint, Method};
use hushwarren::api::routes::{
    allowlist_add, allowlist_lines, allowlist_remove, asks_database, clients_off, clients_params,
    handle_allow, handle_allowlist, handle_clients, handle_dashboard, handle_lists,
    handle_lists_refresh, handle_not_found, handle_queries_recent, handle_restore, handle_resume,
    handle_snooze, handle_stats_history, handle_stats_top, handle_status, handle_takeover,
    handle_unallow, history_params, load_allowlist, persist_allowlist, recent_params, requested_domain,
    require_auth, top_params, CatalogEntry, RestoreEnd,
};
use hushwarren::api::types::{
    ClientsParams, DomainReq, HistoryParams, RecentQueryParams, RulesStatus, SnoozeReq, TopParams,
};
use hushwarren::api::{check_listen_addr, write_addr_file, ApiStart, ApiStartError, ApiStep};
use hushwarren::config::{PrivacyConfig, QueryLogMode};
use hushwarren::lists::{ListsStatus, SourceStatus};
use hushwarren::mdns::MdnsMap;
use hushwarren::metrics::Metrics;
use hushwarren::net::{parse_ip, IpAddr, SocketAddr};
use hushwarren::querylog::{QueryRecord, Reason, Verdict};
use hushwarren::rollup::{ClientEntry, HistoryBucket, TopEntry};
use hushwarren::sentinel::{GuardState, Sentinel};

const TOKEN: &str = "0123456789abcdef0123456789abcdef0123456789abcdef0123456789abcdef";

const HEADER: Option<&str> =
    Some("Bearer 0123456789abcdef0123456789abcdef0123456789abcdef0123456789abcdef");

fn texts(v: &[&str]) -> Vec<String> {
    v.iter().map(|s| s.to_string()).collect()
}

fn addr(ip: &str, port: u16) -> SocketAddr {
    SocketAddr { ip: parse_ip(ip).unwrap(), port }
}

/// Takes every text for a domain that holds no exclamation mark.
fn parsed(content: &str) -> Vec<String> {
    let lines = allowlist_lines(content);
    load_allowlist(lines.into_iter().map(|l| if l.contains('!') { None } else { Some(l) }).collect())
}

#[test]
fn write_addr_file_roundtrip() {
    assert_eq!(write_addr_file(addr("127.0.0.1", 9999)), "127.0.0.1:9999");
}

#[test]
fn write_addr_file_port_zero_records_actual_port() {
    let content = write_addr_file(addr("127.0.0.1", 12345));
    assert_eq!(content, "127.0.0.1:12345");
    assert_eq!(write_addr_file(addr("::1", 80)), "[::1]:80");
}

#[test]
fn load_allowlist_missing_file_returns_empty() {
    assert!(load_allowlist(vec![]).is_empty());
}

#[test]
fn load_allowlist_reads_domains() {
    assert_eq!(parsed("example.com\ngood.org\n"), vec!["example.com", "good.org"]);
}

#[test]
fn load_allowlist_skips_invalid_lines() {
    assert_eq!(parsed("example.com\n!!invalid!!\ngood.org\n"), vec!["example.com", "good.org"]);
}

#[test]
fn load_allowlist_skips_blank_lines() {
    assert_eq!(parsed("\nexample.com\n\ngood.org\n\n"), vec!["example.com", "good.org"]);
}

#[test]
fn allowlist_add_deduplicates() {
    let mut list = texts(&["example.com"]);
    allowlist_add(&mut list, "example.com");
    assert_eq!(list.len(), 1, "duplicate must not be added");
}

#[test]
fn allowlist_remove_exact_only() {
    let mut list = texts(&["example.com", "sub.example.com", "other.com"]);
    allowlist_remove(&mut list, "example.com");
    assert_eq!(list.len(), 2);
    assert!(!list.contains(&"example.com".to_owned()));
    assert!(list.contains(&"sub.example.com".to_owned()));
}

#[test]
fn allowlist_remove_noop_when_absent() {
    let mut list = texts(&["example.com"]);
    allowlist_remove(&mut list, "nonexistent.com");
    assert_eq!(list.len(), 1, "removing absent domain must be a no-op");
}

#[test]
fn numbers_in_requests() {
    assert_eq!(recent_params(&RecentQueryParams { n: None, blocked_only: Some(true) }), (100, true));
    assert_eq!(history_params(&HistoryParams { hours: None, bucket: None }), (24, 3600));
    assert_eq!(history_params(&HistoryParams { hours: Some(9999), bucket: Some(1) }), (8760, 60));
    assert_eq!(top_params(&TopParams { n: None, hours: None }), (20, 168));
    assert_eq!(top_params(&TopParams { n: Some(500), hours: Some(0) }), (100, 1));
    assert_eq!(clients_params(&ClientsParams { hours: None }), 24);
}

#[test]
fn requests_need_the_token() {
    assert!(require_auth(HEADER, TOKEN).is_ok());
    let e = require_auth(Some("Bearer wrong!"), TOKEN).unwrap_err();
    assert_eq!((e.status, e.body.error.as_str(), e.body.detail), (401, "unauthorized", None));
    let e = handle_not_found();
    assert_eq!((e.status, e.body.error.as_str()), (404, "not_found"));
    assert!(handle_dashboard(true).is_ok());
    assert_eq!(handle_dashboard(false).unwrap_err().status, 404);
}

fn privacy() -> PrivacyConfig {
    PrivacyConfig {
        browser_doh_canary: true,
        cname_inspection: false,
        query_log: QueryLogMode::Anonymous,
        retain_days: 7,
        block_doh_bypass: false,
        block_private_relay: true,
        odoh: false,
        doh_padding: false,
        rebind_protection: true,
        rebind_allow: vec![],
    }
}

fn rules() -> RulesStatus {
    RulesStatus { block_count: 3, allow_count: 1, built_unix_ms: 9, sources: texts(&["a"]) }
}

#[test]
fn status_is_told() {
    let mut s = Sentinel::new();
    s.snooze_from(1000, 2000);
    let mut m = Metrics::new();
    m.inc_queries();
    m.inc_blocked();
    let profile = Some("work".to_owned());
    let b = handle_status(HEADER, TOKEN, &mut s, 2999, rules(), &m, 5, &privacy(), profile, "0.1")
        .unwrap();
    assert_eq!(b.state, "snoozed");
    assert_eq!(b.snoozed_until_unix_ms, Some(3000));
    assert_eq!(b.standing_by_reason, None);
    assert_eq!((b.version.as_str(), b.uptime_secs), ("0.1", 5));
    assert_eq!((b.counters.queries_total, b.counters.blocked_total), (1, 1));
    assert_eq!(b.privacy.query_log, "anonymous");
    assert!(b.privacy.block_private_relay && !b.privacy.cname_inspection);
    assert_eq!(b.active_profile.as_deref(), Some("work"));
    let r = handle_status(None, TOKEN, &mut s, 3000, rules(), &m, 5, &privacy(), None, "0.1");
    assert_eq!(r.unwrap_err().status, 401);
    assert_eq!(s.current_state(), GuardState::Snoozed { until_unix_ms: 3000 });
    let b = handle_status(HEADER, TOKEN, &mut s, 3000, rules(), &m, 5, &privacy(), None, "0.1")
        .unwrap();
    assert_eq!(b.state, "filtering");
    assert_eq!(b.snoozed_until_unix_ms, None);
    assert_eq!(s.current_state(), GuardState::Filtering);
}

#[test]
fn pausing_and_going_on() {
    let mut s = Sentinel::new();
    let b = handle_snooze(HEADER, TOKEN, Ok(SnoozeReq { secs: 60 }), &mut s, 1000).unwrap();
    assert_eq!(b.snoozed_until_unix_ms, 61_000);
    assert_eq!(s.current_state(), GuardState::Snoozed { until_unix_ms: 61_000 });
    let b = handle_resume(HEADER, TOKEN, &mut s).unwrap();
    assert_eq!(b.state, "filtering");
    assert_eq!(s.engine_snooze_until(), 0);
}

#[test]
fn refused_pauses_change_nothing() {
    let mut s = Sentinel::new();
    let e = handle_snooze(HEADER, TOKEN, Ok(SnoozeReq { secs: 0 }), &mut s, 1).unwrap_err();
    assert_eq!((e.status, e.body.error.as_str()), (400, "invalid_body"));
    assert_eq!(e.body.detail.as_deref(), Some("secs must be in [1, 86400]"));
    let e = handle_snooze(HEADER, TOKEN, Err("eof".to_owned()), &mut s, 1).unwrap_err();
    assert_eq!(e.body.detail.as_deref(), Some("eof"));
    let e = handle_snooze(None, TOKEN, Ok(SnoozeReq { secs: 60 }), &mut s, 1).unwrap_err();
    assert_eq!(e.status, 401);
    assert_eq!(handle_resume(None, TOKEN, &mut s).unwrap_err().status, 401);
    assert_eq!(s.current_state(), GuardState::Filtering);
}

#[test]
fn domains_are_allowed_and_unallowed() {
    let domain = || Ok(DomainReq { domain: "a.test".to_owned() });
    assert_eq!(requested_domain(HEADER, TOKEN, domain()).unwrap(), "a.test");
    assert_eq!(requested_domain(None, TOKEN, domain()).unwrap_err().status, 401);
    let e = requested_domain(HEADER, TOKEN, Err("eof".to_owned())).unwrap_err();
    assert_eq!((e.status, e.body.error.as_str()), (400, "invalid_body"));

    let mut list = vec![];
    let b = handle_allow(&mut list, Ok("a.test".to_owned())).unwrap();
    assert_eq!(b.allowed, vec!["a.test"]);
    let b = handle_allow(&mut list, Ok("b.test".to_owned())).unwrap();
    assert_eq!(b.allowed, vec!["a.test", "b.test"]);
    assert_eq!(handle_allowlist(&list).allowed, list);
    let b = handle_unallow(&mut list, Ok("a.test".to_owned())).unwrap();
    assert_eq!(b.allowed, vec!["b.test"]);
    let e = handle_allow(&mut list, Err("empty label".to_owned())).unwrap_err();
    assert_eq!((e.status, e.body.error.as_str()), (422, "invalid_domain"));
    assert_eq!(handle_unallow(&mut list, Err("x".to_owned())).unwrap_err().status, 422);
    assert_eq!(list, vec!["b.test"]);
}

#[test]
fn allowlist_survives_a_restart() {
    let list = texts(&["a.test", "b.test", "xn--c.test"]);
    assert_eq!(allowlist_lines(&persist_allowlist(&list)), list);
    assert!(allowlist_lines(&persist_allowlist(&vec![])).is_empty());
}

#[test]
fn recent_queries_are_listed() {
    let records = vec![QueryRecord {
        ts_unix_ms: 5,
        qname: "ads.test".to_owned(),
        qtype: 28,
        verdict: Verdict::Block,
        reason: Reason::CnameCloaked { hop: "t.test".to_owned() },
        upstream_ms: None,
        client: None,
    }];
    let b = handle_queries_recent(&records, QueryLogMode::Full);
    assert_eq!(b.log_mode, "full");
    assert_eq!(b.queries[0].qname, "ads.test");
    assert_eq!(b.queries[0].verdict, "block");
    assert_eq!(b.queries[0].reason, "cname_cloaked:t.test");
}

#[test]
fn sources_are_listed_with_the_catalog() {
    let status = ListsStatus {
        last_swap_unix_ms: None,
        compiled_meta: None,
        per_source: vec![
            SourceStatus {
                name: "a".to_owned(),
                url: "https://a.test/list".to_owned(),
                last_ok_unix_ms: Some(4),
                last_error: None,
                last_rule_count: Some(10),
            },
            SourceStatus {
                name: "b".to_owned(),
                url: "https://b.test/list".to_owned(),
                last_ok_unix_ms: None,
                last_error: Some("gone".to_owned()),
                last_rule_count: None,
            },
        ],
    };
    let entry = CatalogEntry {
        category: "ads".to_owned(),
        license: None,
        attribution: "someone".to_owned(),
    };
    let b = handle_lists("balanced".to_owned(), &status, &vec![Some(entry), None]);
    assert_eq!(b.preset, "balanced");
    assert_eq!(b.sources[0].category.as_deref(), Some("ads"));
    assert_eq!(b.sources[0].rule_count, Some(10));
    assert_eq!(b.sources[1].category, None);
    assert_eq!(b.sources[1].last_error.as_deref(), Some("gone"));
    assert!(b.sources[1].enabled);
}

#[test]
fn refresh_is_answered_at_once() {
    let a = handle_lists_refresh(HEADER, TOKEN).unwrap();
    assert!(a.status == 202 && a.body.started);
    assert_eq!(handle_lists_refresh(None, TOKEN).unwrap_err().status, 401);
}

#[test]
fn takeover_and_restore_are_answered() {
    let a = handle_takeover(Ok(()));
    assert!(a.status == 200 && a.body.success && a.body.error.is_none());
    let a = handle_takeover(Err("no".to_owned()));
    assert!(a.status == 500 && !a.body.success);
    let ends = vec![
        (RestoreEnd::NoSnapshot, 409, Some("no DNS snapshot found; takeover may not have been run")),
        (RestoreEnd::Unreadable("x".to_owned()), 500, Some("failed to read snapshot: x")),
        (RestoreEnd::Restored, 200, None),
        (RestoreEnd::Failed("x".to_owned()), 500, Some("x")),
        (RestoreEnd::BrokeOff, 500, Some("internal error: restore task failed")),
    ];
    for (end, status, error) in ends {
        let a = handle_restore(end);
        assert_eq!((a.status, a.body.error.as_deref()), (status, error));
    }
}

#[test]
fn statistics_without_a_log() {
    assert!(!asks_database(QueryLogMode::Off));
    assert!(asks_database(QueryLogMode::Anonymous));
    let rows = || Some(vec![HistoryBucket { ts: 1, total: 3, blocked: 2 }]);
    assert!(handle_stats_history(QueryLogMode::Off, rows()).buckets.is_empty());
    assert!(handle_stats_history(QueryLogMode::Full, None).buckets.is_empty());
    let b = handle_stats_history(QueryLogMode::Full, rows());
    assert_eq!((b.buckets[0].ts, b.buckets[0].total, b.buckets[0].blocked), (1, 3, 2));
    let top = vec![TopEntry { qname: "a.test".to_owned(), count: 7 }];
    let b = handle_stats_top(QueryLogMode::Full, &top, &vec![]);
    assert_eq!((b.blocked[0].qname.as_str(), b.blocked[0].count), ("a.test", 7));
    assert!(b.allowed.is_empty());
    let b = handle_stats_top(QueryLogMode::Anonymous, &top, &top);
    assert!(b.blocked.is_empty() && b.allowed.is_empty());
    assert_eq!(b.log_mode, "anonymous");
}

#[test]
fn clients_are_named() {
    let b = clients_off(QueryLogMode::Off, true).unwrap();
    assert!(b.explanation.unwrap().starts_with("privacy.query_log is off"));
    let b = clients_off(QueryLogMode::Full, false).unwrap();
    assert!(b.explanation.unwrap().starts_with("network_guard.log_clients is off"));
    assert!(clients_off(QueryLogMode::Full, true).is_none());

    let mut map = MdnsMap::new();
    map.insert_at(IpAddr::v4(10, 0, 0, 5), "tv.local".to_owned(), 60, 0);
    let row = |c: &str| ClientEntry { client: c.to_owned(), total: 4, blocked: 1 };
    let b = handle_clients(&vec![row("10.0.0.5"), row("10.0.0.6"), row("?")], &mut map, 1);
    assert!(b.log_clients_enabled);
    assert_eq!(b.clients[0].name.as_deref(), Some("tv.local"));
    assert_eq!(b.clients[1].name, None);
    assert_eq!(b.clients[2].name, None);
    assert_eq!((b.clients[2].total, b.clients[2].blocked), (4, 1));
}

#[test]
fn only_loopback_is_listened_on() {
    assert!(check_listen_addr(addr("127.0.0.1", 1)).is_ok());
    assert!(check_listen_addr(addr("127.8.9.10", 1)).is_ok());
    assert!(check_listen_addr(addr("::1", 1)).is_ok());
    assert_eq!(
        check_listen_addr(addr("192.168.1.2", 80)).unwrap_err().message(),
        "api.listen must be a loopback address (e.g. 127.0.0.1); got 192.168.1.2:80"
    );
}

#[test]
fn address_is_checked_before_anything_else() {
    assert!(matches!(
        ApiStart::begin(addr("0.0.0.0", 80)),
        Err(ApiStartError::NonLoopback(a)) if a == addr("0.0.0.0", 80)
    ));
    let mut s = ApiStart::begin(addr("127.0.0.1", 80)).unwrap();
    assert_eq!(s.listen_addr(), addr("127.0.0.1", 80));
    let mut steps = vec![s.step()];
    for _ in 0..5 {
        s.taken();
        steps.push(s.step());
    }
    assert_eq!(
        steps,
        vec![
            ApiStep::Token,
            ApiStep::Allowlist,
            ApiStep::Bind,
            ApiStep::Publish,
            ApiStep::Serve,
            ApiStep::Serve,
        ]
    );
}

#[test]
fn start_errors_of_the_api() {
    assert_eq!(
        ApiStartError::Token(TokenError::Io("denied".to_owned())).message(),
        "token file error: token file I/O: denied"
    );
    assert_eq!(ApiStartError::Bind("in use".to_owned()).message(), "API listener bind error: in use");
}

#[test]
fn only_the_dashboard_is_open() {
    let token = "a".repeat(64);
    let bearer = format!("Bearer {token}");
    let endpoints = [
        (Endpoint::Status, "/v0/status", Method::Get),
        (Endpoint::QueriesRecent, "/v0/queries/recent", Method::Get),
        (Endpoint::StatsSummary, "/v0/stats/summary", Method::Get),
        (Endpoint::StatsHistory, "/v0/stats/history", Method::Get),
        (Endpoint::StatsTop, "/v0/stats/top", Method::Get),
        (Endpoint::Snooze, "/v0/snooze", Method::Post),
        (Endpoint::Resume, "/v0/resume", Method::Post),
        (Endpoint::Allow, "/v0/allow", Method::Post),
        (Endpoint::Unallow, "/v0/unallow", Method::Post),
        (Endpoint::Allowlist, "/v0/allowlist", Method::Get),
        (Endpoint::Lists, "/v0/lists", Method::Get),
        (Endpoint::ListsRefresh, "/v0/lists/refresh", Method::Post),
        (Endpoint::Takeover, "/v0/takeover", Method::Post),
        (Endpoint::Restore, "/v0/restore", Method::Post),
        (Endpoint::Clients, "/v0/clients", Method::Get),
        (Endpoint::ConfigReload, "/v0/config/reload", Method::Post),
        (Endpoint::Profiles, "/v0/profiles", Method::Get),
        (Endpoint::ProfileShow, "/v0/profiles/{name}", Method::Get),
    ];
    for (endpoint, path, method) in endpoints {
        assert_eq!(endpoint.path(), path);
        assert_eq!(endpoint.method(), method);
        assert!(let_in(endpoint, Some(&bearer), &token, false).is_ok());
        let e = let_in(endpoint, None, &token, true).unwrap_err();
        assert_eq!((e.status, e.body.error.as_str()), (401, "unauthorized"));
        let e = let_in(endpoint, Some("Bearer b"), &token, true).unwrap_err();
        assert_eq!(e.status, 401);
    }
    let pages = [
        (Endpoint::DashboardRoot, "/dashboard/"),
        (Endpoint::DashboardIndex, "/dashboard/index.html"),
        (Endpoint::DashboardStyle, "/dashboard/style.css"),
        (Endpoint::DashboardScript, "/dashboard/app.js"),
    ];
    for (page, path) in pages {
        assert_eq!(page.path(), path);
        assert_eq!(page.method(), Method::Get);
        assert!(let_in(page, None, &token, true).is_ok());
        let e = let_in(page, Some(&bearer), &token, false).unwrap_err();
        assert_eq!((e.status, e.body.error.as_str()), (404, "not_found"));
    }
}
