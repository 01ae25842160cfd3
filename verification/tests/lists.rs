//! Block lists.
use hushwarren::config::ListSource;
use hushwarren::lists::{
    accept_body, check_raw_cache, check_snapshot, compute_next_interval, fetch_head,
    first_fetch_delay_secs, interval_ms, next_backoff, next_boot_step, snapshot_directory,
    snapshot_source, source_file_path, too_large, BootStep, FetchHead, FetchResult, Fetched, ListsError,
    ListsPipeline, RefreshPauses, RulesMeta, Validators, BACKOFF_CAP_SECS, MAX_SOURCE_BYTES,
};

const HOUR_MS: u64 = 3600 * 1000;

fn meta() -> RulesMeta {
    RulesMeta { block_count: 3, allow_count: 1, built_unix_ms: 5, source_names: vec!["a".to_owned()] }
}

#[test]
fn interval_at_least_refresh_hours() {
    let dur = compute_next_interval(24, 60);
    let base = 24 * HOUR_MS;
    assert!(dur >= base, "interval must be at least refresh_hours");
    let max = 24 * HOUR_MS + 60 * 60 * 1000;
    assert!(dur <= max, "interval must not exceed refresh_hours + jitter");
}

#[test]
fn interval_zero_jitter_exact() {
    let dur = compute_next_interval(12, 0);
    assert_eq!(dur, 12 * HOUR_MS);
}

#[test]
fn source_file_path_is_safe() {
    let p = source_file_path("/tmp/lists", "https://small.oisd.nl/domainswild2");
    let name = p.rsplit('/').next().unwrap();
    assert!(!name.contains('/'));
    assert!(!name.contains(':'));
    assert_eq!(p, "/tmp/lists/https___small.oisd.nl_domainswild2.txt");
}

fn make_pipeline(url: &str) -> ListsPipeline {
    ListsPipeline::new(
        "custom",
        vec![ListSource { name: "test".to_string(), url: url.to_string() }],
    )
}

#[test]
fn status_initially_all_none() {
    let p = make_pipeline("http://example.com/list");
    let s = p.status(meta());
    assert_eq!(s.per_source.len(), 1);
    assert!(s.per_source[0].last_ok_unix_ms.is_none(), "no fetch yet");
    assert!(s.per_source[0].last_error.is_none());
    assert!(s.per_source[0].last_rule_count.is_none());
    assert!(s.last_swap_unix_ms.is_none());
}

#[test]
fn status_after_record_source_ok_shows_timestamp() {
    let mut p = make_pipeline("http://example.com/list");
    p.record_source_ok("http://example.com/list");
    let s = p.status(meta());
    assert!(s.per_source[0].last_ok_unix_ms.is_some());
    assert!(s.per_source[0].last_error.is_none());
}

#[test]
fn status_after_record_source_error_shows_error_keeps_previous_ok() {
    let mut p = make_pipeline("http://example.com/list");
    p.record_source_ok("http://example.com/list");
    let ok_ts = p.status(meta()).per_source[0].last_ok_unix_ms;
    assert!(ok_ts.is_some());
    p.record_source_error("http://example.com/list", "connection refused".to_string());
    let s = p.status(meta());
    assert_eq!(s.per_source[0].last_ok_unix_ms, ok_ts);
    assert_eq!(s.per_source[0].last_error.as_deref(), Some("connection refused"));
}

#[test]
fn status_record_ok_clears_previous_error() {
    let mut p = make_pipeline("http://example.com/list");
    p.record_source_error("http://example.com/list", "timeout".to_string());
    p.record_source_ok("http://example.com/list");
    let s = p.status(meta());
    assert!(s.per_source[0].last_error.is_none(), "error must be cleared after ok");
}

#[test]
fn status_after_record_swap_shows_timestamp() {
    let mut p = make_pipeline("http://example.com/list");
    assert!(p.status(meta()).last_swap_unix_ms.is_none());
    p.record_swap();
    assert!(p.status(meta()).last_swap_unix_ms.is_some());
}

#[test]
fn rule_counts_and_configuration_are_kept_apart() {
    let mut p = make_pipeline("http://example.com/list");
    p.record_rule_count("http://example.com/list", 2);
    p.record_source_ok_at("http://example.com/other", 9);
    p.record_swap_at(11);
    assert_eq!(p.status(meta()).per_source[0].last_rule_count, Some(2));
    assert!(p.status(meta()).per_source[0].last_ok_unix_ms.is_none());
    p.update_config(
        "strict",
        vec![ListSource { name: "o".to_string(), url: "http://example.com/other".to_string() }],
    );
    assert_eq!(p.preset(), "strict");
    assert_eq!(p.status(meta()).per_source[0].last_ok_unix_ms, Some(9));
    assert_eq!(p.status(meta()).last_swap_unix_ms, Some(11));
}

#[test]
fn validators_are_kept_per_source() {
    let mut v = Validators::new();
    assert_eq!(v.get("a"), (None, None));
    v.set("a", Some("e1".to_string()), None);
    v.set("b", None, Some("monday".to_string()));
    v.set("a", Some("e2".to_string()), None);
    assert_eq!(v.get("a"), (Some("e2"), None));
    assert_eq!(v.get("b"), (None, Some("monday")));
}

#[test]
fn response_heads() {
    assert_eq!(fetch_head(304, None), FetchHead::NotModified);
    assert_eq!(fetch_head(404, None), FetchHead::Refused);
    assert_eq!(fetch_head(503, Some(1)), FetchHead::Refused);
    assert_eq!(fetch_head(200, Some(MAX_SOURCE_BYTES)), FetchHead::ReadBody);
    assert_eq!(fetch_head(200, Some(MAX_SOURCE_BYTES + 1)), FetchHead::TooLarge);
    assert_eq!(fetch_head(200, None), FetchHead::ReadBody);
}

#[test]
fn large_body_is_refused() {
    assert!(accept_body("http://x", MAX_SOURCE_BYTES).is_ok());
    let e = accept_body("http://x", MAX_SOURCE_BYTES + 1).unwrap_err();
    assert_eq!(
        e.message(),
        "source http://x response exceeded 268435456 bytes (poisoned-source guard)"
    );
}

#[test]
fn error_messages_of_lists() {
    assert_eq!(ListsError::Io("disk full".to_string()).message(), "I/O error: disk full");
    assert_eq!(
        ListsError::Http { url: "http://x".to_string(), source: "refused".to_string() }.message(),
        "HTTP error fetching http://x: refused"
    );
    assert_eq!(ListsError::Compile("bad".to_string()).message(), "compile error: bad");
}

fn refreshed(results: Vec<FetchResult>) -> Option<bool> {
    match ListsPipeline::fetch_and_compile_if_changed(&results) {
        Ok(b) => Some(b),
        Err(e) => {
            assert_eq!(e.message(), "I/O error: all list sources failed");
            None
        }
    }
}

#[test]
fn one_source_is_enough() {
    assert_eq!(refreshed(vec![]), None);
    assert_eq!(refreshed(vec![FetchResult::Failed, FetchResult::Failed]), None);
    assert_eq!(refreshed(vec![FetchResult::Failed, FetchResult::NotModified]), Some(false));
    assert_eq!(refreshed(vec![FetchResult::Content, FetchResult::Failed]), Some(true));
}

#[test]
fn answers_of_sources_are_taken_in() {
    let url = "http://example.com/list";
    let mut p = make_pipeline(url);
    let mut v = Validators::new();
    let content = Fetched::Content { etag: Some("e1".to_string()), last_modified: None };
    assert_eq!(p.source_fetched(&mut v, url, content, 5), FetchResult::Content);
    assert_eq!(v.get(url), (Some("e1"), None));
    let failed = Fetched::Failed(ListsError::SourceTooLarge { url: url.to_string() });
    assert_eq!(p.source_fetched(&mut v, url, failed, 6), FetchResult::Failed);
    assert_eq!(p.status(meta()).per_source[0].last_ok_unix_ms, Some(5));
    assert!(p.status(meta()).per_source[0].last_error.as_ref().unwrap().starts_with("source http"));
    assert_eq!(p.source_fetched(&mut v, url, Fetched::NotModified, 7), FetchResult::NotModified);
    assert_eq!(p.status(meta()).per_source[0].last_ok_unix_ms, Some(7));
    assert_eq!(p.status(meta()).per_source[0].last_error, None);
    assert_eq!(v.get(url), (Some("e1"), None));
}

#[test]
fn compile_from_raw_cache_records_rule_counts() {
    let mut p = make_pipeline("http://example.com/list");
    assert!(check_raw_cache(&vec![Some(2)]).is_ok());
    p.record_rule_counts(&vec![("http://example.com/list".to_owned(), 2)]);
    let rule_count = p.status(meta()).per_source[0].last_rule_count;
    assert_eq!(rule_count, Some(2), "must record 2 rules from the source file");
    p.record_rule_counts(&vec![("http://example.com/other".to_owned(), 9)]);
    assert_eq!(p.status(meta()).per_source[0].last_rule_count, Some(2));
    assert_eq!(
        check_raw_cache(&vec![None, None]).unwrap_err().message(),
        "I/O error: no cached raw source files found"
    );
}

#[test]
fn compile_from_snapshot_empty_dir_returns_err() {
    let result = check_snapshot("/tmp/snapshot", 0);
    assert_eq!(
        result.unwrap_err().message(),
        "I/O error: snapshot dir /tmp/snapshot contained no .txt files"
    );
    assert!(check_snapshot("/tmp/snapshot", 1).is_ok());
}

#[test]
fn try_load_snapshot_no_config_returns_false() {
    assert!(snapshot_directory(None).is_none(), "unconfigured snapshot_dir must return false");
}

#[test]
fn pauses_grow_until_a_refresh_succeeds() {
    assert_eq!(first_fetch_delay_secs(true), 10);
    assert_eq!(first_fetch_delay_secs(false), 0);
    let mut p = RefreshPauses::new();
    assert_eq!(p.after_refresh(false, 1, 0, 0), 30_000);
    assert_eq!(p.after_refresh(false, 1, 0, 0), 60_000);
    assert_eq!(p.after_refresh(true, 1, 0, 0), HOUR_MS);
    assert_eq!(p.after_refresh(false, 1, 0, 0), 30_000);
}

#[test]
fn jitter_is_picked_by_the_seed() {
    assert_eq!(interval_ms(1, 1, 0), HOUR_MS);
    assert_eq!(interval_ms(1, 1, 59_999), HOUR_MS + 59_999);
    assert_eq!(interval_ms(1, 1, 60_000), HOUR_MS);
}

#[test]
fn backoff_doubles_up_to_the_cap() {
    let mut pauses = vec![30];
    for _ in 0..8 {
        pauses.push(next_backoff(*pauses.last().unwrap()));
    }
    assert_eq!(pauses, vec![30, 60, 120, 240, 480, 960, 1920, 3600, 3600]);
    assert_eq!(next_backoff(BACKOFF_CAP_SECS), BACKOFF_CAP_SECS);
}

#[test]
fn boot_goes_down_the_ladder() {
    let mut steps = vec![BootStep::LoadCompiled];
    for _ in 0..4 {
        steps.push(next_boot_step(*steps.last().unwrap(), false));
    }
    assert_eq!(
        steps,
        vec![
            BootStep::LoadCompiled,
            BootStep::CompileRawCache,
            BootStep::CompileSnapshot,
            BootStep::StartEmpty,
            BootStep::Ready,
        ]
    );
    assert_eq!(next_boot_step(BootStep::CompileRawCache, true), BootStep::Ready);
}

#[test]
fn only_text_files_of_the_snapshot_are_sources() {
    assert_eq!(snapshot_source("hagezi-light.txt"), Some("hagezi-light".to_string()));
    assert_eq!(snapshot_source("index.json"), None);
    assert_eq!(snapshot_source(".txt"), None);
    assert_eq!(snapshot_source("a.b.txt"), Some("a.b".to_string()));
    assert_eq!(snapshot_directory(None), None);
    assert_eq!(snapshot_directory(Some("")), None);
    assert_eq!(snapshot_directory(Some("/s")), Some("/s".to_string()));
}

#[test]
fn letters_of_any_script_stay_in_file_names() {
    assert_eq!(source_file_path("/l", "\u{e9}/?"), "/l/\u{e9}__.txt");
}

#[test]
fn forced_refresh_sends_no_validators() {
    let mut v = Validators::new();
    v.set("http://a", Some("e".to_string()), None);
    v.set("http://b", None, Some("m".to_string()));
    v.set("http://a", Some("f".to_string()), None);
    assert_eq!(v.urls(), vec!["http://a", "http://b"]);
    let v = Validators::load(Some(v), false);
    assert_eq!(v.get("http://a"), (Some("f"), None));
    let v = Validators::load(Some(v), true);
    assert_eq!(v.get("http://a"), (None, None));
    assert!(Validators::load(None, false).urls().is_empty());
}

#[test]
fn status_tells_of_the_rules_in_force() {
    let p = make_pipeline("http://example.com/list");
    let m = p.status(meta()).compiled_meta.unwrap();
    assert_eq!((m.block_count, m.allow_count, m.built_unix_ms), (3, 1, 5));
    assert_eq!(m.source_names, vec!["a"]);
}

#[test]
fn sources_that_are_too_large_are_named() {
    assert!(matches!(too_large("http://x"), ListsError::SourceTooLarge { url } if url == "http://x"));
}
