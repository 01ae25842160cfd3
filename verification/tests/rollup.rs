//! The query log.
use hushwarren::clock::unix_ms_now;
use hushwarren::config::QueryLogMode;
use hushwarren::net::{parse_ip, IpAddr};
use hushwarren::querylog::{
    push_query, reason_for_rollup, reason_for_rollup_anonymous, verdict_for_rollup, QueryRecord,
    Reason, RollupRecord, Verdict, REDACTED_QNAME,
};
use hushwarren::rollup::{
    corrupt_name, cutoff_ms_at, cutoff_ms_for_days, occupied_bytes, open_db, query_clients,
    query_history, query_top, row_of, schema_step, since_ms_at, start_rollup, trim_again,
    vacuum_step, DbError, HistoryQuery, OpenStep, RollupDrops, SchemaStep, TopQuery, VacuumStep,
    Writer, WriterAction, WriterEvent, BATCH_SIZE, CHANNEL_CAP, MAX_TRIMS, SCHEMA_VERSION,
    SIZE_CAP_BYTES,
};

fn record(qname: &str, client: Option<IpAddr>) -> RollupRecord {
    RollupRecord {
        ts_ms: 1000,
        qname: qname.to_owned(),
        qtype: 1,
        verdict: "block".to_owned(),
        reason: "list_blocked".to_owned(),
        client,
    }
}

#[test]
fn schema_created_on_open() {
    assert_eq!(SCHEMA_VERSION, 2);
    assert_eq!(schema_step(None), SchemaStep::PutVersion);
}

#[test]
fn schema_idempotent_second_open() {
    assert_eq!(schema_step(Some(SCHEMA_VERSION)), SchemaStep::Nothing);
}

#[test]
fn migration_v1_to_v2_preserves_rows() {
    assert_eq!(schema_step(Some(1)), SchemaStep::AddClientColumn);
}

#[test]
fn corrupt_file_renamed_and_db_recreated() {
    assert_eq!(open_db(false, false), OpenStep::MoveAsideAndRetry);
    assert_eq!(corrupt_name(12345), "querylog.corrupt.12345");
    assert_eq!(open_db(true, true), OpenStep::Use);
    assert_eq!(open_db(false, true), OpenStep::GiveUp);
}

#[test]
fn anonymous_mode_rows_have_redacted_qname() {
    let row = row_of(&record("<redacted>", None));
    assert_eq!(row.qname, "<redacted>");
    assert_eq!((row.ts_ms, row.qtype), (1000, 1));
}

#[test]
fn query_history_missing_db_returns_empty() {
    assert_eq!(query_history(false, 24, 3600, unix_ms_now()), None);
}

#[test]
fn query_top_anonymous_returns_empty() {
    assert_eq!(query_top(true, 10, 24, QueryLogMode::Anonymous, unix_ms_now()), None);
}

#[test]
fn query_clients_missing_db_returns_empty() {
    assert_eq!(query_clients(false, 24, unix_ms_now()), None);
}

#[test]
fn cutoff_ms_is_approximately_correct() {
    let now = unix_ms_now();
    let cutoff = cutoff_ms_for_days(7) as u64;
    let expected_diff = 7u64 * 24 * 3600 * 1000;
    let slack = 5000u64;
    assert!(
        now.saturating_sub(cutoff).abs_diff(expected_diff) < slack,
        "cutoff_ms_for_days(7) must be approximately now - 7 days"
    );
}

#[test]
fn flush_batch_stores_client_ip() {
    let row = row_of(&record("test.example", parse_ip("10.0.0.5")));
    assert_eq!(row.client, Some("10.0.0.5".to_string()), "client IP must be stored as text");
}

#[test]
fn flush_batch_stores_null_client_for_loopback() {
    let row = row_of(&record("test.example", None));
    assert!(row.client.is_none(), "loopback query must store NULL client");
}

#[test]
fn off_mode_handle_never_creates_db() {
    let mut handle = start_rollup(QueryLogMode::Off);
    assert!(!handle.is_recording(), "off mode must never create the DB file");
    assert!(handle.try_send(record("test.example", None), 0).is_none());
    assert_eq!(handle.drops(), 0);
}

#[test]
fn full_channel_drops_records() {
    let mut handle = start_rollup(QueryLogMode::Full);
    assert!(handle.try_send(record("a.test", None), CHANNEL_CAP - 1).is_some());
    assert!(handle.try_send(record("b.test", None), CHANNEL_CAP).is_none());
    assert_eq!(handle.drops(), 1);
    let mut drops = RollupDrops::new();
    drops.inc();
    assert_eq!(drops.load(), 1);
}

#[test]
fn batches_are_written_when_full_or_due() {
    let mut w = Writer::new();
    for i in 1..BATCH_SIZE {
        let a = w.on_event(WriterEvent::Record(record("a.test", None)));
        assert!(matches!(a, WriterAction::Wait), "{i}");
    }
    match w.on_event(WriterEvent::Record(record("last.test", None))) {
        WriterAction::Flush(batch) => {
            assert_eq!(batch.len(), BATCH_SIZE);
            assert_eq!(batch[BATCH_SIZE - 1].qname, "last.test");
        }
        other => panic!("expected a flush, got {other:?}"),
    }
    assert!(matches!(w.on_event(WriterEvent::FlushTick), WriterAction::Wait));
    w.on_event(WriterEvent::Record(record("b.test", None)));
    assert!(matches!(w.on_event(WriterEvent::RetentionTick), WriterAction::Retain));
    assert!(matches!(w.on_event(WriterEvent::FlushTick), WriterAction::Flush(b) if b.len() == 1));
}

#[test]
fn nothing_is_lost_at_the_end() {
    let mut w = Writer::new();
    w.on_event(WriterEvent::Record(record("a.test", None)));
    let rest = vec![record("b.test", None), record("c.test", None)];
    match w.on_event(WriterEvent::Cancelled(rest)) {
        WriterAction::FlushAndExit(batch) => {
            let names: Vec<&str> = batch.iter().map(|r| r.qname.as_str()).collect();
            assert_eq!(names, vec!["a.test", "b.test", "c.test"]);
        }
        other => panic!("expected the end, got {other:?}"),
    }
    assert!(matches!(w.on_event(WriterEvent::Closed), WriterAction::FlushAndExit(b) if b.is_empty()));
    let many: Vec<RollupRecord> = (0..CHANNEL_CAP + 1).map(|_| record("d.test", None)).collect();
    assert!(matches!(
        w.on_event(WriterEvent::Cancelled(many)),
        WriterAction::FlushAndExit(b) if b.len() == CHANNEL_CAP + 1
    ));
}

#[test]
fn space_is_given_back() {
    assert_eq!(vacuum_step(2, 50), VacuumStep::Nothing);
    assert_eq!(vacuum_step(0, 1), VacuumStep::SwitchOn);
    assert_eq!(vacuum_step(0, 2), VacuumStep::SwitchOnAndRebuild);
    assert_eq!(occupied_bytes(100, 40, 4096), 245_760);
    assert_eq!(occupied_bytes(3, 40, 4096), 0);
    assert!(trim_again(0, None, SIZE_CAP_BYTES + 1));
    assert!(!trim_again(0, None, SIZE_CAP_BYTES));
    assert!(trim_again(1, Some(1000), SIZE_CAP_BYTES + 1));
    assert!(!trim_again(1, Some(0), SIZE_CAP_BYTES + 1));
    assert!(!trim_again(MAX_TRIMS, Some(1000), SIZE_CAP_BYTES + 1));
}

#[test]
fn spans_of_time() {
    assert_eq!(cutoff_ms_at(1, 100_000_000), 13_600_000);
    assert_eq!(cutoff_ms_at(7, 5), 0);
    assert_eq!(since_ms_at(1, 4_000_000), 400_000);
    assert_eq!(
        query_history(true, 1, 60, 4_000_000),
        Some(HistoryQuery { bucket_ms: 60_000, since_ms: 400_000 })
    );
    assert_eq!(query_clients(true, 1, 4_000_000), Some(400_000));
    assert_eq!(
        query_top(true, 5, 1, QueryLogMode::Full, 4_000_000),
        Some(TopQuery { n: 5, since_ms: 400_000 })
    );
}

#[test]
fn database_error_messages() {
    assert_eq!(DbError::Open("x".to_owned()).message(), "sqlite open: x");
    assert_eq!(DbError::Schema("x".to_owned()).message(), "sqlite schema: x");
    assert_eq!(DbError::Insert("x".to_owned()).message(), "sqlite insert: x");
    assert_eq!(DbError::Query("x".to_owned()).message(), "sqlite query: x");
}

fn query(reason: Reason) -> QueryRecord {
    QueryRecord {
        ts_unix_ms: 7,
        qname: "ads.test".to_owned(),
        qtype: 1,
        verdict: Verdict::Block,
        reason,
        upstream_ms: None,
        client: parse_ip("10.0.0.5"),
    }
}

#[test]
fn anonymous_log_names_nothing() {
    let rec = query(Reason::CnameCloaked { hop: "t.test".to_owned() });
    let full = push_query(QueryLogMode::Full, &rec);
    assert_eq!((full.qname.as_str(), full.reason.as_str()), ("ads.test", "cname_cloaked:t.test"));
    assert_eq!(full.client, rec.client);
    let anonymous = push_query(QueryLogMode::Anonymous, &rec);
    assert_eq!(anonymous.qname, REDACTED_QNAME);
    assert!(!anonymous.reason.contains("t.test"));
}

#[test]
fn reasons_and_verdicts_as_text() {
    assert_eq!(verdict_for_rollup(Verdict::ForwardLocal), "forward_local");
    assert_eq!(verdict_for_rollup(Verdict::Forward), "forward");
    assert_eq!(reason_for_rollup(&Reason::ListBlocked), "list_blocked");
    assert_eq!(
        reason_for_rollup(&Reason::RebindBlocked { addr: "10.0.0.1".to_owned() }),
        "rebind_blocked:10.0.0.1"
    );
    assert_eq!(
        reason_for_rollup_anonymous(&Reason::CnameCloaked { hop: "t.test".to_owned() }),
        "cname_cloaked:<redacted>"
    );
}

#[test]
fn no_record_is_lost() {
    let mut w = Writer::new();
    let mut names: Vec<String> = Vec::new();
    let mut write = |a: WriterAction| match a {
        WriterAction::Flush(v) | WriterAction::FlushAndExit(v) => {
            names.extend(v.into_iter().map(|r| r.qname));
        }
        WriterAction::Wait | WriterAction::Retain => {}
    };
    for i in 0..BATCH_SIZE + 2 {
        write(w.on_event(WriterEvent::Record(record(&format!("n{i}"), None))));
    }
    write(w.on_event(WriterEvent::RetentionTick));
    write(w.on_event(WriterEvent::FlushTick));
    write(w.on_event(WriterEvent::Record(record("late", None))));
    write(w.on_event(WriterEvent::Cancelled(vec![record("last", None)])));
    let mut expected: Vec<String> = (0..BATCH_SIZE + 2).map(|i| format!("n{i}")).collect();
    expected.push("late".to_owned());
    expected.push("last".to_owned());
    assert_eq!(names, expected);
}
