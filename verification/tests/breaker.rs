//! The crash-loop breaker.
use hushwarren::sentinel::breaker::{
    check_breaker, clear_trip, count_in_window, load_run_state, mark_clean, mark_dirty,
    run_state_path, BreakerConfig, BreakerError, BreakerOutcome, RunState, RunStateFile,
};

fn ms(secs: u64) -> u64 {
    secs * 1_000
}

fn dirty(abnormal_restarts: Vec<u64>) -> RunState {
    RunState { clean_shutdown: false, abnormal_restarts, tripped_unix_ms: None }
}

fn config(threshold: u32) -> BreakerConfig {
    BreakerConfig { threshold, window_secs: 300 }
}

#[test]
fn load_run_state_missing_returns_default() {
    let state = load_run_state(RunStateFile::Missing).unwrap();
    assert!(state.clean_shutdown);
    assert!(state.abnormal_restarts.is_empty());
}

#[test]
fn mark_dirty_sets_clean_shutdown_false() {
    let state = mark_dirty(load_run_state(RunStateFile::Missing));
    assert!(!state.clean_shutdown);
}

#[test]
fn mark_clean_sets_clean_shutdown_true() {
    let state = mark_dirty(load_run_state(RunStateFile::Missing));
    let state = mark_clean(Ok(state));
    assert!(state.clean_shutdown);
}

#[test]
fn durable_trip_survives_restarts_until_rearm() {
    let cfg = config(3);
    let mut restores = 0;
    let mut s = load_run_state(RunStateFile::Missing).unwrap();
    for i in 0..3 {
        s.clean_shutdown = false;
        let out = check_breaker(s, &cfg, ms(100) + i * 1000, true);
        if out.restore {
            restores += 1;
        }
        if i < 2 {
            assert_eq!(out.outcome, BreakerOutcome::Nominal);
        } else {
            assert!(matches!(out.outcome, BreakerOutcome::Fired { .. }), "3rd fires");
        }
        s = out.state;
    }
    assert_eq!(restores, 1, "restore called exactly once on fire");
    let out = check_breaker(s, &cfg, ms(110), false);
    assert!(matches!(out.outcome, BreakerOutcome::Fired { .. }), "stays disarmed");
    assert!(!out.restore, "no extra restore while already tripped");

    let mut s = clear_trip(Ok(out.state));
    s.clean_shutdown = false;
    let out = check_breaker(s, &cfg, ms(120), true);
    assert_eq!(out.outcome, BreakerOutcome::Nominal, "re-arm clears the trip");
}

#[test]
fn count_in_window_basic() {
    let timestamps = vec![ms(0), ms(100), ms(200), ms(400)];
    let now = ms(500);
    let count = count_in_window(&timestamps, now, 300);
    assert_eq!(count, 2);
}

#[test]
fn count_in_window_none_in_window() {
    let timestamps = vec![ms(0), ms(100)];
    let now = ms(1000);
    let count = count_in_window(&timestamps, now, 100);
    assert_eq!(count, 0);
}

#[test]
fn count_in_window_all_in_window() {
    let timestamps = vec![ms(100), ms(200), ms(300)];
    let now = ms(400);
    let count = count_in_window(&timestamps, now, 400);
    assert_eq!(count, 3);
}

#[test]
fn count_in_window_boundary_inclusive() {
    let timestamps = vec![ms(0)];
    let count = count_in_window(&timestamps, ms(500), 500);
    assert_eq!(count, 1);
}

#[test]
fn count_in_window_boundary_exclusive() {
    let timestamps = vec![ms(0)];
    let count = count_in_window(&timestamps, ms(500), 499);
    assert_eq!(count, 0);
}

#[test]
fn breaker_clean_previous_shutdown_is_nominal() {
    let state = RunState {
        clean_shutdown: true,
        abnormal_restarts: vec![ms(1), ms(2), ms(3)],
        tripped_unix_ms: None,
    };
    let out = check_breaker(state, &config(3), ms(300), true);
    assert_eq!(out.outcome, BreakerOutcome::Nominal);
    assert!(!out.restore, "restore must not be called on clean boot");
    assert!(out.state.abnormal_restarts.is_empty());
}

#[test]
fn breaker_two_restarts_below_threshold() {
    let out = check_breaker(dirty(vec![ms(100), ms(200)]), &config(4), ms(250), true);
    assert_eq!(out.outcome, BreakerOutcome::Nominal);
    assert!(!out.restore);
}

#[test]
fn breaker_fires_on_third_restart() {
    let out = check_breaker(dirty(vec![ms(100), ms(200)]), &config(3), ms(250), true);
    assert!(matches!(out.outcome, BreakerOutcome::Fired { .. }));
    assert!(out.restore, "restore must be called when breaker fires");
}

#[test]
fn breaker_old_restarts_outside_window_are_pruned() {
    let out = check_breaker(dirty(vec![ms(1), ms(2)]), &config(3), ms(1000), true);
    assert_eq!(out.outcome, BreakerOutcome::Nominal);
    assert!(!out.restore);
    assert_eq!(out.state.abnormal_restarts, vec![ms(1000)]);
}

#[test]
fn breaker_no_snapshot_skips_count() {
    let out = check_breaker(dirty(vec![ms(100), ms(200)]), &config(3), ms(250), false);
    assert_eq!(out.outcome, BreakerOutcome::Nominal);
    assert!(!out.restore);
}

#[test]
fn breaker_fires_at_exact_threshold() {
    let out = check_breaker(dirty(vec![ms(100)]), &config(2), ms(200), true);
    assert!(matches!(out.outcome, BreakerOutcome::Fired { .. }));
    assert!(out.restore);
}

#[test]
fn unreadable_breadcrumbs() {
    assert!(matches!(
        load_run_state(RunStateFile::Unreadable("x".to_owned())),
        Err(BreakerError::Read(_))
    ));
    assert!(matches!(
        load_run_state(RunStateFile::Invalid("x".to_owned())),
        Err(BreakerError::Parse(_))
    ));
    let kept = load_run_state(RunStateFile::Loaded(dirty(vec![3]))).unwrap();
    assert_eq!(kept, dirty(vec![3]));
}

#[test]
fn breadcrumb_path() {
    assert_eq!(run_state_path("/state"), "/state/run-state.json");
}

#[test]
fn trip_outlasts_the_window() {
    let state = RunState {
        clean_shutdown: false,
        abnormal_restarts: vec![ms(1), ms(9_900)],
        tripped_unix_ms: Some(ms(2)),
    };
    let out = check_breaker(state, &config(3), ms(10_000), true);
    assert_eq!(
        out.outcome,
        BreakerOutcome::Fired { reason: "crash-loop breaker tripped (recovering)".to_owned() }
    );
    assert!(!out.restore);
    assert_eq!(out.state.tripped_unix_ms, Some(ms(2)));
    assert_eq!(out.state.abnormal_restarts, vec![ms(9_900)]);
    let cleared = mark_clean(Ok(out.state));
    assert_eq!(check_breaker(cleared, &config(3), ms(10_001), true).outcome, BreakerOutcome::Nominal);
}

#[test]
fn old_restarts_are_pruned_without_a_snapshot() {
    let out = check_breaker(dirty(vec![1_000]), &config(3), 1_000_000, false);
    assert_eq!(out.outcome, BreakerOutcome::Nominal);
    assert!(!out.restore);
    assert_eq!(out.state, dirty(vec![]));
}
