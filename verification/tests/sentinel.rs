//! The state of the guard.
use hushwarren::clock::unix_ms_now;
use hushwarren::sentinel::{GuardState, Sentinel, SentinelError, StandbyReason};

#[test]
fn initial_state_is_filtering() {
    let s = Sentinel::new();
    assert_eq!(s.current_state(), GuardState::Filtering);
}

#[test]
fn snooze_transitions_to_snoozed() {
    let mut s = Sentinel::new();
    s.snooze(60_000);
    match s.current_state() {
        GuardState::Snoozed { until_unix_ms } => {
            assert!(until_unix_ms > 0);
        }
        other => panic!("expected Snoozed, got {other:?}"),
    }
}

#[test]
fn snooze_arms_engine() {
    let mut s = Sentinel::new();
    s.snooze(3_600_000);
    assert!(s.engine_snooze_until() > unix_ms_now());
}

#[test]
fn resume_transitions_to_filtering() {
    let mut s = Sentinel::new();
    s.snooze(60_000);
    s.resume();
    assert_eq!(s.current_state(), GuardState::Filtering);
    assert!(s.engine_snooze_until() <= unix_ms_now());
}

#[test]
fn set_standing_by() {
    let mut s = Sentinel::new();
    s.set_standing_by(StandbyReason::AllUpstreamsDown);
    match s.current_state() {
        GuardState::StandingBy { why } => {
            assert_eq!(why, StandbyReason::AllUpstreamsDown);
        }
        other => panic!("expected StandingBy, got {other:?}"),
    }
}

#[test]
fn set_filtering_after_standing_by() {
    let mut s = Sentinel::new();
    s.set_standing_by(StandbyReason::Initialising);
    s.set_filtering();
    assert_eq!(s.current_state(), GuardState::Filtering);
}

#[test]
fn set_attention() {
    let mut s = Sentinel::new();
    s.set_attention("crash loop");
    match s.current_state() {
        GuardState::Attention { why } => assert_eq!(why, "crash loop"),
        other => panic!("expected Attention, got {other:?}"),
    }
}

#[test]
fn state_api_filtering() {
    let s = Sentinel::new();
    let (state, reason) = s.state_api();
    assert_eq!(state, "filtering");
    assert_eq!(reason, None);
}

#[test]
fn state_api_standing_by_vpn() {
    let mut s = Sentinel::new();
    s.set_standing_by(StandbyReason::VpnActive);
    let (state, reason) = s.state_api();
    assert_eq!(state, "standing_by");
    assert_eq!(reason, Some("vpn".to_owned()));
}

#[test]
fn state_api_standing_by_portal() {
    let mut s = Sentinel::new();
    s.set_standing_by(StandbyReason::Portal);
    let (state, reason) = s.state_api();
    assert_eq!(state, "standing_by");
    assert_eq!(reason, Some("portal".to_owned()));
}

#[test]
fn state_api_standing_by_user_dns() {
    let mut s = Sentinel::new();
    s.set_standing_by(StandbyReason::UserDns);
    let (state, reason) = s.state_api();
    assert_eq!(state, "standing_by");
    assert_eq!(reason, Some("user_dns".to_owned()));
}

#[test]
fn snoozing_ends_when_it_was_said_to() {
    let mut s = Sentinel::new();
    s.snooze_from(1_000, 60_000);
    assert_eq!(s.current_state(), GuardState::Snoozed { until_unix_ms: 61_000 });
    assert_eq!(s.engine_snooze_until(), 61_000);
    s.expire_snooze(60_999);
    assert_eq!(s.current_state(), GuardState::Snoozed { until_unix_ms: 61_000 });
    s.expire_snooze(61_000);
    assert_eq!(s.current_state(), GuardState::Filtering);
    s.set_standing_by(StandbyReason::Portal);
    s.expire_snooze(u64::MAX);
    assert_eq!(s.current_state(), GuardState::StandingBy { why: StandbyReason::Portal });
    s.snooze_from(u64::MAX, 5);
    assert_eq!(s.engine_snooze_until(), u64::MAX);
}

#[test]
fn sentinel_error_message() {
    assert_eq!(SentinelError::ChannelClosed.message(), "sentinel state channel closed");
}
