//! The counters.
use hushwarren::metrics::Metrics;

#[test]
fn zero_on_construction() {
    let m = Metrics::new();
    let s = m.snapshot();
    assert_eq!(s.queries_total, 0);
    assert_eq!(s.blocked_total, 0);
    assert_eq!(s.forwarded_total, 0);
    assert_eq!(s.local_total, 0);
    assert_eq!(s.servfail_total, 0);
    assert_eq!(s.malformed_total, 0);
    assert_eq!(s.upstream_rung_current, 0);
}

#[test]
fn increments_independent() {
    let mut m = Metrics::new();
    m.inc_queries();
    m.inc_queries();
    m.inc_blocked();
    m.inc_forwarded();
    m.inc_local();
    m.inc_servfail();
    m.inc_malformed();

    let s = m.snapshot();
    assert_eq!(s.queries_total, 2);
    assert_eq!(s.blocked_total, 1);
    assert_eq!(s.forwarded_total, 1);
    assert_eq!(s.local_total, 1);
    assert_eq!(s.servfail_total, 1);
    assert_eq!(s.malformed_total, 1);
}
