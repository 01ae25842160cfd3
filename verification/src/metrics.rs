//! Daemon-wide counters.
use vstd::prelude::*;

verus! {

/// The next count: counters wrap around after `u64::MAX`.
pub open spec fn next_count(n: u64) -> u64 {
    if n == u64::MAX {
        0
    } else {
        (n + 1) as u64
    }
}

/// All daemon-wide counters.
#[derive(Debug, Clone, Copy, PartialEq, Eq, Structural)]
pub struct Metrics {
    /// DNS queries received, whatever became of them.
    pub queries_total: u64,
    /// Queries answered with a sinkhole response.
    pub blocked_total: u64,
    /// Queries forwarded to the upstream ladder.
    pub forwarded_total: u64,
    /// Queries forwarded to the local resolver.
    pub local_total: u64,
    /// Queries that ended with SERVFAIL.
    pub servfail_total: u64,
    /// Malformed datagrams received.
    pub malformed_total: u64,
    /// The ladder rung in use.
    pub upstream_rung_current: usize,
}

/// Point-in-time copy of [`Metrics`].
#[derive(Debug, Clone, Copy, PartialEq, Eq, Structural)]
pub struct MetricsSnapshot {
    /// See [`Metrics::queries_total`].
    pub queries_total: u64,
    /// See [`Metrics::blocked_total`].
    pub blocked_total: u64,
    /// See [`Metrics::forwarded_total`].
    pub forwarded_total: u64,
    /// See [`Metrics::local_total`].
    pub local_total: u64,
    /// See [`Metrics::servfail_total`].
    pub servfail_total: u64,
    /// See [`Metrics::malformed_total`].
    pub malformed_total: u64,
    /// See [`Metrics::upstream_rung_current`].
    pub upstream_rung_current: usize,
}

impl Metrics {
    /// The counters before anything was counted.
    pub open spec fn zero() -> Metrics {
        Metrics {
            queries_total: 0,
            blocked_total: 0,
            forwarded_total: 0,
            local_total: 0,
            servfail_total: 0,
            malformed_total: 0,
            upstream_rung_current: 0,
        }
    }

    /// These counters with one more query.
    pub open spec fn plus_query(self) -> Metrics {
        Metrics { queries_total: next_count(self.queries_total), ..self }
    }

    /// These counters with one more blocked query.
    pub open spec fn plus_blocked(self) -> Metrics {
        Metrics { blocked_total: next_count(self.blocked_total), ..self }
    }

    /// These counters with one more forwarded query.
    pub open spec fn plus_forwarded(self) -> Metrics {
        Metrics { forwarded_total: next_count(self.forwarded_total), ..self }
    }

    /// These counters with one more query for the local resolver.
    pub open spec fn plus_local(self) -> Metrics {
        Metrics { local_total: next_count(self.local_total), ..self }
    }

    /// These counters with one more SERVFAIL.
    pub open spec fn plus_servfail(self) -> Metrics {
        Metrics { servfail_total: next_count(self.servfail_total), ..self }
    }

    /// These counters with one more malformed datagram.
    pub open spec fn plus_malformed(self) -> Metrics {
        Metrics { malformed_total: next_count(self.malformed_total), ..self }
    }

    /// Counters at zero.
    pub fn new() -> (r: Metrics)
        ensures
            r == Metrics::zero(),
    {
        Metrics {
            queries_total: 0,
            blocked_total: 0,
            forwarded_total: 0,
            local_total: 0,
            servfail_total: 0,
            malformed_total: 0,
            upstream_rung_current: 0,
        }
    }

    /// Counts a query.
    pub fn inc_queries(&mut self)
        ensures
            *final(self) == old(self).plus_query(),
    {
        self.queries_total = self.queries_total.wrapping_add(1);
    }

    /// Counts a blocked query.
    pub fn inc_blocked(&mut self)
        ensures
            *final(self) == old(self).plus_blocked(),
    {
        self.blocked_total = self.blocked_total.wrapping_add(1);
    }

    /// Counts a forwarded query.
    pub fn inc_forwarded(&mut self)
        ensures
            *final(self) == old(self).plus_forwarded(),
    {
        self.forwarded_total = self.forwarded_total.wrapping_add(1);
    }

    /// Counts a query for the local resolver.
    pub fn inc_local(&mut self)
        ensures
            *final(self) == old(self).plus_local(),
    {
        self.local_total = self.local_total.wrapping_add(1);
    }

    /// Counts a SERVFAIL.
    pub fn inc_servfail(&mut self)
        ensures
            *final(self) == old(self).plus_servfail(),
    {
        self.servfail_total = self.servfail_total.wrapping_add(1);
    }

    /// Counts a malformed datagram.
    pub fn inc_malformed(&mut self)
        ensures
            *final(self) == old(self).plus_malformed(),
    {
        self.malformed_total = self.malformed_total.wrapping_add(1);
    }

    /// The value of every counter.
    pub fn snapshot(&self) -> (r: MetricsSnapshot)
        ensures
            r.queries_total == self.queries_total,
            r.blocked_total == self.blocked_total,
            r.forwarded_total == self.forwarded_total,
            r.local_total == self.local_total,
            r.servfail_total == self.servfail_total,
            r.malformed_total == self.malformed_total,
            r.upstream_rung_current == self.upstream_rung_current,
    {
        MetricsSnapshot {
            queries_total: self.queries_total,
            blocked_total: self.blocked_total,
            forwarded_total: self.forwarded_total,
            local_total: self.local_total,
            servfail_total: self.servfail_total,
            malformed_total: self.malformed_total,
            upstream_rung_current: self.upstream_rung_current,
        }
    }
}

impl Default for Metrics {
    fn default() -> (r: Metrics)
        ensures
            r == Metrics::zero(),
    {
        Metrics::new()
    }
}

/// Counting adds one to the counter in question, and leaves the others as they are.
pub proof fn law_counting_adds_one(a: &mut Metrics, b: &mut Metrics, c: &mut Metrics, d: &mut Metrics, e: &mut Metrics, f: &mut Metrics)
    requires
        call_ensures(Metrics::inc_queries, (a,), ()),
        call_ensures(Metrics::inc_blocked, (b,), ()),
        call_ensures(Metrics::inc_forwarded, (c,), ()),
        call_ensures(Metrics::inc_local, (d,), ()),
        call_ensures(Metrics::inc_servfail, (e,), ()),
        call_ensures(Metrics::inc_malformed, (f,), ()),
    ensures
        old(a).queries_total < u64::MAX ==> *final(a) == (Metrics {
            queries_total: (old(a).queries_total + 1) as u64,
            ..*old(a)
        }),
        old(b).blocked_total < u64::MAX ==> *final(b) == (Metrics {
            blocked_total: (old(b).blocked_total + 1) as u64,
            ..*old(b)
        }),
        old(c).forwarded_total < u64::MAX ==> *final(c) == (Metrics {
            forwarded_total: (old(c).forwarded_total + 1) as u64,
            ..*old(c)
        }),
        old(d).local_total < u64::MAX ==> *final(d) == (Metrics {
            local_total: (old(d).local_total + 1) as u64,
            ..*old(d)
        }),
        old(e).servfail_total < u64::MAX ==> *final(e) == (Metrics {
            servfail_total: (old(e).servfail_total + 1) as u64,
            ..*old(e)
        }),
        old(f).malformed_total < u64::MAX ==> *final(f) == (Metrics {
            malformed_total: (old(f).malformed_total + 1) as u64,
            ..*old(f)
        }),
{
}

/// The counters start at nothing, and a snapshot shows each of them under its own name.
pub proof fn law_snapshots_show_the_counters(m: Metrics, s: MetricsSnapshot, fresh: Metrics)
    requires
        call_ensures(Metrics::snapshot, (&m,), s),
        call_ensures(Metrics::new, (), fresh),
    ensures
        s == (MetricsSnapshot {
            queries_total: m.queries_total,
            blocked_total: m.blocked_total,
            forwarded_total: m.forwarded_total,
            local_total: m.local_total,
            servfail_total: m.servfail_total,
            malformed_total: m.malformed_total,
            upstream_rung_current: m.upstream_rung_current,
        }),
        fresh.queries_total == 0 && fresh.blocked_total == 0 && fresh.forwarded_total == 0,
        fresh.local_total == 0 && fresh.servfail_total == 0 && fresh.malformed_total == 0,
        fresh.upstream_rung_current == 0,
{
}

}
