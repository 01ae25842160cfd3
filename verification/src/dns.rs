//! What becomes of a DNS query.
//!
//! ```text
//! begin_query      canary and Private Relay, before any rule
//! decide_query     what the rules say: sinkhole, or ask upstream
//! inspect_query    the upstream answer: blocked names behind CNAMEs, private addresses
//! ```
//!
//! Each step says what has to be done next, and in the end what is answered and what is
//! recorded.  The rule engine's verdicts, and whether an address counts as private or a name
//! is exempt from rebind protection, come from outside.
use vstd::prelude::*;
use vstd::string::*;
use crate::config::{BlockAction, PrivacyConfig};
use crate::metrics::Metrics;
use crate::net::{ip_string, IpAddr};
use crate::net::ip_text;
use crate::querylog::{QueryRecord, Reason, Verdict};
use crate::querylog::{ReasonModel, RecordModel};
use crate::text::{chars_of, ends_with, same_text, string_of, to_ascii_lowercase};
use crate::text::{has_suffix, lower, texts};

verus! {

/// The name by which browsers ask whether to use DoH.
pub const BROWSER_DOH_CANARY_DOMAIN: &'static str = "use-application-dns.net";

/// The first of the two iCloud Private Relay names.
pub const PRIVATE_RELAY_DOMAIN: &'static str = "mask.icloud.com";

/// The second of the two iCloud Private Relay names.
pub const PRIVATE_RELAY_H2_DOMAIN: &'static str = "mask-h2.icloud.com";

/// The longest CNAME chain that is inspected.
pub const CNAME_DEPTH_CAP: usize = 10;

/// Type number of A records.
pub const QTYPE_A: u16 = 1;

/// Type number of AAAA records.
pub const QTYPE_AAAA: u16 = 28;

/// `s` without one dot at its end.
pub open spec fn without_dot(s: Seq<char>) -> Seq<char> {
    if s.len() > 0 && s.last() == '.' {
        s.drop_last()
    } else {
        s
    }
}

/// `s` without one dot at its end.
pub fn strip_dot(s: &str) -> (r: String)
    ensures
        r@ == without_dot(s@),
{
    let v = chars_of(s);
    let n: usize = if v.len() > 0 && v[v.len() - 1] == '.' {
        v.len() - 1
    } else {
        v.len()
    };
    let r = string_of(&v, 0, n);
    proof {
        assert(r@ =~= without_dot(s@));
    }
    r
}

/// The browser-DoH canary, in any case.
pub open spec fn canary(qname: Seq<char>) -> bool {
    lower(qname) == BROWSER_DOH_CANARY_DOMAIN@
}

/// `qname` is `domain` or a name under it, in any case.
pub open spec fn under(qname: Seq<char>, domain: Seq<char>) -> bool {
    lower(qname) == domain || has_suffix(lower(qname), "."@ + domain)
}

/// A Private Relay name.
pub open spec fn private_relay(qname: Seq<char>) -> bool {
    under(qname, PRIVATE_RELAY_DOMAIN@) || under(qname, PRIVATE_RELAY_H2_DOMAIN@)
}

/// Whether a name is the browser-DoH canary.
pub fn is_canary(qname: &str) -> (r: bool)
    ensures
        r == canary(qname@),
{
    let q = to_ascii_lowercase(qname);
    same_text(q.as_str(), BROWSER_DOH_CANARY_DOMAIN)
}

/// Whether `qname` is `domain` or a name under it.
fn is_under(qname: &str, domain: &str) -> (r: bool)
    ensures
        r == under(qname@, domain@),
{
    let q = to_ascii_lowercase(qname);
    let suffix = ".".to_owned().concat(domain);
    same_text(q.as_str(), domain) || ends_with(q.as_str(), suffix.as_str())
}

/// Whether a name is one of Private Relay.
pub fn is_private_relay(qname: &str) -> (r: bool)
    ensures
        r == private_relay(qname@),
{
    is_under(qname, PRIVATE_RELAY_DOMAIN) || is_under(qname, PRIVATE_RELAY_H2_DOMAIN)
}

// ── Answers ─────────────────────────────────────────────────────────────────

/// How a query is answered.
#[derive(Debug, Clone, Copy, PartialEq, Eq, Structural)]
pub enum Reply {
    /// The name does not exist.
    NxDomain,
    /// The name exists and has no such record.
    NoData,
    /// One A record with the unspecified address and this time to live.
    NullV4 { ttl_secs: u32 },
    /// One AAAA record with the unspecified address and this time to live.
    NullV6 { ttl_secs: u32 },
    /// What upstream answered.
    Relay,
    /// The server failed.
    ServFail,
}

/// The sinkhole's reply: the unspecified address for address queries and no data for all
/// others, or NXDOMAIN throughout.
pub open spec fn sinkhole_reply(action: BlockAction, qtype: u16, ttl_secs: u32) -> Reply {
    match action {
        BlockAction::Nxdomain => Reply::NxDomain,
        BlockAction::NullIp => if qtype == QTYPE_A {
            Reply::NullV4 { ttl_secs }
        } else if qtype == QTYPE_AAAA {
            Reply::NullV6 { ttl_secs }
        } else {
            Reply::NoData
        },
    }
}

/// The sinkhole's reply.
pub fn block_response(qtype: u16, action: BlockAction, ttl_secs: u32) -> (r: Reply)
    ensures
        r == sinkhole_reply(action, qtype, ttl_secs),
{
    match action {
        BlockAction::Nxdomain => Reply::NxDomain,
        BlockAction::NullIp => if qtype == QTYPE_A {
            Reply::NullV4 { ttl_secs }
        } else if qtype == QTYPE_AAAA {
            Reply::NullV6 { ttl_secs }
        } else {
            Reply::NoData
        },
    }
}

/// A query that is being handled.
#[derive(Debug)]
pub struct Query {
    /// The name asked for, without a dot at its end.
    pub qname: String,
    /// The type asked for.
    pub qtype: u16,
    /// When it came, in milliseconds since the Unix epoch.
    pub now_ms: u64,
    /// Who asked, where clients are logged.
    pub client: Option<IpAddr>,
}

/// The record of a query.
pub open spec fn record_of(q: Query, verdict: Verdict, reason: ReasonModel, upstream_ms: Option<u32>) -> RecordModel {
    RecordModel {
        ts_unix_ms: q.now_ms,
        qname: q.qname@,
        qtype: q.qtype,
        verdict,
        reason,
        upstream_ms,
        client: q.client,
    }
}

impl Query {
    /// The record of this query.
    fn record(&self, verdict: Verdict, reason: Reason, upstream_ms: Option<u32>) -> (r: QueryRecord)
        ensures
            r@ == record_of(*self, verdict, reason@, upstream_ms),
    {
        QueryRecord {
            ts_unix_ms: self.now_ms,
            qname: self.qname.clone(),
            qtype: self.qtype,
            verdict,
            reason,
            upstream_ms,
            client: self.client,
        }
    }
}

/// The end of a query: what is answered, and what is recorded.
#[derive(Debug)]
pub struct Handled {
    pub reply: Reply,
    pub record: QueryRecord,
}

// ── Before the rules ────────────────────────────────────────────────────────

/// What follows the arrival of a query.
#[derive(Debug)]
pub enum QueryStart {
    /// It could not be read: answer SERVFAIL, record nothing.
    Malformed,
    /// It is answered without asking the rules.
    Handled(Handled),
    /// Forward it as it is, then go on with [`finish_protected`].
    ForwardProtected(Query),
    /// Ask the rule engine, then go on with [`decide_query`].
    Decide(Query),
}

/// A query that came in: its name, type and sender as the packet gives them.
#[derive(Debug)]
pub struct Incoming {
    pub name: String,
    pub qtype: u16,
    pub source: IpAddr,
}

/// The query that an incoming one becomes.
pub open spec fn query_of(q: Query, i: Incoming, now_ms: u64, log_clients: bool) -> bool {
    &&& q.qname@ == without_dot(i.name@)
    &&& q.qtype == i.qtype
    &&& q.now_ms == now_ms
    &&& q.client == if log_clients {
        Some(i.source)
    } else {
        None
    }
}

/// The record of an incoming query that is blocked before the rules are asked.
pub open spec fn early_block(i: Incoming, now_ms: u64, log_clients: bool, reason: ReasonModel) -> RecordModel {
    RecordModel {
        ts_unix_ms: now_ms,
        qname: without_dot(i.name@),
        qtype: i.qtype,
        verdict: Verdict::Block,
        reason,
        upstream_ms: None,
        client: if log_clients {
            Some(i.source)
        } else {
            None
        },
    }
}

/// Takes in a query.  The canary and Private Relay are looked at before any rule: they are
/// matters of the protocol.
pub fn begin_query(
    metrics: &mut Metrics,
    incoming: Option<Incoming>,
    privacy: &PrivacyConfig,
    now_ms: u64,
    log_clients: bool,
) -> (r: QueryStart)
    ensures
        (match incoming {
            None => r is Malformed && *final(metrics) == old(metrics).plus_query().plus_malformed(),
            Some(i) => {
                let name = without_dot(i.name@);
                if privacy.browser_doh_canary && canary(name) {
                    &&& r matches QueryStart::Handled(h)
                    &&& h.reply == Reply::NxDomain
                    &&& h.record@ == early_block(i, now_ms, log_clients, ReasonModel::BrowserDohCanary)
                    &&& *final(metrics) == old(metrics).plus_query().plus_blocked()
                } else if private_relay(name) && privacy.block_private_relay {
                    &&& r matches QueryStart::Handled(h)
                    &&& h.reply == Reply::NoData
                    &&& h.record@ == early_block(
                        i,
                        now_ms,
                        log_clients,
                        ReasonModel::PrivateRelayBlocked,
                    )
                    &&& *final(metrics) == old(metrics).plus_query().plus_blocked()
                } else if private_relay(name) {
                    &&& r matches QueryStart::ForwardProtected(q)
                    &&& query_of(q, i, now_ms, log_clients)
                    &&& *final(metrics) == old(metrics).plus_query().plus_forwarded()
                } else {
                    &&& r matches QueryStart::Decide(q)
                    &&& query_of(q, i, now_ms, log_clients)
                    &&& *final(metrics) == old(metrics).plus_query()
                }
            },
        }),
{
    metrics.inc_queries();
    let i = match incoming {
        Some(i) => i,
        None => {
            metrics.inc_malformed();
            return QueryStart::Malformed;
        },
    };
    let q = Query {
        qname: strip_dot(i.name.as_str()),
        qtype: i.qtype,
        now_ms,
        client: if log_clients {
            Some(i.source)
        } else {
            None
        },
    };
    if privacy.browser_doh_canary && is_canary(q.qname.as_str()) {
        metrics.inc_blocked();
        let record = q.record(Verdict::Block, Reason::BrowserDohCanary, None);
        return QueryStart::Handled(Handled { reply: Reply::NxDomain, record });
    }
    if is_private_relay(q.qname.as_str()) {
        if privacy.block_private_relay {
            metrics.inc_blocked();
            let record = q.record(Verdict::Block, Reason::PrivateRelayBlocked, None);
            return QueryStart::Handled(Handled { reply: Reply::NoData, record });
        }
        metrics.inc_forwarded();
        return QueryStart::ForwardProtected(q);
    }
    QueryStart::Decide(q)
}

/// Ends a Private Relay query that was forwarded.  `elapsed_ms` is the time that upstream took.
pub fn finish_protected(metrics: &mut Metrics, q: &Query, resolved: bool, elapsed_ms: u32) -> (r: Handled)
    ensures
        r.reply == if resolved {
            Reply::Relay
        } else {
            Reply::ServFail
        },
        *final(metrics) == if resolved {
            *old(metrics)
        } else {
            old(metrics).plus_servfail()
        },
        r.record@ == record_of(
            *q,
            Verdict::Forward,
            ReasonModel::PrivateRelayProtected,
            Some(elapsed_ms),
        ),
{
    let record = q.record(Verdict::Forward, Reason::PrivateRelayProtected, Some(elapsed_ms));
    if resolved {
        Handled { reply: Reply::Relay, record }
    } else {
        metrics.inc_servfail();
        Handled { reply: Reply::ServFail, record }
    }
}

// ── The rules' verdict ──────────────────────────────────────────────────────

/// What the upstream answer has to be inspected for.
#[derive(Debug, Clone, Copy, PartialEq, Eq, Structural)]
pub struct Inspection {
    /// Blocked names behind CNAMEs.
    pub cname: bool,
    /// Private addresses.
    pub rebind: bool,
}

/// What follows the rule engine's verdict.
#[derive(Debug)]
pub enum QueryRoute {
    /// The sinkhole answers.
    Handled(Handled),
    /// Ask upstream, then go on with [`inspect_query`].
    Resolve { query: Query, verdict: Verdict, reason: Reason, inspection: Inspection },
}

/// The verdict that counts: a name that is no valid domain is forwarded untouched.
pub open spec fn effective(decision: Option<(Verdict, Reason)>) -> (Verdict, ReasonModel) {
    match decision {
        Some(d) => (d.0, d.1@),
        None => (Verdict::Forward, ReasonModel::NoMatch),
    }
}

/// What an answer has to be inspected for: a name that the user allowed may resolve to a
/// private address.
pub open spec fn inspection_for(privacy: PrivacyConfig, reason: ReasonModel) -> Inspection {
    Inspection {
        cname: privacy.cname_inspection,
        rebind: privacy.rebind_protection && !(reason is UserAllowed),
    }
}

/// Acts on the rule engine's verdict; `None` stands for a name that is no valid domain.
pub fn decide_query(
    metrics: &mut Metrics,
    q: Query,
    decision: Option<(Verdict, Reason)>,
    privacy: &PrivacyConfig,
    action: BlockAction,
    ttl_secs: u32,
) -> (r: QueryRoute)
    ensures
        ({
            let (v, why) = effective(decision);
            if v == Verdict::Block {
                &&& r matches QueryRoute::Handled(h)
                &&& h.reply == sinkhole_reply(action, q.qtype, ttl_secs)
                &&& h.record@ == record_of(q, v, why, None)
                &&& *final(metrics) == old(metrics).plus_blocked()
            } else {
                &&& r matches QueryRoute::Resolve { query, verdict, reason, inspection }
                &&& query == q
                &&& verdict == v
                &&& reason@ == why
                &&& inspection == inspection_for(*privacy, why)
                &&& *final(metrics) == *old(metrics)
            }
        }),
{
    let (verdict, reason) = match decision {
        Some(d) => d,
        None => (Verdict::Forward, Reason::NoMatch),
    };
    match verdict {
        Verdict::Block => {
            metrics.inc_blocked();
            let reply = block_response(q.qtype, action, ttl_secs);
            QueryRoute::Handled(Handled { reply, record: q.record(verdict, reason, None) })
        },
        _ => {
            let user_allowed = match &reason {
                Reason::UserAllowed => true,
                _ => false,
            };
            let inspection = Inspection {
                cname: privacy.cname_inspection,
                rebind: privacy.rebind_protection && !user_allowed,
            };
            QueryRoute::Resolve { query: q, verdict, reason, inspection }
        },
    }
}

// ── The upstream answer ─────────────────────────────────────────────────────

/// A record of an upstream answer.
#[derive(Debug)]
pub enum Answer {
    /// An A or AAAA record, and whether its address counts as private.
    Address { ip: IpAddr, private: bool },
    /// A CNAME record.
    Cname(String),
    /// Any other record.  Address hints in it are not answers.
    Other,
}

/// The CNAME targets in an answer, in order: lower case, without a dot at the end.
pub open spec fn cname_targets(answers: Seq<Answer>) -> Seq<Seq<char>>
    decreases answers.len(),
{
    if answers.len() == 0 {
        Seq::<Seq<char>>::empty()
    } else {
        let before = cname_targets(answers.drop_last());
        match answers.last() {
            Answer::Cname(t) => before.push(lower(without_dot(t@))),
            _ => before,
        }
    }
}

/// The targets that have to be put to the rule engine: all of them, or none where the chain is
/// longer than the cap.
pub open spec fn inspected_hops(answers: Seq<Answer>) -> Seq<Seq<char>> {
    if cname_targets(answers).len() > CNAME_DEPTH_CAP {
        Seq::<Seq<char>>::empty()
    } else {
        cname_targets(answers)
    }
}

/// The CNAME targets in an answer.
fn targets(answers: &Vec<Answer>) -> (r: Vec<String>)
    ensures
        texts(r@) == cname_targets(answers@),
{
    let mut r: Vec<String> = Vec::new();
    let mut i: usize = 0;
    proof {
        assert(texts(r@) =~= cname_targets(answers@.take(0)));
    }
    while i < answers.len()
        invariant
            0 <= i <= answers.len(),
            texts(r@) == cname_targets(answers@.take(i as int)),
        decreases answers.len() - i,
    {
        proof {
            assert(answers@.take(i + 1).drop_last() =~= answers@.take(i as int));
            assert(answers@.take(i + 1).last() == answers@[i as int]);
        }
        match &answers[i] {
            Answer::Cname(t) => {
                let stripped = strip_dot(t.as_str());
                let hop = to_ascii_lowercase(stripped.as_str());
                let ghost before = r@;
                let ghost text = hop@;
                r.push(hop);
                proof {
                    assert(texts(r@) =~= texts(before).push(text));
                }
            },
            _ => {},
        }
        i += 1;
    }
    proof {
        assert(answers@.take(i as int) =~= answers@);
    }
    r
}

/// Whether the chain of CNAMEs in an answer is too long to be inspected.
pub fn chain_too_long(answers: &Vec<Answer>) -> (r: bool)
    ensures
        r == (cname_targets(answers@).len() > CNAME_DEPTH_CAP),
{
    let t = targets(answers);
    proof {
        assert(texts(t@).len() == t@.len());
    }
    t.len() > CNAME_DEPTH_CAP
}

/// The targets that have to be put to the rule engine.
pub fn hops_to_inspect(answers: &Vec<Answer>) -> (r: Vec<String>)
    ensures
        texts(r@) == inspected_hops(answers@),
{
    let r = targets(answers);
    proof {
        assert(texts(r@).len() == r@.len());
    }
    if r.len() > CNAME_DEPTH_CAP {
        let none: Vec<String> = Vec::new();
        proof {
            assert(texts(none@) =~= Seq::<Seq<char>>::empty());
        }
        none
    } else {
        r
    }
}

/// The first position with a blocked hop, or the length.  A hop without a verdict is no valid
/// domain and is passed over.
pub open spec fn first_blocked(verdicts: Seq<Option<Verdict>>) -> int
    decreases verdicts.len(),
{
    if verdicts.len() == 0 || verdicts[0] == Some(Verdict::Block) {
        0
    } else {
        1 + first_blocked(verdicts.skip(1))
    }
}

proof fn lemma_first_blocked(verdicts: Seq<Option<Verdict>>, k: int)
    requires
        0 <= k <= verdicts.len(),
        k < verdicts.len() ==> verdicts[k] == Some(Verdict::Block),
        forall|j: int| 0 <= j < k ==> verdicts[j] != Some(Verdict::Block),
    ensures
        first_blocked(verdicts) == k,
    decreases verdicts.len(),
{
    if k > 0 {
        assert(verdicts[0] != Some(Verdict::Block));
        assert forall|j: int| 0 <= j < k - 1 implies verdicts.skip(1)[j] != Some(Verdict::Block) by {
            assert(verdicts[j + 1] != Some(Verdict::Block));
        }
        lemma_first_blocked(verdicts.skip(1), k - 1);
    }
}

/// The first position with a blocked hop, or the length.
fn find_blocked(verdicts: &Vec<Option<Verdict>>) -> (r: usize)
    ensures
        r == first_blocked(verdicts@),
        r <= verdicts@.len(),
{
    let mut i: usize = 0;
    while i < verdicts.len()
        invariant
            0 <= i <= verdicts.len(),
            forall|j: int| 0 <= j < i ==> verdicts@[j] != Some(Verdict::Block),
        decreases verdicts.len() - i,
    {
        match verdicts[i] {
            Some(Verdict::Block) => {
                proof {
                    lemma_first_blocked(verdicts@, i as int);
                }
                return i;
            },
            _ => {},
        }
        i += 1;
    }
    proof {
        lemma_first_blocked(verdicts@, i as int);
    }
    i
}

/// The first private address in an answer.
pub open spec fn first_private(answers: Seq<Answer>) -> Option<IpAddr>
    decreases answers.len(),
{
    if answers.len() == 0 {
        None
    } else {
        match answers[0] {
            Answer::Address { ip, private: true } => Some(ip),
            _ => first_private(answers.skip(1)),
        }
    }
}

/// The first private address in an answer.  Only A and AAAA records count.
pub fn find_rebind_offender(answers: &[Answer]) -> (r: Option<IpAddr>)
    ensures
        r == first_private(answers@),
{
    let mut i: usize = 0;
    proof {
        assert(answers@.skip(0) =~= answers@);
    }
    while i < answers.len()
        invariant
            0 <= i <= answers.len(),
            first_private(answers@) == first_private(answers@.skip(i as int)),
        decreases answers.len() - i,
    {
        proof {
            assert(answers@.skip(i as int)[0] == answers@[i as int]);
            assert(answers@.skip(i as int).skip(1) =~= answers@.skip(i + 1));
        }
        match &answers[i] {
            Answer::Address { ip, private } => {
                if *private {
                    return Some(*ip);
                }
            },
            _ => {},
        }
        i += 1;
    }
    None
}

/// What inspection found.
pub enum Finding {
    /// Upstream did not answer.
    Unanswered,
    /// The hop at this position of the chain is blocked.
    Cloaked(int),
    /// This private address was found.
    Rebind(IpAddr),
    /// Nothing.
    Clean,
}

/// What inspection finds: a blocked hop first, then a private address under a name that is not
/// exempt.
pub open spec fn finding(
    answers: Option<Seq<Answer>>,
    verdicts: Seq<Option<Verdict>>,
    inspection: Inspection,
    exempt: bool,
) -> Finding {
    match answers {
        None => Finding::Unanswered,
        Some(a) => if inspection.cname && first_blocked(verdicts) < verdicts.len() {
            Finding::Cloaked(first_blocked(verdicts))
        } else if inspection.rebind && !exempt && first_private(a) is Some {
            Finding::Rebind(first_private(a)->0)
        } else {
            Finding::Clean
        },
    }
}

/// The answers that an optional list holds.
pub open spec fn answer_seq(answers: Option<&Vec<Answer>>) -> Option<Seq<Answer>> {
    match answers {
        Some(a) => Some(a@),
        None => None,
    }
}

/// The end of a query that was put upstream: one that is blocked after all is remembered without
/// the time that upstream took.
pub open spec fn handled_as(
    r: Handled,
    q: Query,
    verdict: Verdict,
    reason: ReasonModel,
    f: Finding,
    hops: Seq<Seq<char>>,
    sinkhole: Reply,
    elapsed_ms: u32,
) -> bool {
    match f {
        Finding::Unanswered => r.reply == Reply::ServFail && r.record@ == record_of(
            q,
            verdict,
            reason,
            Some(elapsed_ms),
        ),
        Finding::Cloaked(i) => r.reply == sinkhole && r.record@ == record_of(
            q,
            Verdict::Block,
            ReasonModel::CnameCloaked(hops[i]),
            None,
        ),
        Finding::Rebind(ip) => r.reply == Reply::NoData && r.record@ == record_of(
            q,
            Verdict::Block,
            ReasonModel::RebindBlocked(ip_text(ip)),
            None,
        ),
        Finding::Clean => r.reply == Reply::Relay && r.record@ == record_of(
            q,
            verdict,
            reason,
            Some(elapsed_ms),
        ),
    }
}

/// The counters after a query that was put upstream.
pub open spec fn counted_as(before: Metrics, f: Finding) -> Metrics {
    match f {
        Finding::Unanswered => before.plus_servfail().plus_forwarded(),
        Finding::Cloaked(_) => before.plus_blocked(),
        Finding::Rebind(_) => before.plus_blocked(),
        Finding::Clean => before.plus_forwarded(),
    }
}

/// Ends a query that was put upstream: `answers` is what came back, if anything, and
/// `hop_verdicts` what the rule engine says of each of [`hops_to_inspect`], with `None` for a
/// hop that is no valid domain.
pub fn inspect_query(
    metrics: &mut Metrics,
    q: &Query,
    verdict: Verdict,
    reason: Reason,
    inspection: Inspection,
    answers: Option<&Vec<Answer>>,
    hop_verdicts: &Vec<Option<Verdict>>,
    exempt: bool,
    action: BlockAction,
    ttl_secs: u32,
    elapsed_ms: u32,
) -> (r: Handled)
    requires
        inspection.cname ==> (answers matches Some(a) ==> hop_verdicts@.len() == inspected_hops(
            a@,
        ).len()),
    ensures
        handled_as(
            r,
            *q,
            verdict,
            reason@,
            finding(answer_seq(answers), hop_verdicts@, inspection, exempt),
            inspected_hops(answer_seq(answers)->0),
            sinkhole_reply(action, q.qtype, ttl_secs),
            elapsed_ms,
        ),
        *final(metrics) == counted_as(
            *old(metrics),
            finding(answer_seq(answers), hop_verdicts@, inspection, exempt),
        ),
{
    let found = match answers {
        None => {
            metrics.inc_servfail();
            metrics.inc_forwarded();
            let record = q.record(verdict, reason, Some(elapsed_ms));
            return Handled { reply: Reply::ServFail, record };
        },
        Some(a) => a,
    };
    if inspection.cname {
        let at = find_blocked(hop_verdicts);
        if at < hop_verdicts.len() {
            let hops = hops_to_inspect(found);
            proof {
                assert(texts(hops@)[at as int] == hops@[at as int]@);
            }
            metrics.inc_blocked();
            let why = Reason::CnameCloaked { hop: hops[at].clone() };
            return Handled {
                reply: block_response(q.qtype, action, ttl_secs),
                record: q.record(Verdict::Block, why, None),
            };
        }
    }
    if inspection.rebind && !exempt {
        match find_rebind_offender(found.as_slice()) {
            Some(ip) => {
                metrics.inc_blocked();
                let why = Reason::RebindBlocked { addr: ip_string(ip) };
                return Handled {
                    reply: Reply::NoData,
                    record: q.record(Verdict::Block, why, None),
                };
            },
            None => {},
        }
    }
    metrics.inc_forwarded();
    Handled { reply: Reply::Relay, record: q.record(verdict, reason, Some(elapsed_ms)) }
}

// ── Listeners ───────────────────────────────────────────────────────────────

/// The addresses that are listened on.
#[derive(Debug)]
pub struct BoundAddrs {
    pub udp: Vec<crate::net::SocketAddr>,
    pub tcp: Vec<crate::net::SocketAddr>,
}

/// The addresses on which a network guard listens, or the error for the first text that is no
/// address.
pub fn bind_guard_listeners(lan_ips: &Vec<String>) -> (r: Result<Vec<crate::net::SocketAddr>, String>)
    ensures
        (match r {
            Ok(a) => a@.len() == lan_ips@.len() && forall|i: int|
                0 <= i < a@.len() ==> (#[trigger] a@[i]).port == 53 && crate::net::ip_value(
                    lan_ips@[i]@,
                ) == Some(a@[i].ip),
            Err(e) => exists|i: int|
                0 <= i < lan_ips@.len() && crate::net::ip_value(#[trigger] lan_ips@[i]@) is None && (forall|
                    j: int,
                |
                    0 <= j < i ==> crate::net::ip_value(#[trigger] lan_ips@[j]@) is Some) && e@
                    == "invalid IP: "@ + lan_ips@[i]@,
        }),
{
    let mut r: Vec<crate::net::SocketAddr> = Vec::new();
    let mut i: usize = 0;
    while i < lan_ips.len()
        invariant
            0 <= i <= lan_ips.len(),
            r@.len() == i,
            forall|j: int|
                0 <= j < i ==> (#[trigger] r@[j]).port == 53 && crate::net::ip_value(lan_ips@[j]@)
                    == Some(r@[j].ip),
        decreases lan_ips.len() - i,
    {
        match crate::net::parse_ip(lan_ips[i].as_str()) {
            Some(ip) => r.push(crate::net::SocketAddr { ip, port: 53 }),
            None => {
                let e = "invalid IP: ".to_owned().concat(lan_ips[i].as_str());
                proof {
                    assert forall|j: int| 0 <= j < i implies crate::net::ip_value(
                        #[trigger] lan_ips@[j]@,
                    ) is Some by {
                        assert(r@[j].port == 53);
                    }
                }
                return Err(e);
            },
        }
        i += 1;
    }
    Ok(r)
}

// ── Laws ────────────────────────────────────────────────────────────────────

/// A blocked hop decides before a private address does.
pub proof fn law_cloaking_comes_before_rebinding(
    answers: Seq<Answer>,
    verdicts: Seq<Option<Verdict>>,
    inspection: Inspection,
    exempt: bool,
    i: int,
)
    requires
        inspection.cname,
        0 <= i < verdicts.len(),
        verdicts[i] == Some(Verdict::Block),
    ensures
        finding(Some(answers), verdicts, inspection, exempt) is Cloaked,
        first_blocked(verdicts) <= i,
    decreases verdicts.len(),
{
    lemma_blocked_found(verdicts, i);
}

proof fn lemma_blocked_found(verdicts: Seq<Option<Verdict>>, i: int)
    requires
        0 <= i < verdicts.len(),
        verdicts[i] == Some(Verdict::Block),
    ensures
        0 <= first_blocked(verdicts) <= i,
    decreases verdicts.len(),
{
    if i > 0 && verdicts[0] != Some(Verdict::Block) {
        assert(verdicts.skip(1)[i - 1] == verdicts[i]);
        lemma_blocked_found(verdicts.skip(1), i - 1);
    }
}

proof fn lemma_private_found(answers: Seq<Answer>, i: int)
    requires
        0 <= i < answers.len(),
        answers[i] matches Answer::Address { private: true, .. },
    ensures
        first_private(answers) is Some,
    decreases answers.len(),
{
    if i > 0 {
        assert(answers.skip(1)[i - 1] == answers[i]);
        lemma_private_found(answers.skip(1), i - 1);
    }
}

/// An answer with a private address in it is not relayed under a name that is not exempt, while
/// there is protection against rebinding: the query is recorded as blocked.
pub proof fn law_private_answers_are_not_relayed(
    r: Handled,
    q: Query,
    verdict: Verdict,
    reason: ReasonModel,
    inspection: Inspection,
    answers: Seq<Answer>,
    verdicts: Seq<Option<Verdict>>,
    action: BlockAction,
    ttl_secs: u32,
    elapsed_ms: u32,
    i: int,
)
    requires
        handled_as(
            r,
            q,
            verdict,
            reason,
            finding(Some(answers), verdicts, inspection, false),
            inspected_hops(answers),
            sinkhole_reply(action, q.qtype, ttl_secs),
            elapsed_ms,
        ),
        inspection.rebind,
        0 <= i < answers.len(),
        answers[i] matches Answer::Address { private: true, .. },
    ensures
        r.reply != Reply::Relay,
        r.record@.verdict == Verdict::Block,
{
    lemma_private_found(answers, i);
}

/// An answer that leads to a blocked name is not relayed, while chains are inspected: the
/// sinkhole answers, and the query is recorded as blocked.
pub proof fn law_cloaked_answers_are_not_relayed(
    r: Handled,
    q: Query,
    verdict: Verdict,
    reason: ReasonModel,
    inspection: Inspection,
    answers: Seq<Answer>,
    verdicts: Seq<Option<Verdict>>,
    exempt: bool,
    action: BlockAction,
    ttl_secs: u32,
    elapsed_ms: u32,
    i: int,
)
    requires
        handled_as(
            r,
            q,
            verdict,
            reason,
            finding(Some(answers), verdicts, inspection, exempt),
            inspected_hops(answers),
            sinkhole_reply(action, q.qtype, ttl_secs),
            elapsed_ms,
        ),
        inspection.cname,
        0 <= i < verdicts.len(),
        verdicts[i] == Some(Verdict::Block),
    ensures
        r.reply == sinkhole_reply(action, q.qtype, ttl_secs),
        r.record@.verdict == Verdict::Block,
        r.record@.reason is CnameCloaked,
{
    lemma_blocked_found(verdicts, i);
}

/// The queries of which the counters do not say what became of them.
pub open spec fn unaccounted(m: Metrics) -> int {
    m.queries_total - m.blocked_total - m.forwarded_total - m.malformed_total
}

/// Every query is counted once more: as malformed, as blocked or as forwarded, on each way
/// through [`begin_query`], [`decide_query`] and [`inspect_query`], so long as no counter wraps.
pub proof fn law_every_query_is_accounted_for(m: Metrics, f: Finding)
    requires
        m.queries_total < u64::MAX,
        m.blocked_total < u64::MAX,
        m.forwarded_total < u64::MAX,
        m.malformed_total < u64::MAX,
    ensures
        unaccounted(m.plus_query().plus_malformed()) == unaccounted(m),
        unaccounted(m.plus_query().plus_blocked()) == unaccounted(m),
        unaccounted(m.plus_query().plus_forwarded()) == unaccounted(m),
        unaccounted(m.plus_query().plus_forwarded().plus_servfail()) == unaccounted(m),
        unaccounted(counted_as(m.plus_query(), f)) == unaccounted(m),
{
}

/// A name that the user allowed is never refused over a private address.
pub proof fn law_user_allowed_is_never_rebind_blocked(
    privacy: PrivacyConfig,
    answers: Option<Seq<Answer>>,
    verdicts: Seq<Option<Verdict>>,
    exempt: bool,
)
    ensures
        !(finding(answers, verdicts, inspection_for(privacy, ReasonModel::UserAllowed), exempt)
            is Rebind),
{
}

/// A query that the rules let pass and that is blocked over its answer is remembered without the
/// time that upstream took, as any other that is blocked.
pub proof fn law_blocked_queries_have_no_upstream_time(
    r: Handled,
    q: Query,
    verdict: Verdict,
    reason: ReasonModel,
    f: Finding,
    hops: Seq<Seq<char>>,
    sinkhole: Reply,
    elapsed_ms: u32,
)
    requires
        verdict != Verdict::Block,
        handled_as(r, q, verdict, reason, f, hops, sinkhole, elapsed_ms),
    ensures
        r.record@.verdict == Verdict::Block <==> r.record@.upstream_ms is None,
{
}

/// A chain longer than the cap is forwarded uninspected: no hop of it is put to the rules.
pub proof fn law_long_chains_are_not_inspected(answers: Seq<Answer>)
    requires
        cname_targets(answers).len() > CNAME_DEPTH_CAP,
    ensures
        inspected_hops(answers).len() == 0,
{
}

/// The sinkhole never hands out a real address, whatever is asked: it answers an address
/// query with the unspecified address or NXDOMAIN, and any other query without data.
pub proof fn law_sinkhole_hides_the_name(action: BlockAction, qtype: u16, ttl_secs: u32)
    ensures
        sinkhole_reply(action, qtype, ttl_secs) != Reply::Relay,
        qtype != QTYPE_A && qtype != QTYPE_AAAA && action == BlockAction::NullIp ==> sinkhole_reply(
            action,
            qtype,
            ttl_secs,
        ) == Reply::NoData,
{
}

// ── What the steps mean ─────────────────────────────────────────────────────

proof fn lemma_first_private(answers: Seq<Answer>)
    ensures
        first_private(answers) matches Some(ip) ==> exists|k: int|
            0 <= k < answers.len() && #[trigger] answers[k] == (Answer::Address { ip, private: true })
                && forall|j: int| 0 <= j < k ==> !is_private(#[trigger] answers[j]),
        first_private(answers) is None ==> forall|j: int|
            0 <= j < answers.len() ==> !is_private(#[trigger] answers[j]),
    decreases answers.len(),
{
    if answers.len() > 0 {
        let rest = answers.skip(1);
        lemma_first_private(rest);
        if is_private(answers[0]) {
            assert(answers[0] == (Answer::Address { ip: answers[0]->ip, private: true }));
        } else {
            match first_private(rest) {
                Some(ip) => {
                    let k = choose|k: int|
                        0 <= k < rest.len() && #[trigger] rest[k] == (Answer::Address { ip, private: true })
                            && forall|j: int| 0 <= j < k ==> !is_private(#[trigger] rest[j]);
                    assert(answers[k + 1] == rest[k]);
                    assert forall|j: int| 0 <= j < k + 1 implies !is_private(#[trigger] answers[j]) by {
                        if j > 0 {
                            assert(rest[j - 1] == answers[j]);
                        }
                    }
                },
                None => {
                    assert forall|j: int| 0 <= j < answers.len() implies !is_private(
                        #[trigger] answers[j],
                    ) by {
                        if j > 0 {
                            assert(rest[j - 1] == answers[j]);
                        }
                    }
                },
            }
        }
    }
}

/// A record with an address that counts as private.
pub open spec fn is_private(a: Answer) -> bool {
    a is Address && a->private
}

/// An address offends only where a record of the answer gives it as private, and the first such
/// record decides; where there is none, no address offends.
pub proof fn law_only_private_addresses_offend(answers: &[Answer], r: Option<IpAddr>)
    requires
        call_ensures(find_rebind_offender, (answers,), r),
    ensures
        r matches Some(ip) ==> exists|k: int|
            0 <= k < answers@.len() && #[trigger] answers@[k] == (Answer::Address { ip, private: true })
                && forall|j: int|
                0 <= j < k ==> !(#[trigger] answers@[j] is Address && answers@[j]->private),
        r is None <==> forall|j: int|
            0 <= j < answers@.len() ==> !(#[trigger] answers@[j] is Address && answers@[j]->private),
{
    lemma_first_private(answers@);
    match r {
        Some(ip) => {
            let k = choose|k: int|
                0 <= k < answers@.len() && #[trigger] answers@[k] == (Answer::Address { ip, private: true })
                    && forall|j: int| 0 <= j < k ==> !is_private(#[trigger] answers@[j]);
            assert(answers@[k] is Address);
            assert forall|j: int| 0 <= j < k implies !(#[trigger] answers@[j] is Address
                && answers@[j]->private) by {
                assert(!is_private(answers@[j]));
            }
        },
        None => {
            assert forall|j: int| 0 <= j < answers@.len() implies !(#[trigger] answers@[j] is Address
                && answers@[j]->private) by {
                assert(!is_private(answers@[j]));
            }
        },
    }
}

/// No hop has the verdict to block.
pub open spec fn no_hop_blocked(verdicts: Seq<Option<Verdict>>) -> bool {
    forall|j: int| 0 <= j < verdicts.len() ==> #[trigger] verdicts[j] != Some(Verdict::Block)
}

/// No record of the answer gives a private address.
pub open spec fn no_private_address(answers: Seq<Answer>) -> bool {
    forall|j: int| 0 <= j < answers.len() ==> !(#[trigger] answers[j] is Address && answers[j]->private)
}

proof fn lemma_none_blocked(verdicts: Seq<Option<Verdict>>)
    ensures
        0 <= first_blocked(verdicts) <= verdicts.len(),
        no_hop_blocked(verdicts) <==> first_blocked(verdicts) == verdicts.len(),
        first_blocked(verdicts) < verdicts.len() ==> verdicts[first_blocked(verdicts)] == Some(
            Verdict::Block,
        ),
        forall|j: int|
            0 <= j < first_blocked(verdicts) ==> #[trigger] verdicts[j] != Some(Verdict::Block),
    decreases verdicts.len(),
{
    if verdicts.len() > 0 {
        let rest = verdicts.skip(1);
        lemma_none_blocked(rest);
        assert forall|j: int| 0 <= j < first_blocked(verdicts) implies #[trigger] verdicts[j] != Some(
            Verdict::Block,
        ) by {
            if j > 0 {
                assert(rest[j - 1] == verdicts[j]);
            }
        }
        if verdicts[0] != Some(Verdict::Block) {
            if no_hop_blocked(verdicts) {
                assert forall|j: int| 0 <= j < rest.len() implies #[trigger] rest[j] != Some(
                    Verdict::Block,
                ) by {
                    assert(rest[j] == verdicts[j + 1]);
                }
            }
            if first_blocked(rest) < rest.len() {
                assert(rest[first_blocked(rest)] == verdicts[first_blocked(verdicts)]);
            }
        }
    }
}

/// The record of a query tells who asked for what, and when.
pub open spec fn tells_of(rec: QueryRecord, q: Query) -> bool {
    &&& rec.qname@ == q.qname@
    &&& rec.qtype == q.qtype
    &&& rec.ts_unix_ms == q.now_ms
    &&& rec.client == q.client
}

/// An answer in which nothing is found is relayed, and the query is recorded with the verdict and
/// the reason of the rules and the time that upstream took.  Nothing is found where no hop is
/// blocked or chains are not inspected, and no address is private, or the name is exempt, or there
/// is no protection against rebinding.
pub proof fn law_clean_answers_are_relayed(
    m: &mut Metrics,
    q: &Query,
    verdict: Verdict,
    reason: Reason,
    inspection: Inspection,
    answers: &Vec<Answer>,
    hops: &Vec<Option<Verdict>>,
    exempt: bool,
    action: BlockAction,
    ttl_secs: u32,
    elapsed_ms: u32,
    r: Handled,
)
    requires
        call_ensures(
            inspect_query,
            (m, q, verdict, reason, inspection, Some(answers), hops, exempt, action, ttl_secs, elapsed_ms),
            r,
        ),
        !inspection.cname || no_hop_blocked(hops@),
        !inspection.rebind || exempt || no_private_address(answers@),
    ensures
        r.reply == Reply::Relay,
        r.record.verdict == verdict,
        r.record.reason@ == reason@,
        r.record.upstream_ms == Some(elapsed_ms),
        tells_of(r.record, *q),
{
    lemma_none_blocked(hops@);
    lemma_first_private(answers@);
    if first_private(answers@) is Some {
        let ip = first_private(answers@)->0;
        let k = choose|k: int|
            0 <= k < answers@.len() && #[trigger] answers@[k] == (Answer::Address { ip, private: true })
                && forall|j: int| 0 <= j < k ==> !is_private(#[trigger] answers@[j]);
        assert(answers@[k] is Address);
    }
}

/// A query without an answer fails, and is recorded with the verdict and the reason of the rules.
pub proof fn law_unanswered_queries_fail(
    m: &mut Metrics,
    q: &Query,
    verdict: Verdict,
    reason: Reason,
    inspection: Inspection,
    hops: &Vec<Option<Verdict>>,
    exempt: bool,
    action: BlockAction,
    ttl_secs: u32,
    elapsed_ms: u32,
    r: Handled,
)
    requires
        call_ensures(
            inspect_query,
            (m, q, verdict, reason, inspection, None, hops, exempt, action, ttl_secs, elapsed_ms),
            r,
        ),
    ensures
        r.reply == Reply::ServFail,
        r.record.verdict == verdict,
        r.record.reason@ == reason@,
        r.record.upstream_ms == Some(elapsed_ms),
        tells_of(r.record, *q),
{
}

/// Where the first blocked hop of an inspected chain stands at `k`, the query is answered as the
/// sinkhole answers a blocked name, and recorded as blocked over just that hop.
pub proof fn law_the_first_blocked_hop_is_blamed(
    m: &mut Metrics,
    q: &Query,
    verdict: Verdict,
    reason: Reason,
    inspection: Inspection,
    answers: &Vec<Answer>,
    hops: &Vec<Option<Verdict>>,
    exempt: bool,
    action: BlockAction,
    ttl_secs: u32,
    elapsed_ms: u32,
    r: Handled,
    names: Vec<String>,
    reply: Reply,
    k: int,
)
    requires
        call_ensures(
            inspect_query,
            (m, q, verdict, reason, inspection, Some(answers), hops, exempt, action, ttl_secs, elapsed_ms),
            r,
        ),
        call_ensures(hops_to_inspect, (answers,), names),
        call_ensures(block_response, (q.qtype, action, ttl_secs), reply),
        names@.len() == hops@.len(),
        inspection.cname,
        0 <= k < hops@.len(),
        hops@[k] == Some(Verdict::Block),
        forall|j: int| 0 <= j < k ==> #[trigger] hops@[j] != Some(Verdict::Block),
    ensures
        r.reply == reply,
        r.reply != Reply::Relay,
        r.record.verdict == Verdict::Block,
        r.record.reason@ == ReasonModel::CnameCloaked(names@[k]@),
        r.record.upstream_ms is None,
        tells_of(r.record, *q),
{
    lemma_none_blocked(hops@);
    assert(texts(names@)[k] == names@[k]@);
}

/// Where no hop is blocked and the first private address of the answer is `ip`, a query under
/// protection is answered without data, and recorded as blocked over just that address.
pub proof fn law_the_first_private_address_is_blamed(
    m: &mut Metrics,
    q: &Query,
    verdict: Verdict,
    reason: Reason,
    inspection: Inspection,
    answers: &Vec<Answer>,
    hops: &Vec<Option<Verdict>>,
    action: BlockAction,
    ttl_secs: u32,
    elapsed_ms: u32,
    r: Handled,
    ip: IpAddr,
    k: int,
)
    requires
        call_ensures(
            inspect_query,
            (m, q, verdict, reason, inspection, Some(answers), hops, false, action, ttl_secs, elapsed_ms),
            r,
        ),
        !inspection.cname || no_hop_blocked(hops@),
        inspection.rebind,
        0 <= k < answers@.len(),
        answers@[k] == (Answer::Address { ip, private: true }),
        forall|j: int| 0 <= j < k ==> !(#[trigger] answers@[j] is Address && answers@[j]->private),
    ensures
        r.reply == Reply::NoData,
        r.record.verdict == Verdict::Block,
        r.record.reason@ == ReasonModel::RebindBlocked(ip_text(ip)),
        r.record.upstream_ms is None,
        tells_of(r.record, *q),
{
    lemma_none_blocked(hops@);
    lemma_first_private(answers@);
    lemma_private_found(answers@, k);
    let found = first_private(answers@)->0;
    let i = choose|i: int|
        0 <= i < answers@.len() && #[trigger] answers@[i] == (Answer::Address {
            ip: found,
            private: true,
        }) && forall|j: int| 0 <= j < i ==> !is_private(#[trigger] answers@[j]);
    if i < k {
        assert(answers@[i] is Address);
    }
    if k < i {
        assert(is_private(answers@[k]));
    }
}

/// Of the counters only those move that say what became of the query: one that is relayed counts
/// as forwarded, one that is blocked as blocked, and one that fails as forwarded and as failed.
pub proof fn law_the_right_counter_moves(
    m: &mut Metrics,
    q: &Query,
    verdict: Verdict,
    reason: Reason,
    inspection: Inspection,
    answers: Option<&Vec<Answer>>,
    hops: &Vec<Option<Verdict>>,
    exempt: bool,
    action: BlockAction,
    ttl_secs: u32,
    elapsed_ms: u32,
    r: Handled,
)
    requires
        call_ensures(
            inspect_query,
            (m, q, verdict, reason, inspection, answers, hops, exempt, action, ttl_secs, elapsed_ms),
            r,
        ),
        verdict != Verdict::Block,
        old(m).forwarded_total < u64::MAX,
        old(m).blocked_total < u64::MAX,
        old(m).servfail_total < u64::MAX,
    ensures
        final(m).queries_total == old(m).queries_total,
        final(m).local_total == old(m).local_total,
        final(m).malformed_total == old(m).malformed_total,
        final(m).upstream_rung_current == old(m).upstream_rung_current,
        r.record.verdict == Verdict::Block ==> final(m).blocked_total == old(m).blocked_total + 1
            && final(m).forwarded_total == old(m).forwarded_total && final(m).servfail_total == old(
            m,
        ).servfail_total,
        r.record.verdict != Verdict::Block ==> final(m).blocked_total == old(m).blocked_total
            && final(m).forwarded_total == old(m).forwarded_total + 1 && final(m).servfail_total
            == old(m).servfail_total + if r.reply == Reply::ServFail {
            1int
        } else {
            0int
        },
{
}

/// A chain starts empty, and grows by the target of each CNAME record and by nothing else.  A
/// target is put to the rules in lower case and without the dot at its end.
pub proof fn law_chains_are_followed_in_order(
    answers: &Vec<Answer>,
    more: &Vec<Answer>,
    last: Answer,
    r: Vec<String>,
    s: Vec<String>,
)
    requires
        call_ensures(hops_to_inspect, (answers,), r),
        call_ensures(hops_to_inspect, (more,), s),
        more@ == answers@.push(last),
        cname_count(more@) <= 10,
    ensures
        answers@.len() == 0 ==> r@.len() == 0,
        !(last is Cname) ==> texts(s@) == texts(r@),
        last matches Answer::Cname(t) ==> s@.len() == r@.len() + 1 && (forall|i: int|
            0 <= i < r@.len() ==> #[trigger] s@[i]@ == r@[i]@) && s@.last()@ == lower(
            if t@.len() > 0 && t@.last() == '.' {
                t@.take(t@.len() - 1)
            } else {
                t@
            },
        ),
{
    assert(more@.drop_last() =~= answers@);
    assert(more@.last() == last);
    lemma_cname_count(answers@);
    lemma_cname_count(more@);
    assert(texts(r@).len() == r@.len());
    assert(texts(s@).len() == s@.len());
    if answers@.len() == 0 {
        assert(cname_targets(answers@) =~= Seq::<Seq<char>>::empty());
    }
    match last {
        Answer::Cname(t) => {
            if t@.len() > 0 {
                assert(t@.drop_last() =~= t@.take(t@.len() - 1));
            }
            assert forall|i: int| 0 <= i < r@.len() implies #[trigger] s@[i]@ == r@[i]@ by {
                assert(texts(s@)[i] == s@[i]@);
                assert(texts(r@)[i] == r@[i]@);
            }
            assert(texts(s@).last() == s@.last()@);
        },
        _ => {},
    }
}

/// The number of CNAME records in an answer.
pub open spec fn cname_count(answers: Seq<Answer>) -> nat
    decreases answers.len(),
{
    if answers.len() == 0 {
        0
    } else {
        cname_count(answers.drop_last()) + if answers.last() is Cname {
            1nat
        } else {
            0nat
        }
    }
}

proof fn lemma_cname_count(answers: Seq<Answer>)
    ensures
        cname_targets(answers).len() == cname_count(answers),
    decreases answers.len(),
{
    if answers.len() > 0 {
        lemma_cname_count(answers.drop_last());
    }
}

/// Up to ten CNAMEs are followed, each of them; a longer chain is not followed at all, and only
/// such a one is called too long.
pub proof fn law_ten_hops_are_followed(answers: &Vec<Answer>, r: Vec<String>, long: bool)
    requires
        call_ensures(hops_to_inspect, (answers,), r),
        call_ensures(chain_too_long, (answers,), long),
    ensures
        long <==> cname_count(answers@) > 10,
        r@.len() == if long {
            0
        } else {
            cname_count(answers@)
        },
{
    lemma_cname_count(answers@);
    assert(texts(r@).len() == r@.len());
}

/// The sinkhole answers an address query with the unspecified address of the same family and the
/// configured time to live, and any other query without data; or it denies the name throughout.
pub proof fn law_sinkhole_answers(qtype: u16, action: BlockAction, ttl_secs: u32, r: Reply)
    requires
        call_ensures(block_response, (qtype, action, ttl_secs), r),
    ensures
        r == Reply::NxDomain <==> action == BlockAction::Nxdomain,
        r == (Reply::NullV4 { ttl_secs }) <==> action == BlockAction::NullIp && qtype == 1,
        r == (Reply::NullV6 { ttl_secs }) <==> action == BlockAction::NullIp && qtype == 28,
        r == Reply::NoData <==> action == BlockAction::NullIp && qtype != 1 && qtype != 28,
{
}

/// A dot at the end of a name is taken off, and nothing else is.
pub proof fn law_one_dot_is_taken_off(s: &str, r: String)
    requires
        call_ensures(strip_dot, (s,), r),
    ensures
        s@ == r@ || s@ == r@.push('.'),
        s@ == r@ ==> s@.len() == 0 || s@.last() != '.',
{
    if s@.len() > 0 && s@.last() == '.' {
        assert(s@ =~= s@.drop_last().push('.'));
    }
}

/// The canary is one name, in any case; Private Relay is two names and those under them.
pub proof fn law_which_names_are_special(qname: &str, c: bool, p: bool)
    requires
        call_ensures(is_canary, (qname,), c),
        call_ensures(is_private_relay, (qname,), p),
    ensures
        c <==> lower(qname@) == "use-application-dns.net"@,
        p <==> lower(qname@) == "mask.icloud.com"@ || lower(qname@) == "mask-h2.icloud.com"@ || (
        exists|host: Seq<char>| #[trigger] (host + ".mask.icloud.com"@) == lower(qname@)) || (exists|
            host: Seq<char>,
        | #[trigger] (host + ".mask-h2.icloud.com"@) == lower(qname@)),
{
    let q = lower(qname@);
    reveal_strlit(".");
    reveal_strlit("mask.icloud.com");
    reveal_strlit(".mask.icloud.com");
    reveal_strlit("mask-h2.icloud.com");
    reveal_strlit(".mask-h2.icloud.com");
    assert("."@ + "mask.icloud.com"@ =~= ".mask.icloud.com"@);
    assert("."@ + "mask-h2.icloud.com"@ =~= ".mask-h2.icloud.com"@);
    lemma_suffix(q, ".mask.icloud.com"@);
    lemma_suffix(q, ".mask-h2.icloud.com"@);
}

proof fn lemma_suffix(s: Seq<char>, p: Seq<char>)
    ensures
        has_suffix(s, p) <==> exists|host: Seq<char>| #[trigger] (host + p) == s,
{
    if has_suffix(s, p) {
        assert(s.take(s.len() - p.len()) + p =~= s);
    }
    if exists|host: Seq<char>| #[trigger] (host + p) == s {
        let host = choose|host: Seq<char>| #[trigger] (host + p) == s;
        assert(s.skip(s.len() - p.len()) =~= p);
    }
}

/// A query that cannot be read is counted as malformed and nothing else is done with it.  The
/// canary is denied where that is configured; Private Relay is answered without data where it is
/// blocked and forwarded where it is not; every other query is put to the rules.  What is handed
/// on or recorded tells who asked for what, the client only where clients are logged.
pub proof fn law_queries_are_sorted(
    m: &mut Metrics,
    incoming: Option<Incoming>,
    privacy: &PrivacyConfig,
    now_ms: u64,
    log_clients: bool,
    r: QueryStart,
    name: &str,
    c: bool,
    p: bool,
)
    requires
        call_ensures(begin_query, (m, incoming, privacy, now_ms, log_clients), r),
        incoming matches Some(i) ==> name@ == (if i.name@.len() > 0 && i.name@.last() == '.' {
            i.name@.take(i.name@.len() - 1)
        } else {
            i.name@
        }),
        call_ensures(is_canary, (name,), c),
        call_ensures(is_private_relay, (name,), p),
        old(m).queries_total < u64::MAX,
        old(m).blocked_total < u64::MAX,
        old(m).forwarded_total < u64::MAX,
        old(m).malformed_total < u64::MAX,
    ensures
        r is Malformed <==> incoming is None,
        incoming is Some ==> {
            &&& r is Handled <==> (privacy.browser_doh_canary && c) || (p && privacy.block_private_relay)
            &&& r is ForwardProtected <==> !(privacy.browser_doh_canary && c) && p
                && !privacy.block_private_relay
            &&& r is Decide <==> !(privacy.browser_doh_canary && c) && !p
        },
        r matches QueryStart::Handled(h) ==> {
            let i = incoming->0;
            &&& h.record.verdict == Verdict::Block
            &&& h.record.upstream_ms is None
            &&& h.record.qname@ == name@
            &&& h.record.qtype == i.qtype
            &&& h.record.ts_unix_ms == now_ms
            &&& h.record.client == if log_clients {
                Some(i.source)
            } else {
                None
            }
            &&& if privacy.browser_doh_canary && c {
                h.reply == Reply::NxDomain && h.record.reason@ is BrowserDohCanary
            } else {
                h.reply == Reply::NoData && h.record.reason@ is PrivateRelayBlocked
            }
        },
        (r is ForwardProtected || r is Decide) ==> {
            let i = incoming->0;
            let q = if r is Decide {
                r->Decide_0
            } else {
                r->ForwardProtected_0
            };
            &&& q.qname@ == name@
            &&& q.qtype == i.qtype
            &&& q.now_ms == now_ms
            &&& q.client == if log_clients {
                Some(i.source)
            } else {
                None
            }
        },
        final(m).queries_total == old(m).queries_total + 1,
        final(m).malformed_total == old(m).malformed_total + if r is Malformed {
            1int
        } else {
            0int
        },
        final(m).blocked_total == old(m).blocked_total + if r is Handled {
            1int
        } else {
            0int
        },
        final(m).forwarded_total == old(m).forwarded_total + if r is ForwardProtected {
            1int
        } else {
            0int
        },
        final(m).servfail_total == old(m).servfail_total,
        final(m).local_total == old(m).local_total,
{
    if incoming is Some {
        let t = incoming->0.name@;
        if t.len() > 0 {
            assert(t.drop_last() =~= t.take(t.len() - 1));
        }
    }
}

/// A Private Relay query is relayed where upstream answered and fails where it did not; either way
/// it is recorded as forwarded, with the time that upstream took.
pub proof fn law_private_relay_is_let_through(
    m: &mut Metrics,
    q: &Query,
    resolved: bool,
    elapsed_ms: u32,
    r: Handled,
)
    requires
        call_ensures(finish_protected, (m, q, resolved, elapsed_ms), r),
        old(m).servfail_total < u64::MAX,
    ensures
        r.reply == Reply::Relay <==> resolved,
        r.reply == Reply::ServFail <==> !resolved,
        r.record.verdict == Verdict::Forward,
        r.record.reason@ is PrivateRelayProtected,
        r.record.upstream_ms == Some(elapsed_ms),
        tells_of(r.record, *q),
        final(m).servfail_total == old(m).servfail_total + if resolved {
            0int
        } else {
            1int
        },
        final(m).blocked_total == old(m).blocked_total,
        final(m).forwarded_total == old(m).forwarded_total,
        final(m).queries_total == old(m).queries_total,
{
}

/// The rules decide: a name that they block gets the sinkhole's answer and is recorded as blocked
/// for their reason; any other name, and one that is no valid domain, is put upstream.  Its answer
/// is inspected for what is configured, but for private addresses only where the user did not
/// allow the name.
pub proof fn law_the_rules_decide(
    m: &mut Metrics,
    q: Query,
    decision: Option<(Verdict, Reason)>,
    privacy: &PrivacyConfig,
    action: BlockAction,
    ttl_secs: u32,
    r: QueryRoute,
    reply: Reply,
)
    requires
        call_ensures(decide_query, (m, q, decision, privacy, action, ttl_secs), r),
        call_ensures(block_response, (q.qtype, action, ttl_secs), reply),
        old(m).blocked_total < u64::MAX,
    ensures
        r is Handled <==> (decision matches Some(d) && d.0 == Verdict::Block),
        r matches QueryRoute::Handled(h) ==> {
            &&& h.reply == reply
            &&& h.record.verdict == Verdict::Block
            &&& h.record.reason@ == (decision->0).1@
            &&& h.record.upstream_ms is None
            &&& tells_of(h.record, q)
            &&& final(m).blocked_total == old(m).blocked_total + 1
        },
        r matches QueryRoute::Resolve { query, verdict, reason, inspection } ==> {
            &&& query == q
            &&& decision matches Some(d) ==> verdict == d.0 && reason@ == d.1@
            &&& decision is None ==> verdict == Verdict::Forward && reason@ is NoMatch
            &&& inspection.cname == privacy.cname_inspection
            &&& inspection.rebind == (privacy.rebind_protection && !(reason@ is UserAllowed))
            &&& final(m).blocked_total == old(m).blocked_total
        },
        final(m).queries_total == old(m).queries_total,
        final(m).forwarded_total == old(m).forwarded_total,
{
}

/// A network guard listens on port 53 of each of its addresses, in order, or not at all.
pub proof fn law_guards_listen_on_the_dns_port(
    lan_ips: &Vec<String>,
    r: Result<Vec<crate::net::SocketAddr>, String>,
)
    requires
        call_ensures(bind_guard_listeners, (lan_ips,), r),
    ensures
        r is Ok <==> forall|i: int|
            0 <= i < lan_ips@.len() ==> crate::net::ip_value(#[trigger] lan_ips@[i]@) is Some,
        r matches Ok(a) ==> a@.len() == lan_ips@.len() && forall|i: int|
            0 <= i < a@.len() ==> (#[trigger] a@[i]).port == 53 && crate::net::ip_value(lan_ips@[i]@)
                == Some(a@[i].ip),
{
    match r {
        Ok(a) => {
            assert forall|i: int| 0 <= i < lan_ips@.len() implies crate::net::ip_value(
                #[trigger] lan_ips@[i]@,
            ) is Some by {
                assert(a@[i].port == 53);
            }
        },
        Err(_) => {},
    }
}

}
