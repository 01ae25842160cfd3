//! What the control API answers.
use vstd::prelude::*;
use vstd::string::*;
use crate::api::auth::check_bearer;
use crate::api::auth::{header_text, law_bearer_of_valid_token, presents, valid_token};
use crate::api::types::{AllowlistBody, ApiErrorBody, ClientEntry, ClientsBody, ClientsParams, ConfigReloadBody, ConfigReloadReq, Counters, DomainReq, HistoryBody, HistoryBucket, HistoryParams, ListSourceStatus, ListsBody, ListsRefreshBody, PrivacyStatus, ProfileBody, ProfileEntry, ProfilesBody, QueriesBody, QueryRecord, RecentQueryParams, RestoreBody, ResumeBody, RulesStatus, SnoozeBody, SnoozeReq, StatusBody, TakeoverBody, TopBody, TopEntry, TopParams};
use crate::config::{query_log_mode_to_str, HushConfig, PrivacyConfig, QueryLogMode};
use crate::config::log_mode_text;
use crate::lists::ListsStatus;
use crate::mdns::MdnsMap;
use crate::mdns::{live, Host};
use crate::metrics::Metrics;
use crate::net::{parse_ip, IpAddr};
use crate::net::{ip_text, ip_value, law_address_round_trip};
use crate::profiles::{classify_reload, validate_profile_name, ProfileError};
use crate::profiles::{changed_names, hot_changes, hot_sections, profile_error_text, restart_changes, restart_sections, valid_profile_name, ProfileErrorModel};
use crate::querylog::{reason_for_rollup, verdict_for_rollup};
use crate::querylog::{reason_text, verdict_text, RecordModel, Verdict};
use crate::sentinel::{guard_state_api, GuardState, Sentinel};
use crate::sentinel::{guard_at, guard_reason, guard_text, plus_capped, GuardModel};
use crate::text::{copy_of, copy_texts, join, lines, list_contains, same_text, trim};
use crate::text::{is_word, joined, lemma_lines_of_words, lemma_trimmed_word, opt_text, text_lines, texts, trimmed};

verus! {

// ── Refusals ────────────────────────────────────────────────────────────────

/// A request that is not answered: the status and the body of the error.
#[derive(Debug)]
pub struct Refusal {
    pub status: u16,
    pub body: ApiErrorBody,
}

/// A refusal, with text for its strings.
pub struct RefusalModel {
    pub status: u16,
    pub error: Seq<char>,
    pub detail: Option<Seq<char>>,
}

impl View for Refusal {
    type V = RefusalModel;

    open spec fn view(&self) -> RefusalModel {
        RefusalModel {
            status: self.status,
            error: self.body.error@,
            detail: opt_text(self.body.detail),
        }
    }
}

/// The refusal with a status, an error and a detail.
pub open spec fn refusal(status: u16, error: Seq<char>, detail: Seq<char>) -> RefusalModel {
    RefusalModel { status, error, detail: Some(detail) }
}

/// The refusal of a request that does not present the token.
pub open spec fn unauthorized() -> RefusalModel {
    RefusalModel { status: 401, error: "unauthorized"@, detail: None }
}

/// The refusal of a path that there is not.
pub open spec fn not_found() -> RefusalModel {
    RefusalModel { status: 404, error: "not_found"@, detail: None }
}

/// A refusal with a detail.
fn refuse(status: u16, error: &str, detail: &str) -> (r: Refusal)
    ensures
        r@ == refusal(status, error@, detail@),
{
    Refusal { status, body: ApiErrorBody::with_detail(error, detail) }
}

/// Lets a request in that presents the token.
pub fn require_auth(header: Option<&str>, token: &str) -> (r: Result<(), Refusal>)
    ensures
        (match r {
            Ok(()) => presents(header_text(header), token@),
            Err(e) => !presents(header_text(header), token@) && e@ == unauthorized(),
        }),
{
    if check_bearer(header, token) {
        Ok(())
    } else {
        Err(Refusal { status: 401, body: ApiErrorBody::simple("unauthorized") })
    }
}

/// The refusal of a path that there is not.
pub fn handle_not_found() -> (r: Refusal)
    ensures
        r@ == not_found(),
{
    Refusal { status: 404, body: ApiErrorBody::simple("not_found") }
}

/// Whether the dashboard is served.
pub fn handle_dashboard(enabled: bool) -> (r: Result<(), Refusal>)
    ensures
        (match r {
            Ok(()) => enabled,
            Err(e) => !enabled && e@ == not_found(),
        }),
{
    if enabled {
        Ok(())
    } else {
        Err(handle_not_found())
    }
}

// ── Numbers in requests ─────────────────────────────────────────────────────

/// `n` brought into a range, with a default where none is given.
pub open spec fn clamped(n: Option<u32>, usual: u32, low: u32, high: u32) -> u32 {
    let v = match n {
        Some(x) => x,
        None => usual,
    };
    if v < low {
        low
    } else if v > high {
        high
    } else {
        v
    }
}

/// `n` brought into a range, with a default where none is given.
pub fn clamp_param(n: Option<u32>, usual: u32, low: u32, high: u32) -> (r: u32)
    requires
        low <= high,
    ensures
        r == clamped(n, usual, low, high),
        low <= r <= high,
{
    let v: u32 = match n {
        Some(x) => x,
        None => usual,
    };
    if v < low {
        low
    } else if v > high {
        high
    } else {
        v
    }
}

/// How many recent queries are listed, and whether only blocked ones.
pub fn recent_params(params: &RecentQueryParams) -> (r: (usize, bool))
    ensures
        r.0 == clamped(params.n, 100, 1, 1000),
        1 <= r.0 <= 1000,
        r.1 == (params.blocked_only == Some(true)),
{
    let n: u32 = clamp_param(params.n, 100, 1, 1000);
    let blocked = match params.blocked_only {
        Some(b) => b,
        None => false,
    };
    (n as usize, blocked)
}

/// The hours that the history covers, and the seconds of a bucket.
pub fn history_params(params: &HistoryParams) -> (r: (u32, u32))
    ensures
        r.0 == clamped(params.hours, 24, 1, 8760),
        r.1 == clamped(params.bucket, 3600, 60, 86400),
{
    (clamp_param(params.hours, 24, 1, 8760), clamp_param(params.bucket, 3600, 60, 86400))
}

/// How many of the most frequent names are listed, and the hours they are counted over.
pub fn top_params(params: &TopParams) -> (r: (u32, u32))
    ensures
        r.0 == clamped(params.n, 20, 1, 100),
        r.1 == clamped(params.hours, 168, 1, 8760),
{
    (clamp_param(params.n, 20, 1, 100), clamp_param(params.hours, 168, 1, 8760))
}

/// The hours over which clients are counted.
pub fn clients_params(params: &ClientsParams) -> (r: u32)
    ensures
        r == clamped(params.hours, 24, 1, 8760),
{
    clamp_param(params.hours, 24, 1, 8760)
}

// ── Status ──────────────────────────────────────────────────────────────────

/// What the status says of privacy.
pub fn privacy_status(p: &PrivacyConfig) -> (r: PrivacyStatus)
    ensures
        r.browser_doh_canary == p.browser_doh_canary,
        r.cname_inspection == p.cname_inspection,
        r.query_log@ == log_mode_text(p.query_log),
        r.block_doh_bypass == p.block_doh_bypass,
        r.block_private_relay == p.block_private_relay,
        r.doh_padding == p.doh_padding,
        r.rebind_protection == p.rebind_protection,
{
    PrivacyStatus {
        browser_doh_canary: p.browser_doh_canary,
        cname_inspection: p.cname_inspection,
        query_log: copy_of(query_log_mode_to_str(p.query_log)),
        block_doh_bypass: p.block_doh_bypass,
        block_private_relay: p.block_private_relay,
        doh_padding: p.doh_padding,
        rebind_protection: p.rebind_protection,
    }
}

/// What the status says of the counters.
pub fn counters_of(m: &Metrics) -> (r: Counters)
    ensures
        r.queries_total == m.queries_total,
        r.blocked_total == m.blocked_total,
        r.forwarded_total == m.forwarded_total,
        r.local_total == m.local_total,
        r.servfail_total == m.servfail_total,
{
    let s = m.snapshot();
    Counters {
        queries_total: s.queries_total,
        blocked_total: s.blocked_total,
        forwarded_total: s.forwarded_total,
        local_total: s.local_total,
        servfail_total: s.servfail_total,
    }
}

/// `GET /v0/status`: how the daemon is at the moment `now`.
pub fn handle_status(
    header: Option<&str>,
    token: &str,
    sentinel: &mut Sentinel,
    now: u64,
    rules: RulesStatus,
    metrics: &Metrics,
    uptime_secs: u64,
    privacy: &PrivacyConfig,
    active_profile: Option<String>,
    version: &str,
) -> (r: Result<StatusBody, Refusal>)
    ensures
        r is Ok <==> presents(header_text(header), token@),
        r matches Err(e) ==> e@ == unauthorized() && *final(sentinel) == *old(sentinel),
        r is Ok ==> final(sentinel).guard() == guard_at(old(sentinel).guard(), now),
        final(sentinel).engine_until() == old(sentinel).engine_until(),
        r matches Ok(b) ==> {
            &&& b.state@ == guard_text(guard_at(old(sentinel).guard(), now))
            &&& b.snoozed_until_unix_ms == match guard_at(old(sentinel).guard(), now) {
                GuardModel::Snoozed(until) => Some(until),
                _ => None,
            }
            &&& opt_text(b.standing_by_reason) == guard_reason(guard_at(old(sentinel).guard(), now))
            &&& b.version@ == version@
            &&& b.uptime_secs == uptime_secs
            &&& b.rules == rules
            &&& b.counters.queries_total == metrics.queries_total
            &&& b.counters.blocked_total == metrics.blocked_total
            &&& b.counters.forwarded_total == metrics.forwarded_total
            &&& b.counters.local_total == metrics.local_total
            &&& b.counters.servfail_total == metrics.servfail_total
            &&& b.privacy.browser_doh_canary == privacy.browser_doh_canary
            &&& b.privacy.cname_inspection == privacy.cname_inspection
            &&& b.privacy.query_log@ == log_mode_text(privacy.query_log)
            &&& b.privacy.block_doh_bypass == privacy.block_doh_bypass
            &&& b.privacy.block_private_relay == privacy.block_private_relay
            &&& b.privacy.doh_padding == privacy.doh_padding
            &&& b.privacy.rebind_protection == privacy.rebind_protection
            &&& b.active_profile == active_profile
        },
{
    match require_auth(header, token) {
        Err(e) => {
            return Err(e);
        },
        Ok(()) => {},
    }
    sentinel.expire_snooze(now);
    let (state, standing_by_reason) = sentinel.state_api();
    let snoozed_until_unix_ms = match sentinel.current_state() {
        GuardState::Snoozed { until_unix_ms } => Some(until_unix_ms),
        _ => None,
    };
    Ok(
        StatusBody {
            state,
            snoozed_until_unix_ms,
            standing_by_reason,
            version: copy_of(version),
            uptime_secs,
            rules,
            counters: counters_of(metrics),
            privacy: privacy_status(privacy),
            active_profile,
        },
    )
}

// ── Queries ─────────────────────────────────────────────────────────────────

/// `r` says what the log holds of a query.
pub open spec fn is_listed(r: QueryRecord, q: RecordModel) -> bool {
    &&& r.ts_unix_ms == q.ts_unix_ms
    &&& r.qname@ == q.qname
    &&& r.qtype == q.qtype
    &&& r.verdict@ == verdict_text(q.verdict)
    &&& r.reason@ == reason_text(q.reason)
    &&& r.upstream_ms == q.upstream_ms
}

/// `GET /v0/queries/recent`: the records, as the API writes them.
pub fn handle_queries_recent(
    records: &Vec<crate::querylog::QueryRecord>,
    mode: QueryLogMode,
) -> (r: QueriesBody)
    ensures
        r.queries@.len() == records@.len(),
        forall|i: int|
            0 <= i < records@.len() ==> is_listed(#[trigger] r.queries@[i], records@[i]@),
        r.log_mode@ == log_mode_text(mode),
{
    let mut queries: Vec<QueryRecord> = Vec::new();
    let mut i: usize = 0;
    while i < records.len()
        invariant
            0 <= i <= records.len(),
            queries@.len() == i,
            forall|j: int| 0 <= j < i ==> is_listed(#[trigger] queries@[j], records@[j]@),
        decreases records.len() - i,
    {
        let q = &records[i];
        queries.push(
            QueryRecord {
                ts_unix_ms: q.ts_unix_ms,
                qname: q.qname.clone(),
                qtype: q.qtype,
                verdict: verdict_for_rollup(q.verdict),
                reason: reason_for_rollup(&q.reason),
                upstream_ms: q.upstream_ms,
            },
        );
        i += 1;
    }
    QueriesBody { queries, log_mode: copy_of(query_log_mode_to_str(mode)) }
}

// ── Snooze ──────────────────────────────────────────────────────────────────

/// The longest pause, in seconds.
pub const MAX_SNOOZE_SECS: u64 = 86400;

/// Whether a pause may last so long.
pub fn valid_snooze_secs(secs: u64) -> (r: bool)
    ensures
        r == (1 <= secs <= MAX_SNOOZE_SECS),
{
    1 <= secs && secs <= MAX_SNOOZE_SECS
}

/// What is answered to a request for a pause, other than that it started.
pub open spec fn snooze_refusal(
    header: Option<Seq<char>>,
    token: Seq<char>,
    body: Result<SnoozeReq, String>,
) -> Option<RefusalModel> {
    if !presents(header, token) {
        Some(unauthorized())
    } else {
        match body {
            Err(e) => Some(refusal(400, "invalid_body"@, e@)),
            Ok(q) => if 1 <= q.secs <= MAX_SNOOZE_SECS {
                None
            } else {
                Some(refusal(400, "invalid_body"@, "secs must be in [1, 86400]"@))
            },
        }
    }
}

/// `POST /v0/snooze` at a time: starts a pause.
pub fn handle_snooze(
    header: Option<&str>,
    token: &str,
    body: Result<SnoozeReq, String>,
    sentinel: &mut Sentinel,
    now_unix_ms: u64,
) -> (r: Result<SnoozeBody, Refusal>)
    ensures
        (match snooze_refusal(header_text(header), token@, body) {
            Some(m) => r matches Err(e) && e@ == m && *final(sentinel) == *old(sentinel),
            None => {
                let until = plus_capped(now_unix_ms, (body->Ok_0.secs * 1000) as u64);
                &&& r matches Ok(b) && b.snoozed_until_unix_ms == until
                &&& final(sentinel).guard() == GuardModel::Snoozed(until)
                &&& final(sentinel).engine_until() == until
            },
        }),
{
    match require_auth(header, token) {
        Err(e) => {
            return Err(e);
        },
        Ok(()) => {},
    }
    let req = match body {
        Ok(q) => q,
        Err(e) => {
            return Err(refuse(400, "invalid_body", e.as_str()));
        },
    };
    if !valid_snooze_secs(req.secs) {
        return Err(refuse(400, "invalid_body", "secs must be in [1, 86400]"));
    }
    sentinel.snooze_from(now_unix_ms, req.secs * 1000);
    Ok(SnoozeBody { snoozed_until_unix_ms: sentinel.engine_snooze_until() })
}

/// `POST /v0/resume`: ends a pause.
pub fn handle_resume(header: Option<&str>, token: &str, sentinel: &mut Sentinel) -> (r: Result<
    ResumeBody,
    Refusal,
>)
    ensures
        (if presents(header_text(header), token@) {
            &&& r matches Ok(b) && b.state@ == "filtering"@
            &&& final(sentinel).guard() is Filtering
            &&& final(sentinel).engine_until() == 0
        } else {
            r matches Err(e) && e@ == unauthorized() && *final(sentinel) == *old(sentinel)
        }),
{
    match require_auth(header, token) {
        Err(e) => {
            return Err(e);
        },
        Ok(()) => {},
    }
    sentinel.resume();
    let s = sentinel.current_state();
    Ok(ResumeBody { state: guard_state_api(&s).0 })
}

// ── The allowlist ───────────────────────────────────────────────────────────

/// The file of the allowlist, inside the state directory.
pub const ALLOWLIST_FILE: &'static str = "allowlist.txt";

/// The list with a domain on it, once.
pub open spec fn with_domain(s: Seq<Seq<char>>, d: Seq<char>) -> Seq<Seq<char>> {
    if s.contains(d) {
        s
    } else {
        s.push(d)
    }
}

/// The list without a domain.
pub open spec fn without_domain(s: Seq<Seq<char>>, d: Seq<char>) -> Seq<Seq<char>>
    decreases s.len(),
{
    if s.len() == 0 {
        s
    } else if s.last() == d {
        without_domain(s.drop_last(), d)
    } else {
        without_domain(s.drop_last(), d).push(s.last())
    }
}

/// Puts a domain on the list, unless it is there.
pub fn allowlist_add(list: &mut Vec<String>, domain: &str)
    ensures
        texts(final(list)@) == with_domain(texts(old(list)@), domain@),
{
    let ghost before = texts(list@);
    if !list_contains(list, domain) {
        list.push(copy_of(domain));
        proof {
            assert(texts(list@) =~= before.push(domain@));
        }
    }
}

/// Takes a domain off the list, and no other.
pub fn allowlist_remove(list: &mut Vec<String>, domain: &str)
    ensures
        texts(final(list)@) == without_domain(texts(old(list)@), domain@),
{
    let ghost all = texts(list@);
    let mut kept: Vec<String> = Vec::new();
    let mut i: usize = 0;
    while i < list.len()
        invariant
            0 <= i <= list.len(),
            all == texts(list@),
            texts(kept@) == without_domain(all.take(i as int), domain@),
        decreases list.len() - i,
    {
        let ghost before = texts(kept@);
        proof {
            assert(all.take(i + 1).drop_last() =~= all.take(i as int));
            assert(all.take(i + 1).last() == list@[i as int]@);
        }
        if !same_text(list[i].as_str(), domain) {
            kept.push(list[i].clone());
            proof {
                assert(texts(kept@) =~= before.push(list@[i as int]@));
            }
        }
        i += 1;
    }
    proof {
        assert(all.take(i as int) =~= all);
    }
    *list = kept;
}

/// The domain that a request names.
pub fn requested_domain(header: Option<&str>, token: &str, body: Result<DomainReq, String>) -> (r: Result<
    String,
    Refusal,
>)
    ensures
        (if !presents(header_text(header), token@) {
            r matches Err(e) && e@ == unauthorized()
        } else {
            match body {
                Err(t) => r matches Err(e) && e@ == refusal(400, "invalid_body"@, t@),
                Ok(q) => r matches Ok(d) && d@ == q.domain@,
            }
        }),
{
    match require_auth(header, token) {
        Err(e) => {
            return Err(e);
        },
        Ok(()) => {},
    }
    match body {
        Ok(q) => Ok(q.domain),
        Err(e) => Err(refuse(400, "invalid_body", e.as_str())),
    }
}

/// `POST /v0/allow`: puts a domain on the list, from what came of reading the domain.
pub fn handle_allow(list: &mut Vec<String>, domain: Result<String, String>) -> (r: Result<
    AllowlistBody,
    Refusal,
>)
    ensures
        (match domain {
            Err(t) => r matches Err(e) && e@ == refusal(422, "invalid_domain"@, t@)
                && final(list)@ == old(list)@,
            Ok(d) => {
                &&& texts(final(list)@) == with_domain(texts(old(list)@), d@)
                &&& r matches Ok(b) && texts(b.allowed@) == texts(final(list)@)
            },
        }),
{
    match domain {
        Err(e) => Err(refuse(422, "invalid_domain", e.as_str())),
        Ok(d) => {
            allowlist_add(list, d.as_str());
            Ok(AllowlistBody { allowed: copy_texts(list) })
        },
    }
}

/// `POST /v0/unallow`: takes a domain off the list, from what came of reading the domain.
pub fn handle_unallow(list: &mut Vec<String>, domain: Result<String, String>) -> (r: Result<
    AllowlistBody,
    Refusal,
>)
    ensures
        (match domain {
            Err(t) => r matches Err(e) && e@ == refusal(422, "invalid_domain"@, t@)
                && final(list)@ == old(list)@,
            Ok(d) => {
                &&& texts(final(list)@) == without_domain(texts(old(list)@), d@)
                &&& r matches Ok(b) && texts(b.allowed@) == texts(final(list)@)
            },
        }),
{
    match domain {
        Err(e) => Err(refuse(422, "invalid_domain", e.as_str())),
        Ok(d) => {
            allowlist_remove(list, d.as_str());
            Ok(AllowlistBody { allowed: copy_texts(list) })
        },
    }
}

/// `GET /v0/allowlist`: the list.
pub fn handle_allowlist(list: &Vec<String>) -> (r: AllowlistBody)
    ensures
        texts(r.allowed@) == texts(list@),
{
    AllowlistBody { allowed: copy_texts(list) }
}

/// The text of the file that keeps the list: each domain on a line of its own.
pub fn persist_allowlist(list: &Vec<String>) -> (r: String)
    ensures
        r@ == joined(texts(list@), "\n"@),
{
    join(list, "\n")
}

/// The lines without white space around them, those that are empty left out.
pub open spec fn full_lines(s: Seq<Seq<char>>) -> Seq<Seq<char>>
    decreases s.len(),
{
    if s.len() == 0 {
        s
    } else if trimmed(s.last()).len() == 0 {
        full_lines(s.drop_last())
    } else {
        full_lines(s.drop_last()).push(trimmed(s.last()))
    }
}

/// The lines of the file that keeps the list, each to be read as a domain.
pub fn allowlist_lines(content: &str) -> (r: Vec<String>)
    ensures
        texts(r@) == full_lines(text_lines(content@)),
{
    let ls = lines(content);
    let ghost all = texts(ls@);
    let mut r: Vec<String> = Vec::new();
    let mut i: usize = 0;
    while i < ls.len()
        invariant
            0 <= i <= ls.len(),
            all == texts(ls@),
            texts(r@) == full_lines(all.take(i as int)),
        decreases ls.len() - i,
    {
        let ghost before = texts(r@);
        proof {
            assert(all.take(i + 1).drop_last() =~= all.take(i as int));
            assert(all.take(i + 1).last() == ls@[i as int]@);
        }
        let t = trim(ls[i].as_str());
        if !t.as_str().is_empty() {
            r.push(t);
            proof {
                assert(texts(r@) =~= before.push(t@));
            }
        }
        i += 1;
    }
    proof {
        assert(all.take(i as int) =~= all);
    }
    r
}

/// Those that could be read as a domain, in order.
pub open spec fn read_domains(s: Seq<Option<String>>) -> Seq<Seq<char>>
    decreases s.len(),
{
    if s.len() == 0 {
        Seq::<Seq<char>>::empty()
    } else {
        match s.last() {
            Some(d) => read_domains(s.drop_last()).push(d@),
            None => read_domains(s.drop_last()),
        }
    }
}

/// The list that a file keeps, from what came of reading each line as a domain: a line that is
/// none is passed over.
pub fn load_allowlist(parsed: Vec<Option<String>>) -> (r: Vec<String>)
    ensures
        texts(r@) == read_domains(parsed@),
{
    let mut r: Vec<String> = Vec::new();
    let mut i: usize = 0;
    while i < parsed.len()
        invariant
            0 <= i <= parsed.len(),
            texts(r@) == read_domains(parsed@.take(i as int)),
        decreases parsed.len() - i,
    {
        let ghost before = texts(r@);
        proof {
            assert(parsed@.take(i + 1).drop_last() =~= parsed@.take(i as int));
            assert(parsed@.take(i + 1).last() == parsed@[i as int]);
        }
        match &parsed[i] {
            Some(d) => {
                r.push(d.clone());
                proof {
                    assert(texts(r@) =~= before.push(d@));
                }
            },
            None => {},
        }
        i += 1;
    }
    proof {
        assert(parsed@.take(i as int) =~= parsed@);
    }
    r
}

proof fn lemma_push_contains(s: Seq<Seq<char>>, d: Seq<char>, x: Seq<char>)
    ensures
        s.push(d).contains(x) <==> s.contains(x) || x == d,
{
    let t = s.push(d);
    if s.contains(x) {
        let i = choose|i: int| 0 <= i < s.len() && s[i] == x;
        assert(t[i] == x);
    }
    if x == d {
        assert(t[s.len() as int] == x);
    }
    if t.contains(x) && x != d {
        let i = choose|i: int| 0 <= i < t.len() && t[i] == x;
        assert(s[i] == x);
    }
}

/// A domain that was allowed is on the list; allowing it again changes nothing, and nothing
/// else leaves or enters the list.
pub proof fn law_allowing_is_idempotent(s: Seq<Seq<char>>, d: Seq<char>, other: Seq<char>)
    ensures
        with_domain(s, d).contains(d),
        with_domain(with_domain(s, d), d) == with_domain(s, d),
        other != d ==> (with_domain(s, d).contains(other) <==> s.contains(other)),
{
    lemma_push_contains(s, d, d);
    lemma_push_contains(s, d, other);
}

/// A domain that was taken off is not on the list, and every other one stays.
pub proof fn law_unallowing_removes_exactly_one(s: Seq<Seq<char>>, d: Seq<char>, other: Seq<char>)
    ensures
        !without_domain(s, d).contains(d),
        other != d ==> (without_domain(s, d).contains(other) <==> s.contains(other)),
        !s.contains(d) ==> without_domain(s, d) == s,
    decreases s.len(),
{
    if s.len() > 0 {
        let f = s.drop_last();
        law_unallowing_removes_exactly_one(f, d, other);
        assert(s =~= f.push(s.last()));
        lemma_push_contains(f, s.last(), other);
        lemma_push_contains(f, s.last(), d);
        lemma_push_contains(without_domain(f, d), s.last(), other);
        lemma_push_contains(without_domain(f, d), s.last(), d);
    }
}

/// Taking a domain off undoes allowing it, where it was not on the list before.
pub proof fn law_unallow_undoes_allow(s: Seq<Seq<char>>, d: Seq<char>)
    requires
        !s.contains(d),
    ensures
        without_domain(with_domain(s, d), d) == s,
{
    law_unallowing_removes_exactly_one(s, d, d);
    assert(s.push(d).drop_last() =~= s);
}

proof fn lemma_full_lines_of_words(s: Seq<Seq<char>>)
    requires
        forall|i: int| 0 <= i < s.len() ==> is_word(#[trigger] s[i]),
    ensures
        full_lines(s) == s,
    decreases s.len(),
{
    if s.len() > 0 {
        let f = s.drop_last();
        assert forall|i: int| 0 <= i < f.len() implies is_word(#[trigger] f[i]) by {
            assert(f[i] == s[i]);
        }
        lemma_full_lines_of_words(f);
        assert(is_word(s[s.len() - 1]));
        lemma_trimmed_word(s.last());
        assert(f.push(s.last()) =~= s);
    }
}

/// Reading the file of the allowlist gives back the list that was written to it.  A domain
/// holds no white space.
pub proof fn law_allowlist_survives_a_restart(list: Seq<Seq<char>>)
    requires
        forall|i: int| 0 <= i < list.len() ==> is_word(#[trigger] list[i]),
    ensures
        full_lines(text_lines(joined(list, "\n"@))) == list,
{
    reveal_strlit("\n");
    assert("\n"@ =~= seq!['\n']);
    lemma_lines_of_words(list);
    lemma_full_lines_of_words(list);
}

// ── Lists ───────────────────────────────────────────────────────────────────

/// What the catalog knows of a source.
#[derive(Debug)]
pub struct CatalogEntry {
    pub category: String,
    pub license: Option<String>,
    pub attribution: String,
}

/// `r` says what is known of a source.
pub open spec fn is_source_status(
    r: ListSourceStatus,
    s: crate::lists::SourceStatus,
    c: Option<CatalogEntry>,
) -> bool {
    &&& r.name@ == s.name@
    &&& r.enabled
    &&& r.rule_count == s.last_rule_count
    &&& r.last_fetched_unix_ms == s.last_ok_unix_ms
    &&& r.last_http_status is None
    &&& opt_text(r.last_error) == opt_text(s.last_error)
    &&& opt_text(r.category) == match c {
        Some(e) => Some(e.category@),
        None => None,
    }
    &&& opt_text(r.license) == match c {
        Some(e) => opt_text(e.license),
        None => None,
    }
    &&& opt_text(r.attribution) == match c {
        Some(e) => Some(e.attribution@),
        None => None,
    }
}

/// A copy of an optional text.
fn copy_opt(o: &Option<String>) -> (r: Option<String>)
    ensures
        opt_text(r) == opt_text(*o),
{
    match o {
        Some(s) => Some(s.clone()),
        None => None,
    }
}

/// `GET /v0/lists`: what is known of each source, with what the catalog knows of it.
pub fn handle_lists(
    preset: String,
    status: &ListsStatus,
    catalog: &Vec<Option<CatalogEntry>>,
) -> (r: ListsBody)
    requires
        catalog@.len() == status.per_source@.len(),
    ensures
        r.preset@ == preset@,
        r.sources@.len() == status.per_source@.len(),
        forall|i: int|
            0 <= i < r.sources@.len() ==> is_source_status(
                #[trigger] r.sources@[i],
                status.per_source@[i],
                catalog@[i],
            ),
{
    let mut sources: Vec<ListSourceStatus> = Vec::new();
    let mut i: usize = 0;
    while i < status.per_source.len()
        invariant
            0 <= i <= status.per_source.len(),
            catalog@.len() == status.per_source@.len(),
            sources@.len() == i,
            forall|j: int|
                0 <= j < i ==> is_source_status(
                    #[trigger] sources@[j],
                    status.per_source@[j],
                    catalog@[j],
                ),
        decreases status.per_source.len() - i,
    {
        let s = &status.per_source[i];
        let (category, license, attribution) = match &catalog[i] {
            Some(e) => (
                Some(e.category.clone()),
                copy_opt(&e.license),
                Some(e.attribution.clone()),
            ),
            None => (None, None, None),
        };
        sources.push(
            ListSourceStatus {
                name: s.name.clone(),
                enabled: true,
                rule_count: s.last_rule_count,
                last_fetched_unix_ms: s.last_ok_unix_ms,
                last_http_status: None,
                last_error: copy_opt(&s.last_error),
                category,
                license,
                attribution,
            },
        );
        i += 1;
    }
    ListsBody { preset, sources }
}

/// An answer with its status.
#[derive(Debug)]
pub struct Answer<T> {
    pub status: u16,
    pub body: T,
}

/// `POST /v0/lists/refresh`: a refresh starts, and the answer does not wait for it.
pub fn handle_lists_refresh(header: Option<&str>, token: &str) -> (r: Result<
    Answer<ListsRefreshBody>,
    Refusal,
>)
    ensures
        (match r {
            Ok(a) => presents(header_text(header), token@) && a.status == 202 && a.body.started,
            Err(e) => !presents(header_text(header), token@) && e@ == unauthorized(),
        }),
{
    match require_auth(header, token) {
        Err(e) => Err(e),
        Ok(()) => Ok(Answer { status: 202, body: ListsRefreshBody { started: true } }),
    }
}

// ── Takeover and restore ────────────────────────────────────────────────────

/// `POST /v0/takeover`: what is answered to what came of it.
pub fn handle_takeover(result: Result<(), String>) -> (r: Answer<TakeoverBody>)
    ensures
        (match result {
            Ok(()) => r.status == 200 && r.body.success && r.body.error is None,
            Err(e) => r.status == 500 && !r.body.success && opt_text(r.body.error) == Some(e@),
        }),
{
    match result {
        Ok(()) => Answer { status: 200, body: TakeoverBody { success: true, error: None } },
        Err(e) => Answer { status: 500, body: TakeoverBody { success: false, error: Some(e) } },
    }
}

/// What came of a restore.
#[derive(Debug)]
pub enum RestoreEnd {
    /// There is nothing to restore.
    NoSnapshot,
    /// What is to be restored cannot be read.
    Unreadable(String),
    /// It was restored.
    Restored,
    /// It could not be restored.
    Failed(String),
    /// The attempt broke off.
    BrokeOff,
}

/// `POST /v0/restore`: what is answered to what came of it.
pub fn handle_restore(end: RestoreEnd) -> (r: Answer<RestoreBody>)
    ensures
        r.body.success <==> end is Restored,
        r.body.error is None <==> end is Restored,
        (match end {
            RestoreEnd::NoSnapshot => r.status == 409 && opt_text(r.body.error) == Some(
                "no DNS snapshot found; takeover may not have been run"@,
            ),
            RestoreEnd::Unreadable(e) => r.status == 500 && opt_text(r.body.error) == Some(
                "failed to read snapshot: "@ + e@,
            ),
            RestoreEnd::Restored => r.status == 200,
            RestoreEnd::Failed(e) => r.status == 500 && opt_text(r.body.error) == Some(e@),
            RestoreEnd::BrokeOff => r.status == 500 && opt_text(r.body.error) == Some(
                "internal error: restore task failed"@,
            ),
        }),
{
    match end {
        RestoreEnd::NoSnapshot => Answer {
            status: 409,
            body: RestoreBody {
                success: false,
                error: Some("no DNS snapshot found; takeover may not have been run".to_owned()),
            },
        },
        RestoreEnd::Unreadable(e) => Answer {
            status: 500,
            body: RestoreBody {
                success: false,
                error: Some("failed to read snapshot: ".to_owned().concat(e.as_str())),
            },
        },
        RestoreEnd::Restored => Answer {
            status: 200,
            body: RestoreBody { success: true, error: None },
        },
        RestoreEnd::Failed(e) => Answer {
            status: 500,
            body: RestoreBody { success: false, error: Some(e) },
        },
        RestoreEnd::BrokeOff => Answer {
            status: 500,
            body: RestoreBody {
                success: false,
                error: Some("internal error: restore task failed".to_owned()),
            },
        },
    }
}

// ── Statistics ──────────────────────────────────────────────────────────────

/// Whether the database is asked for statistics at all: not without a log.
pub fn asks_database(mode: QueryLogMode) -> (r: bool)
    ensures
        r == (mode != QueryLogMode::Off),
{
    mode != QueryLogMode::Off
}

/// `GET /v0/stats/history`: the totals, as the API writes them; none where the database failed
/// or there is no log.
pub fn handle_stats_history(
    mode: QueryLogMode,
    rows: Option<Vec<crate::rollup::HistoryBucket>>,
) -> (r: HistoryBody)
    ensures
        r.log_mode@ == log_mode_text(mode),
        (if mode == QueryLogMode::Off || rows is None {
            r.buckets@.len() == 0
        } else {
            &&& r.buckets@.len() == rows->0@.len()
            &&& forall|i: int|
                0 <= i < r.buckets@.len() ==> {
                    &&& (#[trigger] r.buckets@[i]).ts == rows->0@[i].ts
                    &&& r.buckets@[i].total == rows->0@[i].total
                    &&& r.buckets@[i].blocked == rows->0@[i].blocked
                }
        }),
{
    let mut buckets: Vec<HistoryBucket> = Vec::new();
    let log_mode = copy_of(query_log_mode_to_str(mode));
    if mode == QueryLogMode::Off {
        return HistoryBody { buckets, log_mode };
    }
    match rows {
        None => {},
        Some(v) => {
            let mut i: usize = 0;
            while i < v.len()
                invariant
                    0 <= i <= v.len(),
                    buckets@.len() == i,
                    forall|j: int|
                        0 <= j < i ==> {
                            &&& (#[trigger] buckets@[j]).ts == v@[j].ts
                            &&& buckets@[j].total == v@[j].total
                            &&& buckets@[j].blocked == v@[j].blocked
                        },
                decreases v.len() - i,
            {
                buckets.push(
                    HistoryBucket { ts: v[i].ts, total: v[i].total, blocked: v[i].blocked },
                );
                i += 1;
            }
        },
    }
    HistoryBody { buckets, log_mode }
}

/// The entries say the same.
pub open spec fn same_entries(a: Seq<TopEntry>, b: Seq<crate::rollup::TopEntry>) -> bool {
    a.len() == b.len() && forall|i: int|
        0 <= i < a.len() ==> (#[trigger] a[i]).qname@ == b[i].qname@ && a[i].count == b[i].count
}

/// The entries, as the API writes them.
fn top_entries(v: &Vec<crate::rollup::TopEntry>) -> (r: Vec<TopEntry>)
    ensures
        same_entries(r@, v@),
{
    let mut r: Vec<TopEntry> = Vec::new();
    let mut i: usize = 0;
    while i < v.len()
        invariant
            0 <= i <= v.len(),
            r@.len() == i,
            forall|j: int|
                0 <= j < i ==> (#[trigger] r@[j]).qname@ == v@[j].qname@ && r@[j].count
                    == v@[j].count,
        decreases v.len() - i,
    {
        r.push(TopEntry { qname: v[i].qname.clone(), count: v[i].count });
        i += 1;
    }
    r
}

/// `GET /v0/stats/top`: the most frequent names, as the API writes them.  Where the log does not
/// hold names, there are none.
pub fn handle_stats_top(
    mode: QueryLogMode,
    blocked: &Vec<crate::rollup::TopEntry>,
    allowed: &Vec<crate::rollup::TopEntry>,
) -> (r: TopBody)
    ensures
        mode == QueryLogMode::Full ==> same_entries(r.blocked@, blocked@) && same_entries(
            r.allowed@,
            allowed@,
        ),
        mode != QueryLogMode::Full ==> r.blocked@.len() == 0 && r.allowed@.len() == 0,
        r.log_mode@ == log_mode_text(mode),
{
    if mode != QueryLogMode::Full {
        return TopBody {
            blocked: Vec::new(),
            allowed: Vec::new(),
            log_mode: copy_of(query_log_mode_to_str(mode)),
        };
    }
    TopBody {
        blocked: top_entries(blocked),
        allowed: top_entries(allowed),
        log_mode: copy_of(query_log_mode_to_str(mode)),
    }
}

/// Why clients are not counted, where they are not.
pub open spec fn clients_hidden(mode: QueryLogMode, log_clients: bool) -> Option<Seq<char>> {
    if mode == QueryLogMode::Off {
        Some("privacy.query_log is off; no client data is recorded"@)
    } else if !log_clients {
        Some("network_guard.log_clients is off; set it to true to enable per-client stats"@)
    } else {
        None
    }
}

/// The answer where clients are not counted.
pub fn clients_off(mode: QueryLogMode, log_clients: bool) -> (r: Option<ClientsBody>)
    ensures
        (match clients_hidden(mode, log_clients) {
            Some(t) => r matches Some(b) && !b.log_clients_enabled && opt_text(b.explanation)
                == Some(t) && b.clients@.len() == 0,
            None => r is None,
        }),
{
    if mode == QueryLogMode::Off {
        return Some(
            ClientsBody {
                log_clients_enabled: false,
                explanation: Some(
                    "privacy.query_log is off; no client data is recorded".to_owned(),
                ),
                clients: Vec::new(),
            },
        );
    }
    if !log_clients {
        return Some(
            ClientsBody {
                log_clients_enabled: false,
                explanation: Some(
                    "network_guard.log_clients is off; set it to true to enable per-client stats".to_owned(),
                ),
                clients: Vec::new(),
            },
        );
    }
    None
}

/// The name under which a client is known.
pub open spec fn client_name(client: Seq<char>, hosts: Map<IpAddr, Host>) -> Option<Seq<char>> {
    match ip_value(client) {
        Some(ip) => if hosts.dom().contains(ip) {
            Some(hosts[ip].0)
        } else {
            None
        },
        None => None,
    }
}

/// A client is stored by the text of its address, and is known by the name of the host with
/// that address.
pub proof fn law_stored_clients_are_named(ip: IpAddr, hosts: Map<IpAddr, Host>)
    ensures
        client_name(ip_text(ip), hosts) == if hosts.dom().contains(ip) {
            Some(hosts[ip].0)
        } else {
            None
        },
{
    law_address_round_trip(ip);
}

/// `e` says what the database holds of a client, with its name.
pub open spec fn is_client_entry(
    e: ClientEntry,
    row: crate::rollup::ClientEntry,
    hosts: Map<IpAddr, Host>,
) -> bool {
    &&& e.client@ == row.client@
    &&& e.total == row.total
    &&& e.blocked == row.blocked
    &&& opt_text(e.name) == client_name(row.client@, hosts)
}

/// `GET /v0/clients` at a time: the clients, each with the name under which it is known.
pub fn handle_clients(
    rows: &Vec<crate::rollup::ClientEntry>,
    map: &mut MdnsMap,
    now: u128,
) -> (r: ClientsBody)
    requires
        old(map).wf(),
    ensures
        final(map).wf(),
        live(final(map)@, now) == live(old(map)@, now),
        r.log_clients_enabled,
        r.explanation is None,
        r.clients@.len() == rows@.len(),
        forall|i: int|
            0 <= i < rows@.len() ==> is_client_entry(
                #[trigger] r.clients@[i],
                rows@[i],
                live(old(map)@, now),
            ),
{
    let ghost hosts = live(map@, now);
    let mut clients: Vec<ClientEntry> = Vec::new();
    let mut i: usize = 0;
    while i < rows.len()
        invariant
            0 <= i <= rows.len(),
            map.wf(),
            live(map@, now) == hosts,
            clients@.len() == i,
            forall|j: int|
                0 <= j < i ==> is_client_entry(#[trigger] clients@[j], rows@[j], hosts),
        decreases rows.len() - i,
    {
        let ghost before = map@;
        let name = match parse_ip(rows[i].client.as_str()) {
            Some(ip) => {
                let n = map.get_at(ip, now);
                proof {
                    assert(live(map@, now) =~= live(before, now));
                }
                n
            },
            None => None,
        };
        clients.push(
            ClientEntry {
                client: rows[i].client.clone(),
                name,
                total: rows[i].total,
                blocked: rows[i].blocked,
            },
        );
        i += 1;
    }
    ClientsBody { log_clients_enabled: true, explanation: None, clients }
}

// ── Reloading ───────────────────────────────────────────────────────────────

/// The profile that a request is about: the one it names, else the active one.
pub open spec fn reload_profile(
    body: Result<ConfigReloadReq, String>,
    active: Option<Seq<char>>,
) -> Option<Seq<char>> {
    match body {
        Ok(q) => match opt_text(q.profile) {
            Some(n) => Some(n),
            None => active,
        },
        Err(_) => None,
    }
}

/// `POST /v0/config/reload`: the profile to load; none where there is nothing to reload.
pub fn reload_target(
    header: Option<&str>,
    token: &str,
    body: Result<ConfigReloadReq, String>,
    active: &Option<String>,
) -> (r: Result<Option<String>, Refusal>)
    ensures
        (if !presents(header_text(header), token@) {
            r matches Err(e) && e@ == unauthorized()
        } else if body is Err {
            r matches Err(e) && e@ == refusal(400, "invalid_body"@, body->Err_0@)
        } else {
            match reload_profile(body, opt_text(*active)) {
                None => r matches Ok(n) && n is None,
                Some(name) => if valid_profile_name(name) {
                    r matches Ok(n) && opt_text(n) == Some(name)
                } else {
                    r matches Err(e) && e@ == refusal(
                        400,
                        "invalid_profile_name"@,
                        profile_error_text(ProfileErrorModel::InvalidName(name)),
                    )
                },
            }
        }),
{
    match require_auth(header, token) {
        Err(e) => {
            return Err(e);
        },
        Ok(()) => {},
    }
    let req = match body {
        Ok(q) => q,
        Err(e) => {
            return Err(refuse(400, "invalid_body", e.as_str()));
        },
    };
    let name = match req.profile {
        Some(n) => Some(n),
        None => copy_opt(active),
    };
    match name {
        None => Ok(None),
        Some(n) => match validate_profile_name(n.as_str()) {
            Ok(()) => Ok(Some(n)),
            Err(e) => {
                let m = e.message();
                Err(refuse(400, "invalid_profile_name", m.as_str()))
            },
        },
    }
}

/// The settings in force after a profile was loaded: its sections that can be applied while the
/// daemon runs, and the others as they were.
pub open spec fn reloaded(current: HushConfig, new_cfg: HushConfig) -> HushConfig {
    HushConfig {
        lists: if current.lists@ != new_cfg.lists@ {
            new_cfg.lists
        } else {
            current.lists
        },
        privacy: if current.privacy@ != new_cfg.privacy@ {
            new_cfg.privacy
        } else {
            current.privacy
        },
        upstream: if current.upstream@ != new_cfg.upstream@ {
            new_cfg.upstream
        } else {
            current.upstream
        },
        ..current
    }
}

/// The refusal of a profile that does not load.
pub open spec fn load_refusal(name: Seq<char>, e: ProfileErrorModel) -> RefusalModel {
    match e {
        ProfileErrorModel::NotFound(_) => refusal(
            404,
            "profile_not_found"@,
            "profile '"@ + name + "' not found"@,
        ),
        ProfileErrorModel::InvalidName(_) => refusal(
            400,
            "invalid_profile_name"@,
            "profile name '"@ + name + "' is invalid"@,
        ),
        _ => refusal(422, "profile_invalid"@, profile_error_text(e)),
    }
}

/// `profile 'name' not found`.
fn not_found_text(name: &str) -> (r: String)
    ensures
        r@ == "profile '"@ + name@ + "' not found"@,
{
    let mut m = "profile '".to_owned();
    m.append(name);
    m.append("' not found");
    m
}

/// `profile name 'name' is invalid`.
fn invalid_name_text(name: &str) -> (r: String)
    ensures
        r@ == "profile name '"@ + name@ + "' is invalid"@,
{
    let mut m = "profile name '".to_owned();
    m.append(name);
    m.append("' is invalid");
    m
}

/// What was reloaded: the answer, and what has to be told to whom.
#[derive(Debug)]
pub struct Reloaded {
    pub body: ConfigReloadBody,
    /// The lists have to be fetched again.
    pub lists: bool,
    /// The listeners have to be told.
    pub privacy: bool,
    /// The ways upstream have to be built again.
    pub upstream: bool,
}

/// `POST /v0/config/reload`: takes over a profile, from what came of loading it.
pub fn handle_config_reload(
    name: &str,
    loaded: Result<HushConfig, ProfileError>,
    current: &mut HushConfig,
    active: &mut Option<String>,
) -> (r: Result<Reloaded, Refusal>)
    ensures
        (match loaded {
            Err(e) => {
                &&& r matches Err(f) && f@ == load_refusal(name@, e@)
                &&& *final(current) == *old(current)
                &&& *final(active) == *old(active)
            },
            Ok(c) => {
                &&& *final(current) == reloaded(*old(current), c)
                &&& opt_text(*final(active)) == Some(name@)
                &&& r matches Ok(b) && {
                    &&& texts(b.body.applied@) == changed_names(
                        hot_sections(),
                        hot_changes(*old(current), c),
                    )
                    &&& texts(b.body.requires_restart@) == changed_names(
                        restart_sections(),
                        restart_changes(*old(current), c),
                    )
                    &&& b.lists == (old(current).lists@ != c.lists@)
                    &&& b.privacy == (old(current).privacy@ != c.privacy@)
                    &&& b.upstream == (old(current).upstream@ != c.upstream@)
                }
            },
        }),
{
    let new_cfg = match loaded {
        Ok(c) => c,
        Err(ProfileError::NotFound(_)) => {
            let m = not_found_text(name);
            return Err(refuse(404, "profile_not_found", m.as_str()));
        },
        Err(ProfileError::InvalidName(_)) => {
            let m = invalid_name_text(name);
            return Err(refuse(400, "invalid_profile_name", m.as_str()));
        },
        Err(e) => {
            let m = e.message();
            return Err(refuse(422, "profile_invalid", m.as_str()));
        },
    };
    let result = classify_reload(current, &new_cfg);
    let lists = !current.lists.same(&new_cfg.lists);
    let privacy = !current.privacy.same(&new_cfg.privacy);
    let upstream = !current.upstream.same(&new_cfg.upstream);
    if lists {
        current.lists = new_cfg.lists;
    }
    if privacy {
        current.privacy = new_cfg.privacy;
    }
    if upstream {
        current.upstream = new_cfg.upstream;
    }
    *active = Some(copy_of(name));
    Ok(
        Reloaded {
            body: ConfigReloadBody {
                applied: result.applied,
                requires_restart: result.requires_restart,
            },
            lists,
            privacy,
            upstream,
        },
    )
}

/// The answer where there is nothing to reload.
pub fn nothing_to_reload() -> (r: ConfigReloadBody)
    ensures
        r.applied@.len() == 0,
        r.requires_restart@.len() == 0,
{
    ConfigReloadBody { applied: Vec::new(), requires_restart: Vec::new() }
}

/// Loading a profile a second time applies nothing more, and reports the same restart as the
/// first time; what takes a restart never changes in the settings in force.
pub proof fn law_reloading_twice_applies_once(current: HushConfig, new_cfg: HushConfig)
    ensures
        hot_changes(reloaded(current, new_cfg), new_cfg) == seq![false, false, false],
        restart_changes(reloaded(current, new_cfg), new_cfg) == restart_changes(current, new_cfg),
        reloaded(reloaded(current, new_cfg), new_cfg) == reloaded(current, new_cfg),
        reloaded(current, new_cfg).lists@ == new_cfg.lists@,
        reloaded(current, new_cfg).privacy@ == new_cfg.privacy@,
        reloaded(current, new_cfg).upstream@ == new_cfg.upstream@,
{
    assert(hot_changes(reloaded(current, new_cfg), new_cfg) =~= seq![false, false, false]);
}

// ── Profiles ────────────────────────────────────────────────────────────────

/// `GET /v0/profiles`: the profiles, and which of them is active.
pub fn handle_profiles_list(names: &Vec<String>, active: &Option<String>) -> (r: ProfilesBody)
    ensures
        opt_text(r.active) == opt_text(*active),
        r.profiles@.len() == names@.len(),
        forall|i: int|
            0 <= i < names@.len() ==> {
                &&& (#[trigger] r.profiles@[i]).name@ == names@[i]@
                &&& r.profiles@[i].active == (opt_text(*active) == Some(names@[i]@))
            },
{
    let mut profiles: Vec<ProfileEntry> = Vec::new();
    let mut i: usize = 0;
    while i < names.len()
        invariant
            0 <= i <= names.len(),
            profiles@.len() == i,
            forall|j: int|
                0 <= j < i ==> {
                    &&& (#[trigger] profiles@[j]).name@ == names@[j]@
                    &&& profiles@[j].active == (opt_text(*active) == Some(names@[j]@))
                },
        decreases names.len() - i,
    {
        let is_active = match active {
            Some(a) => same_text(a.as_str(), names[i].as_str()),
            None => false,
        };
        profiles.push(ProfileEntry { name: names[i].clone(), active: is_active });
        i += 1;
    }
    ProfilesBody { profiles, active: copy_opt(active) }
}

/// The refusal of a profile that cannot be shown.
pub open spec fn show_refusal(name: Seq<char>, e: ProfileErrorModel) -> RefusalModel {
    match e {
        ProfileErrorModel::NotFound(_) => refusal(
            404,
            "profile_not_found"@,
            "profile '"@ + name + "' not found"@,
        ),
        ProfileErrorModel::InvalidName(_) => refusal(
            400,
            "invalid_profile_name"@,
            "profile name '"@ + name + "' is invalid"@,
        ),
        _ => refusal(500, "internal_error"@, profile_error_text(e)),
    }
}

/// `GET /v0/profiles/{name}`: the content of a profile, from what came of reading it.
pub fn handle_profile_show(name: &str, content: Result<String, ProfileError>) -> (r: Result<
    ProfileBody,
    Refusal,
>)
    ensures
        (match content {
            Ok(c) => r matches Ok(b) && b.name@ == name@ && b.content@ == c@,
            Err(e) => r matches Err(f) && f@ == show_refusal(name@, e@),
        }),
{
    match content {
        Ok(c) => Ok(ProfileBody { name: copy_of(name), content: c }),
        Err(ProfileError::NotFound(_)) => {
            let m = not_found_text(name);
            Err(refuse(404, "profile_not_found", m.as_str()))
        },
        Err(ProfileError::InvalidName(_)) => {
            let m = invalid_name_text(name);
            Err(refuse(400, "invalid_profile_name", m.as_str()))
        },
        Err(e) => {
            let m = e.message();
            Err(refuse(500, "internal_error", m.as_str()))
        },
    }
}

/// The name of a profile in a request: one that no profile can have is refused before any file
/// is touched.
pub fn requested_profile(header: Option<&str>, token: &str, name: &str) -> (r: Result<(), Refusal>)
    ensures
        (if !presents(header_text(header), token@) {
            r matches Err(e) && e@ == unauthorized()
        } else if valid_profile_name(name@) {
            r is Ok
        } else {
            r matches Err(e) && e@ == refusal(
                400,
                "invalid_profile_name"@,
                profile_error_text(ProfileErrorModel::InvalidName(name@)),
            )
        }),
{
    match require_auth(header, token) {
        Err(e) => {
            return Err(e);
        },
        Ok(()) => {},
    }
    match validate_profile_name(name) {
        Ok(()) => Ok(()),
        Err(e) => {
            let m = e.message();
            Err(refuse(400, "invalid_profile_name", m.as_str()))
        },
    }
}

// ── What the answers mean ───────────────────────────────────────────────────

/// A header presents a token: the word `Bearer`, one space, the token.
pub open spec fn shows(header: Option<&str>, token: &str) -> bool {
    header is Some && header->0@ == "Bearer "@ + token@
}

/// Whoever does not present the token is told so, with no more than that.
pub proof fn law_strangers_are_turned_away(header: Option<&str>, token: &str, r: Result<(), Refusal>)
    requires
        valid_token(token@),
        call_ensures(require_auth, (header, token), r),
    ensures
        r is Ok <==> shows(header, token),
        r matches Err(e) ==> e.status == 401 && e.body.error@ == "unauthorized"@ && e.body.detail is None,
{
    law_bearer_of_valid_token(token@, header_text(header));
}

/// Without the dashboard its pages are not found.
pub proof fn law_a_dashboard_that_is_off_is_not_found(enabled: bool, r: Result<(), Refusal>, n: Refusal)
    requires
        call_ensures(handle_dashboard, (enabled,), r),
        call_ensures(handle_not_found, (), n),
    ensures
        r is Ok <==> enabled,
        r matches Err(e) ==> e.status == 404 && e.body.error@ == "not_found"@ && e.body.detail is None,
        n.status == 404 && n.body.error@ == "not_found"@ && n.body.detail is None,
{
}

/// A number is taken as it is where it is in range, is brought to the nearer end otherwise, and a
/// missing one is the default.
pub proof fn law_numbers_are_brought_into_range(n: Option<u32>, usual: u32, low: u32, high: u32, r: u32)
    requires
        low <= usual <= high,
        call_ensures(clamp_param, (n, usual, low, high), r),
    ensures
        n is None ==> r == usual,
        n matches Some(x) ==> (low <= x <= high ==> r == x) && (x < low ==> r == low) && (x > high ==> r
            == high),
{
}

/// `r` is `n` where it is given and in range, the nearer end where it is given and out of range,
/// and the default where it is not given.
pub open spec fn in_range(n: Option<u32>, usual: u32, low: u32, high: u32, r: int) -> bool {
    match n {
        None => r == usual,
        Some(x) => (low <= x <= high ==> r == x) && (x < low ==> r == low) && (x > high ==> r == high),
    }
}

/// The ranges and the defaults of the numbers in requests.
pub proof fn law_the_ranges_of_requests(
    p: &RecentQueryParams,
    h: &HistoryParams,
    t: &TopParams,
    c: &ClientsParams,
    rp: (usize, bool),
    rh: (u32, u32),
    rt: (u32, u32),
    rc: u32,
)
    requires
        call_ensures(recent_params, (p,), rp),
        call_ensures(history_params, (h,), rh),
        call_ensures(top_params, (t,), rt),
        call_ensures(clients_params, (c,), rc),
    ensures
        in_range(p.n, 100, 1, 1000, rp.0 as int),
        rp.1 <==> p.blocked_only == Some(true),
        in_range(h.hours, 24, 1, 8760, rh.0 as int),
        in_range(h.bucket, 3600, 60, 86_400, rh.1 as int),
        in_range(t.n, 20, 1, 100, rt.0 as int),
        in_range(t.hours, 168, 1, 8760, rt.1 as int),
        in_range(c.hours, 24, 1, 8760, rc as int),
{
}

/// What the status says of the settings is what they are.
pub proof fn law_the_status_tells_the_settings(p: &PrivacyConfig, r: PrivacyStatus, m: &Metrics, c: Counters)
    requires
        call_ensures(privacy_status, (p,), r),
        call_ensures(counters_of, (m,), c),
    ensures
        r.browser_doh_canary == p.browser_doh_canary,
        r.cname_inspection == p.cname_inspection,
        r.block_doh_bypass == p.block_doh_bypass,
        r.block_private_relay == p.block_private_relay,
        r.doh_padding == p.doh_padding,
        r.rebind_protection == p.rebind_protection,
        p.query_log == QueryLogMode::Full ==> r.query_log@ == "full"@,
        p.query_log == QueryLogMode::Anonymous ==> r.query_log@ == "anonymous"@,
        p.query_log == QueryLogMode::Off ==> r.query_log@ == "off"@,
        c.queries_total == m.queries_total && c.blocked_total == m.blocked_total,
        c.forwarded_total == m.forwarded_total && c.local_total == m.local_total,
        c.servfail_total == m.servfail_total,
{
}

/// A pause that was asked for shows in the status until it is over, with the moment at which it
/// ends, and from then on the daemon filters.
pub proof fn law_a_pause_shows_until_it_is_over(
    header: Option<&str>,
    token: &str,
    req: SnoozeReq,
    s: &mut Sentinel,
    asked: u64,
    answer: Result<SnoozeBody, Refusal>,
    t: &mut Sentinel,
    now: u64,
    rules: RulesStatus,
    metrics: &Metrics,
    uptime: u64,
    privacy: &PrivacyConfig,
    profile: Option<String>,
    version: &str,
    r: Result<StatusBody, Refusal>,
)
    requires
        valid_token(token@),
        shows(header, token),
        1 <= req.secs <= 24 * 60 * 60,
        asked + req.secs * 1000 <= u64::MAX,
        call_ensures(handle_snooze, (header, token, Ok::<SnoozeReq, String>(req), s, asked), answer),
        *old(t) == *final(s),
        call_ensures(
            handle_status,
            (header, token, t, now, rules, metrics, uptime, privacy, profile, version),
            r,
        ),
    ensures
        answer matches Ok(a) && a.snoozed_until_unix_ms == asked + req.secs * 1000,
        final(s).engine_until() == asked + req.secs * 1000,
        now < asked + req.secs * 1000 ==> (r matches Ok(b) && b.state@ == "snoozed"@
            && b.snoozed_until_unix_ms == Some((asked + req.secs * 1000) as u64)),
        now >= asked + req.secs * 1000 ==> (r matches Ok(b) && b.state@ == "filtering"@
            && b.snoozed_until_unix_ms is None),
{
    law_bearer_of_valid_token(token@, header_text(header));
}

/// The status is told to those who present the token, and says how the daemon is.
pub proof fn law_what_the_status_says(
    header: Option<&str>,
    token: &str,
    s: &mut Sentinel,
    now: u64,
    rules: RulesStatus,
    metrics: &Metrics,
    uptime: u64,
    privacy: &PrivacyConfig,
    profile: Option<String>,
    version: &str,
    r: Result<StatusBody, Refusal>,
)
    requires
        valid_token(token@),
        call_ensures(
            handle_status,
            (header, token, s, now, rules, metrics, uptime, privacy, profile, version),
            r,
        ),
    ensures
        r is Ok <==> shows(header, token),
        r is Err ==> *final(s) == *old(s),
        r matches Ok(b) ==> b.rules == rules && b.uptime_secs == uptime && b.version@ == version@
            && b.active_profile == profile,
        r matches Ok(b) ==> (old(s).guard() is Filtering ==> b.state@ == "filtering"@),
        r matches Ok(b) ==> (old(s).guard() is StandingBy ==> b.state@ == "standing_by"@
            && b.standing_by_reason is Some),
        r matches Ok(b) ==> (old(s).guard() is Attention ==> b.state@ == "attention"@),
        r matches Ok(b) ==> (!(old(s).guard() is StandingBy) ==> b.standing_by_reason is None),
        r matches Ok(b) ==> (!(old(s).guard() is Snoozed) ==> b.snoozed_until_unix_ms is None),
        r matches Ok(b) ==> b.counters.queries_total == metrics.queries_total && b.counters.blocked_total
            == metrics.blocked_total && b.counters.forwarded_total == metrics.forwarded_total
            && b.counters.local_total == metrics.local_total && b.counters.servfail_total
            == metrics.servfail_total,
        r matches Ok(b) ==> b.privacy.browser_doh_canary == privacy.browser_doh_canary
            && b.privacy.cname_inspection == privacy.cname_inspection && b.privacy.block_doh_bypass
            == privacy.block_doh_bypass && b.privacy.block_private_relay == privacy.block_private_relay
            && b.privacy.doh_padding == privacy.doh_padding && b.privacy.rebind_protection
            == privacy.rebind_protection,
{
    law_bearer_of_valid_token(token@, header_text(header));
}

/// A pause of a second up to a day is started; any other request, and one that cannot be read,
/// is refused as invalid and changes nothing.
pub proof fn law_which_pauses_are_granted(
    header: Option<&str>,
    token: &str,
    body: Result<SnoozeReq, String>,
    s: &mut Sentinel,
    now: u64,
    r: Result<SnoozeBody, Refusal>,
    secs: u64,
    valid: bool,
)
    requires
        valid_token(token@),
        call_ensures(handle_snooze, (header, token, body, s, now), r),
        call_ensures(valid_snooze_secs, (secs,), valid),
    ensures
        valid <==> 1 <= secs <= 24 * 60 * 60,
        r is Ok <==> shows(header, token) && (body matches Ok(q) && 1 <= q.secs <= 24 * 60 * 60),
        r is Err ==> *final(s) == *old(s),
        r matches Err(e) ==> e.status == if shows(header, token) {
            400int
        } else {
            401int
        },
        r matches Err(e) ==> (shows(header, token) ==> e.body.error@ == "invalid_body"@),
{
    law_bearer_of_valid_token(token@, header_text(header));
}

/// Resuming ends a pause at once, for those who present the token.
pub proof fn law_resuming_filters_again(header: Option<&str>, token: &str, s: &mut Sentinel, r: Result<ResumeBody, Refusal>)
    requires
        valid_token(token@),
        call_ensures(handle_resume, (header, token, s), r),
    ensures
        r is Ok <==> shows(header, token),
        r matches Ok(b) ==> b.state@ == "filtering"@ && final(s).guard() is Filtering && final(
            s).engine_until() == 0,
        r is Err ==> *final(s) == *old(s),
{
    law_bearer_of_valid_token(token@, header_text(header));
}

/// The recent queries are listed in order, and each tells what was done and why: its verdict
/// reads `block` just where the query was blocked.
pub proof fn law_recent_queries_tell_what_was_done(
    records: &Vec<crate::querylog::QueryRecord>,
    mode: QueryLogMode,
    r: QueriesBody,
    i: int,
    reason: String,
)
    requires
        call_ensures(handle_queries_recent, (records, mode), r),
        0 <= i < records@.len(),
        call_ensures(reason_for_rollup, (&records@[i].reason,), reason),
    ensures
        r.queries@.len() == records@.len(),
        r.queries@[i].verdict@ == "block"@ <==> records@[i].verdict == Verdict::Block,
        r.queries@[i].verdict@ == "forward"@ <==> records@[i].verdict == Verdict::Forward,
        r.queries@[i].verdict@ == "forward_local"@ <==> records@[i].verdict == Verdict::ForwardLocal,
        r.queries@[i].reason@ == reason@,
        r.queries@[i].qname@ == records@[i].qname@,
        r.queries@[i].qtype == records@[i].qtype,
        r.queries@[i].ts_unix_ms == records@[i].ts_unix_ms,
        r.queries@[i].upstream_ms == records@[i].upstream_ms,
{
    reveal_strlit("block");
    reveal_strlit("forward");
    reveal_strlit("forward_local");
    assert("block"@.len() == 5 && "forward"@.len() == 7 && "forward_local"@.len() == 13);
    assert(is_listed(r.queries@[i], records@[i]@));
}

/// A domain that is allowed stands on the list once, behind what stood there, and one that
/// stood there before changes nothing.
pub proof fn law_allowed_domains_stand_on_the_list(
    list: &mut Vec<String>,
    domain: Result<String, String>,
    r: Result<AllowlistBody, Refusal>,
    same: &mut Vec<String>,
    name: &str,
)
    requires
        call_ensures(handle_allow, (list, domain), r),
        call_ensures(allowlist_add, (same, name), ()),
        *old(same) == *old(list),
        domain matches Ok(d) ==> d@ == name@,
    ensures
        r is Ok <==> domain is Ok,
        domain is Err ==> texts(final(list)@) == texts(old(list)@),
        r matches Err(e) ==> e.status == 422 && e.body.error@ == "invalid_domain"@,
        domain is Ok && !texts(old(list)@).contains(name@) ==> texts(final(list)@) == texts(
            old(list)@,
        ).push(name@),
        domain is Ok && texts(old(list)@).contains(name@) ==> texts(final(list)@) == texts(old(list)@),
        domain is Ok ==> texts(final(same)@) == texts(final(list)@),
        r matches Ok(b) ==> texts(b.allowed@) == texts(final(list)@),
{
}

/// The texts but `d`, in order.
pub open spec fn all_but(s: Seq<Seq<char>>, d: Seq<char>) -> Seq<Seq<char>> {
    s.filter(|x: Seq<char>| x != d)
}

proof fn lemma_without_domain_is_filtered(s: Seq<Seq<char>>, d: Seq<char>)
    ensures
        without_domain(s, d) == all_but(s, d),
    decreases s.len(),
{
    reveal(Seq::filter);
    if s.len() > 0 {
        lemma_without_domain_is_filtered(s.drop_last(), d);
    } else {
        assert(all_but(s, d) =~= s);
    }
}

/// A domain that is taken off stands on the list no more; all others stay, in order.
pub proof fn law_unallowed_domains_leave_the_list(
    list: &mut Vec<String>,
    domain: Result<String, String>,
    r: Result<AllowlistBody, Refusal>,
    same: &mut Vec<String>,
    name: &str,
)
    requires
        call_ensures(handle_unallow, (list, domain), r),
        call_ensures(allowlist_remove, (same, name), ()),
        *old(same) == *old(list),
        domain matches Ok(d) ==> d@ == name@,
    ensures
        r is Ok <==> domain is Ok,
        domain is Err ==> texts(final(list)@) == texts(old(list)@),
        r matches Err(e) ==> e.status == 422 && e.body.error@ == "invalid_domain"@,
        domain is Ok ==> texts(final(list)@) == all_but(texts(old(list)@), name@),
        texts(final(same)@) == all_but(texts(old(list)@), name@),
        r matches Ok(b) ==> texts(b.allowed@) == texts(final(list)@),
{
    lemma_without_domain_is_filtered(texts(old(list)@), name@);
}

/// The list that is shown is the list; what is written of it is read back line by line.
pub proof fn law_the_list_is_kept(
    list: &Vec<String>,
    shown: AllowlistBody,
    file: String,
    content: &str,
    back: Vec<String>,
)
    requires
        call_ensures(handle_allowlist, (list,), shown),
        call_ensures(persist_allowlist, (list,), file),
        content@ == file@,
        call_ensures(allowlist_lines, (content,), back),
        forall|i: int| 0 <= i < list@.len() ==> is_word(#[trigger] list@[i]@),
    ensures
        texts(shown.allowed@) == texts(list@),
        texts(back@) == texts(list@),
{
    let t = texts(list@);
    assert forall|i: int| 0 <= i < t.len() implies is_word(#[trigger] t[i]) by {
        assert(is_word(list@[i]@));
    }
    law_allowlist_survives_a_restart(t);
}

/// A file is read line by line: a blank line is passed over, any other gives its text without the
/// white space around it; and of the domains read, those that could be read are kept in order.
pub proof fn law_the_file_is_read_line_by_line(
    content: &str,
    more: &str,
    line: Seq<char>,
    r: Vec<String>,
    all: Vec<String>,
    parsed: Vec<Option<String>>,
    next: Vec<Option<String>>,
    last: Option<String>,
    kept: Vec<String>,
    kept_more: Vec<String>,
)
    requires
        call_ensures(allowlist_lines, (content,), r),
        call_ensures(allowlist_lines, (more,), all),
        text_lines(more@) == text_lines(content@).push(line),
        call_ensures(load_allowlist, (parsed,), kept),
        call_ensures(load_allowlist, (next,), kept_more),
        next@ == parsed@.push(last),
    ensures
        text_lines(content@).len() == 0 ==> r@.len() == 0,
        trimmed(line).len() == 0 ==> texts(all@) == texts(r@),
        trimmed(line).len() > 0 ==> texts(all@) == texts(r@).push(trimmed(line)),
        parsed@.len() == 0 ==> kept@.len() == 0,
        last is None ==> texts(kept_more@) == texts(kept@),
        last matches Some(d) ==> texts(kept_more@) == texts(kept@).push(d@),
{
    assert(texts(r@).len() == r@.len());
    assert(texts(kept@).len() == kept@.len());
    assert(text_lines(more@).drop_last() =~= text_lines(content@));
    assert(next@.drop_last() =~= parsed@);
}

/// The domain of a request is the one that it names, for those who present the token.
pub proof fn law_the_requested_domain(
    header: Option<&str>,
    token: &str,
    body: Result<DomainReq, String>,
    r: Result<String, Refusal>,
)
    requires
        valid_token(token@),
        call_ensures(requested_domain, (header, token, body), r),
    ensures
        r is Ok <==> shows(header, token) && body is Ok,
        r matches Ok(d) ==> d@ == body->Ok_0.domain@,
        r matches Err(e) ==> e.status == if shows(header, token) {
            400int
        } else {
            401int
        },
{
    law_bearer_of_valid_token(token@, header_text(header));
}

/// What is told of each source is what is known of it, each under its own heading.
pub proof fn law_sources_are_told_as_known(
    preset: String,
    status: &ListsStatus,
    catalog: &Vec<Option<CatalogEntry>>,
    r: ListsBody,
    i: int,
)
    requires
        catalog@.len() == status.per_source@.len(),
        call_ensures(handle_lists, (preset, status, catalog), r),
        0 <= i < status.per_source@.len(),
    ensures
        r.preset@ == preset@,
        r.sources@.len() == status.per_source@.len(),
        r.sources@[i].name@ == status.per_source@[i].name@,
        r.sources@[i].enabled,
        r.sources@[i].rule_count == status.per_source@[i].last_rule_count,
        r.sources@[i].last_fetched_unix_ms == status.per_source@[i].last_ok_unix_ms,
        opt_text(r.sources@[i].last_error) == opt_text(status.per_source@[i].last_error),
        catalog@[i] is None ==> r.sources@[i].category is None && r.sources@[i].license is None
            && r.sources@[i].attribution is None,
        catalog@[i] matches Some(c) ==> opt_text(r.sources@[i].category) == Some(c.category@) && opt_text(
            r.sources@[i].license,
        ) == opt_text(c.license) && opt_text(r.sources@[i].attribution) == Some(c.attribution@),
{
    assert(is_source_status(r.sources@[i], status.per_source@[i], catalog@[i]));
}

/// A refresh is accepted from those who present the token, and the answer does not wait for it.
pub proof fn law_a_refresh_is_accepted(header: Option<&str>, token: &str, r: Result<Answer<ListsRefreshBody>, Refusal>)
    requires
        valid_token(token@),
        call_ensures(handle_lists_refresh, (header, token), r),
    ensures
        r is Ok <==> shows(header, token),
        r matches Ok(a) ==> a.status == 202 && a.body.started,
        r matches Err(e) ==> e.status == 401,
{
    law_bearer_of_valid_token(token@, header_text(header));
}

/// Success is told just where a takeover or a restore succeeded, with the status of success; a
/// failure tells why.
pub proof fn law_success_is_told_only_of_success(
    result: Result<(), String>,
    t: Answer<TakeoverBody>,
    end: RestoreEnd,
    s: Answer<RestoreBody>,
)
    requires
        call_ensures(handle_takeover, (result,), t),
        call_ensures(handle_restore, (end,), s),
    ensures
        t.body.success <==> result is Ok,
        t.status == 200 <==> result is Ok,
        t.body.error is None <==> result is Ok,
        result matches Err(e) ==> t.status == 500 && t.body.error->0@ == e@,
        s.body.success <==> end is Restored,
        s.status == 200 <==> end is Restored,
        s.body.error is None <==> end is Restored,
        s.status == 409 <==> end is NoSnapshot,
        s.status == 200 || s.status == 409 || s.status == 500,
        end matches RestoreEnd::Failed(e) ==> s.body.error->0@ == e@,
        end matches RestoreEnd::Unreadable(e) ==> s.body.error->0@ == "failed to read snapshot: "@ + e@,
{
}

/// The totals are told bucket by bucket as the database gave them; without a log, or where the
/// database failed, there are none.
pub proof fn law_totals_are_told_as_counted(
    mode: QueryLogMode,
    rows: Option<Vec<crate::rollup::HistoryBucket>>,
    r: HistoryBody,
    asks: bool,
    i: int,
)
    requires
        call_ensures(asks_database, (mode,), asks),
        call_ensures(handle_stats_history, (mode, rows), r),
        0 <= i < r.buckets@.len(),
    ensures
        asks <==> mode == QueryLogMode::Full || mode == QueryLogMode::Anonymous,
        asks && rows is Some && rows->0@.len() == r.buckets@.len(),
        r.buckets@[i].ts == rows->0@[i].ts,
        r.buckets@[i].total == rows->0@[i].total,
        r.buckets@[i].blocked == rows->0@[i].blocked,
{
}

/// No total is left out.
pub proof fn law_no_total_is_left_out(
    mode: QueryLogMode,
    rows: Option<Vec<crate::rollup::HistoryBucket>>,
    r: HistoryBody,
)
    requires
        call_ensures(handle_stats_history, (mode, rows), r),
    ensures
        mode != QueryLogMode::Off && rows is Some ==> r.buckets@.len() == rows->0@.len(),
        mode == QueryLogMode::Off || rows is None ==> r.buckets@.len() == 0,
{
}

/// The most frequent names are told with their counts, blocked and allowed ones apart, just where
/// the log holds names.
pub proof fn law_names_are_told_only_of_a_full_log(
    mode: QueryLogMode,
    blocked: &Vec<crate::rollup::TopEntry>,
    allowed: &Vec<crate::rollup::TopEntry>,
    r: TopBody,
    i: int,
)
    requires
        call_ensures(handle_stats_top, (mode, blocked, allowed), r),
    ensures
        mode != QueryLogMode::Full ==> r.blocked@.len() == 0 && r.allowed@.len() == 0,
        mode == QueryLogMode::Full ==> r.blocked@.len() == blocked@.len() && r.allowed@.len()
            == allowed@.len(),
        mode == QueryLogMode::Full && 0 <= i < blocked@.len() ==> r.blocked@[i].qname@ == blocked@[i].qname@
            && r.blocked@[i].count == blocked@[i].count,
        mode == QueryLogMode::Full && 0 <= i < allowed@.len() ==> r.allowed@[i].qname@ == allowed@[i].qname@
            && r.allowed@[i].count == allowed@[i].count,
{
}

/// Clients are told just where there is a log and clients are logged; otherwise the answer says
/// why not, and names none.
pub proof fn law_clients_are_told_only_where_logged(mode: QueryLogMode, log_clients: bool, r: Option<ClientsBody>)
    requires
        call_ensures(clients_off, (mode, log_clients), r),
    ensures
        r is None <==> mode != QueryLogMode::Off && log_clients,
        r matches Some(b) ==> !b.log_clients_enabled && b.clients@.len() == 0 && b.explanation is Some,
{
}

/// Each client is told with its counts, and with the name of the host that has its address, where
/// one is remembered that has not expired.
pub proof fn law_clients_are_told_with_their_names(
    rows: &Vec<crate::rollup::ClientEntry>,
    map: &mut MdnsMap,
    now: u128,
    r: ClientsBody,
    i: int,
    g: &mut MdnsMap,
    ip: IpAddr,
    name: Option<String>,
)
    requires
        old(map).wf(),
        call_ensures(handle_clients, (rows, map, now), r),
        0 <= i < rows@.len(),
        rows@[i].client@ == ip_text(ip),
        *old(g) == *old(map),
        call_ensures(MdnsMap::get_at, (g, ip, now), name),
    ensures
        r.log_clients_enabled && r.explanation is None,
        r.clients@.len() == rows@.len(),
        r.clients@[i].client@ == rows@[i].client@,
        r.clients@[i].total == rows@[i].total,
        r.clients@[i].blocked == rows@[i].blocked,
        opt_text(r.clients@[i].name) == opt_text(name),
{
    assert(is_client_entry(r.clients@[i], rows@[i], live(old(map)@, now)));
    law_stored_clients_are_named(ip, live(old(map)@, now));
}

/// The profile to load is the one that the request names, else the active one; a name that no
/// profile can have is refused, and without any there is nothing to reload.
pub proof fn law_which_profile_is_reloaded(
    header: Option<&str>,
    token: &str,
    body: Result<ConfigReloadReq, String>,
    active: &Option<String>,
    r: Result<Option<String>, Refusal>,
)
    requires
        valid_token(token@),
        call_ensures(reload_target, (header, token, body, active), r),
    ensures
        !shows(header, token) ==> (r matches Err(e) && e.status == 401),
        shows(header, token) && body is Err ==> (r matches Err(e) && e.status == 400 && e.body.error@
            == "invalid_body"@),
        shows(header, token) ==> (body matches Ok(q) ==> (q.profile matches Some(n) ==> (r is Ok
            <==> valid_profile_name(n@)) && (r matches Ok(t) ==> opt_text(t) == Some(n@)))),
        shows(header, token) ==> (body matches Ok(q) ==> (q.profile is None && *active is Some ==> (r is Ok
            <==> valid_profile_name(active->0@)) && (r matches Ok(t) ==> opt_text(t) == Some(active->0@)))),
        shows(header, token) ==> (body matches Ok(q) ==> (q.profile is None && *active is None ==> (r
            matches Ok(t) && t is None))),
        shows(header, token) && body is Ok && r is Err ==> (r matches Err(e) && e.status == 400
            && e.body.error@ == "invalid_profile_name"@),
{
    law_bearer_of_valid_token(token@, header_text(header));
}

/// A profile that loaded is in force afterwards in all that needs no restart, and only there, and
/// is the active one; one that did not load changes nothing.
pub proof fn law_what_a_reload_changes(
    name: &str,
    loaded: Result<HushConfig, ProfileError>,
    current: &mut HushConfig,
    active: &mut Option<String>,
    r: Result<Reloaded, Refusal>,
)
    requires
        call_ensures(handle_config_reload, (name, loaded, current, active), r),
    ensures
        r is Ok <==> loaded is Ok,
        loaded is Err ==> *final(current) == *old(current) && *final(active) == *old(active),
        loaded matches Ok(c) ==> final(current).lists@ == c.lists@ && final(current).privacy@
            == c.privacy@ && final(current).upstream@ == c.upstream@,
        loaded is Ok ==> *final(current) == (HushConfig {
            lists: final(current).lists,
            privacy: final(current).privacy,
            upstream: final(current).upstream,
            ..*old(current)
        }),
        loaded is Ok ==> (*final(active) matches Some(a) && a@ == name@),
        loaded matches Ok(c) ==> (r matches Ok(b) && (b.lists <==> old(current).lists@ != c.lists@) && (
        b.privacy <==> old(current).privacy@ != c.privacy@) && (b.upstream <==> old(current).upstream@
            != c.upstream@)),
        loaded matches Err(ProfileError::NotFound(_)) ==> (r matches Err(e) && e.status == 404
            && e.body.error@ == "profile_not_found"@),
        loaded matches Err(ProfileError::InvalidName(_)) ==> (r matches Err(e) && e.status == 400
            && e.body.error@ == "invalid_profile_name"@),
        loaded is Err && !(loaded->Err_0 is NotFound) && !(loaded->Err_0 is InvalidName) ==> (r
            matches Err(e) && e.status == 422 && e.body.error@ == "profile_invalid"@),
{
}

/// Nothing to reload is nothing applied and nothing to restart for.
pub proof fn law_nothing_to_reload_is_nothing(r: ConfigReloadBody)
    requires
        call_ensures(nothing_to_reload, (), r),
    ensures
        r.applied@.len() == 0 && r.requires_restart@.len() == 0,
{
}

/// The profiles are listed in order, and just the active one is marked.
pub proof fn law_the_active_profile_is_marked(names: &Vec<String>, active: &Option<String>, r: ProfilesBody, i: int)
    requires
        call_ensures(handle_profiles_list, (names, active), r),
        0 <= i < names@.len(),
    ensures
        r.profiles@.len() == names@.len(),
        r.profiles@[i].name@ == names@[i]@,
        r.profiles@[i].active <==> *active is Some && active->0@ == names@[i]@,
        r.active is Some <==> *active is Some,
        r.active is Some ==> r.active->0@ == active->0@,
{
}

/// A profile is shown as it was read; one that there is not, that cannot be, or that cannot be
/// read is refused, each in its own way.
pub proof fn law_profiles_are_shown_as_read(
    name: &str,
    content: Result<String, ProfileError>,
    r: Result<ProfileBody, Refusal>,
)
    requires
        call_ensures(handle_profile_show, (name, content), r),
    ensures
        r is Ok <==> content is Ok,
        r matches Ok(b) ==> b.name@ == name@ && b.content@ == content->Ok_0@,
        content matches Err(ProfileError::NotFound(_)) ==> (r matches Err(e) && e.status == 404
            && e.body.error@ == "profile_not_found"@),
        content matches Err(ProfileError::InvalidName(_)) ==> (r matches Err(e) && e.status == 400
            && e.body.error@ == "invalid_profile_name"@),
        content is Err && !(content->Err_0 is NotFound) && !(content->Err_0 is InvalidName) ==> (r
            matches Err(e) && e.status == 500 && e.body.error@ == "internal_error"@),
{
}

/// A profile may be asked for by those who present the token, under a name that a profile can
/// have.
pub proof fn law_which_profiles_may_be_asked_for(header: Option<&str>, token: &str, name: &str, r: Result<(), Refusal>)
    requires
        valid_token(token@),
        call_ensures(requested_profile, (header, token, name), r),
    ensures
        r is Ok <==> shows(header, token) && valid_profile_name(name@),
        r matches Err(e) ==> e.status == if shows(header, token) {
            400int
        } else {
            401int
        },
{
    law_bearer_of_valid_token(token@, header_text(header));
}

/// A refusal tells what was wrong: what could not be read, the range of a pause, the name that
/// was refused.
pub proof fn law_refusals_tell_why(
    header: Option<&str>,
    token: &str,
    pause: Result<SnoozeReq, String>,
    s: &mut Sentinel,
    now: u64,
    a: Result<SnoozeBody, Refusal>,
    request: Result<DomainReq, String>,
    b: Result<String, Refusal>,
    list: &mut Vec<String>,
    domain: Result<String, String>,
    c: Result<AllowlistBody, Refusal>,
    other: &mut Vec<String>,
    d: Result<AllowlistBody, Refusal>,
    profile: &str,
    content: Result<String, ProfileError>,
    e: Result<ProfileBody, Refusal>,
)
    requires
        valid_token(token@),
        shows(header, token),
        call_ensures(handle_snooze, (header, token, pause, s, now), a),
        call_ensures(requested_domain, (header, token, request), b),
        call_ensures(handle_allow, (list, domain), c),
        call_ensures(handle_unallow, (other, domain), d),
        call_ensures(handle_profile_show, (profile, content), e),
    ensures
        pause matches Err(t) ==> a is Err && opt_text(a->Err_0.body.detail) == Some(t@),
        pause matches Ok(q) ==> (a is Err ==> opt_text(a->Err_0.body.detail) == Some(
            "secs must be in [1, 86400]"@,
        )),
        request matches Err(t) ==> b is Err && opt_text(b->Err_0.body.detail) == Some(t@)
            && b->Err_0.body.error@ == "invalid_body"@,
        domain matches Err(t) ==> c is Err && opt_text(c->Err_0.body.detail) == Some(t@),
        domain matches Err(t) ==> d is Err && opt_text(d->Err_0.body.detail) == Some(t@),
        content matches Err(ProfileError::NotFound(_)) ==> opt_text(e->Err_0.body.detail) == Some(
            "profile '"@ + profile@ + "' not found"@,
        ),
        content matches Err(ProfileError::InvalidName(_)) ==> opt_text(e->Err_0.body.detail) == Some(
            "profile name '"@ + profile@ + "' is invalid"@,
        ),
{
    law_bearer_of_valid_token(token@, header_text(header));
}

/// A restore that found nothing, or broke off, says so; where clients are not counted the answer
/// says which setting is off.
pub proof fn law_failures_say_what_is_missing(
    none: Answer<RestoreBody>,
    broken: Answer<RestoreBody>,
    end: RestoreEnd,
    failed: Answer<RestoreBody>,
    log_clients: bool,
    off: Option<ClientsBody>,
    mode: QueryLogMode,
    hidden: Option<ClientsBody>,
)
    requires
        call_ensures(handle_restore, (RestoreEnd::NoSnapshot,), none),
        call_ensures(handle_restore, (RestoreEnd::BrokeOff,), broken),
        end is Failed || end is Unreadable,
        call_ensures(handle_restore, (end,), failed),
        call_ensures(clients_off, (QueryLogMode::Off, log_clients), off),
        mode != QueryLogMode::Off,
        call_ensures(clients_off, (mode, false), hidden),
    ensures
        none.status == 409 && opt_text(none.body.error) == Some(
            "no DNS snapshot found; takeover may not have been run"@,
        ),
        broken.status == 500 && opt_text(broken.body.error) == Some(
            "internal error: restore task failed"@,
        ),
        failed.status == 500,
        off is Some && opt_text(off->0.explanation) == Some(
            "privacy.query_log is off; no client data is recorded"@,
        ),
        hidden is Some && opt_text(hidden->0.explanation) == Some(
            "network_guard.log_clients is off; set it to true to enable per-client stats"@,
        ),
{
}

/// Why the daemon stands by is told as the sentinel tells it; and looking at the status ends a
/// pause that is over, but changes nothing else.
pub proof fn law_the_status_is_what_the_sentinel_says(
    header: Option<&str>,
    token: &str,
    s: &mut Sentinel,
    now: u64,
    rules: RulesStatus,
    metrics: &Metrics,
    uptime: u64,
    privacy: &PrivacyConfig,
    profile: Option<String>,
    version: &str,
    r: Result<StatusBody, Refusal>,
    told: (String, Option<String>),
    log: &str,
)
    requires
        valid_token(token@),
        shows(header, token),
        call_ensures(
            handle_status,
            (header, token, s, now, rules, metrics, uptime, privacy, profile, version),
            r,
        ),
        call_ensures(Sentinel::state_api, (final(s),), told),
        call_ensures(query_log_mode_to_str, (privacy.query_log,), log),
    ensures
        r is Ok,
        r matches Ok(b) ==> b.state@ == told.0@ && opt_text(b.standing_by_reason) == opt_text(told.1)
            && b.privacy.query_log@ == log@,
        final(s).engine_until() == old(s).engine_until(),
        old(s).guard() matches GuardModel::Snoozed(until) ==> (now < until ==> final(s).guard()
            == old(s).guard()) && (until <= now ==> final(s).guard() is Filtering),
        !(old(s).guard() is Snoozed) ==> final(s).guard() == old(s).guard(),
{
    law_bearer_of_valid_token(token@, header_text(header));
}

/// Each answer about the log names the mode of the log.
pub proof fn law_answers_name_the_log_mode(
    mode: QueryLogMode,
    log: &str,
    records: &Vec<crate::querylog::QueryRecord>,
    a: QueriesBody,
    rows: Option<Vec<crate::rollup::HistoryBucket>>,
    b: HistoryBody,
    blocked: &Vec<crate::rollup::TopEntry>,
    allowed: &Vec<crate::rollup::TopEntry>,
    c: TopBody,
)
    requires
        call_ensures(query_log_mode_to_str, (mode,), log),
        call_ensures(handle_queries_recent, (records, mode), a),
        call_ensures(handle_stats_history, (mode, rows), b),
        call_ensures(handle_stats_top, (mode, blocked, allowed), c),
    ensures
        a.log_mode@ == log@,
        b.log_mode@ == log@,
        c.log_mode@ == log@,
{
}

/// What a reload reports as applied, and as waiting for a restart, is what sets the profile apart
/// from the settings in force.
pub proof fn law_a_reload_reports_the_difference(
    name: &str,
    c: HushConfig,
    current: &mut HushConfig,
    active: &mut Option<String>,
    r: Result<Reloaded, Refusal>,
    d: crate::profiles::ReloadResult,
)
    requires
        call_ensures(
            handle_config_reload,
            (name, Ok::<HushConfig, ProfileError>(c), current, active),
            r,
        ),
        call_ensures(classify_reload, (old(current), &c), d),
    ensures
        r is Ok,
        texts(r->Ok_0.body.applied@) == texts(d.applied@),
        texts(r->Ok_0.body.requires_restart@) == texts(d.requires_restart@),
{
}

}
