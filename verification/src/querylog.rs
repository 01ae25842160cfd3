//! What is recorded of a query, and what of it may be stored.
use vstd::prelude::*;
use vstd::string::*;
use crate::config::QueryLogMode;
use crate::net::IpAddr;

verus! {

/// What stands in for a name that must not be stored.
pub const REDACTED_QNAME: &'static str = "<redacted>";

/// What is done with a query.
#[derive(Debug, Clone, Copy, PartialEq, Eq, Structural)]
pub enum Verdict {
    /// Answered by the sinkhole.
    Block,
    /// Forwarded upstream.
    Forward,
    /// Forwarded to the local resolver.
    ForwardLocal,
}

/// Why it is done.
#[derive(Debug, PartialEq, Eq)]
pub enum Reason {
    /// Filtering is paused.
    Snoozed,
    /// The name is local.
    LocalName,
    /// The user allowed the name.
    UserAllowed,
    /// A list allows the name.
    ListAllowed,
    /// A list blocks the name.
    ListBlocked,
    /// No rule matched.
    NoMatch,
    /// The browser-DoH canary was asked for.
    BrowserDohCanary,
    /// Private Relay is blocked.
    PrivateRelayBlocked,
    /// Private Relay is let through.
    PrivateRelayProtected,
    /// A blocked name stands behind a CNAME.
    CnameCloaked { hop: String },
    /// A public name resolved to a private address.
    RebindBlocked { addr: String },
}

/// What a [`Reason`] says.
pub enum ReasonModel {
    Snoozed,
    LocalName,
    UserAllowed,
    ListAllowed,
    ListBlocked,
    NoMatch,
    BrowserDohCanary,
    PrivateRelayBlocked,
    PrivateRelayProtected,
    CnameCloaked(Seq<char>),
    RebindBlocked(Seq<char>),
}

impl View for Reason {
    type V = ReasonModel;

    open spec fn view(&self) -> ReasonModel {
        match self {
            Reason::Snoozed => ReasonModel::Snoozed,
            Reason::LocalName => ReasonModel::LocalName,
            Reason::UserAllowed => ReasonModel::UserAllowed,
            Reason::ListAllowed => ReasonModel::ListAllowed,
            Reason::ListBlocked => ReasonModel::ListBlocked,
            Reason::NoMatch => ReasonModel::NoMatch,
            Reason::BrowserDohCanary => ReasonModel::BrowserDohCanary,
            Reason::PrivateRelayBlocked => ReasonModel::PrivateRelayBlocked,
            Reason::PrivateRelayProtected => ReasonModel::PrivateRelayProtected,
            Reason::CnameCloaked { hop } => ReasonModel::CnameCloaked(hop@),
            Reason::RebindBlocked { addr } => ReasonModel::RebindBlocked(addr@),
        }
    }
}

/// One query, as the log in memory holds it.
#[derive(Debug, PartialEq, Eq)]
pub struct QueryRecord {
    /// When the query came, in milliseconds since the Unix epoch.
    pub ts_unix_ms: u64,
    /// The name asked for.
    pub qname: String,
    /// The type asked for.
    pub qtype: u16,
    /// What was done.
    pub verdict: Verdict,
    /// Why.
    pub reason: Reason,
    /// How long the answer took, where upstream was asked.
    pub upstream_ms: Option<u32>,
    /// Who asked, where clients are logged.
    pub client: Option<IpAddr>,
}

/// What a [`QueryRecord`] says.
pub struct RecordModel {
    pub ts_unix_ms: u64,
    pub qname: Seq<char>,
    pub qtype: u16,
    pub verdict: Verdict,
    pub reason: ReasonModel,
    pub upstream_ms: Option<u32>,
    pub client: Option<IpAddr>,
}

impl View for QueryRecord {
    type V = RecordModel;

    open spec fn view(&self) -> RecordModel {
        RecordModel {
            ts_unix_ms: self.ts_unix_ms,
            qname: self.qname@,
            qtype: self.qtype,
            verdict: self.verdict,
            reason: self.reason@,
            upstream_ms: self.upstream_ms,
            client: self.client,
        }
    }
}

/// One query, as the database holds it.
#[derive(Debug, PartialEq, Eq)]
pub struct RollupRecord {
    /// When the query came, in milliseconds since the Unix epoch.
    pub ts_ms: u64,
    /// The name asked for, or its stand-in.
    pub qname: String,
    /// The type asked for.
    pub qtype: u16,
    /// What was done.
    pub verdict: String,
    /// Why.
    pub reason: String,
    /// Who asked, where clients are logged.
    pub client: Option<IpAddr>,
}

/// What a [`RollupRecord`] says.
pub struct RollupModel {
    pub ts_ms: u64,
    pub qname: Seq<char>,
    pub qtype: u16,
    pub verdict: Seq<char>,
    pub reason: Seq<char>,
    pub client: Option<IpAddr>,
}

impl View for RollupRecord {
    type V = RollupModel;

    open spec fn view(&self) -> RollupModel {
        RollupModel {
            ts_ms: self.ts_ms,
            qname: self.qname@,
            qtype: self.qtype,
            verdict: self.verdict@,
            reason: self.reason@,
            client: self.client,
        }
    }
}

/// What the log calls a verdict.
pub open spec fn verdict_text(v: Verdict) -> Seq<char> {
    match v {
        Verdict::Block => "block"@,
        Verdict::Forward => "forward"@,
        Verdict::ForwardLocal => "forward_local"@,
    }
}

/// What the log calls a reason.
pub open spec fn reason_text(r: ReasonModel) -> Seq<char> {
    match r {
        ReasonModel::Snoozed => "snoozed"@,
        ReasonModel::LocalName => "local_name"@,
        ReasonModel::UserAllowed => "user_allowed"@,
        ReasonModel::ListAllowed => "list_allowed"@,
        ReasonModel::ListBlocked => "list_blocked"@,
        ReasonModel::NoMatch => "no_match"@,
        ReasonModel::BrowserDohCanary => "browser_doh_canary"@,
        ReasonModel::PrivateRelayBlocked => "private_relay_blocked"@,
        ReasonModel::PrivateRelayProtected => "private_relay_protected"@,
        ReasonModel::CnameCloaked(hop) => "cname_cloaked:"@ + hop,
        ReasonModel::RebindBlocked(addr) => "rebind_blocked:"@ + addr,
    }
}

/// What the anonymous log calls a reason: without the name or address in it.
pub open spec fn anonymous_reason_text(r: ReasonModel) -> Seq<char> {
    match r {
        ReasonModel::CnameCloaked(_) => "cname_cloaked:<redacted>"@,
        ReasonModel::RebindBlocked(_) => "rebind_blocked:<redacted>"@,
        _ => reason_text(r),
    }
}

/// What the log calls a verdict.
pub fn verdict_for_rollup(v: Verdict) -> (r: String)
    ensures
        r@ == verdict_text(v),
{
    match v {
        Verdict::Block => "block".to_owned(),
        Verdict::Forward => "forward".to_owned(),
        Verdict::ForwardLocal => "forward_local".to_owned(),
    }
}

/// What the log calls a reason.
pub fn reason_for_rollup(reason: &Reason) -> (r: String)
    ensures
        r@ == reason_text(reason@),
{
    match reason {
        Reason::Snoozed => "snoozed".to_owned(),
        Reason::LocalName => "local_name".to_owned(),
        Reason::UserAllowed => "user_allowed".to_owned(),
        Reason::ListAllowed => "list_allowed".to_owned(),
        Reason::ListBlocked => "list_blocked".to_owned(),
        Reason::NoMatch => "no_match".to_owned(),
        Reason::BrowserDohCanary => "browser_doh_canary".to_owned(),
        Reason::PrivateRelayBlocked => "private_relay_blocked".to_owned(),
        Reason::PrivateRelayProtected => "private_relay_protected".to_owned(),
        Reason::CnameCloaked { hop } => "cname_cloaked:".to_owned().concat(hop.as_str()),
        Reason::RebindBlocked { addr } => "rebind_blocked:".to_owned().concat(addr.as_str()),
    }
}

/// What the anonymous log calls a reason.
pub fn reason_for_rollup_anonymous(reason: &Reason) -> (r: String)
    ensures
        r@ == anonymous_reason_text(reason@),
{
    match reason {
        Reason::CnameCloaked { .. } => "cname_cloaked:<redacted>".to_owned(),
        Reason::RebindBlocked { .. } => "rebind_blocked:<redacted>".to_owned(),
        other => reason_for_rollup(other),
    }
}

/// What the database holds of a query in a log mode.
pub open spec fn rollup_of(mode: QueryLogMode, rec: RecordModel) -> RollupModel {
    RollupModel {
        ts_ms: rec.ts_unix_ms,
        qname: if mode == QueryLogMode::Anonymous {
            REDACTED_QNAME@
        } else {
            rec.qname
        },
        qtype: rec.qtype,
        verdict: verdict_text(rec.verdict),
        reason: if mode == QueryLogMode::Anonymous {
            anonymous_reason_text(rec.reason)
        } else {
            reason_text(rec.reason)
        },
        client: rec.client,
    }
}

/// What the database holds of a query in a log mode.
pub fn push_query(mode: QueryLogMode, rec: &QueryRecord) -> (r: RollupRecord)
    ensures
        r@ == rollup_of(mode, rec@),
{
    let anonymous = mode == QueryLogMode::Anonymous;
    RollupRecord {
        ts_ms: rec.ts_unix_ms,
        qname: if anonymous {
            REDACTED_QNAME.to_owned()
        } else {
            rec.qname.clone()
        },
        qtype: rec.qtype,
        verdict: verdict_for_rollup(rec.verdict),
        reason: if anonymous {
            reason_for_rollup_anonymous(&rec.reason)
        } else {
            reason_for_rollup(&rec.reason)
        },
        client: rec.client,
    }
}

/// Two reasons of the same kind.
pub open spec fn same_kind(a: ReasonModel, b: ReasonModel) -> bool {
    match (a, b) {
        (ReasonModel::CnameCloaked(_), ReasonModel::CnameCloaked(_)) => true,
        (ReasonModel::RebindBlocked(_), ReasonModel::RebindBlocked(_)) => true,
        _ => a == b,
    }
}

/// The anonymous log keeps nothing of the name asked for, nor of a name or address in the
/// reason: two queries that differ in those only are stored alike.
pub proof fn law_anonymous_log_holds_no_names(a: RecordModel, b: RecordModel)
    requires
        a.ts_unix_ms == b.ts_unix_ms,
        a.qtype == b.qtype,
        a.verdict == b.verdict,
        a.client == b.client,
        same_kind(a.reason, b.reason),
    ensures
        rollup_of(QueryLogMode::Anonymous, a) == rollup_of(QueryLogMode::Anonymous, b),
{
}

/// The log tells verdicts apart by three words.
pub proof fn law_verdicts_are_told_apart(v: Verdict, r: String)
    requires
        call_ensures(verdict_for_rollup, (v,), r),
    ensures
        r@ == "block"@ <==> v == Verdict::Block,
        r@ == "forward"@ <==> v == Verdict::Forward,
        r@ == "forward_local"@ <==> v == Verdict::ForwardLocal,
{
    reveal_strlit("block");
    reveal_strlit("forward");
    reveal_strlit("forward_local");
    assert("block"@.len() == 5 && "forward"@.len() == 7 && "forward_local"@.len() == 13);
}

/// A reason is told by a word of its own, with the name or the address that it is about behind
/// it where there is one; the anonymous log tells the same word and never the name.
pub proof fn law_reasons_are_told(reason: &Reason, full: String, anonymous: String)
    requires
        call_ensures(reason_for_rollup, (reason,), full),
        call_ensures(reason_for_rollup_anonymous, (reason,), anonymous),
    ensures
        reason is Snoozed ==> full@ == "snoozed"@,
        reason is LocalName ==> full@ == "local_name"@,
        reason is UserAllowed ==> full@ == "user_allowed"@,
        reason is ListAllowed ==> full@ == "list_allowed"@,
        reason is ListBlocked ==> full@ == "list_blocked"@,
        reason is NoMatch ==> full@ == "no_match"@,
        reason is BrowserDohCanary ==> full@ == "browser_doh_canary"@,
        reason is PrivateRelayBlocked ==> full@ == "private_relay_blocked"@,
        reason is PrivateRelayProtected ==> full@ == "private_relay_protected"@,
        *reason matches Reason::CnameCloaked { hop } ==> full@ == "cname_cloaked:"@ + hop@ && anonymous@
            == "cname_cloaked:"@ + "<redacted>"@,
        *reason matches Reason::RebindBlocked { addr } ==> full@ == "rebind_blocked:"@ + addr@
            && anonymous@ == "rebind_blocked:"@ + "<redacted>"@,
        !(reason is CnameCloaked) && !(reason is RebindBlocked) ==> anonymous@ == full@,
{
    reveal_strlit("cname_cloaked:");
    reveal_strlit("rebind_blocked:");
    reveal_strlit("<redacted>");
    reveal_strlit("cname_cloaked:<redacted>");
    reveal_strlit("rebind_blocked:<redacted>");
    assert("cname_cloaked:"@ + "<redacted>"@ =~= "cname_cloaked:<redacted>"@);
    assert("rebind_blocked:"@ + "<redacted>"@ =~= "rebind_blocked:<redacted>"@);
}

/// What the database holds of a query is when it came, its type, who asked, what was done and why,
/// and the name unless the log is anonymous.
pub proof fn law_queries_are_stored_as_they_were(
    mode: QueryLogMode,
    rec: &QueryRecord,
    r: RollupRecord,
    verdict: String,
    full: String,
    anonymous: String,
)
    requires
        call_ensures(push_query, (mode, rec), r),
        call_ensures(verdict_for_rollup, (rec.verdict,), verdict),
        call_ensures(reason_for_rollup, (&rec.reason,), full),
        call_ensures(reason_for_rollup_anonymous, (&rec.reason,), anonymous),
    ensures
        r.ts_ms == rec.ts_unix_ms,
        r.qtype == rec.qtype,
        r.client == rec.client,
        r.verdict@ == verdict@,
        r.qname@ == if mode == QueryLogMode::Anonymous {
            "<redacted>"@
        } else {
            rec.qname@
        },
        r.reason@ == if mode == QueryLogMode::Anonymous {
            anonymous@
        } else {
            full@
        },
{
}

}
