//! Request and response bodies of the control API.
use vstd::prelude::*;
use vstd::string::*;
use crate::text::copy_of;
use crate::text::opt_text;

verus! {

/// Rule-set statistics embedded in [`StatusBody`].
#[derive(Debug)]
pub struct RulesStatus {
    /// Number of blocked domains in the active rule set.
    pub block_count: u64,
    /// Number of allow-exception domains in the active rule set.
    pub allow_count: u64,
    /// Unix timestamp (ms) when the rules were built.
    pub built_unix_ms: u64,
    /// Names of the contributing list sources.
    pub sources: Vec<String>,
}

/// Per-query counters embedded in [`StatusBody`].
#[derive(Debug)]
pub struct Counters {
    /// Total queries handled since daemon start.
    pub queries_total: u64,
    /// Queries answered with the sinkhole response.
    pub blocked_total: u64,
    /// Queries forwarded to upstream DoH/Do53.
    pub forwarded_total: u64,
    /// Queries forwarded to the local (DHCP) resolver.
    pub local_total: u64,
    /// Queries that resulted in SERVFAIL.
    pub servfail_total: u64,
}

/// Privacy feature toggles embedded in [`StatusBody`].
#[derive(Debug)]
pub struct PrivacyStatus {
    /// Whether the browser-DoH canary (`use-application-dns.net`) responds
    /// with NXDOMAIN.  Corresponds to `[privacy].browser_doh_canary`.
    pub browser_doh_canary: bool,
    /// Whether CNAME-chain inspection is active.
    /// Corresponds to `[privacy].cname_inspection`.
    pub cname_inspection: bool,
    /// Query-log privacy mode: `"full"`, `"anonymous"`, or `"off"`.
    /// Corresponds to `[privacy].query_log`.
    pub query_log: String,
    /// Whether the DoH-bypass blocklist is active.
    /// Corresponds to `[privacy].block_doh_bypass`.
    pub block_doh_bypass: bool,
    /// Whether Private Relay blocking is active.
    /// Corresponds to `[privacy].block_private_relay`.
    pub block_private_relay: bool,
    /// Whether RFC 8467 EDNS padding is active on encrypted upstream queries.
    /// Corresponds to `[privacy].doh_padding`.
    pub doh_padding: bool,
    /// Whether DNS rebinding protection is active.
    /// Corresponds to `[privacy].rebind_protection`.
    pub rebind_protection: bool,
}

/// Response body for `GET /v0/status`.
#[derive(Debug)]
pub struct StatusBody {
    /// Daemon state: `"filtering"`, `"snoozed"`, `"standing_by"`, or `"attention"`.
    pub state: String,
    /// Unix timestamp (ms) when the current snooze expires; `null` if not snoozed.
    pub snoozed_until_unix_ms: Option<u64>,
    /// Why we are standing by (e.g. `"vpn"`, `"portal"`, `"user_dns"`);
    /// `null` when not in `standing_by` state.
    pub standing_by_reason: Option<String>,
    /// Daemon release version string.
    pub version: String,
    /// Seconds since daemon start.
    pub uptime_secs: u64,
    /// Rule-set statistics.
    pub rules: RulesStatus,
    /// Cumulative query counters.
    pub counters: Counters,
    /// Privacy feature toggle status.
    pub privacy: PrivacyStatus,
    /// Active profile name; `null` when no profile is active (normal config path).
    pub active_profile: Option<String>,
}

// ── /v0/takeover + /v0/restore ────────────────────────────────────────────────

/// Response body for `POST /v0/takeover`.
#[derive(Debug)]
pub struct TakeoverBody {
    /// Whether the takeover succeeded.
    pub success: bool,
    /// Optional error message on failure.
    pub error: Option<String>,
}

/// Response body for `POST /v0/restore`.
#[derive(Debug)]
pub struct RestoreBody {
    /// Whether the restore succeeded.
    pub success: bool,
    /// Optional error message on failure.
    pub error: Option<String>,
}

// ── /v0/queries/recent ────────────────────────────────────────────────────────

/// Query parameters for `GET /v0/queries/recent`.
#[derive(Debug)]
pub struct RecentQueryParams {
    /// Max records to return; clamped to `[1, 1000]`.
    pub n: Option<u32>,
    /// If true, only blocked queries are returned.
    pub blocked_only: Option<bool>,
}

/// A single DNS query record.
#[derive(Debug)]
pub struct QueryRecord {
    /// Unix timestamp of the query in milliseconds.
    pub ts_unix_ms: u64,
    /// Queried domain name (forward form, no trailing dot).
    pub qname: String,
    /// DNS query type (e.g., 1 = A, 28 = AAAA).
    pub qtype: u16,
    /// What was done: `"block"`, `"forward"`, or `"forward_local"`.
    pub verdict: String,
    /// Why the verdict was produced.
    pub reason: String,
    /// Upstream round-trip in milliseconds; `null` for blocked queries.
    pub upstream_ms: Option<u32>,
}

/// Response body for `GET /v0/queries/recent`.
///
/// `log_mode` is always there, so that callers can tell an anonymous or switched-off log
/// from one without queries.
#[derive(Debug)]
pub struct QueriesBody {
    /// Records, newest first, at most `n` (clamped to `[1, 1000]` server-side).
    /// Empty when `log_mode` is `"off"`.
    pub queries: Vec<QueryRecord>,
    /// Query-log privacy mode: `"full"`, `"anonymous"`, or `"off"`.
    /// In `"anonymous"` mode qnames are stored as `"<redacted>"`.
    /// In `"off"` mode the ring is never written, so `queries` is always empty.
    pub log_mode: String,
}


// ── /v0/snooze ────────────────────────────────────────────────────────────────

/// Request body for `POST /v0/snooze`.
#[derive(Debug)]
pub struct SnoozeReq {
    /// Duration in seconds (must be in `1..=86400`).
    pub secs: u64,
}

/// Response body for `POST /v0/snooze`.
#[derive(Debug)]
pub struct SnoozeBody {
    /// Unix timestamp (ms) when the snooze expires.
    pub snoozed_until_unix_ms: u64,
}

// ── /v0/resume ────────────────────────────────────────────────────────────────

/// Response body for `POST /v0/resume`.
#[derive(Debug)]
pub struct ResumeBody {
    /// New daemon state after resuming (should be `"filtering"`).
    pub state: String,
}

// ── /v0/allow, /v0/unallow ────────────────────────────────────────────────────

/// Request body for `POST /v0/allow` and `POST /v0/unallow`.
#[derive(Debug)]
pub struct DomainReq {
    /// Domain name to add or remove.
    pub domain: String,
}

/// Response body for `POST /v0/allow`, `POST /v0/unallow`, `GET /v0/allowlist`.
#[derive(Debug)]
pub struct AllowlistBody {
    /// Full allowlist after the operation.
    pub allowed: Vec<String>,
}

// ── /v0/lists ─────────────────────────────────────────────────────────────────

/// Per-source status record embedded in [`ListsBody`].
#[derive(Debug)]
pub struct ListSourceStatus {
    /// Human-readable source name.
    pub name: String,
    /// Whether the source is enabled (always `true`).
    pub enabled: bool,
    /// Number of rules loaded from this source, once counted.
    pub rule_count: Option<u64>,
    /// Unix timestamp (ms) of the last successful fetch; `null` if never fetched.
    pub last_fetched_unix_ms: Option<u64>,
    /// HTTP status from the last fetch; `null` if never attempted.
    pub last_http_status: Option<u16>,
    /// Error message from the last fetch; `null` if last fetch succeeded.
    pub last_error: Option<String>,
    /// Catalog category key (e.g. `"hagezi-normal"`) for catalog sources;
    /// `null` for user-custom sources not in the compiled-in catalog.
    pub category: Option<String>,
    /// License string declared by the upstream project; `null` when not stated
    /// or for user-custom sources.
    pub license: Option<String>,
    /// Attribution/credit string for the upstream project; `null` for
    /// user-custom sources not in the compiled-in catalog.
    pub attribution: Option<String>,
}

/// Response body for `GET /v0/lists`.
#[derive(Debug)]
pub struct ListsBody {
    /// The configured list preset (`"minimal"`, `"balanced"`, `"strict"`, `"aggressive"`, or `"custom"`).
    pub preset: String,
    /// Per-source status records.
    pub sources: Vec<ListSourceStatus>,
}

// ── /v0/lists/refresh ─────────────────────────────────────────────────────────

/// Response body for `POST /v0/lists/refresh` (HTTP 202).
#[derive(Debug)]
pub struct ListsRefreshBody {
    /// Always `true`; indicates the refresh task was kicked off.
    pub started: bool,
}

// ── /v0/stats/history ─────────────────────────────────────────────────────────

/// Query parameters for `GET /v0/stats/history`.
#[derive(Debug)]
pub struct HistoryParams {
    /// Look-back window in hours (default 24, max 8760 = 365 days).
    pub hours: Option<u32>,
    /// Bucket width in seconds (default 3600).
    pub bucket: Option<u32>,
}

/// A single time-bucket in the history response.
#[derive(Debug)]
pub struct HistoryBucket {
    /// Bucket start (Unix ms, aligned to `bucket` seconds).
    pub ts: u64,
    /// Total queries in this bucket.
    pub total: u64,
    /// Blocked queries in this bucket.
    pub blocked: u64,
}

/// Response body for `GET /v0/stats/history`.
#[derive(Debug)]
pub struct HistoryBody {
    /// Ordered list of time-buckets, oldest first.
    pub buckets: Vec<HistoryBucket>,
    /// Query-log privacy mode: `"full"`, `"anonymous"`, or `"off"`.
    pub log_mode: String,
}

// ── /v0/stats/top ─────────────────────────────────────────────────────────────

/// Query parameters for `GET /v0/stats/top`.
#[derive(Debug)]
pub struct TopParams {
    /// Maximum entries to return per list (default 20, max 100).
    pub n: Option<u32>,
    /// Look-back window in hours (default 168 = 7 days).
    pub hours: Option<u32>,
}

/// A single entry in the top-domains list.
#[derive(Debug)]
pub struct TopEntry {
    /// Domain name.
    pub qname: String,
    /// Hit count.
    pub count: u64,
}

/// Response body for `GET /v0/stats/top`.
#[derive(Debug)]
pub struct TopBody {
    /// Top blocked domains, descending by count.
    /// Empty when `log_mode` is `"anonymous"` or `"off"`.
    pub blocked: Vec<TopEntry>,
    /// Top allowed (forwarded) domains, descending by count.
    /// Empty when `log_mode` is `"anonymous"` or `"off"`.
    pub allowed: Vec<TopEntry>,
    /// Query-log privacy mode: `"full"`, `"anonymous"`, or `"off"`.
    pub log_mode: String,
}

// ── /v0/clients ───────────────────────────────────────────────────────────────

/// Query parameters for `GET /v0/clients`.
#[derive(Debug)]
pub struct ClientsParams {
    /// Look-back window in hours (default 24, max 8760 = 365 days).
    pub hours: Option<u32>,
}

/// A single per-client statistics row.
#[derive(Debug)]
pub struct ClientEntry {
    /// Client IP address.
    pub client: String,
    /// Resolved hostname from passive mDNS insight; `null` when unknown.
    pub name: Option<String>,
    /// Total queries from this client in the window.
    pub total: u64,
    /// Blocked queries from this client in the window.
    pub blocked: u64,
}

/// Response body for `GET /v0/clients`.
///
/// When `log_clients = false` (the default), `clients` is empty and
/// `log_clients_enabled` is `false` — the `explanation` field tells the
/// caller why.
#[derive(Debug)]
pub struct ClientsBody {
    /// Whether `network_guard.log_clients` is on.
    pub log_clients_enabled: bool,
    /// Human-readable explanation when `log_clients_enabled = false`.
    pub explanation: Option<String>,
    /// Per-client statistics, ordered by total queries descending.
    pub clients: Vec<ClientEntry>,
}

// ── /v0/config/reload ─────────────────────────────────────────────────────────

/// Request body for `POST /v0/config/reload`.
#[derive(Debug)]
pub struct ConfigReloadReq {
    /// Profile name to load from `state_dir/profiles/<name>.toml`.
    /// When absent the endpoint just re-reads the current active profile
    /// (or no-ops when no profile is active).
    pub profile: Option<String>,
}

/// Response body for `POST /v0/config/reload`.
#[derive(Debug)]
pub struct ConfigReloadBody {
    /// Config sections that were applied immediately without restart.
    /// E.g. `["lists", "upstream", "privacy"]`.
    pub applied: Vec<String>,
    /// Config sections that require a daemon restart to take effect.
    /// E.g. `["listen", "inbound_tls"]`.
    pub requires_restart: Vec<String>,
}

// ── /v0/profiles ──────────────────────────────────────────────────────────────

/// A single profile entry embedded in [`ProfilesBody`].
#[derive(Debug)]
pub struct ProfileEntry {
    /// Profile name (filename without `.toml`).
    pub name: String,
    /// Whether this is the currently active profile.
    pub active: bool,
}

/// Response body for `GET /v0/profiles`.
#[derive(Debug)]
pub struct ProfilesBody {
    /// List of available profiles.
    pub profiles: Vec<ProfileEntry>,
    /// Currently active profile name; `null` when none is active.
    pub active: Option<String>,
}

/// Response body for `GET /v0/profiles/<name>`.
#[derive(Debug)]
pub struct ProfileBody {
    /// Profile name.
    pub name: String,
    /// Raw TOML content of the profile.
    pub content: String,
}

// ── Errors ──────────────────────────────────────────────────────────────────

/// Body of an error response.
#[derive(Debug)]
pub struct ApiErrorBody {
    /// What went wrong, as a short code.
    pub error: String,
    /// More about it, where there is more to say.
    pub detail: Option<String>,
}

impl ApiErrorBody {
    /// An error without detail.
    pub fn simple(error: &str) -> (r: ApiErrorBody)
        ensures
            r.error@ == error@,
            r.detail is None,
    {
        ApiErrorBody { error: copy_of(error), detail: None }
    }

    /// An error with detail.
    pub fn with_detail(error: &str, detail: &str) -> (r: ApiErrorBody)
        ensures
            r.error@ == error@,
            opt_text(r.detail) == Some(detail@),
    {
        ApiErrorBody { error: copy_of(error), detail: Some(copy_of(detail)) }
    }
}

/// An error tells its text, and its detail just where there is one.
pub proof fn law_what_an_error_tells(error: &str, detail: &str, plain: ApiErrorBody, full: ApiErrorBody)
    requires
        call_ensures(ApiErrorBody::simple, (error,), plain),
        call_ensures(ApiErrorBody::with_detail, (error, detail), full),
    ensures
        plain.error@ == error@ && plain.detail is None,
        full.error@ == error@ && full.detail is Some && full.detail->0@ == detail@,
{
}

}
