//! The settings that the daemon's rules read.
use vstd::prelude::*;
use vstd::string::*;
use crate::text::{copy_of, same_opt_text, same_text, same_texts, trim};
use crate::text::{opt_text, texts, trimmed};

verus! {

/// What the query log keeps.
#[derive(Debug, Clone, Copy, PartialEq, Eq, Structural)]
pub enum QueryLogMode {
    /// Everything.
    Full,
    /// Everything but names and addresses that tell who was asked for.
    Anonymous,
    /// Nothing.
    Off,
}

/// How a blocked query is answered.
#[derive(Debug, Clone, Copy, PartialEq, Eq, Structural)]
pub enum BlockAction {
    /// With the unspecified address.
    NullIp,
    /// With NXDOMAIN.
    Nxdomain,
}

/// A source of a block list.
#[derive(Debug)]
pub struct ListSource {
    /// Its name.
    pub name: String,
    /// Where it is fetched from.
    pub url: String,
}

/// The names and URLs of the sources.
pub open spec fn source_texts(v: Seq<ListSource>) -> Seq<(Seq<char>, Seq<char>)> {
    v.map_values(|s: ListSource| (s.name@, s.url@))
}

/// Whether two lists hold the same sources in the same order.
fn same_sources(a: &Vec<ListSource>, b: &Vec<ListSource>) -> (r: bool)
    ensures
        r == (source_texts(a@) == source_texts(b@)),
{
    if a.len() != b.len() {
        proof {
            assert(source_texts(a@).len() != source_texts(b@).len());
        }
        return false;
    }
    let mut i: usize = 0;
    while i < a.len()
        invariant
            0 <= i <= a.len(),
            a.len() == b.len(),
            forall|j: int| 0 <= j < i ==> #[trigger] source_texts(a@)[j] == source_texts(b@)[j],
        decreases a.len() - i,
    {
        if !same_text(a[i].name.as_str(), b[i].name.as_str()) || !same_text(
            a[i].url.as_str(),
            b[i].url.as_str(),
        ) {
            proof {
                assert(source_texts(a@)[i as int] != source_texts(b@)[i as int]);
            }
            return false;
        }
        i += 1;
    }
    proof {
        assert(source_texts(a@) =~= source_texts(b@));
    }
    true
}

/// Where the daemon listens.
#[derive(Debug)]
pub struct ListenConfig {
    /// UDP addresses.
    pub udp: Vec<String>,
    /// TCP addresses.
    pub tcp: Vec<String>,
}

/// A [`ListenConfig`], with text for its strings.
pub struct ListenSettings {
    pub udp: Seq<Seq<char>>,
    pub tcp: Seq<Seq<char>>,
}

impl View for ListenConfig {
    type V = ListenSettings;

    open spec fn view(&self) -> ListenSettings {
        ListenSettings {
            udp: texts(self.udp@),
            tcp: texts(self.tcp@),
        }
    }
}

impl ListenConfig {
    /// Whether the two hold the same settings.
    pub fn same(&self, other: &ListenConfig) -> (r: bool)
        ensures
            r == (self@ == other@),
    {
        same_texts(&self.udp, &other.udp)
            && same_texts(&self.tcp, &other.tcp)
    }
}

/// The configuration of oblivious lookups.
#[derive(Debug)]
pub struct OdohUpstreamConfig {
    /// The URL of the target.
    pub target: String,
    /// The URL of the relay; empty where queries go to the target itself.
    pub relay: String,
    /// The addresses of target and relay.
    pub bootstrap_ips: Vec<String>,
}

/// An [`OdohUpstreamConfig`], with text for its strings.
pub struct OdohSettings {
    pub target: Seq<char>,
    pub relay: Seq<char>,
    pub bootstrap_ips: Seq<Seq<char>>,
}

impl View for OdohUpstreamConfig {
    type V = OdohSettings;

    open spec fn view(&self) -> OdohSettings {
        OdohSettings {
            target: self.target@,
            relay: self.relay@,
            bootstrap_ips: texts(self.bootstrap_ips@),
        }
    }
}

impl OdohUpstreamConfig {
    /// Whether the two hold the same settings.
    pub fn same(&self, other: &OdohUpstreamConfig) -> (r: bool)
        ensures
            r == (self@ == other@),
    {
        same_text(self.target.as_str(), other.target.as_str())
            && same_text(self.relay.as_str(), other.relay.as_str())
            && same_texts(&self.bootstrap_ips, &other.bootstrap_ips)
    }
}

/// Where queries are forwarded to.
#[derive(Debug)]
pub struct UpstreamConfig {
    /// URLs of DNS-over-HTTPS resolvers.
    pub doh: Vec<String>,
    /// Addresses of plain resolvers.
    pub do53_fallback: Vec<String>,
    /// Oblivious lookups.
    pub odoh: OdohUpstreamConfig,
}

/// A [`UpstreamConfig`], with text for its strings.
pub struct UpstreamSettings {
    pub doh: Seq<Seq<char>>,
    pub do53_fallback: Seq<Seq<char>>,
    pub odoh: OdohSettings,
}

impl View for UpstreamConfig {
    type V = UpstreamSettings;

    open spec fn view(&self) -> UpstreamSettings {
        UpstreamSettings {
            doh: texts(self.doh@),
            do53_fallback: texts(self.do53_fallback@),
            odoh: self.odoh@,
        }
    }
}

impl UpstreamConfig {
    /// Whether the two hold the same settings.
    pub fn same(&self, other: &UpstreamConfig) -> (r: bool)
        ensures
            r == (self@ == other@),
    {
        same_texts(&self.doh, &other.doh)
            && same_texts(&self.do53_fallback, &other.do53_fallback)
            && self.odoh.same(&other.odoh)
    }
}

/// How blocked queries are answered.
#[derive(Debug)]
pub struct BlockConfig {
    /// What the answer is.
    pub action: BlockAction,
    /// How long it may be cached, in seconds.
    pub ttl_secs: u32,
}

/// A [`BlockConfig`], with text for its strings.
pub struct BlockSettings {
    pub action: BlockAction,
    pub ttl_secs: u32,
}

impl View for BlockConfig {
    type V = BlockSettings;

    open spec fn view(&self) -> BlockSettings {
        BlockSettings {
            action: self.action,
            ttl_secs: self.ttl_secs,
        }
    }
}

impl BlockConfig {
    /// Whether the two hold the same settings.
    pub fn same(&self, other: &BlockConfig) -> (r: bool)
        ensures
            r == (self@ == other@),
    {
        self.action == other.action
            && self.ttl_secs == other.ttl_secs
    }
}

/// The block lists.
#[derive(Debug)]
pub struct ListsConfig {
    /// The preset.
    pub preset: String,
    /// Categories beyond the preset.
    pub extra_categories: Vec<String>,
    /// The sources.
    pub sources: Vec<ListSource>,
    /// Hours between refreshes.
    pub refresh_hours: u32,
    /// Minutes by which a refresh may be late.
    pub jitter_minutes: u32,
    /// The directory of the packaged snapshot.
    pub snapshot_dir: Option<String>,
}

/// A [`ListsConfig`], with text for its strings.
pub struct ListsSettings {
    pub preset: Seq<char>,
    pub extra_categories: Seq<Seq<char>>,
    pub sources: Seq<(Seq<char>, Seq<char>)>,
    pub refresh_hours: u32,
    pub jitter_minutes: u32,
    pub snapshot_dir: Option<Seq<char>>,
}

impl View for ListsConfig {
    type V = ListsSettings;

    open spec fn view(&self) -> ListsSettings {
        ListsSettings {
            preset: self.preset@,
            extra_categories: texts(self.extra_categories@),
            sources: source_texts(self.sources@),
            refresh_hours: self.refresh_hours,
            jitter_minutes: self.jitter_minutes,
            snapshot_dir: opt_text(self.snapshot_dir),
        }
    }
}

impl ListsConfig {
    /// Whether the two hold the same settings.
    pub fn same(&self, other: &ListsConfig) -> (r: bool)
        ensures
            r == (self@ == other@),
    {
        same_text(self.preset.as_str(), other.preset.as_str())
            && same_texts(&self.extra_categories, &other.extra_categories)
            && same_sources(&self.sources, &other.sources)
            && self.refresh_hours == other.refresh_hours
            && self.jitter_minutes == other.jitter_minutes
            && same_opt_text(&self.snapshot_dir, &other.snapshot_dir)
    }
}

/// The control API.
#[derive(Debug)]
pub struct ApiConfig {
    /// The address it listens on.
    pub listen: String,
}

/// A [`ApiConfig`], with text for its strings.
pub struct ApiSettings {
    pub listen: Seq<char>,
}

impl View for ApiConfig {
    type V = ApiSettings;

    open spec fn view(&self) -> ApiSettings {
        ApiSettings {
            listen: self.listen@,
        }
    }
}

impl ApiConfig {
    /// Whether the two hold the same settings.
    pub fn same(&self, other: &ApiConfig) -> (r: bool)
        ensures
            r == (self@ == other@),
    {
        same_text(self.listen.as_str(), other.listen.as_str())
    }
}

/// The runtime.
#[derive(Debug)]
pub struct RuntimeConfig {
    /// The settings as they are written: all that matters here is whether they change.
    pub settings: String,
}

/// A [`RuntimeConfig`], with text for its strings.
pub struct RuntimeSettings {
    pub settings: Seq<char>,
}

impl View for RuntimeConfig {
    type V = RuntimeSettings;

    open spec fn view(&self) -> RuntimeSettings {
        RuntimeSettings {
            settings: self.settings@,
        }
    }
}

impl RuntimeConfig {
    /// Whether the two hold the same settings.
    pub fn same(&self, other: &RuntimeConfig) -> (r: bool)
        ensures
            r == (self@ == other@),
    {
        same_text(self.settings.as_str(), other.settings.as_str())
    }
}

/// The sentinel.
#[derive(Debug)]
pub struct SentinelConfig {
    /// A name that always resolves.
    pub canary_domain: String,
    /// Boots in a row that make a crash loop.
    pub breaker_threshold: u32,
    /// The time within which they count, in seconds.
    pub breaker_window_secs: u64,
    /// Seconds between looks at the network.
    pub poll_secs: u64,
    /// A gap between looks that shows that the machine slept, in seconds.
    pub wake_gap_secs: u64,
    /// How long the daemon steps aside for a portal, in seconds.
    pub portal_timebox_secs: u64,
}

/// A [`SentinelConfig`], with text for its strings.
pub struct SentinelSettings {
    pub canary_domain: Seq<char>,
    pub breaker_threshold: u32,
    pub breaker_window_secs: u64,
    pub poll_secs: u64,
    pub wake_gap_secs: u64,
    pub portal_timebox_secs: u64,
}

impl View for SentinelConfig {
    type V = SentinelSettings;

    open spec fn view(&self) -> SentinelSettings {
        SentinelSettings {
            canary_domain: self.canary_domain@,
            breaker_threshold: self.breaker_threshold,
            breaker_window_secs: self.breaker_window_secs,
            poll_secs: self.poll_secs,
            wake_gap_secs: self.wake_gap_secs,
            portal_timebox_secs: self.portal_timebox_secs,
        }
    }
}

impl SentinelConfig {
    /// Whether the two hold the same settings.
    pub fn same(&self, other: &SentinelConfig) -> (r: bool)
        ensures
            r == (self@ == other@),
    {
        same_text(self.canary_domain.as_str(), other.canary_domain.as_str())
            && self.breaker_threshold == other.breaker_threshold
            && self.breaker_window_secs == other.breaker_window_secs
            && self.poll_secs == other.poll_secs
            && self.wake_gap_secs == other.wake_gap_secs
            && self.portal_timebox_secs == other.portal_timebox_secs
    }
}

/// The dashboard.
#[derive(Debug)]
pub struct DashboardConfig {
    /// Whether it is served.
    pub enabled: bool,
}

/// A [`DashboardConfig`], with text for its strings.
pub struct DashboardSettings {
    pub enabled: bool,
}

impl View for DashboardConfig {
    type V = DashboardSettings;

    open spec fn view(&self) -> DashboardSettings {
        DashboardSettings {
            enabled: self.enabled,
        }
    }
}

impl DashboardConfig {
    /// Whether the two hold the same settings.
    pub fn same(&self, other: &DashboardConfig) -> (r: bool)
        ensures
            r == (self@ == other@),
    {
        self.enabled == other.enabled
    }
}

/// The network guard.
#[derive(Debug)]
pub struct NetworkGuardConfig {
    /// Whether it is on.
    pub enabled: bool,
    /// The addresses it listens on.
    pub bind: Vec<String>,
    /// Whether the addresses of clients are logged.
    pub log_clients: bool,
    /// Whether names of clients are learnt from multicast DNS.
    pub mdns_insight: bool,
}

/// A [`NetworkGuardConfig`], with text for its strings.
pub struct NetworkGuardSettings {
    pub enabled: bool,
    pub bind: Seq<Seq<char>>,
    pub log_clients: bool,
    pub mdns_insight: bool,
}

impl View for NetworkGuardConfig {
    type V = NetworkGuardSettings;

    open spec fn view(&self) -> NetworkGuardSettings {
        NetworkGuardSettings {
            enabled: self.enabled,
            bind: texts(self.bind@),
            log_clients: self.log_clients,
            mdns_insight: self.mdns_insight,
        }
    }
}

impl NetworkGuardConfig {
    /// Whether the two hold the same settings.
    pub fn same(&self, other: &NetworkGuardConfig) -> (r: bool)
        ensures
            r == (self@ == other@),
    {
        self.enabled == other.enabled
            && same_texts(&self.bind, &other.bind)
            && self.log_clients == other.log_clients
            && self.mdns_insight == other.mdns_insight
    }
}

/// Encrypted queries from other devices.
#[derive(Debug)]
pub struct InboundTlsConfig {
    /// Whether they are accepted.
    pub enabled: bool,
    /// The addresses to listen on.
    pub bind: Vec<String>,
    /// The certificate; empty where one is made.
    pub cert_path: String,
    /// The key of the certificate.
    pub key_path: String,
    /// Whether queries over QUIC are accepted too.
    pub doq: bool,
}

/// A [`InboundTlsConfig`], with text for its strings.
pub struct InboundTlsSettings {
    pub enabled: bool,
    pub bind: Seq<Seq<char>>,
    pub cert_path: Seq<char>,
    pub key_path: Seq<char>,
    pub doq: bool,
}

impl View for InboundTlsConfig {
    type V = InboundTlsSettings;

    open spec fn view(&self) -> InboundTlsSettings {
        InboundTlsSettings {
            enabled: self.enabled,
            bind: texts(self.bind@),
            cert_path: self.cert_path@,
            key_path: self.key_path@,
            doq: self.doq,
        }
    }
}

impl InboundTlsConfig {
    /// Whether the two hold the same settings.
    pub fn same(&self, other: &InboundTlsConfig) -> (r: bool)
        ensures
            r == (self@ == other@),
    {
        self.enabled == other.enabled
            && same_texts(&self.bind, &other.bind)
            && same_text(self.cert_path.as_str(), other.cert_path.as_str())
            && same_text(self.key_path.as_str(), other.key_path.as_str())
            && self.doq == other.doq
    }
}

/// Privacy features.
#[derive(Debug)]
pub struct PrivacyConfig {
    /// Answer the browser-DoH canary with NXDOMAIN.
    pub browser_doh_canary: bool,
    /// Look for blocked names behind CNAMEs.
    pub cname_inspection: bool,
    /// What the query log keeps.
    pub query_log: QueryLogMode,
    /// How long it keeps it, in days.
    pub retain_days: u32,
    /// Block known DoH resolvers.
    pub block_doh_bypass: bool,
    /// Block iCloud Private Relay.
    pub block_private_relay: bool,
    /// Ask upstream through an oblivious target first.
    pub odoh: bool,
    /// Pad encrypted queries.
    pub doh_padding: bool,
    /// Refuse private addresses for public names.
    pub rebind_protection: bool,
    /// Names exempt from rebind protection.
    pub rebind_allow: Vec<String>,
}

/// A [`PrivacyConfig`], with text for its strings.
pub struct PrivacySettings {
    pub browser_doh_canary: bool,
    pub cname_inspection: bool,
    pub query_log: QueryLogMode,
    pub retain_days: u32,
    pub block_doh_bypass: bool,
    pub block_private_relay: bool,
    pub odoh: bool,
    pub doh_padding: bool,
    pub rebind_protection: bool,
    pub rebind_allow: Seq<Seq<char>>,
}

impl View for PrivacyConfig {
    type V = PrivacySettings;

    open spec fn view(&self) -> PrivacySettings {
        PrivacySettings {
            browser_doh_canary: self.browser_doh_canary,
            cname_inspection: self.cname_inspection,
            query_log: self.query_log,
            retain_days: self.retain_days,
            block_doh_bypass: self.block_doh_bypass,
            block_private_relay: self.block_private_relay,
            odoh: self.odoh,
            doh_padding: self.doh_padding,
            rebind_protection: self.rebind_protection,
            rebind_allow: texts(self.rebind_allow@),
        }
    }
}

impl PrivacyConfig {
    /// Whether the two hold the same settings.
    pub fn same(&self, other: &PrivacyConfig) -> (r: bool)
        ensures
            r == (self@ == other@),
    {
        self.browser_doh_canary == other.browser_doh_canary
            && self.cname_inspection == other.cname_inspection
            && self.query_log == other.query_log
            && self.retain_days == other.retain_days
            && self.block_doh_bypass == other.block_doh_bypass
            && self.block_private_relay == other.block_private_relay
            && self.odoh == other.odoh
            && self.doh_padding == other.doh_padding
            && self.rebind_protection == other.rebind_protection
            && same_texts(&self.rebind_allow, &other.rebind_allow)
    }
}

/// The settings of the daemon.
#[derive(Debug)]
pub struct HushConfig {
    pub listen: ListenConfig,
    pub upstream: UpstreamConfig,
    pub lists: ListsConfig,
    pub block: BlockConfig,
    pub api: ApiConfig,
    pub runtime: RuntimeConfig,
    pub sentinel: SentinelConfig,
    pub dashboard: DashboardConfig,
    pub privacy: PrivacyConfig,
    pub network_guard: NetworkGuardConfig,
    pub inbound_tls: InboundTlsConfig,
}

/// What the API calls a query-log mode.
pub open spec fn log_mode_text(m: QueryLogMode) -> Seq<char> {
    match m {
        QueryLogMode::Full => "full"@,
        QueryLogMode::Anonymous => "anonymous"@,
        QueryLogMode::Off => "off"@,
    }
}

/// What the API calls a query-log mode.
pub fn query_log_mode_to_str(m: QueryLogMode) -> (r: &'static str)
    ensures
        r@ == log_mode_text(m),
{
    match m {
        QueryLogMode::Full => "full",
        QueryLogMode::Anonymous => "anonymous",
        QueryLogMode::Off => "off",
    }
}

// ── Where the settings come from ────────────────────────────────────────────

/// The name of the file with the settings, in the state directory.
pub const CONFIG_FILE: &'static str = "hushwarren.toml";

/// What came of reading a file with settings.
#[derive(Debug)]
pub enum ConfigRead {
    /// It holds settings.
    Loaded(HushConfig),
    /// It cannot be read.
    Unreadable(String),
    /// It cannot be parsed.
    Unparsable(String),
}

/// Which settings are in force.
#[derive(Debug)]
pub enum ConfigChoice {
    /// The settings of a file.
    Use(HushConfig),
    /// The settings that are built in.
    UseDefault,
    /// None: the file that was asked for holds none.  The message says why.
    Refuse(String),
}

/// Which settings are in force: those of the file that was asked for, which has to hold some,
/// else those of the state directory, where its file holds some, else those built in.
pub fn load_config(
    explicit: Option<(&str, ConfigRead)>,
    in_state_dir: Option<ConfigRead>,
) -> (r: ConfigChoice)
    ensures
        (match explicit {
            Some((path, ConfigRead::Loaded(c))) => r == ConfigChoice::Use(c),
            Some((path, ConfigRead::Unreadable(e))) => r matches ConfigChoice::Refuse(m) && m@
                == "hushd: cannot read config "@ + path@ + ": "@ + e@,
            Some((path, ConfigRead::Unparsable(e))) => r matches ConfigChoice::Refuse(m) && m@
                == "hushd: config parse error in "@ + path@ + ": "@ + e@,
            None => match in_state_dir {
                Some(ConfigRead::Loaded(c)) => r == ConfigChoice::Use(c),
                _ => r == ConfigChoice::UseDefault,
            },
        }),
{
    match explicit {
        Some((path, ConfigRead::Loaded(c))) => ConfigChoice::Use(c),
        Some((path, ConfigRead::Unreadable(e))) => {
            let mut m = "hushd: cannot read config ".to_owned();
            m.append(path);
            m.append(": ");
            m.append(e.as_str());
            ConfigChoice::Refuse(m)
        },
        Some((path, ConfigRead::Unparsable(e))) => {
            let mut m = "hushd: config parse error in ".to_owned();
            m.append(path);
            m.append(": ");
            m.append(e.as_str());
            ConfigChoice::Refuse(m)
        },
        None => match in_state_dir {
            Some(ConfigRead::Loaded(c)) => ConfigChoice::Use(c),
            _ => ConfigChoice::UseDefault,
        },
    }
}

/// The directory of the packaged snapshot: the configured one, else the one that the
/// environment names, unless that is blank.
pub fn apply_env_overrides(configured: Option<String>, from_env: Option<&str>) -> (r: Option<String>)
    ensures
        opt_text(r) == match configured {
            Some(d) => Some(d@),
            None => match from_env {
                Some(e) => if trimmed(e@).len() > 0 {
                    Some(e@)
                } else {
                    None
                },
                None => None,
            },
        },
{
    match configured {
        Some(d) => Some(d),
        None => match from_env {
            Some(e) => {
                let t = trim(e);
                if t.as_str().is_empty() {
                    None
                } else {
                    Some(copy_of(e))
                }
            },
            None => None,
        },
    }
}

// ── Laws ────────────────────────────────────────────────────────────────────

/// Settings are the same just where every one of them is: a change of any setting is noticed.
pub proof fn law_every_setting_counts(
    listen: (&ListenConfig, &ListenConfig),
    odoh: (&OdohUpstreamConfig, &OdohUpstreamConfig),
    upstream: (&UpstreamConfig, &UpstreamConfig),
    block: (&BlockConfig, &BlockConfig),
    lists: (&ListsConfig, &ListsConfig),
    same_listen: bool,
    same_odoh: bool,
    same_upstream: bool,
    same_block: bool,
    same_lists: bool,
)
    requires
        call_ensures(ListenConfig::same, (listen.0, listen.1), same_listen),
        call_ensures(OdohUpstreamConfig::same, (odoh.0, odoh.1), same_odoh),
        call_ensures(UpstreamConfig::same, (upstream.0, upstream.1), same_upstream),
        call_ensures(BlockConfig::same, (block.0, block.1), same_block),
        call_ensures(ListsConfig::same, (lists.0, lists.1), same_lists),
    ensures
        same_listen <==> texts(listen.0.udp@) == texts(listen.1.udp@) && texts(listen.0.tcp@) == texts(
            listen.1.tcp@,
        ),
        same_odoh <==> odoh.0.target@ == odoh.1.target@ && odoh.0.relay@ == odoh.1.relay@ && texts(
            odoh.0.bootstrap_ips@,
        ) == texts(odoh.1.bootstrap_ips@),
        same_upstream <==> texts(upstream.0.doh@) == texts(upstream.1.doh@) && texts(
            upstream.0.do53_fallback@,
        ) == texts(upstream.1.do53_fallback@) && upstream.0.odoh.target@ == upstream.1.odoh.target@
            && upstream.0.odoh.relay@ == upstream.1.odoh.relay@ && texts(upstream.0.odoh.bootstrap_ips@)
            == texts(upstream.1.odoh.bootstrap_ips@),
        same_block <==> block.0.action == block.1.action && block.0.ttl_secs == block.1.ttl_secs,
        same_lists <==> lists.0.preset@ == lists.1.preset@ && texts(lists.0.extra_categories@) == texts(
            lists.1.extra_categories@,
        ) && source_texts(lists.0.sources@) == source_texts(lists.1.sources@) && lists.0.refresh_hours
            == lists.1.refresh_hours && lists.0.jitter_minutes == lists.1.jitter_minutes && opt_text(
            lists.0.snapshot_dir,
        ) == opt_text(lists.1.snapshot_dir),
{
}

/// The same of the other sections.
pub proof fn law_every_other_setting_counts(
    api: (&ApiConfig, &ApiConfig),
    runtime: (&RuntimeConfig, &RuntimeConfig),
    sentinel: (&SentinelConfig, &SentinelConfig),
    dashboard: (&DashboardConfig, &DashboardConfig),
    guard: (&NetworkGuardConfig, &NetworkGuardConfig),
    tls: (&InboundTlsConfig, &InboundTlsConfig),
    privacy: (&PrivacyConfig, &PrivacyConfig),
    same_api: bool,
    same_runtime: bool,
    same_sentinel: bool,
    same_dashboard: bool,
    same_guard: bool,
    same_tls: bool,
    same_privacy: bool,
)
    requires
        call_ensures(ApiConfig::same, (api.0, api.1), same_api),
        call_ensures(RuntimeConfig::same, (runtime.0, runtime.1), same_runtime),
        call_ensures(SentinelConfig::same, (sentinel.0, sentinel.1), same_sentinel),
        call_ensures(DashboardConfig::same, (dashboard.0, dashboard.1), same_dashboard),
        call_ensures(NetworkGuardConfig::same, (guard.0, guard.1), same_guard),
        call_ensures(InboundTlsConfig::same, (tls.0, tls.1), same_tls),
        call_ensures(PrivacyConfig::same, (privacy.0, privacy.1), same_privacy),
    ensures
        same_api <==> api.0.listen@ == api.1.listen@,
        same_runtime <==> runtime.0.settings@ == runtime.1.settings@,
        same_sentinel <==> sentinel.0.canary_domain@ == sentinel.1.canary_domain@
            && sentinel.0.breaker_threshold == sentinel.1.breaker_threshold
            && sentinel.0.breaker_window_secs == sentinel.1.breaker_window_secs && sentinel.0.poll_secs
            == sentinel.1.poll_secs && sentinel.0.wake_gap_secs == sentinel.1.wake_gap_secs
            && sentinel.0.portal_timebox_secs == sentinel.1.portal_timebox_secs,
        same_dashboard <==> dashboard.0.enabled == dashboard.1.enabled,
        same_guard <==> guard.0.enabled == guard.1.enabled && texts(guard.0.bind@) == texts(
            guard.1.bind@,
        ) && guard.0.log_clients == guard.1.log_clients && guard.0.mdns_insight == guard.1.mdns_insight,
        same_tls <==> tls.0.enabled == tls.1.enabled && texts(tls.0.bind@) == texts(tls.1.bind@)
            && tls.0.cert_path@ == tls.1.cert_path@ && tls.0.key_path@ == tls.1.key_path@ && tls.0.doq
            == tls.1.doq,
        same_privacy <==> privacy.0.browser_doh_canary == privacy.1.browser_doh_canary
            && privacy.0.cname_inspection == privacy.1.cname_inspection && privacy.0.query_log
            == privacy.1.query_log && privacy.0.retain_days == privacy.1.retain_days
            && privacy.0.block_doh_bypass == privacy.1.block_doh_bypass && privacy.0.block_private_relay
            == privacy.1.block_private_relay && privacy.0.odoh == privacy.1.odoh && privacy.0.doh_padding
            == privacy.1.doh_padding && privacy.0.rebind_protection == privacy.1.rebind_protection
            && texts(privacy.0.rebind_allow@) == texts(privacy.1.rebind_allow@),
{
}

/// Which settings are in force: those of the file that was asked for, and no others where it
/// holds none; without one those of the state directory, and the built-in ones where it holds
/// none.
pub proof fn law_which_settings_are_in_force(
    explicit: Option<(&str, ConfigRead)>,
    in_state_dir: Option<ConfigRead>,
    r: ConfigChoice,
)
    requires
        call_ensures(load_config, (explicit, in_state_dir), r),
    ensures
        explicit matches Some((_, ConfigRead::Loaded(c))) ==> r == ConfigChoice::Use(c),
        explicit is Some && !((explicit->0).1 is Loaded) ==> r is Refuse,
        explicit is None ==> (in_state_dir matches Some(ConfigRead::Loaded(c)) ==> r
            == ConfigChoice::Use(c)),
        explicit is None && (in_state_dir is None || !(in_state_dir->0 is Loaded)) ==> r is UseDefault,
{
}

/// The configured directory wins over the environment, and a blank variable counts for nothing.
pub proof fn law_the_configured_directory_wins(configured: Option<String>, from_env: Option<&str>, r: Option<String>)
    requires
        call_ensures(apply_env_overrides, (configured, from_env), r),
    ensures
        configured matches Some(d) ==> (r matches Some(x) && x@ == d@),
        configured is None ==> (r is Some <==> from_env is Some && trimmed(from_env->0@).len() > 0),
        configured is None ==> (r matches Some(x) ==> x@ == from_env->0@),
{
}

/// The words for the modes of the log.
pub proof fn law_log_modes_are_told_apart(m: QueryLogMode, r: &'static str)
    requires
        call_ensures(query_log_mode_to_str, (m,), r),
    ensures
        m == QueryLogMode::Full <==> r@ == "full"@,
        m == QueryLogMode::Anonymous <==> r@ == "anonymous"@,
        m == QueryLogMode::Off <==> r@ == "off"@,
{
    reveal_strlit("full");
    reveal_strlit("anonymous");
    reveal_strlit("off");
    assert("full"@.len() == 4 && "anonymous"@.len() == 9 && "off"@.len() == 3);
}

}
