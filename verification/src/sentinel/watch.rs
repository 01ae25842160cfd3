//! The network watcher: wake detection, drift repair, yielding to a VPN, captive portals.
//!
//! One tick alternates outside work and decisions.  [`begin_tick`] says what to look at
//! first; what was found goes to [`portal_probed`], [`vpn_checked`] or [`drift_polled`],
//! which say what to do next, until the tick is over.
use vstd::prelude::*;
use vstd::string::*;
use crate::clock::unix_ms_now;
use crate::clock::{elapsed_nanos, elapsed_span, is_mono_reading, is_wall_ms, span_nanos};
use crate::net::{IpAddr, SocketAddr};
use crate::platform::windows::{parse_net_adapter_json, NetAdapter};
use crate::platform::windows::{adapter_models, listed_adapters, only_up, AdapterModel};
use crate::platform::{is_pointing_at_self, DnsSetting, DnsSnapshot};
use crate::platform::{is_foreign, lemma_points_at_self, points_at_self, SettingModel};
use crate::sentinel::{GuardState, StandbyReason};
use crate::sentinel::{guard_at, GuardModel};
use crate::text::{contains_text, copy_of, list_contains, same_text, split_whitespace, starts_with, to_ascii_lowercase, trim};
use crate::text::{has_infix, has_prefix, infix_at, lemma_trimmed, lower, texts, trimmed, words};

verus! {

// ── Drift ───────────────────────────────────────────────────────────────────

/// What became of one service's setting.
#[derive(Debug, Clone, Copy, PartialEq, Eq, Structural)]
pub enum DriftKind {
    /// It still points at the daemon.
    Clean,
    /// It went back to DHCP.
    Dhcp,
    /// It points elsewhere, and a VPN is up.
    VpnActive,
    /// It points elsewhere, and no VPN is up.
    UserSet,
}

/// What became of a setting.
pub open spec fn drift_of(current: SettingModel, vpn_present: bool) -> DriftKind {
    if points_at_self(current) {
        DriftKind::Clean
    } else {
        match current {
            SettingModel::Dhcp => DriftKind::Dhcp,
            SettingModel::Static(_) => if vpn_present {
                DriftKind::VpnActive
            } else {
                DriftKind::UserSet
            },
        }
    }
}

/// What became of a service's setting.  The setting at takeover time does not matter.
pub fn classify_drift(current: &DnsSetting, snapped: &DnsSetting, vpn_interfaces_present: bool) -> (r: DriftKind)
    ensures
        r == drift_of(current@, vpn_interfaces_present),
{
    if is_pointing_at_self(current) {
        return DriftKind::Clean;
    }
    match current {
        DnsSetting::Dhcp => DriftKind::Dhcp,
        DnsSetting::Static { .. } => if vpn_interfaces_present {
            DriftKind::VpnActive
        } else {
            DriftKind::UserSet
        },
    }
}

// ── VPN interfaces ──────────────────────────────────────────────────────────

/// A name that a VPN tunnel's interface has.
pub open spec fn vpn_name(name: Seq<char>) -> bool {
    ||| has_prefix(name, "utun"@)
    ||| has_prefix(name, "ppp"@)
    ||| has_prefix(name, "wg"@)
    ||| has_prefix(name, "tun"@)
    ||| has_prefix(name, "tap"@)
    ||| has_prefix(name, "ipsec"@)
}

/// An adapter that looks like a VPN tunnel on Windows: by its name, in any case, or by a
/// product's name in its description.
pub open spec fn vpn_adapter(a: AdapterModel) -> bool {
    ||| vpn_name(lower(a.name))
    ||| has_prefix(lower(a.name), "wintun"@)
    ||| has_infix(a.interface_description, "WireGuard"@)
    ||| has_infix(a.interface_description, "OpenVPN"@)
    ||| has_infix(a.interface_description, "Tailscale"@)
}

/// `r` holds each of the names that `keep` picks, once.
pub open spec fn picks(r: Seq<Seq<char>>, names: Seq<Seq<char>>, keep: spec_fn(int) -> bool) -> bool {
    &&& r.no_duplicates()
    &&& forall|n: Seq<char>| #[trigger]
        r.contains(n) <==> exists|i: int| 0 <= i < names.len() && #[trigger] names[i] == n && keep(i)
}

/// Whether a name has the prefix of a VPN tunnel's interface.
fn is_vpn_name(name: &str) -> (r: bool)
    ensures
        r == vpn_name(name@),
{
    starts_with(name, "utun") || starts_with(name, "ppp") || starts_with(name, "wg")
        || starts_with(name, "tun") || starts_with(name, "tap") || starts_with(name, "ipsec")
}

/// Adds a text unless the list holds it.
fn add_once(v: &mut Vec<String>, name: &str)
    requires
        texts(old(v)@).no_duplicates(),
    ensures
        texts(final(v)@).no_duplicates(),
        forall|n: Seq<char>| #[trigger]
            texts(final(v)@).contains(n) <==> texts(old(v)@).contains(n) || n == name@,
{
    if list_contains(v, name) {
        return ;
    }
    let ghost before = texts(v@);
    v.push(copy_of(name));
    proof {
        let after = texts(v@);
        assert(after =~= before.push(name@));
        assert forall|n: Seq<char>| #[trigger] after.contains(n) <==> before.contains(n) || n == name@ by {
            if after.contains(n) {
                let i = choose|i: int| 0 <= i < after.len() && after[i] == n;
                if i < before.len() {
                    assert(before[i] == n);
                }
            }
            if before.contains(n) {
                let i = choose|i: int| 0 <= i < before.len() && before[i] == n;
                assert(after[i] == n);
            }
            if n == name@ {
                assert(after[before.len() as int] == n);
            }
        }
        assert forall|i: int, j: int| 0 <= i < after.len() && 0 <= j < after.len() && i != j implies after[i]
            != after[j] by {
            if i < before.len() && j < before.len() {
                assert(before[i] != before[j]);
            } else if i < before.len() {
                assert(before.contains(before[i]));
            } else {
                assert(before.contains(before[j]));
            }
        }
    }
}

/// The names among `names` that a VPN tunnel's interface has, each once.
pub fn parse_vpn_interfaces_list(names: &[String]) -> (r: Vec<String>)
    ensures
        picks(texts(r@), texts(names@), |i: int| vpn_name(texts(names@)[i])),
{
    let mut r: Vec<String> = Vec::new();
    let mut i: usize = 0;
    let ghost all = texts(names@);
    while i < names.len()
        invariant
            0 <= i <= names.len(),
            all == texts(names@),
            texts(r@).no_duplicates(),
            forall|n: Seq<char>| #[trigger]
                texts(r@).contains(n) <==> exists|k: int|
                    0 <= k < i && #[trigger] all[k] == n && vpn_name(all[k]),
        decreases names.len() - i,
    {
        let name = names[i].as_str();
        let ghost before = texts(r@);
        if is_vpn_name(name) {
            add_once(&mut r, name);
        }
        proof {
            assert(all[i as int] == name@);
            assert forall|n: Seq<char>| #[trigger]
                texts(r@).contains(n) <==> exists|k: int|
                    0 <= k < i + 1 && #[trigger] all[k] == n && vpn_name(all[k]) by {
                if before.contains(n) {
                    let k = choose|k: int| 0 <= k < i && #[trigger] all[k] == n && vpn_name(all[k]);
                    assert(all[k] == n);
                }
            }
        }
        i += 1;
    }
    r
}

/// The VPN interfaces that `ifconfig -l` listed.
pub fn parse_vpn_interfaces(ifconfig_l_output: &str) -> (r: Vec<String>)
    ensures
        picks(
            texts(r@),
            words(ifconfig_l_output@),
            |i: int| vpn_name(words(ifconfig_l_output@)[i]),
        ),
{
    let names = split_whitespace(ifconfig_l_output);
    parse_vpn_interfaces_list(names.as_slice())
}

/// The names of adapters.
pub open spec fn adapter_names(a: Seq<AdapterModel>) -> Seq<Seq<char>> {
    a.map_values(|x: AdapterModel| x.name)
}

/// The names of the VPN adapters among `adapters`, each once.
pub fn vpn_adapters(adapters: &Vec<NetAdapter>) -> (r: Vec<String>)
    ensures
        picks(
            texts(r@),
            adapter_names(adapter_models(adapters@)),
            |i: int| vpn_adapter(adapter_models(adapters@)[i]),
        ),
{
    let ghost models = adapter_models(adapters@);
    let ghost names = adapter_names(models);
    let mut r: Vec<String> = Vec::new();
    let mut i: usize = 0;
    while i < adapters.len()
        invariant
            0 <= i <= adapters.len(),
            models == adapter_models(adapters@),
            names == adapter_names(models),
            texts(r@).no_duplicates(),
            forall|n: Seq<char>| #[trigger]
                texts(r@).contains(n) <==> exists|k: int|
                    0 <= k < i && #[trigger] names[k] == n && vpn_adapter(models[k]),
        decreases adapters.len() - i,
    {
        let low = to_ascii_lowercase(adapters[i].name.as_str());
        let what = adapters[i].interface_description.as_str();
        let by_prefix = is_vpn_name(low.as_str()) || starts_with(low.as_str(), "wintun");
        let by_description = contains_text(what, "WireGuard") || contains_text(what, "OpenVPN")
            || contains_text(what, "Tailscale");
        let ghost before = texts(r@);
        if by_prefix || by_description {
            add_once(&mut r, adapters[i].name.as_str());
        }
        proof {
            assert(models[i as int] == adapters@[i as int]@);
            assert(names[i as int] == models[i as int].name);
            assert((by_prefix || by_description) == vpn_adapter(models[i as int]));
            assert forall|n: Seq<char>| #[trigger]
                texts(r@).contains(n) <==> exists|k: int|
                    0 <= k < i + 1 && #[trigger] names[k] == n && vpn_adapter(models[k]) by {
                if before.contains(n) {
                    let k = choose|k: int|
                        0 <= k < i && #[trigger] names[k] == n && vpn_adapter(models[k]);
                    assert(names[k] == n);
                }
            }
        }
        i += 1;
    }
    r
}

/// The VPN adapters that a `Get-NetAdapter` listing shows as up.
pub fn parse_vpn_interfaces_windows(json: &str) -> (r: Vec<String>)
    ensures
        picks(
            texts(r@),
            adapter_names(only_up(listed_adapters(json@))),
            |i: int| vpn_adapter(only_up(listed_adapters(json@))[i]),
        ),
{
    let adapters = parse_net_adapter_json(json);
    vpn_adapters(&adapters)
}

// ── Wake ────────────────────────────────────────────────────────────────────

/// The machine slept: the wall clock advanced by more than the monotonic clock and the
/// threshold together.
pub open spec fn slept(mono_elapsed_ns: int, wall_elapsed_ms: int, threshold_ns: int) -> bool {
    wall_elapsed_ms * 1_000_000 > mono_elapsed_ns + threshold_ns
}

/// The milliseconds by which the wall clock advanced; none where it was set back.
pub open spec fn wall_advance(before_ms: u64, now_ms: u64) -> int {
    if now_ms >= before_ms {
        now_ms - before_ms
    } else {
        0
    }
}

/// Whether the two clocks show that the machine slept.
pub fn clocks_show_sleep(mono_elapsed_ns: u128, wall_elapsed_ms: u64, threshold_ns: u128) -> (r: bool)
    ensures
        r == slept(mono_elapsed_ns as int, wall_elapsed_ms as int, threshold_ns as int),
{
    let wall_ns: u128 = wall_elapsed_ms as u128 * 1_000_000;
    match mono_elapsed_ns.checked_add(threshold_ns) {
        Some(limit) => wall_ns > limit,
        None => false,
    }
}

/// Whether the machine slept since the last tick, by the clocks as they stand.
pub fn detect_wake(
    prev_monotonic: std::time::Instant,
    prev_wall_ms: u64,
    threshold: std::time::Duration,
) -> (r: bool)
    ensures
        exists|mono_ns: u128, now_ms: u64, gap_ns: u128|
            #![trigger elapsed_nanos(prev_monotonic, mono_ns), is_wall_ms(now_ms), span_nanos(threshold, gap_ns)]
            elapsed_nanos(prev_monotonic, mono_ns) && is_wall_ms(now_ms) && span_nanos(
                threshold,
                gap_ns,
            ) && r == slept(mono_ns as int, wall_advance(prev_wall_ms, now_ms), gap_ns as int),
{
    let d = prev_monotonic.elapsed();
    let mono: u128 = d.as_nanos();
    let now: u64 = unix_ms_now();
    let gap: u128 = threshold.as_nanos();
    proof {
        assert(elapsed_span(prev_monotonic, d));
        assert(span_nanos(d, mono));
        assert(elapsed_nanos(prev_monotonic, mono));
        assert(span_nanos(threshold, gap));
    }
    clocks_show_sleep(mono, now.saturating_sub(prev_wall_ms), gap)
}

// ── Portal probe ────────────────────────────────────────────────────────────

/// The page that shows that no captive portal is in the way.
pub const APPLE_SUCCESS_BODY: &'static str =
    "<HTML><HEAD><TITLE>Success</TITLE></HEAD><BODY>Success</BODY></HTML>";

/// The resolvers to probe through: a public one stands in for those of DHCP where a service
/// was on DHCP at takeover time; without such a service there is nothing to probe through.
pub fn dhcp_ips_from_snapshot(snapshot: &DnsSnapshot) -> (r: Vec<SocketAddr>)
    ensures
        r@ == if exists|i: int|
            0 <= i < snapshot@.services.len() && (#[trigger] snapshot@.services[i]).setting is Dhcp {
            seq![SocketAddr { ip: IpAddr::V4(0x0808_0808), port: 53 }]
        } else {
            Seq::<SocketAddr>::empty()
        },
{
    let mut i: usize = 0;
    while i < snapshot.services.len()
        invariant
            0 <= i <= snapshot.services.len(),
            forall|j: int|
                0 <= j < i ==> !((#[trigger] snapshot@.services[j]).setting is Dhcp),
        decreases snapshot.services.len() - i,
    {
        proof {
            assert(snapshot@.services[i as int].setting == snapshot.services@[i as int].setting@);
        }
        match snapshot.services[i].setting {
            DnsSetting::Dhcp => {
                let r: Vec<SocketAddr> = vec![SocketAddr { ip: IpAddr::V4(0x0808_0808), port: 53 }];
                proof {
                    assert(snapshot@.services[i as int].setting is Dhcp);
                    assert(r@ =~= seq![SocketAddr { ip: IpAddr::V4(0x0808_0808), port: 53 }]);
                }
                return r;
            },
            DnsSetting::Static { .. } => {},
        }
        i += 1;
    }
    Vec::new()
}

/// What came of fetching the probe page.
#[derive(Debug)]
pub enum PortalFetch {
    /// No resolver to probe through.
    Skipped,
    /// No response: the client could not be built, the request or reading the body failed.
    Unreachable,
    /// A redirect.
    Redirected,
    /// Another response, with this body.
    Body(String),
}

/// No captive portal is in the way.  A response that could not be had counts as none: the
/// machine must never go offline over a probe.
pub open spec fn portal_clear(f: PortalFetch) -> bool {
    match f {
        PortalFetch::Skipped => true,
        PortalFetch::Unreachable => true,
        PortalFetch::Redirected => false,
        PortalFetch::Body(b) => trimmed(b@) == trimmed(APPLE_SUCCESS_BODY@) || has_infix(
            b@,
            "<TITLE>Success</TITLE>"@,
        ),
    }
}

/// Whether no captive portal is in the way.
pub fn probe_portal(f: &PortalFetch) -> (r: bool)
    ensures
        r == portal_clear(*f),
{
    match f {
        PortalFetch::Skipped => true,
        PortalFetch::Unreachable => true,
        PortalFetch::Redirected => false,
        PortalFetch::Body(b) => {
            let t = trim(b.as_str());
            let want = trim(APPLE_SUCCESS_BODY);
            same_text(t.as_str(), want.as_str()) || contains_text(
                b.as_str(),
                "<TITLE>Success</TITLE>",
            )
        },
    }
}

// ── Ticks ───────────────────────────────────────────────────────────────────

/// What the watcher remembers between ticks.
#[derive(Debug)]
pub struct WatcherState {
    /// When the previous tick ended, by the monotonic clock.
    pub last_tick_mono: std::time::Instant,
    /// When the previous tick started, by the wall clock.
    pub last_tick_wall_ms: u64,
    /// When the current portal standby started.
    pub portal_start_ms: Option<u64>,
    /// Whether the user was warned of a third-party resolver.
    pub user_dns_warned: bool,
}

impl WatcherState {
    /// The state before the first tick, with both clocks as they stand.
    pub fn new() -> (r: WatcherState)
        ensures
            is_mono_reading(r.last_tick_mono),
            is_wall_ms(r.last_tick_wall_ms),
            r.portal_start_ms is None,
            !r.user_dns_warned,
    {
        WatcherState {
            last_tick_mono: std::time::Instant::now(),
            last_tick_wall_ms: unix_ms_now(),
            portal_start_ms: None,
            user_dns_warned: false,
        }
    }

    /// The watcher's memory is that of `before`, but for the clocks: the wall clock stands at
    /// `now`, and the monotonic one was read.
    pub open spec fn ticked(self, before: WatcherState, now: u64) -> bool {
        &&& self.last_tick_wall_ms == now
        &&& is_mono_reading(self.last_tick_mono)
        &&& self.portal_start_ms == before.portal_start_ms
        &&& self.user_dns_warned == before.user_dns_warned
    }

    /// Ends a tick.
    fn tick(&mut self, now: u64)
        ensures
            final(self).ticked(*old(self), now),
    {
        self.last_tick_mono = std::time::Instant::now();
        self.last_tick_wall_ms = now;
    }
}

impl Default for WatcherState {
    fn default() -> (r: WatcherState)
        ensures
            is_mono_reading(r.last_tick_mono),
            is_wall_ms(r.last_tick_wall_ms),
            r.portal_start_ms is None,
            !r.user_dns_warned,
    {
        WatcherState::new()
    }
}

/// What to look at first in a tick.
#[derive(Debug, Clone, Copy, PartialEq, Eq, Structural)]
pub enum TickStart {
    /// Nothing: the tick is over.
    Over,
    /// Whether the portal is still in the way; then [`portal_probed`].
    ProbePortal,
    /// Whether a VPN interface is left; then [`vpn_checked`].
    CheckVpn,
    /// The setting of each service, and the VPN interfaces; then [`drift_polled`].
    PollDrift,
}

/// A portal standby that started at `start`, or now where no start is known, has outlasted
/// the timebox.
pub open spec fn timebox_over(start: Option<u64>, now: u64, timebox_ms: u64) -> bool {
    start is Some && now - start->0 > timebox_ms
}

/// Starts a tick.  Where a pause is over, filtering has resumed.
///
/// A portal standby that outlasted the timebox stays transparent; its time starts over, and
/// the clocks are left as they were.
pub fn begin_tick(state: &GuardState, watcher: &mut WatcherState, now_wall: u64, portal_timebox_ms: u64) -> (r: TickStart)
    ensures
        (match guard_at(state@, now_wall) {
            GuardModel::StandingBy(StandbyReason::Portal) => if timebox_over(
                old(watcher).portal_start_ms,
                now_wall,
                portal_timebox_ms,
            ) {
                r == TickStart::Over && *final(watcher) == (WatcherState {
                    portal_start_ms: Some(now_wall),
                    ..*old(watcher)
                })
            } else {
                r == TickStart::ProbePortal && *final(watcher) == *old(watcher)
            },
            GuardModel::StandingBy(StandbyReason::VpnActive) => r == TickStart::CheckVpn
                && *final(watcher) == *old(watcher),
            GuardModel::Filtering => r == TickStart::PollDrift && *final(watcher) == *old(watcher),
            _ => r == TickStart::Over && final(watcher).ticked(*old(watcher), now_wall),
        }),
{
    match state {
        GuardState::StandingBy { why: StandbyReason::Portal } => {
            let start: u64 = match watcher.portal_start_ms {
                Some(s) => s,
                None => now_wall,
            };
            let elapsed: u64 = now_wall.saturating_sub(start);
            if elapsed > portal_timebox_ms {
                watcher.portal_start_ms = Some(now_wall);
                TickStart::Over
            } else {
                TickStart::ProbePortal
            }
        },
        GuardState::StandingBy { why: StandbyReason::VpnActive } => TickStart::CheckVpn,
        GuardState::Filtering => TickStart::PollDrift,
        GuardState::Snoozed { until_unix_ms } if *until_unix_ms <= now_wall => TickStart::PollDrift,
        _ => {
            watcher.tick(now_wall);
            TickStart::Over
        },
    }
}

/// Whether to re-arm.
#[derive(Debug, Clone, Copy, PartialEq, Eq, Structural)]
pub enum Rearm {
    /// No: the tick is over.
    No,
    /// Run a takeover; then [`rearmed`].
    Takeover,
}

/// Goes on after the portal was probed in a portal standby: once it is clear, re-arm.
pub fn portal_probed(watcher: &mut WatcherState, clear: bool, now_wall: u64) -> (r: Rearm)
    ensures
        clear ==> r == Rearm::Takeover && *final(watcher) == (WatcherState {
            portal_start_ms: None,
            ..*old(watcher)
        }),
        !clear ==> r == Rearm::No && final(watcher).ticked(*old(watcher), now_wall),
{
    if clear {
        watcher.portal_start_ms = None;
        Rearm::Takeover
    } else {
        watcher.tick(now_wall);
        Rearm::No
    }
}

/// Goes on after the VPN interfaces were listed in a VPN standby: once none is left, re-arm.
pub fn vpn_checked(watcher: &mut WatcherState, vpn_interfaces: &Vec<String>, now_wall: u64) -> (r: Rearm)
    ensures
        vpn_interfaces@.len() == 0 ==> r == Rearm::Takeover && *final(watcher) == *old(watcher),
        vpn_interfaces@.len() > 0 ==> r == Rearm::No && final(watcher).ticked(*old(watcher), now_wall),
{
    if vpn_interfaces.len() == 0 {
        Rearm::Takeover
    } else {
        watcher.tick(now_wall);
        Rearm::No
    }
}

/// Ends a tick after a takeover was run: the state to go to, where it succeeded.
pub fn rearmed(watcher: &mut WatcherState, succeeded: bool, now_wall: u64) -> (r: Option<GuardState>)
    ensures
        final(watcher).ticked(*old(watcher), now_wall),
        succeeded ==> (r matches Some(s) && s@ is Filtering),
        !succeeded ==> r is None,
{
    watcher.tick(now_wall);
    if succeeded {
        Some(GuardState::Filtering)
    } else {
        None
    }
}

/// A service and its setting, where it could be read.
#[derive(Debug)]
pub struct PolledService {
    pub service: String,
    /// The setting at takeover time.
    pub snapped: DnsSetting,
    /// The setting now.
    pub current: Option<DnsSetting>,
}

/// What became of a polled service; nothing where its setting could not be read.
pub open spec fn polled_drift(p: PolledService, vpn_present: bool) -> DriftKind {
    match p.current {
        Some(s) => drift_of(s@, vpn_present),
        None => DriftKind::Clean,
    }
}

/// Some polled service shows this drift.
pub open spec fn any_drift(polled: Seq<PolledService>, vpn_present: bool, kind: DriftKind) -> bool {
    exists|i: int| 0 <= i < polled.len() && #[trigger] polled_drift(polled[i], vpn_present) == kind
}

/// The names of the services that went back to DHCP, in order.
pub open spec fn dhcp_services(polled: Seq<PolledService>, vpn_present: bool) -> Seq<Seq<char>>
    decreases polled.len(),
{
    if polled.len() == 0 {
        Seq::<Seq<char>>::empty()
    } else if polled_drift(polled.last(), vpn_present) == DriftKind::Dhcp {
        dhcp_services(polled.drop_last(), vpn_present).push(polled.last().service@)
    } else {
        dhcp_services(polled.drop_last(), vpn_present)
    }
}

/// What follows a drift poll.
#[derive(Debug)]
pub enum DriftReaction {
    /// Stand by; the tick is over.  `warn` says whether the user has to be warned.
    StandBy { why: StandbyReason, warn: bool },
    /// Point these services at the sinkhole again, if there are any; whether that succeeds
    /// changes nothing.  Then, where `probe` says so, probe for a portal and go on with
    /// [`drift_probed`]; else the tick is over.
    Repair { services: Vec<String>, probe: bool },
}

/// What follows a drift poll: yielding to a VPN comes before yielding to the user, and both
/// before repair.
pub open spec fn reacts(
    r: DriftReaction,
    polled: Seq<PolledService>,
    vpn_present: bool,
    wake: bool,
    warned: bool,
) -> bool {
    if any_drift(polled, vpn_present, DriftKind::VpnActive) {
        r == (DriftReaction::StandBy { why: StandbyReason::VpnActive, warn: false })
    } else if any_drift(polled, vpn_present, DriftKind::UserSet) {
        r == (DriftReaction::StandBy { why: StandbyReason::UserDns, warn: !warned })
    } else {
        r matches DriftReaction::Repair { services, probe } && texts(services@) == dhcp_services(
            polled,
            vpn_present,
        ) && probe == (wake || dhcp_services(polled, vpn_present).len() > 0)
    }
}

/// Goes on after the settings of the services were read while filtering.
pub fn drift_polled(
    watcher: &mut WatcherState,
    polled: &Vec<PolledService>,
    vpn_present: bool,
    wake: bool,
    now_wall: u64,
) -> (r: DriftReaction)
    ensures
        reacts(r, polled@, vpn_present, wake, old(watcher).user_dns_warned),
        (match r {
            DriftReaction::StandBy { why, warn } => final(watcher).ticked(
                WatcherState {
                    user_dns_warned: old(watcher).user_dns_warned || warn,
                    ..*old(watcher)
                },
                now_wall,
            ),
            DriftReaction::Repair { services, probe } => if probe {
                *final(watcher) == *old(watcher)
            } else {
                final(watcher).ticked(*old(watcher), now_wall)
            },
        }),
{
    let mut rearm: Vec<String> = Vec::new();
    let mut vpn_yielded = false;
    let mut user_set = false;
    let mut i: usize = 0;
    proof {
        assert(texts(rearm@) =~= dhcp_services(polled@.take(0), vpn_present));
    }
    while i < polled.len()
        invariant
            0 <= i <= polled.len(),
            texts(rearm@) == dhcp_services(polled@.take(i as int), vpn_present),
            vpn_yielded == (exists|k: int|
                0 <= k < i && #[trigger] polled_drift(polled@[k], vpn_present) == DriftKind::VpnActive),
            user_set == (exists|k: int|
                0 <= k < i && #[trigger] polled_drift(polled@[k], vpn_present) == DriftKind::UserSet),
        decreases polled.len() - i,
    {
        proof {
            assert(polled@.take(i + 1).drop_last() =~= polled@.take(i as int));
            assert(polled@.take(i + 1).last() == polled@[i as int]);
        }
        let drift = match &polled[i].current {
            Some(current) => classify_drift(current, &polled[i].snapped, vpn_present),
            None => DriftKind::Clean,
        };
        proof {
            assert(drift == polled_drift(polled@[i as int], vpn_present));
        }
        match drift {
            DriftKind::Clean => {},
            DriftKind::Dhcp => {
                let ghost before = rearm@;
                rearm.push(polled[i].service.clone());
                proof {
                    assert(texts(rearm@) =~= texts(before).push(polled@[i as int].service@));
                }
            },
            DriftKind::VpnActive => {
                vpn_yielded = true;
            },
            DriftKind::UserSet => {
                user_set = true;
            },
        }
        i += 1;
    }
    proof {
        assert(polled@.take(i as int) =~= polled@);
    }
    if vpn_yielded {
        watcher.tick(now_wall);
        return DriftReaction::StandBy { why: StandbyReason::VpnActive, warn: false };
    }
    if user_set {
        let warn = !watcher.user_dns_warned;
        watcher.user_dns_warned = true;
        watcher.tick(now_wall);
        return DriftReaction::StandBy { why: StandbyReason::UserDns, warn };
    }
    let probe = wake || rearm.len() > 0;
    if !probe {
        watcher.tick(now_wall);
    }
    DriftReaction::Repair { services: rearm, probe }
}

/// Ends a tick after the probe that follows a wake or a repair: where a portal is in the way,
/// the state to go to.
pub fn drift_probed(watcher: &mut WatcherState, clear: bool, now_wall: u64) -> (r: Option<GuardState>)
    ensures
        clear ==> r is None && final(watcher).ticked(*old(watcher), now_wall),
        !clear ==> (r matches Some(s) && s@ == GuardModel::StandingBy(StandbyReason::Portal))
            && final(watcher).ticked(
            WatcherState { portal_start_ms: Some(now_wall), ..*old(watcher) },
            now_wall,
        ),
{
    if clear {
        watcher.tick(now_wall);
        None
    } else {
        watcher.portal_start_ms = Some(now_wall);
        watcher.tick(now_wall);
        Some(GuardState::StandingBy { why: StandbyReason::Portal })
    }
}

// ── Laws ────────────────────────────────────────────────────────────────────

/// A VPN is never fought: while a VPN interface is up, no tick sets DNS where a service
/// points at a third party.
pub proof fn law_never_fights_a_vpn(
    r: DriftReaction,
    polled: Seq<PolledService>,
    wake: bool,
    warned: bool,
    i: int,
)
    requires
        reacts(r, polled, true, wake, warned),
        0 <= i < polled.len(),
        polled[i].current matches Some(s) && s@ is Static && !points_at_self(s@),
    ensures
        r == (DriftReaction::StandBy { why: StandbyReason::VpnActive, warn: false }),
{
    assert(polled_drift(polled[i], true) == DriftKind::VpnActive);
}

/// A third-party resolver set by the user is left alone: no tick sets DNS then.
pub proof fn law_respects_the_users_resolver(
    r: DriftReaction,
    polled: Seq<PolledService>,
    vpn_present: bool,
    wake: bool,
    warned: bool,
    i: int,
)
    requires
        reacts(r, polled, vpn_present, wake, warned),
        0 <= i < polled.len(),
        polled[i].current matches Some(s) && s@ is Static && !points_at_self(s@),
    ensures
        r is StandBy,
{
    assert(polled_drift(polled[i], vpn_present) == DriftKind::VpnActive || polled_drift(
        polled[i],
        vpn_present,
    ) == DriftKind::UserSet);
}

/// Without drift and without a wake a tick does nothing.
pub proof fn law_quiet_tick_does_nothing(
    r: DriftReaction,
    polled: Seq<PolledService>,
    vpn_present: bool,
    warned: bool,
)
    requires
        reacts(r, polled, vpn_present, false, warned),
        forall|i: int|
            0 <= i < polled.len() ==> #[trigger] polled_drift(polled[i], vpn_present) == DriftKind::Clean,
    ensures
        r matches DriftReaction::Repair { services, probe } && services@.len() == 0 && !probe,
{
    lemma_no_dhcp(polled, vpn_present);
    assert(texts(r->services@).len() == r->services@.len());
}

proof fn lemma_no_dhcp(polled: Seq<PolledService>, vpn_present: bool)
    requires
        forall|i: int|
            0 <= i < polled.len() ==> #[trigger] polled_drift(polled[i], vpn_present) != DriftKind::Dhcp,
    ensures
        dhcp_services(polled, vpn_present).len() == 0,
    decreases polled.len(),
{
    if polled.len() > 0 {
        let p = polled.drop_last();
        assert forall|i: int| 0 <= i < p.len() implies #[trigger] polled_drift(p[i], vpn_present)
            != DriftKind::Dhcp by {
            assert(p[i] == polled[i]);
        }
        assert(polled_drift(polled[polled.len() - 1], vpn_present) != DriftKind::Dhcp);
        lemma_no_dhcp(p, vpn_present);
    }
}

/// The success page has its title, and nothing to trim.
proof fn lemma_success_page()
    ensures
        has_infix(APPLE_SUCCESS_BODY@, "<TITLE>Success</TITLE>"@),
        trimmed(APPLE_SUCCESS_BODY@) == APPLE_SUCCESS_BODY@,
{
    reveal_strlit("<HTML><HEAD><TITLE>Success</TITLE></HEAD><BODY>Success</BODY></HTML>");
    reveal_strlit("<TITLE>Success</TITLE>");
    let page = APPLE_SUCCESS_BODY@;
    let title = "<TITLE>Success</TITLE>"@;
    assert(page.len() == 68 && title.len() == 22);
    assert(page.subrange(12, 34) =~= title);
    assert(infix_at(page, title, 12));
    assert(page[0] == '<' && page[67] == '>');
}

/// A captive portal is reported on evidence only: a response was had, and it was a redirect or a
/// page without the success title.  Where no response was had none is reported, and a page with
/// the title is never taken for a portal's.
pub proof fn law_a_portal_is_reported_on_evidence(f: &PortalFetch, clear: bool)
    requires
        call_ensures(probe_portal, (f,), clear),
    ensures
        !clear ==> *f is Redirected || *f is Body,
        *f is Skipped || *f is Unreachable ==> clear,
        *f is Redirected ==> !clear,
        *f matches PortalFetch::Body(b) ==> (clear <==> has_infix(b@, "<TITLE>Success</TITLE>"@)),
{
    match f {
        PortalFetch::Body(b) => {
            lemma_success_page();
            let page = APPLE_SUCCESS_BODY@;
            let title = "<TITLE>Success</TITLE>"@;
            if trimmed(b@) == trimmed(page) {
                let lo = lemma_trimmed(b@);
                let i = choose|i: int| 0 <= i && #[trigger] infix_at(page, title, i);
                assert(b@.subrange(lo + i, lo + i + title.len()) =~= page.subrange(i, i + title.len()));
                assert(infix_at(b@, title, lo + i));
            }
        },
        _ => {},
    }
}

/// A service that lists this machine is clean whatever else is up; one on DHCP drifted to DHCP;
/// and one on foreign servers was moved by the VPN where one is up, and by the user otherwise.
/// What was recorded at takeover time plays no part.
pub proof fn law_drift_is_told_apart(
    current: &DnsSetting,
    snapped: &DnsSetting,
    vpn_present: bool,
    r: DriftKind,
)
    requires
        call_ensures(classify_drift, (current, snapped, vpn_present), r),
    ensures
        r == DriftKind::Dhcp <==> *current is Dhcp,
        r == DriftKind::VpnActive <==> is_foreign(*current) && vpn_present,
        r == DriftKind::UserSet <==> is_foreign(*current) && !vpn_present,
        r == DriftKind::Clean <==> !(*current is Dhcp) && !is_foreign(*current),
{
    lemma_points_at_self(*current);
}

/// A service on foreign servers was polled.
pub open spec fn some_foreign(polled: Seq<PolledService>) -> bool {
    exists|i: int|
        0 <= i < polled.len() && (#[trigger] polled[i]).current is Some && is_foreign(
            polled[i].current->0,
        )
}

/// A service that was found on DHCP.
pub open spec fn found_on_dhcp(p: PolledService) -> bool {
    p.current is Some && p.current->0 is Dhcp
}

proof fn lemma_polled(polled: Seq<PolledService>, vpn_present: bool)
    ensures
        any_drift(polled, vpn_present, DriftKind::VpnActive) == (some_foreign(polled) && vpn_present),
        any_drift(polled, vpn_present, DriftKind::UserSet) == (some_foreign(polled) && !vpn_present),
{
    assert forall|i: int| 0 <= i < polled.len() implies ((polled_drift(#[trigger] polled[i], vpn_present)
        == DriftKind::VpnActive) == (polled[i].current is Some && is_foreign(polled[i].current->0)
        && vpn_present)) && ((polled_drift(polled[i], vpn_present) == DriftKind::UserSet) == (
    polled[i].current is Some && is_foreign(polled[i].current->0) && !vpn_present)) by {
        match polled[i].current {
            Some(s) => lemma_points_at_self(s),
            None => {},
        }
    }
    if some_foreign(polled) {
        let i = choose|i: int|
            0 <= i < polled.len() && (#[trigger] polled[i]).current is Some && is_foreign(
                polled[i].current->0,
            );
        assert(polled_drift(polled[i], vpn_present) == if vpn_present {
            DriftKind::VpnActive
        } else {
            DriftKind::UserSet
        });
    }
}

proof fn lemma_dhcp_services(polled: Seq<PolledService>, vpn_present: bool)
    ensures
        dhcp_services(polled, vpn_present) == polled.filter(|p: PolledService| found_on_dhcp(p)).map_values(
            |p: PolledService| p.service@,
        ),
    decreases polled.len(),
{
    let keep = |p: PolledService| found_on_dhcp(p);
    let name = |p: PolledService| p.service@;
    reveal(Seq::filter);
    if polled.len() > 0 {
        let f = polled.drop_last();
        lemma_dhcp_services(f, vpn_present);
        let kept = f.filter(keep);
        match polled.last().current {
            Some(s) => lemma_points_at_self(s),
            None => {},
        }
        if keep(polled.last()) {
            assert(kept.push(polled.last()).map_values(name) =~= kept.map_values(name).push(
                polled.last().service@,
            ));
        }
    } else {
        assert(polled.filter(keep).map_values(name) =~= Seq::<Seq<char>>::empty());
    }
}

/// What a tick does about the settings that it found.  On foreign servers the watcher stands
/// by: for the VPN where one is up, else for the user, who is warned the first time only.  With
/// no service on foreign servers it repairs exactly the services found on DHCP, in order, and
/// looks for a portal just after a wake or a repair.
pub proof fn law_what_a_tick_does_about_drift(
    watcher: &mut WatcherState,
    polled: &Vec<PolledService>,
    vpn_present: bool,
    wake: bool,
    now: u64,
    r: DriftReaction,
)
    requires
        call_ensures(drift_polled, (watcher, polled, vpn_present, wake, now), r),
    ensures
        r is StandBy <==> some_foreign(polled@),
        r matches DriftReaction::StandBy { why, warn } ==> (why == StandbyReason::VpnActive <==> vpn_present)
            && (why == StandbyReason::UserDns <==> !vpn_present) && (warn <==> !vpn_present && !old(watcher).user_dns_warned),
        r matches DriftReaction::Repair { services, probe } ==> texts(services@) == polled@.filter(
            |p: PolledService| found_on_dhcp(p),
        ).map_values(|p: PolledService| p.service@) && (probe <==> wake || services@.len() > 0),
        final(watcher).user_dns_warned == (old(watcher).user_dns_warned || (r is StandBy && !vpn_present)),
        final(watcher).portal_start_ms == old(watcher).portal_start_ms,
        final(watcher).last_tick_wall_ms == if r is Repair && r->probe {
            old(watcher).last_tick_wall_ms
        } else {
            now
        },
{
    lemma_polled(polled@, vpn_present);
    lemma_dhcp_services(polled@, vpn_present);
    match r {
        DriftReaction::Repair { services, probe } => {
            assert(texts(services@).len() == services@.len());
        },
        _ => {},
    }
}

/// What a tick looks at first: the portal while it stands by for one, unless that has lasted
/// longer than allowed, the VPN while it stands by for one, and the settings while it filters or
/// a pause has just ended; otherwise nothing.
pub proof fn law_what_a_tick_looks_at(
    state: &GuardState,
    watcher: &mut WatcherState,
    now: u64,
    timebox_ms: u64,
    r: TickStart,
)
    requires
        call_ensures(begin_tick, (state, watcher, now, timebox_ms), r),
    ensures
        r == TickStart::PollDrift <==> *state is Filtering || (*state matches GuardState::Snoozed {
            until_unix_ms,
        } && until_unix_ms <= now),
        r == TickStart::CheckVpn <==> *state == (GuardState::StandingBy {
            why: StandbyReason::VpnActive,
        }),
        r == TickStart::ProbePortal <==> *state == (GuardState::StandingBy {
            why: StandbyReason::Portal,
        }) && (old(watcher).portal_start_ms matches Some(start) ==> now <= start + timebox_ms),
        r != TickStart::Over ==> *final(watcher) == *old(watcher),
        final(watcher).user_dns_warned == old(watcher).user_dns_warned,
        *state != (GuardState::StandingBy { why: StandbyReason::Portal }) ==> final(watcher).portal_start_ms == old(watcher).portal_start_ms,
        r == TickStart::Over && *state == (GuardState::StandingBy { why: StandbyReason::Portal })
            ==> final(watcher).portal_start_ms == Some(now),
{
}

/// A standby ends only through a takeover that succeeded, and a takeover is tried only once the
/// portal is out of the way, or no VPN interface is left.
pub proof fn law_standby_ends_by_a_takeover(
    a: &mut WatcherState,
    b: &mut WatcherState,
    c: &mut WatcherState,
    clear: bool,
    interfaces: &Vec<String>,
    succeeded: bool,
    now: u64,
    after_portal: Rearm,
    after_vpn: Rearm,
    state: Option<GuardState>,
)
    requires
        call_ensures(portal_probed, (a, clear, now), after_portal),
        call_ensures(vpn_checked, (b, interfaces, now), after_vpn),
        call_ensures(rearmed, (c, succeeded, now), state),
    ensures
        after_portal == Rearm::Takeover <==> clear,
        after_vpn == Rearm::Takeover <==> interfaces@.len() == 0,
        state is Some <==> succeeded,
        state matches Some(s) ==> s is Filtering,
        final(a).portal_start_ms == if clear {
            None
        } else {
            old(a).portal_start_ms
        },
        final(b).portal_start_ms == old(b).portal_start_ms,
        final(c).portal_start_ms == old(c).portal_start_ms,
        final(a).user_dns_warned == old(a).user_dns_warned,
        final(b).user_dns_warned == old(b).user_dns_warned,
        final(c).user_dns_warned == old(c).user_dns_warned,
        final(c).last_tick_wall_ms == now,
{
}

/// A portal found behind a wake or a repair makes the watcher stand by for it from that moment
/// on; without one nothing changes.
pub proof fn law_a_portal_is_stood_by_for(
    watcher: &mut WatcherState,
    clear: bool,
    now: u64,
    r: Option<GuardState>,
)
    requires
        call_ensures(drift_probed, (watcher, clear, now), r),
    ensures
        r is None <==> clear,
        r matches Some(s) ==> s == (GuardState::StandingBy { why: StandbyReason::Portal }),
        final(watcher).portal_start_ms == if clear {
            old(watcher).portal_start_ms
        } else {
            Some(now)
        },
        final(watcher).user_dns_warned == old(watcher).user_dns_warned,
        final(watcher).last_tick_wall_ms == now,
{
}

/// The interfaces taken for those of a VPN are exactly the listed ones whose names start like a
/// tunnel's, each once.
pub proof fn law_tunnels_are_known_by_their_names(names: &[String], r: Vec<String>, n: Seq<char>)
    requires
        call_ensures(parse_vpn_interfaces_list, (names,), r),
    ensures
        texts(r@).contains(n) <==> texts(names@).contains(n) && (has_prefix(n, "utun"@) || has_prefix(
            n,
            "ppp"@,
        ) || has_prefix(n, "wg"@) || has_prefix(n, "tun"@) || has_prefix(n, "tap"@) || has_prefix(
            n,
            "ipsec"@,
        )),
        texts(r@).no_duplicates(),
{
    let all = texts(names@);
    if texts(names@).contains(n) {
        let i = choose|i: int| 0 <= i < all.len() && all[i] == n;
        assert(all[i] == n);
    }
}

/// The output of `ifconfig -l` is a list of names with white space between them.
pub proof fn law_listed_interfaces_are_words(output: &str, r: Vec<String>, n: Seq<char>)
    requires
        call_ensures(parse_vpn_interfaces, (output,), r),
    ensures
        texts(r@).contains(n) <==> words(output@).contains(n) && (has_prefix(n, "utun"@) || has_prefix(
            n,
            "ppp"@,
        ) || has_prefix(n, "wg"@) || has_prefix(n, "tun"@) || has_prefix(n, "tap"@) || has_prefix(
            n,
            "ipsec"@,
        )),
        texts(r@).no_duplicates(),
{
    let all = words(output@);
    if all.contains(n) {
        let i = choose|i: int| 0 <= i < all.len() && all[i] == n;
        assert(all[i] == n);
    }
}

/// An adapter is taken for a VPN's by its name, whatever its case, or by the product that its
/// description names.
pub proof fn law_tunnel_adapters_are_known(adapters: &Vec<NetAdapter>, r: Vec<String>, i: int)
    requires
        call_ensures(vpn_adapters, (adapters,), r),
        0 <= i < adapters@.len(),
    ensures
        ({
            let name = lower(adapters@[i].name@);
            let what = adapters@[i].interface_description@;
            ||| has_prefix(name, "utun"@)
            ||| has_prefix(name, "ppp"@)
            ||| has_prefix(name, "wg"@)
            ||| has_prefix(name, "tun"@)
            ||| has_prefix(name, "tap"@)
            ||| has_prefix(name, "ipsec"@)
            ||| has_prefix(name, "wintun"@)
            ||| has_infix(what, "WireGuard"@)
            ||| has_infix(what, "OpenVPN"@)
            ||| has_infix(what, "Tailscale"@)
        }) ==> texts(r@).contains(adapters@[i].name@),
        forall|n: Seq<char>| #[trigger]
            texts(r@).contains(n) ==> exists|k: int|
                0 <= k < adapters@.len() && #[trigger] adapters@[k].name@ == n && ({
                    let name = lower(n);
                    let what = adapters@[k].interface_description@;
                    ||| has_prefix(name, "utun"@)
                    ||| has_prefix(name, "ppp"@)
                    ||| has_prefix(name, "wg"@)
                    ||| has_prefix(name, "tun"@)
                    ||| has_prefix(name, "tap"@)
                    ||| has_prefix(name, "ipsec"@)
                    ||| has_prefix(name, "wintun"@)
                    ||| has_infix(what, "WireGuard"@)
                    ||| has_infix(what, "OpenVPN"@)
                    ||| has_infix(what, "Tailscale"@)
                }),
        texts(r@).no_duplicates(),
{
    let models = adapter_models(adapters@);
    let names = adapter_names(models);
    assert(models[i] == adapters@[i]@);
    assert(names[i] == adapters@[i].name@);
    assert forall|n: Seq<char>| #[trigger] texts(r@).contains(n) implies exists|k: int|
        0 <= k < adapters@.len() && #[trigger] adapters@[k].name@ == n && vpn_adapter(models[k]) by {
        let k = choose|k: int| 0 <= k < names.len() && #[trigger] names[k] == n && vpn_adapter(models[k]);
        assert(models[k] == adapters@[k]@);
        assert(adapters@[k].name@ == n);
    }
    assert forall|n: Seq<char>| #[trigger] texts(r@).contains(n) implies exists|k: int|
        0 <= k < adapters@.len() && #[trigger] adapters@[k].name@ == n && ({
            let name = lower(n);
            let what = adapters@[k].interface_description@;
            ||| has_prefix(name, "utun"@)
            ||| has_prefix(name, "ppp"@)
            ||| has_prefix(name, "wg"@)
            ||| has_prefix(name, "tun"@)
            ||| has_prefix(name, "tap"@)
            ||| has_prefix(name, "ipsec"@)
            ||| has_prefix(name, "wintun"@)
            ||| has_infix(what, "WireGuard"@)
            ||| has_infix(what, "OpenVPN"@)
            ||| has_infix(what, "Tailscale"@)
        }) by {
        let k = choose|k: int|
            0 <= k < adapters@.len() && #[trigger] adapters@[k].name@ == n && vpn_adapter(models[k]);
        assert(models[k] == adapters@[k]@);
        assert(adapters@[k].name@ == n);
    }
}

/// The machine slept just where the wall clock gained more than the threshold on the other.
pub proof fn law_sleep_shows_as_a_gap(mono_ns: u128, wall_ms: u64, threshold_ns: u128, r: bool)
    requires
        call_ensures(clocks_show_sleep, (mono_ns, wall_ms, threshold_ns), r),
    ensures
        r <==> wall_ms * 1_000_000 - mono_ns > threshold_ns,
{
}

/// There is a resolver to probe through just where a service was on DHCP: `8.8.8.8`, port 53.
pub proof fn law_probes_go_through_a_public_resolver(snapshot: &DnsSnapshot, r: Vec<SocketAddr>)
    requires
        call_ensures(dhcp_ips_from_snapshot, (snapshot,), r),
    ensures
        r@.len() > 0 <==> exists|i: int|
            0 <= i < snapshot.services@.len() && (#[trigger] snapshot.services@[i]).setting is Dhcp,
        r@.len() <= 1,
        forall|i: int|
            0 <= i < r@.len() ==> (#[trigger] r@[i]).port == 53 && r@[i].ip == IpAddr::V4(
                (((8 * 256 + 8) * 256 + 8) * 256 + 8) as u32,
            ),
{
    if exists|i: int| 0 <= i < snapshot.services@.len() && (#[trigger] snapshot.services@[i]).setting is Dhcp {
        let i = choose|i: int|
            0 <= i < snapshot.services@.len() && (#[trigger] snapshot.services@[i]).setting is Dhcp;
        assert(snapshot@.services[i].setting is Dhcp);
    }
    if exists|i: int| 0 <= i < snapshot@.services.len() && (#[trigger] snapshot@.services[i]).setting is Dhcp {
        let i = choose|i: int|
            0 <= i < snapshot@.services.len() && (#[trigger] snapshot@.services[i]).setting is Dhcp;
        assert(snapshot.services@[i].setting is Dhcp);
    }
}

/// The tunnels that a listing shows are those of its adapters that are up.
pub proof fn law_tunnels_are_picked_from_the_listing(
    json: &str,
    r: Vec<String>,
    adapters: Vec<NetAdapter>,
    direct: Vec<String>,
    n: Seq<char>,
)
    requires
        call_ensures(parse_vpn_interfaces_windows, (json,), r),
        call_ensures(parse_net_adapter_json, (json,), adapters),
        call_ensures(vpn_adapters, (&adapters,), direct),
    ensures
        texts(r@).contains(n) <==> texts(direct@).contains(n),
{
    let m = adapter_models(adapters@);
    let names = adapter_names(m);
    if texts(r@).contains(n) {
        let k = choose|k: int| 0 <= k < texts(r@).len() && texts(r@)[k] == n;
        assert(texts(r@).contains(texts(r@)[k]));
    }
    if texts(direct@).contains(n) {
        let k = choose|k: int| 0 <= k < texts(direct@).len() && texts(direct@)[k] == n;
        assert(texts(direct@).contains(texts(direct@)[k]));
    }
}

/// A wake by the clocks is one by what they read: the wall clock ran ahead of the other by more
/// than the threshold.
pub proof fn law_a_wake_is_read_off_the_clocks(
    mono: std::time::Instant,
    wall: u64,
    threshold: std::time::Duration,
    r: bool,
) -> (w: (u128, u64, u128))
    requires
        call_ensures(detect_wake, (mono, wall, threshold), r),
    ensures
        elapsed_nanos(mono, w.0) && is_wall_ms(w.1) && span_nanos(threshold, w.2),
        r <==> {
            let advance = if w.1 >= wall {
                (w.1 - wall) * 1_000_000
            } else {
                0
            };
            advance > w.0 + w.2
        },
{
    let w = choose|mono_ns: u128, now_ms: u64, gap_ns: u128|
        #![trigger elapsed_nanos(mono, mono_ns), is_wall_ms(now_ms), span_nanos(threshold, gap_ns)]
        elapsed_nanos(mono, mono_ns) && is_wall_ms(now_ms) && span_nanos(threshold, gap_ns) && r
            == slept(mono_ns as int, wall_advance(wall, now_ms), gap_ns as int);
    w
}

}
