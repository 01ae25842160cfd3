//! The DNS configuration of the machine: what is recorded of it, and the primitives
//! through which it is read and written.
use vstd::prelude::*;
use vstd::string::*;
use crate::clock::unix_ms_now;
use crate::clock::is_wall_ms;
use crate::net::{IpAddr, LOCALHOST_V4_BITS, LOCALHOST_V6_BITS};

pub mod macos;
pub mod stub;
pub mod unsupported;
pub mod windows;

verus! {

/// How DNS is configured for a single network service.
#[derive(Debug, PartialEq, Eq)]
pub enum DnsSetting {
    /// No servers are set by hand; those of DHCP are in use.
    Dhcp,
    /// Explicit addresses are set.
    Static { servers: Vec<IpAddr> },
}

/// What a [`DnsSetting`] says.
pub enum SettingModel {
    Dhcp,
    Static(Seq<IpAddr>),
}

impl View for DnsSetting {
    type V = SettingModel;

    open spec fn view(&self) -> SettingModel {
        match self {
            DnsSetting::Dhcp => SettingModel::Dhcp,
            DnsSetting::Static { servers } => SettingModel::Static(servers@),
        }
    }
}

/// DNS configuration of one named network service.
#[derive(Debug, PartialEq, Eq)]
pub struct ServiceDns {
    /// The service's name, as the platform reports it.
    pub service: String,
    /// Its DNS configuration.
    pub setting: DnsSetting,
}

/// What a [`ServiceDns`] says.
pub struct ServiceModel {
    pub service: Seq<char>,
    pub setting: SettingModel,
}

impl View for ServiceDns {
    type V = ServiceModel;

    open spec fn view(&self) -> ServiceModel {
        ServiceModel { service: self.service@, setting: self.setting@ }
    }
}

/// What a list of services says.
pub open spec fn service_models(v: Seq<ServiceDns>) -> Seq<ServiceModel> {
    v.map_values(|s: ServiceDns| s@)
}

/// Which resolver manager owns the configuration on Linux.
#[derive(Debug, Clone, Copy, PartialEq, Eq, Structural)]
pub enum LinuxRegime {
    /// systemd-resolved owns the stub resolver.
    SystemdResolved,
    /// NetworkManager manages `resolv.conf` without systemd-resolved.
    NetworkManager,
    /// resolvconf or openresolv owns the file.
    Resolvconf,
    /// Plain `/etc/resolv.conf`.
    Plain,
}

/// The DNS configuration of every active service at one moment.
#[derive(Debug, PartialEq, Eq)]
pub struct DnsSnapshot {
    /// Schema version.
    pub v: u32,
    /// When the snapshot was taken, in milliseconds since the Unix epoch.
    pub taken_unix_ms: u64,
    /// The configuration of each service.
    pub services: Vec<ServiceDns>,
    /// The Linux resolver manager at that moment; absent elsewhere.
    pub linux_regime: Option<LinuxRegime>,
}

/// What a [`DnsSnapshot`] says.
pub struct SnapshotModel {
    pub v: u32,
    pub taken_unix_ms: u64,
    pub services: Seq<ServiceModel>,
    pub linux_regime: Option<LinuxRegime>,
}

impl View for DnsSnapshot {
    type V = SnapshotModel;

    open spec fn view(&self) -> SnapshotModel {
        SnapshotModel {
            v: self.v,
            taken_unix_ms: self.taken_unix_ms,
            services: service_models(self.services@),
            linux_regime: self.linux_regime,
        }
    }
}

/// A setting with the sinkhole among its servers.
pub open spec fn points_at_self(m: SettingModel) -> bool {
    match m {
        SettingModel::Static(servers) => exists|i: int|
            0 <= i < servers.len() && (#[trigger] servers[i] == IpAddr::V4(LOCALHOST_V4_BITS)
                || servers[i] == IpAddr::V6(LOCALHOST_V6_BITS)),
        SettingModel::Dhcp => false,
    }
}

/// The setting that points a service at the sinkhole: `127.0.0.1` and `::1`.
pub open spec fn sinkhole_model() -> SettingModel {
    SettingModel::Static(seq![IpAddr::V4(LOCALHOST_V4_BITS), IpAddr::V6(LOCALHOST_V6_BITS)])
}

/// The setting that points a service at the sinkhole.
pub fn sinkhole_setting() -> (r: DnsSetting)
    ensures
        r@ == sinkhole_model(),
        points_at_self(r@),
{
    let servers: Vec<IpAddr> = vec![IpAddr::V4(LOCALHOST_V4_BITS), IpAddr::V6(LOCALHOST_V6_BITS)];
    proof {
        assert(servers@ =~= seq![IpAddr::V4(LOCALHOST_V4_BITS), IpAddr::V6(LOCALHOST_V6_BITS)]);
        assert(servers@[0] == IpAddr::V4(LOCALHOST_V4_BITS));
    }
    DnsSetting::Static { servers }
}

/// Whether a setting points at the sinkhole: `127.0.0.1` or `::1` is among its servers.
pub fn is_pointing_at_self(setting: &DnsSetting) -> (r: bool)
    ensures
        r == points_at_self(setting@),
{
    match setting {
        DnsSetting::Static { servers } => {
            let mut i: usize = 0;
            while i < servers.len()
                invariant
                    0 <= i <= servers.len(),
                    setting@ == SettingModel::Static(servers@),
                    forall|j: int|
                        0 <= j < i ==> #[trigger] servers@[j] != IpAddr::V4(LOCALHOST_V4_BITS)
                            && servers@[j] != IpAddr::V6(LOCALHOST_V6_BITS),
                decreases servers.len() - i,
            {
                let ip = servers[i];
                if ip == IpAddr::V4(LOCALHOST_V4_BITS) || ip == IpAddr::V6(LOCALHOST_V6_BITS) {
                    proof {
                        assert(servers@[i as int] == ip);
                    }
                    return true;
                }
                i += 1;
            }
            false
        },
        DnsSetting::Dhcp => false,
    }
}

/// A copy of a list of addresses.
pub fn copy_ips(v: &Vec<IpAddr>) -> (r: Vec<IpAddr>)
    ensures
        r@ == v@,
{
    let mut r: Vec<IpAddr> = Vec::new();
    let mut i: usize = 0;
    while i < v.len()
        invariant
            0 <= i <= v.len(),
            r@ == v@.take(i as int),
        decreases v.len() - i,
    {
        r.push(v[i]);
        proof {
            assert(v@.take(i + 1) =~= v@.take(i as int).push(v@[i as int]));
        }
        i += 1;
    }
    proof {
        assert(v@.take(i as int) =~= v@);
    }
    r
}

impl DnsSetting {
    /// A copy of this setting.
    pub fn copy(&self) -> (r: DnsSetting)
        ensures
            r@ == self@,
    {
        match self {
            DnsSetting::Dhcp => DnsSetting::Dhcp,
            DnsSetting::Static { servers } => DnsSetting::Static { servers: copy_ips(servers) },
        }
    }
}

/// A copy of a list of services.
pub fn copy_services(v: &Vec<ServiceDns>) -> (r: Vec<ServiceDns>)
    ensures
        service_models(r@) == service_models(v@),
        r@.len() == v@.len(),
{
    let mut r: Vec<ServiceDns> = Vec::new();
    let mut i: usize = 0;
    while i < v.len()
        invariant
            0 <= i <= v.len(),
            r@.len() == i,
            forall|j: int| 0 <= j < i ==> #[trigger] r@[j]@ == v@[j]@,
        decreases v.len() - i,
    {
        r.push(ServiceDns { service: v[i].service.clone(), setting: v[i].setting.copy() });
        i += 1;
    }
    proof {
        assert(service_models(r@) =~= service_models(v@));
    }
    r
}

impl DnsSnapshot {
    /// A snapshot of `services`, stamped with the current wall-clock time.
    pub fn new(services: Vec<ServiceDns>) -> (r: DnsSnapshot)
        ensures
            r.v == 1,
            is_wall_ms(r.taken_unix_ms),
            r.services == services,
            r.linux_regime is None,
    {
        DnsSnapshot { v: 1, taken_unix_ms: unix_ms_now(), services, linux_regime: None }
    }

    /// A copy of this snapshot.
    pub fn copy(&self) -> (r: DnsSnapshot)
        ensures
            r@ == self@,
    {
        DnsSnapshot {
            v: self.v,
            taken_unix_ms: self.taken_unix_ms,
            services: copy_services(&self.services),
            linux_regime: self.linux_regime,
        }
    }

    /// Whether every service points at the sinkhole.
    pub fn all_pointing_at_self(&self) -> (r: bool)
        ensures
            r == (forall|i: int|
                0 <= i < self.services@.len() ==> points_at_self(#[trigger] self@.services[i].setting)),
    {
        let mut i: usize = 0;
        while i < self.services.len()
            invariant
                0 <= i <= self.services.len(),
                forall|j: int| 0 <= j < i ==> points_at_self(#[trigger] self@.services[j].setting),
            decreases self.services.len() - i,
        {
            proof {
                assert(self@.services[i as int].setting == self.services@[i as int].setting@);
            }
            if !is_pointing_at_self(&self.services[i].setting) {
                return false;
            }
            i += 1;
        }
        true
    }

    /// The names of the services, in order.
    pub fn service_names(&self) -> (r: Vec<String>)
        ensures
            r@.len() == self.services@.len(),
            forall|i: int| 0 <= i < r@.len() ==> #[trigger] r@[i]@ == self@.services[i].service,
    {
        let mut r: Vec<String> = Vec::new();
        let mut i: usize = 0;
        while i < self.services.len()
            invariant
                0 <= i <= self.services.len(),
                r@.len() == i,
                forall|j: int| 0 <= j < i ==> #[trigger] r@[j]@ == self@.services[j].service,
            decreases self.services.len() - i,
        {
            r.push(self.services[i].service.clone());
            i += 1;
        }
        r
    }
}

/// Errors of the platform DNS layer.
#[derive(Debug)]
pub enum PlatformError {
    /// The operation requires root privileges.
    NeedsRoot,
    /// A system command failed.
    CommandFailed(String),
    /// DNS cannot be manipulated on this platform.
    Unsupported,
    /// The output of a system command could not be parsed.
    ParseError(String),
    /// Some services could not be restored.
    PartialFailure(String),
}

/// What a [`PlatformError`] says.
pub enum PlatformErrorModel {
    NeedsRoot,
    CommandFailed(Seq<char>),
    Unsupported,
    ParseError(Seq<char>),
    PartialFailure(Seq<char>),
}

impl View for PlatformError {
    type V = PlatformErrorModel;

    open spec fn view(&self) -> PlatformErrorModel {
        match self {
            PlatformError::NeedsRoot => PlatformErrorModel::NeedsRoot,
            PlatformError::CommandFailed(s) => PlatformErrorModel::CommandFailed(s@),
            PlatformError::Unsupported => PlatformErrorModel::Unsupported,
            PlatformError::ParseError(s) => PlatformErrorModel::ParseError(s@),
            PlatformError::PartialFailure(s) => PlatformErrorModel::PartialFailure(s@),
        }
    }
}

impl PlatformErrorModel {
    /// The message shown for the error.
    pub open spec fn text(self) -> Seq<char> {
        match self {
            PlatformErrorModel::NeedsRoot =>
                "DNS write requires root privileges; please run as root"@,
            PlatformErrorModel::CommandFailed(s) => "networksetup error: "@ + s,
            PlatformErrorModel::Unsupported => "DNS takeover is not supported on this platform"@,
            PlatformErrorModel::ParseError(s) => "failed to parse networksetup output: "@ + s,
            PlatformErrorModel::PartialFailure(s) => "restore failed for some services: "@ + s,
        }
    }
}

impl PlatformError {
    /// The message shown for the error.
    pub fn message(&self) -> (r: String)
        ensures
            r@ == self@.text(),
    {
        match self {
            PlatformError::NeedsRoot => "DNS write requires root privileges; please run as root".to_owned(),
            PlatformError::CommandFailed(s) => "networksetup error: ".to_owned().concat(s.as_str()),
            PlatformError::Unsupported => "DNS takeover is not supported on this platform".to_owned(),
            PlatformError::ParseError(s) => "failed to parse networksetup output: ".to_owned().concat(
                s.as_str(),
            ),
            PlatformError::PartialFailure(s) => "restore failed for some services: ".to_owned().concat(
                s.as_str(),
            ),
        }
    }
}

/// `<service>: <error>` for each service that could not be restored, in order.
pub open spec fn failure_lines(failures: Seq<(Seq<char>, Seq<char>)>) -> Seq<Seq<char>> {
    failures.map_values(|f: (Seq<char>, Seq<char>)| f.0 + ": "@ + f.1)
}

/// A list of services and errors, as text.
pub open spec fn failure_models(failures: Seq<(String, PlatformError)>) -> Seq<(Seq<char>, Seq<char>)> {
    failures.map_values(|f: (String, PlatformError)| (f.0@, f.1@.text()))
}

/// The outcome of a restore that went through every service: success where nothing
/// failed, else one error that names each failure.
pub fn restore_outcome(failures: &Vec<(String, PlatformError)>) -> (r: Result<(), PlatformError>)
    ensures
        r is Ok <==> failures@.len() == 0,
        r matches Err(e) ==> e@ == PlatformErrorModel::PartialFailure(
            crate::text::joined(failure_lines(failure_models(failures@)), "; "@),
        ),
{
    if failures.len() == 0 {
        return Ok(());
    }
    let mut parts: Vec<String> = Vec::new();
    let mut i: usize = 0;
    while i < failures.len()
        invariant
            0 <= i <= failures.len(),
            parts@.len() == i,
            forall|j: int|
                0 <= j < i ==> #[trigger] parts@[j]@ == failure_lines(failure_models(failures@))[j],
        decreases failures.len() - i,
    {
        let mut line = failures[i].0.clone();
        line.append(": ");
        let e = failures[i].1.message();
        line.append(e.as_str());
        parts.push(line);
        i += 1;
    }
    proof {
        assert(crate::text::texts(parts@) =~= failure_lines(failure_models(failures@)));
    }
    Err(PlatformError::PartialFailure(crate::text::join(&parts, "; ")))
}

/// How the machine's DNS configuration is read and written.
///
/// An implementation must restore every service it can, also where one fails.
pub trait PlatformDns: Sized {
    /// The current configuration of each active service.
    fn snapshot(&mut self) -> Result<DnsSnapshot, PlatformError>;

    /// Points every service in `services` at the sinkhole.
    fn point_at_self(&mut self, services: &Vec<String>) -> Result<(), PlatformError>;

    /// Restores the configuration recorded in `snap`.
    fn restore(&mut self, snap: &DnsSnapshot) -> Result<(), PlatformError>;

    /// The current setting of one service.
    fn current_setting(&mut self, service: &str) -> Result<DnsSetting, PlatformError>;
}

// ── Laws ────────────────────────────────────────────────────────────────────

/// A list of servers on which `127.0.0.1` or `::1` stands.
pub open spec fn lists_this_machine(servers: Seq<IpAddr>) -> bool {
    servers.contains(IpAddr::V4(0x7f00_0001)) || servers.contains(IpAddr::V6(1))
}

/// A setting by hand to servers none of which is this machine.
pub open spec fn is_foreign(setting: DnsSetting) -> bool {
    setting matches DnsSetting::Static { servers } && !lists_this_machine(servers@)
}

/// A setting points at the sinkhole just where it lists `127.0.0.1` or `::1`.
pub proof fn law_the_sinkhole_is_this_machine(setting: &DnsSetting, r: bool)
    requires
        call_ensures(is_pointing_at_self, (setting,), r),
    ensures
        *setting is Dhcp ==> !r,
        *setting matches DnsSetting::Static { servers } ==> r == lists_this_machine(servers@),
{
    match setting {
        DnsSetting::Static { servers } => {
            let s = servers@;
            if r {
                let i = choose|i: int|
                    0 <= i < s.len() && (#[trigger] s[i] == IpAddr::V4(LOCALHOST_V4_BITS) || s[i]
                        == IpAddr::V6(LOCALHOST_V6_BITS));
                assert(s.contains(s[i]));
            }
            if s.contains(IpAddr::V4(0x7f00_0001)) {
                let i = choose|i: int| 0 <= i < s.len() && s[i] == IpAddr::V4(0x7f00_0001);
                assert(s[i] == IpAddr::V4(LOCALHOST_V4_BITS));
            }
            if s.contains(IpAddr::V6(1)) {
                let i = choose|i: int| 0 <= i < s.len() && s[i] == IpAddr::V6(1);
                assert(s[i] == IpAddr::V6(LOCALHOST_V6_BITS));
            }
        },
        DnsSetting::Dhcp => {},
    }
}

/// The setting that points at the sinkhole is recognised as such, and names no other server.
pub proof fn law_the_sinkhole_setting_is_recognised(setting: DnsSetting, r: bool)
    requires
        call_ensures(sinkhole_setting, (), setting),
        call_ensures(is_pointing_at_self, (&setting,), r),
    ensures
        r,
        setting matches DnsSetting::Static { servers } && servers@ == seq![
            IpAddr::V4(0x7f00_0001),
            IpAddr::V6(1),
        ],
{
    match setting {
        DnsSetting::Static { servers } => assert(setting@ == SettingModel::Static(servers@)),
        DnsSetting::Dhcp => {},
    }
}

/// A machine is taken over just where none of its services is left on DHCP or on foreign servers.
pub proof fn law_one_service_elsewhere_is_enough(snap: &DnsSnapshot, r: bool)
    requires
        call_ensures(DnsSnapshot::all_pointing_at_self, (snap,), r),
    ensures
        r <==> forall|i: int|
            0 <= i < snap.services@.len() ==> !((#[trigger] snap.services@[i]).setting is Dhcp)
                && !is_foreign(snap.services@[i].setting),
{
    assert forall|i: int| 0 <= i < snap.services@.len() implies points_at_self(
        #[trigger] snap@.services[i].setting,
    ) == (!(snap.services@[i].setting is Dhcp) && !is_foreign(snap.services@[i].setting)) by {
        let setting = snap.services@[i].setting;
        assert(snap@.services[i].setting == setting@);
        lemma_points_at_self(setting);
    }
    if r {
        assert forall|i: int| 0 <= i < snap.services@.len() implies !((
        #[trigger] snap.services@[i]).setting is Dhcp) && !is_foreign(snap.services@[i].setting) by {
            assert(points_at_self(snap@.services[i].setting));
        }
    } else {
        let i = choose|i: int|
            0 <= i < snap.services@.len() && !points_at_self(#[trigger] snap@.services[i].setting);
        assert(snap.services@[i].setting is Dhcp || is_foreign(snap.services@[i].setting));
    }
}

/// What pointing at the sinkhole means for each kind of setting.
pub proof fn lemma_points_at_self(setting: DnsSetting)
    ensures
        points_at_self(setting@) == (!(setting is Dhcp) && !is_foreign(setting)),
{
    match setting {
        DnsSetting::Static { servers } => {
            let s = servers@;
            if points_at_self(setting@) {
                let i = choose|i: int|
                    0 <= i < s.len() && (#[trigger] s[i] == IpAddr::V4(LOCALHOST_V4_BITS) || s[i]
                        == IpAddr::V6(LOCALHOST_V6_BITS));
                assert(s.contains(s[i]));
            }
            if s.contains(IpAddr::V4(0x7f00_0001)) {
                let i = choose|i: int| 0 <= i < s.len() && s[i] == IpAddr::V4(0x7f00_0001);
                assert(s[i] == IpAddr::V4(LOCALHOST_V4_BITS));
            }
            if s.contains(IpAddr::V6(1)) {
                let i = choose|i: int| 0 <= i < s.len() && s[i] == IpAddr::V6(1);
                assert(s[i] == IpAddr::V6(LOCALHOST_V6_BITS));
            }
        },
        DnsSetting::Dhcp => {},
    }
}

/// A copy of a setting and of a snapshot says the same in every field: nothing that was recorded
/// is lost.
pub proof fn law_copies_lose_nothing(
    setting: &DnsSetting,
    same: DnsSetting,
    snap: &DnsSnapshot,
    copy: DnsSnapshot,
    i: int,
)
    requires
        call_ensures(DnsSetting::copy, (setting,), same),
        call_ensures(DnsSnapshot::copy, (snap,), copy),
        0 <= i < snap.services@.len(),
    ensures
        *setting is Dhcp <==> same is Dhcp,
        *setting matches DnsSetting::Static { servers } ==> (same matches DnsSetting::Static {
            servers: kept,
        } && kept@ == servers@),
        copy.v == snap.v,
        copy.taken_unix_ms == snap.taken_unix_ms,
        copy.linux_regime == snap.linux_regime,
        copy.services@.len() == snap.services@.len(),
        copy.services@[i].service@ == snap.services@[i].service@,
        copy.services@[i].setting@ == snap.services@[i].setting@,
{
    match *setting {
        DnsSetting::Static { servers } => assert(setting@ == SettingModel::Static(servers@)),
        DnsSetting::Dhcp => {},
    }
    assert(copy@.services == snap@.services);
    assert(copy@.services.len() == copy.services@.len());
    assert(snap@.services.len() == snap.services@.len());
    assert(copy@.services[i] == copy.services@[i]@);
    assert(snap@.services[i] == snap.services@[i]@);
}

/// The names of a snapshot's services are listed in its order, each once.
pub proof fn law_every_service_is_named(snap: &DnsSnapshot, r: Vec<String>, i: int)
    requires
        call_ensures(DnsSnapshot::service_names, (snap,), r),
        0 <= i < snap.services@.len(),
    ensures
        r@.len() == snap.services@.len(),
        r@[i]@ == snap.services@[i].service@,
{
    assert(snap@.services[i] == snap.services@[i]@);
}

/// A restore that failed anywhere says so, and names every service that it failed for.
pub proof fn law_no_failure_is_hidden(
    failures: &Vec<(String, PlatformError)>,
    r: Result<(), PlatformError>,
    i: int,
)
    requires
        call_ensures(restore_outcome, (failures,), r),
        0 <= i < failures@.len(),
    ensures
        r matches Err(PlatformError::PartialFailure(text)) && crate::text::has_infix(
            text@,
            failures@[i].0@ + ": "@ + failures@[i].1@.text(),
        ),
{
    let parts = failure_lines(failure_models(failures@));
    assert(parts.len() == failures@.len());
    assert(parts[i] == failures@[i].0@ + ": "@ + failures@[i].1@.text());
    crate::text::lemma_parts_stand_in_joined(parts, "; "@, i);
}

/// Copies of lists hold the same entries in the same places.
pub proof fn law_copied_lists_lose_nothing(
    ips: &Vec<IpAddr>,
    r: Vec<IpAddr>,
    services: &Vec<ServiceDns>,
    c: Vec<ServiceDns>,
    i: int,
)
    requires
        call_ensures(copy_ips, (ips,), r),
        call_ensures(copy_services, (services,), c),
    ensures
        r@.len() == ips@.len(),
        0 <= i < ips@.len() ==> r@[i] == ips@[i],
        c@.len() == services@.len(),
        0 <= i < services@.len() ==> c@[i].service@ == services@[i].service@ && c@[i].setting@
            == services@[i].setting@,
{
    if 0 <= i < services@.len() {
        assert(service_models(c@)[i] == c@[i]@);
        assert(service_models(services@)[i] == services@[i]@);
    }
}

}
