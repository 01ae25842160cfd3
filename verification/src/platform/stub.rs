//! A platform layer in memory, for tests.
//!
//! It keeps one setting per service and can be told to fail, so that every path through the
//! transactions can be driven without touching the machine.
use vstd::prelude::*;
use vstd::string::*;
use crate::platform::{sinkhole_setting, DnsSetting, DnsSnapshot, PlatformDns, PlatformError, ServiceDns};
use crate::platform::{service_models, sinkhole_model, PlatformErrorModel, ServiceModel, SettingModel};
use crate::text::{copy_of, decimal_of, quoted, quoted_list, same_text};
use crate::text::{debug_quoted, debug_quoted_list, decimal, texts};

verus! {

/// Which operation fails next.
#[derive(Debug, Clone, Copy, PartialEq, Eq, Structural)]
pub enum Fail {
    /// None.
    Never,
    /// `snapshot`.
    OnSnapshot,
    /// `point_at_self`, before any service is written.
    OnPointAtSelf,
    /// `point_at_self`, after this many services were written.
    OnPointAtSelfAfter(usize),
    /// `restore`.
    OnRestore,
}

impl Default for Fail {
    fn default() -> (r: Fail)
        ensures
            r == Fail::Never,
    {
        Fail::Never
    }
}

/// The services without the one named `service`.
pub open spec fn without(e: Seq<ServiceModel>, service: Seq<char>) -> Seq<ServiceModel>
    decreases e.len(),
{
    if e.len() == 0 {
        e
    } else if e.last().service == service {
        without(e.drop_last(), service)
    } else {
        without(e.drop_last(), service).push(e.last())
    }
}

/// The services with this one set.
pub open spec fn with(e: Seq<ServiceModel>, s: ServiceModel) -> Seq<ServiceModel> {
    without(e, s.service).push(s)
}

/// The services with each of these set, in order.
pub open spec fn with_all(e: Seq<ServiceModel>, s: Seq<ServiceModel>) -> Seq<ServiceModel>
    decreases s.len(),
{
    if s.len() == 0 {
        e
    } else {
        with(with_all(e, s.drop_last()), s.last())
    }
}

/// The named services, each pointed at the sinkhole.
pub open spec fn pointed(names: Seq<Seq<char>>) -> Seq<ServiceModel> {
    names.map_values(|n: Seq<char>| ServiceModel { service: n, setting: sinkhole_model() })
}

/// The setting of each service.
pub open spec fn settings_of(e: Seq<ServiceModel>) -> Map<Seq<char>, SettingModel>
    decreases e.len(),
{
    if e.len() == 0 {
        Map::<Seq<char>, SettingModel>::empty()
    } else {
        settings_of(e.drop_last()).insert(e.last().service, e.last().setting)
    }
}

/// A platform layer in memory.
#[derive(Debug)]
pub struct MockPlatform {
    entries: Vec<ServiceDns>,
    fail: Fail,
    calls: Vec<String>,
}

impl MockPlatform {
    /// The services, in the order in which they were last set.
    pub closed spec fn services(&self) -> Seq<ServiceModel> {
        service_models(self.entries@)
    }

    /// Which operation fails next.
    pub closed spec fn fails(&self) -> Fail {
        self.fail
    }

    /// The calls made so far.
    pub closed spec fn log(&self) -> Seq<Seq<char>> {
        texts(self.calls@)
    }

    /// Sets one service.
    fn put(&mut self, service: &str, setting: DnsSetting)
        ensures
            final(self).services() == with(
                old(self).services(),
                ServiceModel { service: service@, setting: setting@ },
            ),
            final(self).fails() == old(self).fails(),
            final(self).log() == old(self).log(),
    {
        let ghost all = self.services();
        let mut kept: Vec<ServiceDns> = Vec::new();
        let mut i: usize = 0;
        proof {
            assert(service_models(kept@) =~= without(all.take(0), service@));
        }
        while i < self.entries.len()
            invariant
                0 <= i <= self.entries.len(),
                all == service_models(self.entries@),
                *self == *old(self),
                service_models(kept@) == without(all.take(i as int), service@),
            decreases self.entries.len() - i,
        {
            proof {
                assert(all.take(i + 1).drop_last() =~= all.take(i as int));
                assert(all.take(i + 1).last() == self.entries@[i as int]@);
            }
            if !same_text(self.entries[i].service.as_str(), service) {
                let ghost before = kept@;
                let s = ServiceDns {
                    service: self.entries[i].service.clone(),
                    setting: self.entries[i].setting.copy(),
                };
                let ghost m = s@;
                kept.push(s);
                proof {
                    assert(service_models(kept@) =~= service_models(before).push(m));
                }
            }
            i += 1;
        }
        proof {
            assert(all.take(i as int) =~= all);
        }
        let ghost before = kept@;
        let s = ServiceDns { service: copy_of(service), setting };
        let ghost m = s@;
        kept.push(s);
        proof {
            assert(service_models(kept@) =~= service_models(before).push(m));
        }
        self.entries = kept;
    }

    /// Records a call.
    fn record(&mut self, call: String)
        ensures
            final(self).services() == old(self).services(),
            final(self).fails() == old(self).fails(),
            final(self).log() == old(self).log().push(call@),
    {
        let ghost before = self.calls@;
        self.calls.push(call);
        proof {
            assert(texts(self.calls@) =~= texts(before).push(call@));
        }
    }

    /// A platform with these settings.
    pub fn new(initial: Vec<ServiceDns>) -> (r: MockPlatform)
        ensures
            r.services() == with_all(Seq::<ServiceModel>::empty(), service_models(initial@)),
            r.fails() == Fail::Never,
            r.log() == Seq::<Seq<char>>::empty(),
    {
        let mut r = MockPlatform { entries: Vec::new(), fail: Fail::Never, calls: Vec::new() };
        proof {
            assert(r.services() =~= Seq::<ServiceModel>::empty());
            assert(r.log() =~= Seq::<Seq<char>>::empty());
        }
        r.put_all(&initial);
        r
    }

    /// Sets each of these services, in order.
    fn put_all(&mut self, s: &Vec<ServiceDns>)
        ensures
            final(self).services() == with_all(old(self).services(), service_models(s@)),
            final(self).fails() == old(self).fails(),
            final(self).log() == old(self).log(),
    {
        let ghost start = self.services();
        let ghost all = service_models(s@);
        let mut i: usize = 0;
        while i < s.len()
            invariant
                0 <= i <= s.len(),
                all == service_models(s@),
                self.services() == with_all(start, all.take(i as int)),
                self.fails() == old(self).fails(),
                self.log() == old(self).log(),
            decreases s.len() - i,
        {
            proof {
                assert(all.take(i + 1).drop_last() =~= all.take(i as int));
                assert(all.take(i + 1).last() == s@[i as int]@);
            }
            self.put(s[i].service.as_str(), s[i].setting.copy());
            i += 1;
        }
        proof {
            assert(all.take(i as int) =~= all);
        }
    }

    /// Points the first `n` of these services at the sinkhole.
    fn point(&mut self, names: &Vec<String>, n: usize)
        requires
            n <= names.len(),
        ensures
            final(self).services() == with_all(
                old(self).services(),
                pointed(texts(names@).take(n as int)),
            ),
            final(self).fails() == old(self).fails(),
            final(self).log() == old(self).log(),
    {
        let ghost start = self.services();
        let ghost all = pointed(texts(names@).take(n as int));
        let mut i: usize = 0;
        while i < n
            invariant
                0 <= i <= n <= names.len(),
                all == pointed(texts(names@).take(n as int)),
                self.services() == with_all(start, all.take(i as int)),
                self.fails() == old(self).fails(),
                self.log() == old(self).log(),
            decreases n - i,
        {
            proof {
                assert(all.take(i + 1).drop_last() =~= all.take(i as int));
                assert(texts(names@).take(n as int)[i as int] == names@[i as int]@);
                assert(all.take(i + 1).last() == (ServiceModel {
                    service: names@[i as int]@,
                    setting: sinkhole_model(),
                }));
            }
            self.put(names[i].as_str(), sinkhole_setting());
            i += 1;
        }
        proof {
            assert(all.take(i as int) =~= all);
        }
    }

    /// Makes the next operation of this kind fail.
    pub fn inject_failure(&mut self, fail: Fail)
        ensures
            final(self).fails() == fail,
            final(self).services() == old(self).services(),
            final(self).log() == old(self).log(),
    {
        self.fail = fail;
    }

    /// The calls made so far.
    pub fn calls(&self) -> (r: Vec<String>)
        ensures
            texts(r@) == self.log(),
    {
        let mut r: Vec<String> = Vec::new();
        let mut i: usize = 0;
        while i < self.calls.len()
            invariant
                0 <= i <= self.calls.len(),
                r@.len() == i,
                forall|j: int| 0 <= j < i ==> #[trigger] r@[j]@ == self.calls@[j]@,
            decreases self.calls.len() - i,
        {
            r.push(self.calls[i].clone());
            i += 1;
        }
        proof {
            assert(texts(r@) =~= texts(self.calls@));
        }
        r
    }

    /// The setting of a service.
    pub fn get_setting(&self, service: &str) -> (r: Option<DnsSetting>)
        ensures
            (match r {
                Some(s) => settings_of(self.services()).dom().contains(service@) && settings_of(
                    self.services(),
                )[service@] == s@,
                None => !settings_of(self.services()).dom().contains(service@),
            }),
    {
        let ghost all = self.services();
        let mut i: usize = self.entries.len();
        proof {
            assert(all.take(i as int) =~= all);
        }
        while i > 0
            invariant
                0 <= i <= self.entries.len(),
                all == service_models(self.entries@),
                all == self.services(),
                settings_of(all).dom().contains(service@) == settings_of(all.take(i as int)).dom().contains(
                    service@,
                ),
                settings_of(all).dom().contains(service@) ==> settings_of(all)[service@] == settings_of(
                    all.take(i as int),
                )[service@],
            decreases i,
        {
            proof {
                assert(all.take(i as int).drop_last() =~= all.take(i - 1));
                assert(all.take(i as int).last() == self.entries@[i - 1]@);
            }
            i -= 1;
            if same_text(self.entries[i].service.as_str(), service) {
                return Some(self.entries[i].setting.copy());
            }
        }
        None
    }

    /// Sets a service.
    pub fn set_setting(&mut self, service: &str, setting: DnsSetting)
        ensures
            final(self).services() == with(
                old(self).services(),
                ServiceModel { service: service@, setting: setting@ },
            ),
            final(self).fails() == old(self).fails(),
            final(self).log() == old(self).log(),
    {
        self.put(service, setting);
    }
}

/// The error of an injected failure.
pub open spec fn injected<T>(r: Result<T, PlatformError>, what: Seq<char>) -> bool {
    r matches Err(e) && e@ == PlatformErrorModel::CommandFailed(what)
}

/// The failure that is left once one of this kind has happened.
pub open spec fn fail_after(fail: Fail, happened: bool) -> Fail {
    if happened {
        Fail::Never
    } else {
        fail
    }
}

/// `n`, but no more than `max`.
pub open spec fn at_most(n: int, max: int) -> int {
    if n <= max {
        n
    } else {
        max
    }
}

impl PlatformDns for MockPlatform {
    fn snapshot(&mut self) -> (r: Result<DnsSnapshot, PlatformError>)
        ensures
            final(self).services() == old(self).services(),
            final(self).log() == old(self).log().push("snapshot"@),
            final(self).fails() == fail_after(old(self).fails(), old(self).fails() == Fail::OnSnapshot),
            if old(self).fails() == Fail::OnSnapshot {
                injected(r, "injected snapshot failure"@)
            } else {
                r matches Ok(s) && s.v == 1 && s.taken_unix_ms == 0 && s@.services == old(
                    self,
                ).services() && s.linux_regime is None
            },
    {
        self.record("snapshot".to_owned());
        if self.fail == Fail::OnSnapshot {
            self.fail = Fail::Never;
            return Err(PlatformError::CommandFailed("injected snapshot failure".to_owned()));
        }
        let services = crate::platform::copy_services(&self.entries);
        Ok(DnsSnapshot { v: 1, taken_unix_ms: 0, services, linux_regime: None })
    }

    fn point_at_self(&mut self, services: &Vec<String>) -> (r: Result<(), PlatformError>)
        ensures
            final(self).log() == old(self).log().push(
                "point_at_self("@ + debug_quoted_list(texts(services@)) + ")"@,
            ),
            (match old(self).fails() {
                Fail::OnPointAtSelf => injected(r, "injected point_at_self failure"@)
                    && final(self).services() == old(self).services() && final(self).fails()
                    == Fail::Never,
                Fail::OnPointAtSelfAfter(n) => injected(
                    r,
                    "injected partial point_at_self failure"@,
                ) && final(self).services() == with_all(
                    old(self).services(),
                    pointed(texts(services@).take(at_most(n as int, services@.len() as int))),
                ) && final(self).fails() == Fail::Never,
                _ => r is Ok && final(self).services() == with_all(
                    old(self).services(),
                    pointed(texts(services@)),
                ) && final(self).fails() == old(self).fails(),
            }),
    {
        let mut call = "point_at_self(".to_owned();
        let list = quoted_list(services);
        call.append(list.as_str());
        call.append(")");
        self.record(call);
        match self.fail {
            Fail::OnPointAtSelf => {
                self.fail = Fail::Never;
                Err(PlatformError::CommandFailed("injected point_at_self failure".to_owned()))
            },
            Fail::OnPointAtSelfAfter(n) => {
                self.fail = Fail::Never;
                let k: usize = if n <= services.len() {
                    n
                } else {
                    services.len()
                };
                self.point(services, k);
                Err(PlatformError::CommandFailed("injected partial point_at_self failure".to_owned()))
            },
            _ => {
                self.point(services, services.len());
                proof {
                    assert(texts(services@).take(services@.len() as int) =~= texts(services@));
                }
                Ok(())
            },
        }
    }

    fn restore(&mut self, snap: &DnsSnapshot) -> (r: Result<(), PlatformError>)
        ensures
            final(self).log() == old(self).log().push(
                "restore("@ + decimal(snap.services@.len()) + " services)"@,
            ),
            final(self).fails() == fail_after(old(self).fails(), old(self).fails() == Fail::OnRestore),
            if old(self).fails() == Fail::OnRestore {
                injected(r, "injected restore failure"@) && final(self).services() == old(
                    self,
                ).services()
            } else {
                r is Ok && final(self).services() == with_all(old(self).services(), snap@.services)
            },
    {
        let mut call = "restore(".to_owned();
        let n = decimal_of(snap.services.len() as u64);
        call.append(n.as_str());
        call.append(" services)");
        self.record(call);
        if self.fail == Fail::OnRestore {
            self.fail = Fail::Never;
            return Err(PlatformError::CommandFailed("injected restore failure".to_owned()));
        }
        self.put_all(&snap.services);
        Ok(())
    }

    fn current_setting(&mut self, service: &str) -> (r: Result<DnsSetting, PlatformError>)
        ensures
            final(self).services() == old(self).services(),
            final(self).fails() == old(self).fails(),
            final(self).log() == old(self).log().push("current_setting("@ + service@ + ")"@),
            (match r {
                Ok(s) => settings_of(old(self).services()).dom().contains(service@) && settings_of(
                    old(self).services(),
                )[service@] == s@,
                Err(e) => !settings_of(old(self).services()).dom().contains(service@) && e@
                    == PlatformErrorModel::CommandFailed(
                    "service "@ + debug_quoted(service@) + " not found in mock"@,
                ),
            }),
    {
        let mut call = "current_setting(".to_owned();
        call.append(service);
        call.append(")");
        self.record(call);
        match self.get_setting(service) {
            Some(s) => Ok(s),
            None => {
                let mut m = "service ".to_owned();
                let q = quoted(service);
                m.append(q.as_str());
                m.append(" not found in mock");
                Err(PlatformError::CommandFailed(m))
            },
        }
    }
}

// ── Laws ────────────────────────────────────────────────────────────────────

proof fn lemma_without(e: Seq<ServiceModel>, service: Seq<char>)
    ensures
        settings_of(without(e, service)) == settings_of(e).remove(service),
    decreases e.len(),
{
    if e.len() > 0 {
        lemma_without(e.drop_last(), service);
        let w = without(e.drop_last(), service);
        if e.last().service == service {
            assert(settings_of(e).remove(service) =~= settings_of(e.drop_last()).remove(service));
        } else {
            assert(w.push(e.last()).drop_last() =~= w);
            assert(settings_of(w.push(e.last())) =~= settings_of(e).remove(service));
        }
    } else {
        assert(settings_of(e).remove(service) =~= settings_of(e));
    }
}

/// Setting a service changes its setting and no other.
pub proof fn law_set_changes_one_service(e: Seq<ServiceModel>, s: ServiceModel)
    ensures
        settings_of(with(e, s)) == settings_of(e).insert(s.service, s.setting),
{
    lemma_without(e, s.service);
    let w = without(e, s.service);
    assert(w.push(s).drop_last() =~= w);
    assert(settings_of(with(e, s)) =~= settings_of(e).insert(s.service, s.setting));
}

/// A restore gives every recorded service its recorded setting and leaves the others alone.
pub proof fn law_restore_sets_the_recorded(e: Seq<ServiceModel>, s: Seq<ServiceModel>)
    ensures
        settings_of(with_all(e, s)) == settings_of(e).union_prefer_right(settings_of(s)),
    decreases s.len(),
{
    if s.len() == 0 {
        assert(settings_of(e).union_prefer_right(settings_of(s)) =~= settings_of(e));
    } else {
        law_restore_sets_the_recorded(e, s.drop_last());
        law_set_changes_one_service(with_all(e, s.drop_last()), s.last());
        assert(settings_of(with_all(e, s)) =~= settings_of(e).union_prefer_right(settings_of(s)));
    }
}

proof fn lemma_pointed_dom(names: Seq<Seq<char>>, n: Seq<char>)
    requires
        settings_of(pointed(names)).dom().contains(n),
    ensures
        names.contains(n),
    decreases names.len(),
{
    if names.len() > 0 {
        assert(pointed(names).drop_last() =~= pointed(names.drop_last()));
        if names.last() == n {
            assert(names[names.len() - 1] == n);
        } else {
            lemma_pointed_dom(names.drop_last(), n);
            let i = choose|i: int| 0 <= i < names.drop_last().len() && names.drop_last()[i] == n;
            assert(names[i] == n);
        }
    }
}

/// A restore undoes a commit, also one that failed half-way: however many of the recorded
/// services were pointed at the sinkhole, each has its setting back.
pub proof fn law_restore_undoes_a_partial_commit(e: Seq<ServiceModel>, names: Seq<Seq<char>>)
    requires
        forall|i: int| 0 <= i < names.len() ==> settings_of(e).dom().contains(#[trigger] names[i]),
    ensures
        settings_of(with_all(with_all(e, pointed(names)), e)) == settings_of(e),
{
    law_restore_sets_the_recorded(e, pointed(names));
    law_restore_sets_the_recorded(with_all(e, pointed(names)), e);
    assert forall|n: Seq<char>| settings_of(pointed(names)).dom().contains(n) implies settings_of(
        e,
    ).dom().contains(n) by {
        lemma_pointed_dom(names, n);
        let i = choose|i: int| 0 <= i < names.len() && names[i] == n;
        assert(settings_of(e).dom().contains(names[i]));
    }
    assert(settings_of(with_all(with_all(e, pointed(names)), e)) =~= settings_of(e));
}

/// What a service was set to is what it is found at, and the other services stay where they
/// were.
pub proof fn law_a_setting_is_found_again(
    m: &mut MockPlatform,
    service: &str,
    setting: DnsSetting,
    other: &str,
    own: Option<DnsSetting>,
    before: Option<DnsSetting>,
    after: Option<DnsSetting>,
)
    requires
        call_ensures(MockPlatform::set_setting, (m, service, setting), ()),
        call_ensures(MockPlatform::get_setting, (final(m), service), own),
        call_ensures(MockPlatform::get_setting, (old(m), other), before),
        call_ensures(MockPlatform::get_setting, (final(m), other), after),
    ensures
        own matches Some(s) && s@ == setting@,
        other@ != service@ ==> (before is Some <==> after is Some) && (before is Some ==> before->0@
            == after->0@),
{
    law_set_changes_one_service(
        old(m).services(),
        ServiceModel { service: service@, setting: setting@ },
    );
}

/// Every service that a takeover names points at the sinkhole after it, unless it was told to
/// fail, and then the failure is reported and used up.
pub proof fn law_the_named_services_are_taken_over(
    m: &mut MockPlatform,
    services: &Vec<String>,
    r: Result<(), PlatformError>,
    name: &str,
    found: Option<DnsSetting>,
    before: Option<DnsSetting>,
)
    requires
        call_ensures(MockPlatform::point_at_self, (m, services), r),
        call_ensures(MockPlatform::get_setting, (final(m), name), found),
        call_ensures(MockPlatform::get_setting, (old(m), name), before),
    ensures
        r is Err <==> old(m).fails() is OnPointAtSelf || old(m).fails() is OnPointAtSelfAfter,
        r is Err ==> final(m).fails() == Fail::Never,
        r is Ok ==> final(m).fails() == old(m).fails(),
        r is Ok && texts(services@).contains(name@) ==> (found matches Some(s) && crate::platform::points_at_self(
            s@,
        )),
        !texts(services@).contains(name@) || old(m).fails() is OnPointAtSelf ==> (before is Some <==> found is Some) && (
        before is Some ==> before->0@ == found->0@),
{
    let e = old(m).services();
    let names = texts(services@);
    let n = match old(m).fails() {
        Fail::OnPointAtSelfAfter(n) => at_most(n as int, services@.len() as int),
        _ => names.len() as int,
    };
    assert(names.len() == services@.len());
    let part = names.take(n);
    assert(names.take(names.len() as int) =~= names);
    law_restore_sets_the_recorded(e, pointed(part));
    if settings_of(pointed(part)).dom().contains(name@) {
        lemma_pointed_dom(part, name@);
        let i = choose|i: int| 0 <= i < part.len() && part[i] == name@;
        assert(names[i] == name@);
    }
    if names.contains(name@) && r is Ok {
        lemma_pointed_settings(names, name@);
        assert(sinkhole_model()->0[0] == crate::net::IpAddr::V4(crate::net::LOCALHOST_V4_BITS));
        assert(crate::platform::points_at_self(sinkhole_model()));
    }
}

proof fn lemma_pointed_settings(names: Seq<Seq<char>>, n: Seq<char>)
    requires
        names.contains(n),
    ensures
        settings_of(pointed(names)).dom().contains(n),
        settings_of(pointed(names))[n] == sinkhole_model(),
    decreases names.len(),
{
    if names.len() > 0 {
        let f = names.drop_last();
        assert(pointed(names).drop_last() =~= pointed(f));
        assert(pointed(names).last() == (ServiceModel { service: names.last(), setting: sinkhole_model() }));
        if names.last() != n {
            let i = choose|i: int| 0 <= i < names.len() && names[i] == n;
            assert(f[i] == n);
            lemma_pointed_settings(f, n);
        }
    }
}

/// A restore gives a service the setting that was recorded for it last, and leaves a service that
/// was not recorded where it was; one that was told to fail changes nothing.
pub proof fn law_a_restore_gives_the_recorded_back(
    m: &mut MockPlatform,
    snap: &DnsSnapshot,
    r: Result<(), PlatformError>,
    name: &str,
    found: Option<DnsSetting>,
    before: Option<DnsSetting>,
    i: int,
)
    requires
        call_ensures(MockPlatform::restore, (m, snap), r),
        call_ensures(MockPlatform::get_setting, (final(m), name), found),
        call_ensures(MockPlatform::get_setting, (old(m), name), before),
        0 <= i < snap.services@.len(),
        forall|k: int| i < k < snap.services@.len() ==> (#[trigger] snap.services@[k]).service@ != name@,
    ensures
        r is Err <==> old(m).fails() is OnRestore,
        r is Ok && snap.services@[i].service@ == name@ ==> (found matches Some(s) && s@
            == snap.services@[i].setting@),
        r is Err || (forall|k: int|
            0 <= k < snap.services@.len() ==> (#[trigger] snap.services@[k]).service@ != name@) ==> (
        before is Some <==> found is Some) && (before is Some ==> before->0@ == found->0@),
{
    let s = snap@.services;
    law_restore_sets_the_recorded(old(m).services(), s);
    assert forall|k: int| 0 <= k < s.len() implies #[trigger] s[k] == snap.services@[k]@ by {}
    if snap.services@[i].service@ == name@ {
        lemma_last_setting(s, name@, i);
    }
    if forall|k: int| 0 <= k < snap.services@.len() ==> (#[trigger] snap.services@[k]).service@ != name@ {
        assert forall|k: int| 0 <= k < s.len() implies (#[trigger] s[k]).service != name@ by {
            assert(snap.services@[k].service@ != name@);
        }
        lemma_no_setting(s, name@);
    }
}

proof fn lemma_last_setting(s: Seq<ServiceModel>, name: Seq<char>, i: int)
    requires
        0 <= i < s.len(),
        s[i].service == name,
        forall|k: int| i < k < s.len() ==> (#[trigger] s[k]).service != name,
    ensures
        settings_of(s).dom().contains(name),
        settings_of(s)[name] == s[i].setting,
    decreases s.len(),
{
    if i < s.len() - 1 {
        let f = s.drop_last();
        assert(s[s.len() - 1].service != name);
        assert forall|k: int| i < k < f.len() implies (#[trigger] f[k]).service != name by {
            assert(s[k].service != name);
        }
        lemma_last_setting(f, name, i);
    }
}

proof fn lemma_no_setting(s: Seq<ServiceModel>, name: Seq<char>)
    requires
        forall|k: int| 0 <= k < s.len() ==> (#[trigger] s[k]).service != name,
    ensures
        !settings_of(s).dom().contains(name),
    decreases s.len(),
{
    if s.len() > 0 {
        let f = s.drop_last();
        assert(s[s.len() - 1].service != name);
        assert forall|k: int| 0 <= k < f.len() implies (#[trigger] f[k]).service != name by {
            assert(s[k].service != name);
        }
        lemma_no_setting(f, name);
    }
}

/// A snapshot and a look at one service show what is set, and change nothing.
pub proof fn law_looking_changes_nothing(
    m: &mut MockPlatform,
    n: &mut MockPlatform,
    snap: Result<DnsSnapshot, PlatformError>,
    service: &str,
    shown: Result<DnsSetting, PlatformError>,
    found: Option<DnsSetting>,
)
    requires
        call_ensures(MockPlatform::snapshot, (m,), snap),
        call_ensures(MockPlatform::current_setting, (n, service), shown),
        call_ensures(MockPlatform::get_setting, (old(n), service), found),
    ensures
        final(m).services() == old(m).services(),
        final(n).services() == old(n).services(),
        snap is Err <==> old(m).fails() is OnSnapshot,
        snap matches Ok(s) ==> service_models(s.services@) == old(m).services(),
        shown is Ok <==> found is Some,
        shown matches Ok(s) ==> s@ == found->0@,
{
}

/// A failure is injected without changing anything else, none is at first, and the calls are
/// shown as they were made.
pub proof fn law_failures_are_injected(m: &mut MockPlatform, fail: Fail, first: Fail, s: &MockPlatform, calls: Vec<String>)
    requires
        call_ensures(MockPlatform::inject_failure, (m, fail), ()),
        call_ensures(Fail::default, (), first),
        call_ensures(MockPlatform::calls, (s,), calls),
    ensures
        final(m).fails() == fail,
        final(m).services() == old(m).services(),
        final(m).log() == old(m).log(),
        first == Fail::Never,
        texts(calls@) == s.log(),
{
}

}
