//! The sentinel: it guards the machine's DNS.
//!
//! - [`breaker`]: the crash-loop breaker.
//! - [`takeover`]: the DNS takeover transaction.
//! - [`watch`]: the network watcher.
use vstd::prelude::*;
use vstd::string::*;
use crate::clock::unix_ms_now;
use crate::clock::is_wall_ms;
use crate::text::copy_of;
use crate::text::opt_text;

pub mod breaker;
pub mod takeover;
pub mod watch;

verus! {

/// Why the sentinel is standing by.
#[derive(Debug, Clone, Copy, PartialEq, Eq, Structural)]
pub enum StandbyReason {
    /// The first list compile is not done.
    Initialising,
    /// No upstream resolver can be reached.
    AllUpstreamsDown,
    /// A captive portal was detected.
    Portal,
    /// A VPN has taken over DNS.
    VpnActive,
    /// A third-party resolver was set explicitly.
    UserDns,
}

/// The observable state of the sentinel.
#[derive(Debug, PartialEq, Eq)]
#[allow(inconsistent_fields)]
pub enum GuardState {
    /// Normal operation.
    Filtering,
    /// The user asked for a pause, until this moment (milliseconds since the Unix epoch).
    Snoozed { until_unix_ms: u64 },
    /// Not filtering, and not by the user's choice.
    StandingBy { why: StandbyReason },
    /// Something needs the user's attention.
    Attention { why: String },
}

/// What a [`GuardState`] says.
pub enum GuardModel {
    Filtering,
    Snoozed(u64),
    StandingBy(StandbyReason),
    Attention(Seq<char>),
}

impl View for GuardState {
    type V = GuardModel;

    open spec fn view(&self) -> GuardModel {
        match self {
            GuardState::Filtering => GuardModel::Filtering,
            GuardState::Snoozed { until_unix_ms } => GuardModel::Snoozed(*until_unix_ms),
            GuardState::StandingBy { why } => GuardModel::StandingBy(*why),
            GuardState::Attention { why } => GuardModel::Attention(why@),
        }
    }
}

impl GuardState {
    /// A copy of this state.
    pub fn copy(&self) -> (r: GuardState)
        ensures
            r@ == self@,
    {
        match self {
            GuardState::Filtering => GuardState::Filtering,
            GuardState::Snoozed { until_unix_ms } => GuardState::Snoozed {
                until_unix_ms: *until_unix_ms,
            },
            GuardState::StandingBy { why } => GuardState::StandingBy { why: *why },
            GuardState::Attention { why } => GuardState::Attention { why: why.clone() },
        }
    }
}

/// Errors of the sentinel.
#[derive(Debug, Clone, Copy, PartialEq, Eq, Structural)]
pub enum SentinelError {
    /// Nobody listens for state changes any more.
    ChannelClosed,
}

impl SentinelError {
    /// The message shown for the error.
    pub fn message(&self) -> (r: String)
        ensures
            r@ == "sentinel state channel closed"@,
    {
        "sentinel state channel closed".to_owned()
    }
}

/// The guard state, and the moment until which the decision engine lets everything pass.
#[derive(Debug)]
pub struct Sentinel {
    state: GuardState,
    engine_snooze_until_unix_ms: u64,
}

/// `a + b`, or the largest `u64`.
pub open spec fn plus_capped(a: u64, b: u64) -> u64 {
    if a + b > u64::MAX {
        u64::MAX
    } else {
        (a + b) as u64
    }
}

/// What a guard state has come to at the moment `now`: a pause ends at its time, and filtering
/// resumes.
pub open spec fn guard_at(s: GuardModel, now: u64) -> GuardModel {
    match s {
        GuardModel::Snoozed(until) => if until <= now {
            GuardModel::Filtering
        } else {
            s
        },
        _ => s,
    }
}

/// What the API calls a standby reason.
pub open spec fn standby_text(why: StandbyReason) -> Seq<char> {
    match why {
        StandbyReason::Initialising => "initialising"@,
        StandbyReason::AllUpstreamsDown => "all_upstreams_down"@,
        StandbyReason::Portal => "portal"@,
        StandbyReason::VpnActive => "vpn"@,
        StandbyReason::UserDns => "user_dns"@,
    }
}

/// What the API calls a guard state.
pub open spec fn guard_text(s: GuardModel) -> Seq<char> {
    match s {
        GuardModel::Filtering => "filtering"@,
        GuardModel::Snoozed(_) => "snoozed"@,
        GuardModel::StandingBy(_) => "standing_by"@,
        GuardModel::Attention(_) => "attention"@,
    }
}

/// What the API gives as the reason of a guard state: there is one for standing by only.
pub open spec fn guard_reason(s: GuardModel) -> Option<Seq<char>> {
    match s {
        GuardModel::StandingBy(why) => Some(standby_text(why)),
        _ => None,
    }
}

/// What the API calls a standby reason.
pub fn standby_reason_to_string(why: &StandbyReason) -> (r: String)
    ensures
        r@ == standby_text(*why),
{
    match why {
        StandbyReason::Initialising => "initialising".to_owned(),
        StandbyReason::AllUpstreamsDown => "all_upstreams_down".to_owned(),
        StandbyReason::Portal => "portal".to_owned(),
        StandbyReason::VpnActive => "vpn".to_owned(),
        StandbyReason::UserDns => "user_dns".to_owned(),
    }
}

/// What the API calls a guard state, and its reason.
pub fn guard_state_api(s: &GuardState) -> (r: (String, Option<String>))
    ensures
        r.0@ == guard_text(s@),
        opt_text(r.1) == guard_reason(s@),
{
    match s {
        GuardState::Filtering => ("filtering".to_owned(), None),
        GuardState::Snoozed { .. } => ("snoozed".to_owned(), None),
        GuardState::StandingBy { why } => (
            "standing_by".to_owned(),
            Some(standby_reason_to_string(why)),
        ),
        GuardState::Attention { .. } => ("attention".to_owned(), None),
    }
}

impl Sentinel {
    /// The guard state.
    pub closed spec fn guard(&self) -> GuardModel {
        self.state@
    }

    /// The moment until which the decision engine lets everything pass; zero for no pause.
    pub closed spec fn engine_until(&self) -> u64 {
        self.engine_snooze_until_unix_ms
    }

    /// A sentinel that is filtering.
    pub fn new() -> (r: Sentinel)
        ensures
            r.guard() is Filtering,
            r.engine_until() == 0,
    {
        Sentinel { state: GuardState::Filtering, engine_snooze_until_unix_ms: 0 }
    }

    /// Pauses filtering for `duration_ms` from the moment `now_unix_ms` on.
    pub fn snooze_from(&mut self, now_unix_ms: u64, duration_ms: u64)
        ensures
            final(self).guard() == GuardModel::Snoozed(plus_capped(now_unix_ms, duration_ms)),
            final(self).engine_until() == plus_capped(now_unix_ms, duration_ms),
    {
        let until_unix_ms: u64 = now_unix_ms.saturating_add(duration_ms);
        self.engine_snooze_until_unix_ms = until_unix_ms;
        self.state = GuardState::Snoozed { until_unix_ms };
    }

    /// Pauses filtering for `duration_ms` from now on.
    pub fn snooze(&mut self, duration_ms: u64)
        ensures
            final(self).guard() == GuardModel::Snoozed(final(self).engine_until()),
            final(self).engine_until() >= duration_ms,
            exists|now: u64| #[trigger]
                is_wall_ms(now) && final(self).engine_until() == plus_capped(now, duration_ms),
    {
        self.snooze_from(unix_ms_now(), duration_ms);
    }

    /// Goes back to filtering once a pause is over.
    pub fn expire_snooze(&mut self, now: u64)
        ensures
            final(self).guard() == guard_at(old(self).guard(), now),
            final(self).engine_until() == old(self).engine_until(),
    {
        match self.state {
            GuardState::Snoozed { until_unix_ms } => {
                if until_unix_ms <= now {
                    self.state = GuardState::Filtering;
                }
            },
            _ => {},
        }
    }

    /// Ends a pause.
    pub fn resume(&mut self)
        ensures
            final(self).guard() is Filtering,
            final(self).engine_until() == 0,
    {
        self.engine_snooze_until_unix_ms = 0;
        self.state = GuardState::Filtering;
    }

    /// Stands by.
    pub fn set_standing_by(&mut self, why: StandbyReason)
        ensures
            final(self).guard() == GuardModel::StandingBy(why),
            final(self).engine_until() == old(self).engine_until(),
    {
        self.state = GuardState::StandingBy { why };
    }

    /// Filters.
    pub fn set_filtering(&mut self)
        ensures
            final(self).guard() is Filtering,
            final(self).engine_until() == old(self).engine_until(),
    {
        self.state = GuardState::Filtering;
    }

    /// Asks for attention.
    pub fn set_attention(&mut self, why: &str)
        ensures
            final(self).guard() == GuardModel::Attention(why@),
            final(self).engine_until() == old(self).engine_until(),
    {
        self.state = GuardState::Attention { why: copy_of(why) };
    }

    /// Takes over a state that a watcher's tick ended in.
    pub fn set_state(&mut self, state: GuardState)
        ensures
            final(self).guard() == state@,
            final(self).engine_until() == old(self).engine_until(),
    {
        self.state = state;
    }

    /// The guard state.
    pub fn current_state(&self) -> (r: GuardState)
        ensures
            r@ == self.guard(),
    {
        self.state.copy()
    }

    /// The moment until which the decision engine has to let everything pass.
    pub fn engine_snooze_until(&self) -> (r: u64)
        ensures
            r == self.engine_until(),
    {
        self.engine_snooze_until_unix_ms
    }

    /// What the API calls the current state, and its reason.
    pub fn state_api(&self) -> (r: (String, Option<String>))
        ensures
            r.0@ == guard_text(self.guard()),
            opt_text(r.1) == guard_reason(self.guard()),
    {
        guard_state_api(&self.state)
    }
}

/// A pause lasts as long as it was asked for, and filtering then resumes by itself.
pub proof fn law_a_pause_ends_by_itself(now_unix_ms: u64, duration_ms: u64, later: u64)
    ensures
        guard_at(GuardModel::Snoozed(plus_capped(now_unix_ms, duration_ms)), later) == if later
            < plus_capped(now_unix_ms, duration_ms) {
            GuardModel::Snoozed(plus_capped(now_unix_ms, duration_ms))
        } else {
            GuardModel::Filtering
        },
{
}

/// What each change of the sentinel makes of the two things it holds: a pause sets both to the
/// same moment, resuming clears both, and the other changes leave the engine's moment alone.
pub proof fn law_what_each_change_sets(
    a: &mut Sentinel,
    b: &mut Sentinel,
    c: &mut Sentinel,
    d: &mut Sentinel,
    e: &mut Sentinel,
    now: u64,
    duration_ms: u64,
    why: StandbyReason,
    text: &str,
)
    requires
        call_ensures(Sentinel::snooze_from, (a, now, duration_ms), ()),
        call_ensures(Sentinel::resume, (b,), ()),
        call_ensures(Sentinel::set_standing_by, (c, why), ()),
        call_ensures(Sentinel::set_filtering, (d,), ()),
        call_ensures(Sentinel::set_attention, (e, text), ()),
    ensures
        now + duration_ms <= u64::MAX ==> final(a).guard() == GuardModel::Snoozed(
            (now + duration_ms) as u64,
        ),
        now + duration_ms > u64::MAX ==> final(a).guard() == GuardModel::Snoozed(u64::MAX),
        final(a).guard() == GuardModel::Snoozed(final(a).engine_until()),
        final(b).guard() is Filtering && final(b).engine_until() == 0,
        final(c).guard() == GuardModel::StandingBy(why),
        final(c).engine_until() == old(c).engine_until(),
        final(d).guard() is Filtering,
        final(d).engine_until() == old(d).engine_until(),
        final(e).guard() == GuardModel::Attention(text@),
        final(e).engine_until() == old(e).engine_until(),
{
}

/// A pause is over just from its moment on; nothing else ends by itself.
pub proof fn law_only_a_pause_ends_by_itself(s: &mut Sentinel, now: u64)
    requires
        call_ensures(Sentinel::expire_snooze, (s, now), ()),
    ensures
        old(s).guard() matches GuardModel::Snoozed(until) ==> (now < until ==> final(s).guard()
            == old(s).guard()) && (until <= now ==> final(s).guard() is Filtering),
        !(old(s).guard() is Snoozed) ==> final(s).guard() == old(s).guard(),
        final(s).engine_until() == old(s).engine_until(),
{
}

/// The words by which the API tells states and reasons apart.
pub proof fn law_states_have_names(s: &GuardState, r: (String, Option<String>), why: &StandbyReason, name: String)
    requires
        call_ensures(guard_state_api, (s,), r),
        call_ensures(standby_reason_to_string, (why,), name),
    ensures
        *s is Filtering ==> r.0@ == "filtering"@,
        *s is Snoozed ==> r.0@ == "snoozed"@,
        *s is StandingBy ==> r.0@ == "standing_by"@,
        *s is Attention ==> r.0@ == "attention"@,
        r.1 is Some <==> *s is StandingBy,
        *s == (GuardState::StandingBy { why: *why }) ==> (r.1 matches Some(t) && t@ == name@),
        *why == StandbyReason::Initialising ==> name@ == "initialising"@,
        *why == StandbyReason::AllUpstreamsDown ==> name@ == "all_upstreams_down"@,
        *why == StandbyReason::Portal ==> name@ == "portal"@,
        *why == StandbyReason::VpnActive ==> name@ == "vpn"@,
        *why == StandbyReason::UserDns ==> name@ == "user_dns"@,
{
}

/// A new sentinel filters, and what it shows is what it holds.
pub proof fn law_a_sentinel_shows_what_it_holds(
    fresh: Sentinel,
    s: &Sentinel,
    state: GuardState,
    until: u64,
    shown: (String, Option<String>),
    named: (String, Option<String>),
)
    requires
        call_ensures(Sentinel::new, (), fresh),
        call_ensures(Sentinel::current_state, (s,), state),
        call_ensures(Sentinel::engine_snooze_until, (s,), until),
        call_ensures(Sentinel::state_api, (s,), shown),
        call_ensures(guard_state_api, (&state,), named),
    ensures
        fresh.guard() is Filtering && fresh.engine_until() == 0,
        state@ == s.guard(),
        until == s.engine_until(),
        shown.0@ == named.0@,
        shown.1 is Some <==> named.1 is Some,
        shown.1 is Some ==> shown.1->0@ == named.1->0@,
{
}

/// A pause from now on lasts for its time from a reading of the clock; a state that is taken over
/// is held as it is.
pub proof fn law_states_are_taken_over(a: &mut Sentinel, duration_ms: u64, b: &mut Sentinel, state: GuardState)
    requires
        call_ensures(Sentinel::snooze, (a, duration_ms), ()),
        call_ensures(Sentinel::set_state, (b, state), ()),
    ensures
        final(a).guard() == GuardModel::Snoozed(final(a).engine_until()),
        exists|now: u64| #[trigger]
            is_wall_ms(now) && (final(a).engine_until() == now + duration_ms || (now + duration_ms
                > u64::MAX && final(a).engine_until() == u64::MAX)),
        final(b).guard() == state@,
        final(b).engine_until() == old(b).engine_until(),
{
}

}
