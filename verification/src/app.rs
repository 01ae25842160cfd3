//! How the daemon starts, and what of a failing start is fatal.
use vstd::prelude::*;
use vstd::string::*;
use crate::api::ApiStartError;
use crate::api::api_start_error_text;
use crate::dns::BoundAddrs;
use crate::config::{BlockAction, HushConfig};
use crate::inbound_tls::InboundTlsError;
use crate::inbound_tls::inbound_tls_error_text;
use crate::net::SocketAddr;
use crate::sentinel::breaker::BreakerOutcome;
use crate::sentinel::{GuardModel, Sentinel};
use crate::state_dir::StateDirError;
use crate::text::join;
use crate::text::{joined, texts};

verus! {

/// Errors of starting the daemon.
#[derive(Debug)]
pub enum StartError {
    /// The state directory could not be made.
    StateDir(StateDirError),
    /// An address could not be bound.
    Bind(String),
    /// The settings are invalid.
    Config(String),
    /// The way upstream could not be set up.
    Upstream(String),
    /// The API could not be started.
    Api(ApiStartError),
    /// Encrypted queries could not be accepted.
    InboundTls(InboundTlsError),
}

/// The message shown for an error.
pub open spec fn start_error_text(e: StartError) -> Seq<char> {
    match e {
        StartError::StateDir(StateDirError::Create { path, source }) =>
            "state directory error: "@ + ("failed to create state directory "@ + path@ + ": "@
                + source@),
        StartError::Bind(s) => "DNS bind error: "@ + s@,
        StartError::Config(s) => "invalid configuration: "@ + s@,
        StartError::Upstream(s) => "upstream init error: "@ + s@,
        StartError::Api(a) => "API start error: "@ + api_start_error_text(a),
        StartError::InboundTls(t) => "inbound TLS error: "@ + inbound_tls_error_text(t@),
    }
}

impl StartError {
    /// The message shown for the error.
    pub fn message(&self) -> (r: String)
        ensures
            r@ == start_error_text(*self),
    {
        match self {
            StartError::StateDir(e) => {
                let m = e.message();
                "state directory error: ".to_owned().concat(m.as_str())
            },
            StartError::Bind(s) => "DNS bind error: ".to_owned().concat(s.as_str()),
            StartError::Config(s) => "invalid configuration: ".to_owned().concat(s.as_str()),
            StartError::Upstream(s) => "upstream init error: ".to_owned().concat(s.as_str()),
            StartError::Api(e) => {
                let m = e.message();
                "API start error: ".to_owned().concat(m.as_str())
            },
            StartError::InboundTls(e) => {
                let m = e.message();
                "inbound TLS error: ".to_owned().concat(m.as_str())
            },
        }
    }
}

/// What the daemon is started with.
#[derive(Debug)]
pub struct AppConfig {
    /// The settings.
    pub config: HushConfig,
    /// The state directory, where one was told.
    pub state_dir_override: Option<String>,
}

/// The daemon does not start with settings that have problems.
pub fn check_config(problems: &Vec<String>) -> (r: Result<(), StartError>)
    ensures
        (match r {
            Ok(()) => problems@.len() == 0,
            Err(e) => problems@.len() > 0 && (e matches StartError::Config(s) && s@ == joined(
                texts(problems@),
                "; "@,
            )),
        }),
{
    if problems.len() == 0 {
        Ok(())
    } else {
        Err(StartError::Config(join(problems, "; ")))
    }
}

// ── The order of the start ──────────────────────────────────────────────────

/// A step of the start.
#[derive(Debug, Clone, Copy, PartialEq, Eq, Structural)]
pub enum StartStep {
    /// Make the state directory.
    StateDir,
    /// Load the active profile.
    Profile,
    /// Ask the crash-loop breaker.
    Breaker,
    /// Start the query log.
    Rollup,
    /// Set up the way upstream.
    Upstream,
    /// Load the rules.
    Lists,
    /// Listen for queries.
    DnsListeners,
    /// Learn host names.
    Mdns,
    /// Accept encrypted queries.
    InboundTls,
    /// Start the API.
    Api,
    /// Watch the network.
    Watcher,
    /// Listen for queries of the household.
    Guard,
    /// The daemon runs.
    Running,
}

/// Where a step stands in the order.
pub open spec fn rank(s: StartStep) -> int {
    match s {
        StartStep::StateDir => 0,
        StartStep::Profile => 1,
        StartStep::Breaker => 2,
        StartStep::Rollup => 3,
        StartStep::Upstream => 4,
        StartStep::Lists => 5,
        StartStep::DnsListeners => 6,
        StartStep::Mdns => 7,
        StartStep::InboundTls => 8,
        StartStep::Api => 9,
        StartStep::Watcher => 10,
        StartStep::Guard => 11,
        StartStep::Running => 12,
    }
}

/// What a step sets up is asked for in the settings.
pub open spec fn is_wanted(s: StartStep, cfg: HushConfig) -> bool {
    match s {
        StartStep::Mdns => cfg.network_guard.mdns_insight,
        StartStep::InboundTls => cfg.inbound_tls.enabled,
        StartStep::Guard => cfg.network_guard.enabled,
        _ => true,
    }
}

/// `r` is the step after another: the next one that sets up something that is wanted.  A
/// daemon that runs goes on running.
pub open spec fn is_next(step: StartStep, cfg: HushConfig, r: StartStep) -> bool {
    if step == StartStep::Running {
        r == StartStep::Running
    } else {
        &&& rank(r) > rank(step)
        &&& is_wanted(r, cfg)
        &&& forall|s: StartStep| rank(step) < #[trigger] rank(s) < rank(r) ==> !is_wanted(s, cfg)
    }
}

/// The step after another: the next one that sets up something that is wanted.
pub fn next_start_step(step: StartStep, cfg: &HushConfig) -> (r: StartStep)
    ensures
        is_next(step, *cfg, r),
{
    match step {
        StartStep::StateDir => StartStep::Profile,
        StartStep::Profile => StartStep::Breaker,
        StartStep::Breaker => StartStep::Rollup,
        StartStep::Rollup => StartStep::Upstream,
        StartStep::Upstream => StartStep::Lists,
        StartStep::Lists => StartStep::DnsListeners,
        StartStep::DnsListeners => if cfg.network_guard.mdns_insight {
            StartStep::Mdns
        } else if cfg.inbound_tls.enabled {
            StartStep::InboundTls
        } else {
            StartStep::Api
        },
        StartStep::Mdns => if cfg.inbound_tls.enabled {
            StartStep::InboundTls
        } else {
            StartStep::Api
        },
        StartStep::InboundTls => StartStep::Api,
        StartStep::Api => StartStep::Watcher,
        StartStep::Watcher => if cfg.network_guard.enabled {
            StartStep::Guard
        } else {
            StartStep::Running
        },
        StartStep::Guard => StartStep::Running,
        StartStep::Running => StartStep::Running,
    }
}

/// A step without which the daemon does not run.
pub open spec fn is_vital(s: StartStep) -> bool {
    match s {
        StartStep::StateDir => true,
        StartStep::Upstream => true,
        StartStep::DnsListeners => true,
        StartStep::InboundTls => true,
        StartStep::Api => true,
        _ => false,
    }
}

/// Whether the start ends where a step fails.  A household's listeners may come and go, and the
/// daemon runs without names of hosts, without a log and without rules.
pub fn failure_is_fatal(step: StartStep) -> (r: bool)
    ensures
        r == is_vital(step),
{
    match step {
        StartStep::StateDir => true,
        StartStep::Upstream => true,
        StartStep::DnsListeners => true,
        StartStep::InboundTls => true,
        StartStep::Api => true,
        _ => false,
    }
}

/// The start of the daemon, step by step.
#[derive(Debug)]
pub struct App {
    cfg: AppConfig,
    step: StartStep,
}

impl App {
    /// The step that has to be taken.
    pub closed spec fn at(&self) -> StartStep {
        self.step
    }

    /// What the daemon is started with.
    pub closed spec fn started_with(&self) -> AppConfig {
        self.cfg
    }

    /// A start, which begins with the state directory.  Settings that have problems are refused
    /// before any step is taken.
    pub fn start(cfg: AppConfig, problems: &Vec<String>) -> (r: Result<App, StartError>)
        ensures
            (match r {
                Ok(app) => problems@.len() == 0 && app.started_with() == cfg && app.at()
                    == StartStep::StateDir,
                Err(e) => problems@.len() > 0 && (e matches StartError::Config(s) && s@ == joined(
                    texts(problems@),
                    "; "@,
                )),
            }),
    {
        match check_config(problems) {
            Ok(()) => Ok(App { cfg, step: StartStep::StateDir }),
            Err(e) => Err(e),
        }
    }

    /// The settings that the daemon is started with.
    pub fn config(&self) -> (r: &HushConfig)
        ensures
            *r == self.started_with().config,
    {
        &self.cfg.config
    }

    /// The step that has to be taken.
    pub fn step(&self) -> (r: StartStep)
        ensures
            r == self.at(),
    {
        self.step
    }

    /// Goes on after a step was taken; says whether the start goes on.
    pub fn taken(&mut self, succeeded: bool) -> (r: bool)
        ensures
            r == (succeeded || !is_vital(old(self).at())),
            !r ==> final(self).at() == old(self).at(),
            r ==> is_next(old(self).at(), old(self).started_with().config, final(self).at()),
            final(self).started_with() == old(self).started_with(),
    {
        if !succeeded && failure_is_fatal(self.step) {
            return false;
        }
        self.step = next_start_step(self.step, &self.cfg.config);
        true
    }
}

/// The step at `i` comes after the one before it.
pub open spec fn follows(t: Seq<StartStep>, cfg: HushConfig, i: int) -> bool {
    is_next(t[i - 1], cfg, t[i])
}

/// The steps that a start has come to, in their order.
pub open spec fn is_start(t: Seq<StartStep>, cfg: HushConfig) -> bool {
    &&& t.len() > 0
    &&& t[0] == StartStep::StateDir
    &&& forall|i: int| 1 <= i < t.len() ==> #[trigger] follows(t, cfg, i)
}

/// No step is passed over that sets up something wanted: a start has come to every such step
/// up to the last one.  A daemon that runs has set up all that the settings ask for.
pub proof fn law_nothing_wanted_is_passed_over(t: Seq<StartStep>, cfg: HushConfig, s: StartStep)
    requires
        is_start(t, cfg),
        is_wanted(s, cfg),
        rank(s) <= rank(t.last()),
    ensures
        t.contains(s),
    decreases t.len(),
{
    let f = t.drop_last();
    if t.len() == 1 {
        assert(t[0] == s);
    } else {
        assert(follows(t, cfg, t.len() - 1));
        if rank(s) <= rank(f.last()) {
            assert forall|i: int| 1 <= i < f.len() implies #[trigger] follows(f, cfg, i) by {
                assert(follows(t, cfg, i));
            }
            law_nothing_wanted_is_passed_over(f, cfg, s);
            let k = choose|k: int| 0 <= k < f.len() && f[k] == s;
            assert(t[k] == s);
        } else {
            assert(t[t.len() - 1] == s);
        }
    }
}

/// The API is not started before queries are answered, and nothing listens before the
/// crash-loop breaker was asked.
pub proof fn law_order_of_the_start(t: Seq<StartStep>, cfg: HushConfig)
    requires
        is_start(t, cfg),
    ensures
        t.last() == StartStep::Api ==> t.contains(StartStep::DnsListeners),
        t.last() == StartStep::DnsListeners ==> t.contains(StartStep::Breaker),
        t.last() == StartStep::Running ==> forall|s: StartStep|
            is_wanted(s, cfg) ==> #[trigger] t.contains(s),
{
    if t.last() == StartStep::Api {
        law_nothing_wanted_is_passed_over(t, cfg, StartStep::DnsListeners);
    }
    if t.last() == StartStep::DnsListeners {
        law_nothing_wanted_is_passed_over(t, cfg, StartStep::Breaker);
    }
    if t.last() == StartStep::Running {
        assert forall|s: StartStep| is_wanted(s, cfg) implies #[trigger] t.contains(s) by {
            law_nothing_wanted_is_passed_over(t, cfg, s);
        }
    }
}

// ── What the parts are started with ─────────────────────────────────────────

/// What a listener answers with.
#[derive(Debug, Clone, Copy, PartialEq, Eq, Structural)]
pub struct HandlerPlan {
    pub block_action: BlockAction,
    pub block_ttl_secs: u32,
    pub log_clients: bool,
}

/// What a listener answers with.  Clients are logged for the household alone.
pub fn handler_plan(cfg: &HushConfig, for_household: bool) -> (r: HandlerPlan)
    ensures
        r == (HandlerPlan {
            block_action: cfg.block.action,
            block_ttl_secs: cfg.block.ttl_secs,
            log_clients: for_household && cfg.network_guard.log_clients,
        }),
{
    HandlerPlan {
        block_action: cfg.block.action,
        block_ttl_secs: cfg.block.ttl_secs,
        log_clients: for_household && cfg.network_guard.log_clients,
    }
}

/// After a crash loop the daemon runs disarmed, and asks for attention.
pub fn apply_breaker(outcome: &BreakerOutcome, sentinel: &mut Sentinel)
    ensures
        (match *outcome {
            BreakerOutcome::Nominal => *final(sentinel) == *old(sentinel),
            BreakerOutcome::Fired { reason } => final(sentinel).guard() == GuardModel::Attention(
                reason@,
            ) && final(sentinel).engine_until() == old(sentinel).engine_until(),
        }),
{
    match outcome {
        BreakerOutcome::Nominal => {},
        BreakerOutcome::Fired { reason } => sentinel.set_attention(reason.as_str()),
    }
}

/// The listener that a takeover tests: the first one for UDP.
pub fn takeover_listener(udp: &Vec<SocketAddr>, api_listen: SocketAddr) -> (r: SocketAddr)
    ensures
        r == if udp@.len() > 0 {
            udp@[0]
        } else {
            api_listen
        },
{
    if udp.len() > 0 {
        udp[0]
    } else {
        api_listen
    }
}

/// The addresses of a running daemon.
#[derive(Debug)]
pub struct RunningApp {
    bound: BoundAddrs,
    api_addr: SocketAddr,
}

impl RunningApp {
    /// The addresses for UDP.
    pub closed spec fn udp(&self) -> Seq<SocketAddr> {
        self.bound.udp@
    }

    /// The addresses for TCP.
    pub closed spec fn tcp(&self) -> Seq<SocketAddr> {
        self.bound.tcp@
    }

    /// The address of the API.
    pub closed spec fn api(&self) -> SocketAddr {
        self.api_addr
    }

    /// A daemon that listens on these addresses.
    pub fn new(bound: BoundAddrs, api_addr: SocketAddr) -> (r: RunningApp)
        ensures
            r.udp() == bound.udp@,
            r.tcp() == bound.tcp@,
            r.api() == api_addr,
    {
        RunningApp { bound, api_addr }
    }

    /// The addresses for UDP.
    pub fn udp_addrs(&self) -> (r: &Vec<SocketAddr>)
        ensures
            r@ == self.udp(),
    {
        &self.bound.udp
    }

    /// The addresses for TCP.
    pub fn tcp_addrs(&self) -> (r: &Vec<SocketAddr>)
        ensures
            r@ == self.tcp(),
    {
        &self.bound.tcp
    }

    /// The first address for UDP.
    pub fn udp_addr(&self) -> (r: Option<SocketAddr>)
        ensures
            r == if self.udp().len() > 0 {
                Some(self.udp()[0])
            } else {
                None
            },
    {
        if self.bound.udp.len() > 0 {
            Some(self.bound.udp[0])
        } else {
            None
        }
    }

    /// The address of the API.
    pub fn api_addr(&self) -> (r: SocketAddr)
        ensures
            r == self.api(),
    {
        self.api_addr
    }
}

/// The daemon starts just with settings that have no problems; the refusal names all problems.
pub proof fn law_settings_with_problems_are_refused(
    cfg: AppConfig,
    problems: &Vec<String>,
    c: Result<(), StartError>,
    r: Result<App, StartError>,
    i: int,
)
    requires
        call_ensures(check_config, (problems,), c),
        call_ensures(App::start, (cfg, problems), r),
    ensures
        c is Ok <==> problems@.len() == 0,
        r is Ok <==> problems@.len() == 0,
        r matches Ok(app) ==> app.at() == StartStep::StateDir && app.started_with() == cfg,
        0 <= i < problems@.len() ==> (c matches Err(StartError::Config(s)) && crate::text::has_infix(
            s@,
            problems@[i]@,
        )),
        0 <= i < problems@.len() ==> (r matches Err(StartError::Config(s)) && crate::text::has_infix(
            s@,
            problems@[i]@,
        )),
{
    if 0 <= i < problems@.len() {
        let t = texts(problems@);
        assert(t.len() == problems@.len());
        assert(t[i] == problems@[i]@);
        crate::text::lemma_parts_stand_in_joined(t, "; "@, i);
    }
}

/// The order of the start, step by step.
pub proof fn law_the_steps_of_the_start(step: StartStep, cfg: &HushConfig, r: StartStep)
    requires
        call_ensures(next_start_step, (step, cfg), r),
    ensures
        step == StartStep::StateDir ==> r == StartStep::Profile,
        step == StartStep::Profile ==> r == StartStep::Breaker,
        step == StartStep::Breaker ==> r == StartStep::Rollup,
        step == StartStep::Rollup ==> r == StartStep::Upstream,
        step == StartStep::Upstream ==> r == StartStep::Lists,
        step == StartStep::Lists ==> r == StartStep::DnsListeners,
        step == StartStep::DnsListeners ==> r == if cfg.network_guard.mdns_insight {
            StartStep::Mdns
        } else if cfg.inbound_tls.enabled {
            StartStep::InboundTls
        } else {
            StartStep::Api
        },
        step == StartStep::Mdns ==> r == if cfg.inbound_tls.enabled {
            StartStep::InboundTls
        } else {
            StartStep::Api
        },
        step == StartStep::InboundTls ==> r == StartStep::Api,
        step == StartStep::Api ==> r == StartStep::Watcher,
        step == StartStep::Watcher ==> r == if cfg.network_guard.enabled {
            StartStep::Guard
        } else {
            StartStep::Running
        },
        step == StartStep::Guard || step == StartStep::Running ==> r == StartStep::Running,
{
    assert(rank(StartStep::Profile) == 1 && rank(StartStep::Breaker) == 2 && rank(StartStep::Rollup) == 3
        && rank(StartStep::Upstream) == 4 && rank(StartStep::Lists) == 5 && rank(StartStep::DnsListeners)
        == 6 && rank(StartStep::Mdns) == 7 && rank(StartStep::InboundTls) == 8 && rank(StartStep::Api) == 9
        && rank(StartStep::Watcher) == 10 && rank(StartStep::Guard) == 11 && rank(StartStep::Running) == 12);
}

/// What the daemon cannot run without: its state directory, a way upstream, its listeners, the
/// encrypted ones where they are wanted, and the API.  The start ends just where one of these
/// fails, and otherwise goes on.
pub proof fn law_what_ends_a_start(step: StartStep, fatal: bool, app: &mut App, succeeded: bool, goes_on: bool)
    requires
        call_ensures(failure_is_fatal, (step,), fatal),
        call_ensures(App::taken, (app, succeeded), goes_on),
        old(app).at() == step,
    ensures
        fatal <==> step == StartStep::StateDir || step == StartStep::Upstream || step
            == StartStep::DnsListeners || step == StartStep::InboundTls || step == StartStep::Api,
        goes_on <==> succeeded || !fatal,
        !goes_on ==> final(app).at() == step,
        goes_on && step != StartStep::Running ==> final(app).at() != step,
        final(app).started_with() == old(app).started_with(),
{
}

/// Clients are logged for the household alone, and only where that is asked for; how queries are
/// blocked is the same for everyone.
pub proof fn law_what_listeners_answer_with(cfg: &HushConfig, own: HandlerPlan, household: HandlerPlan)
    requires
        call_ensures(handler_plan, (cfg, false), own),
        call_ensures(handler_plan, (cfg, true), household),
    ensures
        !own.log_clients,
        household.log_clients == cfg.network_guard.log_clients,
        own.block_action == cfg.block.action && household.block_action == cfg.block.action,
        own.block_ttl_secs == cfg.block.ttl_secs && household.block_ttl_secs == cfg.block.ttl_secs,
{
}

/// The breaker touches the sentinel only where it fired: then attention is asked for, with its
/// reason.
pub proof fn law_a_fired_breaker_asks_for_attention(outcome: &BreakerOutcome, s: &mut Sentinel)
    requires
        call_ensures(apply_breaker, (outcome, s), ()),
    ensures
        *outcome is Nominal ==> final(s).guard() == old(s).guard(),
        *outcome matches BreakerOutcome::Fired { reason } ==> final(s).guard() == GuardModel::Attention(
            reason@,
        ),
        final(s).engine_until() == old(s).engine_until(),
{
}

/// A takeover tests the first listener for UDP; a daemon shows the addresses that it was given.
pub proof fn law_addresses_are_shown_as_given(
    udp: &Vec<SocketAddr>,
    api: SocketAddr,
    listener: SocketAddr,
    bound: BoundAddrs,
    app: RunningApp,
    first: Option<SocketAddr>,
    shown: SocketAddr,
    u: &Vec<SocketAddr>,
    t: &Vec<SocketAddr>,
)
    requires
        call_ensures(takeover_listener, (udp, api), listener),
        call_ensures(RunningApp::new, (bound, api), app),
        call_ensures(RunningApp::udp_addr, (&app,), first),
        call_ensures(RunningApp::api_addr, (&app,), shown),
        call_ensures(RunningApp::udp_addrs, (&app,), u),
        call_ensures(RunningApp::tcp_addrs, (&app,), t),
    ensures
        udp@.len() > 0 ==> listener == udp@.first(),
        udp@.len() == 0 ==> listener == api,
        first is Some <==> bound.udp@.len() > 0,
        first is Some ==> first->0 == bound.udp@.first(),
        shown == api,
        u@ == bound.udp@,
        t@ == bound.tcp@,
{
}

}
