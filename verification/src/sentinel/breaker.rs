//! Crash-loop breaker.
//!
//! A breadcrumb records whether the previous run ended cleanly and when abnormal
//! restarts happened.  Where too many of them fall into one window, DNS is restored and
//! the daemon runs disarmed until it is re-armed or stopped cleanly.
use vstd::prelude::*;
use vstd::string::*;
use crate::state_dir::join_path;
use crate::state_dir::joined_path;
use crate::text::decimal_of;
use crate::text::decimal;

verus! {

/// The breadcrumb.
#[derive(Debug, PartialEq, Eq)]
pub struct RunState {
    /// Whether the last shutdown was clean.
    pub clean_shutdown: bool,
    /// When abnormal restarts were observed, in milliseconds since the Unix epoch.
    pub abnormal_restarts: Vec<u64>,
    /// When the breaker fired, while it is still tripped.
    pub tripped_unix_ms: Option<u64>,
}

/// What a [`RunState`] says.
pub struct RunModel {
    pub clean_shutdown: bool,
    pub abnormal_restarts: Seq<u64>,
    pub tripped_unix_ms: Option<u64>,
}

impl View for RunState {
    type V = RunModel;

    open spec fn view(&self) -> RunModel {
        RunModel {
            clean_shutdown: self.clean_shutdown,
            abnormal_restarts: self.abnormal_restarts@,
            tripped_unix_ms: self.tripped_unix_ms,
        }
    }
}

impl RunModel {
    /// The breadcrumb of a machine that never ran the daemon.
    pub open spec fn fresh() -> RunModel {
        RunModel {
            clean_shutdown: true,
            abnormal_restarts: Seq::<u64>::empty(),
            tripped_unix_ms: None,
        }
    }

    /// This breadcrumb with the run marked as not cleanly ended.
    pub open spec fn dirty(self) -> RunModel {
        RunModel { clean_shutdown: false, ..self }
    }

    /// This breadcrumb without a trip and without a history.
    pub open spec fn rearmed(self) -> RunModel {
        RunModel { abnormal_restarts: Seq::<u64>::empty(), tripped_unix_ms: None, ..self }
    }

    /// This breadcrumb after a clean shutdown.
    pub open spec fn clean(self) -> RunModel {
        RunModel { clean_shutdown: true, ..self.rearmed() }
    }
}

impl Default for RunState {
    fn default() -> (r: RunState)
        ensures
            r@ == RunModel::fresh(),
    {
        RunState { clean_shutdown: true, abnormal_restarts: Vec::new(), tripped_unix_ms: None }
    }
}

/// Outcome of [`check_breaker`].
#[derive(Debug, PartialEq, Eq)]
pub enum BreakerOutcome {
    /// Proceed normally.
    Nominal,
    /// The breaker is tripped: run disarmed.
    Fired { reason: String },
}

/// What a [`BreakerOutcome`] says.
pub enum OutcomeModel {
    Nominal,
    Fired(Seq<char>),
}

impl View for BreakerOutcome {
    type V = OutcomeModel;

    open spec fn view(&self) -> OutcomeModel {
        match self {
            BreakerOutcome::Nominal => OutcomeModel::Nominal,
            BreakerOutcome::Fired { reason } => OutcomeModel::Fired(reason@),
        }
    }
}

/// Configuration of the breaker.
#[derive(Debug, Clone, Copy, PartialEq, Eq, Structural)]
pub struct BreakerConfig {
    /// How many abnormal restarts within the window trip the breaker.
    pub threshold: u32,
    /// The window's length in seconds.
    pub window_secs: u64,
}

impl Default for BreakerConfig {
    fn default() -> (r: BreakerConfig)
        ensures
            r == (BreakerConfig { threshold: 3, window_secs: 300 }),
    {
        BreakerConfig { threshold: 3, window_secs: 300 }
    }
}

impl BreakerConfig {
    /// The window in milliseconds can be counted.
    pub open spec fn wf(self) -> bool {
        self.window_secs * 1000 <= u64::MAX
    }
}

/// Errors of the breadcrumb file.
#[derive(Debug)]
pub enum BreakerError {
    /// It could not be read.
    Read(String),
    /// It could not be written.
    Write(String),
    /// It holds no valid breadcrumb.
    Parse(String),
}

/// What became of reading the breadcrumb file.
#[derive(Debug)]
pub enum RunStateFile {
    /// There is no such file.
    Missing,
    /// It could not be read; the error's text.
    Unreadable(String),
    /// It was read, and holds no valid breadcrumb; the error's text.
    Invalid(String),
    /// The breadcrumb it holds.
    Loaded(RunState),
}

/// The breadcrumb to go by: the one in the file, or that of a first run where there is no
/// file.
pub fn load_run_state(file: RunStateFile) -> (r: Result<RunState, BreakerError>)
    ensures
        (match file {
            RunStateFile::Missing => r matches Ok(s) && s@ == RunModel::fresh(),
            RunStateFile::Unreadable(e) => r matches Err(BreakerError::Read(m)) && m@ == e@,
            RunStateFile::Invalid(e) => r matches Err(BreakerError::Parse(m)) && m@ == e@,
            RunStateFile::Loaded(s) => r matches Ok(t) && t@ == s@,
        }),
{
    match file {
        RunStateFile::Missing => Ok(RunState::default()),
        RunStateFile::Unreadable(e) => Err(BreakerError::Read(e)),
        RunStateFile::Invalid(e) => Err(BreakerError::Parse(e)),
        RunStateFile::Loaded(s) => Ok(s),
    }
}

/// What was loaded, or a first run's breadcrumb where nothing could be loaded.
pub open spec fn loaded_or_fresh(loaded: Result<RunState, BreakerError>) -> RunModel {
    match loaded {
        Ok(s) => s@,
        Err(_) => RunModel::fresh(),
    }
}

/// The breadcrumb to write at boot: the run counts as not cleanly ended until it is.
pub fn mark_dirty(loaded: Result<RunState, BreakerError>) -> (r: RunState)
    ensures
        r@ == loaded_or_fresh(loaded).dirty(),
{
    let mut s = match loaded {
        Ok(s) => s,
        Err(_) => RunState::default(),
    };
    s.clean_shutdown = false;
    s
}

/// The breadcrumb to write at a clean shutdown: the next boot starts afresh.
pub fn mark_clean(loaded: Result<RunState, BreakerError>) -> (r: RunState)
    ensures
        r@ == loaded_or_fresh(loaded).clean(),
{
    let mut s = match loaded {
        Ok(s) => s,
        Err(_) => RunState::default(),
    };
    s.clean_shutdown = true;
    s.tripped_unix_ms = None;
    s.abnormal_restarts = Vec::new();
    s
}

/// The breadcrumb to write on an explicit re-arm: the trip is over.
pub fn clear_trip(loaded: Result<RunState, BreakerError>) -> (r: RunState)
    ensures
        r@ == loaded_or_fresh(loaded).rearmed(),
{
    let mut s = match loaded {
        Ok(s) => s,
        Err(_) => RunState::default(),
    };
    s.tripped_unix_ms = None;
    s.abnormal_restarts = Vec::new();
    s
}

/// Where the breadcrumb is kept.
pub fn run_state_path(state_dir: &str) -> (r: String)
    ensures
        r@ == joined_path(state_dir@, "run-state.json"@),
{
    join_path(state_dir, "run-state.json")
}

// ── The breaker ─────────────────────────────────────────────────────────────

/// `a - b`, or zero.
pub open spec fn minus(a: int, b: int) -> int {
    if a >= b {
        a - b
    } else {
        0
    }
}

/// The first moment that counts as within the window.
pub open spec fn window_start(now: u64, window_secs: u64) -> int {
    minus(now as int, window_secs * 1000)
}

/// The timestamps not before `start`, in order.
pub open spec fn not_before(ts: Seq<u64>, start: int) -> Seq<u64>
    decreases ts.len(),
{
    if ts.len() == 0 {
        Seq::<u64>::empty()
    } else if ts.last() >= start {
        not_before(ts.drop_last(), start).push(ts.last())
    } else {
        not_before(ts.drop_last(), start)
    }
}

/// `s` with only those abnormal restarts that fall into the window which ends at `now`.
pub open spec fn pruned(s: RunModel, now: u64, cfg: BreakerConfig) -> RunModel {
    RunModel {
        abnormal_restarts: not_before(s.abnormal_restarts, window_start(now, cfg.window_secs)),
        ..s
    }
}

/// The abnormal restarts within the window once this one is counted.
pub open spec fn counted_restarts(s: RunModel, now: u64, cfg: BreakerConfig) -> Seq<u64> {
    not_before(s.abnormal_restarts.push(now), window_start(now, cfg.window_secs))
}

/// The number that is held against the threshold.
pub open spec fn restart_count(s: RunModel, now: u64, cfg: BreakerConfig) -> u32 {
    counted_restarts(s, now, cfg).len() as u32
}

/// What a boot has to do: the breadcrumb to write, whether DNS has to be restored first,
/// and how the daemon runs.
pub struct CheckModel {
    pub state: RunModel,
    pub restore: bool,
    pub outcome: OutcomeModel,
}

/// A boot that goes on normally with this breadcrumb.
pub open spec fn nominal(state: RunModel) -> CheckModel {
    CheckModel { state, restore: false, outcome: OutcomeModel::Nominal }
}

/// Why the breaker fired.
pub open spec fn fire_reason(count: u32, cfg: BreakerConfig) -> Seq<char> {
    decimal(count as nat) + " abnormal restarts within "@ + decimal(cfg.window_secs as nat)
        + " seconds"@
}

/// What a boot at `now` has to do, given the breadcrumb of the previous run and whether a
/// DNS snapshot exists, that is, whether DNS pointed at the daemon when it ended.
///
/// While a trip is set, every boot runs disarmed.
pub open spec fn breaker_check(
    s: RunModel,
    cfg: BreakerConfig,
    now: u64,
    snapshot_exists: bool,
) -> CheckModel {
    if s.tripped_unix_ms is Some {
        CheckModel {
            state: pruned(s, now, cfg).dirty(),
            restore: false,
            outcome: OutcomeModel::Fired("crash-loop breaker tripped (recovering)"@),
        }
    } else if s.clean_shutdown {
        nominal(s.rearmed().dirty())
    } else if !snapshot_exists {
        nominal(pruned(s, now, cfg).dirty())
    } else if restart_count(s, now, cfg) >= cfg.threshold {
        CheckModel {
            state: RunModel {
                clean_shutdown: false,
                abnormal_restarts: Seq::<u64>::empty(),
                tripped_unix_ms: Some(now),
            },
            restore: true,
            outcome: OutcomeModel::Fired(fire_reason(restart_count(s, now, cfg), cfg)),
        }
    } else {
        nominal(
            RunModel {
                clean_shutdown: false,
                abnormal_restarts: counted_restarts(s, now, cfg),
                tripped_unix_ms: None,
            },
        )
    }
}

/// What a boot has to do: first restore DNS from the snapshot where `restore` says so, then
/// write `state`.  A restore that fails changes neither.
#[derive(Debug)]
pub struct BreakerCheck {
    pub state: RunState,
    pub restore: bool,
    pub outcome: BreakerOutcome,
}

impl View for BreakerCheck {
    type V = CheckModel;

    open spec fn view(&self) -> CheckModel {
        CheckModel { state: self.state@, restore: self.restore, outcome: self.outcome@ }
    }
}

/// The timestamps not before `start`, in order.
fn keep_not_before(ts: &Vec<u64>, start: u64) -> (r: Vec<u64>)
    ensures
        r@ == not_before(ts@, start as int),
{
    let mut r: Vec<u64> = Vec::new();
    let mut i: usize = 0;
    while i < ts.len()
        invariant
            0 <= i <= ts.len(),
            r@ == not_before(ts@.take(i as int), start as int),
        decreases ts.len() - i,
    {
        proof {
            assert(ts@.take(i + 1).drop_last() =~= ts@.take(i as int));
            assert(ts@.take(i + 1).last() == ts@[i as int]);
        }
        if ts[i] >= start {
            r.push(ts[i]);
        }
        i += 1;
    }
    proof {
        assert(ts@.take(i as int) =~= ts@);
    }
    r
}

/// Checks for a crash loop at boot.
pub fn check_breaker(
    state: RunState,
    cfg: &BreakerConfig,
    now_unix_ms: u64,
    snapshot_exists: bool,
) -> (r: BreakerCheck)
    requires
        cfg.wf(),
    ensures
        r@ == breaker_check(state@, *cfg, now_unix_ms, snapshot_exists),
{
    let mut state = state;
    let window_ms: u64 = cfg.window_secs * 1000;
    let start: u64 = now_unix_ms.saturating_sub(window_ms);
    if state.tripped_unix_ms.is_some() {
        state.abnormal_restarts = keep_not_before(&state.abnormal_restarts, start);
        state.clean_shutdown = false;
        return BreakerCheck {
            state,
            restore: false,
            outcome: BreakerOutcome::Fired {
                reason: "crash-loop breaker tripped (recovering)".to_owned(),
            },
        };
    }
    if state.clean_shutdown {
        state.abnormal_restarts = Vec::new();
        state.clean_shutdown = false;
        return BreakerCheck { state, restore: false, outcome: BreakerOutcome::Nominal };
    }
    if !snapshot_exists {
        state.abnormal_restarts = keep_not_before(&state.abnormal_restarts, start);
        return BreakerCheck { state, restore: false, outcome: BreakerOutcome::Nominal };
    }
    state.abnormal_restarts.push(now_unix_ms);
    state.abnormal_restarts = keep_not_before(&state.abnormal_restarts, start);
    let n: usize = state.abnormal_restarts.len();
    #[verifier::truncate]
    let count: u32 = n as u32;
    if count >= cfg.threshold {
        let mut reason = decimal_of(count as u64);
        reason.append(" abnormal restarts within ");
        let secs = decimal_of(cfg.window_secs);
        reason.append(secs.as_str());
        reason.append(" seconds");
        return BreakerCheck {
            state: RunState {
                clean_shutdown: false,
                abnormal_restarts: Vec::new(),
                tripped_unix_ms: Some(now_unix_ms),
            },
            restore: true,
            outcome: BreakerOutcome::Fired { reason },
        };
    }
    BreakerCheck { state, restore: false, outcome: BreakerOutcome::Nominal }
}

/// How many of the timestamps fall into the window that ends at `now_unix_ms`.
pub fn count_in_window(timestamps: &[u64], now_unix_ms: u64, window_secs: u64) -> (r: usize)
    requires
        window_secs * 1000 <= u64::MAX,
    ensures
        r == not_before(timestamps@, window_start(now_unix_ms, window_secs)).len(),
{
    let start: u64 = now_unix_ms.saturating_sub(window_secs * 1000);
    let mut n: usize = 0;
    let mut i: usize = 0;
    while i < timestamps.len()
        invariant
            0 <= i <= timestamps.len(),
            n <= i,
            n == not_before(timestamps@.take(i as int), start as int).len(),
        decreases timestamps.len() - i,
    {
        proof {
            assert(timestamps@.take(i + 1).drop_last() =~= timestamps@.take(i as int));
            assert(timestamps@.take(i + 1).last() == timestamps@[i as int]);
        }
        if timestamps[i] >= start {
            n += 1;
        }
        i += 1;
    }
    proof {
        assert(timestamps@.take(i as int) =~= timestamps@);
    }
    n
}

// ── Laws ────────────────────────────────────────────────────────────────────

/// A trip is durable: while it is set, every boot stays disarmed, restores nothing again and
/// keeps the trip, however long ago it was, whether or not a snapshot exists and however the
/// run before ended.
pub proof fn law_trip_is_durable(s: RunModel, cfg: BreakerConfig, now: u64, snapshot_exists: bool)
    requires
        s.tripped_unix_ms is Some,
    ensures
        breaker_check(s, cfg, now, snapshot_exists).outcome is Fired,
        !breaker_check(s, cfg, now, snapshot_exists).restore,
        breaker_check(s, cfg, now, snapshot_exists).state.tripped_unix_ms == s.tripped_unix_ms,
{
}

/// The boot that fires the breaker restores DNS, and the boot after it does not do so again:
/// it stays disarmed.
pub proof fn law_fire_restores_once(
    s: RunModel,
    cfg: BreakerConfig,
    now: u64,
    snapshot_exists: bool,
    later: u64,
    later_snapshot: bool,
)
    requires
        breaker_check(s, cfg, now, snapshot_exists).restore,
    ensures
        breaker_check(s, cfg, now, snapshot_exists).outcome is Fired,
        ({
            let next = breaker_check(
                breaker_check(s, cfg, now, snapshot_exists).state,
                cfg,
                later,
                later_snapshot,
            );
            next.outcome is Fired && !next.restore
        }),
{
}

/// After a clean shutdown the next boot is normal: nothing is restored, nothing is
/// remembered.
pub proof fn law_clean_shutdown_resets(s: RunModel, cfg: BreakerConfig, now: u64, snapshot_exists: bool)
    ensures
        breaker_check(s.clean(), cfg, now, snapshot_exists) == nominal(RunModel::fresh().dirty()),
{
}

/// After an explicit re-arm the next boot is normal, unless a single restart is enough to
/// trip the breaker.
pub proof fn law_rearm_clears_the_trip(s: RunModel, cfg: BreakerConfig, now: u64, snapshot_exists: bool)
    requires
        cfg.threshold >= 2,
    ensures
        breaker_check(s.rearmed(), cfg, now, snapshot_exists).outcome is Nominal,
        !breaker_check(s.rearmed(), cfg, now, snapshot_exists).restore,
{
    let one = Seq::<u64>::empty().push(now);
    assert(one.drop_last() =~= Seq::<u64>::empty());
    reveal_with_fuel(not_before, 2);
    assert(counted_restarts(s.rearmed(), now, cfg).len() <= 1);
}

/// The breaker acts on DNS only where the previous run ended abnormally, DNS pointed at the
/// daemon, and at least `threshold` abnormal restarts fall into the window.
pub proof fn law_restores_only_in_a_crash_loop(
    s: RunModel,
    cfg: BreakerConfig,
    now: u64,
    snapshot_exists: bool,
)
    requires
        breaker_check(s, cfg, now, snapshot_exists).restore,
    ensures
        s.tripped_unix_ms is None,
        !s.clean_shutdown,
        snapshot_exists,
        restart_count(s, now, cfg) >= cfg.threshold,
{
}

proof fn lemma_not_before(ts: Seq<u64>, start: int, i: int)
    requires
        0 <= i < not_before(ts, start).len(),
    ensures
        not_before(ts, start)[i] >= start,
    decreases ts.len(),
{
    if ts.len() > 0 && i < not_before(ts.drop_last(), start).len() {
        lemma_not_before(ts.drop_last(), start, i);
    }
}

/// Whatever a boot writes holds no abnormal restart from before the window.
pub proof fn law_old_restarts_are_pruned(
    s: RunModel,
    cfg: BreakerConfig,
    now: u64,
    snapshot_exists: bool,
    i: int,
)
    requires
        0 <= i < breaker_check(s, cfg, now, snapshot_exists).state.abnormal_restarts.len(),
    ensures
        breaker_check(s, cfg, now, snapshot_exists).state.abnormal_restarts[i] >= window_start(
            now,
            cfg.window_secs,
        ),
{
    let start = window_start(now, cfg.window_secs);
    if i < not_before(s.abnormal_restarts, start).len() {
        lemma_not_before(s.abnormal_restarts, start, i);
    }
    if i < counted_restarts(s, now, cfg).len() {
        lemma_not_before(s.abnormal_restarts.push(now), start, i);
    }
}

/// A boot that is checked leaves the run marked as not cleanly ended, so that a crash is
/// noticed.
pub proof fn law_every_boot_is_dirty(s: RunModel, cfg: BreakerConfig, now: u64, snapshot_exists: bool)
    ensures
        !breaker_check(s, cfg, now, snapshot_exists).state.clean_shutdown,
{
}

/// The restarts not older than the window, at the moment `now`.
pub open spec fn recent(ts: Seq<u64>, now: u64, window_secs: u64) -> Seq<u64> {
    ts.filter(|t: u64| now - t <= window_secs * 1000)
}

proof fn lemma_recent(ts: Seq<u64>, now: u64, window_secs: u64)
    ensures
        not_before(ts, window_start(now, window_secs)) == recent(ts, now, window_secs),
    decreases ts.len(),
{
    reveal(Seq::filter);
    if ts.len() > 0 {
        lemma_recent(ts.drop_last(), now, window_secs);
    } else {
        assert(recent(ts, now, window_secs) =~= Seq::<u64>::empty());
    }
}

/// What a boot does, for every breadcrumb.  DNS is restored just where no trip is set, the run
/// before ended abnormally with DNS pointing at the daemon, and this restart makes enough of
/// them within the window; the breaker stays tripped until it is cleared; and what is remembered
/// are the restarts within the window.
pub proof fn law_what_a_boot_does(
    state: RunState,
    cfg: BreakerConfig,
    now: u64,
    snapshot_exists: bool,
    r: BreakerCheck,
)
    requires
        cfg.window_secs * 1000 <= u64::MAX,
        state.abnormal_restarts@.len() < u32::MAX,
        call_ensures(check_breaker, (state, &cfg, now, snapshot_exists), r),
    ensures
        ({
            let before = recent(state.abnormal_restarts@, now, cfg.window_secs);
            let tripped = state.tripped_unix_ms is Some;
            let crashed = !tripped && !state.clean_shutdown && snapshot_exists;
            &&& r.restore <==> crashed && before.len() + 1 >= cfg.threshold
            &&& r.outcome is Fired <==> tripped || r.restore
            &&& r.restore ==> (r.outcome matches BreakerOutcome::Fired { reason } && reason@ == decimal(
                before.len() + 1,
            ) + " abnormal restarts within "@ + decimal(cfg.window_secs as nat) + " seconds"@)
            &&& r.state.tripped_unix_ms == if r.restore {
                Some(now)
            } else {
                state.tripped_unix_ms
            }
            &&& r.state.abnormal_restarts@ == if r.restore || (!tripped && state.clean_shutdown) {
                Seq::<u64>::empty()
            } else if crashed {
                before.push(now)
            } else {
                before
            }
            &&& !r.state.clean_shutdown
        }),
{
    let ts = state.abnormal_restarts@;
    lemma_recent(ts, now, cfg.window_secs);
    lemma_recent(ts.push(now), now, cfg.window_secs);
    let before = recent(ts, now, cfg.window_secs);
    reveal(Seq::filter);
    assert(ts.push(now).drop_last() =~= ts);
    assert(recent(ts.push(now), now, cfg.window_secs) == before.push(now));
    lemma_not_more(ts, window_start(now, cfg.window_secs));
    assert(r.state@ == breaker_check(state@, cfg, now, snapshot_exists).state);
    assert(r.outcome@ == breaker_check(state@, cfg, now, snapshot_exists).outcome);
    match r.outcome {
        BreakerOutcome::Fired { reason } => assert(r.outcome@ == OutcomeModel::Fired(reason@)),
        BreakerOutcome::Nominal => {},
    }
}

proof fn lemma_not_more(ts: Seq<u64>, start: int)
    ensures
        not_before(ts, start).len() <= ts.len(),
    decreases ts.len(),
{
    if ts.len() > 0 {
        lemma_not_more(ts.drop_last(), start);
    }
}

/// A moment counts just where it is not older than the window; the moment itself always does.
pub proof fn law_the_window_is_counted(ts: &[u64], now: u64, window_secs: u64, r: usize)
    requires
        window_secs * 1000 <= u64::MAX,
        call_ensures(count_in_window, (ts, now, window_secs), r),
    ensures
        r == ts@.filter(|t: u64| now - t <= window_secs * 1000).len(),
{
    lemma_recent(ts@, now, window_secs);
}

/// A breadcrumb that was read is gone by as it is, and a machine without one starts clean; one
/// that cannot be read or holds nothing valid is an error of its own kind.
pub proof fn law_breadcrumbs_are_gone_by(file: RunStateFile, r: Result<RunState, BreakerError>)
    requires
        call_ensures(load_run_state, (file,), r),
    ensures
        file is Missing ==> (r matches Ok(s) && s.clean_shutdown && s.abnormal_restarts@.len() == 0
            && s.tripped_unix_ms is None),
        file matches RunStateFile::Loaded(f) ==> (r matches Ok(s) && s.clean_shutdown == f.clean_shutdown
            && s.abnormal_restarts@ == f.abnormal_restarts@ && s.tripped_unix_ms == f.tripped_unix_ms),
        file matches RunStateFile::Unreadable(e) ==> (r matches Err(BreakerError::Read(m)) && m@ == e@),
        file matches RunStateFile::Invalid(e) ==> (r matches Err(BreakerError::Parse(m)) && m@ == e@),
{
}

/// What is written of a breadcrumb: a boot marks it dirty and changes nothing else; a clean end
/// and a re-arm forget the trip and the restarts, and only the clean end marks it clean.
pub proof fn law_what_is_written_of_a_breadcrumb(
    loaded: RunState,
    dirty: RunState,
    clean: RunState,
    rearmed: RunState,
)
    requires
        call_ensures(mark_dirty, (Ok::<RunState, BreakerError>(loaded),), dirty),
        call_ensures(mark_clean, (Ok::<RunState, BreakerError>(loaded),), clean),
        call_ensures(clear_trip, (Ok::<RunState, BreakerError>(loaded),), rearmed),
    ensures
        !dirty.clean_shutdown && dirty.abnormal_restarts@ == loaded.abnormal_restarts@
            && dirty.tripped_unix_ms == loaded.tripped_unix_ms,
        clean.clean_shutdown && clean.abnormal_restarts@.len() == 0 && clean.tripped_unix_ms is None,
        rearmed.clean_shutdown == loaded.clean_shutdown && rearmed.abnormal_restarts@.len() == 0
            && rearmed.tripped_unix_ms is None,
{
}

/// Without a breadcrumb to go by, what is written starts from a clean one.
pub proof fn law_a_lost_breadcrumb_is_a_clean_one(
    e: BreakerError,
    dirty: RunState,
    clean: RunState,
    rearmed: RunState,
)
    requires
        call_ensures(mark_dirty, (Err::<RunState, BreakerError>(e),), dirty),
        call_ensures(mark_clean, (Err::<RunState, BreakerError>(e),), clean),
        call_ensures(clear_trip, (Err::<RunState, BreakerError>(e),), rearmed),
    ensures
        !dirty.clean_shutdown && dirty.abnormal_restarts@.len() == 0 && dirty.tripped_unix_ms is None,
        clean.clean_shutdown && clean.abnormal_restarts@.len() == 0 && clean.tripped_unix_ms is None,
        rearmed.clean_shutdown && rearmed.abnormal_restarts@.len() == 0
            && rearmed.tripped_unix_ms is None,
{
}

/// The breadcrumb is a file of the state directory.
pub proof fn law_where_the_breadcrumb_is(dir: &str, r: String)
    requires
        call_ensures(run_state_path, (dir,), r),
    ensures
        r@ == joined_path(dir@, "run-state.json"@),
{
}

/// A breadcrumb at first is a clean one, and three crashes in five minutes fire the breaker at
/// first.
pub proof fn law_what_the_breaker_starts_from(r: RunState, c: BreakerConfig)
    requires
        call_ensures(RunState::default, (), r),
        call_ensures(BreakerConfig::default, (), c),
    ensures
        r.clean_shutdown && r.abnormal_restarts@.len() == 0 && r.tripped_unix_ms is None,
        c.threshold == 3 && c.window_secs == 5 * 60,
{
}

}
