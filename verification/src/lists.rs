//! Block lists: where they come from, when they are fetched, what is known of each source.
use vstd::prelude::*;
use vstd::string::*;
use crate::clock::{subsec_nanos_now, unix_ms_now};
use crate::clock::{is_wall_ms, is_wall_subsec};
use crate::config::ListSource;
use crate::state_dir::{file_stem, join_path};
use crate::state_dir::{joined_path, stem_before};
use crate::table::Table;
use crate::text::{chars_of, copy_of, decimal_of};
use crate::text::opt_text;

verus! {

/// The largest source that is accepted, in bytes.
pub const MAX_SOURCE_BYTES: u64 = 268_435_456;

/// How long the first fetch waits where the daemon started without rules, in seconds.
pub const COLD_START_FETCH_DELAY_SECS: u64 = 10;

/// The first pause after every source failed, in seconds.
pub const BACKOFF_INITIAL_SECS: u64 = 30;

/// The longest pause after every source failed, in seconds.
pub const BACKOFF_CAP_SECS: u64 = 3600;

/// Status of one source.
#[derive(Debug)]
pub struct SourceStatus {
    /// The source's name.
    pub name: String,
    /// Where it is fetched from.
    pub url: String,
    /// When it was last fetched, in milliseconds since the Unix epoch.
    pub last_ok_unix_ms: Option<u64>,
    /// What went wrong in the last fetch, if anything.
    pub last_error: Option<String>,
    /// How many rules it contributed to the last compile.
    pub last_rule_count: Option<u64>,
}

/// What is known of a set of compiled rules.
#[derive(Debug)]
pub struct RulesMeta {
    /// How many domains it blocks.
    pub block_count: u64,
    /// How many exceptions it makes.
    pub allow_count: u64,
    /// When it was compiled, in milliseconds since the Unix epoch.
    pub built_unix_ms: u64,
    /// The names of the sources it was compiled from.
    pub source_names: Vec<String>,
}

/// Status of all sources.
#[derive(Debug)]
pub struct ListsStatus {
    /// Each source, in the order of the configuration.
    pub per_source: Vec<SourceStatus>,
    /// The rules in force.
    pub compiled_meta: Option<RulesMeta>,
    /// When rules were last swapped in, in milliseconds since the Unix epoch.
    pub last_swap_unix_ms: Option<u64>,
}

/// Errors of the list pipeline.
#[derive(Debug)]
pub enum ListsError {
    /// The state directory could not be read or written.
    Io(String),
    /// A request failed.
    Http { url: String, source: String },
    /// A source is too large.
    SourceTooLarge { url: String },
    /// The rules could not be compiled.
    Compile(String),
}

/// The message shown for an error.
pub open spec fn lists_error_text(e: ListsError) -> Seq<char> {
    match e {
        ListsError::Io(s) => "I/O error: "@ + s@,
        ListsError::Http { url, source } => "HTTP error fetching "@ + url@ + ": "@ + source@,
        ListsError::SourceTooLarge { url } => "source "@ + url@ + " response exceeded "@
            + crate::text::decimal(MAX_SOURCE_BYTES as nat) + " bytes (poisoned-source guard)"@,
        ListsError::Compile(s) => "compile error: "@ + s@,
    }
}

impl ListsError {
    /// The message shown for the error.
    pub fn message(&self) -> (r: String)
        ensures
            r@ == lists_error_text(*self),
    {
        match self {
            ListsError::Io(s) => "I/O error: ".to_owned().concat(s.as_str()),
            ListsError::Http { url, source } => {
                let mut m = "HTTP error fetching ".to_owned();
                m.append(url.as_str());
                m.append(": ");
                m.append(source.as_str());
                m
            },
            ListsError::SourceTooLarge { url } => {
                let mut m = "source ".to_owned();
                m.append(url.as_str());
                m.append(" response exceeded ");
                let n = decimal_of(MAX_SOURCE_BYTES);
                m.append(n.as_str());
                m.append(" bytes (poisoned-source guard)");
                m
            },
            ListsError::Compile(s) => "compile error: ".to_owned().concat(s.as_str()),
        }
    }
}

// ── Validators ──────────────────────────────────────────────────────────────

/// What a source answered when it was last fetched: its `ETag` and its `Last-Modified`.
#[derive(Debug)]
pub struct Validators {
    entries: Table<(Option<String>, Option<String>)>,
}

/// The text of an optional borrowed string.
pub open spec fn ref_text(o: Option<&str>) -> Option<Seq<char>> {
    match o {
        Some(s) => Some(s@),
        None => None,
    }
}

/// What is sent along to a source: the validators of its last answer, or none.
pub open spec fn validators_for(
    m: Map<Seq<char>, (Option<String>, Option<String>)>,
    url: Seq<char>,
) -> (Option<Seq<char>>, Option<Seq<char>>) {
    if m.dom().contains(url) {
        (opt_text(m[url].0), opt_text(m[url].1))
    } else {
        (None, None)
    }
}

/// An optional string, borrowed.
fn as_deref(o: &Option<String>) -> (r: Option<&str>)
    ensures
        ref_text(r) == opt_text(*o),
{
    match o {
        Some(s) => Some(s.as_str()),
        None => None,
    }
}

impl Validators {
    /// The validators of each source.
    pub closed spec fn table(&self) -> Map<Seq<char>, (Option<String>, Option<String>)> {
        self.entries@
    }

    /// The table is well-formed.
    pub closed spec fn wf(&self) -> bool {
        self.entries.wf()
    }

    /// No validators.
    pub fn new() -> (r: Validators)
        ensures
            r.wf(),
            r.table() == Map::<Seq<char>, (Option<String>, Option<String>)>::empty(),
    {
        Validators { entries: Table::new() }
    }

    /// The validators to go by: those that were stored, where they could be read.  A refresh
    /// that is forced goes by none, so that every source sends its content.
    pub fn load(stored: Option<Validators>, forced: bool) -> (r: Validators)
        requires
            stored matches Some(v) ==> v.wf(),
        ensures
            r.wf(),
            r.table() == if stored is Some && !forced {
                stored->0.table()
            } else {
                Map::empty()
            },
    {
        match stored {
            Some(v) => if forced {
                Validators::new()
            } else {
                v
            },
            None => Validators::new(),
        }
    }

    /// The sources of which there are validators, each once.
    pub fn urls(&self) -> (r: Vec<String>)
        requires
            self.wf(),
        ensures
            crate::text::texts(r@).to_set() == self.table().dom(),
            crate::text::texts(r@).no_duplicates(),
    {
        self.entries.keys()
    }

    /// The validators to send along to a source.
    pub fn get(&self, url: &str) -> (r: (Option<&str>, Option<&str>))
        requires
            self.wf(),
        ensures
            (ref_text(r.0), ref_text(r.1)) == validators_for(self.table(), url@),
    {
        match self.entries.get(url) {
            Some(e) => (as_deref(&e.0), as_deref(&e.1)),
            None => (None, None),
        }
    }

    /// Remembers the validators of a source's answer.
    pub fn set(&mut self, url: &str, etag: Option<String>, last_modified: Option<String>)
        requires
            old(self).wf(),
        ensures
            final(self).wf(),
            final(self).table() == old(self).table().insert(url@, (etag, last_modified)),
    {
        self.entries.insert(url, (etag, last_modified));
    }
}

/// A source is sent the validators of its last answer, and those of no other source.
pub proof fn law_validators_are_kept_per_source(
    m: Map<Seq<char>, (Option<String>, Option<String>)>,
    url: Seq<char>,
    etag: Option<String>,
    last_modified: Option<String>,
    other: Seq<char>,
)
    ensures
        validators_for(m.insert(url, (etag, last_modified)), url) == (
            opt_text(etag),
            opt_text(last_modified),
        ),
        other != url ==> validators_for(m.insert(url, (etag, last_modified)), other)
            == validators_for(m, other),
{
}

// ── One fetch ───────────────────────────────────────────────────────────────

/// What the head of a response says.
#[derive(Debug, Clone, Copy, PartialEq, Eq, Structural)]
pub enum FetchHead {
    /// The cached copy is current.
    NotModified,
    /// The source refused.
    Refused,
    /// The source announces more than is accepted.
    TooLarge,
    /// Read the body, then go on with [`accept_body`].
    ReadBody,
}

/// What the head of a response says, by its status and the length it announces.
///
/// Redirects have been followed before, so no other status below 400 comes up.
pub fn fetch_head(status: u16, content_length: Option<u64>) -> (r: FetchHead)
    requires
        status == 304 || 200 <= status < 300 || 400 <= status < 600,
    ensures
        r == if status == 304 {
            FetchHead::NotModified
        } else if !(200 <= status < 300) {
            FetchHead::Refused
        } else if content_length is Some && content_length->0 > MAX_SOURCE_BYTES {
            FetchHead::TooLarge
        } else {
            FetchHead::ReadBody
        },
{
    if status == 304 {
        return FetchHead::NotModified;
    }
    if !(200 <= status && status < 300) {
        return FetchHead::Refused;
    }
    match content_length {
        Some(n) => if n > MAX_SOURCE_BYTES {
            FetchHead::TooLarge
        } else {
            FetchHead::ReadBody
        },
        None => FetchHead::ReadBody,
    }
}

/// The error of a source that announces or sends more than is accepted.
pub fn too_large(url: &str) -> (r: ListsError)
    ensures
        r matches ListsError::SourceTooLarge { url: u } && u@ == url@,
{
    ListsError::SourceTooLarge { url: copy_of(url) }
}

/// Whether a body is accepted: a source may announce one length and send another.
pub fn accept_body(url: &str, len: u64) -> (r: Result<(), ListsError>)
    ensures
        r is Ok <==> len <= MAX_SOURCE_BYTES,
        r matches Err(e) ==> (e matches ListsError::SourceTooLarge { url: u } && u@ == url@),
{
    if len > MAX_SOURCE_BYTES {
        Err(too_large(url))
    } else {
        Ok(())
    }
}

/// An answer of a source.
#[derive(Debug)]
pub enum Fetched {
    /// The cached copy is current.
    NotModified,
    /// New content, which has replaced the cached copy, with its validators.
    Content { etag: Option<String>, last_modified: Option<String> },
    /// The fetch failed; the cached copy is used.
    Failed(ListsError),
}

/// What came of fetching one source.
#[derive(Debug, Clone, Copy, PartialEq, Eq, Structural)]
pub enum FetchResult {
    /// The cached copy is current.
    NotModified,
    /// New content, which replaces the cached copy.
    Content,
    /// The fetch failed; the cached copy is used.
    Failed,
}

/// What follows a fetch of every source.
#[derive(Debug, Clone, Copy, PartialEq, Eq, Structural)]
pub enum RefreshVerdict {
    /// Every source failed: keep the current rules and try again later.
    AllFailed,
    /// Nothing changed: keep the current rules.
    Unchanged,
    /// Compile the cached copies and swap the rules in.
    Recompile,
}

/// What follows a fetch of every source.
pub open spec fn refresh_of(results: Seq<FetchResult>) -> RefreshVerdict {
    if forall|i: int| 0 <= i < results.len() ==> #[trigger] results[i] == FetchResult::Failed {
        RefreshVerdict::AllFailed
    } else if exists|i: int| 0 <= i < results.len() && #[trigger] results[i] == FetchResult::Content {
        RefreshVerdict::Recompile
    } else {
        RefreshVerdict::Unchanged
    }
}

/// One source that answers is enough to keep the pipeline going.
pub proof fn law_one_source_is_enough(results: Seq<FetchResult>, i: int)
    requires
        0 <= i < results.len(),
        results[i] != FetchResult::Failed,
    ensures
        refresh_of(results) != RefreshVerdict::AllFailed,
{
}

// ── Timing ──────────────────────────────────────────────────────────────────

/// The time until the next refresh, in milliseconds: the configured hours, and a part of the
/// jitter that the seed picks.
pub open spec fn interval_of(refresh_hours: u32, jitter_minutes: u32, seed: u32) -> int {
    refresh_hours * 3_600_000 + if jitter_minutes > 0 {
        seed as int % (jitter_minutes * 60_000)
    } else {
        0
    }
}

/// The time until the next refresh, in milliseconds, for a seed.
pub fn interval_ms(refresh_hours: u32, jitter_minutes: u32, seed: u32) -> (r: u64)
    ensures
        r == interval_of(refresh_hours, jitter_minutes, seed),
{
    let base: u64 = refresh_hours as u64 * 3_600_000;
    let jitter: u64 = if jitter_minutes > 0 {
        let max: u64 = jitter_minutes as u64 * 60_000;
        seed as u64 % max
    } else {
        0
    };
    base + jitter
}

/// The time until the next refresh, in milliseconds: at least the configured hours, and less
/// than the jitter more.  The clock picks the jitter.
pub fn compute_next_interval(refresh_hours: u32, jitter_minutes: u32) -> (r: u64)
    ensures
        refresh_hours * 3_600_000 <= r,
        jitter_minutes > 0 ==> r < refresh_hours * 3_600_000 + jitter_minutes * 60_000,
        jitter_minutes == 0 ==> r == refresh_hours * 3_600_000,
        exists|seed: u32| #[trigger]
            is_wall_subsec(seed) && r == interval_of(refresh_hours, jitter_minutes, seed),
{
    interval_ms(refresh_hours, jitter_minutes, subsec_nanos_now())
}

/// Twice a pause, up to the cap.
pub open spec fn doubled(secs: nat) -> nat {
    if secs * 2 <= BACKOFF_CAP_SECS {
        secs * 2
    } else {
        BACKOFF_CAP_SECS as nat
    }
}

/// The pause after a refresh that failed, where the one before it was `backoff_secs`.
pub fn next_backoff(backoff_secs: u64) -> (r: u64)
    requires
        backoff_secs <= BACKOFF_CAP_SECS,
    ensures
        r == doubled(backoff_secs as nat),
        r <= BACKOFF_CAP_SECS,
{
    if backoff_secs * 2 <= BACKOFF_CAP_SECS {
        backoff_secs * 2
    } else {
        BACKOFF_CAP_SECS
    }
}

/// The pause after `n` failures in a row, in seconds.
pub open spec fn backoff_after(n: nat) -> nat
    decreases n,
{
    if n == 0 {
        BACKOFF_INITIAL_SECS as nat
    } else {
        doubled(backoff_after((n - 1) as nat))
    }
}

/// The pause never falls below the first one, never shrinks while failures go on, and never
/// passes the cap.
pub proof fn law_backoff_is_bounded(n: nat)
    ensures
        BACKOFF_INITIAL_SECS <= backoff_after(n) <= BACKOFF_CAP_SECS,
        backoff_after(n) <= backoff_after(n + 1),
    decreases n,
{
    if n > 0 {
        law_backoff_is_bounded((n - 1) as nat);
    }
}

/// How long the first fetch waits, in seconds: not at all where there are rules to go on with.
pub fn first_fetch_delay_secs(rules_empty: bool) -> (r: u64)
    ensures
        r == if rules_empty {
            COLD_START_FETCH_DELAY_SECS
        } else {
            0
        },
{
    if rules_empty {
        COLD_START_FETCH_DELAY_SECS
    } else {
        0
    }
}

/// The pauses between refreshes.
#[derive(Debug)]
pub struct RefreshPauses {
    backoff_secs: u64,
}

impl RefreshPauses {
    /// The pause after the next failure, in seconds.
    pub closed spec fn pause_secs(&self) -> u64 {
        self.backoff_secs
    }

    /// The pause is within its bounds.
    pub open spec fn wf(&self) -> bool {
        self.pause_secs() <= BACKOFF_CAP_SECS
    }

    /// Nothing has failed.
    pub fn new() -> (r: RefreshPauses)
        ensures
            r.wf(),
            r.pause_secs() == BACKOFF_INITIAL_SECS,
    {
        RefreshPauses { backoff_secs: BACKOFF_INITIAL_SECS }
    }

    /// The pause after a refresh, in milliseconds.  After one that succeeded it is the
    /// configured interval, and failures are forgotten; after failures in a row it grows.
    pub fn after_refresh(
        &mut self,
        succeeded: bool,
        refresh_hours: u32,
        jitter_minutes: u32,
        seed: u32,
    ) -> (r: u64)
        requires
            old(self).wf(),
        ensures
            final(self).wf(),
            r == if succeeded {
                interval_of(refresh_hours, jitter_minutes, seed)
            } else {
                old(self).pause_secs() * 1000
            },
            final(self).pause_secs() == if succeeded {
                BACKOFF_INITIAL_SECS as nat
            } else {
                doubled(old(self).pause_secs() as nat)
            },
    {
        if succeeded {
            self.backoff_secs = BACKOFF_INITIAL_SECS;
            interval_ms(refresh_hours, jitter_minutes, seed)
        } else {
            let pause: u64 = self.backoff_secs;
            self.backoff_secs = next_backoff(pause);
            pause * 1000
        }
    }
}

// ── Boot ────────────────────────────────────────────────────────────────────

/// Where the first rules come from.
#[derive(Debug, Clone, Copy, PartialEq, Eq, Structural)]
pub enum BootStep {
    /// Load the compiled rules.
    LoadCompiled,
    /// Compile the cached copies of the sources.
    CompileRawCache,
    /// Compile the packaged snapshot.
    CompileSnapshot,
    /// Start without rules.
    StartEmpty,
    /// Rules are in place.
    Ready,
}

/// What follows a boot step: the first source that works is used, and there is always a way to
/// start.
pub fn next_boot_step(step: BootStep, succeeded: bool) -> (r: BootStep)
    ensures
        r == if succeeded || step == BootStep::StartEmpty || step == BootStep::Ready {
            BootStep::Ready
        } else {
            match step {
                BootStep::LoadCompiled => BootStep::CompileRawCache,
                BootStep::CompileRawCache => BootStep::CompileSnapshot,
                _ => BootStep::StartEmpty,
            }
        },
{
    if succeeded {
        return BootStep::Ready;
    }
    match step {
        BootStep::LoadCompiled => BootStep::CompileRawCache,
        BootStep::CompileRawCache => BootStep::CompileSnapshot,
        BootStep::CompileSnapshot => BootStep::StartEmpty,
        BootStep::StartEmpty => BootStep::Ready,
        BootStep::Ready => BootStep::Ready,
    }
}

/// The directory of the packaged snapshot, where one is configured.
pub fn snapshot_directory(configured: Option<&str>) -> (r: Option<String>)
    ensures
        opt_text(r) == if configured is Some && configured->0@.len() > 0 {
            Some(configured->0@)
        } else {
            None
        },
{
    match configured {
        Some(d) => if d.is_empty() {
            None
        } else {
            Some(copy_of(d))
        },
        None => None,
    }
}

/// The name of the source that a file of the packaged snapshot holds; other files than text
/// files hold none.
pub fn snapshot_source(file_name: &str) -> (r: Option<String>)
    ensures
        opt_text(r) == stem_before(file_name@, "txt"@),
{
    file_stem(file_name, "txt")
}

/// Compiling the cached copies takes one of them at least: for each source, `rules` says how
/// many rules its copy held, where it could be read.
pub fn check_raw_cache(rules: &Vec<Option<u64>>) -> (r: Result<(), ListsError>)
    ensures
        r is Ok <==> exists|i: int| 0 <= i < rules@.len() && #[trigger] rules@[i] is Some,
        r matches Err(e) ==> (e matches ListsError::Io(s) && s@
            == "no cached raw source files found"@),
{
    let mut i: usize = 0;
    while i < rules.len()
        invariant
            0 <= i <= rules.len(),
            forall|j: int| 0 <= j < i ==> #[trigger] rules@[j] is None,
        decreases rules.len() - i,
    {
        if rules[i].is_some() {
            proof {
                assert(rules@[i as int] is Some);
            }
            return Ok(());
        }
        i += 1;
    }
    Err(ListsError::Io("no cached raw source files found".to_owned()))
}

/// Compiling the packaged snapshot takes one text file at least.
pub fn check_snapshot(dir: &str, files_read: usize) -> (r: Result<(), ListsError>)
    ensures
        r is Ok <==> files_read > 0,
        r matches Err(e) ==> (e matches ListsError::Io(s) && s@ == "snapshot dir "@ + dir@
            + " contained no .txt files"@),
{
    if files_read > 0 {
        return Ok(());
    }
    let mut m = "snapshot dir ".to_owned();
    m.append(dir);
    m.append(" contained no .txt files");
    Err(ListsError::Io(m))
}

// ── Files ───────────────────────────────────────────────────────────────────

/// A letter or a number of any script, as `char::is_alphanumeric` tells.
pub uninterp spec fn alphanumeric(c: char) -> bool;

/// `char::is_alphanumeric`: whether a character is a letter or a number of any script.  Of
/// the ASCII characters, those are the letters and the digits.
#[verifier::external_body]
fn is_alphanumeric(c: char) -> (r: bool)
    ensures
        r == alphanumeric(c),
        c as u32 <= 0x7f ==> r == ('0' <= c <= '9' || 'A' <= c <= 'Z' || 'a' <= c <= 'z'),
{
    c.is_alphanumeric()
}

/// `c` where it may stand in a file's name, else an underscore.
pub open spec fn safe_char(c: char) -> char {
    if alphanumeric(c) || c == '.' || c == '-' {
        c
    } else {
        '_'
    }
}

/// The file in which the copy of a source is kept.
pub open spec fn source_file_name(url: Seq<char>) -> Seq<char> {
    url.map_values(|c: char| safe_char(c)) + ".txt"@
}

/// The path of the file in which the copy of a source is kept.  Nothing that separates
/// directories stands in the file's name.
pub fn source_file_path(lists_dir: &str, url: &str) -> (r: String)
    ensures
        r@ == joined_path(lists_dir@, source_file_name(url@)),
        !source_file_name(url@).contains('/'),
        !source_file_name(url@).contains('\\'),
        !source_file_name(url@).contains(':'),
{
    let v = chars_of(url);
    let mut safe = String::new();
    let mut i: usize = 0;
    let ghost all = url@.map_values(|c: char| safe_char(c));
    while i < v.len()
        invariant
            0 <= i <= v.len(),
            v@ == url@,
            all == url@.map_values(|c: char| safe_char(c)),
            safe@ == all.take(i as int),
            forall|j: int|
                0 <= j < i ==> #[trigger] all[j] != '/' && all[j] != '\\' && all[j] != ':',
        decreases v.len() - i,
    {
        let c = v[i];
        if is_alphanumeric(c) || c == '.' || c == '-' {
            safe.push(c);
        } else {
            safe.push('_');
        }
        proof {
            assert(all[i as int] == safe_char(c));
            assert(all.take(i + 1) =~= all.take(i as int).push(safe_char(c)));
        }
        i += 1;
    }
    proof {
        assert(all.take(i as int) =~= all);
        reveal_strlit(".txt");
        let name = source_file_name(url@);
        assert forall|k: int| 0 <= k < name.len() implies #[trigger] name[k] != '/' && name[k] != '\\'
            && name[k] != ':' by {
            if k < all.len() {
                assert(name[k] == all[k]);
            } else {
                assert(name[k] == ".txt"@[k - all.len()]);
            }
        }
    }
    safe.append(".txt");
    join_path(lists_dir, safe.as_str())
}

// ── What is known of each source ────────────────────────────────────────────

/// What is known of one source.
#[derive(Debug)]
pub struct SourceTrack {
    pub last_ok_unix_ms: Option<u64>,
    pub last_error: Option<String>,
    pub last_rule_count: Option<u64>,
}

/// What is known of a source, as text and numbers.
pub struct TrackModel {
    pub last_ok_unix_ms: Option<u64>,
    pub last_error: Option<Seq<char>>,
    pub last_rule_count: Option<u64>,
}

impl View for SourceTrack {
    type V = TrackModel;

    open spec fn view(&self) -> TrackModel {
        TrackModel {
            last_ok_unix_ms: self.last_ok_unix_ms,
            last_error: opt_text(self.last_error),
            last_rule_count: self.last_rule_count,
        }
    }
}

impl TrackModel {
    /// What is known after a fetch at `now` that succeeded.
    pub open spec fn fetched_at(self, now: u64) -> TrackModel {
        TrackModel { last_ok_unix_ms: Some(now), last_error: None, ..self }
    }
}

/// How many rules the copy of a source held, by the last of the counts that names the source;
/// `before` stands where none does.
pub open spec fn count_of(
    counts: Seq<(String, u64)>,
    url: Seq<char>,
    before: Option<u64>,
) -> Option<u64>
    decreases counts.len(),
{
    if counts.len() == 0 {
        before
    } else if counts.last().0@ == url {
        Some(counts.last().1)
    } else {
        count_of(counts.drop_last(), url, before)
    }
}

/// What is known of a source that was never tried.
pub open spec fn untried() -> TrackModel {
    TrackModel { last_ok_unix_ms: None, last_error: None, last_rule_count: None }
}

/// What a [`SourceStatus`] says.
pub open spec fn status_of(s: SourceStatus, source: ListSource, t: TrackModel) -> bool {
    &&& s.name@ == source.name@
    &&& s.url@ == source.url@
    &&& s.last_ok_unix_ms == t.last_ok_unix_ms
    &&& opt_text(s.last_error) == t.last_error
    &&& s.last_rule_count == t.last_rule_count
}

/// The sources and what is known of them.
#[derive(Debug)]
pub struct ListsPipeline {
    preset: String,
    sources: Vec<ListSource>,
    track: Table<SourceTrack>,
    last_swap_unix_ms: Option<u64>,
}

impl ListsPipeline {
    /// The pipeline is well-formed.
    pub closed spec fn wf(&self) -> bool {
        self.track.wf()
    }

    /// The configured sources.
    pub closed spec fn configured(&self) -> Seq<ListSource> {
        self.sources@
    }

    /// The configured preset.
    pub closed spec fn preset_name(&self) -> Seq<char> {
        self.preset@
    }

    /// What is known of a source.
    pub closed spec fn known(&self, url: Seq<char>) -> TrackModel {
        if self.track@.dom().contains(url) {
            self.track@[url]@
        } else {
            untried()
        }
    }

    /// When rules were last swapped in.
    pub closed spec fn last_swap(&self) -> Option<u64> {
        self.last_swap_unix_ms
    }

    /// A pipeline that has fetched nothing.
    pub fn new(preset: &str, sources: Vec<ListSource>) -> (r: ListsPipeline)
        ensures
            r.wf(),
            r.configured() == sources@,
            r.preset_name() == preset@,
            forall|url: Seq<char>| #[trigger] r.known(url) == untried(),
            r.last_swap() is None,
    {
        ListsPipeline {
            preset: copy_of(preset),
            sources,
            track: Table::new(),
            last_swap_unix_ms: None,
        }
    }

    /// The configured preset.
    pub fn preset(&self) -> (r: String)
        ensures
            r@ == self.preset_name(),
    {
        self.preset.clone()
    }

    /// Takes over another configuration; what is known of the sources stays.
    pub fn update_config(&mut self, preset: &str, sources: Vec<ListSource>)
        requires
            old(self).wf(),
        ensures
            final(self).wf(),
            final(self).configured() == sources@,
            final(self).preset_name() == preset@,
            forall|url: Seq<char>| #[trigger] final(self).known(url) == old(self).known(url),
            final(self).last_swap() == old(self).last_swap(),
    {
        self.preset = copy_of(preset);
        self.sources = sources;
    }

    /// What is known of a source, to be changed and put back.
    fn track_of(&self, url: &str) -> (r: SourceTrack)
        requires
            self.wf(),
        ensures
            r@ == self.known(url@),
    {
        match self.track.get(url) {
            Some(t) => SourceTrack {
                last_ok_unix_ms: t.last_ok_unix_ms,
                last_error: t.last_error.clone(),
                last_rule_count: t.last_rule_count,
            },
            None => SourceTrack { last_ok_unix_ms: None, last_error: None, last_rule_count: None },
        }
    }

    /// Puts back what is known of a source.
    fn put_track(&mut self, url: &str, t: SourceTrack)
        requires
            old(self).wf(),
        ensures
            final(self).wf(),
            final(self).known(url@) == t@,
            forall|u: Seq<char>| u != url@ ==> #[trigger] final(self).known(u) == old(self).known(u),
            final(self).configured() == old(self).configured(),
            final(self).preset_name() == old(self).preset_name(),
            final(self).last_swap() == old(self).last_swap(),
    {
        self.track.insert(url, t);
    }

    /// Records a fetch at `now` that succeeded, whether or not the content was new: it clears
    /// an earlier error.
    pub fn record_source_ok_at(&mut self, url: &str, now: u64)
        requires
            old(self).wf(),
        ensures
            final(self).wf(),
            final(self).known(url@) == (TrackModel {
                last_ok_unix_ms: Some(now),
                last_error: None,
                ..old(self).known(url@)
            }),
            forall|u: Seq<char>| u != url@ ==> #[trigger] final(self).known(u) == old(self).known(u),
            final(self).configured() == old(self).configured(),
            final(self).preset_name() == old(self).preset_name(),
            final(self).last_swap() == old(self).last_swap(),
    {
        let mut t = self.track_of(url);
        t.last_ok_unix_ms = Some(now);
        t.last_error = None;
        self.put_track(url, t);
    }

    /// Records a fetch that succeeded now.
    pub fn record_source_ok(&mut self, url: &str)
        requires
            old(self).wf(),
        ensures
            final(self).wf(),
            final(self).known(url@).last_ok_unix_ms matches Some(now) && is_wall_ms(now),
            final(self).known(url@).last_error is None,
            final(self).known(url@).last_rule_count == old(self).known(url@).last_rule_count,
            forall|u: Seq<char>| u != url@ ==> #[trigger] final(self).known(u) == old(self).known(u),
            final(self).configured() == old(self).configured(),
            final(self).preset_name() == old(self).preset_name(),
            final(self).last_swap() == old(self).last_swap(),
    {
        self.record_source_ok_at(url, unix_ms_now());
    }

    /// Records a fetch that failed: the time of the last success stays.
    pub fn record_source_error(&mut self, url: &str, error: String)
        requires
            old(self).wf(),
        ensures
            final(self).wf(),
            final(self).known(url@) == (TrackModel {
                last_error: Some(error@),
                ..old(self).known(url@)
            }),
            forall|u: Seq<char>| u != url@ ==> #[trigger] final(self).known(u) == old(self).known(u),
            final(self).configured() == old(self).configured(),
            final(self).preset_name() == old(self).preset_name(),
            final(self).last_swap() == old(self).last_swap(),
    {
        let mut t = self.track_of(url);
        t.last_error = Some(error);
        self.put_track(url, t);
    }

    /// Records how many rules a source contributed to a compile.
    pub fn record_rule_count(&mut self, url: &str, count: u64)
        requires
            old(self).wf(),
        ensures
            final(self).wf(),
            final(self).known(url@) == (TrackModel {
                last_rule_count: Some(count),
                ..old(self).known(url@)
            }),
            forall|u: Seq<char>| u != url@ ==> #[trigger] final(self).known(u) == old(self).known(u),
            final(self).configured() == old(self).configured(),
            final(self).preset_name() == old(self).preset_name(),
            final(self).last_swap() == old(self).last_swap(),
    {
        let mut t = self.track_of(url);
        t.last_rule_count = Some(count);
        self.put_track(url, t);
    }

    /// Records that rules were swapped in at `now`.
    pub fn record_swap_at(&mut self, now: u64)
        requires
            old(self).wf(),
        ensures
            final(self).wf(),
            final(self).last_swap() == Some(now),
            forall|u: Seq<char>| #[trigger] final(self).known(u) == old(self).known(u),
            final(self).configured() == old(self).configured(),
            final(self).preset_name() == old(self).preset_name(),
    {
        self.last_swap_unix_ms = Some(now);
    }

    /// Records that rules were swapped in now.
    pub fn record_swap(&mut self)
        requires
            old(self).wf(),
        ensures
            final(self).wf(),
            final(self).last_swap() matches Some(now) && is_wall_ms(now),
            forall|u: Seq<char>| #[trigger] final(self).known(u) == old(self).known(u),
            final(self).configured() == old(self).configured(),
            final(self).preset_name() == old(self).preset_name(),
    {
        self.record_swap_at(unix_ms_now());
    }

    /// Takes in what a source answered at `now`: its status, and the validators of new content.
    pub fn source_fetched(
        &mut self,
        validators: &mut Validators,
        url: &str,
        answer: Fetched,
        now: u64,
    ) -> (r: FetchResult)
        requires
            old(self).wf(),
            old(validators).wf(),
        ensures
            final(self).wf(),
            final(validators).wf(),
            forall|u: Seq<char>| u != url@ ==> #[trigger] final(self).known(u) == old(self).known(u),
            final(self).configured() == old(self).configured(),
            final(self).preset_name() == old(self).preset_name(),
            final(self).last_swap() == old(self).last_swap(),
            (match answer {
                Fetched::NotModified => {
                    &&& r == FetchResult::NotModified
                    &&& final(validators).table() == old(validators).table()
                    &&& final(self).known(url@) == old(self).known(url@).fetched_at(now)
                },
                Fetched::Content { etag, last_modified } => {
                    &&& r == FetchResult::Content
                    &&& final(validators).table() == old(validators).table().insert(
                        url@,
                        (etag, last_modified),
                    )
                    &&& final(self).known(url@) == old(self).known(url@).fetched_at(now)
                },
                Fetched::Failed(e) => {
                    &&& r == FetchResult::Failed
                    &&& final(validators).table() == old(validators).table()
                    &&& final(self).known(url@) == (TrackModel {
                        last_error: Some(lists_error_text(e)),
                        ..old(self).known(url@)
                    })
                },
            }),
    {
        match answer {
            Fetched::NotModified => {
                self.record_source_ok_at(url, now);
                FetchResult::NotModified
            },
            Fetched::Content { etag, last_modified } => {
                validators.set(url, etag, last_modified);
                self.record_source_ok_at(url, now);
                FetchResult::Content
            },
            Fetched::Failed(e) => {
                self.record_source_error(url, e.message());
                FetchResult::Failed
            },
        }
    }

    /// What follows a fetch of every source: whether the rules have to be compiled again.
    /// Without a source, every source failed.
    pub fn fetch_and_compile_if_changed(results: &Vec<FetchResult>) -> (r: Result<bool, ListsError>)
        ensures
            (match refresh_of(results@) {
                RefreshVerdict::AllFailed => r matches Err(e) && (e matches ListsError::Io(s) && s@
                    == "all list sources failed"@),
                RefreshVerdict::Unchanged => r == Ok::<bool, ListsError>(false),
                RefreshVerdict::Recompile => r == Ok::<bool, ListsError>(true),
            }),
    {
        let mut any_changed = false;
        let mut all_failed = true;
        let mut i: usize = 0;
        while i < results.len()
            invariant
                0 <= i <= results.len(),
                any_changed == (exists|j: int|
                    0 <= j < i && #[trigger] results@[j] == FetchResult::Content),
                all_failed == (forall|j: int|
                    0 <= j < i ==> #[trigger] results@[j] == FetchResult::Failed),
            decreases results.len() - i,
        {
            match results[i] {
                FetchResult::NotModified => {
                    all_failed = false;
                    proof {
                        assert(results@[i as int] == FetchResult::NotModified);
                    }
                },
                FetchResult::Content => {
                    all_failed = false;
                    any_changed = true;
                    proof {
                        assert(results@[i as int] == FetchResult::Content);
                    }
                },
                FetchResult::Failed => {},
            }
            i += 1;
        }
        if all_failed {
            return Err(ListsError::Io("all list sources failed".to_owned()));
        }
        Ok(any_changed)
    }

    /// Records a compile of the cached copies: each source whose copy could be read, by its URL,
    /// with the number of rules that the copy held.
    pub fn record_rule_counts(&mut self, counts: &Vec<(String, u64)>)
        requires
            old(self).wf(),
        ensures
            final(self).wf(),
            forall|u: Seq<char>| #[trigger]
                final(self).known(u) == (TrackModel {
                    last_rule_count: count_of(counts@, u, old(self).known(u).last_rule_count),
                    ..old(self).known(u)
                }),
            final(self).configured() == old(self).configured(),
            final(self).preset_name() == old(self).preset_name(),
            final(self).last_swap() == old(self).last_swap(),
    {
        let mut i: usize = 0;
        let ghost before = *self;
        while i < counts.len()
            invariant
                0 <= i <= counts.len(),
                self.wf(),
                self.configured() == before.configured(),
                self.preset_name() == before.preset_name(),
                self.last_swap() == before.last_swap(),
                forall|u: Seq<char>| #[trigger]
                    self.known(u) == (TrackModel {
                        last_rule_count: count_of(
                            counts@.take(i as int),
                            u,
                            before.known(u).last_rule_count,
                        ),
                        ..before.known(u)
                    }),
            decreases counts.len() - i,
        {
            proof {
                assert(counts@.take(i + 1).drop_last() =~= counts@.take(i as int));
                assert(counts@.take(i + 1).last() == counts@[i as int]);
            }
            self.record_rule_count(counts[i].0.as_str(), counts[i].1);
            i += 1;
        }
        proof {
            assert(counts@.take(i as int) =~= counts@);
        }
    }

    /// The status of each configured source, in order, beside what is known of the rules in
    /// force.
    pub fn status(&self, current: RulesMeta) -> (r: ListsStatus)
        requires
            self.wf(),
        ensures
            r.per_source@.len() == self.configured().len(),
            forall|i: int|
                0 <= i < r.per_source@.len() ==> status_of(
                    #[trigger] r.per_source@[i],
                    self.configured()[i],
                    self.known(self.configured()[i].url@),
                ),
            r.compiled_meta == Some(current),
            r.last_swap_unix_ms == self.last_swap(),
    {
        let mut per_source: Vec<SourceStatus> = Vec::new();
        let mut i: usize = 0;
        while i < self.sources.len()
            invariant
                0 <= i <= self.sources.len(),
                self.wf(),
                self.configured() == self.sources@,
                per_source@.len() == i,
                forall|j: int|
                    0 <= j < i ==> status_of(
                        #[trigger] per_source@[j],
                        self.configured()[j],
                        self.known(self.configured()[j].url@),
                    ),
            decreases self.sources.len() - i,
        {
            let t = self.track_of(self.sources[i].url.as_str());
            per_source.push(
                SourceStatus {
                    name: self.sources[i].name.clone(),
                    url: self.sources[i].url.clone(),
                    last_ok_unix_ms: t.last_ok_unix_ms,
                    last_error: t.last_error,
                    last_rule_count: t.last_rule_count,
                },
            );
            i += 1;
        }
        ListsStatus {
            per_source,
            compiled_meta: Some(current),
            last_swap_unix_ms: self.last_swap_unix_ms,
        }
    }
}

// ── What the steps mean ─────────────────────────────────────────────────────

/// New content of any source makes the rules be compiled again, whatever the other sources
/// answered, and nothing else does; where every source failed that is an error.
pub proof fn law_new_content_is_compiled(results: &Vec<FetchResult>, r: Result<bool, ListsError>, i: int)
    requires
        call_ensures(ListsPipeline::fetch_and_compile_if_changed, (results,), r),
        0 <= i < results@.len(),
    ensures
        results@[i] == FetchResult::Content ==> r == Ok::<bool, ListsError>(true),
        r == Ok::<bool, ListsError>(true) ==> results@.contains(FetchResult::Content),
        results@[i] == FetchResult::NotModified ==> r is Ok,
        r == Ok::<bool, ListsError>(false) ==> results@.contains(FetchResult::NotModified)
            && !results@.contains(FetchResult::Content),
        r is Err ==> results@[i] == FetchResult::Failed,
        r matches Err(e) ==> (e matches ListsError::Io(s) && s@ == "all list sources failed"@),
{
    let s = results@;
    if r is Ok {
        if forall|j: int| 0 <= j < s.len() ==> #[trigger] s[j] != FetchResult::Content {
            let j = choose|j: int| 0 <= j < s.len() && #[trigger] s[j] != FetchResult::Failed;
            assert(s[j] == FetchResult::NotModified);
            assert(!s.contains(FetchResult::Content));
        } else {
            let j = choose|j: int| 0 <= j < s.len() && #[trigger] s[j] == FetchResult::Content;
            assert(s.contains(s[j]));
        }
    }
}

/// What follows a refresh, said of the verdict itself: new content of any source is compiled,
/// nothing is compiled without some, and without an answer everything failed.
pub proof fn law_what_a_refresh_comes_to(results: Seq<FetchResult>)
    ensures
        refresh_of(results) == RefreshVerdict::Recompile <==> results.contains(FetchResult::Content),
        refresh_of(results) == RefreshVerdict::AllFailed <==> !results.contains(FetchResult::Content)
            && !results.contains(FetchResult::NotModified),
        refresh_of(results) == RefreshVerdict::Unchanged <==> !results.contains(FetchResult::Content)
            && results.contains(FetchResult::NotModified),
{
    if results.contains(FetchResult::Content) {
        let i = choose|i: int| 0 <= i < results.len() && results[i] == FetchResult::Content;
        assert(results[i] == FetchResult::Content);
    } else if results.contains(FetchResult::NotModified) {
        let i = choose|i: int| 0 <= i < results.len() && results[i] == FetchResult::NotModified;
        assert(results[i] != FetchResult::Failed);
    } else {
        assert forall|i: int| 0 <= i < results.len() implies #[trigger] results[i] == FetchResult::Failed by {
            assert(results.contains(results[i]));
        }
    }
}

/// No source has to answer for the pipeline to fail: without one nothing can be compiled.
pub proof fn law_no_sources_is_a_failure(results: &Vec<FetchResult>, r: Result<bool, ListsError>)
    requires
        call_ensures(ListsPipeline::fetch_and_compile_if_changed, (results,), r),
        results@.len() == 0,
    ensures
        r is Err,
{
}

/// What a response means: a source that says nothing changed is believed, one that answers with
/// anything but success is refused, and one that announces more than 256 mebibytes is not read.
pub proof fn law_what_a_response_means(status: u16, length: Option<u64>, r: FetchHead)
    requires
        call_ensures(fetch_head, (status, length), r),
        status == 304 || 200 <= status < 300 || 400 <= status < 600,
    ensures
        r == FetchHead::NotModified <==> status == 304,
        r == FetchHead::Refused <==> status >= 400,
        r == FetchHead::TooLarge <==> 200 <= status <= 299 && (length matches Some(n) && n > 256 * 1024
            * 1024),
        r == FetchHead::ReadBody <==> 200 <= status <= 299 && (length matches Some(n) ==> n <= 256 * 1024
            * 1024),
{
}

/// A body is accepted up to 256 mebibytes, whatever was announced, and the refusal names its
/// source.
pub proof fn law_large_bodies_are_refused(url: &str, len: u64, r: Result<(), ListsError>, e: ListsError)
    requires
        call_ensures(accept_body, (url, len), r),
        call_ensures(too_large, (url,), e),
    ensures
        r is Err <==> len > 256 * 1024 * 1024,
        r matches Err(x) ==> (x matches ListsError::SourceTooLarge { url: u } && u@ == url@),
        e matches ListsError::SourceTooLarge { url: u } && u@ == url@,
{
}

/// The interval is the configured hours and a jitter below the configured minutes, which follows
/// the seed.
pub proof fn law_the_interval_is_the_configured_one(hours: u32, jitter: u32, seed: u32, r: u64)
    requires
        call_ensures(interval_ms, (hours, jitter, seed), r),
    ensures
        jitter == 0 ==> r == hours * (60 * 60 * 1000),
        jitter > 0 ==> hours * (60 * 60 * 1000) <= r < hours * (60 * 60 * 1000) + jitter * (60 * 1000),
        seed < jitter * (60 * 1000) ==> r == hours * (60 * 60 * 1000) + seed,
        jitter > 0 ==> (seed - (r - hours * (60 * 60 * 1000))) % (jitter * (60 * 1000)) == 0,
{
    if jitter > 0 {
        let m = jitter * 60_000;
        vstd::arithmetic::div_mod::lemma_mod_bound(seed as int, m);
        vstd::arithmetic::div_mod::lemma_fundamental_div_mod(seed as int, m);
        let q = seed as int / m;
        vstd::arithmetic::div_mod::lemma_mod_multiples_basic(q, m);
        assert(q * m == m * q) by (nonlinear_arith);
        if seed < m {
            vstd::arithmetic::div_mod::lemma_small_mod(seed as nat, m as nat);
        }
    }
}

/// Failures in a row are waited out for half a minute, then twice as long each time, up to an
/// hour; a success is waited out for the interval and makes the failures forgotten.
pub proof fn law_failures_are_waited_out(
    fresh: RefreshPauses,
    p: &mut RefreshPauses,
    succeeded: bool,
    hours: u32,
    jitter: u32,
    seed: u32,
    r: u64,
    interval: u64,
)
    requires
        call_ensures(RefreshPauses::new, (), fresh),
        call_ensures(RefreshPauses::after_refresh, (p, succeeded, hours, jitter, seed), r),
        call_ensures(interval_ms, (hours, jitter, seed), interval),
        old(p).pause_secs() <= 60 * 60,
    ensures
        fresh.pause_secs() == 30,
        succeeded ==> r == interval && final(p).pause_secs() == 30,
        !succeeded ==> r == old(p).pause_secs() * 1000,
        !succeeded && old(p).pause_secs() <= 30 * 60 ==> final(p).pause_secs() == old(p).pause_secs() * 2,
        !succeeded && old(p).pause_secs() > 30 * 60 ==> final(p).pause_secs() == 60 * 60,
{
}

/// The pause doubles up to an hour.
pub proof fn law_the_pause_doubles(secs: u64, r: u64)
    requires
        call_ensures(next_backoff, (secs,), r),
        secs <= 60 * 60,
    ensures
        secs <= 30 * 60 ==> r == 2 * secs,
        secs > 30 * 60 ==> r == 60 * 60,
{
}

/// With rules to go on with the first fetch does not wait; without any it waits ten seconds.
pub proof fn law_the_first_fetch(rules_empty: bool, r: u64)
    requires
        call_ensures(first_fetch_delay_secs, (rules_empty,), r),
    ensures
        r > 0 <==> rules_empty,
        r == 0 || r == 10,
{
}

/// The ways to start are tried in order until one works, and the last one always does: rules as
/// compiled before, the cached copies, the packaged snapshot, no rules.
pub proof fn law_there_is_always_a_way_to_start(step: BootStep, succeeded: bool, r: BootStep)
    requires
        call_ensures(next_boot_step, (step, succeeded), r),
    ensures
        succeeded ==> r == BootStep::Ready,
        !succeeded && step == BootStep::LoadCompiled ==> r == BootStep::CompileRawCache,
        !succeeded && step == BootStep::CompileRawCache ==> r == BootStep::CompileSnapshot,
        !succeeded && step == BootStep::CompileSnapshot ==> r == BootStep::StartEmpty,
        step == BootStep::StartEmpty || step == BootStep::Ready ==> r == BootStep::Ready,
{
}

/// A snapshot directory is one that is configured and not empty; what it gives are its text files.
pub proof fn law_the_packaged_snapshot(
    configured: Option<&str>,
    dir: Option<String>,
    name: &str,
    source: Option<String>,
    stem: Seq<char>,
)
    requires
        call_ensures(snapshot_directory, (configured,), dir),
        call_ensures(snapshot_source, (name,), source),
        stem.len() > 0,
    ensures
        dir is Some <==> configured is Some && configured->0@.len() > 0,
        dir matches Some(d) ==> d@ == configured->0@,
        name@ == stem + ".txt"@ ==> (source matches Some(s) && s@ == stem),
        source matches Some(s) ==> name@ == s@ + ".txt"@,
{
    reveal_strlit("txt");
    reveal_strlit(".txt");
    assert(!"txt"@.contains('.'));
    crate::state_dir::lemma_stem(name@, "txt"@, stem);
    assert(stem.push('.') + "txt"@ =~= stem + ".txt"@);
    match source {
        Some(s) => assert(s@.push('.') + "txt"@ =~= s@ + ".txt"@),
        None => {},
    }
}

/// One copy of a source is enough to compile, and one file of a snapshot.
pub proof fn law_one_copy_is_enough(
    rules: &Vec<Option<u64>>,
    r: Result<(), ListsError>,
    i: int,
    dir: &str,
    files: usize,
    s: Result<(), ListsError>,
)
    requires
        call_ensures(check_raw_cache, (rules,), r),
        call_ensures(check_snapshot, (dir, files), s),
    ensures
        0 <= i < rules@.len() && rules@[i] is Some ==> r is Ok,
        r is Err && 0 <= i < rules@.len() ==> rules@[i] is None,
        rules@.len() == 0 ==> r is Err,
        r is Ok ==> exists|k: int| 0 <= k < rules@.len() && #[trigger] rules@[k] is Some,
        s is Ok <==> files >= 1,
{
}

/// The copy of a source is kept under its address, with every character that a file's name
/// cannot hold replaced, one for one.
pub proof fn law_copies_are_kept_by_address(dir: &str, url: &str, r: String, i: int)
    requires
        call_ensures(source_file_path, (dir, url), r),
        0 <= i < url@.len(),
    ensures
        r@.len() >= url@.len() + 4,
        crate::text::has_suffix(r@, ".txt"@),
        ({
            let kept = r@[r@.len() - 4 - url@.len() + i];
            let c = url@[i];
            &&& c == '.' || c == '-' || alphanumeric(c) ==> kept == c
            &&& !(c == '.' || c == '-' || alphanumeric(c)) ==> kept == '_'
        }),
{
    reveal_strlit(".txt");
    let name = source_file_name(url@);
    let safe = url@.map_values(|c: char| safe_char(c));
    assert(name.len() == url@.len() + 4);
    crate::state_dir::lemma_joined_path(dir@, name);
    assert(r@.skip(r@.len() - name.len()) =~= name);
    assert(r@.skip(r@.len() - 4) =~= ".txt"@) by {
        assert forall|k: int| 0 <= k < 4 implies #[trigger] r@.skip(r@.len() - 4)[k] == ".txt"@[k] by {
            assert(r@[r@.len() - 4 + k] == r@.skip(r@.len() - name.len())[name.len() - 4 + k]);
            assert(name[name.len() - 4 + k] == ".txt"@[k]);
        }
    }
    assert(r@[r@.len() - 4 - url@.len() + i] == r@.skip(r@.len() - name.len())[i]);
    assert(name[i] == safe[i]);
    assert(safe[i] == safe_char(url@[i]));
}

/// What the status shows of a source is what came of its last fetch: a success sets the time and
/// clears the error, a failure sets the error and keeps the time; the other sources, and the
/// number of rules, stay as they were.
pub proof fn law_the_status_tells_the_last_fetch(
    p: &mut ListsPipeline,
    v: &mut Validators,
    url: &str,
    answer: Fetched,
    now: u64,
    res: FetchResult,
    before: ListsStatus,
    after: ListsStatus,
    current: RulesMeta,
    i: int,
)
    requires
        old(p).wf(),
        old(v).wf(),
        call_ensures(ListsPipeline::source_fetched, (p, v, url, answer, now), res),
        call_ensures(ListsPipeline::status, (old(p), current), before),
        call_ensures(ListsPipeline::status, (final(p), current), after),
        0 <= i < before.per_source@.len(),
    ensures
        after.per_source@.len() == before.per_source@.len(),
        after.per_source@[i].name@ == before.per_source@[i].name@,
        after.per_source@[i].url@ == before.per_source@[i].url@,
        after.per_source@[i].last_rule_count == before.per_source@[i].last_rule_count,
        before.per_source@[i].url@ != url@ ==> after.per_source@[i].last_ok_unix_ms
            == before.per_source@[i].last_ok_unix_ms && opt_text(after.per_source@[i].last_error)
            == opt_text(before.per_source@[i].last_error),
        before.per_source@[i].url@ == url@ && !(answer is Failed) ==> after.per_source@[i].last_ok_unix_ms
            == Some(now) && after.per_source@[i].last_error is None,
        before.per_source@[i].url@ == url@ && answer is Failed ==> after.per_source@[i].last_ok_unix_ms
            == before.per_source@[i].last_ok_unix_ms && after.per_source@[i].last_error is Some,
        res == FetchResult::Content <==> answer is Content,
        res == FetchResult::NotModified <==> answer is NotModified,
        res == FetchResult::Failed <==> answer is Failed,
        after.last_swap_unix_ms == before.last_swap_unix_ms,
        after.compiled_meta == Some(current),
{
    assert(status_of(
        before.per_source@[i],
        old(p).configured()[i],
        old(p).known(old(p).configured()[i].url@),
    ));
    assert(status_of(
        after.per_source@[i],
        final(p).configured()[i],
        final(p).known(final(p).configured()[i].url@),
    ));
}

/// A source is sent what came with its last content, each value under its own heading: what was
/// set for a source is got for it, and for no other.
pub proof fn law_validators_are_sent_back(
    v: &mut Validators,
    url: &str,
    etag: Option<String>,
    last_modified: Option<String>,
    other: &str,
    before: (Option<&str>, Option<&str>),
    after: (Option<&str>, Option<&str>),
    own: (Option<&str>, Option<&str>),
)
    requires
        old(v).wf(),
        call_ensures(Validators::set, (v, url, etag, last_modified), ()),
        call_ensures(Validators::get, (old(v), other), before),
        call_ensures(Validators::get, (final(v), other), after),
        call_ensures(Validators::get, (final(v), url), own),
    ensures
        own.0 is Some <==> etag is Some,
        own.0 is Some ==> own.0->0@ == etag->0@,
        own.1 is Some <==> last_modified is Some,
        own.1 is Some ==> own.1->0@ == last_modified->0@,
        other@ != url@ ==> ref_text(after.0) == ref_text(before.0) && ref_text(after.1) == ref_text(
            before.1,
        ),
{
}

/// A forced refresh sends nothing along, so that every source sends its content; otherwise what
/// was stored is sent.
pub proof fn law_a_forced_refresh_fetches_everything(
    stored: Option<Validators>,
    forced: bool,
    r: Validators,
    url: &str,
    sent: (Option<&str>, Option<&str>),
)
    requires
        stored matches Some(v) ==> v.wf(),
        call_ensures(Validators::load, (stored, forced), r),
        call_ensures(Validators::get, (&r, url), sent),
    ensures
        forced ==> sent.0 is None && sent.1 is None,
        stored is None ==> sent.0 is None && sent.1 is None,
        !forced && stored is Some ==> r.table() == stored->0.table(),
{
}

/// The rules that a compile counted are shown for the sources that it names, by the last count of
/// each; the other sources keep theirs, and nothing else changes.
pub proof fn law_counts_are_shown_per_source(p: &mut ListsPipeline, counts: &Vec<(String, u64)>, url: Seq<char>, i: int)
    requires
        old(p).wf(),
        call_ensures(ListsPipeline::record_rule_counts, (p, counts), ()),
    ensures
        final(p).known(url).last_ok_unix_ms == old(p).known(url).last_ok_unix_ms,
        final(p).known(url).last_error == old(p).known(url).last_error,
        (forall|k: int| 0 <= k < counts@.len() ==> (#[trigger] counts@[k]).0@ != url) ==> final(p).known(
            url,
        ).last_rule_count == old(p).known(url).last_rule_count,
        0 <= i < counts@.len() && counts@[i].0@ == url && (forall|k: int|
            i < k < counts@.len() ==> (#[trigger] counts@[k]).0@ != url) ==> final(p).known(
            url,
        ).last_rule_count == Some(counts@[i].1),
{
    assert(final(p).known(url) == final(p).known(url));
    lemma_count_of(counts@, url, old(p).known(url).last_rule_count, i);
}

proof fn lemma_count_of(counts: Seq<(String, u64)>, url: Seq<char>, before: Option<u64>, i: int)
    ensures
        (forall|k: int| 0 <= k < counts.len() ==> (#[trigger] counts[k]).0@ != url) ==> count_of(
            counts,
            url,
            before,
        ) == before,
        0 <= i < counts.len() && counts[i].0@ == url && (forall|k: int|
            i < k < counts.len() ==> (#[trigger] counts[k]).0@ != url) ==> count_of(counts, url, before)
            == Some(counts[i].1),
    decreases counts.len(),
{
    if counts.len() > 0 {
        let f = counts.drop_last();
        lemma_count_of(f, url, before, i);
        assert(counts.last() == counts[counts.len() - 1]);
        assert forall|k: int| 0 <= k < f.len() implies f[k] == #[trigger] counts[k] by {}
        if forall|k: int| 0 <= k < counts.len() ==> (#[trigger] counts[k]).0@ != url {
            assert forall|k: int| 0 <= k < f.len() implies (#[trigger] f[k]).0@ != url by {
                assert(counts[k].0@ != url);
            }
        }
        if 0 <= i < counts.len() - 1 && counts[i].0@ == url && (forall|k: int|
            i < k < counts.len() ==> (#[trigger] counts[k]).0@ != url) {
            assert(f[i] == counts[i]);
            assert forall|k: int| i < k < f.len() implies (#[trigger] f[k]).0@ != url by {
                assert(counts[k].0@ != url);
            }
        }
    }
}

/// Each single record changes what it is about, and nothing else.
pub proof fn law_records_change_one_thing(
    a: &mut ListsPipeline,
    b: &mut ListsPipeline,
    c: &mut ListsPipeline,
    d: &mut ListsPipeline,
    url: &str,
    now: u64,
    error: String,
    count: u64,
    other: Seq<char>,
)
    requires
        old(a).wf() && old(b).wf() && old(c).wf() && old(d).wf(),
        call_ensures(ListsPipeline::record_source_ok_at, (a, url, now), ()),
        call_ensures(ListsPipeline::record_source_error, (b, url, error), ()),
        call_ensures(ListsPipeline::record_rule_count, (c, url, count), ()),
        call_ensures(ListsPipeline::record_swap_at, (d, now), ()),
    ensures
        final(a).known(url@).last_ok_unix_ms == Some(now) && final(a).known(url@).last_error is None,
        final(a).known(url@).last_rule_count == old(a).known(url@).last_rule_count,
        final(b).known(url@).last_ok_unix_ms == old(b).known(url@).last_ok_unix_ms,
        final(b).known(url@).last_error == Some(error@),
        final(b).known(url@).last_rule_count == old(b).known(url@).last_rule_count,
        final(c).known(url@).last_ok_unix_ms == old(c).known(url@).last_ok_unix_ms,
        final(c).known(url@).last_error == old(c).known(url@).last_error,
        final(c).known(url@).last_rule_count == Some(count),
        final(d).known(other) == old(d).known(other),
        final(d).last_swap() == Some(now),
        final(a).last_swap() == old(a).last_swap() && final(b).last_swap() == old(b).last_swap()
            && final(c).last_swap() == old(c).last_swap(),
        other != url@ ==> final(a).known(other) == old(a).known(other) && final(b).known(other) == old(
            b).known(other) && final(c).known(other) == old(c).known(other),
{
}

/// The message of each error tells what failed.
pub proof fn law_list_errors_are_told(e: &ListsError, r: String)
    requires
        call_ensures(ListsError::message, (e,), r),
    ensures
        *e matches ListsError::Io(s) ==> r@ == "I/O error: "@ + s@,
        *e matches ListsError::Compile(s) ==> r@ == "compile error: "@ + s@,
        *e matches ListsError::Http { url, source } ==> r@ == "HTTP error fetching "@ + url@ + ": "@ + source@,
        *e matches ListsError::SourceTooLarge { url } ==> r@ == "source "@ + url@ + " response exceeded "@
            + crate::text::decimal(268435456) + " bytes (poisoned-source guard)"@,
{
}

/// Another configuration takes the place of the old one, and what is known of the sources stays;
/// what is recorded as of now bears a reading of the clock.
pub proof fn law_a_new_configuration_keeps_what_is_known(
    a: &mut ListsPipeline,
    preset: &str,
    sources: Vec<ListSource>,
    b: &mut ListsPipeline,
    url: &str,
    c: &mut ListsPipeline,
    other: Seq<char>,
    name: String,
)
    requires
        old(a).wf() && old(b).wf() && old(c).wf(),
        call_ensures(ListsPipeline::update_config, (a, preset, sources), ()),
        call_ensures(ListsPipeline::preset, (final(a),), name),
        call_ensures(ListsPipeline::record_source_ok, (b, url), ()),
        call_ensures(ListsPipeline::record_swap, (c,), ()),
    ensures
        name@ == preset@,
        final(a).configured() == sources@,
        final(a).known(other) == old(a).known(other),
        final(a).last_swap() == old(a).last_swap(),
        final(b).known(url@).last_ok_unix_ms matches Some(now) && is_wall_ms(now),
        final(b).known(url@).last_error is None,
        final(b).known(url@).last_rule_count == old(b).known(url@).last_rule_count,
        other != url@ ==> final(b).known(other) == old(b).known(other),
        final(c).last_swap() matches Some(now) && is_wall_ms(now),
        final(c).known(other) == old(c).known(other),
{
}

/// The pause until the next refresh is the configured one, whatever the clock's jitter.
pub proof fn law_refreshes_come_as_often_as_configured(hours: u32, jitter: u32, r: u64)
    requires
        call_ensures(compute_next_interval, (hours, jitter), r),
    ensures
        hours * (60 * 60 * 1000) <= r,
        jitter == 0 ==> r == hours * (60 * 60 * 1000),
        jitter > 0 ==> r < hours * (60 * 60 * 1000) + jitter * (60 * 1000),
{
}

}
