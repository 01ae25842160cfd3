//! The query log on disk: what is written when, what is kept, what is asked of it.
use vstd::prelude::*;
use vstd::string::*;
use crate::clock::unix_ms_now;
use crate::clock::is_wall_ms;
use crate::config::QueryLogMode;
use crate::metrics::next_count;
use crate::net::ip_string;
use crate::net::ip_text;
use crate::querylog::{push_query, reason_for_rollup, reason_for_rollup_anonymous, QueryRecord, RollupRecord, Verdict};
use crate::querylog::RollupModel;
use crate::text::decimal_of;

verus! {

/// How many records wait to be written before further ones are dropped.
pub const CHANNEL_CAP: usize = 4096;

/// How many records are written together at most.
pub const BATCH_SIZE: usize = 256;

/// How long a record waits at most before it is written, in seconds.
pub const FLUSH_INTERVAL_SECS: u64 = 2;

/// How often old records are deleted, in seconds.
pub const RETENTION_INTERVAL_SECS: u64 = 3600;

/// The version of the tables.
pub const SCHEMA_VERSION: i64 = 2;

/// The largest size of the database, in bytes.
pub const SIZE_CAP_BYTES: u64 = 104_857_600;

/// How many of the oldest records are deleted together where the database is too large.
pub const TRIM_BATCH: u64 = 1000;

/// How many times that is done in a row.
pub const MAX_TRIMS: u32 = 100;

/// The file of the database.
pub const DB_FILE: &'static str = "querylog.sqlite";

// ── Errors ──────────────────────────────────────────────────────────────────

/// Errors of the database.
#[derive(Debug)]
pub enum DbError {
    /// It cannot be opened.
    Open(String),
    /// Its tables cannot be set up.
    Schema(String),
    /// Records cannot be written.
    Insert(String),
    /// It cannot be asked.
    Query(String),
}

/// The message shown for an error.
pub open spec fn db_error_text(e: DbError) -> Seq<char> {
    match e {
        DbError::Open(s) => "sqlite open: "@ + s@,
        DbError::Schema(s) => "sqlite schema: "@ + s@,
        DbError::Insert(s) => "sqlite insert: "@ + s@,
        DbError::Query(s) => "sqlite query: "@ + s@,
    }
}

impl DbError {
    /// The message shown for the error.
    pub fn message(&self) -> (r: String)
        ensures
            r@ == db_error_text(*self),
    {
        match self {
            DbError::Open(s) => "sqlite open: ".to_owned().concat(s.as_str()),
            DbError::Schema(s) => "sqlite schema: ".to_owned().concat(s.as_str()),
            DbError::Insert(s) => "sqlite insert: ".to_owned().concat(s.as_str()),
            DbError::Query(s) => "sqlite query: ".to_owned().concat(s.as_str()),
        }
    }
}

// ── Dropped records ─────────────────────────────────────────────────────────

/// How many records were dropped because too many were waiting.
#[derive(Debug, Clone, Copy, PartialEq, Eq, Structural)]
pub struct RollupDrops {
    count: u64,
}

impl RollupDrops {
    /// The number of records dropped.
    pub closed spec fn total(&self) -> u64 {
        self.count
    }

    /// No record dropped yet.
    pub fn new() -> (r: RollupDrops)
        ensures
            r.total() == 0,
    {
        RollupDrops { count: 0 }
    }

    /// Counts a dropped record.
    pub fn inc(&mut self)
        ensures
            final(self).total() == next_count(old(self).total()),
    {
        self.count = self.count.wrapping_add(1);
    }

    /// The number of records dropped.
    pub fn load(&self) -> (r: u64)
        ensures
            r == self.total(),
    {
        self.count
    }
}

/// The end of the queue at which records are put in.
#[derive(Debug)]
pub struct RollupHandle {
    recording: bool,
    drops: RollupDrops,
}

impl RollupHandle {
    /// Whether records are written at all.
    pub closed spec fn records(&self) -> bool {
        self.recording
    }

    /// The number of records dropped.
    pub closed spec fn dropped(&self) -> u64 {
        self.drops.total()
    }

    /// Whether records are written at all.
    pub fn is_recording(&self) -> (r: bool)
        ensures
            r == self.records(),
    {
        self.recording
    }

    /// Offers a record to a queue in which so many are waiting.  It is handed back where it is
    /// to be queued; where the queue is full it is dropped and counted.  The caller is never
    /// held up.
    pub fn try_send(&mut self, rec: RollupRecord, waiting: usize) -> (r: Option<RollupRecord>)
        ensures
            r == if old(self).records() && waiting < CHANNEL_CAP {
                Some(rec)
            } else {
                None
            },
            final(self).records() == old(self).records(),
            final(self).dropped() == if old(self).records() && waiting >= CHANNEL_CAP {
                next_count(old(self).dropped())
            } else {
                old(self).dropped()
            },
    {
        if !self.recording {
            return None;
        }
        if waiting >= CHANNEL_CAP {
            self.drops.inc();
            return None;
        }
        Some(rec)
    }

    /// The number of records dropped.
    pub fn drops(&self) -> (r: u64)
        ensures
            r == self.dropped(),
    {
        self.drops.load()
    }
}

/// A queue for a log mode: without a log, nothing is written and no database is opened.
pub fn start_rollup(mode: QueryLogMode) -> (r: RollupHandle)
    ensures
        r.records() == (mode != QueryLogMode::Off),
        r.dropped() == 0,
{
    RollupHandle { recording: mode != QueryLogMode::Off, drops: RollupDrops::new() }
}

// ── The writer ──────────────────────────────────────────────────────────────

/// What happens to the writer.
#[derive(Debug)]
pub enum WriterEvent {
    /// A record came.
    Record(RollupRecord),
    /// Records have waited long enough.
    FlushTick,
    /// It is time to delete old records.
    RetentionTick,
    /// The daemon stops; these records were still waiting.
    Cancelled(Vec<RollupRecord>),
    /// No more records will come.
    Closed,
}

/// What the writer does.
#[derive(Debug)]
pub enum WriterAction {
    /// Wait for the next event.
    Wait,
    /// Write the records in one transaction, then wait.
    Flush(Vec<RollupRecord>),
    /// Delete old records, then wait.
    Retain,
    /// Write the records in one transaction, then end.
    FlushAndExit(Vec<RollupRecord>),
}

/// The records that an event brings.
pub open spec fn brought(e: WriterEvent) -> Seq<RollupRecord> {
    match e {
        WriterEvent::Record(r) => seq![r],
        WriterEvent::Cancelled(v) => v@,
        _ => Seq::<RollupRecord>::empty(),
    }
}

/// The records that an action writes.
pub open spec fn written(a: WriterAction) -> Seq<RollupRecord> {
    match a {
        WriterAction::Flush(v) => v@,
        WriterAction::FlushAndExit(v) => v@,
        _ => Seq::<RollupRecord>::empty(),
    }
}

/// The writer: the records that were not written yet.
#[derive(Debug)]
pub struct Writer {
    batch: Vec<RollupRecord>,
}

impl Writer {
    /// The records that were not written yet.
    pub closed spec fn waiting(&self) -> Seq<RollupRecord> {
        self.batch@
    }

    /// A writer with no records.
    pub fn new() -> (r: Writer)
        ensures
            r.waiting() == Seq::<RollupRecord>::empty(),
    {
        Writer { batch: Vec::new() }
    }

    /// What the writer does when something happens.
    pub fn on_event(&mut self, event: WriterEvent) -> (r: WriterAction)
        requires
            old(self).waiting().len() < BATCH_SIZE,
        ensures
            final(self).waiting().len() < BATCH_SIZE,
            written(r) + final(self).waiting() == old(self).waiting() + brought(event),
            (match event {
                WriterEvent::Record(_) => if old(self).waiting().len() + 1 >= BATCH_SIZE {
                    r is Flush && final(self).waiting().len() == 0
                } else {
                    r is Wait
                },
                WriterEvent::FlushTick => if old(self).waiting().len() > 0 {
                    r is Flush && final(self).waiting().len() == 0
                } else {
                    r is Wait
                },
                WriterEvent::RetentionTick => r is Retain,
                WriterEvent::Cancelled(_) => r is FlushAndExit && final(self).waiting().len() == 0,
                WriterEvent::Closed => r is FlushAndExit && final(self).waiting().len() == 0,
            }),
    {
        match event {
            WriterEvent::Record(rec) => {
                let ghost before = self.batch@;
                self.batch.push(rec);
                proof {
                    assert(before.push(rec) =~= before + seq![rec]);
                }
                if self.batch.len() >= BATCH_SIZE {
                    let v = self.take_batch();
                    proof {
                        assert(v@ + self.batch@ =~= v@);
                    }
                    WriterAction::Flush(v)
                } else {
                    proof {
                        assert(Seq::<RollupRecord>::empty() + self.batch@ =~= self.batch@);
                    }
                    WriterAction::Wait
                }
            },
            WriterEvent::FlushTick => {
                let ghost before = self.batch@;
                proof {
                    assert(before + Seq::<RollupRecord>::empty() =~= before);
                    assert(Seq::<RollupRecord>::empty() + before =~= before);
                }
                if self.batch.len() > 0 {
                    WriterAction::Flush(self.take_batch())
                } else {
                    WriterAction::Wait
                }
            },
            WriterEvent::RetentionTick => {
                proof {
                    assert(self.batch@ + Seq::<RollupRecord>::empty() =~= self.batch@);
                    assert(Seq::<RollupRecord>::empty() + self.batch@ =~= self.batch@);
                }
                WriterAction::Retain
            },
            WriterEvent::Cancelled(rest) => {
                let ghost before = self.batch@;
                let mut rest = rest;
                let ghost more = rest@;
                let mut v = self.take_batch();
                v.append(&mut rest);
                proof {
                    assert(v@ =~= before + more);
                    assert(v@ + self.batch@ =~= v@);
                }
                WriterAction::FlushAndExit(v)
            },
            WriterEvent::Closed => {
                let ghost before = self.batch@;
                proof {
                    assert(before + Seq::<RollupRecord>::empty() =~= before);
                }
                WriterAction::FlushAndExit(self.take_batch())
            },
        }
    }

    /// Takes the records out.
    fn take_batch(&mut self) -> (r: Vec<RollupRecord>)
        ensures
            r@ == old(self).batch@,
            final(self).batch@ == Seq::<RollupRecord>::empty(),
    {
        let mut v: Vec<RollupRecord> = Vec::new();
        std::mem::swap(&mut v, &mut self.batch);
        v
    }
}

/// What a writer did: from the records that waited before each event, by each action, to those
/// that wait after it.
pub open spec fn is_run(
    waits: Seq<Seq<RollupRecord>>,
    events: Seq<WriterEvent>,
    actions: Seq<WriterAction>,
) -> bool {
    &&& actions.len() == events.len()
    &&& waits.len() == events.len() + 1
    &&& forall|i: int| #![trigger events[i]]
        0 <= i < events.len() ==> written(actions[i]) + waits[i + 1] == waits[i] + brought(
            events[i],
        )
}

/// All records that events bring, in order.
pub open spec fn all_brought(events: Seq<WriterEvent>) -> Seq<RollupRecord>
    decreases events.len(),
{
    if events.len() == 0 {
        Seq::<RollupRecord>::empty()
    } else {
        all_brought(events.drop_last()) + brought(events.last())
    }
}

/// All records that actions write, in order.
pub open spec fn all_written(actions: Seq<WriterAction>) -> Seq<RollupRecord>
    decreases actions.len(),
{
    if actions.len() == 0 {
        Seq::<RollupRecord>::empty()
    } else {
        all_written(actions.drop_last()) + written(actions.last())
    }
}

/// No record is lost, written twice or put out of order: those that were handed to the writer
/// are those that it wrote, followed by those that still wait.
pub proof fn law_no_record_is_lost(
    waits: Seq<Seq<RollupRecord>>,
    events: Seq<WriterEvent>,
    actions: Seq<WriterAction>,
)
    requires
        is_run(waits, events, actions),
        waits[0] == Seq::<RollupRecord>::empty(),
    ensures
        all_written(actions) + waits.last() == all_brought(events),
    decreases events.len(),
{
    let n = events.len() as int;
    if n == 0 {
        assert(all_written(actions) + waits.last() =~= all_brought(events));
    } else {
        let w = waits.drop_last();
        let e = events.drop_last();
        let a = actions.drop_last();
        assert forall|i: int| #![trigger e[i]] 0 <= i < e.len() implies written(a[i]) + w[i + 1]
            == w[i] + brought(e[i]) by {
            assert(e[i] == events[i]);
        }
        law_no_record_is_lost(w, e, a);
        assert(events[n - 1] == events.last());
        assert(written(actions.last()) + waits.last() == w.last() + brought(events.last()));
        assert(all_written(actions) + waits.last() =~= all_written(a) + (written(actions.last())
            + waits.last()));
        assert(all_written(a) + (w.last() + brought(events.last())) =~= (all_written(a) + w.last())
            + brought(events.last()));
    }
}


// ── Rows ────────────────────────────────────────────────────────────────────

/// A record as the table holds it.
#[derive(Debug)]
pub struct Row {
    pub ts_ms: i64,
    pub qname: String,
    pub qtype: i64,
    pub verdict: String,
    pub reason: String,
    pub client: Option<String>,
}

/// The row that holds a record.
pub open spec fn is_row_of(row: Row, rec: RollupModel) -> bool {
    &&& row.ts_ms == rec.ts_ms as i64
    &&& row.qname@ == rec.qname
    &&& row.qtype == rec.qtype
    &&& row.verdict@ == rec.verdict
    &&& row.reason@ == rec.reason
    &&& crate::text::opt_text(row.client) == match rec.client {
        Some(ip) => Some(ip_text(ip)),
        None => None,
    }
}

/// The row that holds a record.
pub fn row_of(rec: &RollupRecord) -> (r: Row)
    ensures
        is_row_of(r, rec@),
{
    #[verifier::truncate]
    let ts_ms: i64 = rec.ts_ms as i64;
    Row {
        ts_ms,
        qname: rec.qname.clone(),
        qtype: rec.qtype as i64,
        verdict: rec.verdict.clone(),
        reason: rec.reason.clone(),
        client: match rec.client {
            Some(ip) => Some(ip_string(ip)),
            None => None,
        },
    }
}

// ── Opening ─────────────────────────────────────────────────────────────────

/// What is done about the version of the tables.
#[derive(Debug, Clone, Copy, PartialEq, Eq, Structural)]
pub enum SchemaStep {
    /// The tables are new: put the version down.
    PutVersion,
    /// The tables lack the column for clients: add it, and put the version down.
    AddClientColumn,
    /// The tables are current.
    Nothing,
}

/// What is done about the version of the tables.
pub fn schema_step(version: Option<i64>) -> (r: SchemaStep)
    ensures
        r == match version {
            None => SchemaStep::PutVersion,
            Some(v) => if v < SCHEMA_VERSION {
                SchemaStep::AddClientColumn
            } else {
                SchemaStep::Nothing
            },
        },
{
    match version {
        None => SchemaStep::PutVersion,
        Some(v) => if v < SCHEMA_VERSION {
            SchemaStep::AddClientColumn
        } else {
            SchemaStep::Nothing
        },
    }
}

/// What is done so that the database gives space back.
#[derive(Debug, Clone, Copy, PartialEq, Eq, Structural)]
pub enum VacuumStep {
    /// It already does.
    Nothing,
    /// Switch it on.
    SwitchOn,
    /// Switch it on, and rebuild the database once.
    SwitchOnAndRebuild,
}

/// What is done so that the database gives space back: it has to be rebuilt where it already
/// holds something.
pub fn vacuum_step(auto_vacuum_mode: i64, page_count: i64) -> (r: VacuumStep)
    ensures
        r == if auto_vacuum_mode == 2 {
            VacuumStep::Nothing
        } else if page_count > 1 {
            VacuumStep::SwitchOnAndRebuild
        } else {
            VacuumStep::SwitchOn
        },
{
    if auto_vacuum_mode == 2 {
        VacuumStep::Nothing
    } else if page_count > 1 {
        VacuumStep::SwitchOnAndRebuild
    } else {
        VacuumStep::SwitchOn
    }
}

/// The name that a broken database is moved to at a time, in seconds since the Unix epoch.
pub fn corrupt_name(now_secs: u64) -> (r: String)
    ensures
        r@ == "querylog.corrupt."@ + crate::text::decimal(now_secs as nat),
{
    let n = decimal_of(now_secs);
    "querylog.corrupt.".to_owned().concat(n.as_str())
}

/// What is done after an attempt to open the database.
#[derive(Debug, Clone, Copy, PartialEq, Eq, Structural)]
pub enum OpenStep {
    /// Use it.
    Use,
    /// Move the file aside and try again.
    MoveAsideAndRetry,
    /// Go on without it.
    GiveUp,
}

/// What is done after an attempt to open the database: a broken file is moved aside once.
pub fn open_db(opened: bool, second_attempt: bool) -> (r: OpenStep)
    ensures
        r == if opened {
            OpenStep::Use
        } else if second_attempt {
            OpenStep::GiveUp
        } else {
            OpenStep::MoveAsideAndRetry
        },
{
    if opened {
        OpenStep::Use
    } else if second_attempt {
        OpenStep::GiveUp
    } else {
        OpenStep::MoveAsideAndRetry
    }
}

// ── Retention ───────────────────────────────────────────────────────────────

/// A time `span` milliseconds before `now`, or the epoch.
pub open spec fn before_now(now_ms: u64, span: int) -> u64 {
    if now_ms >= span {
        (now_ms - span) as u64
    } else {
        0
    }
}

/// The time before which records are deleted, at a time.
pub fn cutoff_ms_at(retain_days: u32, now_ms: u64) -> (r: i64)
    ensures
        r == before_now(now_ms, retain_days * 86_400_000) as i64,
{
    let retain_ms: u64 = retain_days as u64 * 86_400_000;
    let cutoff: u64 = if now_ms >= retain_ms {
        now_ms - retain_ms
    } else {
        0
    };
    #[verifier::truncate]
    (cutoff as i64)
}

/// The time before which records are deleted.  The clock decides.
pub fn cutoff_ms_for_days(retain_days: u32) -> (r: i64)
    ensures
        exists|now_ms: u64| #[trigger]
            is_wall_ms(now_ms) && r == before_now(now_ms, retain_days * 86_400_000) as i64,
{
    cutoff_ms_at(retain_days, unix_ms_now())
}

/// A record is kept for as many days as it is to be retained, and deleted afterwards.
pub proof fn law_records_are_kept_as_long_as_asked(retain_days: u32, now_ms: u64, ts_ms: u64)
    requires
        now_ms <= i64::MAX,
        ts_ms <= now_ms,
    ensures
        (ts_ms as i64) < (before_now(now_ms, retain_days * 86_400_000) as i64) <==> now_ms - ts_ms
            > retain_days * 86_400_000,
{
}

/// The pages in use.
pub open spec fn live_pages(page_count: i64, freelist_count: i64) -> int {
    if page_count <= freelist_count {
        0
    } else if page_count - freelist_count > i64::MAX {
        i64::MAX as int
    } else {
        page_count - freelist_count
    }
}

/// The bytes of the pages in use.
pub fn occupied_bytes(page_count: i64, freelist_count: i64, page_size: i64) -> (r: u64)
    requires
        0 <= page_size,
        live_pages(page_count, freelist_count) * page_size <= i64::MAX,
    ensures
        r == live_pages(page_count, freelist_count) * page_size,
{
    let live: i64 = if page_count <= freelist_count {
        0
    } else {
        let d: i128 = page_count as i128 - freelist_count as i128;
        if d > i64::MAX as i128 {
            i64::MAX
        } else {
            d as i64
        }
    };
    proof {
        assert(0 <= live * page_size) by (nonlinear_arith)
            requires
                0 <= live,
                0 <= page_size,
        ;
    }
    (live * page_size) as u64
}

/// Whether the oldest records are deleted next: while the database is too large, so long as
/// the last deletion deleted something, and not more often than allowed.
pub fn trim_again(trims_done: u32, last_deleted: Option<u64>, occupied: u64) -> (r: bool)
    ensures
        r == (occupied > SIZE_CAP_BYTES && trims_done < MAX_TRIMS && (trims_done > 0 ==> (
        last_deleted is Some && last_deleted->0 > 0))),
{
    if occupied <= SIZE_CAP_BYTES || trims_done >= MAX_TRIMS {
        return false;
    }
    if trims_done == 0 {
        return true;
    }
    match last_deleted {
        Some(n) => n > 0,
        None => false,
    }
}

// ── Questions ───────────────────────────────────────────────────────────────

/// Totals of a span of time.
#[derive(Debug)]
pub struct HistoryBucket {
    /// When the span starts, in milliseconds since the Unix epoch.
    pub ts: u64,
    /// Queries in it.
    pub total: u64,
    /// Blocked ones.
    pub blocked: u64,
}

/// Totals of a client.
#[derive(Debug)]
pub struct ClientEntry {
    /// Its address.
    pub client: String,
    /// Its queries.
    pub total: u64,
    /// Blocked ones.
    pub blocked: u64,
}

/// How often a name was asked for.
#[derive(Debug)]
pub struct TopEntry {
    /// The name.
    pub qname: String,
    /// How often.
    pub count: u64,
}

/// The start of a window of so many hours before a time.
pub fn since_ms_at(hours: u32, now_ms: u64) -> (r: i64)
    ensures
        r == before_now(now_ms, hours * 3_600_000) as i64,
{
    let span: u64 = hours as u64 * 3_600_000;
    let since: u64 = if now_ms >= span {
        now_ms - span
    } else {
        0
    };
    #[verifier::truncate]
    (since as i64)
}

/// What the history is asked for.
#[derive(Debug, Clone, Copy, PartialEq, Eq, Structural)]
pub struct HistoryQuery {
    /// The length of a bucket, in milliseconds.
    pub bucket_ms: i64,
    /// The time from which on queries count.
    pub since_ms: i64,
}

/// What the history is asked for at a time; nothing where there is no database.
pub fn query_history(db_exists: bool, hours: u32, bucket_secs: u32, now_ms: u64) -> (r: Option<
    HistoryQuery,
>)
    ensures
        r == if db_exists {
            Some(
                HistoryQuery {
                    bucket_ms: (bucket_secs * 1000) as i64,
                    since_ms: before_now(now_ms, hours * 3_600_000) as i64,
                },
            )
        } else {
            None
        },
{
    if !db_exists {
        return None;
    }
    Some(
        HistoryQuery {
            bucket_ms: bucket_secs as i64 * 1000,
            since_ms: since_ms_at(hours, now_ms),
        },
    )
}

/// The time from which on queries of clients count; none where there is no database.
pub fn query_clients(db_exists: bool, hours: u32, now_ms: u64) -> (r: Option<i64>)
    ensures
        r == if db_exists {
            Some(before_now(now_ms, hours * 3_600_000) as i64)
        } else {
            None
        },
{
    if db_exists {
        Some(since_ms_at(hours, now_ms))
    } else {
        None
    }
}

/// What the most frequent names are asked for.
#[derive(Debug, Clone, Copy, PartialEq, Eq, Structural)]
pub struct TopQuery {
    /// How many.
    pub n: i64,
    /// The time from which on queries count.
    pub since_ms: i64,
}

/// What the most frequent names are asked for at a time; nothing where there is no database, or
/// where it holds no names.
pub fn query_top(db_exists: bool, n: u32, hours: u32, mode: QueryLogMode, now_ms: u64) -> (r: Option<
    TopQuery,
>)
    ensures
        r == if db_exists && mode == QueryLogMode::Full {
            Some(
                TopQuery { n: n as i64, since_ms: before_now(now_ms, hours * 3_600_000) as i64 },
            )
        } else {
            None
        },
{
    if mode != QueryLogMode::Full || !db_exists {
        return None;
    }
    Some(TopQuery { n: n as i64, since_ms: since_ms_at(hours, now_ms) })
}

// ── What is stored, and what is asked for ───────────────────────────────────

/// The row of a query tells what was asked, what was done and why, each in its own column: its
/// verdict reads `block` just where the query was blocked, and its reason is the reason that the
/// log gives.
pub proof fn law_rows_tell_what_was_done(
    mode: QueryLogMode,
    rec: &QueryRecord,
    stored: RollupRecord,
    row: Row,
    full: String,
    anonymous: String,
)
    requires
        call_ensures(push_query, (mode, rec), stored),
        call_ensures(row_of, (&stored,), row),
        call_ensures(reason_for_rollup, (&rec.reason,), full),
        call_ensures(reason_for_rollup_anonymous, (&rec.reason,), anonymous),
    ensures
        row.verdict@ == "block"@ <==> rec.verdict == Verdict::Block,
        row.verdict@ == "forward"@ <==> rec.verdict == Verdict::Forward,
        row.verdict@ == "forward_local"@ <==> rec.verdict == Verdict::ForwardLocal,
        row.reason@ == if mode == QueryLogMode::Anonymous {
            anonymous@
        } else {
            full@
        },
        row.qname@ == if mode == QueryLogMode::Anonymous {
            "<redacted>"@
        } else {
            rec.qname@
        },
        row.qtype == rec.qtype,
        rec.ts_unix_ms <= i64::MAX ==> row.ts_ms == rec.ts_unix_ms,
        row.client is Some <==> rec.client is Some,
        row.client matches Some(c) ==> c@ == ip_text(rec.client->0),
{
    reveal_strlit("block");
    reveal_strlit("forward");
    reveal_strlit("forward_local");
    assert("block"@.len() == 5 && "forward"@.len() == 7 && "forward_local"@.len() == 13);
}

/// A stored record and its row agree column by column.
pub proof fn law_rows_hold_their_record(rec: &RollupRecord, row: Row)
    requires
        call_ensures(row_of, (rec,), row),
    ensures
        row.verdict@ == rec.verdict@,
        row.reason@ == rec.reason@,
        row.qname@ == rec.qname@,
        row.qtype == rec.qtype,
        rec.ts_ms <= i64::MAX ==> row.ts_ms == rec.ts_ms,
        rec.client is None <==> row.client is None,
        rec.client matches Some(ip) ==> row.client->0@ == ip_text(ip),
{
}

/// The writer writes as soon as it holds 256 records, at each tick where it holds any, and all it
/// holds when it ends; it deletes old records when it is time to, and does nothing otherwise.
pub proof fn law_when_records_are_written(w: &mut Writer, event: WriterEvent, r: WriterAction)
    requires
        call_ensures(Writer::on_event, (w, event), r),
        old(w).waiting().len() < 256,
    ensures
        r is Flush <==> (event is Record && old(w).waiting().len() == 255) || (event is FlushTick
            && old(w).waiting().len() > 0),
        r is FlushAndExit <==> event is Cancelled || event is Closed,
        r is Retain <==> event is RetentionTick,
        r matches WriterAction::Flush(v) ==> final(w).waiting().len() == 0 && v@ == match event {
            WriterEvent::Record(rec) => old(w).waiting().push(rec),
            _ => old(w).waiting(),
        },
        r matches WriterAction::FlushAndExit(v) ==> final(w).waiting().len() == 0 && v@ == match event {
            WriterEvent::Cancelled(rest) => old(w).waiting() + rest@,
            _ => old(w).waiting(),
        },
        r is Wait || r is Retain ==> final(w).waiting() == match event {
            WriterEvent::Record(rec) => old(w).waiting().push(rec),
            _ => old(w).waiting(),
        },
{
    let before = old(w).waiting();
    let after = final(w).waiting();
    let none = Seq::<RollupRecord>::empty();
    assert(none + after =~= after);
    assert(before + none =~= before);
    match event {
        WriterEvent::Record(rec) => assert(before + seq![rec] =~= before.push(rec)),
        _ => {},
    }
    match r {
        WriterAction::Flush(v) => assert(after.len() == 0 ==> v@ + after =~= v@),
        WriterAction::FlushAndExit(v) => assert(after.len() == 0 ==> v@ + after =~= v@),
        _ => {},
    }
}

/// A record is queued, counted as dropped or passed over: without a log it is passed over, with
/// fewer than 4096 waiting it is queued as it is, and otherwise it is counted as dropped.
pub proof fn law_records_are_queued_or_counted(
    h: &mut RollupHandle,
    rec: RollupRecord,
    waiting: usize,
    r: Option<RollupRecord>,
)
    requires
        call_ensures(RollupHandle::try_send, (h, rec, waiting), r),
        old(h).dropped() < u64::MAX,
    ensures
        r is Some <==> old(h).records() && waiting < 4096,
        r matches Some(x) ==> x == rec,
        final(h).dropped() == old(h).dropped() + if old(h).records() && waiting >= 4096 {
            1int
        } else {
            0int
        },
        final(h).records() == old(h).records(),
{
}

/// A queue is for a log: with the log off nothing is recorded, and nothing was dropped at first.
pub proof fn law_no_log_no_records(mode: QueryLogMode, r: RollupHandle)
    requires
        call_ensures(start_rollup, (mode,), r),
    ensures
        r.records() <==> mode == QueryLogMode::Full || mode == QueryLogMode::Anonymous,
        r.dropped() == 0,
{
}

/// A record is deleted just where it is older than the days for which it is to be kept.
pub proof fn law_old_records_are_deleted(retain_days: u32, now_ms: u64, cutoff: i64, ts_ms: u64)
    requires
        call_ensures(cutoff_ms_at, (retain_days, now_ms), cutoff),
        now_ms <= i64::MAX,
        ts_ms <= now_ms,
    ensures
        ts_ms < cutoff <==> now_ms - ts_ms > retain_days * (24 * 60 * 60 * 1000),
{
}

/// A question about the last hours counts a query just where it came within them, and there is no
/// question without a database.  The most frequent names are asked for only where names are kept.
pub proof fn law_questions_look_back_as_far_as_asked(
    db_exists: bool,
    n: u32,
    hours: u32,
    bucket_secs: u32,
    mode: QueryLogMode,
    now_ms: u64,
    h: Option<HistoryQuery>,
    c: Option<i64>,
    t: Option<TopQuery>,
    ts_ms: u64,
)
    requires
        call_ensures(query_history, (db_exists, hours, bucket_secs, now_ms), h),
        call_ensures(query_clients, (db_exists, hours, now_ms), c),
        call_ensures(query_top, (db_exists, n, hours, mode, now_ms), t),
        now_ms <= i64::MAX,
        ts_ms <= now_ms,
    ensures
        h is Some <==> db_exists,
        c is Some <==> db_exists,
        t is Some <==> db_exists && mode == QueryLogMode::Full,
        h matches Some(q) ==> (ts_ms >= q.since_ms <==> now_ms - ts_ms <= hours * (60 * 60 * 1000)),
        h matches Some(q) ==> q.bucket_ms == 1000 * bucket_secs,
        c matches Some(since) ==> (ts_ms >= since <==> now_ms - ts_ms <= hours * (60 * 60 * 1000)),
        t matches Some(q) ==> (ts_ms >= q.since_ms <==> now_ms - ts_ms <= hours * (60 * 60 * 1000)),
        t matches Some(q) ==> q.n == n,
{
}

/// Tables without a version get one, older ones get the column that they lack, and current ones
/// are left alone.
pub proof fn law_old_tables_are_brought_up_to_date(version: Option<i64>, r: SchemaStep)
    requires
        call_ensures(schema_step, (version,), r),
    ensures
        r == SchemaStep::PutVersion <==> version is None,
        r == SchemaStep::AddClientColumn <==> version is Some && version->0 < 2,
        r == SchemaStep::Nothing <==> version is Some && version->0 >= 2,
{
}

/// A broken database is moved aside once, and given up the second time; one that opens is used.
pub proof fn law_a_broken_database_is_replaced_once(opened: bool, second: bool, r: OpenStep)
    requires
        call_ensures(open_db, (opened, second), r),
    ensures
        r == OpenStep::Use <==> opened,
        r == OpenStep::MoveAsideAndRetry <==> !opened && !second,
        r == OpenStep::GiveUp <==> !opened && second,
{
}

/// Space is given back where that is switched on already; a database that holds something has to
/// be rebuilt for it.
pub proof fn law_a_filled_database_is_rebuilt(mode: i64, pages: i64, r: VacuumStep)
    requires
        call_ensures(vacuum_step, (mode, pages), r),
    ensures
        r == VacuumStep::Nothing <==> mode == 2,
        r == VacuumStep::SwitchOnAndRebuild <==> mode != 2 && pages > 1,
        r == VacuumStep::SwitchOn <==> mode != 2 && pages <= 1,
{
}

/// The bytes in use are those of the pages that are not free.
pub proof fn law_free_pages_do_not_count(pages: i64, free: i64, size: i64, r: u64)
    requires
        call_ensures(occupied_bytes, (pages, free, size), r),
        0 <= free <= pages,
        0 < size,
        (pages - free) * size <= i64::MAX,
    ensures
        r == pages * size - free * size,
{
    assert((pages - free) * size == pages * size - free * size) by (nonlinear_arith);
}

/// The oldest records go while there are more than a hundred mebibytes in use, a hundred times at
/// most, and no longer than there is something to delete.
pub proof fn law_a_large_database_is_trimmed(done: u32, last: Option<u64>, occupied: u64, r: bool)
    requires
        call_ensures(trim_again, (done, last, occupied), r),
    ensures
        r ==> occupied > 100 * 1024 * 1024 && done < 100,
        r && done > 0 ==> last is Some && last->0 > 0,
        occupied > 100 * 1024 * 1024 && done == 0 ==> r,
        occupied > 100 * 1024 * 1024 && done < 100 && last is Some && last->0 > 0 ==> r,
{
}

/// A broken database is moved to a name that tells when.
pub proof fn law_broken_databases_are_dated(now_secs: u64, r: String)
    requires
        call_ensures(corrupt_name, (now_secs,), r),
    ensures
        r@ == "querylog.corrupt."@ + crate::text::decimal(now_secs as nat),
{
}

/// A window of hours holds what came within them, the clock's or a given time's; a drop is
/// counted, and the counters are shown as they are.
pub proof fn law_windows_and_counters(
    hours: u32,
    now_ms: u64,
    since: i64,
    ts_ms: u64,
    d: &mut RollupDrops,
    h: &RollupHandle,
    recording: bool,
    dropped: u64,
)
    requires
        call_ensures(since_ms_at, (hours, now_ms), since),
        now_ms <= i64::MAX,
        ts_ms <= now_ms,
        call_ensures(RollupDrops::inc, (d,), ()),
        old(d).total() < u64::MAX,
        call_ensures(RollupHandle::is_recording, (h,), recording),
        call_ensures(RollupHandle::drops, (h,), dropped),
    ensures
        ts_ms >= since <==> now_ms - ts_ms <= hours * (60 * 60 * 1000),
        final(d).total() == old(d).total() + 1,
        recording == h.records(),
        dropped == h.dropped(),
{
}

/// The clock's time less the days to be retained is the time before which records go.
pub proof fn law_the_cutoff_is_read_off_the_clock(days: u32, r: i64) -> (now_ms: u64)
    requires
        call_ensures(cutoff_ms_for_days, (days,), r),
    ensures
        is_wall_ms(now_ms),
        now_ms <= i64::MAX && now_ms >= days * (24 * 60 * 60 * 1000) ==> r == now_ms - days * (24 * 60
            * 60 * 1000),
        now_ms < days * (24 * 60 * 60 * 1000) ==> r == 0,
{
    choose|now_ms: u64| #[trigger]
        is_wall_ms(now_ms) && r == before_now(now_ms, days * 86_400_000) as i64
}

}
