//! Scan bookkeeping: the status snapshot, progress, the controller's state,
//! the tallies of a full walk, and the comparison of an incremental scan.

use vstd::prelude::*;
use crate::error::{err_at, AppError, ErrorCode};
use crate::models::{clone_opt_string, opt_string_view};
use crate::paths::{depth_below, depth_from_root};
use crate::text::{chars_of, eq_chars};

verus! {

/// Rows written to the index in one transaction.
pub const BATCH_SIZE: usize = 500;

/// Progress reported while a scan runs.
#[derive(Debug, Clone)]
pub struct ScanProgressEvent {
    pub scan_run_id: String,
    pub percent: u32,
    pub scanned_files: u64,
    pub skipped_files: u64,
}

/// Reported once a scan has ended.
#[derive(Debug, Clone)]
pub struct ScanCompletedEvent {
    pub scan_run_id: String,
    pub status: String,
    pub scanned_files: u64,
    pub duration_ms: u64,
}

/// What the status query shows of the current or last scan.
#[derive(Debug)]
pub struct ScanSnapshot {
    pub scan_run_id: Option<String>,
    pub status: String,
    pub progress_percent: u32,
    pub scanned_files: u64,
    pub skipped_files: u64,
    pub last_completed_at: Option<String>,
}

impl Default for ScanSnapshot {
    fn default() -> (s: Self)
        ensures
            s.scan_run_id is None,
            s.status@ == "idle"@,
            s.progress_percent == 0,
            s.scanned_files == 0,
            s.skipped_files == 0,
            s.last_completed_at is None,
    {
        ScanSnapshot {
            scan_run_id: None,
            status: "idle".to_owned(),
            progress_percent: 0,
            scanned_files: 0,
            skipped_files: 0,
            last_completed_at: None,
        }
    }
}

impl ScanSnapshot {
    /// A copy of the snapshot.
    pub fn snapshot_copy(&self) -> (s: Self)
        ensures
            opt_string_view(s.scan_run_id) == opt_string_view(self.scan_run_id),
            s.status@ == self.status@,
            s.progress_percent == self.progress_percent,
            s.scanned_files == self.scanned_files,
            s.skipped_files == self.skipped_files,
            opt_string_view(s.last_completed_at) == opt_string_view(self.last_completed_at),
    {
        ScanSnapshot {
            scan_run_id: clone_opt_string(&self.scan_run_id),
            status: self.status.clone(),
            progress_percent: self.progress_percent,
            scanned_files: self.scanned_files,
            skipped_files: self.skipped_files,
            last_completed_at: clone_opt_string(&self.last_completed_at),
        }
    }

    /// A new run starts: its id, `running`, and zero progress and counts.
    pub fn start_run(&mut self, scan_run_id: &str)
        ensures
            opt_string_view(final(self).scan_run_id) == Some(scan_run_id@),
            final(self).status@ == "running"@,
            final(self).progress_percent == 0,
            final(self).scanned_files == 0,
            final(self).skipped_files == 0,
            opt_string_view(final(self).last_completed_at) == opt_string_view(old(self).last_completed_at),
    {
        self.scan_run_id = Some(scan_run_id.to_owned());
        self.status = "running".to_owned();
        self.progress_percent = 0;
        self.scanned_files = 0;
        self.skipped_files = 0;
    }

    /// A batch was written: the progress and counts are brought up to date.
    pub fn record_progress(&mut self, scanned_files: u64, skipped_files: u64)
        ensures
            final(self).progress_percent as int == progress_spec(scanned_files as int),
            final(self).scanned_files == scanned_files,
            final(self).skipped_files == skipped_files,
            final(self).status@ == old(self).status@,
            opt_string_view(final(self).scan_run_id) == opt_string_view(old(self).scan_run_id),
            opt_string_view(final(self).last_completed_at) == opt_string_view(old(self).last_completed_at),
    {
        self.progress_percent = progress_percent(scanned_files);
        self.scanned_files = scanned_files;
        self.skipped_files = skipped_files;
    }

    /// The scan ended with `status`: a completed scan shows 100% and records
    /// when it finished; any other end keeps the progress reached.
    pub fn record_finish(&mut self, status: &str, scanned_files: u64, skipped_files: u64, finished_at: &str)
        ensures
            final(self).status@ == status@,
            final(self).progress_percent == if status@ == "completed"@ { 100 } else { old(self).progress_percent },
            final(self).scanned_files == scanned_files,
            final(self).skipped_files == skipped_files,
            opt_string_view(final(self).last_completed_at) == if status@ == "completed"@ {
                Some(finished_at@)
            } else {
                opt_string_view(old(self).last_completed_at)
            },
            opt_string_view(final(self).scan_run_id) == opt_string_view(old(self).scan_run_id),
    {
        let completed = eq_chars(&chars_of(status), &chars_of("completed"));
        self.status = status.to_owned();
        if completed {
            self.progress_percent = 100;
            self.last_completed_at = Some(finished_at.to_owned());
        }
        self.scanned_files = scanned_files;
        self.skipped_files = skipped_files;
    }
}

/// The progress shown for `n` scanned files: 0 for none, otherwise 99 times
/// the share of 10 000 files reached (counting at most 9 900), rounded half up.
pub open spec fn progress_spec(n: int) -> int {
    if n == 0 {
        0
    } else {
        let m = if n < 9_900 { n } else { 9_900 };
        (m * 99 * 2 + 10_000) / 20_000
    }
}

pub fn progress_percent(scanned_files: u64) -> (p: u32)
    ensures
        p as int == progress_spec(scanned_files as int),
{
    if scanned_files == 0 {
        return 0;
    }
    let m: u64 = if scanned_files < 9_900 { scanned_files } else { 9_900 };
    ((m * 99 * 2 + 10_000) / 20_000) as u32
}

/// Progress never exceeds 99 before a scan completes, and never goes down
/// as more files are scanned.
pub proof fn law_progress_bounded_and_monotone(a: int, b: int)
    requires
        0 <= a <= b,
    ensures
        0 <= progress_spec(a) <= 99,
        progress_spec(a) <= progress_spec(b),
{
    if a > 0 {
        let ma = if a < 9_900 { a } else { 9_900 };
        let mb = if b < 9_900 { b } else { 9_900 };
        assert(ma <= mb);
        assert((ma * 99 * 2 + 10_000) / 20_000 <= (mb * 99 * 2 + 10_000) / 20_000) by (nonlinear_arith)
            requires
                ma <= mb,
        ;
        assert((ma * 99 * 2 + 10_000) / 20_000 <= 99) by (nonlinear_arith)
            requires
                ma <= 9_900,
                ma >= 0,
        ;
    }
}


/// The controller's state: whether a scan runs, whether it was asked to
/// pause or to stop, and the snapshot it shows.
#[derive(Debug)]
pub struct ScanSession {
    pub running: bool,
    pub pause: bool,
    pub cancel: bool,
    pub snapshot: ScanSnapshot,
}

/// The controller's state as plain values.
pub struct SessionView {
    pub running: bool,
    pub pause: bool,
    pub cancel: bool,
    pub status: Seq<char>,
    pub scan_run_id: Option<Seq<char>>,
    pub progress_percent: u32,
    pub scanned_files: u64,
    pub skipped_files: u64,
    pub last_completed_at: Option<Seq<char>>,
}

impl View for ScanSession {
    type V = SessionView;

    open spec fn view(&self) -> SessionView {
        SessionView {
            running: self.running,
            pause: self.pause,
            cancel: self.cancel,
            status: self.snapshot.status@,
            scan_run_id: opt_string_view(self.snapshot.scan_run_id),
            progress_percent: self.snapshot.progress_percent,
            scanned_files: self.snapshot.scanned_files,
            skipped_files: self.snapshot.skipped_files,
            last_completed_at: opt_string_view(self.snapshot.last_completed_at),
        }
    }
}

/// A running scan after a pause: the pause is asked and shown.
pub open spec fn paused_view(v: SessionView) -> SessionView {
    SessionView { pause: true, status: "paused"@, ..v }
}

/// A paused scan after a resume: the pause is lifted and the scan shown running.
pub open spec fn resumed_view(v: SessionView) -> SessionView {
    SessionView { pause: false, status: "running"@, ..v }
}

/// A running scan after a cancel: the stop is asked and any pause lifted.
pub open spec fn cancelled_view(v: SessionView) -> SessionView {
    SessionView { cancel: true, pause: false, ..v }
}

/// The worker waits: a pause was asked and no stop was.
pub open spec fn waits(v: SessionView) -> bool {
    v.pause && !v.cancel
}

impl ScanSession {
    /// No scan has run yet.
    pub fn new() -> (s: Self)
        ensures
            !s.running,
            !s.pause,
            !s.cancel,
            s.snapshot.status@ == "idle"@,
            s.snapshot.scan_run_id is None,
            s.snapshot.progress_percent == 0,
            s.snapshot.scanned_files == 0,
            s.snapshot.skipped_files == 0,
            s.snapshot.last_completed_at is None,
    {
        ScanSession { running: false, pause: false, cancel: false, snapshot: ScanSnapshot::default() }
    }

    /// A copy of the snapshot.
    pub fn snapshot(&self) -> (s: ScanSnapshot)
        ensures
            s.status@ == self.snapshot.status@,
            s.progress_percent == self.snapshot.progress_percent,
            s.scanned_files == self.snapshot.scanned_files,
            s.skipped_files == self.snapshot.skipped_files,
            opt_string_view(s.scan_run_id) == opt_string_view(self.snapshot.scan_run_id),
            opt_string_view(s.last_completed_at) == opt_string_view(self.snapshot.last_completed_at),
    {
        self.snapshot.snapshot_copy()
    }

    /// Claims the scanner for a full scan: refused while a scan runs,
    /// otherwise it now runs with no pause or stop requested.
    pub fn claim_full(&mut self) -> (r: Result<(), AppError>)
        ensures
            old(self).running ==> (r matches Err(e) && e.code == ErrorCode::ScanAlreadyRunning
                && e.message@ == "扫描进行中，请稍候"@ && (e.target matches Some(t) && t@ == "scan"@) && *final(self) == *old(self)),
            !old(self).running ==> r is Ok && final(self).running && !final(self).pause
                && !final(self).cancel && final(self).snapshot == old(self).snapshot,
    {
        if self.running {
            return Err(err_at(ErrorCode::ScanAlreadyRunning, "扫描进行中，请稍候", "scan"));
        }
        self.running = true;
        self.pause = false;
        self.cancel = false;
        Ok(())
    }

    /// Claims the scanner for an incremental scan, which needs a completed
    /// full scan: refused while a scan runs, refused (leaving the scanner
    /// free) before the index is ready, otherwise as for a full scan.
    pub fn claim_incremental(&mut self, index_ready: bool) -> (r: Result<(), AppError>)
        ensures
            old(self).running ==> (r matches Err(e) && e.code == ErrorCode::ScanAlreadyRunning
                && e.message@ == "扫描进行中，请稍候"@ && (e.target matches Some(t) && t@ == "scan"@) && *final(self) == *old(self)),
            !old(self).running && !index_ready ==> (r matches Err(e) && e.code == ErrorCode::IndexNotReady
                && e.message@ == "请先完成一次全盘扫描，再执行增量扫描"@ && (e.target matches Some(t) && t@ == "scan"@) && *final(self) == *old(self)),
            !old(self).running && index_ready ==> r is Ok && final(self).running && !final(self).pause
                && !final(self).cancel && final(self).snapshot == old(self).snapshot,
    {
        if self.running {
            return Err(err_at(ErrorCode::ScanAlreadyRunning, "扫描进行中，请稍候", "scan"));
        }
        if !index_ready {
            return Err(err_at(ErrorCode::IndexNotReady, "请先完成一次全盘扫描，再执行增量扫描", "scan"));
        }
        self.running = true;
        self.pause = false;
        self.cancel = false;
        Ok(())
    }

    /// The run with this id has been recorded and starts.
    pub fn begin_run(&mut self, scan_run_id: &str)
        ensures
            final(self).running == old(self).running,
            final(self).pause == old(self).pause,
            final(self).cancel == old(self).cancel,
            opt_string_view(final(self).snapshot.scan_run_id) == Some(scan_run_id@),
            final(self).snapshot.status@ == "running"@,
            final(self).snapshot.progress_percent == 0,
            final(self).snapshot.scanned_files == 0,
            final(self).snapshot.skipped_files == 0,
            opt_string_view(final(self).snapshot.last_completed_at) == opt_string_view(old(self).snapshot.last_completed_at),
    {
        self.snapshot.start_run(scan_run_id);
    }

    /// The worker has stopped; the scanner is free again.
    pub fn release(&mut self)
        ensures
            !final(self).running,
            final(self).pause == old(self).pause,
            final(self).cancel == old(self).cancel,
            final(self).snapshot == old(self).snapshot,
    {
        self.running = false;
    }

    fn ensure_active(&self) -> (r: Result<(), AppError>)
        ensures
            self.running <==> r is Ok,
            r matches Err(e) ==> e.code == ErrorCode::BadArgument,
    {
        if !self.running {
            return Err(err_at(ErrorCode::BadArgument, "当前没有进行中的扫描", "scan"));
        }
        Ok(())
    }

    /// Asks the running scan to pause.
    pub fn pause(&mut self) -> (r: Result<String, AppError>)
        ensures
            !old(self).running ==> (r matches Err(e) && e.code == ErrorCode::BadArgument && *final(self) == *old(self)),
            old(self).running ==> (r matches Ok(s) && s@ == "paused"@ && final(self)@ == paused_view(old(self)@)),
    {
        self.ensure_active()?;
        self.pause = true;
        self.snapshot.status = "paused".to_owned();
        Ok("paused".to_owned())
    }

    /// Lets a paused scan go on; refused when no scan runs or it is not paused.
    pub fn resume(&mut self) -> (r: Result<String, AppError>)
        ensures
            !old(self).running ==> (r matches Err(e) && e.code == ErrorCode::BadArgument && *final(self) == *old(self)),
            old(self).running && old(self).snapshot.status@ != "paused"@ ==> (r matches Err(e)
                && e.code == ErrorCode::BadArgument && *final(self) == *old(self)),
            old(self).running && old(self).snapshot.status@ == "paused"@ ==> (r matches Ok(s) && s@ == "running"@
                && final(self)@ == resumed_view(old(self)@)),
    {
        self.ensure_active()?;
        if !eq_chars(&chars_of(self.snapshot.status.as_str()), &chars_of("paused")) {
            return Err(err_at(ErrorCode::BadArgument, "当前扫描未处于暂停状态", "scan"));
        }
        self.pause = false;
        self.snapshot.status = "running".to_owned();
        Ok("running".to_owned())
    }

    /// Asks the running scan to stop; a paused scan is let go so that it can.
    pub fn cancel(&mut self) -> (r: Result<String, AppError>)
        ensures
            !old(self).running ==> (r matches Err(e) && e.code == ErrorCode::BadArgument && *final(self) == *old(self)),
            old(self).running ==> (r matches Ok(s) && s@ == "cancelled"@ && final(self)@ == cancelled_view(old(self)@)
                && final(self).snapshot == old(self).snapshot),
    {
        self.ensure_active()?;
        self.cancel = true;
        self.pause = false;
        Ok("cancelled".to_owned())
    }

    /// The worker should wait: a pause was asked and no stop was.
    pub fn should_wait(&self) -> (b: bool)
        ensures
            b == waits(self@),
    {
        self.pause && !self.cancel
    }
}



/// Pausing a running scan and resuming it gives back the state it had.
pub proof fn law_pause_then_resume(v: SessionView)
    requires
        v.running,
        !v.pause,
        v.status == "running"@,
    ensures
        paused_view(v).running && paused_view(v).status == "paused"@,
        resumed_view(paused_view(v)) == v,
{
}

/// A paused worker waits until a resume or a cancel; after a cancel it
/// never waits, and a later pause cannot make it wait again.
pub proof fn law_cancel_ends_waiting(v: SessionView)
    ensures
        waits(paused_view(v)) == !v.cancel,
        !waits(cancelled_view(v)),
        !waits(paused_view(cancelled_view(v))),
        !waits(resumed_view(v)),
{
}

/// What the walker reports for one entry.
pub enum WalkEvent {
    /// The scanned root folder itself.
    RootDir,
    /// An entry whose metadata could be read.
    Entry { is_dir: bool },
    /// An entry whose metadata could not be read.
    MetadataError,
    /// The walker could not read a folder.
    WalkError,
}

/// What to do with a walk event.
#[derive(Debug, PartialEq, Eq, Structural)]
pub enum WalkAction {
    /// Nothing.
    Ignore,
    /// Record the entry as skipped.
    RecordSkip,
    /// Put the entry's row in the batch; when `flush` is set, write the batch
    /// and report progress.
    Buffer { flush: bool },
}

/// The counts of a walk and the number of rows waiting in the batch.
#[derive(Debug)]
pub struct ScanTally {
    pub scanned_files: u64,
    pub skipped_files: u64,
    pub batch_len: usize,
}

/// One walk event applied to the tallies: the scanned root is ignored, an
/// unreadable entry or folder is counted as skipped, any other entry is
/// buffered (and counted when it is a file), and a full batch is written.
pub open spec fn walk_step(before: ScanTally, event: WalkEvent, after: ScanTally, a: WalkAction) -> bool {
    match event {
        WalkEvent::RootDir => a == WalkAction::Ignore && after == before,
        WalkEvent::MetadataError | WalkEvent::WalkError => a == WalkAction::RecordSkip
            && after.skipped_files == before.skipped_files + 1
            && after.scanned_files == before.scanned_files
            && after.batch_len == before.batch_len,
        WalkEvent::Entry { is_dir } => {
            &&& after.skipped_files == before.skipped_files
            &&& after.scanned_files == before.scanned_files + if is_dir { 0int } else { 1int }
            &&& if before.batch_len + 1 >= BATCH_SIZE {
                a == (WalkAction::Buffer { flush: true }) && after.batch_len == 0
            } else {
                a == (WalkAction::Buffer { flush: false }) && after.batch_len == before.batch_len + 1
            }
        },
    }
}

impl ScanTally {
    pub fn new() -> (t: Self)
        ensures
            t.scanned_files == 0,
            t.skipped_files == 0,
            t.batch_len == 0,
    {
        ScanTally { scanned_files: 0, skipped_files: 0, batch_len: 0 }
    }

    /// One event of the walk: files are counted, unreadable entries are
    /// skipped, and every `BATCH_SIZE` buffered rows the batch is written.
    pub fn step(&mut self, event: WalkEvent) -> (a: WalkAction)
        requires
            old(self).scanned_files < u64::MAX,
            old(self).skipped_files < u64::MAX,
            old(self).batch_len < BATCH_SIZE,
        ensures
            final(self).batch_len < BATCH_SIZE,
            walk_step(*old(self), event, *final(self), a),
    {
        match event {
            WalkEvent::RootDir => WalkAction::Ignore,
            WalkEvent::MetadataError | WalkEvent::WalkError => {
                self.skipped_files = self.skipped_files + 1;
                WalkAction::RecordSkip
            },
            WalkEvent::Entry { is_dir } => {
                if !is_dir {
                    self.scanned_files = self.scanned_files + 1;
                }
                if self.batch_len + 1 >= BATCH_SIZE {
                    self.batch_len = 0;
                    WalkAction::Buffer { flush: true }
                } else {
                    self.batch_len = self.batch_len + 1;
                    WalkAction::Buffer { flush: false }
                }
            },
        }
    }

    /// Rows still wait in the batch and must be written before finishing.
    pub fn needs_final_flush(&self) -> (b: bool)
        ensures
            b == (self.batch_len > 0),
    {
        self.batch_len > 0
    }
}

/// How many of the first `n` walk events are files read.
pub open spec fn files_in(events: Seq<WalkEvent>, n: int) -> nat
    decreases n,
{
    if n <= 0 {
        0
    } else {
        files_in(events, n - 1) + if events[n - 1] matches WalkEvent::Entry { is_dir: false } { 1nat } else { 0nat }
    }
}

/// How many of the first `n` walk events are entries or folders that could not be read.
pub open spec fn failures_in(events: Seq<WalkEvent>, n: int) -> nat
    decreases n,
{
    if n <= 0 {
        0
    } else {
        failures_in(events, n - 1) + if events[n - 1] is MetadataError || events[n - 1] is WalkError {
            1nat
        } else {
            0nat
        }
    }
}

/// How many of the first `n` walk events are entries whose row is buffered.
pub open spec fn entries_in(events: Seq<WalkEvent>, n: int) -> nat
    decreases n,
{
    if n <= 0 { 0 } else { entries_in(events, n - 1) + if events[n - 1] is Entry { 1nat } else { 0nat } }
}

/// How many of the first `n` walk actions write the batch.
pub open spec fn flushes_in(actions: Seq<WalkAction>, n: int) -> nat
    decreases n,
{
    if n <= 0 {
        0
    } else {
        flushes_in(actions, n - 1) + if actions[n - 1] == (WalkAction::Buffer { flush: true }) { 1nat } else { 0nat }
    }
}

/// `tallies[i + 1]` and `actions[i]` follow from `tallies[i]` and `events[i]`,
/// starting from nothing counted.
pub open spec fn walk_run(events: Seq<WalkEvent>, tallies: Seq<ScanTally>, actions: Seq<WalkAction>) -> bool {
    &&& tallies.len() == events.len() + 1
    &&& actions.len() == events.len()
    &&& tallies[0].scanned_files == 0 && tallies[0].skipped_files == 0 && tallies[0].batch_len == 0
    &&& forall|i: int| 0 <= i < events.len() ==> #[trigger] walk_step(tallies[i], events[i], tallies[i + 1], actions[i])
}

proof fn lemma_walk_prefix(events: Seq<WalkEvent>, tallies: Seq<ScanTally>, actions: Seq<WalkAction>, k: int)
    requires
        walk_run(events, tallies, actions),
        0 <= k <= events.len(),
    ensures
        tallies[k].scanned_files == files_in(events, k),
        tallies[k].skipped_files == failures_in(events, k),
        tallies[k].batch_len < BATCH_SIZE,
        entries_in(events, k) == flushes_in(actions, k) * BATCH_SIZE + tallies[k].batch_len,
    decreases k,
{
    if k > 0 {
        let j = k - 1;
        lemma_walk_prefix(events, tallies, actions, j);
        assert(walk_step(tallies[j], events[j], tallies[j + 1], actions[j]));
        assert(flushes_in(actions, j) * BATCH_SIZE + BATCH_SIZE == (flushes_in(actions, j) + 1) * BATCH_SIZE)
            by (nonlinear_arith);
    }
}

/// A walk's tallies count every file read and every entry or folder that
/// could not be read, and lose no buffered row: the rows buffered are
/// `BATCH_SIZE` for each batch written plus those still waiting.
pub proof fn law_walk_tallies(events: Seq<WalkEvent>, tallies: Seq<ScanTally>, actions: Seq<WalkAction>)
    requires
        walk_run(events, tallies, actions),
    ensures
        tallies.last().scanned_files == files_in(events, events.len() as int),
        tallies.last().skipped_files == failures_in(events, events.len() as int),
        entries_in(events, events.len() as int) == flushes_in(actions, events.len() as int) * BATCH_SIZE
            + tallies.last().batch_len,
{
    lemma_walk_prefix(events, tallies, actions, events.len() as int);
}

/// The folders an incremental scan compares: the root first, then every
/// indexed folder one or two levels below it, once each, in index order.
pub open spec fn shallow_dirs_spec(root: Seq<char>, dirs: Seq<String>, n: int) -> Seq<Seq<char>>
    decreases n,
{
    if n <= 0 {
        seq![root]
    } else {
        let prev = shallow_dirs_spec(root, dirs, n - 1);
        let p = dirs[n - 1]@;
        let d = depth_below(p, root);
        if 1 <= d <= 2 && !prev.contains(p) { prev.push(p) } else { prev }
    }
}

/// An incremental scan compares only the root and the indexed folders one
/// or two levels below it: a folder three or more levels down is never
/// compared, so the rows of the files directly inside it are left as the
/// last walk wrote them.
pub proof fn law_deep_folders_not_compared(root: Seq<char>, dirs: Seq<String>, n: int, p: Seq<char>)
    requires
        0 <= n <= dirs.len(),
        shallow_dirs_spec(root, dirs, n).contains(p),
    ensures
        p == root || 1 <= depth_below(p, root) <= 2,
    decreases n,
{
    if n > 0 {
        let prev = shallow_dirs_spec(root, dirs, n - 1);
        let q = dirs[n - 1]@;
        if 1 <= depth_below(q, root) <= 2 && !prev.contains(q) {
            if p != q {
                let i = choose|i: int| 0 <= i < prev.len() + 1 && prev.push(q)[i] == p;
                assert(prev[i] == p);
                law_deep_folders_not_compared(root, dirs, n - 1, p);
            }
        } else {
            law_deep_folders_not_compared(root, dirs, n - 1, p);
        }
    } else {
        assert(seq![root][0] == root);
    }
}

pub open spec fn string_views(v: Seq<String>) -> Seq<Seq<char>> {
    v.map_values(|s: String| s@)
}

fn contains_string(v: &Vec<String>, p: &String) -> (b: bool)
    ensures
        b == string_views(v@).contains(p@),
{
    let pc = chars_of(p.as_str());
    for i in 0..v.len()
        invariant
            pc@ == p@,
            forall|j: int| 0 <= j < i ==> v@[j]@ != p@,
    {
        if eq_chars(&chars_of(v[i].as_str()), &pc) {
            assert(string_views(v@)[i as int] == p@);
            return true;
        }
    }
    false
}

/// The folders an incremental scan compares, from the root (already in
/// normalized form) and the paths of the indexed folders.
pub fn collect_shallow_dirs(scan_root: &str, dir_paths: &Vec<String>) -> (r: Vec<String>)
    ensures
        string_views(r@) == shallow_dirs_spec(scan_root@, dir_paths@, dir_paths.len() as int),
{
    let mut dirs: Vec<String> = Vec::new();
    dirs.push(scan_root.to_owned());
    assert(string_views(dirs@) =~= seq![scan_root@]);
    for k in 0..dir_paths.len()
        invariant
            string_views(dirs@) == shallow_dirs_spec(scan_root@, dir_paths@, k as int),
    {
        let path = &dir_paths[k];
        let depth = depth_from_root(path.as_str(), scan_root);
        if 1 <= depth && depth <= 2 && !contains_string(&dirs, path) {
            dirs.push(path.clone());
            assert(string_views(dirs@) =~= shallow_dirs_spec(scan_root@, dir_paths@, k as int).push(path@));
        }
    }
    dirs
}

/// A child of a folder as the file system shows it.
#[derive(Debug)]
pub struct FsChild {
    pub path: String,
    pub is_dir: bool,
    pub size_bytes: u64,
    pub modified_at: Option<String>,
}

/// A child of a folder as the index records it.
#[derive(Debug)]
pub struct DbChild {
    pub path: String,
    pub is_dir: bool,
    pub size_bytes: u64,
    pub modified_at: Option<String>,
}

/// What an incremental scan does with a child found on disk.
#[derive(Debug, PartialEq, Eq, Structural, Clone, Copy)]
pub enum ChildAction {
    /// The index already holds it as it is.
    Unchanged,
    /// Write the file's row (it is new or changed).
    Upsert,
    /// Walk the new folder afresh.
    Rewalk,
    /// Drop what the index holds under the path, then write the file's row.
    ReplaceWithFile,
    /// Drop what the index holds under the path, then walk the folder afresh.
    ReplaceWithDir,
}

/// The changes in one folder: an action per child on disk (in the order
/// given) and the indexed paths that are gone from disk.
#[derive(Debug)]
pub struct ChildDiff {
    pub actions: Vec<ChildAction>,
    pub stale: Vec<String>,
}

/// The last indexed child with the given path, as a map keyed by path keeps it.
pub open spec fn db_lookup(db: Seq<DbChild>, p: Seq<char>) -> Option<int> {
    if exists|j: int| 0 <= j < db.len() && #[trigger] db[j].path@ == p {
        Some(choose|j: int| 0 <= j < db.len() && #[trigger] db[j].path@ == p
            && forall|k: int| j < k < db.len() ==> #[trigger] db[k].path@ != p)
    } else {
        None
    }
}

/// The child on disk is the last with its path (a map keyed by path keeps it).
pub open spec fn last_fs_with_path(fs: Seq<FsChild>, i: int) -> bool {
    forall|k: int| i < k < fs.len() ==> #[trigger] fs[k].path@ != fs[i].path@
}

/// The action for a child on disk, given the indexed child with its path:
/// a new folder is walked, a new file written; a child that changed between
/// file and folder is dropped first; a file whose size or modification time
/// changed is written again; anything else is left as it is.
pub open spec fn child_action_spec(c: FsChild, d: Option<DbChild>) -> ChildAction {
    match d {
        None => if c.is_dir { ChildAction::Rewalk } else { ChildAction::Upsert },
        Some(d) => if c.is_dir != d.is_dir {
            if c.is_dir { ChildAction::ReplaceWithDir } else { ChildAction::ReplaceWithFile }
        } else if !c.is_dir && (c.size_bytes != d.size_bytes || opt_string_view(c.modified_at)
            != opt_string_view(d.modified_at)) {
            ChildAction::Upsert
        } else {
            ChildAction::Unchanged
        },
    }
}

/// The indexed paths (of the first `n` indexed children) that no child on
/// disk has, in index order.
pub open spec fn stale_spec(fs: Seq<FsChild>, db: Seq<DbChild>, n: int) -> Seq<Seq<char>>
    decreases n,
{
    if n <= 0 {
        Seq::empty()
    } else {
        let prev = stale_spec(fs, db, n - 1);
        if exists|i: int| 0 <= i < fs.len() && #[trigger] fs[i].path@ == db[n - 1].path@ {
            prev
        } else {
            prev.push(db[n - 1].path@)
        }
    }
}

fn same_opt_string(a: &Option<String>, b: &Option<String>) -> (r: bool)
    ensures
        r == (opt_string_view(*a) == opt_string_view(*b)),
{
    match (a, b) {
        (Some(x), Some(y)) => eq_chars(&chars_of(x.as_str()), &chars_of(y.as_str())),
        (None, None) => true,
        _ => false,
    }
}

fn find_db_child(db: &Vec<DbChild>, p: &String) -> (r: Option<usize>)
    ensures
        opt_index_of(r) == db_lookup(db@, p@),
        r matches Some(j) ==> j < db.len(),
{
    let pc = chars_of(p.as_str());
    let mut j: usize = db.len();
    while j > 0
        invariant
            j <= db.len(),
            pc@ == p@,
            forall|k: int| j <= k < db.len() ==> #[trigger] db@[k].path@ != p@,
        decreases j,
    {
        j -= 1;
        if eq_chars(&chars_of(db[j].path.as_str()), &pc) {
            proof {
                let c = choose|c: int| 0 <= c < db@.len() && #[trigger] db@[c].path@ == p@
                    && forall|k: int| c < k < db@.len() ==> #[trigger] db@[k].path@ != p@;
                assert(db@[j as int].path@ == p@);
                if c < j {
                    assert(db@[j as int].path@ != p@);
                } else if c > j {
                }
            }
            return Some(j);
        }
    }
    None
}

pub open spec fn opt_index_of(r: Option<usize>) -> Option<int> {
    match r {
        Some(i) => Some(i as int),
        None => None,
    }
}

fn has_fs_child(fs: &Vec<FsChild>, p: &String) -> (b: bool)
    ensures
        b == exists|i: int| 0 <= i < fs.len() && #[trigger] fs@[i].path@ == p@,
{
    let pc = chars_of(p.as_str());
    for i in 0..fs.len()
        invariant
            pc@ == p@,
            forall|k: int| 0 <= k < i ==> #[trigger] fs@[k].path@ != p@,
    {
        if eq_chars(&chars_of(fs[i].path.as_str()), &pc) {
            return true;
        }
    }
    false
}

/// The indexed child with a path, if any (the last one, as a map keyed by path keeps it).
pub open spec fn db_child_at(db: Seq<DbChild>, p: Seq<char>) -> Option<DbChild> {
    match db_lookup(db, p) {
        Some(j) => Some(db[j]),
        None => None,
    }
}

/// `actions` and `stale` are the comparison of `fs` with `db`: one action
/// per child on disk (the last child with a path gets the action its
/// indexed counterpart calls for, an earlier one none), and the indexed
/// paths gone from disk.
pub open spec fn diff_describes(fs: Seq<FsChild>, db: Seq<DbChild>, actions: Seq<ChildAction>, stale: Seq<Seq<char>>) -> bool {
    &&& actions.len() == fs.len()
    &&& forall|i: int| 0 <= i < fs.len() ==> #[trigger] actions[i] == if last_fs_with_path(fs, i) {
        child_action_spec(fs[i], db_child_at(db, fs[i].path@))
    } else {
        ChildAction::Unchanged
    }
    &&& stale == stale_spec(fs, db, db.len() as int)
}

/// Compares a folder's children on disk with those in the index.
pub fn diff_children(fs: &Vec<FsChild>, db: &Vec<DbChild>) -> (d: ChildDiff)
    ensures
        diff_describes(fs@, db@, d.actions@, string_views(d.stale@)),
{
    let mut actions: Vec<ChildAction> = Vec::new();
    for i in 0..fs.len()
        invariant
            actions.len() == i,
            forall|k: int| 0 <= k < i ==> #[trigger] actions@[k] == if last_fs_with_path(fs@, k) {
                child_action_spec(fs@[k], match db_lookup(db@, fs@[k].path@) {
                    Some(j) => Some(db@[j]),
                    None => None,
                })
            } else {
                ChildAction::Unchanged
            },
    {
        let c = &fs[i];
        let pc = chars_of(c.path.as_str());
        let mut later = false;
        let mut k: usize = i + 1;
        while k < fs.len()
            invariant
                i < fs.len(),
                pc@ == fs@[i as int].path@,
                i + 1 <= k <= fs.len(),
                !later ==> forall|m: int| i < m < k ==> #[trigger] fs@[m].path@ != fs@[i as int].path@,
                later ==> !last_fs_with_path(fs@, i as int),
            decreases fs.len() - k,
        {
            if eq_chars(&chars_of(fs[k].path.as_str()), &pc) {
                later = true;
            }
            k += 1;
        }
        let action = if later {
            ChildAction::Unchanged
        } else {
            match find_db_child(db, &c.path) {
                None => if c.is_dir { ChildAction::Rewalk } else { ChildAction::Upsert },
                Some(j) => {
                    let d = &db[j];
                    if c.is_dir != d.is_dir {
                        if c.is_dir { ChildAction::ReplaceWithDir } else { ChildAction::ReplaceWithFile }
                    } else if !c.is_dir && (c.size_bytes != d.size_bytes || !same_opt_string(&c.modified_at, &d.modified_at)) {
                        ChildAction::Upsert
                    } else {
                        ChildAction::Unchanged
                    }
                },
            }
        };
        actions.push(action);
    }
    let mut stale: Vec<String> = Vec::new();
    for j in 0..db.len()
        invariant
            string_views(stale@) == stale_spec(fs@, db@, j as int),
    {
        if !has_fs_child(fs, &db[j].path) {
            stale.push(db[j].path.clone());
            assert(string_views(stale@) =~= stale_spec(fs@, db@, j as int).push(db@[j as int].path@));
        } else {
            assert(string_views(stale@) =~= stale_spec(fs@, db@, j as int + 1));
        }
    }
    ChildDiff { actions, stale }
}


/// What the index records of a child: whether it is a folder, its size and
/// its modification time.
pub open spec fn fs_record(c: FsChild) -> (bool, u64, Option<Seq<char>>) {
    (c.is_dir, c.size_bytes, opt_string_view(c.modified_at))
}

pub open spec fn db_record(c: DbChild) -> (bool, u64, Option<Seq<char>>) {
    (c.is_dir, c.size_bytes, opt_string_view(c.modified_at))
}

/// Some child on disk has the path.
pub open spec fn on_disk(fs: Seq<FsChild>, p: Seq<char>) -> bool {
    exists|i: int| 0 <= i < fs.len() && #[trigger] fs[i].path@ == p
}

/// The indexed children of a folder, keyed by path.
pub open spec fn indexed_children(db: Seq<DbChild>) -> Map<Seq<char>, (bool, u64, Option<Seq<char>>)> {
    Map::new(|p: Seq<char>| db_lookup(db, p) is Some, |p: Seq<char>| db_record(db[db_lookup(db, p)->0]))
}

/// A child whose indexed rows are dropped before it is written or walked.
pub open spec fn replaces(a: ChildAction) -> bool {
    a == ChildAction::ReplaceWithFile || a == ChildAction::ReplaceWithDir
}

/// The paths a comparison drops from the index: the stale children and the
/// replaced ones.
pub open spec fn dropped_paths(fs: Seq<FsChild>, actions: Seq<ChildAction>, stale: Seq<Seq<char>>) -> Set<Seq<char>> {
    Set::new(|p: Seq<char>| stale.contains(p) || exists|i: int| 0 <= i < fs.len() && #[trigger] fs[i].path@ == p
        && replaces(actions[i]))
}

/// The file rows a comparison writes, keyed by path.
pub open spec fn written_rows(fs: Seq<FsChild>, actions: Seq<ChildAction>) -> Map<Seq<char>, (bool, u64, Option<Seq<char>>)> {
    Map::new(
        |p: Seq<char>| exists|i: int| 0 <= i < fs.len() && #[trigger] fs[i].path@ == p && writes_file(actions[i]),
        |p: Seq<char>| fs_record(fs[choose|i: int| 0 <= i < fs.len() && #[trigger] fs[i].path@ == p && writes_file(actions[i])]),
    )
}

/// The folder's indexed children once a comparison is applied: the dropped
/// paths removed, then the written file rows put in.
pub open spec fn index_after(
    fs: Seq<FsChild>,
    db: Seq<DbChild>,
    actions: Seq<ChildAction>,
    stale: Seq<Seq<char>>,
) -> Map<Seq<char>, (bool, u64, Option<Seq<char>>)> {
    indexed_children(db).remove_keys(dropped_paths(fs, actions, stale)).union_prefer_right(written_rows(fs, actions))
}

proof fn lemma_stale_contains(fs: Seq<FsChild>, db: Seq<DbChild>, n: int, p: Seq<char>)
    requires
        0 <= n <= db.len(),
    ensures
        stale_spec(fs, db, n).contains(p) <==> !on_disk(fs, p)
            && exists|j: int| 0 <= j < n && #[trigger] db[j].path@ == p,
    decreases n,
{
    if n > 0 {
        lemma_stale_contains(fs, db, n - 1, p);
        let prev = stale_spec(fs, db, n - 1);
        let q = db[n - 1].path@;
        assert((exists|j: int| 0 <= j < n && #[trigger] db[j].path@ == p) <==> (q == p || exists|j: int|
            0 <= j < n - 1 && #[trigger] db[j].path@ == p)) by {
            if exists|j: int| 0 <= j < n && #[trigger] db[j].path@ == p {
                let j = choose|j: int| 0 <= j < n && #[trigger] db[j].path@ == p;
                if j < n - 1 {
                    assert(db[j].path@ == p);
                }
            }
        }
        if !on_disk(fs, q) {
            let next = prev.push(q);
            assert(next.contains(p) <==> prev.contains(p) || q == p) by {
                if q == p {
                    assert(next[prev.len() as int] == p);
                }
                if prev.contains(p) {
                    let k = choose|k: int| 0 <= k < prev.len() && prev[k] == p;
                    assert(next[k] == p);
                }
                if next.contains(p) && q != p {
                    let k = choose|k: int| 0 <= k < next.len() && next[k] == p;
                    assert(prev[k] == p);
                }
            }
        }
    }
}

proof fn lemma_last_with_path(db: Seq<DbChild>, p: Seq<char>, j: int)
    requires
        0 <= j < db.len(),
        db[j].path@ == p,
    ensures
        exists|c: int| 0 <= c < db.len() && #[trigger] db[c].path@ == p
            && forall|k: int| c < k < db.len() ==> #[trigger] db[k].path@ != p,
    decreases db.len() - j,
{
    if exists|k: int| j < k < db.len() && #[trigger] db[k].path@ == p {
        let k = choose|k: int| j < k < db.len() && #[trigger] db[k].path@ == p;
        lemma_last_with_path(db, p, k);
    } else {
        assert(db[j].path@ == p && forall|k: int| j < k < db.len() ==> #[trigger] db[k].path@ != p);
    }
}

proof fn lemma_db_lookup_found(db: Seq<DbChild>, p: Seq<char>)
    ensures
        db_lookup(db, p) is Some <==> exists|j: int| 0 <= j < db.len() && #[trigger] db[j].path@ == p,
        db_lookup(db, p) matches Some(j) ==> 0 <= j < db.len() && db[j].path@ == p,
{
    if exists|j: int| 0 <= j < db.len() && #[trigger] db[j].path@ == p {
        let j0 = choose|j: int| 0 <= j < db.len() && #[trigger] db[j].path@ == p;
        lemma_last_with_path(db, p, j0);
    }
}

/// A child on disk that shares its path with a later one gets no action.
proof fn lemma_shadowed_unchanged(fs: Seq<FsChild>, db: Seq<DbChild>, actions: Seq<ChildAction>, stale: Seq<Seq<char>>, i: int, k: int)
    requires
        diff_describes(fs, db, actions, stale),
        0 <= i < fs.len(),
        0 <= k < fs.len(),
        k != i,
        last_fs_with_path(fs, i),
        fs[k].path@ == fs[i].path@,
    ensures
        actions[k] == ChildAction::Unchanged,
{
    assert(k < i);
    assert(!last_fs_with_path(fs, k)) by {
        assert(fs[i].path@ == fs[k].path@);
    }
    assert(actions[k] == if last_fs_with_path(fs, k) {
        child_action_spec(fs[k], db_child_at(db, fs[k].path@))
    } else {
        ChildAction::Unchanged
    });
}

/// Only paths on disk stay indexed once a comparison is applied.
proof fn lemma_nothing_stale_left(fs: Seq<FsChild>, db: Seq<DbChild>, actions: Seq<ChildAction>, stale: Seq<Seq<char>>, p: Seq<char>)
    requires
        diff_describes(fs, db, actions, stale),
        index_after(fs, db, actions, stale).contains_key(p),
    ensures
        on_disk(fs, p),
{
    if !written_rows(fs, actions).contains_key(p) {
        lemma_db_lookup_found(db, p);
        lemma_stale_contains(fs, db, db.len() as int, p);
        let j = db_lookup(db, p)->0;
        assert(db[j].path@ == p);
        assert(!stale.contains(p));
    } else {
        let i = choose|i: int| 0 <= i < fs.len() && #[trigger] fs[i].path@ == p && writes_file(actions[i]);
        assert(fs[i].path@ == p);
    }
}

/// A child on disk (the last with its path) is in line once a comparison is
/// applied: a file with its record, a folder still indexed as one or walked
/// afresh.
proof fn lemma_child_in_line(fs: Seq<FsChild>, db: Seq<DbChild>, actions: Seq<ChildAction>, stale: Seq<Seq<char>>, i: int)
    requires
        diff_describes(fs, db, actions, stale),
        0 <= i < fs.len(),
        last_fs_with_path(fs, i),
    ensures
        !fs[i].is_dir ==> index_after(fs, db, actions, stale).contains_key(fs[i].path@)
            && index_after(fs, db, actions, stale)[fs[i].path@] == fs_record(fs[i]),
        fs[i].is_dir ==> (index_after(fs, db, actions, stale).contains_key(fs[i].path@)
            && index_after(fs, db, actions, stale)[fs[i].path@].0) || walks_dir(actions[i]),
{
    let p = fs[i].path@;
    let a = actions[i];
    let dropped = dropped_paths(fs, actions, stale);
    let written = written_rows(fs, actions);
    assert(on_disk(fs, p));
    lemma_stale_contains(fs, db, db.len() as int, p);
    lemma_db_lookup_found(db, p);
    assert(a == child_action_spec(fs[i], db_child_at(db, p)));
    assert forall|k: int| 0 <= k < fs.len() && #[trigger] fs[k].path@ == p && k != i implies actions[k]
        == ChildAction::Unchanged by {
        lemma_shadowed_unchanged(fs, db, actions, stale, i, k);
    }
    if writes_file(a) {
        assert(written.contains_key(p));
        let w = choose|w: int| 0 <= w < fs.len() && #[trigger] fs[w].path@ == p && writes_file(actions[w]);
        assert(w == i);
    } else {
        assert(!written.contains_key(p));
    }
    if replaces(a) {
        assert(dropped.contains(p));
    } else {
        assert(!dropped.contains(p));
    }
}

/// Applying a comparison brings a folder's indexed children in line with the
/// disk: nothing stays indexed that is not on disk, every file on disk is
/// indexed with its size and modification time, and every folder on disk is
/// either still indexed as a folder or walked afresh.
#[verifier::spinoff_prover]
pub proof fn law_diff_brings_index_in_line(
    fs: Seq<FsChild>,
    db: Seq<DbChild>,
    actions: Seq<ChildAction>,
    stale: Seq<Seq<char>>,
)
    requires
        diff_describes(fs, db, actions, stale),
    ensures
        forall|p: Seq<char>| #[trigger] index_after(fs, db, actions, stale).contains_key(p) ==> on_disk(fs, p),
        forall|i: int| 0 <= i < fs.len() && last_fs_with_path(fs, i) && !fs[i].is_dir
            ==> #[trigger] index_after(fs, db, actions, stale).contains_key(fs[i].path@)
            && index_after(fs, db, actions, stale)[fs[i].path@] == fs_record(fs[i]),
        forall|i: int| 0 <= i < fs.len() && last_fs_with_path(fs, i) && fs[i].is_dir ==> {
            ||| (#[trigger] index_after(fs, db, actions, stale).contains_key(fs[i].path@)
                && index_after(fs, db, actions, stale)[fs[i].path@].0)
            ||| walks_dir(actions[i])
        },
{
    assert forall|p: Seq<char>| #[trigger] index_after(fs, db, actions, stale).contains_key(p) implies on_disk(fs, p) by {
        lemma_nothing_stale_left(fs, db, actions, stale, p);
    }
    assert forall|i: int| 0 <= i < fs.len() && last_fs_with_path(fs, i) && !fs[i].is_dir
        implies #[trigger] index_after(fs, db, actions, stale).contains_key(fs[i].path@)
        && index_after(fs, db, actions, stale)[fs[i].path@] == fs_record(fs[i]) by {
        lemma_child_in_line(fs, db, actions, stale, i);
    }
    assert forall|i: int| 0 <= i < fs.len() && last_fs_with_path(fs, i) && fs[i].is_dir implies {
        ||| (#[trigger] index_after(fs, db, actions, stale).contains_key(fs[i].path@)
            && index_after(fs, db, actions, stale)[fs[i].path@].0)
        ||| walks_dir(actions[i])
    } by {
        lemma_child_in_line(fs, db, actions, stale, i);
    }
}

/// A child whose indexed record already matches the disk (same kind, and
/// for a file the same size and modification time) is left as it is: the
/// comparison neither drops nor writes its row, nor walks it again, and the
/// folder's index keeps the record it had.
pub proof fn law_matching_child_kept(
    fs: Seq<FsChild>,
    db: Seq<DbChild>,
    actions: Seq<ChildAction>,
    stale: Seq<Seq<char>>,
    i: int,
)
    requires
        diff_describes(fs, db, actions, stale),
        0 <= i < fs.len(),
        last_fs_with_path(fs, i),
        db_child_at(db, fs[i].path@) matches Some(d) && db_record(d) == fs_record(fs[i]),
    ensures
        actions[i] == ChildAction::Unchanged,
        !dropped_paths(fs, actions, stale).contains(fs[i].path@),
        !written_rows(fs, actions).contains_key(fs[i].path@),
        index_after(fs, db, actions, stale).contains_key(fs[i].path@),
        index_after(fs, db, actions, stale)[fs[i].path@] == indexed_children(db)[fs[i].path@],
{
    let p = fs[i].path@;
    assert(actions[i] == ChildAction::Unchanged);
    assert(on_disk(fs, p));
    lemma_stale_contains(fs, db, db.len() as int, p);
    assert forall|k: int| 0 <= k < fs.len() && #[trigger] fs[k].path@ == p implies actions[k]
        == ChildAction::Unchanged by {
        if k < i {
            assert(!last_fs_with_path(fs, k));
        } else if k > i {
            assert(fs[k].path@ != fs[i].path@);
        }
    }
    assert(!dropped_paths(fs, actions, stale).contains(p));
    assert(!written_rows(fs, actions).contains_key(p));
    assert(indexed_children(db).contains_key(p));
}

/// A compared child whose file row is written again.
pub open spec fn writes_file(a: ChildAction) -> bool {
    a == ChildAction::Upsert || a == ChildAction::ReplaceWithFile
}

/// The paths of the first `n` children whose action is chosen by `pick`,
/// in order.
pub open spec fn picked_paths(fs: Seq<FsChild>, actions: Seq<ChildAction>, pick: spec_fn(ChildAction) -> bool, n: int) -> Seq<Seq<char>>
    decreases n,
{
    if n <= 0 {
        Seq::empty()
    } else {
        let prev = picked_paths(fs, actions, pick, n - 1);
        if pick(actions[n - 1]) { prev.push(fs[n - 1].path@) } else { prev }
    }
}

proof fn lemma_picked_contains(
    fs: Seq<FsChild>,
    actions: Seq<ChildAction>,
    pick: spec_fn(ChildAction) -> bool,
    n: int,
    p: Seq<char>,
)
    requires
        0 <= n <= fs.len(),
    ensures
        picked_paths(fs, actions, pick, n).contains(p) <==> exists|k: int| 0 <= k < n && #[trigger] fs[k].path@ == p
            && pick(actions[k]),
    decreases n,
{
    if n > 0 {
        lemma_picked_contains(fs, actions, pick, n - 1, p);
        let prev = picked_paths(fs, actions, pick, n - 1);
        if pick(actions[n - 1]) {
            let x = fs[n - 1].path@;
            let next = prev.push(x);
            if next.contains(p) {
                let m = choose|m: int| 0 <= m < next.len() && #[trigger] next[m] == p;
                if m < prev.len() {
                    assert(prev[m] == p);
                    assert(prev.contains(p));
                } else {
                    assert(x == p);
                }
            }
            if prev.contains(p) {
                let m = choose|m: int| 0 <= m < prev.len() && #[trigger] prev[m] == p;
                assert(next[m] == p);
            }
            if x == p {
                assert(next[prev.len() as int] == p);
            }
        }
    }
}

/// Replacing actions, as a predicate.
pub open spec fn replacing() -> spec_fn(ChildAction) -> bool {
    |a: ChildAction| replaces(a)
}

/// Actions that write a file row, as a predicate.
pub open spec fn writing() -> spec_fn(ChildAction) -> bool {
    |a: ChildAction| writes_file(a)
}

/// What applying a comparison does to the folder's rows: the paths whose
/// rows are dropped (the replaced children in order, then the stale paths)
/// and the children whose file rows are written, in order.
#[derive(Debug)]
pub struct DiffPlan {
    pub purges: Vec<String>,
    pub writes: Vec<String>,
}

/// The rows to drop and to write for a comparison of a folder's children.
pub fn plan_diff(children: &Vec<FsChild>, diff: &ChildDiff) -> (r: DiffPlan)
    requires
        diff.actions.len() == children.len(),
    ensures
        string_views(r.purges@) == picked_paths(children@, diff.actions@, replacing(),
            children.len() as int) + string_views(diff.stale@),
        string_views(r.writes@) == picked_paths(children@, diff.actions@, writing(),
            children.len() as int),
        forall|p: Seq<char>| #[trigger] string_views(r.purges@).contains(p) <==> dropped_paths(children@,
            diff.actions@, string_views(diff.stale@)).contains(p),
        forall|p: Seq<char>| #[trigger] string_views(r.writes@).contains(p) <==> written_rows(children@,
            diff.actions@).contains_key(p),
{
    let ghost rep = replacing();
    let ghost wr = writing();
    let mut purges: Vec<String> = Vec::new();
    let mut writes: Vec<String> = Vec::new();
    for i in 0..children.len()
        invariant
            diff.actions.len() == children.len(),
            rep == replacing(),
            wr == writing(),
            string_views(purges@) == picked_paths(children@, diff.actions@, rep, i as int),
            string_views(writes@) == picked_paths(children@, diff.actions@, wr, i as int),
    {
        let act = diff.actions[i];
        if act == ChildAction::ReplaceWithFile || act == ChildAction::ReplaceWithDir {
            purges.push(children[i].path.clone());
            assert(string_views(purges@) =~= picked_paths(children@, diff.actions@, rep, i as int).push(
                children@[i as int].path@));
        }
        if act == ChildAction::Upsert || act == ChildAction::ReplaceWithFile {
            writes.push(children[i].path.clone());
            assert(string_views(writes@) =~= picked_paths(children@, diff.actions@, wr, i as int).push(
                children@[i as int].path@));
        }
    }
    let ghost replaced = string_views(purges@);
    for j in 0..diff.stale.len()
        invariant
            string_views(purges@) == replaced + string_views(diff.stale@).take(j as int),
    {
        let ghost before = string_views(purges@);
        let item = diff.stale[j].clone();
        assert(item@ == string_views(diff.stale@)[j as int]);
        purges.push(item);
        assert(string_views(purges@) =~= before.push(item@));
        assert(string_views(diff.stale@).take(j + 1) =~= string_views(diff.stale@).take(j as int).push(item@));
        assert(string_views(purges@) =~= replaced + string_views(diff.stale@).take(j + 1));
    }
    assert(string_views(diff.stale@).take(diff.stale.len() as int) =~= string_views(diff.stale@));
    proof {
        let fs = children@;
        let acts = diff.actions@;
        let st = string_views(diff.stale@);
        assert forall|p: Seq<char>| #[trigger] string_views(purges@).contains(p) <==> dropped_paths(fs, acts, st).contains(p) by {
            lemma_picked_contains(fs, acts, rep, fs.len() as int, p);
            let all = replaced + st;
            if all.contains(p) {
                let m = choose|m: int| 0 <= m < all.len() && all[m] == p;
                if m >= replaced.len() {
                    assert(st[m - replaced.len()] == p);
                    assert(st.contains(p));
                } else {
                    assert(replaced[m] == p);
                    assert(replaced.contains(p));
                }
            }
            if st.contains(p) {
                let m = choose|m: int| 0 <= m < st.len() && st[m] == p;
                assert(all[m + replaced.len()] == p);
            }
            if replaced.contains(p) {
                let m = choose|m: int| 0 <= m < replaced.len() && replaced[m] == p;
                assert(all[m] == p);
            }
        }
        assert forall|p: Seq<char>| #[trigger] string_views(writes@).contains(p) <==> written_rows(fs, acts).contains_key(p) by {
            lemma_picked_contains(fs, acts, wr, fs.len() as int, p);
        }
    }
    DiffPlan { purges, writes }
}

/// A compared child that is walked afresh.
pub open spec fn walks_dir(a: ChildAction) -> bool {
    a == ChildAction::Rewalk || a == ChildAction::ReplaceWithDir
}

/// How many of the first `n` actions write a file row.
pub open spec fn file_writes(actions: Seq<ChildAction>, n: int) -> nat
    decreases n,
{
    if n <= 0 {
        0
    } else {
        file_writes(actions, n - 1) + if writes_file(actions[n - 1]) { 1nat } else { 0nat }
    }
}

/// The folders to walk afresh, after adding those among the first `n`
/// compared children (each path once).
pub open spec fn with_new_dirs(
    roots: Seq<Seq<char>>,
    children: Seq<FsChild>,
    actions: Seq<ChildAction>,
    n: int,
) -> Seq<Seq<char>>
    decreases n,
{
    if n <= 0 {
        roots
    } else {
        let prev = with_new_dirs(roots, children, actions, n - 1);
        let p = children[n - 1].path@;
        if walks_dir(actions[n - 1]) && !prev.contains(p) { prev.push(p) } else { prev }
    }
}

/// No path occurs twice.
pub open spec fn distinct_paths(v: Seq<Seq<char>>) -> bool {
    forall|i: int, j: int| 0 <= i < j < v.len() ==> v[i] != v[j]
}

proof fn lemma_new_dirs_distinct(
    roots: Seq<Seq<char>>,
    children: Seq<FsChild>,
    actions: Seq<ChildAction>,
    n: int,
)
    requires
        distinct_paths(roots),
    ensures
        distinct_paths(with_new_dirs(roots, children, actions, n)),
    decreases n,
{
    if n > 0 {
        lemma_new_dirs_distinct(roots, children, actions, n - 1);
        let prev = with_new_dirs(roots, children, actions, n - 1);
        let p = children[n - 1].path@;
        if walks_dir(actions[n - 1]) && !prev.contains(p) {
            let next = prev.push(p);
            assert forall|i: int, j: int| 0 <= i < j < next.len() implies next[i] != next[j] by {
                if j == prev.len() {
                    assert(prev[i] != p) by {
                        if prev[i] == p {
                            assert(prev.contains(p));
                        }
                    }
                }
            }
        }
    }
}

/// An incremental scan needs a completed full scan: refused until the index
/// is ready.
pub fn require_index_ready(index_ready: bool) -> (r: Result<(), AppError>)
    ensures
        index_ready <==> r is Ok,
        r matches Err(e) ==> e.code == ErrorCode::IndexNotReady && e.message@ == "请先完成一次全盘扫描，再执行增量扫描"@
            && (e.target matches Some(t) && t@ == "scan"@),
{
    if !index_ready {
        return Err(err_at(ErrorCode::IndexNotReady, "请先完成一次全盘扫描，再执行增量扫描", "scan"));
    }
    Ok(())
}

/// The incremental worker's state: the tallies, and the folders found new
/// (or turned from a file into a folder) that are walked afresh once the
/// compared folders are done.
#[derive(Debug)]
pub struct IncrementalScan {
    pub tally: ScanTally,
    pub rewalk_roots: Vec<String>,
}

impl IncrementalScan {
    /// Nothing counted, nothing to walk.
    pub fn new() -> (s: Self)
        ensures
            s.tally.scanned_files == 0,
            s.tally.skipped_files == 0,
            s.tally.batch_len == 0,
            s.rewalk_roots@.len() == 0,
    {
        IncrementalScan { tally: ScanTally::new(), rewalk_roots: Vec::new() }
    }
}

/// What the outside step of the incremental worker reports.
pub enum IncrementalEvent {
    /// A compared folder could not be listed.
    DirUnreadable,
    /// A compared folder was listed: its children on disk, and their
    /// comparison with the index (from `diff_children`).
    DirCompared { children: Vec<FsChild>, diff: ChildDiff },
    /// An entry of a folder that is walked afresh.
    Walked(WalkEvent),
}

/// What the incremental worker does next.
#[derive(Debug, PartialEq, Eq, Structural)]
pub enum IncrementalAction {
    /// Record the folder as skipped.
    RecordSkip,
    /// Drop the stale and replaced paths and buffer the written files'
    /// rows; when `flush` is set, then write the batch and report progress.
    ApplyDiff { flush: bool },
    /// As in a full walk.
    Walk(WalkAction),
}

/// The decisions of the incremental scan worker, one event at a time. The
/// worker compares the root and the indexed folders one or two levels below
/// it with the disk, then walks afresh the folders it found new; the reads,
/// the writes to the index and the waits stay with the caller.
///
/// An unlisted folder is counted as skipped. A compared folder counts and
/// buffers one row per file written, queues each new folder once, and the
/// batch is written once it holds `BATCH_SIZE` rows or more. Entries of the
/// folders walked afresh are tallied as in a full walk.
pub fn run_incremental_scan_worker(state: &mut IncrementalScan, event: IncrementalEvent) -> (a: IncrementalAction)
    requires
        old(state).tally.batch_len < BATCH_SIZE,
        old(state).tally.skipped_files < u64::MAX,
        match event {
            IncrementalEvent::DirUnreadable => true,
            IncrementalEvent::DirCompared { children, diff } =>
                diff.actions.len() == children.len()
                && old(state).tally.scanned_files + children.len() <= u64::MAX,
            IncrementalEvent::Walked(_) => old(state).tally.scanned_files < u64::MAX,
        },
    ensures
        final(state).tally.batch_len < BATCH_SIZE,
        distinct_paths(string_views(old(state).rewalk_roots@))
            ==> distinct_paths(string_views(final(state).rewalk_roots@)),
        match event {
            IncrementalEvent::DirUnreadable => {
                &&& a == IncrementalAction::RecordSkip
                &&& final(state).tally.skipped_files == old(state).tally.skipped_files + 1
                &&& final(state).tally.scanned_files == old(state).tally.scanned_files
                &&& final(state).tally.batch_len == old(state).tally.batch_len
                &&& final(state).rewalk_roots@ == old(state).rewalk_roots@
            },
            IncrementalEvent::DirCompared { children, diff } => {
                let n = file_writes(diff.actions@, children.len() as int);
                &&& final(state).tally.skipped_files == old(state).tally.skipped_files
                &&& final(state).tally.scanned_files == old(state).tally.scanned_files + n
                &&& string_views(final(state).rewalk_roots@) == with_new_dirs(
                    string_views(old(state).rewalk_roots@), children@, diff.actions@, children.len() as int)
                &&& if old(state).tally.batch_len + n >= BATCH_SIZE {
                    a == (IncrementalAction::ApplyDiff { flush: true }) && final(state).tally.batch_len == 0
                } else {
                    a == (IncrementalAction::ApplyDiff { flush: false })
                        && final(state).tally.batch_len == old(state).tally.batch_len + n
                }
            },
            IncrementalEvent::Walked(w) => {
                &&& a matches IncrementalAction::Walk(wa) && walk_step(old(state).tally, w, final(state).tally, wa)
                &&& final(state).rewalk_roots@ == old(state).rewalk_roots@
            },
        },
{
    match event {
        IncrementalEvent::DirUnreadable => {
            state.tally.skipped_files = state.tally.skipped_files + 1;
            IncrementalAction::RecordSkip
        },
        IncrementalEvent::DirCompared { children, diff } => {
            let ghost roots0 = string_views(state.rewalk_roots@);
            proof {
                if distinct_paths(roots0) {
                    lemma_new_dirs_distinct(roots0, children@, diff.actions@, children.len() as int);
                }
            }
            let mut n: usize = 0;
            let mut i: usize = 0;
            while i < children.len()
                invariant
                    i <= children.len(),
                    diff.actions.len() == children.len(),
                    n == file_writes(diff.actions@, i as int),
                    n <= i,
                    string_views(state.rewalk_roots@) == with_new_dirs(roots0, children@, diff.actions@, i as int),
                    state.tally == old(state).tally,
                decreases children.len() - i,
            {
                let act = diff.actions[i];
                if act == ChildAction::Upsert || act == ChildAction::ReplaceWithFile {
                    n = n + 1;
                } else if (act == ChildAction::Rewalk || act == ChildAction::ReplaceWithDir)
                    && !contains_string(&state.rewalk_roots, &children[i].path) {
                    let p = children[i].path.clone();
                    state.rewalk_roots.push(p);
                    assert(string_views(state.rewalk_roots@) =~= with_new_dirs(
                        roots0, children@, diff.actions@, i as int).push(children@[i as int].path@));
                }
                i = i + 1;
            }
            state.tally.scanned_files = state.tally.scanned_files + n as u64;
            if n >= BATCH_SIZE - state.tally.batch_len {
                state.tally.batch_len = 0;
                IncrementalAction::ApplyDiff { flush: true }
            } else {
                state.tally.batch_len = state.tally.batch_len + n;
                IncrementalAction::ApplyDiff { flush: false }
            }
        },
        IncrementalEvent::Walked(w) => {
            let wa = state.tally.step(w);
            IncrementalAction::Walk(wa)
        },
    }
}

/// What a comparison does with a child on disk: a new folder is walked, a
/// new file written; a child that turned from file to folder or back has its
/// old rows dropped and is then walked or written; a file whose size or
/// modification time changed is written again (nothing dropped); a folder
/// that was a folder, or a file whose record matches, is left alone.
pub proof fn law_child_action_by_change(c: FsChild, d: Option<DbChild>)
    ensures
        d is None ==> !replaces(child_action_spec(c, d)) && (c.is_dir ==> walks_dir(child_action_spec(c, d)))
            && (!c.is_dir ==> writes_file(child_action_spec(c, d))),
        d matches Some(x) ==> (x.is_dir != c.is_dir ==> replaces(child_action_spec(c, d)) && (c.is_dir
            ==> walks_dir(child_action_spec(c, d))) && (!c.is_dir ==> writes_file(child_action_spec(c, d)))),
        d matches Some(x) ==> (!x.is_dir && !c.is_dir && db_record(x) != fs_record(c) ==> writes_file(
            child_action_spec(c, d)) && !replaces(child_action_spec(c, d))),
        d matches Some(x) ==> (x.is_dir && c.is_dir ==> child_action_spec(c, d) == ChildAction::Unchanged),
        d matches Some(x) ==> (db_record(x) == fs_record(c) ==> child_action_spec(c, d) == ChildAction::Unchanged),
{
}

/// The compared folders start with the root and take in every indexed
/// folder one or two levels below it.
pub proof fn law_shallow_folders_all_compared(root: Seq<char>, dirs: Seq<String>, n: int)
    requires
        0 <= n <= dirs.len(),
    ensures
        shallow_dirs_spec(root, dirs, n).len() >= 1,
        shallow_dirs_spec(root, dirs, n)[0] == root,
        forall|k: int| 0 <= k < n && 1 <= depth_below(dirs[k]@, root) <= 2 ==> shallow_dirs_spec(root, dirs, n).contains(
            (#[trigger] dirs[k])@,
        ),
    decreases n,
{
    if n > 0 {
        law_shallow_folders_all_compared(root, dirs, n - 1);
        let prev = shallow_dirs_spec(root, dirs, n - 1);
        let cur = shallow_dirs_spec(root, dirs, n);
        let q = dirs[n - 1]@;
        assert forall|k: int| 0 <= k < n && 1 <= depth_below(dirs[k]@, root) <= 2 implies cur.contains(
            (#[trigger] dirs[k])@,
        ) by {
            if k < n - 1 {
                let y = choose|y: int| 0 <= y < prev.len() && prev[y] == dirs[k]@;
                assert(cur[y] == dirs[k]@);
            } else if !prev.contains(q) {
                assert(cur[prev.len() as int] == q);
            } else {
                assert(cur == prev);
            }
        }
        if 1 <= depth_below(q, root) <= 2 && !prev.contains(q) {
            assert(cur[0] == prev[0]);
        }
    }
}

/// The stale paths of a comparison are exactly the indexed children that
/// are gone from disk.
pub proof fn law_stale_are_gone_from_disk(fs: Seq<FsChild>, db: Seq<DbChild>, p: Seq<char>)
    ensures
        stale_spec(fs, db, db.len() as int).contains(p) <==> !on_disk(fs, p) && exists|j: int| 0 <= j < db.len()
            && #[trigger] db[j].path@ == p,
{
    lemma_stale_contains(fs, db, db.len() as int, p);
}

/// The folders queued to be walked afresh are those queued before and the
/// compared children whose action walks them, each once.
pub proof fn law_new_folders_queued(
    roots: Seq<Seq<char>>,
    children: Seq<FsChild>,
    actions: Seq<ChildAction>,
    n: int,
    p: Seq<char>,
)
    requires
        0 <= n <= children.len(),
    ensures
        with_new_dirs(roots, children, actions, n).contains(p) <==> roots.contains(p) || exists|k: int| 0 <= k < n
            && #[trigger] children[k].path@ == p && walks_dir(actions[k]),
        distinct_paths(roots) ==> distinct_paths(with_new_dirs(roots, children, actions, n)),
    decreases n,
{
    if distinct_paths(roots) {
        lemma_new_dirs_distinct(roots, children, actions, n);
    }
    if n > 0 {
        law_new_folders_queued(roots, children, actions, n - 1, p);
        let prev = with_new_dirs(roots, children, actions, n - 1);
        let x = children[n - 1].path@;
        if walks_dir(actions[n - 1]) && !prev.contains(x) {
            let next = prev.push(x);
            if next.contains(p) {
                let m = choose|m: int| 0 <= m < next.len() && #[trigger] next[m] == p;
                if m < prev.len() {
                    assert(prev[m] == p);
                }
            }
            if prev.contains(p) {
                let m = choose|m: int| 0 <= m < prev.len() && #[trigger] prev[m] == p;
                assert(next[m] == p);
            }
            if x == p {
                assert(next[prev.len() as int] == p);
            }
        }
    }
}

} // verus!
