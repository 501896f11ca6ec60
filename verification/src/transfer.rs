//! File transfers: the queue, the slots and the retries.
//!
//! A transfer waits in the queue until one of a few slots is free, runs as a worker outside this
//! module, and comes back as a message. Workers write a staging file next to the final one, so
//! that a later attempt can go on where this one stopped. Four rules hold throughout:
//!
//! - no transfer is started beyond the number of slots;
//! - a slot is freed when its worker reports its end, or when its tab is closed, and never twice;
//! - no two workers write the same staging file, even where one was put back into the queue and
//!   its worker has not ended;
//! - a staging file is removed only when no other transfer may still need it.

use crate::config::app_config::{MAX_CONCURRENT, MIN_CONCURRENT};
use crate::error;
use crate::error::CoreError;
use crate::error::ErrorClass;
use crate::i18n;
use crate::i18n::Text;
use crate::i18n::ToastKind;
use crate::i18n::Wording;
use crate::id_set::IdSet;
use crate::local_path;
use crate::local_path::LocalPath;
use crate::sftp::Fingerprint;
use crate::tasks;
use crate::text;
use std::collections::HashMap;
use vstd::prelude::*;

pub mod cleanup;
pub mod laws;
pub mod model;
pub mod outcomes;
pub mod progress;
pub mod worker;

verus! {

/// How many transfers a tab's queue takes.
pub const MAX_QUEUE: usize = 1000;

/// The wait before the first automatic retry, in milliseconds.
pub const BASE_BACKOFF_MS: u64 = 1500;

/// The longest wait before an automatic retry, in milliseconds.
pub const MAX_BACKOFF_MS: u64 = 8000;

/// Upload or download.
#[derive(Debug, Clone, Copy, PartialEq, Eq, Structural)]
pub enum TransferDirection {
    /// From this machine to the server.
    Upload,
    /// From the server to this machine.
    Download,
}

/// Where a transfer stands.
#[derive(Debug, Clone, Copy, PartialEq, Eq, Structural)]
pub enum TransferStatus {
    /// It waits for a slot.
    Queued,
    /// A worker runs it.
    Active,
    /// It failed and is tried again after a while.
    WaitingRetry,
    /// It failed for good, or was given up.
    Error,
    /// It is complete.
    Done,
}

/// What an attempt started from.
#[derive(Debug, Clone, Copy, PartialEq, Eq, Structural)]
pub struct ResumeState {
    /// The source, as it was then.
    pub source: Fingerprint,
    /// The first byte of the attempt.
    pub offset: u64,
}

/// One transfer.
#[derive(Debug)]
pub struct Transfer {
    /// The tab that it belongs to.
    pub tab_id: u64,
    /// Its number: smaller means asked for earlier.
    pub id: u64,
    /// Upload or download.
    pub direction: TransferDirection,
    /// The file's name.
    pub name: String,
    /// The local path: an upload's source, a download's destination.
    pub local: LocalPath,
    /// The remote path.
    pub remote: String,
    /// Bytes done.
    pub transferred: u64,
    /// Bytes in all; 0 while unknown.
    pub total: u64,
    /// Where it stands.
    pub status: TransferStatus,
    /// Automatic retries used up since it was last started by hand.
    pub attempts: u32,
    /// When the next automatic retry is due, in milliseconds on the caller's clock.
    pub not_before: Option<u64>,
    /// The path of a staging file that could not be removed.
    pub partial: Option<String>,
    /// Why the last attempt failed.
    pub error: Option<Text>,
    /// The speed in bytes per second: the bits of the floating-point number, 0 for none.
    pub speed_bits: u64,
    /// The number of the channel that it was asked for on, or last started on.
    pub client: Option<u64>,
    /// What the last attempt started from.
    pub resume: Option<ResumeState>,
    /// Whether the staging file holds the whole content and only lacks its final name.
    pub keep_staging: bool,
}

impl View for Transfer {
    type V = model::Row;

    open spec fn view(&self) -> model::Row {
        model::Row {
            tab_id: self.tab_id,
            id: self.id,
            direction: self.direction,
            name: self.name@,
            local: self.local@,
            remote: self.remote@,
            transferred: self.transferred,
            total: self.total,
            status: self.status,
            attempts: self.attempts,
            not_before: self.not_before,
            partial: text::opt(self.partial),
            error: i18n::opt_text(self.error),
            speed_bits: self.speed_bits,
            client: self.client,
            resume: self.resume,
            keep_staging: self.keep_staging,
        }
    }
}

/// What a worker is told, and what is needed to remove its staging file.
#[derive(Debug)]
pub struct Job {
    /// The tab.
    pub tab_id: u64,
    /// The transfer's number.
    pub tid: u64,
    /// Upload or download.
    pub direction: TransferDirection,
    /// The local path.
    pub local: LocalPath,
    /// The remote path.
    pub remote: String,
    /// The number of the channel to use.
    pub client: Option<u64>,
    /// The source as it was at the last attempt.
    pub prior_source: Option<Fingerprint>,
}

impl View for Job {
    type V = model::JobView;

    open spec fn view(&self) -> model::JobView {
        model::JobView {
            tab_id: self.tab_id,
            tid: self.tid,
            direction: self.direction,
            local: self.local@,
            remote: self.remote@,
            client: self.client,
            prior_source: self.prior_source,
        }
    }
}

/// The file that a transfer writes.
#[derive(Debug, PartialEq, Eq)]
pub enum WriteTarget {
    /// A download's local staging file.
    Local(LocalPath),
    /// An upload's staging file on the server of a tab.
    Remote(u64, String),
}

impl View for WriteTarget {
    type V = model::Target;

    open spec fn view(&self) -> model::Target {
        match *self {
            WriteTarget::Local(path) => model::Target::Local(local_path::parts(path@)),
            WriteTarget::Remote(tab_id, path) => model::Target::Remote(tab_id, path@),
        }
    }
}

/// Why a transfer failed, as far as it decides what happens next.
#[derive(Debug, Clone, Copy, PartialEq, Eq, Structural)]
pub enum FailureKind {
    /// The user gave it up, or its worker was stopped.
    Cancelled,
    /// The session that carried it has ended: only a new connection helps.
    SessionGone,
    /// Something passing.
    Transient,
    /// Something that stays.
    Permanent,
    /// Not known.
    Unknown,
}

impl FailureKind {
    /// Whether waiting can help. What is not known counts as passing.
    pub fn is_retryable(self) -> (r: bool)
        ensures
            r == model::retryable(self),
    {
        self == FailureKind::Transient || self == FailureKind::Unknown
    }
}

/// A failed transfer: why, and what to tell the user.
#[derive(Debug)]
pub struct Failure {
    /// Why.
    pub kind: FailureKind,
    /// What to tell the user.
    pub message: Text,
    /// Whether the staging file holds the whole content and must be kept.
    pub keep_staging: bool,
}

/// Why a transfer failed, after what its error tells.
pub open spec fn failure_kind(class: ErrorClass) -> FailureKind {
    match class {
        ErrorClass::Transient => FailureKind::Transient,
        ErrorClass::Permanent => FailureKind::Permanent,
        ErrorClass::SessionGone => FailureKind::SessionGone,
        ErrorClass::Unknowable => FailureKind::Unknown,
    }
}

/// What the user is told of an error that ended a transfer: of a session that has ended, only
/// that, and not the words of the error.
pub open spec fn failure_words(e: CoreError) -> i18n::WordingView {
    if error::class_of(e) == ErrorClass::SessionGone {
        i18n::entry("errors.session_gone"@)
    } else {
        error::message(e)
    }
}

/// Why a transfer failed, after what its error tells.
pub fn kind_of(e: &CoreError) -> (r: FailureKind)
    ensures
        r == failure_kind(error::class_of(*e)),
{
    match e.class() {
        ErrorClass::Transient => FailureKind::Transient,
        ErrorClass::Permanent => FailureKind::Permanent,
        ErrorClass::SessionGone => FailureKind::SessionGone,
        ErrorClass::Unknowable => FailureKind::Unknown,
    }
}

impl Failure {
    /// A transfer that an error ended.
    pub fn from_core(e: &CoreError) -> (r: Failure)
        ensures
            r.kind == failure_kind(error::class_of(*e)),
            r.message@ == i18n::plain(failure_words(*e)),
            !r.keep_staging,
    {
        Failure::with_prefix(None, e)
    }

    /// A transfer that an error ended, with the occasion.
    pub fn core_prefixed(prefix: Wording, e: &CoreError) -> (r: Failure)
        ensures
            r.kind == failure_kind(error::class_of(*e)),
            r.message@ == i18n::prefixed(prefix@, failure_words(*e)),
            !r.keep_staging,
    {
        Failure::with_prefix(Some(prefix), e)
    }

    fn with_prefix(prefix: Option<Wording>, e: &CoreError) -> (r: Failure)
        ensures
            r.kind == failure_kind(error::class_of(*e)),
            r.message@ == (i18n::TextView {
                prefix: match prefix {
                    Some(p) => Some(p@),
                    None => None,
                },
                body: failure_words(*e),
            }),
            !r.keep_staging,
    {
        let kind = kind_of(e);
        let body = if kind == FailureKind::SessionGone {
            Wording::entry("errors.session_gone")
        } else {
            error::localize_error(e)
        };
        Failure { kind, message: Text { prefix, body }, keep_staging: false }
    }

    /// A transfer that was given up.
    pub fn cancelled(message: Text) -> (r: Failure)
        ensures
            r.kind == FailureKind::Cancelled,
            r.message == message,
            !r.keep_staging,
    {
        Failure { kind: FailureKind::Cancelled, message, keep_staging: false }
    }
}

/// A file to upload.
#[derive(Debug)]
pub struct UploadItem {
    /// The local path.
    pub local: LocalPath,
    /// Where it goes below the remote directory.
    pub rel: String,
}

/// What the scheduler reads: the channels that are open and the limits that are set.
#[derive(Debug)]
pub struct Ctx {
    /// The active tab.
    pub tab_id: u64,
    /// The number of the active tab's channel.
    pub client: Option<u64>,
    /// The channel of each tab that has one at present.
    pub clients: HashMap<u64, u64>,
    /// The active tab's remote directory.
    pub remote_dir: String,
    /// How many transfers may run at once.
    pub max_concurrent: usize,
    /// How many automatic retries a transfer has; 0 for none.
    pub retry_attempts: u32,
    /// The time, in milliseconds on a clock that only goes forward.
    pub now_ms: u64,
}

/// What a [`Ctx`] holds.
#[verifier::ext_equal]
pub struct CtxView {
    /// The active tab.
    pub tab_id: u64,
    /// The number of the active tab's channel.
    pub client: Option<u64>,
    /// The channel of each tab that has one at present.
    pub clients: Map<u64, u64>,
    /// The active tab's remote directory.
    pub remote_dir: Seq<char>,
    /// How many transfers may run at once.
    pub max_concurrent: usize,
    /// How many automatic retries a transfer has.
    pub retry_attempts: u32,
    /// The time.
    pub now_ms: u64,
}

impl View for Ctx {
    type V = CtxView;

    open spec fn view(&self) -> CtxView {
        CtxView {
            tab_id: self.tab_id,
            client: self.client,
            clients: self.clients@,
            remote_dir: self.remote_dir@,
            max_concurrent: self.max_concurrent,
            retry_attempts: self.retry_attempts,
            now_ms: self.now_ms,
        }
    }
}

impl Ctx {
    /// The channel that a tab has at present.
    pub fn client_for(&self, tab_id: u64) -> (r: Option<u64>)
        ensures
            r == if self.clients@.contains_key(tab_id) {
                Some(self.clients@[tab_id])
            } else {
                None
            },
    {
        lookup(&self.clients, tab_id)
    }
}

/// The entry of a number.
fn lookup(clients: &HashMap<u64, u64>, tab_id: u64) -> (r: Option<u64>)
    ensures
        r == if clients@.contains_key(tab_id) {
            Some(clients@[tab_id])
        } else {
            None
        },
{
    broadcast use vstd::std_specs::hash::group_hash_axioms;

    match clients.get(&tab_id) {
        Some(c) => Some(*c),
        None => None,
    }
}

/// What can happen to the scheduler.
#[derive(Debug)]
pub enum Message {
    /// Files are to be uploaded from a tab.
    Upload(u64, Vec<UploadItem>),
    /// A file of this name is to be downloaded in a tab to this local path.
    Download(u64, String, LocalPath),
    /// Progress of a tab's transfer: bytes done, bytes in all, speed.
    Progress(u64, u64, u64, u64, u64),
    /// A worker found out where to start.
    AttemptStarted {
        /// The tab.
        tab_id: u64,
        /// The transfer.
        tid: u64,
        /// The source, as it is now.
        source: Fingerprint,
        /// The first byte of the attempt.
        offset: u64,
    },
    /// The worker of a tab's transfer ended.
    TransferDone(u64, u64, Result<(), Failure>),
    /// The worker of a transfer can be stopped from now on.
    TransferHandle(u64),
    /// The user gives a transfer up.
    CancelTransfer(u64),
    /// The user wants a transfer tried again.
    RetryTransfer(u64),
    /// The wait for a transfer's automatic retry is over.
    RetryDue(u64),
    /// The removal of a transfer's staging file ended; a path means that it is still there.
    CleanupDone(u64, Option<String>),
    /// The user takes a transfer off the list.
    RemoveTransfer(u64),
    /// The number of slots was changed.
    ConcurrencyChanged,
    /// A tab was closed.
    TabClosed(u64),
    /// The folder of a local file is to be shown.
    OpenContainingFolder(LocalPath),
}

/// What the scheduler asks for.
#[derive(Debug)]
pub enum Event {
    /// A notification.
    Toast(ToastKind, Text),
    /// A tab's remote directory is to be listed again.
    RefreshDir(u64),
    /// A worker is to be started.
    Start(Job),
    /// The worker of a transfer is to be stopped.
    Abort(u64),
    /// The staging file of a transfer is to be removed.
    Cleanup(Job),
    /// The retry of a transfer is due after a while.
    RetryTimer {
        /// After how many milliseconds.
        delay: u64,
        /// The transfer.
        tid: u64,
    },
    /// A folder is to be shown.
    OpenFolder(LocalPath),
}

impl View for Event {
    type V = model::EventView;

    open spec fn view(&self) -> model::EventView {
        match *self {
            Event::Toast(kind, text) => model::EventView::Toast(kind, text@),
            Event::RefreshDir(tab_id) => model::EventView::RefreshDir(tab_id),
            Event::Start(job) => model::EventView::Start(job@),
            Event::Abort(tid) => model::EventView::Abort(tid),
            Event::Cleanup(job) => model::EventView::Cleanup(job@),
            Event::RetryTimer { delay, tid } => model::EventView::RetryTimer { delay, tid },
            Event::OpenFolder(path) => model::EventView::OpenFolder(path@),
        }
    }
}

/// How long to wait before the automatic retry that follows `attempt` others, in milliseconds.
pub fn backoff_delay(attempt: u32) -> (r: u64)
    ensures
        r == model::backoff(attempt),
{
    let mut delay: u64 = BASE_BACKOFF_MS;
    let mut n: u32 = 0;
    while n < attempt && delay < MAX_BACKOFF_MS
        invariant
            n <= attempt,
            delay < 2 * MAX_BACKOFF_MS,
            delay == model::doubled(BASE_BACKOFF_MS as nat, n as nat),
        decreases attempt - n,
    {
        delay = delay * 2;
        n += 1;
    }
    proof {
        laws::lemma_doubled_grows(BASE_BACKOFF_MS as nat, n as nat, attempt as nat);
    }
    if delay > MAX_BACKOFF_MS {
        MAX_BACKOFF_MS
    } else {
        if n < attempt {
            proof {
                laws::lemma_doubled_grows(
                    BASE_BACKOFF_MS as nat,
                    (n + 1) as nat,
                    attempt as nat,
                );
            }
        }
        delay
    }
}

/// The staging file of a download: the final path and a suffix.
pub fn staging_path(local: &LocalPath) -> (r: LocalPath)
    ensures
        r@ == local_path::staged(local@),
{
    local.staging()
}

/// The staging file of an upload: the final path and a suffix.
pub fn staging_remote(remote: &str) -> (r: String)
    ensures
        r@ == model::staged(remote@),
{
    text::concat(remote, ".part")
}

/// The folder that holds a local file, or the path itself where it has no name.
pub fn containing_folder(local: &LocalPath) -> (r: LocalPath)
    ensures
        r@ == local_path::folder(local@),
{
    local.folder()
}

/// The first byte of the next attempt: where the staging file ends, if the source is still what
/// the last attempt saw and the staging file is not longer than it; else the beginning.
pub fn resume_offset(prev: Option<Fingerprint>, now: Fingerprint, partial: u64) -> (r: u64)
    ensures
        r == model::resume_from(prev, now, partial),
{
    match prev {
        Some(p) => if p == now && partial <= now.len {
            partial
        } else {
            0
        },
        None => 0,
    }
}

/// The file that a transfer writes.
pub fn write_target(t: &Transfer) -> (r: WriteTarget)
    ensures
        r@ == model::target(t@),
{
    match t.direction {
        TransferDirection::Download => WriteTarget::Local(staging_path(&t.local)),
        TransferDirection::Upload => WriteTarget::Remote(t.tab_id, staging_remote(&t.remote)),
    }
}

/// The file that a job writes.
pub fn job_target(job: &Job) -> (r: WriteTarget)
    ensures
        r@ == match job.direction {
            TransferDirection::Download => model::Target::Local(
                local_path::parts(local_path::staged(job.local@)),
            ),
            TransferDirection::Upload => model::Target::Remote(
                job.tab_id,
                model::staged(job.remote@),
            ),
        },
{
    match job.direction {
        TransferDirection::Download => WriteTarget::Local(staging_path(&job.local)),
        TransferDirection::Upload => WriteTarget::Remote(job.tab_id, staging_remote(&job.remote)),
    }
}

/// What a worker for a transfer is told.
pub fn job_from(t: &Transfer) -> (r: Job)
    ensures
        r@ == model::job_of(t@),
{
    Job {
        tab_id: t.tab_id,
        tid: t.id,
        direction: t.direction,
        local: t.local.copied(),
        remote: t.remote.clone(),
        client: t.client,
        prior_source: match t.resume {
            Some(p) => Some(p.source),
            None => None,
        },
    }
}

/// Whether a transfer may have left an unfinished staging file behind: it has run and has not
/// come to its end. A staging file with the whole content is not unfinished.
pub fn leaves_partial_on_disk(t: &Transfer) -> (r: bool)
    ensures
        r == model::leaves_partial(t@),
{
    !t.keep_staging && (t.status == TransferStatus::Active || t.status
        == TransferStatus::WaitingRetry || t.status == TransferStatus::Error)
}

/// Whether two transfers write the same file.
fn same_target(a: &Transfer, b: &Transfer) -> (r: bool)
    ensures
        r == (model::target(a@) == model::target(b@)),
{
    proof {
        laws::lemma_staged_injective(a.remote@, b.remote@);
    }
    match (a.direction, b.direction) {
        (TransferDirection::Download, TransferDirection::Download) => staging_path(
            &a.local,
        ).same_as(&staging_path(&b.local)),
        (TransferDirection::Upload, TransferDirection::Upload) => a.tab_id == b.tab_id
            && text::same(&a.remote, &b.remote),
        _ => false,
    }
}

/// The queue of transfers and the slots in use.
#[derive(Debug)]
pub struct State {
    rows: Vec<Transfer>,
    next_transfer_id: u64,
    handles: IdSet,
    running: IdSet,
}

impl View for State {
    type V = model::Queue;

    closed spec fn view(&self) -> model::Queue {
        model::Queue {
            rows: model::rows_of(self.rows@),
            next_id: self.next_transfer_id as int,
            handles: self.handles@,
            running: self.running@,
        }
    }
}

impl State {
    /// The numbers are in order.
    pub closed spec fn wf(&self) -> bool {
        &&& self.handles.wf()
        &&& self.running.wf()
        &&& model::well_formed(self@)
    }

    /// What a queue in order is, said of its model: the transfers stand in the order of their
    /// numbers, and every number was given out.
    pub proof fn lemma_in_order(&self)
        requires
            self.wf(),
        ensures
            model::well_formed(self@),
    {
    }

    /// An empty queue.
    pub fn new() -> (r: State)
        ensures
            r.wf(),
            r@ == model::empty_queue(),
    {
        let r = State {
            rows: Vec::new(),
            next_transfer_id: 1,
            handles: IdSet::new(),
            running: IdSet::new(),
        };
        assert(r@.rows =~= Seq::<model::Row>::empty());
        r
    }

    /// The transfers of all tabs, in the order in which they were asked for.
    pub fn all_transfers(&self) -> (r: &Vec<Transfer>)
        ensures
            model::rows_of(r@) == self@.rows,
    {
        &self.rows
    }

    /// Whether there are numbers left for so many transfers.
    pub fn has_numbers(&self, needed: usize) -> (r: bool)
        ensures
            r == model::has_numbers(self@, needed as nat),
    {
        needed as u128 <= (u64::MAX - self.next_transfer_id) as u128
    }

    /// How many slots are in use.
    pub fn running_len(&self) -> (n: usize)
        requires
            self.wf(),
        ensures
            n == self@.running.len(),
    {
        self.running.len()
    }

    /// Whether a transfer occupies a slot.
    pub fn is_running(&self, tid: u64) -> (r: bool)
        ensures
            r == self@.running.contains(tid),
    {
        self.running.contains(tid)
    }

    /// Where a transfer stands in the list.
    fn position(&self, tid: u64) -> (r: Option<usize>)
        ensures
            match r {
                Some(i) => i < self.rows@.len() && self.rows@[i as int].id == tid,
                None => forall|j: int| 0 <= j < self.rows@.len() ==> self.rows@[j].id != tid,
            },
    {
        let mut i: usize = 0;
        while i < self.rows.len()
            invariant
                i <= self.rows@.len(),
                forall|j: int| 0 <= j < i ==> self.rows@[j].id != tid,
            decreases self.rows@.len() - i,
        {
            if self.rows[i].id == tid {
                return Some(i);
            }
            i += 1;
        }
        None
    }

    /// The transfer of a number.
    pub fn find(&self, tid: u64) -> (r: Option<&Transfer>)
        requires
            self.wf(),
        ensures
            match r {
                Some(t) => model::row_of(self@.rows, tid) == Some(t@),
                None => model::row_of(self@.rows, tid) is None,
            },
    {
        match self.position(tid) {
            Some(i) => {
                proof {
                    laws::lemma_row_at(self@, i as int);
                }
                Some(&self.rows[i])
            },
            None => {
                proof {
                    laws::lemma_no_row(self@.rows, tid);
                }
                None
            },
        }
    }

    /// Whether a tab's queue takes another transfer.
    pub fn has_queue_capacity(&self, tab_id: u64) -> (r: bool)
        ensures
            r == model::has_capacity(self@.rows, tab_id),
    {
        let mut i: usize = 0;
        let mut n: usize = 0;
        let ghost all = self@.rows;
        let ghost mine = |r: model::Row| r.tab_id == tab_id;
        proof {
            laws::lemma_filter_empty(all, mine);
        }
        while i < self.rows.len()
            invariant
                i <= self.rows@.len(),
                n <= i,
                all == model::rows_of(self.rows@),
                mine == (|r: model::Row| r.tab_id == tab_id),
                n == all.take(i as int).filter(mine).len(),
            decreases self.rows@.len() - i,
        {
            proof {
                laws::lemma_filter_step(all, i as int, mine);
            }
            if self.rows[i].tab_id == tab_id {
                n += 1;
            }
            i += 1;
        }
        assert(all.take(i as int) =~= all);
        n < MAX_QUEUE
    }

    /// Whether a worker is writing the file of the transfer at `i`.
    fn target_occupied(&self, i: usize) -> (r: bool)
        requires
            i < self.rows@.len(),
        ensures
            r == model::occupied(self@, model::target(self@.rows[i as int])),
    {
        let ghost t = model::target(self@.rows[i as int]);
        let mut j: usize = 0;
        while j < self.rows.len()
            invariant
                j <= self.rows@.len(),
                i < self.rows@.len(),
                t == model::target(self@.rows[i as int]),
                forall|k: int|
                    0 <= k < j ==> !(((#[trigger] self@.rows[k]).status == TransferStatus::Active
                        || self@.running.contains(self@.rows[k].id)) && model::target(
                        self@.rows[k],
                    ) == t),
            decreases self.rows@.len() - j,
        {
            assert(self@.rows[j as int] == self.rows@[j as int]@);
            if (self.rows[j].status == TransferStatus::Active || self.running.contains(
                self.rows[j].id,
            )) && same_target(&self.rows[j], &self.rows[i]) {
                return true;
            }
            j += 1;
        }
        false
    }

    /// Whether a transfer other than `except` may still need the file that `t` writes.
    fn target_busy(&self, t: &Transfer, except: Option<u64>) -> (r: bool)
        ensures
            r == model::busy(self@, model::target(t@), except),
    {
        let mut j: usize = 0;
        while j < self.rows.len()
            invariant
                j <= self.rows@.len(),
                forall|k: int|
                    0 <= k < j ==> !(Some(#[trigger] self@.rows[k].id) != except && (
                    model::leaves_partial(self@.rows[k]) || self@.running.contains(
                        self@.rows[k].id,
                    )) && model::target(self@.rows[k]) == model::target(t@)),
            decreases self.rows@.len() - j,
        {
            assert(self@.rows[j as int] == self.rows@[j as int]@);
            let excepted = match except {
                Some(e) => self.rows[j].id == e,
                None => false,
            };
            if !excepted && (leaves_partial_on_disk(&self.rows[j]) || self.running.contains(
                self.rows[j].id,
            )) && same_target(&self.rows[j], t) {
                assert(Some(self@.rows[j as int].id) != except);
                return true;
            }
            j += 1;
        }
        false
    }

    /// Starts waiting transfers, in order, while a slot is free. A transfer that cannot be
    /// started is passed over and does not hold up those behind it.
    pub fn start_waiting(&mut self, limit: usize, clients: &HashMap<u64, u64>) -> (jobs: Vec<Job>)
        requires
            old(self).wf(),
        ensures
            final(self).wf(),
            (final(self)@, model::jobs_of(jobs@)) == model::admitted(
                old(self)@,
                0,
                model::slots(limit as int),
                clients@,
            ),
    {
        let slots: usize = if limit < MIN_CONCURRENT {
            MIN_CONCURRENT
        } else if limit > MAX_CONCURRENT {
            MAX_CONCURRENT
        } else {
            limit
        };
        let mut jobs: Vec<Job> = Vec::new();
        let mut i: usize = 0;
        let ghost goal = model::admitted(self@, 0, slots as int, clients@);
        assert(model::jobs_of(jobs@) + goal.1 =~= goal.1);
        while i < self.rows.len() && self.running.len() < slots
            invariant
                self.wf(),
                i <= self.rows@.len(),
                goal.0 == model::admitted(self@, i as int, slots as int, clients@).0,
                goal.1 == model::jobs_of(jobs@) + model::admitted(
                    self@,
                    i as int,
                    slots as int,
                    clients@,
                ).1,
            decreases self.rows@.len() - i,
        {
            let ghost before = self@;
            let ghost rest = model::admitted(before, i as int, slots as int, clients@);
            assert(before.rows[i as int] == self.rows@[i as int]@);
            let client = match lookup(clients, self.rows[i].tab_id) {
                Some(c) => Some(c),
                None => self.rows[i].client,
            };
            if self.rows[i].status == TransferStatus::Queued && !self.running.contains(
                self.rows[i].id,
            ) && client.is_some() && !self.target_occupied(i) {
                assert(model::startable(before, i as int, clients@));
                let id: u64 = self.rows[i].id;
                {
                    let t = &mut self.rows[i];
                    t.status = TransferStatus::Active;
                    t.client = client;
                }
                self.running.insert(id);
                let job = job_from(&self.rows[i]);
                let ghost shown = model::jobs_of(jobs@);
                jobs.push(job);
                proof {
                    let next = model::started(before, i as int, clients@);
                    laws::lemma_started_well_formed(before, i as int, clients@);
                    assert(self@.rows =~= next.rows);
                    assert(self@ =~= next);
                    let after = model::admitted(next, i + 1, slots as int, clients@);
                    assert(rest.1 == seq![job@] + after.1);
                    assert(shown + (seq![job@] + after.1) =~= model::jobs_of(jobs@) + after.1);
                }
            } else {
                assert(!model::startable(before, i as int, clients@));
            }
            i += 1;
        }
        assert(model::jobs_of(jobs@) + Seq::<model::JobView>::empty() =~= model::jobs_of(jobs@));
        jobs
    }

    /// Starts what can be started, and asks for the workers.
    fn pump(&mut self, ctx: &Ctx) -> (events: Vec<Event>)
        requires
            old(self).wf(),
        ensures
            final(self).wf(),
            (final(self)@, model::events_of(events@)) == model::pumped(old(self)@, ctx@),
    {
        let mut jobs = self.start_waiting(ctx.max_concurrent, &ctx.clients);
        let mut events: Vec<Event> = Vec::new();
        let ghost all = model::jobs_of(jobs@);
        let ghost count = jobs@.len();
        while jobs.len() > 0
            invariant
                events@.len() + jobs@.len() == count,
                all.len() == count,
                forall|k: int| 0 <= k < events@.len() ==> #[trigger] events@[k]@
                    == model::EventView::Start(all[k]),
                forall|k: int| 0 <= k < jobs@.len() ==> #[trigger] jobs@[k]@ == all[events@.len()
                    + k],
            decreases jobs@.len(),
        {
            let job = jobs.remove(0);
            events.push(Event::Start(job));
        }
        assert(model::events_of(events@) =~= model::starts(all));
        events
    }

    /// Queues a transfer.
    fn enqueue(
        &mut self,
        tab_id: u64,
        direction: TransferDirection,
        name: String,
        local: LocalPath,
        remote: String,
        client: u64,
    )
        requires
            old(self).wf(),
            old(self)@.next_id < u64::MAX,
        ensures
            final(self).wf(),
            final(self)@ == model::enqueued(
                old(self)@,
                tab_id,
                direction,
                name@,
                local@,
                remote@,
                client,
            ),
    {
        let id: u64 = self.next_transfer_id;
        self.next_transfer_id = id + 1;
        let ghost before = self.rows@;
        self.rows.push(
            Transfer {
                tab_id,
                id,
                direction,
                name,
                local,
                remote,
                transferred: 0,
                total: 0,
                status: TransferStatus::Queued,
                attempts: 0,
                not_before: None,
                partial: None,
                error: None,
                speed_bits: 0,
                client: Some(client),
                resume: None,
                keep_staging: false,
            },
        );
        proof {
            let next = model::enqueued(
                old(self)@,
                tab_id,
                direction,
                name@,
                local@,
                remote@,
                client,
            );
            assert(self@.rows =~= next.rows);
            assert(self@ =~= next);
        }
    }

    /// Files are to be uploaded.
    fn upload(&mut self, tab_id: u64, items: Vec<UploadItem>, ctx: &Ctx) -> (events: Vec<Event>)
        requires
            old(self).wf(),
            old(self)@.next_id + items@.len() <= u64::MAX,
        ensures
            final(self).wf(),
            (final(self)@, model::events_of(events@)) == model::on_upload(
                old(self)@,
                tab_id,
                items@,
                ctx@,
            ),
    {
        if items.len() == 0 {
            let none: Vec<Event> = Vec::new();
            assert(model::events_of(none@) =~= Seq::empty());
            return none;
        }
        let client: u64 = match ctx.client {
            Some(c) => c,
            None => {
                return complain("sftp.not_connected");
            },
        };
        let mut overflow = false;
        let mut i: usize = 0;
        let ghost goal = model::uploads(self@, tab_id, items@, 0, ctx.remote_dir@, client);
        while i < items.len() && !overflow
            invariant
                self.wf(),
                i <= items@.len(),
                self@.next_id + (items@.len() - i) <= u64::MAX,
                !overflow ==> goal == model::uploads(
                    self@,
                    tab_id,
                    items@,
                    i as int,
                    ctx.remote_dir@,
                    client,
                ),
                overflow ==> goal == (self@, true),
            decreases items@.len() - i, !overflow as int,
        {
            if !self.has_queue_capacity(tab_id) {
                overflow = true;
            } else {
                match items[i].local.name() {
                    Some(name) => {
                        if !name.as_str().is_empty() {
                            let remote = tasks::join_path(&ctx.remote_dir, &items[i].rel);
                            self.enqueue(
                                tab_id,
                                TransferDirection::Upload,
                                name,
                                items[i].local.copied(),
                                remote,
                                client,
                            );
                        }
                    },
                    None => {},
                }
                i += 1;
            }
        }
        assert(goal == (self@, overflow));
        let mut events = self.pump(ctx);
        if overflow {
            let ghost begun = events@;
            events.push(Event::Toast(ToastKind::Error, Text::entry("transfer.queue_full")));
            proof {
                assert(model::events_of(events@) =~= model::events_of(begun).push(
                    model::complaint("transfer.queue_full"@),
                ));
            }
        }
        events
    }

    /// A file is to be downloaded.
    fn download(&mut self, tab_id: u64, name: String, local: LocalPath, ctx: &Ctx) -> (events: Vec<
        Event,
    >)
        requires
            old(self).wf(),
            old(self)@.next_id < u64::MAX,
        ensures
            final(self).wf(),
            (final(self)@, model::events_of(events@)) == model::on_download(
                old(self)@,
                tab_id,
                name@,
                local@,
                ctx@,
            ),
    {
        let client: u64 = match ctx.client {
            Some(c) => c,
            None => {
                return complain("sftp.not_connected");
            },
        };
        if self.has_queue_capacity(tab_id) {
            let remote = tasks::join_path(&ctx.remote_dir, &name);
            self.enqueue(tab_id, TransferDirection::Download, name, local, remote, client);
            self.pump(ctx)
        } else {
            let mut events = self.pump(ctx);
            let ghost begun = events@;
            events.push(Event::Toast(ToastKind::Error, Text::entry("transfer.queue_full")));
            proof {
                assert(model::events_of(events@) =~= model::events_of(begun).push(
                    model::complaint("transfer.queue_full"@),
                ));
            }
            events
        }
    }

    /// Progress of a transfer.
    fn progress(&mut self, tab_id: u64, tid: u64, transferred: u64, total: u64, speed: u64)
        requires
            old(self).wf(),
        ensures
            final(self).wf(),
            final(self)@ == (model::Queue {
                rows: model::edited(
                    old(self)@.rows,
                    tid,
                    |x: model::Row| model::progressed(x, tab_id, transferred, total, speed),
                ),
                ..old(self)@
            }),
    {
        let ghost change = |x: model::Row|
            model::progressed(x, tab_id, transferred, total, speed);
        match self.position(tid) {
            Some(i) => {
                assert(self@.rows[i as int] == self.rows@[i as int]@);
                proof {
                    laws::lemma_edit_at(self@, i as int, change);
                    laws::lemma_edited_well_formed(self@, tid, change);
                }
                if self.rows[i].tab_id == tab_id {
                    let t = &mut self.rows[i];
                    t.transferred = transferred;
                    t.total = total;
                    t.speed_bits = speed;
                    if t.status == TransferStatus::Active && transferred > 0 {
                        t.error = None;
                    }
                }
                assert(self@.rows =~= old(self)@.rows.update(
                    i as int,
                    change(old(self)@.rows[i as int]),
                ));
            },
            None => {
                proof {
                    laws::lemma_no_row(self@.rows, tid);
                    assert(model::edited(self@.rows, tid, change) == self@.rows);
                }
            },
        }
    }

    /// A worker found out where to start.
    fn attempt_started(&mut self, tab_id: u64, tid: u64, source: Fingerprint, offset: u64)
        requires
            old(self).wf(),
        ensures
            final(self).wf(),
            final(self)@ == (model::Queue {
                rows: model::edited(
                    old(self)@.rows,
                    tid,
                    |x: model::Row| model::attempted(x, tab_id, source, offset),
                ),
                ..old(self)@
            }),
    {
        let ghost change = |x: model::Row| model::attempted(x, tab_id, source, offset);
        match self.position(tid) {
            Some(i) => {
                assert(self@.rows[i as int] == self.rows@[i as int]@);
                proof {
                    laws::lemma_edit_at(self@, i as int, change);
                    laws::lemma_edited_well_formed(self@, tid, change);
                }
                if self.rows[i].tab_id == tab_id && self.rows[i].status == TransferStatus::Active {
                    let t = &mut self.rows[i];
                    t.resume = Some(ResumeState { source, offset });
                    t.transferred = offset;
                }
                assert(self@.rows =~= old(self)@.rows.update(
                    i as int,
                    change(old(self)@.rows[i as int]),
                ));
            },
            None => {
                proof {
                    laws::lemma_no_row(self@.rows, tid);
                    assert(model::edited(self@.rows, tid, change) == self@.rows);
                }
            },
        }
    }

    /// A worker ended. This is where its slot is freed.
    fn transfer_done(
        &mut self,
        tab_id: u64,
        tid: u64,
        result: Result<(), Failure>,
        ctx: &Ctx,
    ) -> (events: Vec<Event>)
        requires
            old(self).wf(),
            ctx.now_ms + MAX_BACKOFF_MS <= u64::MAX,
        ensures
            final(self).wf(),
            (final(self)@, model::events_of(events@)) == model::on_done(
                old(self)@,
                tab_id,
                tid,
                result,
                ctx@,
            ),
    {
        let ghost q = self@;
        let ghost freed = model::Queue {
            running: q.running.remove(tid),
            handles: q.handles.remove(tid),
            ..q
        };
        self.running.remove(tid);
        self.handles.remove(tid);
        assert(self@ =~= freed);
        let i: usize = match self.position(tid) {
            Some(i) => i,
            None => {
                proof {
                    laws::lemma_no_row(q.rows, tid);
                }
                return self.pump(ctx);
            },
        };
        proof {
            laws::lemma_row_at(q, i as int);
        }
        assert(q.rows[i as int] == self.rows@[i as int]@);
        if self.rows[i].tab_id != tab_id || self.rows[i].status != TransferStatus::Active {
            return self.pump(ctx);
        }
        let ghost r = q.rows[i as int];
        let ghost s = model::settled(r, result, ctx.retry_attempts, ctx.now_ms);
        let ghost change = |x: model::Row| s;
        proof {
            laws::lemma_edit_at(q, i as int, change);
            laws::lemma_edited_well_formed(freed, tid, change);
        }
        match result {
            Ok(_) => {
                let upload = self.rows[i].direction == TransferDirection::Upload;
                {
                    let t = &mut self.rows[i];
                    t.status = TransferStatus::Done;
                    t.error = None;
                    t.not_before = None;
                    t.partial = None;
                    t.keep_staging = false;
                }
                assert(self@.rows =~= q.rows.update(i as int, s));
                assert(self@ =~= model::Queue {
                    rows: model::edited(q.rows, tid, change),
                    ..freed
                });
                let mut events = self.pump(ctx);
                if upload {
                    let ghost begun = events@;
                    events.push(Event::RefreshDir(tab_id));
                    assert(model::events_of(events@) =~= model::events_of(begun).push(
                        model::EventView::RefreshDir(tab_id),
                    ));
                }
                events
            },
            Err(f) => {
                let attempts: u32 = self.rows[i].attempts;
                if f.kind.is_retryable() && attempts < ctx.retry_attempts {
                    let delay: u64 = backoff_delay(attempts);
                    {
                        let t = &mut self.rows[i];
                        t.error = Some(f.message);
                        t.attempts = attempts + 1;
                        t.not_before = Some(ctx.now_ms + delay);
                        t.status = TransferStatus::WaitingRetry;
                    }
                    assert(self@.rows =~= q.rows.update(i as int, s));
                    assert(self@ =~= model::Queue {
                        rows: model::edited(q.rows, tid, change),
                        ..freed
                    });
                    let mut events = self.pump(ctx);
                    let ghost begun = events@;
                    events.push(Event::RetryTimer { delay, tid });
                    assert(model::events_of(events@) =~= model::events_of(begun).push(
                        model::EventView::RetryTimer { delay, tid },
                    ));
                    events
                } else {
                    let keep = f.keep_staging || f.kind != FailureKind::Cancelled;
                    {
                        let t = &mut self.rows[i];
                        t.error = Some(f.message);
                        t.status = TransferStatus::Error;
                        t.not_before = None;
                        t.partial = None;
                        t.keep_staging = f.keep_staging;
                    }
                    assert(self@.rows =~= q.rows.update(i as int, s));
                    assert(self@ =~= model::Queue {
                        rows: model::edited(q.rows, tid, change),
                        ..freed
                    });
                    let ghost edited = self@;
                    let mut events = self.pump(ctx);
                    if !keep {
                        proof {
                            laws::lemma_admitted_keeps(
                                edited,
                                0,
                                model::slots(ctx.max_concurrent as int),
                                ctx.clients@,
                            );
                            assert(self@.rows.len() == self.rows@.len());
                            assert(self@.rows[i as int] == edited.rows[i as int]);
                            assert(self.rows@[i as int]@ == s);
                        }
                        self.clean_up(i, &mut events);
                    }
                    events
                }
            },
        }
    }

    /// Asks for the removal of the staging file of the transfer at `i`, unless another one may
    /// still need it.
    fn clean_up(&self, i: usize, events: &mut Vec<Event>)
        requires
            i < self.rows@.len(),
        ensures
            model::events_of(final(events)@) == model::events_of(old(events)@) + model::cleanup(
                self@,
                self@.rows[i as int],
            ),
    {
        let ghost before = events@;
        assert(self@.rows[i as int] == self.rows@[i as int]@);
        if !self.target_busy(&self.rows[i], Some(self.rows[i].id)) {
            events.push(Event::Cleanup(job_from(&self.rows[i])));
        }
        assert(model::events_of(events@) =~= model::events_of(before) + model::cleanup(
            self@,
            self@.rows[i as int],
        ));
    }

    /// A worker can be stopped from now on.
    fn transfer_handle(&mut self, tid: u64) -> (events: Vec<Event>)
        requires
            old(self).wf(),
        ensures
            final(self).wf(),
            (final(self)@, model::events_of(events@)) == model::on_handle(old(self)@, tid),
    {
        let mut events: Vec<Event> = Vec::new();
        if self.running.contains(tid) {
            self.handles.insert(tid);
            assert(model::events_of(events@) =~= Seq::empty());
        } else {
            events.push(Event::Abort(tid));
            assert(model::events_of(events@) =~= seq![model::EventView::Abort(tid)]);
        }
        events
    }

    /// The user gives a transfer up.
    fn cancel_transfer(&mut self, tid: u64) -> (events: Vec<Event>)
        requires
            old(self).wf(),
        ensures
            final(self).wf(),
            (final(self)@, model::events_of(events@)) == model::on_cancel(old(self)@, tid),
    {
        let ghost q = self@;
        let mut events: Vec<Event> = Vec::new();
        if self.handles.contains(tid) {
            events.push(Event::Abort(tid));
        }
        self.handles.remove(tid);
        assert(model::events_of(events@) =~= model::aborts(q, tid));
        assert(self@ =~= model::Queue { handles: q.handles.remove(tid), ..q });
        if self.running.contains(tid) {
            return events;
        }
        let ghost change = |x: model::Row| model::cancelled(x);
        match self.position(tid) {
            Some(i) => {
                assert(q.rows[i as int] == self.rows@[i as int]@);
                proof {
                    laws::lemma_row_at(q, i as int);
                    laws::lemma_edit_at(q, i as int, change);
                    laws::lemma_edited_well_formed(self@, tid, change);
                }
                if leaves_partial_on_disk(&self.rows[i]) {
                    self.clean_up(i, &mut events);
                }
                if self.rows[i].status == TransferStatus::Queued || self.rows[i].status
                    == TransferStatus::WaitingRetry {
                    let t = &mut self.rows[i];
                    t.status = TransferStatus::Error;
                    t.error = Some(Text::entry("app.canceled"));
                    t.not_before = None;
                    t.partial = None;
                }
                assert(self@.rows =~= q.rows.update(i as int, change(q.rows[i as int])));
            },
            None => {
                proof {
                    laws::lemma_no_row(q.rows, tid);
                    assert(model::edited(q.rows, tid, change) == q.rows);
                }
            },
        }
        events
    }

    /// The user wants a transfer tried again.
    fn retry_transfer(&mut self, tid: u64, ctx: &Ctx) -> (events: Vec<Event>)
        requires
            old(self).wf(),
        ensures
            final(self).wf(),
            (final(self)@, model::events_of(events@)) == model::on_retry(old(self)@, tid, ctx@),
    {
        let ghost q = self@;
        let ghost change = |x: model::Row| model::retried(x);
        match self.position(tid) {
            Some(i) => {
                assert(q.rows[i as int] == self.rows@[i as int]@);
                proof {
                    laws::lemma_edit_at(q, i as int, change);
                    laws::lemma_edited_well_formed(q, tid, change);
                }
                let t = &mut self.rows[i];
                t.status = TransferStatus::Queued;
                t.attempts = 0;
                t.not_before = None;
                t.partial = None;
                t.error = None;
                t.speed_bits = 0;
                assert(self@.rows =~= q.rows.update(i as int, change(q.rows[i as int])));
            },
            None => {
                proof {
                    laws::lemma_no_row(q.rows, tid);
                    assert(model::edited(q.rows, tid, change) == q.rows);
                }
            },
        }
        assert(self@ =~= model::Queue { rows: model::edited(q.rows, tid, change), ..q });
        self.pump(ctx)
    }

    /// The user takes a transfer off the list.
    fn remove_transfer(&mut self, tid: u64, ctx: &Ctx) -> (events: Vec<Event>)
        requires
            old(self).wf(),
        ensures
            final(self).wf(),
            (final(self)@, model::events_of(events@)) == model::on_remove(old(self)@, tid, ctx@),
    {
        let ghost q = self@;
        let none: Vec<Event> = Vec::new();
        assert(model::events_of(none@) =~= Seq::empty());
        let i: usize = match self.position(tid) {
            Some(i) => i,
            None => {
                proof {
                    laws::lemma_no_row(q.rows, tid);
                }
                return none;
            },
        };
        assert(q.rows[i as int] == self.rows@[i as int]@);
        proof {
            laws::lemma_row_at(q, i as int);
        }
        if self.rows[i].status == TransferStatus::Active || self.running.contains(tid) {
            return none;
        }
        proof {
            laws::lemma_removed(q, i as int);
        }
        let row = self.rows.remove(i);
        assert(self@.rows =~= q.rows.remove(i as int));
        assert(self@ =~= model::Queue { rows: q.rows.filter(|x: model::Row| x.id != tid), ..q });
        let mut events = self.pump(ctx);
        if leaves_partial_on_disk(&row) {
            let ghost begun = events@;
            if !self.target_busy(&row, Some(row.id)) {
                events.push(Event::Cleanup(job_from(&row)));
            }
            assert(model::events_of(events@) =~= model::events_of(begun) + model::cleanup(
                self@,
                row@,
            ));
        }
        events
    }

    /// The wait for an automatic retry is over.
    fn retry_due(&mut self, tid: u64, ctx: &Ctx) -> (events: Vec<Event>)
        requires
            old(self).wf(),
        ensures
            final(self).wf(),
            (final(self)@, model::events_of(events@)) == model::on_retry_due(
                old(self)@,
                tid,
                ctx@,
            ),
    {
        let ghost q = self@;
        let ghost change = |x: model::Row| model::due(x);
        let none: Vec<Event> = Vec::new();
        assert(model::events_of(none@) =~= Seq::empty());
        match self.position(tid) {
            Some(i) => {
                assert(q.rows[i as int] == self.rows@[i as int]@);
                proof {
                    laws::lemma_row_at(q, i as int);
                    laws::lemma_edit_at(q, i as int, change);
                    laws::lemma_edited_well_formed(q, tid, change);
                }
                if self.rows[i].status != TransferStatus::WaitingRetry {
                    return none;
                }
                let t = &mut self.rows[i];
                t.status = TransferStatus::Queued;
                t.not_before = None;
                t.partial = None;
                t.speed_bits = 0;
                assert(self@.rows =~= q.rows.update(i as int, change(q.rows[i as int])));
            },
            None => {
                proof {
                    laws::lemma_no_row(q.rows, tid);
                }
                return none;
            },
        }
        assert(self@ =~= model::Queue { rows: model::edited(q.rows, tid, change), ..q });
        self.pump(ctx)
    }

    /// The removal of a staging file ended.
    fn cleanup_done(&mut self, tid: u64, partial: Option<String>) -> (events: Vec<Event>)
        requires
            old(self).wf(),
        ensures
            final(self).wf(),
            (final(self)@, model::events_of(events@)) == model::on_cleanup_done(
                old(self)@,
                tid,
                text::opt(partial),
            ),
    {
        let ghost q = self@;
        let ghost left = text::opt(partial);
        let ghost change = |x: model::Row| model::Row { partial: left, ..x };
        let mut events: Vec<Event> = Vec::new();
        match self.position(tid) {
            Some(i) => {
                assert(q.rows[i as int] == self.rows@[i as int]@);
                proof {
                    laws::lemma_row_at(q, i as int);
                    laws::lemma_edit_at(q, i as int, change);
                    laws::lemma_edited_well_formed(q, tid, change);
                }
                let t = &mut self.rows[i];
                t.partial = partial;
                assert(self@.rows =~= q.rows.update(i as int, change(q.rows[i as int])));
                assert(model::events_of(events@) =~= Seq::empty());
            },
            None => {
                proof {
                    laws::lemma_no_row(q.rows, tid);
                }
                if let Some(path) = partial {
                    events.push(
                        Event::Toast(
                            ToastKind::Error,
                            Text::entry_with("transfer.partial_left", path),
                        ),
                    );
                }
                assert(model::events_of(events@) =~= model::on_cleanup_done(q, tid, left).1);
            },
        }
        events
    }

    /// Takes the transfers of a tab off the list.
    fn take_tab(&mut self, tab_id: u64) -> (closed: Vec<Transfer>)
        requires
            old(self).wf(),
        ensures
            final(self).wf(),
            final(self)@ == (model::Queue {
                rows: model::rows_outside(old(self)@.rows, tab_id),
                ..old(self)@
            }),
            model::rows_of(closed@) == model::rows_in(old(self)@.rows, tab_id),
    {
        let ghost q = self@;
        let ghost mine = |r: model::Row| r.tab_id == tab_id;
        let ghost other = |r: model::Row| r.tab_id != tab_id;
        let mut closed: Vec<Transfer> = Vec::new();
        let mut i: usize = 0;
        let ghost mut k: int = 0;
        proof {
            laws::lemma_filter_empty(q.rows, mine);
            laws::lemma_filter_empty(q.rows, other);
            assert(q.rows.take(0).filter(other) + q.rows.skip(0) =~= q.rows);
            assert(model::rows_of(closed@) =~= Seq::empty());
        }
        while i < self.rows.len()
            invariant
                mine == (|r: model::Row| r.tab_id == tab_id),
                other == (|r: model::Row| r.tab_id != tab_id),
                0 <= k <= q.rows.len(),
                i == q.rows.take(k).filter(other).len(),
                self@ == (model::Queue {
                    rows: q.rows.take(k).filter(other) + q.rows.skip(k),
                    ..q
                }),
                self.rows@.len() - i == q.rows.len() - k,
                self.handles.wf(),
                self.running.wf(),
                model::rows_of(closed@) == q.rows.take(k).filter(mine),
            decreases self.rows@.len() - i,
        {
            let ghost now = self@.rows;
            let ghost kept = q.rows.take(k).filter(other);
            assert(now[i as int] == self.rows@[i as int]@);
            assert(now[i as int] == q.rows[k]);
            proof {
                laws::lemma_filter_step(q.rows, k, mine);
                laws::lemma_filter_step(q.rows, k, other);
            }
            if self.rows[i].tab_id == tab_id {
                let ghost before = closed@;
                let t = self.rows.remove(i);
                closed.push(t);
                assert(self@.rows =~= now.remove(i as int));
                assert(now.remove(i as int) =~= kept + q.rows.skip(k + 1));
                assert(model::rows_of(closed@) =~= model::rows_of(before).push(q.rows[k]));
            } else {
                assert(kept + q.rows.skip(k) =~= kept.push(q.rows[k]) + q.rows.skip(k + 1));
                i += 1;
            }
            proof {
                k = k + 1;
            }
        }
        proof {
            assert(q.rows.take(k) =~= q.rows);
            assert(q.rows.skip(k) =~= Seq::empty());
            assert(q.rows.filter(other) + q.rows.skip(k) =~= q.rows.filter(other));
            laws::lemma_picked_well_formed(q, other);
        }
        closed
    }

    /// A tab was closed.
    fn tab_closed(&mut self, tab_id: u64, ctx: &Ctx) -> (events: Vec<Event>)
        requires
            old(self).wf(),
        ensures
            final(self).wf(),
            (final(self)@, model::events_of(events@)) == model::on_tab_closed(
                old(self)@,
                tab_id,
                ctx@,
            ),
    {
        let ghost q = self@;
        let closed = self.take_tab(tab_id);
        let ghost gone = model::rows_of(closed@);
        let mut events: Vec<Event> = Vec::new();
        let mut i: usize = 0;
        proof {
            laws::lemma_picked_ordered(
                q.rows,
                |r: model::Row| r.tab_id == tab_id,
                q.next_id,
            );
            assert(model::events_of(events@) =~= model::abort_all(gone.take(0), q.handles));
            assert(q.handles.difference(model::ids(gone.take(0))) =~= q.handles);
            assert(q.running.difference(model::ids(gone.take(0))) =~= q.running);
        }
        while i < closed.len()
            invariant
                i <= closed@.len(),
                gone == model::rows_of(closed@),
                self.wf(),
                self@.rows == model::rows_outside(q.rows, tab_id),
                self@.next_id == q.next_id,
                self@.handles == q.handles.difference(model::ids(gone.take(i as int))),
                self@.running == q.running.difference(model::ids(gone.take(i as int))),
                model::events_of(events@) == model::abort_all(gone.take(i as int), q.handles),
                forall|a: int, b: int|
                    #![trigger gone[a], gone[b]]
                    0 <= a < b < gone.len() ==> gone[a].id < gone[b].id,
            decreases closed@.len() - i,
        {
            let id: u64 = closed[i].id;
            assert(gone[i as int].id == id);
            proof {
                laws::lemma_ids_step(gone, i as int);
                assert(gone.take(i + 1).drop_last() =~= gone.take(i as int));
                assert(!model::ids(gone.take(i as int)).contains(id)) by {
                    if exists|k: int|
                        0 <= k < gone.take(i as int).len() && #[trigger] gone.take(i as int)[k].id
                            == id {
                        let k = choose|k: int|
                            0 <= k < gone.take(i as int).len() && #[trigger] gone.take(
                                i as int,
                            )[k].id == id;
                        assert(gone[k].id < gone[i as int].id);
                    }
                }
            }
            let ghost before = events@;
            if self.handles.contains(id) {
                events.push(Event::Abort(id));
                assert(model::events_of(events@) =~= model::events_of(before).push(
                    model::EventView::Abort(id),
                ));
            }
            self.handles.remove(id);
            self.running.remove(id);
            proof {
                assert(self@.handles =~= q.handles.difference(model::ids(gone.take(i + 1))));
                assert(self@.running =~= q.running.difference(model::ids(gone.take(i + 1))));
            }
            i += 1;
        }
        assert(gone.take(i as int) =~= gone);
        let ghost aborted = events@;
        let mut begun = self.pump(ctx);
        let ghost starts = begun@;
        events.append(&mut begun);
        assert(model::events_of(events@) =~= model::events_of(aborted) + model::events_of(starts));
        let ghost front = events@;
        let mut j: usize = 0;
        assert(model::events_of(events@) + model::cleanup_all(gone.take(0), self@)
            =~= model::events_of(events@));
        while j < closed.len()
            invariant
                j <= closed@.len(),
                gone == model::rows_of(closed@),
                model::events_of(events@) == model::events_of(front) + model::cleanup_all(
                    gone.take(j as int),
                    self@,
                ),
            decreases closed@.len() - j,
        {
            assert(gone[j as int] == closed@[j as int]@);
            assert(gone.take(j + 1).drop_last() =~= gone.take(j as int));
            assert(gone.take(j + 1).last() == gone[j as int]);
            let ghost before = events@;
            let ghost removed = model::cleanup_all(gone.take(j as int), self@);
            if leaves_partial_on_disk(&closed[j]) && !left_earlier(&closed, j) && !self.target_busy(
                &closed[j],
                None,
            ) {
                events.push(Event::Cleanup(job_from(&closed[j])));
                let ghost shown = model::EventView::Cleanup(model::job_of(gone[j as int]));
                assert(model::events_of(events@) =~= model::events_of(before).push(shown));
                assert(model::events_of(front) + removed.push(shown) =~= (model::events_of(front)
                    + removed).push(shown));
            }
            j += 1;
        }
        assert(gone.take(j as int) =~= gone);
        events
    }

    /// Takes over a transfer recorded elsewhere, at the place that its number gives it. `running`
    /// says whether a worker of it is already under way.
    pub fn restore(&mut self, t: Transfer, running: bool)
        requires
            old(self).wf(),
            model::row_of(old(self)@.rows, t.id) is None,
            t.id < u64::MAX,
        ensures
            final(self).wf(),
            model::well_formed(final(self)@),
            exists|i: int|
                0 <= i <= old(self)@.rows.len() && final(self)@.rows == #[trigger] old(
                    self,
                )@.rows.insert(i, t@),
            final(self)@.next_id == if t.id >= old(self)@.next_id {
                t.id + 1
            } else {
                old(self)@.next_id
            },
            final(self)@.handles == old(self)@.handles,
            final(self)@.running == if running {
                old(self)@.running.insert(t.id)
            } else {
                old(self)@.running
            },
    {
        let ghost q = self@;
        let id: u64 = t.id;
        let ghost row = t@;
        let mut i: usize = self.rows.len();
        while i > 0 && self.rows[i - 1].id > id
            invariant
                i <= self.rows@.len(),
                q == self@,
                forall|k: int| i <= k < q.rows.len() ==> #[trigger] q.rows[k].id > id,
            decreases i,
        {
            assert(q.rows[i - 1] == self.rows@[i - 1]@);
            i -= 1;
        }
        proof {
            assert forall|k: int| 0 <= k < i implies #[trigger] q.rows[k].id < id by {
                assert(q.rows[i - 1] == self.rows@[i - 1]@);
                if q.rows[k].id == id {
                    laws::lemma_row_at(q, k);
                }
                if k < i - 1 {
                    assert(q.rows[k].id < q.rows[i - 1].id);
                }
            }
        }
        self.rows.insert(i, t);
        assert(self@.rows =~= q.rows.insert(i as int, row));
        if id >= self.next_transfer_id {
            self.next_transfer_id = id + 1;
        }
        if running {
            self.running.insert(id);
        }
        proof {
            let rows = self@.rows;
            assert forall|a: int, b: int|
                #![trigger rows[a], rows[b]]
                0 <= a < b < rows.len() implies rows[a].id < rows[b].id by {
                if a < i && b > i {
                    assert(q.rows[a].id < q.rows[b - 1].id);
                } else if b < i {
                    assert(q.rows[a].id < q.rows[b].id);
                } else if a > i {
                    assert(q.rows[a - 1].id < q.rows[b - 1].id);
                } else if a == i {
                    assert(q.rows[b - 1].id > id);
                } else {
                    assert(q.rows[a].id < id);
                }
            }
            assert forall|a: int|
                #![trigger rows[a]]
                0 <= a < rows.len() implies rows[a].id < self@.next_id by {
                if a < i {
                    assert(q.rows[a].id < q.next_id);
                } else if a > i {
                    assert(q.rows[a - 1].id < q.next_id);
                }
            }
            assert forall|x: u64| #[trigger] self@.running.contains(x) implies x
                < self@.next_id by {
                if x != id {
                    assert(q.running.contains(x));
                }
            }
            let _ = self.running@;
        }
    }

    /// A message is handled: the queue changes, and the events say what else is to be done.
    pub fn update(&mut self, msg: Message, ctx: &Ctx) -> (events: Vec<Event>)
        requires
            old(self).wf(),
            model::fits(old(self)@, msg, ctx.now_ms),
        ensures
            final(self).wf(),
            (final(self)@, model::events_of(events@)) == model::step(old(self)@, msg, ctx@),
    {
        let none: Vec<Event> = Vec::new();
        assert(model::events_of(none@) =~= Seq::empty());
        match msg {
            Message::Upload(tab_id, items) => self.upload(tab_id, items, ctx),
            Message::Download(tab_id, name, local) => self.download(tab_id, name, local, ctx),
            Message::Progress(tab_id, tid, transferred, total, speed) => {
                self.progress(tab_id, tid, transferred, total, speed);
                none
            },
            Message::AttemptStarted { tab_id, tid, source, offset } => {
                self.attempt_started(tab_id, tid, source, offset);
                none
            },
            Message::TransferDone(tab_id, tid, result) => self.transfer_done(
                tab_id,
                tid,
                result,
                ctx,
            ),
            Message::TransferHandle(tid) => self.transfer_handle(tid),
            Message::CancelTransfer(tid) => self.cancel_transfer(tid),
            Message::RetryTransfer(tid) => self.retry_transfer(tid, ctx),
            Message::RemoveTransfer(tid) => self.remove_transfer(tid, ctx),
            Message::RetryDue(tid) => self.retry_due(tid, ctx),
            Message::CleanupDone(tid, partial) => self.cleanup_done(tid, partial),
            Message::ConcurrencyChanged => self.pump(ctx),
            Message::TabClosed(tab_id) => self.tab_closed(tab_id, ctx),
            Message::OpenContainingFolder(local) => {
                let folder = containing_folder(&local);
                let mut events: Vec<Event> = Vec::new();
                events.push(Event::OpenFolder(folder));
                assert(model::events_of(events@) =~= seq![model::EventView::OpenFolder(
                    folder@,
                )]);
                events
            },
        }
    }
}

/// Whether a row before the one at `j` left a staging file at the same place.
fn left_earlier(rows: &Vec<Transfer>, j: usize) -> (r: bool)
    requires
        j < rows@.len(),
    ensures
        r == model::left_at(
            model::rows_of(rows@).take(j as int),
            model::target(rows@[j as int]@),
        ),
{
    let ghost front = model::rows_of(rows@).take(j as int);
    let ghost t = model::target(rows@[j as int]@);
    let mut k: usize = 0;
    while k < j
        invariant
            k <= j < rows@.len(),
            front == model::rows_of(rows@).take(j as int),
            t == model::target(rows@[j as int]@),
            forall|m: int|
                0 <= m < k ==> !(model::leaves_partial(#[trigger] front[m]) && model::target(
                    front[m],
                ) == t),
        decreases j - k,
    {
        assert(front[k as int] == rows@[k as int]@);
        if leaves_partial_on_disk(&rows[k]) && same_target(&rows[k], &rows[j]) {
            return true;
        }
        k += 1;
    }
    false
}

/// One error notification.
fn complain(key: &'static str) -> (events: Vec<Event>)
    ensures
        model::events_of(events@) == seq![model::complaint(key@)],
{
    let mut events: Vec<Event> = Vec::new();
    events.push(Event::Toast(ToastKind::Error, Text::entry(key)));
    assert(model::events_of(events@) =~= seq![model::complaint(key@)]);
    events
}

} // verus!
