//! What the scheduler does, as a function from a queue and a message to the next queue and the
//! events that follow.

use crate::i18n;
use crate::i18n::TextView;
use crate::i18n::ToastKind;
use crate::local_path;
use crate::local_path::PartsView;
use crate::sftp::Fingerprint;
use crate::tasks;
use crate::text;
use crate::transfer::CtxView;
use crate::transfer::Event;
use crate::transfer::Failure;
use crate::transfer::FailureKind;
use crate::transfer::Job;
use crate::transfer::Message;
use crate::transfer::ResumeState;
use crate::transfer::Transfer;
use crate::transfer::TransferDirection;
use crate::transfer::TransferStatus;
use crate::transfer::UploadItem;
use crate::transfer::BASE_BACKOFF_MS;
use crate::transfer::MAX_BACKOFF_MS;
use crate::config::app_config::MAX_CONCURRENT;
use crate::transfer::MAX_QUEUE;
use crate::config::app_config::MIN_CONCURRENT;
use vstd::prelude::*;

verus! {

/// What a [`Transfer`] holds.
#[verifier::ext_equal]
pub struct Row {
    /// The tab that it belongs to.
    pub tab_id: u64,
    /// Its number.
    pub id: u64,
    /// Upload or download.
    pub direction: TransferDirection,
    /// The file's name.
    pub name: Seq<char>,
    /// The local path.
    pub local: Seq<u8>,
    /// The remote path.
    pub remote: Seq<char>,
    /// Bytes done.
    pub transferred: u64,
    /// Bytes in all.
    pub total: u64,
    /// Where it stands.
    pub status: TransferStatus,
    /// Automatic retries used up.
    pub attempts: u32,
    /// When the next retry is due.
    pub not_before: Option<u64>,
    /// A staging file that could not be removed.
    pub partial: Option<Seq<char>>,
    /// Why the last attempt failed.
    pub error: Option<TextView>,
    /// The speed, as bits.
    pub speed_bits: u64,
    /// The channel that it runs on.
    pub client: Option<u64>,
    /// What the last attempt started from.
    pub resume: Option<ResumeState>,
    /// Whether the staging file holds the whole content.
    pub keep_staging: bool,
}

/// What a [`Job`] holds.
#[verifier::ext_equal]
pub struct JobView {
    /// The tab.
    pub tab_id: u64,
    /// The transfer's number.
    pub tid: u64,
    /// Upload or download.
    pub direction: TransferDirection,
    /// The local path.
    pub local: Seq<u8>,
    /// The remote path.
    pub remote: Seq<char>,
    /// The channel to use.
    pub client: Option<u64>,
    /// The fingerprint to resume against.
    pub prior_source: Option<Fingerprint>,
}

/// The file that a transfer writes.
pub enum Target {
    /// A local staging file, by what its path leads along.
    Local(PartsView),
    /// A staging file on the server of a tab.
    Remote(u64, Seq<char>),
}

/// What an [`Event`] holds.
#[verifier::ext_equal]
pub enum EventView {
    /// A notification.
    Toast(ToastKind, TextView),
    /// A tab's directory changed.
    RefreshDir(u64),
    /// A worker starts.
    Start(JobView),
    /// A worker is stopped.
    Abort(u64),
    /// A staging file is removed.
    Cleanup(JobView),
    /// A retry is due after a while.
    RetryTimer {
        /// After how many milliseconds.
        delay: u64,
        /// The transfer.
        tid: u64,
    },
    /// A folder is shown.
    OpenFolder(Seq<u8>),
}

/// The scheduler's state.
#[verifier::ext_equal]
pub struct Queue {
    /// The transfers of all tabs, in the order in which they were asked for.
    pub rows: Seq<Row>,
    /// The number of the next transfer.
    pub next_id: int,
    /// Transfers whose worker can be stopped.
    pub handles: Set<u64>,
    /// Transfers that occupy a slot.
    pub running: Set<u64>,
}

/// No transfers.
pub open spec fn empty_queue() -> Queue {
    Queue { rows: Seq::empty(), next_id: 1, handles: Set::empty(), running: Set::empty() }
}

/// The rows of a list of transfers.
pub open spec fn rows_of(transfers: Seq<Transfer>) -> Seq<Row> {
    Seq::new(transfers.len(), |i: int| transfers[i]@)
}

/// What a list of jobs holds.
pub open spec fn jobs_of(jobs: Seq<Job>) -> Seq<JobView> {
    Seq::new(jobs.len(), |i: int| jobs[i]@)
}

/// What a list of events holds.
pub open spec fn events_of(events: Seq<Event>) -> Seq<EventView> {
    Seq::new(events.len(), |i: int| events[i]@)
}

/// The numbers grow along the list and stay below the next one, also those of the slots.
pub open spec fn well_formed(q: Queue) -> bool {
    &&& forall|i: int, j: int|
        #![trigger q.rows[i], q.rows[j]]
        0 <= i < j < q.rows.len() ==> q.rows[i].id < q.rows[j].id
    &&& forall|i: int| #![trigger q.rows[i]] 0 <= i < q.rows.len() ==> q.rows[i].id < q.next_id
    &&& forall|id: u64| #[trigger] q.running.contains(id) ==> id < q.next_id
    &&& q.running.finite()
    &&& 0 <= q.next_id
}

/// The transfer of this number.
pub open spec fn row_of(rows: Seq<Row>, tid: u64) -> Option<Row> {
    if exists|i: int| 0 <= i < rows.len() && #[trigger] rows[i].id == tid {
        Some(rows[choose|i: int| 0 <= i < rows.len() && #[trigger] rows[i].id == tid])
    } else {
        None
    }
}

/// The rows with one of them changed.
pub open spec fn edited(rows: Seq<Row>, tid: u64, change: spec_fn(Row) -> Row) -> Seq<Row> {
    Seq::new(
        rows.len(),
        |i: int|
            if rows[i].id == tid {
                change(rows[i])
            } else {
                rows[i]
            },
    )
}

/// Where an upload is staged: the final path and a suffix.
pub open spec fn staged(path: Seq<char>) -> Seq<char> {
    path + ".part"@
}

/// The file that a transfer writes.
pub open spec fn target(r: Row) -> Target {
    match r.direction {
        TransferDirection::Download => Target::Local(
            local_path::parts(local_path::staged(r.local)),
        ),
        TransferDirection::Upload => Target::Remote(r.tab_id, staged(r.remote)),
    }
}

/// Whether a transfer may have left an unfinished staging file behind.
pub open spec fn leaves_partial(r: Row) -> bool {
    !r.keep_staging && (r.status == TransferStatus::Active || r.status
        == TransferStatus::WaitingRetry || r.status == TransferStatus::Error)
}

/// Whether a transfer other than `except` may still need this file: it has left an unfinished
/// one there, or its worker has not ended.
pub open spec fn busy(q: Queue, t: Target, except: Option<u64>) -> bool {
    exists|i: int|
        0 <= i < q.rows.len() && Some(#[trigger] q.rows[i].id) != except && (leaves_partial(
            q.rows[i],
        ) || q.running.contains(q.rows[i].id)) && target(q.rows[i]) == t
}

/// Whether a worker is writing this file. A transfer that was put back while its worker runs
/// still counts: the worker writes until it reports its end.
pub open spec fn occupied(q: Queue, t: Target) -> bool {
    exists|i: int|
        0 <= i < q.rows.len() && ((#[trigger] q.rows[i]).status == TransferStatus::Active
            || q.running.contains(q.rows[i].id)) && target(q.rows[i]) == t
}

/// The channel that a transfer would run on: its tab's present one, else the one it was asked
/// for with.
pub open spec fn client_of(r: Row, clients: Map<u64, u64>) -> Option<u64> {
    if clients.contains_key(r.tab_id) {
        Some(clients[r.tab_id])
    } else {
        r.client
    }
}

/// What a worker for this transfer is told.
pub open spec fn job_of(r: Row) -> JobView {
    JobView {
        tab_id: r.tab_id,
        tid: r.id,
        direction: r.direction,
        local: r.local,
        remote: r.remote,
        client: r.client,
        prior_source: match r.resume {
            Some(p) => Some(p.source),
            None => None,
        },
    }
}

/// The number of workers allowed, within what is supported.
pub open spec fn slots(limit: int) -> int {
    if limit < MIN_CONCURRENT {
        MIN_CONCURRENT as int
    } else if limit > MAX_CONCURRENT {
        MAX_CONCURRENT as int
    } else {
        limit
    }
}

/// Whether the transfer at `i` can be started: it waits, no worker of it is left, a channel is
/// there, and nobody writes its file.
pub open spec fn startable(q: Queue, i: int, clients: Map<u64, u64>) -> bool {
    &&& q.rows[i].status == TransferStatus::Queued
    &&& !q.running.contains(q.rows[i].id)
    &&& client_of(q.rows[i], clients) is Some
    &&& !occupied(q, target(q.rows[i]))
}

/// The transfer at `i` as a worker runs it.
pub open spec fn active(r: Row, clients: Map<u64, u64>) -> Row {
    Row { status: TransferStatus::Active, client: client_of(r, clients), ..r }
}

/// The queue after the transfer at `i` was started.
pub open spec fn started(q: Queue, i: int, clients: Map<u64, u64>) -> Queue {
    Queue {
        rows: q.rows.update(i, active(q.rows[i], clients)),
        running: q.running.insert(q.rows[i].id),
        ..q
    }
}

/// Starting, from the transfer at `i` on and in order, whatever can be started while a slot is
/// free. The second part lists the jobs started.
pub open spec fn admitted(q: Queue, i: int, limit: int, clients: Map<u64, u64>) -> (
    Queue,
    Seq<JobView>,
)
    decreases q.rows.len() - i,
{
    if i < 0 || i >= q.rows.len() || q.running.len() >= limit {
        (q, Seq::empty())
    } else if startable(q, i, clients) {
        let rest = admitted(started(q, i, clients), i + 1, limit, clients);
        (rest.0, seq![job_of(active(q.rows[i], clients))] + rest.1)
    } else {
        admitted(q, i + 1, limit, clients)
    }
}

/// Starting what can be started.
pub open spec fn pumped(q: Queue, ctx: CtxView) -> (Queue, Seq<EventView>) {
    let (after, jobs) = admitted(q, 0, slots(ctx.max_concurrent as int), ctx.clients);
    (after, starts(jobs))
}

/// The events that start workers.
pub open spec fn starts(jobs: Seq<JobView>) -> Seq<EventView> {
    jobs.map_values(|j: JobView| EventView::Start(j))
}

/// The rows of a tab.
pub open spec fn rows_in(rows: Seq<Row>, tab_id: u64) -> Seq<Row> {
    rows.filter(|r: Row| r.tab_id == tab_id)
}

/// The rows of the other tabs.
pub open spec fn rows_outside(rows: Seq<Row>, tab_id: u64) -> Seq<Row> {
    rows.filter(|r: Row| r.tab_id != tab_id)
}

/// Whether a tab's queue takes another transfer.
pub open spec fn has_capacity(rows: Seq<Row>, tab_id: u64) -> bool {
    rows_in(rows, tab_id).len() < MAX_QUEUE
}

/// A transfer as it is asked for.
pub open spec fn fresh(
    tab_id: u64,
    id: u64,
    direction: TransferDirection,
    name: Seq<char>,
    local: Seq<u8>,
    remote: Seq<char>,
    client: u64,
) -> Row {
    Row {
        tab_id,
        id,
        direction,
        name,
        local,
        remote,
        transferred: 0,
        total: 0,
        status: TransferStatus::Queued,
        attempts: 0,
        not_before: None,
        partial: None,
        error: None,
        speed_bits: 0,
        client: Some(client),
        resume: None,
        keep_staging: false,
    }
}

/// The queue with one more transfer at its end.
pub open spec fn enqueued(
    q: Queue,
    tab_id: u64,
    direction: TransferDirection,
    name: Seq<char>,
    local: Seq<u8>,
    remote: Seq<char>,
    client: u64,
) -> Queue {
    Queue {
        rows: q.rows.push(
            fresh(tab_id, q.next_id as u64, direction, name, local, remote, client),
        ),
        next_id: q.next_id + 1,
        ..q
    }
}

/// Queueing the files to upload from the `i`-th on, in order. A file without a name is left out;
/// when the tab's queue is full the rest is refused, which the second part says.
pub open spec fn uploads(
    q: Queue,
    tab_id: u64,
    items: Seq<UploadItem>,
    i: int,
    dir: Seq<char>,
    client: u64,
) -> (Queue, bool)
    decreases items.len() - i,
{
    if i < 0 || i >= items.len() {
        (q, false)
    } else if !has_capacity(q.rows, tab_id) {
        (q, true)
    } else {
        match local_path::shown_name(items[i].local@) {
            Some(name) => if name.len() == 0 {
                uploads(q, tab_id, items, i + 1, dir, client)
            } else {
                uploads(
                    enqueued(
                        q,
                        tab_id,
                        TransferDirection::Upload,
                        name,
                        items[i].local@,
                        tasks::join(dir, items[i].rel@),
                        client,
                    ),
                    tab_id,
                    items,
                    i + 1,
                    dir,
                    client,
                )
            },
            None => uploads(q, tab_id, items, i + 1, dir, client),
        }
    }
}

/// An error notification.
pub open spec fn complaint(key: Seq<char>) -> EventView {
    EventView::Toast(ToastKind::Error, i18n::plain(i18n::entry(key)))
}

/// Files are to be uploaded.
pub open spec fn on_upload(q: Queue, tab_id: u64, items: Seq<UploadItem>, ctx: CtxView) -> (
    Queue,
    Seq<EventView>,
) {
    if items.len() == 0 {
        (q, Seq::empty())
    } else {
        match ctx.client {
            None => (q, seq![complaint("sftp.not_connected"@)]),
            Some(client) => {
                let (queued, overflow) = uploads(q, tab_id, items, 0, ctx.remote_dir, client);
                let (after, begun) = pumped(queued, ctx);
                if overflow {
                    (after, begun.push(complaint("transfer.queue_full"@)))
                } else {
                    (after, begun)
                }
            },
        }
    }
}

/// A file is to be downloaded.
pub open spec fn on_download(
    q: Queue,
    tab_id: u64,
    name: Seq<char>,
    local: Seq<u8>,
    ctx: CtxView,
) -> (Queue, Seq<EventView>) {
    match ctx.client {
        None => (q, seq![complaint("sftp.not_connected"@)]),
        Some(client) => if has_capacity(q.rows, tab_id) {
            pumped(
                enqueued(
                    q,
                    tab_id,
                    TransferDirection::Download,
                    name,
                    local,
                    tasks::join(ctx.remote_dir, name),
                    client,
                ),
                ctx,
            )
        } else {
            let (after, begun) = pumped(q, ctx);
            (after, begun.push(complaint("transfer.queue_full"@)))
        },
    }
}

/// A transfer after a progress report. The first byte ends the story of the last failure.
pub open spec fn progressed(r: Row, tab_id: u64, transferred: u64, total: u64, speed: u64) -> Row {
    if r.tab_id != tab_id {
        r
    } else {
        Row {
            transferred,
            total,
            speed_bits: speed,
            error: if r.status == TransferStatus::Active && transferred > 0 {
                None
            } else {
                r.error
            },
            ..r
        }
    }
}

/// A transfer after its worker found out where to start.
pub open spec fn attempted(r: Row, tab_id: u64, source: Fingerprint, offset: u64) -> Row {
    if r.tab_id != tab_id || r.status != TransferStatus::Active {
        r
    } else {
        Row { resume: Some(ResumeState { source, offset }), transferred: offset, ..r }
    }
}

/// `base` doubled `n` times.
pub open spec fn doubled(base: nat, n: nat) -> nat
    decreases n,
{
    if n == 0 {
        base
    } else {
        2 * doubled(base, (n - 1) as nat)
    }
}

/// How long to wait, in milliseconds, before the automatic retry that follows `attempt` others:
/// twice as long each time, up to a bound.
pub open spec fn backoff(attempt: u32) -> u64 {
    if doubled(BASE_BACKOFF_MS as nat, attempt as nat) > MAX_BACKOFF_MS {
        MAX_BACKOFF_MS
    } else {
        doubled(BASE_BACKOFF_MS as nat, attempt as nat) as u64
    }
}

/// Whether waiting can help after such a failure.
pub open spec fn retryable(kind: FailureKind) -> bool {
    kind == FailureKind::Transient || kind == FailureKind::Unknown
}

/// Whether a failure is followed by an automatic retry.
pub open spec fn retries(r: Row, f: Failure, budget: u32) -> bool {
    retryable(f.kind) && r.attempts < budget
}

/// A transfer after its worker ended.
pub open spec fn settled(r: Row, result: Result<(), Failure>, budget: u32, now: u64) -> Row {
    match result {
        Ok(_) => Row {
            status: TransferStatus::Done,
            error: None,
            not_before: None,
            partial: None,
            keep_staging: false,
            ..r
        },
        Err(f) => if retries(r, f, budget) {
            Row {
                status: TransferStatus::WaitingRetry,
                error: Some(f.message@),
                attempts: (r.attempts + 1) as u32,
                not_before: Some((now + backoff(r.attempts)) as u64),
                ..r
            }
        } else {
            Row {
                status: TransferStatus::Error,
                error: Some(f.message@),
                not_before: None,
                partial: None,
                keep_staging: f.keep_staging,
                ..r
            }
        },
    }
}

/// Whether the result of a worker settles this transfer: it is the tab's and still counted as
/// running. A late result of a transfer that the user has since put back changes nothing.
pub open spec fn settles(r: Row, tab_id: u64) -> bool {
    r.tab_id == tab_id && r.status == TransferStatus::Active
}

/// The staging file of a job is removed, unless another transfer may still need it.
pub open spec fn cleanup(q: Queue, r: Row) -> Seq<EventView> {
    if busy(q, target(r), Some(r.id)) {
        Seq::empty()
    } else {
        seq![EventView::Cleanup(job_of(r))]
    }
}

/// A worker ended.
pub open spec fn on_done(
    q: Queue,
    tab_id: u64,
    tid: u64,
    result: Result<(), Failure>,
    ctx: CtxView,
) -> (Queue, Seq<EventView>) {
    let freed = Queue { running: q.running.remove(tid), handles: q.handles.remove(tid), ..q };
    match row_of(q.rows, tid) {
        Some(r) => if settles(r, tab_id) {
            let s = settled(r, result, ctx.retry_attempts, ctx.now_ms);
            let (after, begun) = pumped(
                Queue { rows: edited(q.rows, tid, |x: Row| s), ..freed },
                ctx,
            );
            match result {
                Ok(_) => if r.direction == TransferDirection::Upload {
                    (after, begun.push(EventView::RefreshDir(tab_id)))
                } else {
                    (after, begun)
                },
                Err(f) => if retries(r, f, ctx.retry_attempts) {
                    (after, begun.push(EventView::RetryTimer { delay: backoff(r.attempts), tid }))
                } else if f.kind == FailureKind::Cancelled && !f.keep_staging {
                    (after, begun + cleanup(after, s))
                } else {
                    (after, begun)
                },
            }
        } else {
            pumped(freed, ctx)
        },
        None => pumped(freed, ctx),
    }
}

/// A worker can be stopped from now on. One that holds no slot any more is stopped at once.
pub open spec fn on_handle(q: Queue, tid: u64) -> (Queue, Seq<EventView>) {
    if q.running.contains(tid) {
        (Queue { handles: q.handles.insert(tid), ..q }, Seq::empty())
    } else {
        (q, seq![EventView::Abort(tid)])
    }
}

/// The event that stops a worker, where one can be stopped.
pub open spec fn aborts(q: Queue, tid: u64) -> Seq<EventView> {
    if q.handles.contains(tid) {
        seq![EventView::Abort(tid)]
    } else {
        Seq::empty()
    }
}

/// A waiting transfer that the user gave up.
pub open spec fn cancelled(r: Row) -> Row {
    if r.status == TransferStatus::Queued || r.status == TransferStatus::WaitingRetry {
        Row {
            status: TransferStatus::Error,
            error: Some(i18n::plain(i18n::entry("app.canceled"@))),
            not_before: None,
            partial: None,
            ..r
        }
    } else {
        r
    }
}

/// The user gives a transfer up. A running one is only stopped: its end is reported later.
pub open spec fn on_cancel(q: Queue, tid: u64) -> (Queue, Seq<EventView>) {
    let stopped = Queue { handles: q.handles.remove(tid), ..q };
    if q.running.contains(tid) {
        (stopped, aborts(q, tid))
    } else {
        let after = Queue { rows: edited(q.rows, tid, |x: Row| cancelled(x)), ..stopped };
        match row_of(q.rows, tid) {
            Some(r) => if leaves_partial(r) {
                (after, aborts(q, tid) + cleanup(q, r))
            } else {
                (after, aborts(q, tid))
            },
            None => (after, aborts(q, tid)),
        }
    }
}

/// A transfer that the user wants tried again.
pub open spec fn retried(r: Row) -> Row {
    Row {
        status: TransferStatus::Queued,
        attempts: 0,
        not_before: None,
        partial: None,
        error: None,
        speed_bits: 0,
        ..r
    }
}

/// The user wants a transfer tried again.
pub open spec fn on_retry(q: Queue, tid: u64, ctx: CtxView) -> (Queue, Seq<EventView>) {
    pumped(Queue { rows: edited(q.rows, tid, |x: Row| retried(x)), ..q }, ctx)
}

/// The user takes a transfer off the list. One that runs, or whose worker has not ended, stays.
pub open spec fn on_remove(q: Queue, tid: u64, ctx: CtxView) -> (Queue, Seq<EventView>) {
    match row_of(q.rows, tid) {
        None => (q, Seq::empty()),
        Some(r) => if r.status == TransferStatus::Active || q.running.contains(tid) {
            (q, Seq::empty())
        } else {
            let (after, begun) = pumped(
                Queue { rows: q.rows.filter(|x: Row| x.id != tid), ..q },
                ctx,
            );
            if leaves_partial(r) {
                (after, begun + cleanup(after, r))
            } else {
                (after, begun)
            }
        },
    }
}

/// A transfer whose wait is over. Why it failed is still shown.
pub open spec fn due(r: Row) -> Row {
    Row { status: TransferStatus::Queued, not_before: None, partial: None, speed_bits: 0, ..r }
}

/// The wait for an automatic retry is over. If the transfer no longer waits, nothing happens.
pub open spec fn on_retry_due(q: Queue, tid: u64, ctx: CtxView) -> (Queue, Seq<EventView>) {
    match row_of(q.rows, tid) {
        None => (q, Seq::empty()),
        Some(r) => if r.status == TransferStatus::WaitingRetry {
            pumped(Queue { rows: edited(q.rows, tid, |x: Row| due(x)), ..q }, ctx)
        } else {
            (q, Seq::empty())
        },
    }
}

/// A removal ended; a path means that the file is still there.
pub open spec fn on_cleanup_done(q: Queue, tid: u64, partial: Option<Seq<char>>) -> (
    Queue,
    Seq<EventView>,
) {
    match row_of(q.rows, tid) {
        Some(_) => (
            Queue { rows: edited(q.rows, tid, |x: Row| Row { partial, ..x }), ..q },
            Seq::empty(),
        ),
        None => match partial {
            Some(path) => (
                q,
                seq![EventView::Toast(
                    ToastKind::Error,
                    i18n::plain(i18n::entry_with("transfer.partial_left"@, path)),
                )],
            ),
            None => (q, Seq::empty()),
        },
    }
}

/// The numbers of some rows.
pub open spec fn ids(rows: Seq<Row>) -> Set<u64> {
    Set::new(|id: u64| exists|i: int| 0 <= i < rows.len() && #[trigger] rows[i].id == id)
}

/// The events that stop the workers of some rows.
pub open spec fn abort_all(rows: Seq<Row>, handles: Set<u64>) -> Seq<EventView>
    decreases rows.len(),
{
    if rows.len() == 0 {
        Seq::empty()
    } else if handles.contains(rows.last().id) {
        abort_all(rows.drop_last(), handles).push(EventView::Abort(rows.last().id))
    } else {
        abort_all(rows.drop_last(), handles)
    }
}

/// Whether one of some rows has left a staging file at `t`.
pub open spec fn left_at(rows: Seq<Row>, t: Target) -> bool {
    exists|i: int|
        0 <= i < rows.len() && leaves_partial(#[trigger] rows[i]) && target(rows[i]) == t
}

/// The staging files that some rows leave behind are removed, each once, unless a transfer in
/// `live` may still need it.
pub open spec fn cleanup_all(rows: Seq<Row>, live: Queue) -> Seq<EventView>
    decreases rows.len(),
{
    if rows.len() == 0 {
        Seq::empty()
    } else {
        let r = rows.last();
        let before = cleanup_all(rows.drop_last(), live);
        if leaves_partial(r) && !left_at(rows.drop_last(), target(r)) && !busy(
            live,
            target(r),
            None,
        ) {
            before.push(EventView::Cleanup(job_of(r)))
        } else {
            before
        }
    }
}

/// A tab is closed: its workers are stopped, their slots are free at once, its transfers are
/// gone and so are their staging files.
pub open spec fn on_tab_closed(q: Queue, tab_id: u64, ctx: CtxView) -> (Queue, Seq<EventView>) {
    let closed = rows_in(q.rows, tab_id);
    let (after, begun) = pumped(
        Queue {
            rows: rows_outside(q.rows, tab_id),
            handles: q.handles.difference(ids(closed)),
            running: q.running.difference(ids(closed)),
            ..q
        },
        ctx,
    );
    (after, abort_all(closed, q.handles) + begun + cleanup_all(closed, after))
}

/// The first byte of an attempt: where the staging file ends, if the source is still what the
/// last attempt saw and the staging file is not longer than it; else the beginning.
pub open spec fn resume_from(prev: Option<Fingerprint>, now: Fingerprint, partial: u64) -> u64 {
    if prev == Some(now) && partial <= now.len {
        partial
    } else {
        0
    }
}

/// What a message does to the queue, and the events that follow.
pub open spec fn step(q: Queue, msg: Message, ctx: CtxView) -> (Queue, Seq<EventView>) {
    match msg {
        Message::Upload(tab_id, items) => on_upload(q, tab_id, items@, ctx),
        Message::Download(tab_id, name, local) => on_download(q, tab_id, name@, local@, ctx),
        Message::Progress(tab_id, tid, transferred, total, speed) => (
            Queue {
                rows: edited(
                    q.rows,
                    tid,
                    |x: Row| progressed(x, tab_id, transferred, total, speed),
                ),
                ..q
            },
            Seq::empty(),
        ),
        Message::AttemptStarted { tab_id, tid, source, offset } => (
            Queue {
                rows: edited(q.rows, tid, |x: Row| attempted(x, tab_id, source, offset)),
                ..q
            },
            Seq::empty(),
        ),
        Message::TransferDone(tab_id, tid, result) => on_done(q, tab_id, tid, result, ctx),
        Message::TransferHandle(tid) => on_handle(q, tid),
        Message::CancelTransfer(tid) => on_cancel(q, tid),
        Message::RetryTransfer(tid) => on_retry(q, tid, ctx),
        Message::RemoveTransfer(tid) => on_remove(q, tid, ctx),
        Message::RetryDue(tid) => on_retry_due(q, tid, ctx),
        Message::CleanupDone(tid, partial) => on_cleanup_done(q, tid, text::opt(partial)),
        Message::ConcurrencyChanged => pumped(q, ctx),
        Message::TabClosed(tab_id) => on_tab_closed(q, tab_id, ctx),
        Message::OpenContainingFolder(local) => (
            q,
            seq![EventView::OpenFolder(local_path::folder(local@))],
        ),
    }
}

/// Whether there are numbers left for so many more transfers.
pub open spec fn has_numbers(q: Queue, needed: nat) -> bool {
    needed > 0 ==> q.next_id + needed <= u64::MAX
}

/// Whether a message stays within the limits of the machine: there are numbers left for what it
/// asks for, and the time that a wait ends at can be told.
pub open spec fn fits(q: Queue, msg: Message, now_ms: u64) -> bool {
    &&& has_numbers(q, ids_needed(msg))
    &&& msg is TransferDone ==> now_ms + MAX_BACKOFF_MS <= u64::MAX
}

/// How many numbers a message may use up.
pub open spec fn ids_needed(msg: Message) -> nat {
    match msg {
        Message::Upload(_, items) => items@.len(),
        Message::Download(_, _, _) => 1,
        _ => 0,
    }
}

} // verus!
