//! What each message comes to: told of the transfers themselves, before and after.

use crate::i18n;
use crate::i18n::ToastKind;
use crate::local_path;
use crate::sftp::Fingerprint;
use crate::tasks;
use crate::transfer::laws;
use crate::transfer::model;
use crate::transfer::model::{EventView, JobView, Queue, Row};
use crate::transfer::{
    CtxView, Failure, FailureKind, Message, ResumeState, TransferDirection, TransferStatus, UploadItem,
    MAX_BACKOFF_MS, MAX_QUEUE,
};
use vstd::prelude::*;

verus! {

/// Whether a transfer is as it was, or waited and now runs: on its tab's channel, or on the one
/// that it was asked for with where the tab has none.
pub open spec fn begun_from(a: Row, b: Row, clients: Map<u64, u64>) -> bool {
    b == a || (a.status == TransferStatus::Queued && b == (Row {
        status: TransferStatus::Active,
        client: if clients.contains_key(a.tab_id) {
            Some(clients[a.tab_id])
        } else {
            a.client
        },
        ..a
    }))
}

/// Whether a job is what a transfer says: the same files, the same way, on the same channel, and
/// with what the last attempt found of the source.
pub open spec fn job_for(job: JobView, r: Row) -> bool {
    &&& job.tid == r.id
    &&& job.tab_id == r.tab_id
    &&& job.direction == r.direction
    &&& job.local == r.local
    &&& job.remote == r.remote
    &&& job.client == r.client
    &&& job.prior_source == match r.resume {
        Some(state) => Some(state.source),
        None => None::<Fingerprint>,
    }
}

/// Whether a transfer is still for the same thing: the same file from the same place to the same
/// place, for the same tab.
pub open spec fn same_purpose(a: Row, b: Row) -> bool {
    &&& a.id == b.id
    &&& a.tab_id == b.tab_id
    &&& a.direction == b.direction
    &&& a.name == b.name
    &&& a.local == b.local
    &&& a.remote == b.remote
}

/// How many transfers a tab has.
pub open spec fn load_of(rows: Seq<Row>, tab_id: u64) -> nat {
    rows.filter(|r: Row| r.tab_id == tab_id).len()
}

/// Whether a transfer is new: it was asked for with these, nothing is done of it, and nothing went
/// wrong with it.
pub open spec fn untouched(
    r: Row,
    tab_id: u64,
    direction: TransferDirection,
    name: Seq<char>,
    local: Seq<u8>,
    remote: Seq<char>,
    client: u64,
) -> bool {
    &&& r.tab_id == tab_id
    &&& r.direction == direction
    &&& r.name == name
    &&& r.local == local
    &&& r.remote == remote
    &&& r.transferred == 0 && r.total == 0 && r.attempts == 0 && r.speed_bits == 0
    &&& r.not_before is None && r.partial is None && r.error is None && r.resume is None
    &&& !r.keep_staging
    &&& r.status == TransferStatus::Queued
    &&& r.client == Some(client)
}

proof fn lemma_outcome(q: Queue, msg: Message, ctx: CtxView)
    requires
        model::well_formed(q),
    ensures
        ({
            let base = laws::changed(q, msg, ctx);
            let after = model::step(q, msg, ctx).0;
            &&& after.rows.len() == base.rows.len()
            &&& forall|k: int|
                #![trigger after.rows[k]]
                #![trigger base.rows[k]]
                0 <= k < base.rows.len() ==> begun_from(base.rows[k], after.rows[k], ctx.clients)
        }),
{
    laws::law_change_then_start(q, msg, ctx);
    laws::lemma_admitted_keeps(
        laws::changed(q, msg, ctx),
        0,
        model::slots(ctx.max_concurrent as int),
        ctx.clients,
    );
    let base = laws::changed(q, msg, ctx);
    let after = model::step(q, msg, ctx).0;
    assert forall|k: int|
        #![trigger after.rows[k]]
        #![trigger base.rows[k]]
        0 <= k < base.rows.len() implies begun_from(base.rows[k], after.rows[k], ctx.clients) by {
        assert(after.rows[k] == after.rows[k]);
    }
}

/// What a worker is told is what its transfer says, and the transfer counts as running then, on a
/// channel that is there.
pub proof fn law_workers_do_what_was_asked_for(q: Queue, msg: Message, ctx: CtxView, job: JobView)
    requires
        model::well_formed(q),
        model::has_numbers(q, model::ids_needed(msg)),
        model::step(q, msg, ctx).1.contains(EventView::Start(job)),
    ensures
        exists|k: int|
            0 <= k < model::step(q, msg, ctx).0.rows.len() && job_for(
                job,
                #[trigger] model::step(q, msg, ctx).0.rows[k],
            ) && model::step(q, msg, ctx).0.rows[k].status == TransferStatus::Active,
{
    let base = laws::changed(q, msg, ctx);
    let limit = model::slots(ctx.max_concurrent as int);
    laws::law_change_then_start(q, msg, ctx);
    laws::lemma_changed(q, msg, ctx);
    assert(laws::starts_job(model::step(q, msg, ctx).1, job));
    let jobs = laws::jobs_started(q, msg, ctx);
    let n = choose|n: int| 0 <= n < jobs.len() && jobs[n] == job;
    laws::lemma_admitted_running(base, 0, limit, ctx.clients);
    assert(laws::job_from(base, 0, ctx.clients, jobs[n]));
    let r = choose|r: int|
        0 <= r < base.rows.len() && base.rows[r].status == TransferStatus::Queued && jobs[n]
            == #[trigger] model::job_of(model::active(base.rows[r], ctx.clients));
    laws::lemma_admitted_started(base, 0, limit, ctx.clients);
    assert(laws::tids(jobs).contains(jobs[n].tid));
    let after = model::step(q, msg, ctx).0;
    assert(after.rows[r] == model::active(base.rows[r], ctx.clients));
    assert(job_for(job, after.rows[r]));
}

/// A download asks for the file of that name in the directory that is shown, and for the place that
/// was picked. It comes behind all others, under a number of its own, and may start at once.
pub proof fn law_a_download_fetches_what_was_picked(
    q: Queue,
    tab_id: u64,
    name: String,
    local: crate::local_path::LocalPath,
    ctx: CtxView,
)
    requires
        model::well_formed(q),
        q.next_id < u64::MAX,
        ctx.client is Some,
        load_of(q.rows, tab_id) < MAX_QUEUE,
    ensures
        ({
            let after = model::step(q, Message::Download(tab_id, name, local), ctx).0;
            let n = q.rows.len() as int;
            let dir = ctx.remote_dir;
            &&& after.next_id == q.next_id + 1
            &&& after.rows.len() == n + 1
            &&& forall|k: int|
                0 <= k < n ==> begun_from(q.rows[k], #[trigger] after.rows[k], ctx.clients)
            &&& exists|r: Row| #[trigger]
                begun_from(r, after.rows[n], ctx.clients) && r.id == q.next_id && untouched(
                    r,
                    tab_id,
                    TransferDirection::Download,
                    name@,
                    local@,
                    tasks::join(dir, name@),
                    ctx.client->0,
                )
            &&& after.rows[n].local == local@
            &&& tasks::is_name(name@) && name@ != seq!['.', '.'] && dir.len() > 0 && dir != seq!['.']
                && dir.last() != '/' ==> after.rows[n].remote == dir.push('/') + name@
            &&& tasks::is_name(name@) && name@ != seq!['.', '.'] && dir == seq!['/']
                ==> after.rows[n].remote == dir + name@
        }),
{
    let msg = Message::Download(tab_id, name, local);
    lemma_outcome(q, msg, ctx);
    laws::law_change_then_start(q, msg, ctx);
    let base = laws::changed(q, msg, ctx);
    let after = model::step(q, msg, ctx).0;
    let n = q.rows.len() as int;
    laws::lemma_admitted_keeps(
        base,
        0,
        model::slots(ctx.max_concurrent as int),
        ctx.clients,
    );
    assert(model::has_capacity(q.rows, tab_id));
    assert(base.rows == q.rows.push(base.rows[n]));
    assert(begun_from(base.rows[n], after.rows[n], ctx.clients));
    assert forall|k: int| 0 <= k < n implies begun_from(
        q.rows[k],
        #[trigger] after.rows[k],
        ctx.clients,
    ) by {
        assert(base.rows[k] == q.rows[k]);
    }
    if tasks::is_name(name@) && name@ != seq!['.', '.'] && ctx.remote_dir.len() > 0 {
        tasks::law_joined_paths_lead_back(ctx.remote_dir, name@);
        assert(seq!['/'].last() == '/');
    }
}

/// The name of a file to upload, where it has one that can be shown.
pub open spec fn uploadable(item: UploadItem) -> bool {
    local_path::shown_name(item.local@) is Some && local_path::shown_name(item.local@)->0.len() > 0
}

/// Whether a transfer is the upload of a file: from its own path, to its place below the directory
/// that is shown.
pub open spec fn upload_of(r: Row, item: UploadItem, tab_id: u64, dir: Seq<char>, client: u64) -> bool {
    uploadable(item) && untouched(
        r,
        tab_id,
        TransferDirection::Upload,
        local_path::shown_name(item.local@)->0,
        item.local@,
        tasks::join(dir, item.rel@),
        client,
    )
}

/// The files that can be uploaded, from the one of number `i` on.
pub open spec fn picked(items: Seq<UploadItem>, i: int) -> Seq<UploadItem>
    decreases items.len() - i,
{
    if i < 0 || i >= items.len() {
        Seq::empty()
    } else if uploadable(items[i]) {
        seq![items[i]] + picked(items, i + 1)
    } else {
        picked(items, i + 1)
    }
}

proof fn lemma_picked(items: Seq<UploadItem>, i: int)
    requires
        0 <= i <= items.len(),
    ensures
        picked(items, i).len() <= items.len() - i,
        forall|k: int|
            0 <= k < picked(items, i).len() ==> uploadable(#[trigger] picked(items, i)[k]),
        forall|k: int|
            i <= k < items.len() && uploadable(#[trigger] items[k]) ==> picked(items, i).contains(
                items[k],
            ),
    decreases items.len() - i,
{
    if i < items.len() {
        lemma_picked(items, i + 1);
        let rest = picked(items, i + 1);
        let all = picked(items, i);
        assert forall|k: int| i <= k < items.len() && uploadable(#[trigger] items[k]) implies all.contains(
            items[k],
        ) by {
            if k == i {
                assert(all[0] == items[i]);
            } else {
                assert(rest.contains(items[k]));
                let n = choose|n: int| 0 <= n < rest.len() && rest[n] == items[k];
                if uploadable(items[i]) {
                    assert(all[n + 1] == items[k]);
                }
            }
        }
        assert forall|k: int| 0 <= k < all.len() implies uploadable(#[trigger] all[k]) by {
            if uploadable(items[i]) {
                if k > 0 {
                    assert(all[k] == rest[k - 1]);
                }
            } else {
                assert(all[k] == rest[k]);
            }
        }
    }
}

proof fn lemma_load(rows: Seq<Row>, r: Row, tab_id: u64)
    ensures
        load_of(rows.push(r), tab_id) == load_of(rows, tab_id) + if r.tab_id == tab_id {
            1nat
        } else {
            0
        },
{
    reveal(Seq::filter);
    assert(rows.push(r).drop_last() =~= rows);
}

proof fn lemma_uploads_queued(
    q: Queue,
    tab_id: u64,
    items: Seq<UploadItem>,
    i: int,
    dir: Seq<char>,
    client: u64,
)
    requires
        0 <= i <= items.len(),
        load_of(q.rows, tab_id) + picked(items, i).len() < MAX_QUEUE,
        0 <= q.next_id,
        q.next_id + (items.len() - i) <= u64::MAX,
    ensures
        ({
            let (after, full) = model::uploads(q, tab_id, items, i, dir, client);
            let wanted = picked(items, i);
            &&& !full
            &&& after.rows.len() == q.rows.len() + wanted.len()
            &&& after.next_id == q.next_id + wanted.len()
            &&& forall|k: int|
                #![trigger after.rows[k]]
                0 <= k < q.rows.len() ==> after.rows[k] == q.rows[k]
            &&& forall|k: int|
                #![trigger after.rows[k]]
                q.rows.len() <= k < after.rows.len() ==> after.rows[k].id == q.next_id + (k
                    - q.rows.len()) && upload_of(
                    after.rows[k],
                    wanted[k - q.rows.len()],
                    tab_id,
                    dir,
                    client,
                )
        }),
    decreases items.len() - i,
{
    lemma_picked(items, i);
    if i < items.len() {
        assert(model::has_capacity(q.rows, tab_id));
        let wanted = picked(items, i);
        let rest = picked(items, i + 1);
        if uploadable(items[i]) {
            let next = model::enqueued(
                q,
                tab_id,
                TransferDirection::Upload,
                local_path::shown_name(items[i].local@)->0,
                items[i].local@,
                tasks::join(dir, items[i].rel@),
                client,
            );
            lemma_load(q.rows, next.rows.last(), tab_id);
            assert(wanted.len() == rest.len() + 1);
            lemma_uploads_queued(next, tab_id, items, i + 1, dir, client);
            let after = model::uploads(next, tab_id, items, i + 1, dir, client).0;
            assert forall|k: int|
                #![trigger after.rows[k]]
                q.rows.len() <= k < after.rows.len() implies after.rows[k].id == q.next_id + (k
                - q.rows.len()) && upload_of(
                after.rows[k],
                wanted[k - q.rows.len()],
                tab_id,
                dir,
                client,
            ) by {
                if k == q.rows.len() {
                    assert(after.rows[k] == next.rows[k]);
                    assert(wanted[0] == items[i]);
                } else {
                    assert(wanted[k - q.rows.len()] == rest[k - next.rows.len()]);
                }
            }
            assert forall|k: int| #![trigger after.rows[k]] 0 <= k < q.rows.len() implies after.rows[k]
                == q.rows[k] by {
                assert(after.rows[k] == next.rows[k]);
            }
        } else {
            lemma_uploads_queued(q, tab_id, items, i + 1, dir, client);
        }
    }
}

/// Files that are to be uploaded are queued in their order, each with its own path, for its place
/// below the directory that is shown; all of them but those without a name, and nothing else. They
/// come behind all others and have numbers of their own.
pub proof fn law_uploads_send_what_was_picked(
    q: Queue,
    tab_id: u64,
    items: Vec<UploadItem>,
    ctx: CtxView,
)
    requires
        model::well_formed(q),
        q.next_id + items@.len() <= u64::MAX,
        ctx.client is Some,
        load_of(q.rows, tab_id) + items@.len() < MAX_QUEUE,
    ensures
        ({
            let after = model::step(q, Message::Upload(tab_id, items), ctx).0;
            let wanted = picked(items@, 0);
            let n = q.rows.len() as int;
            &&& after.rows.len() == n + wanted.len()
            &&& forall|k: int|
                0 <= k < n ==> begun_from(q.rows[k], #[trigger] after.rows[k], ctx.clients)
            &&& forall|k: int|
                n <= k < after.rows.len() ==> {
                    let r = #[trigger] after.rows[k];
                    let item = wanted[k - n];
                    &&& r.id == q.next_id + (k - n)
                    &&& r.tab_id == tab_id
                    &&& r.direction == TransferDirection::Upload
                    &&& r.local == item.local@
                    &&& r.remote == tasks::join(ctx.remote_dir, item.rel@)
                    &&& Some(r.name) == local_path::shown_name(item.local@)
                    &&& r.status == TransferStatus::Queued || r.status == TransferStatus::Active
                    &&& r.transferred == 0 && r.attempts == 0 && r.error is None && r.resume is None
                }
            &&& forall|i: int|
                0 <= i < items@.len() && uploadable(#[trigger] items@[i]) ==> wanted.contains(items@[i])
        }),
{
    let msg = Message::Upload(tab_id, items);
    let client = ctx.client->0;
    lemma_picked(items@, 0);
    lemma_uploads_queued(q, tab_id, items@, 0, ctx.remote_dir, client);
    lemma_outcome(q, msg, ctx);
    let base = laws::changed(q, msg, ctx);
    let after = model::step(q, msg, ctx).0;
    assert forall|k: int| 0 <= k < q.rows.len() implies begun_from(
        q.rows[k],
        #[trigger] after.rows[k],
        ctx.clients,
    ) by {
        assert(base.rows[k] == q.rows[k]);
    }
}

/// Without a channel nothing is queued, and the user is told so; where a tab has too many
/// transfers already, a download is refused, and the user is told that.
pub proof fn law_what_cannot_be_queued_is_refused(
    q: Queue,
    tab_id: u64,
    name: String,
    local: crate::local_path::LocalPath,
    items: Vec<UploadItem>,
    ctx: CtxView,
)
    requires
        model::well_formed(q),
    ensures
        ctx.client is None ==> model::step(q, Message::Download(tab_id, name, local), ctx) == (
            q,
            seq![
                EventView::Toast(
                    ToastKind::Error,
                    i18n::plain(i18n::entry("sftp.not_connected"@)),
                ),
            ],
        ),
        ctx.client is None && items@.len() > 0 ==> model::step(q, Message::Upload(tab_id, items), ctx)
            == (
            q,
            seq![
                EventView::Toast(
                    ToastKind::Error,
                    i18n::plain(i18n::entry("sftp.not_connected"@)),
                ),
            ],
        ),
        items@.len() == 0 ==> model::step(q, Message::Upload(tab_id, items), ctx) == (
            q,
            Seq::<EventView>::empty(),
        ),
        ctx.client is Some && load_of(q.rows, tab_id) >= MAX_QUEUE ==> ({
            let (after, events) = model::step(q, Message::Download(tab_id, name, local), ctx);
            &&& after.rows.len() == q.rows.len()
            &&& forall|k: int|
                0 <= k < q.rows.len() ==> begun_from(q.rows[k], #[trigger] after.rows[k], ctx.clients)
            &&& events.len() > 0
            &&& events.last() == EventView::Toast(
                ToastKind::Error,
                i18n::plain(i18n::entry("transfer.queue_full"@)),
            )
        }),
        ctx.client is Some && load_of(q.rows, tab_id) >= MAX_QUEUE && items@.len() > 0 ==> ({
            let (after, events) = model::step(q, Message::Upload(tab_id, items), ctx);
            &&& after.rows.len() == q.rows.len()
            &&& events.len() > 0
            &&& events.last() == EventView::Toast(
                ToastKind::Error,
                i18n::plain(i18n::entry("transfer.queue_full"@)),
            )
        }),
{
    lemma_outcome(q, Message::Download(tab_id, name, local), ctx);
    lemma_outcome(q, Message::Upload(tab_id, items), ctx);
}

/// Whether all but one of the transfers are as they were, or were started.
pub open spec fn others_begun(q: Queue, after: Queue, i: int, clients: Map<u64, u64>) -> bool {
    &&& after.rows.len() == q.rows.len()
    &&& after.next_id == q.next_id
    &&& forall|k: int|
        0 <= k < q.rows.len() && k != i ==> begun_from(q.rows[k], #[trigger] after.rows[k], clients)
}

proof fn lemma_edit_outcome(q: Queue, msg: Message, ctx: CtxView, i: int, f: spec_fn(Row) -> Row)
    requires
        model::well_formed(q),
        0 <= i < q.rows.len(),
        laws::changed(q, msg, ctx).rows == model::edited(q.rows, q.rows[i].id, f),
        laws::changed(q, msg, ctx).next_id == q.next_id,
    ensures
        others_begun(q, model::step(q, msg, ctx).0, i, ctx.clients),
        begun_from(f(q.rows[i]), model::step(q, msg, ctx).0.rows[i], ctx.clients),
{
    lemma_outcome(q, msg, ctx);
    laws::lemma_edit_at(q, i, f);
    laws::lemma_row_at(q, i);
    laws::law_change_then_start(q, msg, ctx);
    let base = laws::changed(q, msg, ctx);
    laws::lemma_admitted_keeps(
        base,
        0,
        model::slots(ctx.max_concurrent as int),
        ctx.clients,
    );
    let after = model::step(q, msg, ctx).0;
    assert(base.rows[i] == f(q.rows[i]));
    assert forall|k: int| 0 <= k < q.rows.len() && k != i implies begun_from(
        q.rows[k],
        #[trigger] after.rows[k],
        ctx.clients,
    ) by {
        assert(base.rows[k] == q.rows[k]);
    }
}

/// The end of a worker that went well: its transfer is done, with nothing to complain of; and of an
/// upload the directory is shown anew.
pub proof fn law_a_good_end_is_done(q: Queue, i: int, ctx: CtxView)
    requires
        model::well_formed(q),
        0 <= i < q.rows.len(),
        q.rows[i].status == TransferStatus::Active,
    ensures
        ({
            let r = q.rows[i];
            let msg = Message::TransferDone(r.tab_id, r.id, Ok(()));
            let (after, events) = model::step(q, msg, ctx);
            &&& others_begun(q, after, i, ctx.clients)
            &&& after.rows[i] == (Row {
                status: TransferStatus::Done,
                error: None,
                not_before: None,
                partial: None,
                keep_staging: false,
                ..r
            })
            &&& r.direction == TransferDirection::Upload ==> events.contains(
                EventView::RefreshDir(r.tab_id),
            )
        }),
{
    let r = q.rows[i];
    let result: Result<(), Failure> = Ok(());
    let msg = Message::TransferDone(r.tab_id, r.id, result);
    let f = |x: Row|
        if model::settles(x, r.tab_id) {
            model::settled(x, result, ctx.retry_attempts, ctx.now_ms)
        } else {
            x
        };
    lemma_edit_outcome(q, msg, ctx, i, f);
    laws::lemma_row_at(q, i);
    let events = model::step(q, msg, ctx).1;
    if r.direction == TransferDirection::Upload {
        assert(events.last() == EventView::RefreshDir(r.tab_id));
        assert(events[events.len() - 1] == EventView::RefreshDir(r.tab_id));
    }
}

/// The end of a worker that failed: where waiting can help and there are retries left, the transfer
/// waits for one, a retry is used up, and the wait is asked for; else it has failed for good. The
/// reason is kept, and the whole content too where it is there.
pub proof fn law_a_bad_end_waits_or_fails(q: Queue, i: int, f: Failure, ctx: CtxView)
    requires
        model::well_formed(q),
        0 <= i < q.rows.len(),
        q.rows[i].status == TransferStatus::Active,
        ctx.now_ms + MAX_BACKOFF_MS <= u64::MAX,
    ensures
        ({
            let r = q.rows[i];
            let msg = Message::TransferDone(r.tab_id, r.id, Err(f));
            let (after, events) = model::step(q, msg, ctx);
            let wait = model::backoff(r.attempts);
            let passing = f.kind == FailureKind::Transient || f.kind == FailureKind::Unknown;
            &&& others_begun(q, after, i, ctx.clients)
            &&& passing && r.attempts < ctx.retry_attempts ==> after.rows[i] == (Row {
                status: TransferStatus::WaitingRetry,
                error: Some(f.message@),
                attempts: (r.attempts + 1) as u32,
                not_before: Some((ctx.now_ms + wait) as u64),
                ..r
            }) && events.contains(EventView::RetryTimer { delay: wait, tid: r.id })
            &&& !passing || r.attempts >= ctx.retry_attempts ==> after.rows[i] == (Row {
                status: TransferStatus::Error,
                error: Some(f.message@),
                not_before: None,
                partial: None,
                keep_staging: f.keep_staging,
                ..r
            }) && forall|delay: u64| !events.contains(EventView::RetryTimer { delay, tid: r.id })
        }),
{
    let r = q.rows[i];
    let result: Result<(), Failure> = Err(f);
    let msg = Message::TransferDone(r.tab_id, r.id, result);
    let change = |x: Row|
        if model::settles(x, r.tab_id) {
            model::settled(x, result, ctx.retry_attempts, ctx.now_ms)
        } else {
            x
        };
    lemma_edit_outcome(q, msg, ctx, i, change);
    laws::lemma_row_at(q, i);
    let events = model::step(q, msg, ctx).1;
    if model::retries(r, f, ctx.retry_attempts) {
        assert(events[events.len() - 1] == EventView::RetryTimer {
            delay: model::backoff(r.attempts),
            tid: r.id,
        });
    } else {
        assert forall|delay: u64| !events.contains(EventView::RetryTimer { delay, tid: r.id }) by {
            if events.contains(EventView::RetryTimer { delay, tid: r.id }) {
                let k = choose|k: int|
                    0 <= k < events.len() && events[k] == EventView::RetryTimer { delay, tid: r.id };
                assert(events[k] is Start || events[k] is Cleanup);
            }
        }
    }
}

/// How long is waited: the first time as long as is set, and then twice as long as the time before,
/// up to the longest wait.
pub proof fn law_each_wait_is_twice_the_last(n: u32)
    requires
        n < u32::MAX,
    ensures
        model::backoff(0) == 1_500,
        2 * model::backoff(n) <= 8_000 ==> model::backoff((n + 1) as u32) == 2 * model::backoff(n),
        2 * model::backoff(n) > 8_000 ==> model::backoff((n + 1) as u32) == 8_000,
{
    laws::law_backoff_grows_up_to_a_bound(n, (n + 1) as u32);
}

/// A result for a transfer of another tab, or for one that does not count as running any more, is
/// not taken for the transfer's own.
pub proof fn law_a_stray_result_settles_nothing(
    q: Queue,
    i: int,
    tab_id: u64,
    result: Result<(), Failure>,
    ctx: CtxView,
)
    requires
        model::well_formed(q),
        0 <= i < q.rows.len(),
        q.rows[i].tab_id != tab_id || q.rows[i].status != TransferStatus::Active,
    ensures
        ({
            let after = model::step(q, Message::TransferDone(tab_id, q.rows[i].id, result), ctx).0;
            others_begun(q, after, i, ctx.clients) && begun_from(
                q.rows[i],
                after.rows[i],
                ctx.clients,
            )
        }),
{
    let f = |x: Row|
        if model::settles(x, tab_id) {
            model::settled(x, result, ctx.retry_attempts, ctx.now_ms)
        } else {
            x
        };
    lemma_edit_outcome(q, Message::TransferDone(tab_id, q.rows[i].id, result), ctx, i, f);
}

/// What a worker reports on the way is taken down for its transfer and for no other: how far it has
/// come and how fast, and where the attempt started and from what. The first byte ends the story
/// of the last failure.
pub proof fn law_reports_are_taken_down(
    q: Queue,
    i: int,
    transferred: u64,
    total: u64,
    speed: u64,
    source: Fingerprint,
    offset: u64,
    ctx: CtxView,
)
    requires
        model::well_formed(q),
        0 <= i < q.rows.len(),
    ensures
        ({
            let r = q.rows[i];
            let running = r.status == TransferStatus::Active;
            &&& model::step(q, Message::Progress(r.tab_id, r.id, transferred, total, speed), ctx) == (
                Queue {
                    rows: q.rows.update(
                        i,
                        Row {
                            transferred,
                            total,
                            speed_bits: speed,
                            error: if running && transferred > 0 {
                                None
                            } else {
                                r.error
                            },
                            ..r
                        },
                    ),
                    ..q
                },
                Seq::<EventView>::empty(),
            )
            &&& model::step(
                q,
                Message::AttemptStarted { tab_id: r.tab_id, tid: r.id, source, offset },
                ctx,
            ) == (
                Queue {
                    rows: q.rows.update(
                        i,
                        if running {
                            Row {
                                resume: Some(ResumeState { source, offset }),
                                transferred: offset,
                                ..r
                            }
                        } else {
                            r
                        },
                    ),
                    ..q
                },
                Seq::<EventView>::empty(),
            )
        }),
{
    let r = q.rows[i];
    laws::lemma_edit_at(q, i, |x: Row| model::progressed(x, r.tab_id, transferred, total, speed));
    laws::lemma_edit_at(q, i, |x: Row| model::attempted(x, r.tab_id, source, offset));
}

/// Reports that name another tab than the transfer's, or no transfer, change nothing.
pub proof fn law_stray_reports_change_nothing(
    q: Queue,
    tab_id: u64,
    tid: u64,
    transferred: u64,
    total: u64,
    speed: u64,
    source: Fingerprint,
    offset: u64,
    ctx: CtxView,
)
    requires
        model::well_formed(q),
        forall|i: int|
            0 <= i < q.rows.len() && (#[trigger] q.rows[i]).id == tid ==> q.rows[i].tab_id != tab_id,
    ensures
        model::step(q, Message::Progress(tab_id, tid, transferred, total, speed), ctx) == (
            q,
            Seq::<EventView>::empty(),
        ),
        model::step(q, Message::AttemptStarted { tab_id, tid, source, offset }, ctx) == (
            q,
            Seq::<EventView>::empty(),
        ),
{
    assert(model::edited(
        q.rows,
        tid,
        |x: Row| model::progressed(x, tab_id, transferred, total, speed),
    ) =~= q.rows);
    assert(model::edited(q.rows, tid, |x: Row| model::attempted(x, tab_id, source, offset))
        =~= q.rows);
}

/// A transfer that the user gives up: where it runs, its worker is stopped, and its end decides;
/// where it waits, it has failed at once, as given up; and what it has left behind is removed unless
/// another still needs it. What is over stays as it is.
pub proof fn law_what_is_given_up_ends(q: Queue, i: int, ctx: CtxView)
    requires
        model::well_formed(q),
        0 <= i < q.rows.len(),
    ensures
        ({
            let r = q.rows[i];
            let (after, events) = model::step(q, Message::CancelTransfer(r.id), ctx);
            let waits = r.status == TransferStatus::Queued || r.status
                == TransferStatus::WaitingRetry;
            &&& after.running == q.running
            &&& after.handles == q.handles.remove(r.id)
            &&& q.handles.contains(r.id) ==> events.contains(EventView::Abort(r.id))
            &&& q.running.contains(r.id) || !waits ==> after.rows == q.rows
            &&& !q.running.contains(r.id) && waits ==> after.rows == q.rows.update(
                i,
                Row {
                    status: TransferStatus::Error,
                    error: Some(i18n::plain(i18n::entry("app.canceled"@))),
                    not_before: None,
                    partial: None,
                    ..r
                },
            )
            &&& !q.running.contains(r.id) && !r.keep_staging && (r.status
                == TransferStatus::WaitingRetry || r.status == TransferStatus::Error)
                && !model::busy(q, model::target(r), Some(r.id)) ==> exists|job: JobView| #[trigger]
                events.contains(EventView::Cleanup(job)) && job_for(job, r)
        }),
{
    let r = q.rows[i];
    laws::lemma_row_at(q, i);
    laws::lemma_edit_at(q, i, |x: Row| model::cancelled(x));
    let (after, events) = model::step(q, Message::CancelTransfer(r.id), ctx);
    assert(q.rows.update(i, r) =~= q.rows);
    if q.handles.contains(r.id) {
        assert(events[0] == EventView::Abort(r.id));
    }
    if !q.running.contains(r.id) && model::leaves_partial(r) && !model::busy(
        q,
        model::target(r),
        Some(r.id),
    ) {
        assert(events[events.len() - 1] == EventView::Cleanup(model::job_of(r)));
        assert(events.contains(EventView::Cleanup(model::job_of(r))));
        assert(job_for(model::job_of(r), r));
    }
}

/// A transfer that is to be tried again waits in its place as if nothing had gone wrong, with all
/// its retries; what was copied before is still known.
pub proof fn law_what_is_tried_again_waits(q: Queue, i: int, ctx: CtxView)
    requires
        model::well_formed(q),
        0 <= i < q.rows.len(),
    ensures
        ({
            let r = q.rows[i];
            let after = model::step(q, Message::RetryTransfer(r.id), ctx).0;
            &&& others_begun(q, after, i, ctx.clients)
            &&& begun_from(
                Row {
                    status: TransferStatus::Queued,
                    attempts: 0,
                    not_before: None,
                    partial: None,
                    error: None,
                    speed_bits: 0,
                    ..r
                },
                after.rows[i],
                ctx.clients,
            )
        }),
{
    lemma_edit_outcome(
        q,
        Message::RetryTransfer(q.rows[i].id),
        ctx,
        i,
        |x: Row| model::retried(x),
    );
}

/// When the wait for a retry is over, the transfer waits for a slot. The retries that were used
/// stay used, and why it failed is still told.
pub proof fn law_a_retry_that_is_due_waits_for_a_slot(q: Queue, i: int, ctx: CtxView)
    requires
        model::well_formed(q),
        0 <= i < q.rows.len(),
        q.rows[i].status == TransferStatus::WaitingRetry,
    ensures
        ({
            let r = q.rows[i];
            let after = model::step(q, Message::RetryDue(r.id), ctx).0;
            &&& others_begun(q, after, i, ctx.clients)
            &&& begun_from(
                Row {
                    status: TransferStatus::Queued,
                    not_before: None,
                    partial: None,
                    speed_bits: 0,
                    ..r
                },
                after.rows[i],
                ctx.clients,
            )
        }),
{
    lemma_edit_outcome(
        q,
        Message::RetryDue(q.rows[i].id),
        ctx,
        i,
        |x: Row|
            if x.status == TransferStatus::WaitingRetry {
                model::due(x)
            } else {
                x
            },
    );
}

/// A transfer that is taken off the list is gone, and the others are still there in their order. One
/// that runs, or whose worker has not ended, stays.
pub proof fn law_what_is_taken_off_is_gone(q: Queue, i: int, ctx: CtxView)
    requires
        model::well_formed(q),
        0 <= i < q.rows.len(),
    ensures
        ({
            let r = q.rows[i];
            let (after, events) = model::step(q, Message::RemoveTransfer(r.id), ctx);
            if r.status == TransferStatus::Active || q.running.contains(r.id) {
                after == q && events.len() == 0
            } else {
                &&& after.rows.len() == q.rows.len() - 1
                &&& forall|k: int|
                    0 <= k < after.rows.len() ==> begun_from(
                        q.rows[if k < i {
                            k
                        } else {
                            k + 1
                        }],
                        #[trigger] after.rows[k],
                        ctx.clients,
                    )
            }
        }),
{
    let r = q.rows[i];
    let msg = Message::RemoveTransfer(r.id);
    laws::lemma_row_at(q, i);
    if !(r.status == TransferStatus::Active || q.running.contains(r.id)) {
        lemma_outcome(q, msg, ctx);
        laws::lemma_removed(q, i);
        let base = laws::changed(q, msg, ctx);
        let after = model::step(q, msg, ctx).0;
        assert(base.rows == q.rows.remove(i));
        assert forall|k: int| 0 <= k < after.rows.len() implies begun_from(
            q.rows[if k < i {
                k
            } else {
                k + 1
            }],
            #[trigger] after.rows[k],
            ctx.clients,
        ) by {
            assert(begun_from(base.rows[k], after.rows[k], ctx.clients));
        }
    }
}

/// What removing a staging file came to is told where the transfer is, or, where that is gone, told
/// to the user.
pub proof fn law_leftovers_are_told(q: Queue, tid: u64, partial: Option<String>, ctx: CtxView)
    requires
        model::well_formed(q),
    ensures
        ({
            let (after, events) = model::step(q, Message::CleanupDone(tid, partial), ctx);
            let left = crate::text::opt(partial);
            &&& forall|i: int|
                0 <= i < q.rows.len() && (#[trigger] q.rows[i]).id == tid ==> after == (Queue {
                    rows: q.rows.update(i, Row { partial: left, ..q.rows[i] }),
                    ..q
                }) && events.len() == 0
            &&& (forall|i: int| 0 <= i < q.rows.len() ==> (#[trigger] q.rows[i]).id != tid) ==> after
                == q && events == match left {
                Some(path) => seq![
                    EventView::Toast(
                        ToastKind::Error,
                        i18n::plain(i18n::entry_with("transfer.partial_left"@, path)),
                    ),
                ],
                None => Seq::empty(),
            }
        }),
{
    let left = crate::text::opt(partial);
    let (after, events) = model::step(q, Message::CleanupDone(tid, partial), ctx);
    assert forall|i: int| 0 <= i < q.rows.len() && (#[trigger] q.rows[i]).id == tid implies after == (
    Queue { rows: q.rows.update(i, Row { partial: left, ..q.rows[i] }), ..q }) && events.len()
        == 0 by {
        laws::lemma_row_at(q, i);
        laws::lemma_edit_at(q, i, |x: Row| Row { partial: left, ..x });
    }
}

/// A worker that can be stopped is remembered while it holds a slot; one that holds none any more
/// is stopped at once.
pub proof fn law_workers_can_be_stopped(q: Queue, tid: u64, ctx: CtxView)
    ensures
        q.running.contains(tid) ==> model::step(q, Message::TransferHandle(tid), ctx) == (
            Queue { handles: q.handles.insert(tid), ..q },
            Seq::<EventView>::empty(),
        ),
        !q.running.contains(tid) ==> model::step(q, Message::TransferHandle(tid), ctx) == (
            q,
            seq![EventView::Abort(tid)],
        ),
{
}

/// As many transfers may run as is set, within what is supported.
pub proof fn law_the_limit_is_the_one_that_is_set(limit: int)
    ensures
        1 <= limit <= 8 ==> model::slots(limit) == limit,
        limit < 1 ==> model::slots(limit) == 1,
        limit > 8 ==> model::slots(limit) == 8,
{
}

/// Whether a transfer was there before, and was for the same thing.
pub open spec fn was_there(rows: Seq<Row>, r: Row) -> bool {
    exists|k: int| 0 <= k < rows.len() && same_purpose(#[trigger] rows[k], r)
}

/// No message makes a transfer one of something else: what is on the list afterwards is new, or was
/// there before, under the same number, for the same tab, with the same files.
pub proof fn law_transfers_stay_what_they_are_for(q: Queue, msg: Message, ctx: CtxView, k: int)
    requires
        model::well_formed(q),
        model::has_numbers(q, model::ids_needed(msg)),
        0 <= k < model::step(q, msg, ctx).0.rows.len(),
        model::step(q, msg, ctx).0.rows[k].id < q.next_id,
    ensures
        was_there(q.rows, model::step(q, msg, ctx).0.rows[k]),
{
    lemma_outcome(q, msg, ctx);
    let base = laws::changed(q, msg, ctx);
    let after = model::step(q, msg, ctx).0;
    assert(begun_from(base.rows[k], after.rows[k], ctx.clients));
    assert(same_purpose(base.rows[k], after.rows[k]));
    lemma_changed_purpose(q, msg, ctx, k);
    let n = choose|n: int| 0 <= n < q.rows.len() && same_purpose(#[trigger] q.rows[n], base.rows[k]);
    assert(same_purpose(q.rows[n], after.rows[k]));
}

proof fn lemma_edited_purpose(q: Queue, tid: u64, f: spec_fn(Row) -> Row, k: int)
    requires
        0 <= k < q.rows.len(),
        same_purpose(q.rows[k], f(q.rows[k])),
    ensures
        same_purpose(q.rows[k], model::edited(q.rows, tid, f)[k]),
{
}

#[verifier::spinoff_prover]
proof fn lemma_changed_purpose(q: Queue, msg: Message, ctx: CtxView, k: int)
    requires
        model::well_formed(q),
        model::has_numbers(q, model::ids_needed(msg)),
        0 <= k < laws::changed(q, msg, ctx).rows.len(),
        laws::changed(q, msg, ctx).rows[k].id < q.next_id,
    ensures
        was_there(q.rows, laws::changed(q, msg, ctx).rows[k]),
{
    let base = laws::changed(q, msg, ctx);
    match msg {
        Message::Upload(tab_id, items) => {
            if let Some(client) = ctx.client {
                laws::lemma_uploads(q, tab_id, items@, 0, ctx.remote_dir, client);
                assert(base.rows.take(q.rows.len() as int)[k] == base.rows[k]);
            }
            assert(same_purpose(q.rows[k], base.rows[k]));
        },
        Message::RemoveTransfer(tid) => {
            laws::lemma_picked_ordered(q.rows, |x: Row| x.id != tid, q.next_id);
            assert(q.rows.contains(base.rows[k]));
            let n = choose|n: int| 0 <= n < q.rows.len() && q.rows[n] == base.rows[k];
            assert(same_purpose(q.rows[n], base.rows[k]));
        },
        Message::TabClosed(tab_id) => {
            laws::lemma_picked_ordered(q.rows, |x: Row| x.tab_id != tab_id, q.next_id);
            assert(q.rows.contains(base.rows[k]));
            let n = choose|n: int| 0 <= n < q.rows.len() && q.rows[n] == base.rows[k];
            assert(same_purpose(q.rows[n], base.rows[k]));
        },
        Message::Download(_, _, _) => {
            assert(same_purpose(q.rows[k], base.rows[k]));
        },
        Message::Progress(tab_id, tid, transferred, total, speed) => {
            let f = |x: Row| model::progressed(x, tab_id, transferred, total, speed);
            lemma_edited_purpose(q, tid, f, k);
        },
        Message::AttemptStarted { tab_id, tid, source, offset } => {
            let f = |x: Row| model::attempted(x, tab_id, source, offset);
            lemma_edited_purpose(q, tid, f, k);
        },
        Message::TransferDone(tab_id, tid, result) => {
            let f = |x: Row|
                if model::settles(x, tab_id) {
                    model::settled(x, result, ctx.retry_attempts, ctx.now_ms)
                } else {
                    x
                };
            lemma_edited_purpose(q, tid, f, k);
        },
        Message::CancelTransfer(tid) => {
            lemma_edited_purpose(q, tid, |x: Row| model::cancelled(x), k);
            assert(same_purpose(q.rows[k], base.rows[k]));
        },
        Message::RetryTransfer(tid) => {
            lemma_edited_purpose(q, tid, |x: Row| model::retried(x), k);
        },
        Message::RetryDue(tid) => {
            let f = |x: Row|
                if x.status == TransferStatus::WaitingRetry {
                    model::due(x)
                } else {
                    x
                };
            lemma_edited_purpose(q, tid, f, k);
        },
        Message::CleanupDone(tid, partial) => {
            let left = crate::text::opt(partial);
            lemma_edited_purpose(q, tid, |x: Row| Row { partial: left, ..x }, k);
            assert(same_purpose(q.rows[k], base.rows[k]));
        },
        _ => {
            assert(same_purpose(q.rows[k], base.rows[k]));
        },
    }
}

/// Whether two transfers write the same file: two downloads to one place, however that is spelled,
/// or two uploads to one path on the server of one tab.
pub open spec fn share_a_file(a: Row, b: Row) -> bool {
    let part = seq![0x2eu8, 0x70, 0x61, 0x72, 0x74];
    if a.direction == TransferDirection::Download {
        b.direction == TransferDirection::Download && local_path::parts(a.local + part)
            == local_path::parts(b.local + part)
    } else {
        b.direction == TransferDirection::Upload && a.tab_id == b.tab_id && a.remote == b.remote
    }
}

/// Whether a transfer may have left a staging file that is not whole.
pub open spec fn unfinished(r: Row) -> bool {
    !r.keep_staging && r.status != TransferStatus::Queued && r.status != TransferStatus::Done
}

/// Two transfers are told to write one file exactly where they do; and one is told to have left an
/// unfinished file exactly where it has run and did not come to its end.
pub proof fn law_transfers_of_one_file_are_known(a: Row, b: Row)
    ensures
        model::target(a) == model::target(b) <==> share_a_file(a, b),
        model::leaves_partial(a) <==> unfinished(a),
{
    let part = seq![0x2eu8, 0x70, 0x61, 0x72, 0x74];
    assert(local_path::staged(a.local) =~= a.local + part);
    assert(local_path::staged(b.local) =~= b.local + part);
    laws::lemma_staged_injective(a.remote, b.remote);
}

/// No two workers write one file, after whatever messages: where it holds before a message it holds
/// after it, and it holds of a queue without transfers.
pub proof fn law_each_file_has_one_writer(q: Queue, msg: Message, ctx: CtxView, i: int, j: int)
    requires
        model::well_formed(q),
        model::has_numbers(q, model::ids_needed(msg)),
        forall|a: int, b: int|
            #![trigger q.rows[a], q.rows[b]]
            0 <= a < q.rows.len() && 0 <= b < q.rows.len() && a != b && q.running.contains(
                q.rows[a].id,
            ) && q.running.contains(q.rows[b].id) ==> !share_a_file(q.rows[a], q.rows[b]),
        0 <= i < model::step(q, msg, ctx).0.rows.len(),
        0 <= j < model::step(q, msg, ctx).0.rows.len(),
        i != j,
        model::step(q, msg, ctx).0.running.contains(model::step(q, msg, ctx).0.rows[i].id),
        model::step(q, msg, ctx).0.running.contains(model::step(q, msg, ctx).0.rows[j].id),
    ensures
        !share_a_file(model::step(q, msg, ctx).0.rows[i], model::step(q, msg, ctx).0.rows[j]),
{
    let after = model::step(q, msg, ctx).0;
    assert(laws::exclusive(q)) by {
        assert forall|a: int, b: int|
            #![trigger q.rows[a], q.rows[b]]
            0 <= a < q.rows.len() && 0 <= b < q.rows.len() && a != b && q.running.contains(
                q.rows[a].id,
            ) && q.running.contains(q.rows[b].id) implies model::target(q.rows[a])
            != model::target(q.rows[b]) by {
            law_transfers_of_one_file_are_known(q.rows[a], q.rows[b]);
        }
    }
    laws::law_no_two_workers_write_one_file(q, msg, ctx);
    law_transfers_of_one_file_are_known(after.rows[i], after.rows[j]);
}

/// Whether a message calls for waiting transfers to be started: something was asked for over a
/// channel, a slot may have become free, or the limit changed.
pub open spec fn calls_for_starts(q: Queue, msg: Message, ctx: CtxView) -> bool {
    match msg {
        Message::Upload(_, items) => items@.len() > 0 && ctx.client is Some,
        Message::Download(_, _, _) => ctx.client is Some,
        Message::TransferDone(_, _, _) => true,
        Message::RetryTransfer(_) => true,
        Message::ConcurrencyChanged => true,
        Message::TabClosed(_) => true,
        Message::RetryDue(tid) => exists|i: int|
            0 <= i < q.rows.len() && (#[trigger] q.rows[i]).id == tid && q.rows[i].status
                == TransferStatus::WaitingRetry,
        _ => false,
    }
}

/// No slot stays idle: after such a message, a transfer that waits, that has no worker left, that
/// has a channel, and whose file nobody writes, waits only because all slots are in use.
pub proof fn law_no_slot_stays_idle(q: Queue, msg: Message, ctx: CtxView, k: int)
    requires
        model::well_formed(q),
        model::has_numbers(q, model::ids_needed(msg)),
        calls_for_starts(q, msg, ctx),
        0 <= k < model::step(q, msg, ctx).0.rows.len(),
        ({
            let after = model::step(q, msg, ctx).0;
            let r = after.rows[k];
            &&& r.status == TransferStatus::Queued
            &&& !after.running.contains(r.id)
            &&& r.client is Some || ctx.clients.contains_key(r.tab_id)
            &&& forall|i: int|
                #![trigger after.rows[i]]
                0 <= i < after.rows.len() && (after.rows[i].status == TransferStatus::Active
                    || after.running.contains(after.rows[i].id)) ==> !share_a_file(after.rows[i], r)
        }),
    ensures
        ({
            let limit = ctx.max_concurrent as int;
            let allowed = if limit < 1 {
                1
            } else if limit > 8 {
                8
            } else {
                limit
            };
            model::step(q, msg, ctx).0.running.len() >= allowed
        }),
{
    let after = model::step(q, msg, ctx).0;
    let r = after.rows[k];
    assert(!model::occupied(after, model::target(r))) by {
        if model::occupied(after, model::target(r)) {
            let i = choose|i: int|
                0 <= i < after.rows.len() && ((#[trigger] after.rows[i]).status
                    == TransferStatus::Active || after.running.contains(after.rows[i].id))
                    && model::target(after.rows[i]) == model::target(r);
            law_transfers_of_one_file_are_known(after.rows[i], r);
        }
    }
    if let Message::RetryDue(tid) = msg {
        let i = choose|i: int|
            0 <= i < q.rows.len() && (#[trigger] q.rows[i]).id == tid && q.rows[i].status
                == TransferStatus::WaitingRetry;
        laws::lemma_row_at(q, i);
    }
    laws::law_first_come_first_served(q, msg, ctx, k);
}

/// No more transfers run than are allowed, unless as many ran before: whatever the message, the
/// slots in use do not come to exceed the limit.
pub proof fn law_the_limit_is_kept(q: Queue, msg: Message, ctx: CtxView)
    requires
        model::well_formed(q),
        model::has_numbers(q, model::ids_needed(msg)),
        1 <= ctx.max_concurrent <= 8,
        q.running.len() <= ctx.max_concurrent,
    ensures
        model::step(q, msg, ctx).0.running.len() <= ctx.max_concurrent,
{
    laws::law_never_over_the_limit(q, msg, ctx);
    laws::law_one_worker_per_transfer(q, msg, ctx);
    laws::lemma_changed(q, msg, ctx);
    let held = laws::changed(q, msg, ctx).running;
    let jobs = laws::jobs_started(q, msg, ctx);
    if jobs.len() == 0 {
        assert(laws::tids(jobs) =~= Set::<u64>::empty());
        assert(held.union(laws::tids(jobs)) =~= held);
        vstd::set_lib::lemma_len_subset(held, q.running);
    }
}

/// What is removed is nobody else's: no other transfer that runs, or that may go on from what it
/// has left, has the file of a staging file that is removed.
pub proof fn law_nobody_loses_a_file(q: Queue, msg: Message, ctx: CtxView, job: JobView, k: int)
    requires
        model::well_formed(q),
        model::step(q, msg, ctx).1.contains(EventView::Cleanup(job)),
        0 <= k < model::step(q, msg, ctx).0.rows.len(),
        ({
            let after = model::step(q, msg, ctx).0;
            let r = after.rows[k];
            r.id != job.tid && (after.running.contains(r.id) || unfinished(r))
        }),
    ensures
        ({
            let r = model::step(q, msg, ctx).0.rows[k];
            &&& job.direction == TransferDirection::Download && r.direction
                == TransferDirection::Download ==> r.local != job.local
            &&& job.direction == TransferDirection::Upload && r.direction
                == TransferDirection::Upload && r.tab_id == job.tab_id ==> r.remote != job.remote
        }),
{
    let after = model::step(q, msg, ctx).0;
    let r = after.rows[k];
    laws::law_removal_spares_files_in_use(q, msg, ctx, job);
    law_transfers_of_one_file_are_known(r, r);
    assert(model::target(r) != laws::job_target(job)) by {
        if model::target(r) == laws::job_target(job) {
            assert(Some(after.rows[k].id) != Some(job.tid));
            assert(model::busy(after, laws::job_target(job), Some(job.tid)));
        }
    }
}

/// What is given up or taken off the list leaves nothing behind: where its staging file is not whole
/// and nobody else has that file, it is removed.
pub proof fn law_leftovers_are_removed(q: Queue, i: int, f: Failure, ctx: CtxView)
    requires
        model::well_formed(q),
        0 <= i < q.rows.len(),
        forall|k: int|
            0 <= k < q.rows.len() && k != i ==> !share_a_file(#[trigger] q.rows[k], q.rows[i]),
    ensures
        ({
            let r = q.rows[i];
            let taken_off = model::step(q, Message::RemoveTransfer(r.id), ctx).1;
            let stopped = model::step(q, Message::TransferDone(r.tab_id, r.id, Err(f)), ctx).1;
            &&& !q.running.contains(r.id) && !r.keep_staging && (r.status
                == TransferStatus::WaitingRetry || r.status == TransferStatus::Error) ==> exists|
                job: JobView,
            | #[trigger] taken_off.contains(EventView::Cleanup(job)) && job_for(job, r)
            &&& r.status == TransferStatus::Active && f.kind == FailureKind::Cancelled
                && !f.keep_staging ==> exists|job: JobView| #[trigger]
                stopped.contains(EventView::Cleanup(job)) && job_for(job, r)
        }),
{
    let r = q.rows[i];
    laws::lemma_row_at(q, i);
    if !q.running.contains(r.id) && unfinished(r) && r.status != TransferStatus::Active {
        let msg = Message::RemoveTransfer(r.id);
        let (after, events) = model::step(q, msg, ctx);
        law_what_is_taken_off_is_gone(q, i, ctx);
        law_transfers_of_one_file_are_known(r, r);
        assert(!model::busy(after, model::target(r), Some(r.id))) by {
            if model::busy(after, model::target(r), Some(r.id)) {
                let k = choose|k: int|
                    0 <= k < after.rows.len() && Some(#[trigger] after.rows[k].id) != Some(r.id) && (
                    model::leaves_partial(after.rows[k]) || after.running.contains(after.rows[k].id))
                        && model::target(after.rows[k]) == model::target(r);
                let n = if k < i {
                    k
                } else {
                    k + 1
                };
                assert(begun_from(q.rows[n], after.rows[k], ctx.clients));
                law_transfers_of_one_file_are_known(q.rows[n], r);
            }
        }
        assert(events[events.len() - 1] == EventView::Cleanup(model::job_of(r)));
        assert(events.contains(EventView::Cleanup(model::job_of(r))));
        assert(job_for(model::job_of(r), r));
    }
    if r.status == TransferStatus::Active && f.kind == FailureKind::Cancelled && !f.keep_staging {
        let result: Result<(), Failure> = Err(f);
        let msg = Message::TransferDone(r.tab_id, r.id, result);
        let (after, events) = model::step(q, msg, ctx);
        let change = |x: Row|
            if model::settles(x, r.tab_id) {
                model::settled(x, result, ctx.retry_attempts, ctx.now_ms)
            } else {
                x
            };
        lemma_edit_outcome(q, msg, ctx, i, change);
        let s = model::settled(r, result, ctx.retry_attempts, ctx.now_ms);
        assert(!model::busy(after, model::target(s), Some(s.id))) by {
            if model::busy(after, model::target(s), Some(s.id)) {
                let k = choose|k: int|
                    0 <= k < after.rows.len() && Some(#[trigger] after.rows[k].id) != Some(s.id) && (
                    model::leaves_partial(after.rows[k]) || after.running.contains(after.rows[k].id))
                        && model::target(after.rows[k]) == model::target(s);
                assert(k != i);
                assert(begun_from(q.rows[k], after.rows[k], ctx.clients));
                law_transfers_of_one_file_are_known(q.rows[k], r);
            }
        }
        assert(events[events.len() - 1] == EventView::Cleanup(model::job_of(s)));
        assert(events.contains(EventView::Cleanup(model::job_of(s))));
        assert(job_for(model::job_of(s), r));
    }
}

/// Asking where a file is shows the directory that it is in, and changes nothing.
pub proof fn law_the_folder_of_a_file_is_shown(
    q: Queue,
    local: local_path::LocalPath,
    ctx: CtxView,
)
    requires
        local_path::parts(local@).names.len() > 0,
    ensures
        ({
            let (after, events) = model::step(q, Message::OpenContainingFolder(local), ctx);
            &&& after == q
            &&& events.len() == 1
            &&& events[0] matches EventView::OpenFolder(folder)
                && local_path::parts(folder).names == local_path::parts(
                local@,
            ).names.drop_last() && local_path::parts(folder).absolute
                == local_path::parts(local@).absolute
        }),
{
    local_path::law_a_folder_is_a_name_shorter(local@);
}

} // verus!
