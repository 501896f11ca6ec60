//! What holds of the scheduler as a whole.

use crate::local_path;
use crate::tasks;
use crate::transfer::model;
use crate::transfer::model::EventView;
use crate::transfer::model::JobView;
use crate::transfer::model::Queue;
use crate::transfer::model::Row;
use crate::transfer::model::Target;
use crate::transfer::CtxView;
use crate::transfer::Failure;
use crate::transfer::FailureKind;
use crate::transfer::Message;
use crate::transfer::TransferDirection;
use crate::transfer::TransferStatus;
use crate::transfer::UploadItem;
use crate::transfer::BASE_BACKOFF_MS;
use crate::transfer::MAX_BACKOFF_MS;
use crate::config::app_config::MAX_CONCURRENT;
use crate::config::app_config::MIN_CONCURRENT;
use vstd::prelude::*;

verus! {

/// Doubling more often gives more.
pub proof fn lemma_doubled_grows(base: nat, n: nat, m: nat)
    requires
        n <= m,
    ensures
        model::doubled(base, n) <= model::doubled(base, m),
    decreases m,
{
    if n < m {
        lemma_doubled_grows(base, n, (m - 1) as nat);
    }
}

/// Two paths with the same staging file are the same.
pub proof fn lemma_staged_injective(a: Seq<char>, b: Seq<char>)
    ensures
        (model::staged(a) == model::staged(b)) == (a == b),
{
    if model::staged(a) == model::staged(b) {
        assert(a =~= model::staged(a).take(a.len() as int));
        assert(model::staged(a).len() == a.len() + ".part"@.len());
        assert(b =~= model::staged(b).take(b.len() as int));
    }
}

/// The row of a number is where that number stands.
pub proof fn lemma_row_at(q: Queue, i: int)
    requires
        model::well_formed(q),
        0 <= i < q.rows.len(),
    ensures
        model::row_of(q.rows, q.rows[i].id) == Some(q.rows[i]),
{
    let tid = q.rows[i].id;
    assert(exists|k: int| 0 <= k < q.rows.len() && #[trigger] q.rows[k].id == tid);
    let k = choose|k: int| 0 <= k < q.rows.len() && #[trigger] q.rows[k].id == tid;
    if k < i {
        assert(q.rows[k].id < q.rows[i].id);
    } else if i < k {
        assert(q.rows[i].id < q.rows[k].id);
    }
}

/// A number that stands nowhere has no row, and changing it changes nothing.
pub proof fn lemma_no_row(rows: Seq<Row>, tid: u64)
    requires
        forall|j: int| 0 <= j < rows.len() ==> #[trigger] rows[j].id != tid,
    ensures
        model::row_of(rows, tid) is None,
        forall|change: spec_fn(Row) -> Row| #[trigger] model::edited(rows, tid, change) == rows,
{
    assert forall|change: spec_fn(Row) -> Row| #[trigger]
        model::edited(rows, tid, change) == rows by {
        assert(model::edited(rows, tid, change) =~= rows);
    }
}

/// Changing the row of a number is changing it where it stands.
pub proof fn lemma_edit_at(q: Queue, i: int, change: spec_fn(Row) -> Row)
    requires
        model::well_formed(q),
        0 <= i < q.rows.len(),
    ensures
        model::edited(q.rows, q.rows[i].id, change) == q.rows.update(i, change(q.rows[i])),
{
    assert forall|k: int| 0 <= k < q.rows.len() && k != i implies #[trigger] q.rows[k].id
        != q.rows[i].id by {
        if k < i {
            assert(q.rows[k].id < q.rows[i].id);
        } else {
            assert(q.rows[i].id < q.rows[k].id);
        }
    }
    assert(model::edited(q.rows, q.rows[i].id, change) =~= q.rows.update(i, change(q.rows[i])));
}

/// Nothing of nothing is picked.
pub proof fn lemma_filter_empty(rows: Seq<Row>, pick: spec_fn(Row) -> bool)
    ensures
        rows.take(0).filter(pick) == Seq::<Row>::empty(),
{
    reveal(Seq::filter);
    assert(rows.take(0).filter(pick) =~= Seq::<Row>::empty());
}

/// Picking from one row more.
pub proof fn lemma_filter_step(rows: Seq<Row>, i: int, pick: spec_fn(Row) -> bool)
    requires
        0 <= i < rows.len(),
    ensures
        rows.take(i + 1).filter(pick) == if pick(rows[i]) {
            rows.take(i).filter(pick).push(rows[i])
        } else {
            rows.take(i).filter(pick)
        },
{
    reveal(Seq::filter);
    assert(rows.take(i + 1).drop_last() =~= rows.take(i));
    assert(rows.take(i + 1).last() == rows[i]);
}

/// Starting a transfer keeps the numbers in order.
pub proof fn lemma_started_well_formed(q: Queue, i: int, clients: Map<u64, u64>)
    requires
        model::well_formed(q),
        0 <= i < q.rows.len(),
    ensures
        model::well_formed(model::started(q, i, clients)),
{
    let next = model::started(q, i, clients);
    assert forall|a: int, b: int|
        #![trigger next.rows[a], next.rows[b]]
        0 <= a < b < next.rows.len() implies next.rows[a].id < next.rows[b].id by {
        assert(next.rows[a].id == q.rows[a].id);
        assert(next.rows[b].id == q.rows[b].id);
    }
    assert forall|a: int| #![trigger next.rows[a]] 0 <= a < next.rows.len() implies next.rows[a].id
        < next.next_id by {
        assert(next.rows[a].id == q.rows[a].id);
    }
    assert forall|id: u64| #[trigger] next.running.contains(id) implies id < next.next_id by {
        if id != q.rows[i].id {
            assert(q.running.contains(id));
        }
    }
}

/// A change that leaves the numbers keeps them in order.
pub proof fn lemma_edited_well_formed(q: Queue, tid: u64, change: spec_fn(Row) -> Row)
    requires
        model::well_formed(q),
        forall|i: int|
            0 <= i < q.rows.len() && #[trigger] q.rows[i].id == tid ==> change(q.rows[i]).id == tid,
    ensures
        model::well_formed(Queue { rows: model::edited(q.rows, tid, change), ..q }),
{
    let rows = model::edited(q.rows, tid, change);
    assert forall|i: int| #![trigger rows[i]] 0 <= i < rows.len() implies rows[i].id
        == q.rows[i].id by {}
    assert forall|i: int, j: int|
        #![trigger rows[i], rows[j]]
        0 <= i < j < rows.len() implies rows[i].id < rows[j].id by {
        assert(q.rows[i].id < q.rows[j].id);
    }
}

/// Starting transfers changes no row that does not wait, and no number.
pub proof fn lemma_admitted_keeps(q: Queue, i: int, limit: int, clients: Map<u64, u64>)
    ensures
        ({
            let after = model::admitted(q, i, limit, clients).0;
            &&& after.rows.len() == q.rows.len()
            &&& after.next_id == q.next_id
            &&& after.handles == q.handles
            &&& forall|k: int|
                #![trigger after.rows[k]]
                0 <= k < q.rows.len() ==> after.rows[k] == q.rows[k] || (q.rows[k].status
                    == TransferStatus::Queued && after.rows[k] == model::active(
                    q.rows[k],
                    clients,
                ))
        }),
    decreases q.rows.len() - i,
{
    if i < 0 || i >= q.rows.len() || q.running.len() >= limit {
    } else if model::startable(q, i, clients) {
        let next = model::started(q, i, clients);
        lemma_admitted_keeps(next, i + 1, limit, clients);
        let after = model::admitted(q, i, limit, clients).0;
        assert forall|k: int|
            #![trigger after.rows[k]]
            0 <= k < q.rows.len() implies after.rows[k] == q.rows[k] || (q.rows[k].status
            == TransferStatus::Queued && after.rows[k] == model::active(q.rows[k], clients)) by {
            assert(after.rows[k] == next.rows[k] || next.rows[k].status == TransferStatus::Queued);
        }
    } else {
        lemma_admitted_keeps(q, i + 1, limit, clients);
    }
}

/// All rows are picked where all fit.
proof fn lemma_filter_all(rows: Seq<Row>, pick: spec_fn(Row) -> bool)
    requires
        forall|k: int| 0 <= k < rows.len() ==> pick(#[trigger] rows[k]),
    ensures
        rows.filter(pick) == rows,
    decreases rows.len(),
{
    reveal(Seq::filter);
    if rows.len() > 0 {
        let init = rows.drop_last();
        assert forall|k: int| 0 <= k < init.len() implies pick(#[trigger] init[k]) by {
            assert(init[k] == rows[k]);
        }
        lemma_filter_all(init, pick);
        assert(pick(rows[rows.len() - 1]));
        assert(init.push(rows.last()) =~= rows);
    } else {
        assert(rows.filter(pick) =~= rows);
    }
}

/// Picking all rows but that of a number is taking it out where it stands.
pub proof fn lemma_removed(q: Queue, i: int)
    requires
        model::well_formed(q),
        0 <= i < q.rows.len(),
    ensures
        q.rows.filter(|x: Row| x.id != q.rows[i].id) == q.rows.remove(i),
        model::well_formed(Queue { rows: q.rows.remove(i), ..q }),
{
    let tid = q.rows[i].id;
    let pick = |x: Row| x.id != tid;
    let front = q.rows.take(i);
    let back = q.rows.skip(i + 1);
    assert forall|k: int| 0 <= k < front.len() implies pick(#[trigger] front[k]) by {
        assert(q.rows[k].id < q.rows[i].id);
    }
    assert forall|k: int| 0 <= k < back.len() implies pick(#[trigger] back[k]) by {
        assert(back[k] == q.rows[k + i + 1]);
        assert(q.rows[i].id < q.rows[k + i + 1].id);
    }
    lemma_filter_all(front, pick);
    lemma_filter_all(back, pick);
    lemma_filter_step(q.rows, i, pick);
    assert(q.rows.take(i + 1) + back =~= q.rows);
    Seq::filter_distributes_over_add(q.rows.take(i + 1), back, pick);
    assert(front + back =~= q.rows.remove(i));
    let rows = q.rows.remove(i);
    assert forall|a: int, b: int|
        #![trigger rows[a], rows[b]]
        0 <= a < b < rows.len() implies rows[a].id < rows[b].id by {
        let x = if a < i { a } else { a + 1 };
        let y = if b < i { b } else { b + 1 };
        assert(q.rows[x].id < q.rows[y].id);
    }
    assert forall|a: int| #![trigger rows[a]] 0 <= a < rows.len() implies rows[a].id < q.next_id by {
        let x = if a < i { a } else { a + 1 };
        assert(q.rows[x].id < q.next_id);
    }
}

/// The numbers of one row more.
pub proof fn lemma_ids_step(rows: Seq<Row>, i: int)
    requires
        0 <= i < rows.len(),
    ensures
        model::ids(rows.take(i + 1)) == model::ids(rows.take(i)).insert(rows[i].id),
{
    let more = rows.take(i + 1);
    let less = rows.take(i);
    assert forall|id: u64| model::ids(more).contains(id) == model::ids(less).insert(
        rows[i].id,
    ).contains(id) by {
        if model::ids(less).contains(id) {
            let k = choose|k: int| 0 <= k < less.len() && #[trigger] less[k].id == id;
            assert(more[k].id == id);
        }
        assert(more[i].id == rows[i].id);
        if model::ids(more).contains(id) {
            let k = choose|k: int| 0 <= k < more.len() && #[trigger] more[k].id == id;
            if k < i {
                assert(less[k].id == id);
            }
        }
    }
    assert(model::ids(more) =~= model::ids(less).insert(rows[i].id));
}

/// Picked rows are some of the rows, in their order.
pub proof fn lemma_picked_ordered(rows: Seq<Row>, pick: spec_fn(Row) -> bool, bound: int)
    requires
        forall|i: int, j: int|
            #![trigger rows[i], rows[j]]
            0 <= i < j < rows.len() ==> rows[i].id < rows[j].id,
        forall|i: int| #![trigger rows[i]] 0 <= i < rows.len() ==> rows[i].id < bound,
    ensures
        ({
            let picked = rows.filter(pick);
            &&& forall|i: int, j: int|
                #![trigger picked[i], picked[j]]
                0 <= i < j < picked.len() ==> picked[i].id < picked[j].id
            &&& forall|i: int| #![trigger picked[i]] 0 <= i < picked.len() ==> picked[i].id < bound
            &&& forall|i: int|
                #![trigger picked[i]]
                0 <= i < picked.len() ==> rows.contains(picked[i])
        }),
    decreases rows.len(),
{
    reveal(Seq::filter);
    if rows.len() > 0 {
        let init = rows.drop_last();
        assert forall|i: int, j: int|
            #![trigger init[i], init[j]]
            0 <= i < j < init.len() implies init[i].id < init[j].id by {
            assert(rows[i].id < rows[j].id);
        }
        lemma_picked_ordered(init, pick, rows.last().id as int);
        let before = init.filter(pick);
        let picked = rows.filter(pick);
        assert forall|i: int| #![trigger picked[i]] 0 <= i < picked.len() implies rows.contains(
            picked[i],
        ) && picked[i].id < bound by {
            if i < before.len() {
                assert(init.contains(before[i]));
                let k = choose|k: int| 0 <= k < init.len() && init[k] == before[i];
                assert(rows[k] == before[i]);
                assert(before[i].id < rows.last().id);
            } else {
                assert(rows[rows.len() - 1] == picked[i]);
            }
        }
        assert(rows[rows.len() - 1].id < bound);
    }
}

/// Picking rows keeps the numbers in order.
pub proof fn lemma_picked_well_formed(q: Queue, pick: spec_fn(Row) -> bool)
    requires
        model::well_formed(q),
    ensures
        model::well_formed(Queue { rows: q.rows.filter(pick), ..q }),
{
    lemma_picked_ordered(q.rows, pick, q.next_id);
}

/// The queue as a message leaves it, before waiting transfers are started.
pub open spec fn changed(q: Queue, msg: Message, ctx: CtxView) -> Queue {
    match msg {
        Message::Upload(tab_id, items) => match ctx.client {
            Some(client) => model::uploads(q, tab_id, items@, 0, ctx.remote_dir, client).0,
            None => q,
        },
        Message::Download(tab_id, name, local) => match ctx.client {
            Some(client) => if model::has_capacity(q.rows, tab_id) {
                model::enqueued(
                    q,
                    tab_id,
                    TransferDirection::Download,
                    name@,
                    local@,
                    tasks::join(ctx.remote_dir, name@),
                    client,
                )
            } else {
                q
            },
            None => q,
        },
        Message::TransferDone(tab_id, tid, result) => Queue {
            rows: model::edited(
                q.rows,
                tid,
                |x: Row|
                    if model::settles(x, tab_id) {
                        model::settled(x, result, ctx.retry_attempts, ctx.now_ms)
                    } else {
                        x
                    },
            ),
            running: q.running.remove(tid),
            handles: q.handles.remove(tid),
            ..q
        },
        Message::RetryTransfer(tid) => Queue {
            rows: model::edited(q.rows, tid, |x: Row| model::retried(x)),
            ..q
        },
        Message::RemoveTransfer(tid) => match model::row_of(q.rows, tid) {
            Some(r) => if r.status == TransferStatus::Active || q.running.contains(tid) {
                q
            } else {
                Queue { rows: q.rows.filter(|x: Row| x.id != tid), ..q }
            },
            None => q,
        },
        Message::RetryDue(tid) => Queue {
            rows: model::edited(
                q.rows,
                tid,
                |x: Row|
                    if x.status == TransferStatus::WaitingRetry {
                        model::due(x)
                    } else {
                        x
                    },
            ),
            ..q
        },
        Message::ConcurrencyChanged => q,
        Message::TabClosed(tab_id) => Queue {
            rows: model::rows_outside(q.rows, tab_id),
            handles: q.handles.difference(model::ids(model::rows_in(q.rows, tab_id))),
            running: q.running.difference(model::ids(model::rows_in(q.rows, tab_id))),
            ..q
        },
        _ => model::step(q, msg, ctx).0,
    }
}

/// Whether a message has waiting transfers started.
pub open spec fn starts_waiting(q: Queue, msg: Message, ctx: CtxView) -> bool {
    match msg {
        Message::Upload(_, items) => items@.len() > 0 && ctx.client is Some,
        Message::Download(_, _, _) => ctx.client is Some,
        Message::TransferDone(_, _, _) => true,
        Message::RetryTransfer(_) => true,
        Message::RemoveTransfer(tid) => match model::row_of(q.rows, tid) {
            Some(r) => r.status != TransferStatus::Active && !q.running.contains(tid),
            None => false,
        },
        Message::RetryDue(tid) => match model::row_of(q.rows, tid) {
            Some(r) => r.status == TransferStatus::WaitingRetry,
            None => false,
        },
        Message::ConcurrencyChanged => true,
        Message::TabClosed(_) => true,
        _ => false,
    }
}

/// The jobs that a message has started, in order.
pub open spec fn jobs_started(q: Queue, msg: Message, ctx: CtxView) -> Seq<JobView> {
    if starts_waiting(q, msg, ctx) {
        model::admitted(
            changed(q, msg, ctx),
            0,
            model::slots(ctx.max_concurrent as int),
            ctx.clients,
        ).1
    } else {
        Seq::empty()
    }
}

/// A row's own number finds that row, whatever the change.
proof fn lemma_edit_same(q: Queue, tid: u64, f: spec_fn(Row) -> Row, g: spec_fn(Row) -> Row)
    requires
        model::well_formed(q),
        match model::row_of(q.rows, tid) {
            Some(r) => f(r) == g(r),
            None => true,
        },
    ensures
        model::edited(q.rows, tid, f) == model::edited(q.rows, tid, g),
{
    assert forall|i: int| 0 <= i < q.rows.len() implies model::edited(q.rows, tid, f)[i]
        == model::edited(q.rows, tid, g)[i] by {
        if q.rows[i].id == tid {
            lemma_row_at(q, i);
        }
    }
    assert(model::edited(q.rows, tid, f) =~= model::edited(q.rows, tid, g));
}

/// A change that changes nothing.
proof fn lemma_edit_nothing(q: Queue, tid: u64, f: spec_fn(Row) -> Row)
    requires
        model::well_formed(q),
        match model::row_of(q.rows, tid) {
            Some(r) => f(r) == r,
            None => true,
        },
    ensures
        model::edited(q.rows, tid, f) == q.rows,
{
    assert forall|i: int| 0 <= i < q.rows.len() implies model::edited(q.rows, tid, f)[i]
        == q.rows[i] by {
        if q.rows[i].id == tid {
            lemma_row_at(q, i);
        }
    }
    assert(model::edited(q.rows, tid, f) =~= q.rows);
}

/// Whether events start a job.
pub open spec fn starts_job(events: Seq<EventView>, job: JobView) -> bool {
    events.contains(EventView::Start(job))
}

/// Handling a message is changing the queue and then, where the message calls for it, starting
/// waiting transfers; the events start exactly the jobs that were started.
pub proof fn law_change_then_start(q: Queue, msg: Message, ctx: CtxView)
    requires
        model::well_formed(q),
    ensures
        model::step(q, msg, ctx).0 == if starts_waiting(q, msg, ctx) {
            model::admitted(
                changed(q, msg, ctx),
                0,
                model::slots(ctx.max_concurrent as int),
                ctx.clients,
            ).0
        } else {
            changed(q, msg, ctx)
        },
        forall|job: JobView| #[trigger]
            starts_job(model::step(q, msg, ctx).1, job) == jobs_started(q, msg, ctx).contains(job),
{
    let base = changed(q, msg, ctx);
    let (after, events) = model::step(q, msg, ctx);
    let jobs = jobs_started(q, msg, ctx);
    match msg {
        Message::TransferDone(tab_id, tid, result) => {
            let f = |x: Row|
                if model::settles(x, tab_id) {
                    model::settled(x, result, ctx.retry_attempts, ctx.now_ms)
                } else {
                    x
                };
            match model::row_of(q.rows, tid) {
                Some(r) => {
                    if model::settles(r, tab_id) {
                        let s = model::settled(r, result, ctx.retry_attempts, ctx.now_ms);
                        lemma_edit_same(q, tid, f, |x: Row| s);
                    } else {
                        lemma_edit_nothing(q, tid, f);
                    }
                },
                None => {
                    lemma_edit_nothing(q, tid, f);
                },
            }
        },
        Message::RetryDue(tid) => {
            let f = |x: Row|
                if x.status == TransferStatus::WaitingRetry {
                    model::due(x)
                } else {
                    x
                };
            match model::row_of(q.rows, tid) {
                Some(r) => {
                    if r.status == TransferStatus::WaitingRetry {
                        lemma_edit_same(q, tid, f, |x: Row| model::due(x));
                    } else {
                        lemma_edit_nothing(q, tid, f);
                    }
                },
                None => {
                    lemma_edit_nothing(q, tid, f);
                },
            }
        },
        _ => {},
    }
    assert(after == if starts_waiting(q, msg, ctx) {
        model::admitted(base, 0, model::slots(ctx.max_concurrent as int), ctx.clients).0
    } else {
        base
    });
    assert forall|job: JobView| #[trigger] starts_job(events, job) == jobs.contains(job) by {
        lemma_starts(jobs, job);
        if starts_waiting(q, msg, ctx) {
            match msg {
                Message::TabClosed(tab_id) => {
                    let closed = model::rows_in(q.rows, tab_id);
                    let front = model::abort_all(closed, q.handles);
                    let back = model::cleanup_all(closed, after);
                    lemma_abort_all(closed, q.handles, job);
                    lemma_cleanup_all(closed, after, job);
                    lemma_contains_add(front + model::starts(jobs), back, EventView::Start(job));
                    lemma_contains_add(front, model::starts(jobs), EventView::Start(job));
                },
                Message::TransferDone(tab_id, tid, result) => {
                    let begun = model::starts(jobs);
                    if events.len() == begun.len() {
                    } else {
                        let extra = events.last();
                        assert(events =~= begun.push(extra));
                        assert(!(extra is Start));
                        lemma_contains_push(begun, extra, EventView::Start(job));
                    }
                },
                _ => {
                    let begun = model::starts(jobs);
                    if events.len() == begun.len() {
                        assert(events =~= begun);
                    } else {
                        let extra = events.last();
                        assert(events =~= begun.push(extra));
                        lemma_contains_push(begun, extra, EventView::Start(job));
                    }
                },
            }
        } else {
            assert(forall|k: int| 0 <= k < events.len() ==> !(#[trigger] events[k] is Start));
        }
    }
}

proof fn lemma_starts(jobs: Seq<JobView>, job: JobView)
    ensures
        model::starts(jobs).contains(EventView::Start(job)) == jobs.contains(job),
{
    let events = model::starts(jobs);
    if jobs.contains(job) {
        let k = choose|k: int| 0 <= k < jobs.len() && jobs[k] == job;
        assert(events[k] == EventView::Start(job));
    }
    if events.contains(EventView::Start(job)) {
        let k = choose|k: int| 0 <= k < events.len() && events[k] == EventView::Start(job);
        assert(events[k] == EventView::Start(jobs[k]));
        assert(jobs[k] == job);
    }
}

proof fn lemma_contains_push(events: Seq<EventView>, more: EventView, e: EventView)
    ensures
        events.push(more).contains(e) == (events.contains(e) || more == e),
{
    let all = events.push(more);
    if events.contains(e) {
        let k = choose|k: int| 0 <= k < events.len() && events[k] == e;
        assert(all[k] == e);
    }
    assert(all[events.len() as int] == more);
    if all.contains(e) {
        let k = choose|k: int| 0 <= k < all.len() && all[k] == e;
        if k < events.len() {
            assert(events[k] == e);
        }
    }
}

proof fn lemma_contains_add(a: Seq<EventView>, b: Seq<EventView>, e: EventView)
    ensures
        (a + b).contains(e) == (a.contains(e) || b.contains(e)),
{
    let all = a + b;
    if a.contains(e) {
        let k = choose|k: int| 0 <= k < a.len() && a[k] == e;
        assert(all[k] == e);
    }
    if b.contains(e) {
        let k = choose|k: int| 0 <= k < b.len() && b[k] == e;
        assert(all[a.len() + k] == e);
    }
    if all.contains(e) {
        let k = choose|k: int| 0 <= k < all.len() && all[k] == e;
        if k < a.len() {
            assert(a[k] == e);
        } else {
            assert(b[k - a.len()] == e);
        }
    }
}

proof fn lemma_abort_all(rows: Seq<Row>, handles: Set<u64>, job: JobView)
    ensures
        !model::abort_all(rows, handles).contains(EventView::Start(job)),
        !model::abort_all(rows, handles).contains(EventView::Cleanup(job)),
    decreases rows.len(),
{
    if rows.len() > 0 {
        lemma_abort_all(rows.drop_last(), handles, job);
        let before = model::abort_all(rows.drop_last(), handles);
        lemma_contains_push(before, EventView::Abort(rows.last().id), EventView::Start(job));
        lemma_contains_push(before, EventView::Abort(rows.last().id), EventView::Cleanup(job));
    }
}

/// What is removed when rows go: files that one of them left and that no live row may need.
proof fn lemma_cleanup_all(rows: Seq<Row>, live: Queue, job: JobView)
    ensures
        !model::cleanup_all(rows, live).contains(EventView::Start(job)),
        model::cleanup_all(rows, live).contains(EventView::Cleanup(job)) ==> exists|i: int|
            0 <= i < rows.len() && model::job_of(#[trigger] rows[i]) == job
                && model::leaves_partial(rows[i]) && !model::busy(
                live,
                model::target(rows[i]),
                None,
            ),
    decreases rows.len(),
{
    if rows.len() > 0 {
        let init = rows.drop_last();
        lemma_cleanup_all(init, live, job);
        let before = model::cleanup_all(init, live);
        let extra = EventView::Cleanup(model::job_of(rows.last()));
        lemma_contains_push(before, extra, EventView::Start(job));
        lemma_contains_push(before, extra, EventView::Cleanup(job));
        if before.contains(EventView::Cleanup(job)) {
            let i = choose|i: int|
                0 <= i < init.len() && model::job_of(#[trigger] init[i]) == job
                    && model::leaves_partial(init[i]) && !model::busy(
                    live,
                    model::target(init[i]),
                    None,
                );
            assert(rows[i] == init[i]);
        } else if model::cleanup_all(rows, live).contains(EventView::Cleanup(job)) {
            assert(rows[rows.len() - 1] == rows.last());
        }
    }
}

/// The numbers of some jobs.
pub open spec fn tids(jobs: Seq<JobView>) -> Set<u64> {
    Set::new(|id: u64| exists|k: int| 0 <= k < jobs.len() && #[trigger] jobs[k].tid == id)
}

/// Whether a job is that of a waiting transfer from the one at `i` on.
pub open spec fn job_from(q: Queue, i: int, clients: Map<u64, u64>, job: JobView) -> bool {
    exists|r: int|
        i <= r < q.rows.len() && q.rows[r].status == TransferStatus::Queued && job
            == #[trigger] model::job_of(model::active(q.rows[r], clients))
}

/// What starting transfers does to the slots: each job started takes one that its transfer did
/// not have, and none is taken beyond the limit.
pub proof fn lemma_admitted_running(q: Queue, i: int, limit: int, clients: Map<u64, u64>)
    requires
        model::well_formed(q),
        0 <= i,
    ensures
        ({
            let (after, jobs) = model::admitted(q, i, limit, clients);
            &&& model::well_formed(after)
            &&& after.running == q.running.union(tids(jobs))
            &&& forall|k: int| 0 <= k < jobs.len() ==> !q.running.contains(#[trigger] jobs[k].tid)
            &&& forall|a: int, b: int|
                #![trigger jobs[a], jobs[b]]
                0 <= a < b < jobs.len() ==> jobs[a].tid < jobs[b].tid
            &&& after.running.len() == q.running.len() + jobs.len()
            &&& jobs.len() > 0 ==> after.running.len() <= limit
            &&& forall|k: int|
                0 <= k < jobs.len() ==> job_from(q, i, clients, #[trigger] jobs[k])
        }),
    decreases q.rows.len() - i,
{
    let (after, jobs) = model::admitted(q, i, limit, clients);
    if i >= q.rows.len() || q.running.len() >= limit {
        assert(tids(jobs) =~= Set::<u64>::empty());
        assert(after.running =~= q.running.union(tids(jobs)));
    } else if model::startable(q, i, clients) {
        let next = model::started(q, i, clients);
        lemma_started_well_formed(q, i, clients);
        lemma_admitted_running(next, i + 1, limit, clients);
        let rest = model::admitted(next, i + 1, limit, clients).1;
        let first = model::job_of(model::active(q.rows[i], clients));
        assert(jobs =~= seq![first] + rest);
        assert forall|k: int| 0 <= k < jobs.len() implies !q.running.contains(
            #[trigger] jobs[k].tid,
        ) by {
            if k > 0 {
                assert(jobs[k] == rest[k - 1]);
                assert(!next.running.contains(rest[k - 1].tid));
            }
        }
        assert forall|k: int| 0 <= k < jobs.len() implies job_from(
            q,
            i,
            clients,
            #[trigger] jobs[k],
        ) by {
            if k == 0 {
                assert(jobs[0] == model::job_of(model::active(q.rows[i], clients)));
            } else {
                assert(jobs[k] == rest[k - 1]);
                assert(job_from(next, i + 1, clients, rest[k - 1]));
                let r = choose|r: int|
                    i + 1 <= r < next.rows.len() && next.rows[r].status == TransferStatus::Queued
                        && rest[k - 1] == #[trigger] model::job_of(
                        model::active(next.rows[r], clients),
                    );
                assert(next.rows[r] == q.rows[r]);
                assert(jobs[k] == model::job_of(model::active(q.rows[r], clients)));
            }
        }
        assert forall|a: int, b: int|
            #![trigger jobs[a], jobs[b]]
            0 <= a < b < jobs.len() implies jobs[a].tid < jobs[b].tid by {
            assert(jobs[b] == rest[b - 1]);
            if a > 0 {
                assert(jobs[a] == rest[a - 1]);
            } else {
                assert(job_from(next, i + 1, clients, rest[b - 1]));
                let r = choose|r: int|
                    i + 1 <= r < next.rows.len() && next.rows[r].status == TransferStatus::Queued
                        && rest[b - 1] == #[trigger] model::job_of(
                        model::active(next.rows[r], clients),
                    );
                assert(next.rows[r] == q.rows[r]);
                assert(q.rows[i].id < q.rows[r].id);
            }
        }
        assert forall|id: u64| after.running.contains(id) == q.running.union(tids(jobs)).contains(
            id,
        ) by {
            assert(jobs[0].tid == q.rows[i].id);
            if tids(rest).contains(id) {
                let k = choose|k: int| 0 <= k < rest.len() && #[trigger] rest[k].tid == id;
                assert(jobs[k + 1].tid == id);
            }
            if tids(jobs).contains(id) {
                let k = choose|k: int| 0 <= k < jobs.len() && #[trigger] jobs[k].tid == id;
                if k > 0 {
                    assert(rest[k - 1].tid == id);
                }
            }
        }
        assert(after.running =~= q.running.union(tids(jobs)));
        if rest.len() == 0 {
            assert(tids(rest) =~= Set::<u64>::empty());
        }
    } else {
        lemma_admitted_running(q, i + 1, limit, clients);
        assert forall|k: int| 0 <= k < jobs.len() implies job_from(
            q,
            i,
            clients,
            #[trigger] jobs[k],
        ) by {
            let r = choose|r: int|
                i + 1 <= r < q.rows.len() && q.rows[r].status == TransferStatus::Queued && jobs[k]
                    == #[trigger] model::job_of(model::active(q.rows[r], clients));
            assert(jobs[k] == model::job_of(model::active(q.rows[r], clients)));
        }
    }
}

/// Queueing files keeps the numbers in order and adds only waiting transfers.
pub proof fn lemma_uploads(
    q: Queue,
    tab_id: u64,
    items: Seq<UploadItem>,
    i: int,
    dir: Seq<char>,
    client: u64,
)
    requires
        model::well_formed(q),
        0 <= i <= items.len(),
        model::has_numbers(q, (items.len() - i) as nat),
    ensures
        ({
            let after = model::uploads(q, tab_id, items, i, dir, client).0;
            &&& model::well_formed(after)
            &&& after.running == q.running
            &&& after.handles == q.handles
            &&& after.next_id >= q.next_id
            &&& after.rows.len() >= q.rows.len()
            &&& after.rows.take(q.rows.len() as int) == q.rows
            &&& forall|k: int|
                #![trigger after.rows[k]]
                q.rows.len() <= k < after.rows.len() ==> after.rows[k].status
                    == TransferStatus::Queued && after.rows[k].tab_id == tab_id && after.rows[k].id
                    >= q.next_id
        }),
    decreases items.len() - i,
{
    assert(q.rows.take(q.rows.len() as int) =~= q.rows);
    if i < items.len() && model::has_capacity(q.rows, tab_id) {
        match local_path::shown_name(items[i].local@) {
            Some(name) => {
                if name.len() == 0 {
                    lemma_uploads(q, tab_id, items, i + 1, dir, client);
                } else {
                    let next = model::enqueued(
                        q,
                        tab_id,
                        TransferDirection::Upload,
                        name,
                        items[i].local@,
                        tasks::join(dir, items[i].rel@),
                        client,
                    );
                    lemma_uploads(next, tab_id, items, i + 1, dir, client);
                    let after = model::uploads(q, tab_id, items, i, dir, client).0;
                    assert(after == model::uploads(next, tab_id, items, i + 1, dir, client).0);
                    assert(after.rows.take(q.rows.len() as int) =~= after.rows.take(
                        next.rows.len() as int,
                    ).take(q.rows.len() as int));
                    assert(next.rows.take(q.rows.len() as int) =~= q.rows);
                    assert forall|k: int|
                        #![trigger after.rows[k]]
                        q.rows.len() <= k < after.rows.len() implies after.rows[k].status
                        == TransferStatus::Queued && after.rows[k].tab_id == tab_id
                        && after.rows[k].id >= q.next_id by {
                        if k == q.rows.len() {
                            assert(after.rows.take(next.rows.len() as int)[k] == after.rows[k]);
                        }
                    }
                }
            },
            None => {
                lemma_uploads(q, tab_id, items, i + 1, dir, client);
            },
        }
    }
}

/// Whether a row was there before, under the same number and with the same file.
pub open spec fn kept_from(rows: Seq<Row>, r: Row) -> bool {
    exists|k: int|
        0 <= k < rows.len() && (#[trigger] rows[k]).id == r.id && model::target(rows[k])
            == model::target(r)
}

/// What a message changes before transfers are started: the numbers stay in order, no slot is
/// taken, and a row with a worker was there before, with the same file.
#[verifier::spinoff_prover]
#[verifier::rlimit(60)]
pub proof fn lemma_changed(q: Queue, msg: Message, ctx: CtxView)
    requires
        model::well_formed(q),
        model::has_numbers(q, model::ids_needed(msg)),
    ensures
        model::well_formed(changed(q, msg, ctx)),
        changed(q, msg, ctx).running.subset_of(q.running),
        forall|k: int|
            0 <= k < changed(q, msg, ctx).rows.len() && q.running.contains(
                (#[trigger] changed(q, msg, ctx).rows[k]).id,
            ) ==> kept_from(q.rows, changed(q, msg, ctx).rows[k]),
{
    let base = changed(q, msg, ctx);
    match msg {
        Message::Upload(tab_id, items) => {
            match ctx.client {
                Some(client) => {
                    lemma_uploads(q, tab_id, items@, 0, ctx.remote_dir, client);
                    assert forall|k: int|
                        0 <= k < base.rows.len() && q.running.contains(
                            (#[trigger] base.rows[k]).id,
                        ) implies kept_from(q.rows, base.rows[k]) by {
                        assert(base.rows[k].id < q.next_id);
                        assert(base.rows.take(q.rows.len() as int)[k] == base.rows[k]);
                        assert(q.rows[k].id == base.rows[k].id);
                    }
                },
                None => {
                    lemma_same_rows(q);
                },
            }
        },
        Message::Download(tab_id, name, local) => {
            lemma_same_rows(q);
            assert forall|k: int|
                0 <= k < base.rows.len() && q.running.contains(
                    (#[trigger] base.rows[k]).id,
                ) implies kept_from(q.rows, base.rows[k]) by {
                assert(base.rows[k].id < q.next_id);
                assert(q.rows[k].id == base.rows[k].id);
            }
        },
        Message::RemoveTransfer(tid) => {
            lemma_same_rows(q);
            lemma_picked_well_formed(q, |x: Row| x.id != tid);
            lemma_picked_kept(q, |x: Row| x.id != tid);
        },
        Message::TabClosed(tab_id) => {
            lemma_picked_well_formed(q, |x: Row| x.tab_id != tab_id);
            lemma_picked_kept(q, |x: Row| x.tab_id != tab_id);
        },
        Message::Progress(tab_id, tid, transferred, total, speed) => {
            let f = |x: Row| model::progressed(x, tab_id, transferred, total, speed);
            lemma_edited_well_formed(q, tid, f);
            lemma_edited_kept(q, tid, f);
        },
        Message::AttemptStarted { tab_id, tid, source, offset } => {
            let f = |x: Row| model::attempted(x, tab_id, source, offset);
            lemma_edited_well_formed(q, tid, f);
            lemma_edited_kept(q, tid, f);
        },
        Message::TransferDone(tab_id, tid, result) => {
            let f = |x: Row|
                if model::settles(x, tab_id) {
                    model::settled(x, result, ctx.retry_attempts, ctx.now_ms)
                } else {
                    x
                };
            lemma_edited_well_formed(q, tid, f);
            lemma_edited_kept(q, tid, f);
        },
        Message::CancelTransfer(tid) => {
            let f = |x: Row| model::cancelled(x);
            lemma_same_rows(q);
            lemma_edited_well_formed(q, tid, f);
            lemma_edited_kept(q, tid, f);
        },
        Message::RetryTransfer(tid) => {
            let f = |x: Row| model::retried(x);
            lemma_edited_well_formed(q, tid, f);
            lemma_edited_kept(q, tid, f);
        },
        Message::RetryDue(tid) => {
            let f = |x: Row|
                if x.status == TransferStatus::WaitingRetry {
                    model::due(x)
                } else {
                    x
                };
            lemma_edited_well_formed(q, tid, f);
            lemma_edited_kept(q, tid, f);
        },
        Message::CleanupDone(tid, partial) => {
            let left = crate::text::opt(partial);
            let f = |x: Row| Row { partial: left, ..x };
            lemma_same_rows(q);
            lemma_edited_well_formed(q, tid, f);
            lemma_edited_kept(q, tid, f);
        },
        _ => {
            lemma_same_rows(q);
        },
    }
}

/// A row is kept where nothing changes.
proof fn lemma_same_rows(q: Queue)
    ensures
        forall|k: int| 0 <= k < q.rows.len() ==> kept_from(q.rows, #[trigger] q.rows[k]),
{
    assert forall|k: int| 0 <= k < q.rows.len() implies kept_from(q.rows, #[trigger] q.rows[k]) by {
        assert(q.rows[k].id == q.rows[k].id);
    }
}

/// A picked row was there before.
proof fn lemma_picked_kept(q: Queue, pick: spec_fn(Row) -> bool)
    requires
        model::well_formed(q),
    ensures
        forall|k: int|
            0 <= k < q.rows.filter(pick).len() ==> kept_from(
                q.rows,
                #[trigger] q.rows.filter(pick)[k],
            ),
{
    lemma_picked_ordered(q.rows, pick, q.next_id);
    let picked = q.rows.filter(pick);
    assert forall|k: int| 0 <= k < picked.len() implies kept_from(q.rows, #[trigger] picked[k]) by {
        assert(q.rows.contains(picked[k]));
        let n = choose|n: int| 0 <= n < q.rows.len() && q.rows[n] == picked[k];
        assert(q.rows[n].id == picked[k].id);
    }
}

/// A change of one row that leaves its number and its file.
proof fn lemma_edited_kept(q: Queue, tid: u64, change: spec_fn(Row) -> Row)
    requires
        forall|i: int|
            0 <= i < q.rows.len() ==> change(#[trigger] q.rows[i]).id == q.rows[i].id
                && model::target(change(q.rows[i])) == model::target(q.rows[i]),
    ensures
        forall|k: int|
            0 <= k < q.rows.len() ==> kept_from(
                q.rows,
                #[trigger] model::edited(q.rows, tid, change)[k],
            ),
{
    let rows = model::edited(q.rows, tid, change);
    assert forall|k: int| 0 <= k < q.rows.len() implies kept_from(q.rows, #[trigger] rows[k]) by {
        assert(q.rows[k].id == rows[k].id);
        assert(model::target(q.rows[k]) == model::target(rows[k]));
    }
}

/// No two workers write the same file: two transfers that hold a slot have different targets.
pub open spec fn exclusive(q: Queue) -> bool {
    forall|i: int, j: int|
        #![trigger q.rows[i], q.rows[j]]
        0 <= i < q.rows.len() && 0 <= j < q.rows.len() && i != j && q.running.contains(q.rows[i].id)
            && q.running.contains(q.rows[j].id) ==> model::target(q.rows[i]) != model::target(
            q.rows[j],
        )
}

proof fn lemma_admitted_exclusive(q: Queue, i: int, limit: int, clients: Map<u64, u64>)
    requires
        model::well_formed(q),
        exclusive(q),
    ensures
        exclusive(model::admitted(q, i, limit, clients).0),
    decreases q.rows.len() - i,
{
    if i < 0 || i >= q.rows.len() || q.running.len() >= limit {
    } else if model::startable(q, i, clients) {
        let next = model::started(q, i, clients);
        lemma_started_well_formed(q, i, clients);
        assert forall|a: int, b: int|
            #![trigger next.rows[a], next.rows[b]]
            0 <= a < next.rows.len() && 0 <= b < next.rows.len() && a != b
                && next.running.contains(next.rows[a].id) && next.running.contains(
                next.rows[b].id,
            ) implies model::target(next.rows[a]) != model::target(next.rows[b]) by {
            assert(model::target(next.rows[i]) == model::target(q.rows[i]));
            assert(next.rows[a].id == q.rows[a].id && next.rows[b].id == q.rows[b].id);
            assert(q.rows[a].id != q.rows[b].id) by {
                if a < b {
                    assert(q.rows[a].id < q.rows[b].id);
                } else {
                    assert(q.rows[b].id < q.rows[a].id);
                }
            }
            if a == i {
                assert(next.rows[b] == q.rows[b]);
                assert(q.running.contains(q.rows[b].id));
            } else if b == i {
                assert(next.rows[a] == q.rows[a]);
                assert(q.running.contains(q.rows[a].id));
            } else {
                assert(next.rows[a] == q.rows[a] && next.rows[b] == q.rows[b]);
                assert(q.rows[a].id != q.rows[i].id) by {
                    if a < i {
                        assert(q.rows[a].id < q.rows[i].id);
                    } else {
                        assert(q.rows[i].id < q.rows[a].id);
                    }
                }
                assert(q.rows[b].id != q.rows[i].id) by {
                    if b < i {
                        assert(q.rows[b].id < q.rows[i].id);
                    } else {
                        assert(q.rows[i].id < q.rows[b].id);
                    }
                }
            }
        }
        lemma_admitted_exclusive(next, i + 1, limit, clients);
    } else {
        lemma_admitted_exclusive(q, i + 1, limit, clients);
    }
}

/// What starting waiting transfers does: no more slots are in use than before or than the limit
/// allows, whichever is more; the slots taken are those of the jobs, none of which had one; a
/// transfer that was started waited before, and only runs now, on its tab's present channel; and
/// all others are as they were, so that lowering the limit stops nobody.
pub proof fn law_starting_touches_only_what_waits(q: Queue, limit: int, clients: Map<u64, u64>)
    requires
        model::well_formed(q),
    ensures
        ({
            let slots = model::slots(limit);
            let (after, jobs) = model::admitted(q, 0, slots, clients);
            &&& MIN_CONCURRENT <= slots <= MAX_CONCURRENT
            &&& after.running.len() <= q.running.len() || after.running.len() <= slots
            &&& after.running == q.running.union(tids(jobs))
            &&& forall|k: int| 0 <= k < jobs.len() ==> !q.running.contains(#[trigger] jobs[k].tid)
            &&& after.rows.len() == q.rows.len()
            &&& after.next_id == q.next_id
            &&& after.handles == q.handles
            &&& forall|k: int|
                #![trigger after.rows[k]]
                #![trigger q.rows[k]]
                0 <= k < q.rows.len() ==> if tids(jobs).contains(q.rows[k].id) {
                    q.rows[k].status == TransferStatus::Queued && after.rows[k] == model::active(
                        q.rows[k],
                        clients,
                    )
                } else {
                    after.rows[k] == q.rows[k]
                }
        }),
{
    let slots = model::slots(limit);
    lemma_admitted_running(q, 0, slots, clients);
    lemma_admitted_keeps(q, 0, slots, clients);
    lemma_admitted_started(q, 0, slots, clients);
    let (after, jobs) = model::admitted(q, 0, slots, clients);
    if jobs.len() == 0 {
        assert(tids(jobs) =~= Set::<u64>::empty());
        assert(after.running =~= q.running);
    }
}

/// The rows that are changed are those of the jobs started.
pub proof fn lemma_admitted_started(q: Queue, i: int, limit: int, clients: Map<u64, u64>)
    requires
        model::well_formed(q),
        0 <= i,
    ensures
        ({
            let (after, jobs) = model::admitted(q, i, limit, clients);
            &&& after.rows.len() == q.rows.len()
            &&& forall|k: int|
                #![trigger after.rows[k]]
                #![trigger q.rows[k]]
                0 <= k < q.rows.len() ==> if tids(jobs).contains(q.rows[k].id) {
                    q.rows[k].status == TransferStatus::Queued && after.rows[k] == model::active(
                        q.rows[k],
                        clients,
                    )
                } else {
                    after.rows[k] == q.rows[k]
                }
        }),
    decreases q.rows.len() - i,
{
    let (after, jobs) = model::admitted(q, i, limit, clients);
    if i >= q.rows.len() || q.running.len() >= limit {
        assert(tids(jobs) =~= Set::<u64>::empty());
    } else if model::startable(q, i, clients) {
        let next = model::started(q, i, clients);
        lemma_started_well_formed(q, i, clients);
        lemma_admitted_started(next, i + 1, limit, clients);
        let rest = model::admitted(next, i + 1, limit, clients).1;
        let first = model::job_of(model::active(q.rows[i], clients));
        assert(jobs =~= seq![first] + rest);
        assert(jobs[0].tid == q.rows[i].id);
        assert(after == model::admitted(next, i + 1, limit, clients).0);
        assert forall|k: int|
            #![trigger after.rows[k]]
            #![trigger q.rows[k]]
            0 <= k < q.rows.len() implies if tids(jobs).contains(q.rows[k].id) {
            q.rows[k].status == TransferStatus::Queued && after.rows[k] == model::active(
                q.rows[k],
                clients,
            )
        } else {
            after.rows[k] == q.rows[k]
        } by {
            let id = q.rows[k].id;
            assert(next.rows[k].id == id);
            if k == i {
                assert(jobs[0].tid == id);
                assert(tids(jobs).contains(id));
                assert(next.rows[k] == model::active(q.rows[k], clients));
                assert(next.rows[k].status == TransferStatus::Active);
                assert(after.rows[k] == next.rows[k]);
            } else {
                assert(next.rows[k] == q.rows[k]);
                if k < i {
                    assert(q.rows[k].id < q.rows[i].id);
                } else {
                    assert(q.rows[i].id < q.rows[k].id);
                }
                if tids(rest).contains(id) {
                    let n = choose|n: int| 0 <= n < rest.len() && #[trigger] rest[n].tid == id;
                    assert(jobs[n + 1].tid == id);
                }
                if tids(jobs).contains(id) {
                    let n = choose|n: int| 0 <= n < jobs.len() && #[trigger] jobs[n].tid == id;
                    assert(n > 0);
                    assert(rest[n - 1].tid == id);
                }
            }
        }
    } else {
        lemma_admitted_started(q, i + 1, limit, clients);
    }
}

/// A transfer is started only while a slot is free: after a message that started one, no more
/// slots are in use than the limit allows. Lowering the limit stops nobody.
pub proof fn law_never_over_the_limit(q: Queue, msg: Message, ctx: CtxView)
    requires
        model::well_formed(q),
        model::has_numbers(q, model::ids_needed(msg)),
    ensures
        jobs_started(q, msg, ctx).len() > 0 ==> model::step(q, msg, ctx).0.running.len()
            <= model::slots(ctx.max_concurrent as int),
        MIN_CONCURRENT <= model::slots(ctx.max_concurrent as int) <= MAX_CONCURRENT,
{
    law_change_then_start(q, msg, ctx);
    lemma_changed(q, msg, ctx);
    lemma_admitted_running(
        changed(q, msg, ctx),
        0,
        model::slots(ctx.max_concurrent as int),
        ctx.clients,
    );
}

/// A transfer never has two workers: a job is started only for a transfer that holds no slot,
/// each started job takes a slot of its own, and they are started in the order in which they
/// were asked for.
pub proof fn law_one_worker_per_transfer(q: Queue, msg: Message, ctx: CtxView)
    requires
        model::well_formed(q),
        model::has_numbers(q, model::ids_needed(msg)),
    ensures
        ({
            let jobs = jobs_started(q, msg, ctx);
            let held = changed(q, msg, ctx).running;
            &&& model::step(q, msg, ctx).0.running == held.union(tids(jobs))
            &&& forall|k: int| 0 <= k < jobs.len() ==> !held.contains(#[trigger] jobs[k].tid)
            &&& forall|a: int, b: int|
                #![trigger jobs[a], jobs[b]]
                0 <= a < b < jobs.len() ==> jobs[a].tid < jobs[b].tid
        }),
{
    law_change_then_start(q, msg, ctx);
    lemma_changed(q, msg, ctx);
    lemma_admitted_running(
        changed(q, msg, ctx),
        0,
        model::slots(ctx.max_concurrent as int),
        ctx.clients,
    );
    if !starts_waiting(q, msg, ctx) {
        assert(tids(jobs_started(q, msg, ctx)) =~= Set::<u64>::empty());
        assert(changed(q, msg, ctx).running.union(Set::<u64>::empty()) =~= changed(
            q,
            msg,
            ctx,
        ).running);
    }
}

/// A slot is freed when the worker that holds it reports its end, once, and when its tab is
/// closed; giving a transfer up, trying it again or taking it off the list frees none.
pub proof fn law_slots_are_freed_at_the_end(q: Queue, msg: Message, ctx: CtxView)
    requires
        model::well_formed(q),
        model::has_numbers(q, model::ids_needed(msg)),
    ensures
        changed(q, msg, ctx).running == match msg {
            Message::TransferDone(_, tid, _) => q.running.remove(tid),
            Message::TabClosed(tab_id) => q.running.difference(
                model::ids(model::rows_in(q.rows, tab_id)),
            ),
            _ => q.running,
        },
        forall|id: u64|
            #![trigger q.running.contains(id)]
            q.running.contains(id) && !model::step(q, msg, ctx).0.running.contains(id) ==> {
                ||| msg matches Message::TransferDone(_, tid, _) && tid == id
                ||| msg matches Message::TabClosed(tab_id) && model::ids(
                    model::rows_in(q.rows, tab_id),
                ).contains(id)
            },
{
    match msg {
        Message::Upload(tab_id, items) => {
            match ctx.client {
                Some(client) => {
                    lemma_uploads(q, tab_id, items@, 0, ctx.remote_dir, client);
                },
                None => {},
            }
        },
        _ => {},
    }
    law_one_worker_per_transfer(q, msg, ctx);
}

/// Where the rows with a worker were there before, with the same files, and no two workers wrote
/// one file, no two do.
proof fn lemma_kept_apart(q: Queue, base: Queue)
    requires
        exclusive(q),
        model::well_formed(base),
        base.running.subset_of(q.running),
        forall|k: int|
            0 <= k < base.rows.len() && q.running.contains((#[trigger] base.rows[k]).id)
                ==> kept_from(q.rows, base.rows[k]),
    ensures
        exclusive(base),
{
    let rows = base.rows;
    assert forall|i: int, j: int|
        #![trigger rows[i], rows[j]]
        0 <= i < rows.len() && 0 <= j < rows.len() && i != j && base.running.contains(rows[i].id)
            && base.running.contains(rows[j].id) implies model::target(rows[i]) != model::target(
        rows[j],
    ) by {
        assert(q.running.contains(rows[i].id) && q.running.contains(rows[j].id));
        let a = choose|k: int|
            0 <= k < q.rows.len() && (#[trigger] q.rows[k]).id == rows[i].id && model::target(
                q.rows[k],
            ) == model::target(rows[i]);
        let b = choose|k: int|
            0 <= k < q.rows.len() && (#[trigger] q.rows[k]).id == rows[j].id && model::target(
                q.rows[k],
            ) == model::target(rows[j]);
        if i < j {
            assert(rows[i].id < rows[j].id);
        } else {
            assert(rows[j].id < rows[i].id);
        }
        assert(q.rows[a].id != q.rows[b].id);
    }
}

/// If no two workers write the same file, then none do after any message: of two transfers that
/// hold a slot, wherever they stand in the list, each writes a file of its own.
pub proof fn law_no_two_workers_write_one_file(q: Queue, msg: Message, ctx: CtxView)
    requires
        model::well_formed(q),
        model::has_numbers(q, model::ids_needed(msg)),
        exclusive(q),
    ensures
        exclusive(model::step(q, msg, ctx).0),
{
    lemma_changed(q, msg, ctx);
    lemma_kept_apart(q, changed(q, msg, ctx));
    law_change_then_start(q, msg, ctx);
    lemma_admitted_exclusive(
        changed(q, msg, ctx),
        0,
        model::slots(ctx.max_concurrent as int),
        ctx.clients,
    );
}

/// Every slot in use is that of a transfer on the list.
pub open spec fn staffed(q: Queue) -> bool {
    forall|id: u64| #[trigger] q.running.contains(id) ==> listed(q.rows, id)
}

/// Whether a number is that of a row.
pub open spec fn listed(rows: Seq<Row>, id: u64) -> bool {
    exists|k: int| 0 <= k < rows.len() && (#[trigger] rows[k]).id == id
}

/// Rows that all stay, in whatever state, keep their numbers on the list.
proof fn lemma_longer_lists(rows: Seq<Row>, more: Seq<Row>)
    requires
        rows.len() <= more.len(),
        forall|k: int| 0 <= k < rows.len() ==> (#[trigger] more[k]).id == rows[k].id,
    ensures
        forall|id: u64| #[trigger] listed(rows, id) ==> listed(more, id),
{
    assert forall|id: u64| #[trigger] listed(rows, id) implies listed(more, id) by {
        let k = choose|k: int| 0 <= k < rows.len() && (#[trigger] rows[k]).id == id;
        assert(more[k].id == id);
    }
}

proof fn lemma_changed_staffed(q: Queue, msg: Message, ctx: CtxView)
    requires
        model::well_formed(q),
        model::has_numbers(q, model::ids_needed(msg)),
        staffed(q),
    ensures
        staffed(changed(q, msg, ctx)),
{
    let base = changed(q, msg, ctx);
    lemma_changed(q, msg, ctx);
    match msg {
        Message::Upload(tab_id, items) => {
            match ctx.client {
                Some(client) => {
                    lemma_uploads(q, tab_id, items@, 0, ctx.remote_dir, client);
                    assert forall|k: int| 0 <= k < q.rows.len() implies (#[trigger] base.rows[k]).id
                        == q.rows[k].id by {
                        assert(base.rows.take(q.rows.len() as int)[k] == base.rows[k]);
                    }
                    lemma_longer_lists(q.rows, base.rows);
                },
                None => {},
            }
        },
        Message::RemoveTransfer(tid) => {
            let pick = |x: Row| x.id != tid;
            if base != q {
                lemma_picked_listed(q, base, pick);
            }
        },
        Message::TabClosed(tab_id) => {
            let pick = |x: Row| x.tab_id != tab_id;
            let closed = model::rows_in(q.rows, tab_id);
            assert forall|k: int|
                0 <= k < q.rows.len() && base.running.contains((#[trigger] q.rows[k]).id) implies pick(
                q.rows[k],
            ) by {
                if q.rows[k].tab_id == tab_id {
                    q.rows.lemma_filter_contains(|x: Row| x.tab_id == tab_id, k);
                    let n = choose|n: int| 0 <= n < closed.len() && closed[n] == q.rows[k];
                    assert(closed[n].id == q.rows[k].id);
                }
            }
            lemma_picked_listed(q, base, pick);
        },
        _ => {
            assert forall|k: int| 0 <= k < q.rows.len() implies (#[trigger] base.rows[k]).id
                == q.rows[k].id by {}
            lemma_longer_lists(q.rows, base.rows);
        },
    }
}

/// Where the rows that hold a slot are all picked, their numbers stay on the list.
proof fn lemma_picked_listed(q: Queue, base: Queue, pick: spec_fn(Row) -> bool)
    requires
        staffed(q),
        base.rows == q.rows.filter(pick),
        base.running.subset_of(q.running),
        forall|k: int|
            0 <= k < q.rows.len() && base.running.contains((#[trigger] q.rows[k]).id) ==> pick(
                q.rows[k],
            ),
    ensures
        staffed(base),
{
    assert forall|id: u64| #[trigger] base.running.contains(id) implies listed(base.rows, id) by {
        assert(q.running.contains(id));
        let k = choose|k: int| 0 <= k < q.rows.len() && (#[trigger] q.rows[k]).id == id;
        q.rows.lemma_filter_contains(pick, k);
        let n = choose|n: int| 0 <= n < base.rows.len() && base.rows[n] == q.rows[k];
        assert(base.rows[n].id == id);
    }
}

proof fn lemma_admitted_staffed(q: Queue, i: int, limit: int, clients: Map<u64, u64>)
    requires
        staffed(q),
    ensures
        staffed(model::admitted(q, i, limit, clients).0),
    decreases q.rows.len() - i,
{
    if i < 0 || i >= q.rows.len() || q.running.len() >= limit {
    } else if model::startable(q, i, clients) {
        let next = model::started(q, i, clients);
        lemma_longer_lists(q.rows, next.rows);
        assert forall|id: u64| #[trigger] next.running.contains(id) implies listed(
            next.rows,
            id,
        ) by {
            if id == q.rows[i].id {
                assert(next.rows[i].id == id);
            } else {
                assert(q.running.contains(id));
                assert(listed(q.rows, id));
            }
        }
        lemma_admitted_staffed(next, i + 1, limit, clients);
    } else {
        lemma_admitted_staffed(q, i + 1, limit, clients);
    }
}

/// A worker keeps its row: while a slot is in use, the transfer that holds it stays on the list,
/// so that its file is known to be written; no message takes the row away and leaves the slot.
pub proof fn law_workers_keep_their_rows(q: Queue, msg: Message, ctx: CtxView)
    requires
        model::well_formed(q),
        model::has_numbers(q, model::ids_needed(msg)),
        staffed(q),
    ensures
        staffed(model::step(q, msg, ctx).0),
{
    lemma_changed_staffed(q, msg, ctx);
    law_change_then_start(q, msg, ctx);
    lemma_admitted_staffed(
        changed(q, msg, ctx),
        0,
        model::slots(ctx.max_concurrent as int),
        ctx.clients,
    );
}

/// Both rules hold of an empty queue.
pub proof fn law_an_empty_queue_has_no_worker()
    ensures
        exclusive(model::empty_queue()),
        staffed(model::empty_queue()),
{
}

/// Closing a tab leaves nothing of it: none of its transfers is on the list, none of their slots
/// is in use and no worker of theirs is left to be stopped.
pub proof fn law_a_closed_tab_leaves_nothing(q: Queue, tab_id: u64, ctx: CtxView)
    requires
        model::well_formed(q),
    ensures
        ({
            let after = model::step(q, Message::TabClosed(tab_id), ctx).0;
            &&& forall|k: int|
                0 <= k < after.rows.len() ==> (#[trigger] after.rows[k]).tab_id != tab_id
            &&& forall|k: int|
                0 <= k < q.rows.len() && (#[trigger] q.rows[k]).tab_id == tab_id
                    ==> !after.running.contains(q.rows[k].id) && !after.handles.contains(
                    q.rows[k].id,
                )
        }),
{
    let msg = Message::TabClosed(tab_id);
    let pick = |x: Row| x.tab_id != tab_id;
    let base = changed(q, msg, ctx);
    let limit = model::slots(ctx.max_concurrent as int);
    law_change_then_start(q, msg, ctx);
    lemma_picked_well_formed(q, pick);
    lemma_admitted_keeps(base, 0, limit, ctx.clients);
    lemma_admitted_running(base, 0, limit, ctx.clients);
    let (after, jobs) = model::admitted(base, 0, limit, ctx.clients);
    assert forall|k: int| 0 <= k < after.rows.len() implies (#[trigger] after.rows[k]).tab_id
        != tab_id by {
        q.rows.lemma_filter_pred(pick, k);
        assert(after.rows[k].tab_id == base.rows[k].tab_id);
    }
    assert forall|k: int| 0 <= k < q.rows.len() && (#[trigger] q.rows[k]).tab_id == tab_id implies
        !after.running.contains(q.rows[k].id) && !after.handles.contains(q.rows[k].id) by {
        let closed = model::rows_in(q.rows, tab_id);
        let id = q.rows[k].id;
        q.rows.lemma_filter_contains(|x: Row| x.tab_id == tab_id, k);
        let n = choose|n: int| 0 <= n < closed.len() && closed[n] == q.rows[k];
        assert(closed[n].id == id);
        assert(model::ids(closed).contains(id));
        if tids(jobs).contains(id) {
            let m = choose|m: int| 0 <= m < jobs.len() && #[trigger] jobs[m].tid == id;
            assert(job_from(base, 0, ctx.clients, jobs[m]));
            let r = choose|r: int|
                0 <= r < base.rows.len() && base.rows[r].status == TransferStatus::Queued
                    && jobs[m] == #[trigger] model::job_of(
                    model::active(base.rows[r], ctx.clients),
                );
            lemma_picked_ordered(q.rows, pick, q.next_id);
            assert(q.rows.contains(base.rows[r]));
            let x = choose|x: int| 0 <= x < q.rows.len() && q.rows[x] == base.rows[r];
            q.rows.lemma_filter_pred(pick, r);
            if x < k {
                assert(q.rows[x].id < q.rows[k].id);
            } else if k < x {
                assert(q.rows[k].id < q.rows[x].id);
            }
        }
    }
}

/// The file that a job writes.
pub open spec fn job_target(job: JobView) -> Target {
    match job.direction {
        TransferDirection::Download => Target::Local(
            local_path::parts(local_path::staged(job.local)),
        ),
        TransferDirection::Upload => Target::Remote(job.tab_id, model::staged(job.remote)),
    }
}

/// Whether events have a file removed.
pub open spec fn removes(events: Seq<EventView>, t: Target) -> bool {
    exists|k: int|
        0 <= k < events.len() && (#[trigger] events[k] matches EventView::Cleanup(job)
            && job_target(job) == t)
}

/// Each of some rows whose worker can be stopped has it stopped.
proof fn lemma_all_aborted(rows: Seq<Row>, handles: Set<u64>, i: int)
    requires
        0 <= i < rows.len(),
        handles.contains(rows[i].id),
    ensures
        model::abort_all(rows, handles).contains(EventView::Abort(rows[i].id)),
    decreases rows.len(),
{
    let before = model::abort_all(rows.drop_last(), handles);
    let stop = EventView::Abort(rows[i].id);
    lemma_contains_push(before, EventView::Abort(rows.last().id), stop);
    if i < rows.len() - 1 {
        assert(rows.drop_last()[i] == rows[i]);
        lemma_all_aborted(rows.drop_last(), handles, i);
    }
}

/// Each file that one of some rows left and that no transfer in `live` needs is removed.
proof fn lemma_all_removed(rows: Seq<Row>, live: Queue, i: int)
    requires
        0 <= i < rows.len(),
        model::leaves_partial(rows[i]),
        !model::busy(live, model::target(rows[i]), None),
    ensures
        removes(model::cleanup_all(rows, live), model::target(rows[i])),
    decreases rows.len(),
{
    let init = rows.drop_last();
    let t = model::target(rows[i]);
    let before = model::cleanup_all(init, live);
    let all = model::cleanup_all(rows, live);
    if model::left_at(init, t) {
        let n = choose|n: int|
            0 <= n < init.len() && model::leaves_partial(#[trigger] init[n]) && model::target(
                init[n],
            ) == t;
        lemma_all_removed(init, live, n);
        let k = choose|k: int|
            0 <= k < before.len() && (#[trigger] before[k] matches EventView::Cleanup(job)
                && job_target(job) == t);
        assert(all[k] == before[k]);
    } else {
        if i < init.len() {
            assert(init[i] == rows[i]);
        }
        assert(all == before.push(EventView::Cleanup(model::job_of(rows.last()))));
        assert(all[before.len() as int] == EventView::Cleanup(model::job_of(rows.last())));
    }
}

/// Closing a tab stops each worker of it that can be stopped, and has each staging file that its
/// transfers left removed, unless a transfer of another tab may still need that file.
pub proof fn law_a_closed_tab_is_cleared_away(q: Queue, tab_id: u64, ctx: CtxView, k: int)
    requires
        model::well_formed(q),
        0 <= k < q.rows.len(),
        q.rows[k].tab_id == tab_id,
    ensures
        ({
            let (after, events) = model::step(q, Message::TabClosed(tab_id), ctx);
            let r = q.rows[k];
            &&& q.handles.contains(r.id) ==> events.contains(EventView::Abort(r.id))
            &&& model::leaves_partial(r) && !model::busy(after, model::target(r), None) ==> removes(
                events,
                model::target(r),
            )
        }),
{
    let (after, events) = model::step(q, Message::TabClosed(tab_id), ctx);
    let r = q.rows[k];
    let closed = model::rows_in(q.rows, tab_id);
    q.rows.lemma_filter_contains(|x: Row| x.tab_id == tab_id, k);
    let n = choose|n: int| 0 <= n < closed.len() && closed[n] == r;
    let front = model::abort_all(closed, q.handles);
    let back = model::cleanup_all(closed, after);
    let middle = model::starts(jobs_started(q, Message::TabClosed(tab_id), ctx));
    assert(events == front + middle + back);
    if q.handles.contains(r.id) {
        lemma_all_aborted(closed, q.handles, n);
        lemma_contains_add(front, middle, EventView::Abort(r.id));
        lemma_contains_add(front + middle, back, EventView::Abort(r.id));
    }
    if model::leaves_partial(r) && !model::busy(after, model::target(r), None) {
        lemma_all_removed(closed, after, n);
        let m = choose|m: int|
            0 <= m < back.len() && (#[trigger] back[m] matches EventView::Cleanup(job)
                && job_target(job) == model::target(r));
        assert(events[front.len() + middle.len() + m] == back[m]);
    }
}

/// A staging file is removed only when no other transfer may still need it: neither one that has
/// written to it nor one that the same message has just started.
pub proof fn law_removal_spares_files_in_use(q: Queue, msg: Message, ctx: CtxView, job: JobView)
    requires
        model::well_formed(q),
        model::step(q, msg, ctx).1.contains(EventView::Cleanup(job)),
    ensures
        !model::busy(model::step(q, msg, ctx).0, job_target(job), Some(job.tid)),
{
    let (after, events) = model::step(q, msg, ctx);
    let removal = EventView::Cleanup(job);
    match msg {
        Message::TransferDone(tab_id, tid, result) => {
            law_change_then_start(q, msg, ctx);
            let begun = model::starts(jobs_started(q, msg, ctx));
            match model::row_of(q.rows, tid) {
                Some(r) => {
                    if model::settles(r, tab_id) {
                        let s = model::settled(r, result, ctx.retry_attempts, ctx.now_ms);
                        lemma_edit_same(
                            q,
                            tid,
                            |x: Row|
                                if model::settles(x, tab_id) {
                                    model::settled(x, result, ctx.retry_attempts, ctx.now_ms)
                                } else {
                                    x
                                },
                            |x: Row| s,
                        );
                        if events.len() > begun.len() {
                            assert(events =~= begun.push(events.last()));
                            lemma_contains_push(begun, events.last(), removal);
                        }
                        assert(!begun.contains(removal));
                        assert(events.last() == removal);
                        assert(job == model::job_of(s));
                    } else {
                        assert(!begun.contains(removal));
                    }
                },
                None => {
                    assert(!begun.contains(removal));
                },
            }
        },
        Message::RemoveTransfer(tid) => {
            law_change_then_start(q, msg, ctx);
            let begun = model::starts(jobs_started(q, msg, ctx));
            assert(!begun.contains(removal));
            if events.len() > begun.len() {
                assert(events =~= begun.push(events.last()));
                lemma_contains_push(begun, events.last(), removal);
            }
        },
        Message::CancelTransfer(tid) => {
            let r = model::row_of(q.rows, tid)->0;
            let k = choose|k: int| 0 <= k < events.len() && events[k] == removal;
            assert(job == model::job_of(r));
            let i = choose|i: int| 0 <= i < q.rows.len() && #[trigger] q.rows[i].id == tid;
            assert(r == q.rows[i]);
            lemma_edit_at(q, i, |x: Row| model::cancelled(x));
            assert(!model::busy(q, job_target(job), Some(job.tid)));
            assert forall|m: int| 0 <= m < after.rows.len() implies !(Some(
                #[trigger] after.rows[m].id,
            ) != Some(job.tid) && (model::leaves_partial(after.rows[m]) || after.running.contains(
                after.rows[m].id,
            )) && model::target(after.rows[m]) == job_target(job)) by {
                if m != i {
                    assert(after.rows[m] == q.rows[m]);
                    assert(Some(q.rows[m].id) != Some(job.tid) ==> !((model::leaves_partial(
                        q.rows[m],
                    ) || q.running.contains(q.rows[m].id)) && model::target(q.rows[m])
                        == job_target(job)));
                }
            }
        },
        Message::TabClosed(tab_id) => {
            law_change_then_start(q, msg, ctx);
            let begun = model::starts(jobs_started(q, msg, ctx));
            let closed = model::rows_in(q.rows, tab_id);
            let front = model::abort_all(closed, q.handles);
            let back = model::cleanup_all(closed, after);
            lemma_abort_all(closed, q.handles, job);
            lemma_cleanup_all(closed, after, job);
            assert(!begun.contains(removal));
            lemma_contains_add(front + begun, back, removal);
            lemma_contains_add(front, begun, removal);
            let i = choose|i: int|
                0 <= i < closed.len() && model::job_of(#[trigger] closed[i]) == job
                    && model::leaves_partial(closed[i]) && !model::busy(
                    after,
                    model::target(closed[i]),
                    None,
                );
            assert(model::target(closed[i]) == job_target(job));
            assert forall|m: int| 0 <= m < after.rows.len() implies !(Some(
                #[trigger] after.rows[m].id,
            ) != Some(job.tid) && (model::leaves_partial(after.rows[m]) || after.running.contains(
                after.rows[m].id,
            )) && model::target(after.rows[m]) == job_target(job)) by {
                assert(Some(after.rows[m].id) != None::<u64>);
            }
        },
        Message::Upload(_, _) | Message::Download(_, _, _) | Message::RetryTransfer(_)
        | Message::RetryDue(_) | Message::ConcurrencyChanged => {
            law_change_then_start(q, msg, ctx);
            let begun = model::starts(jobs_started(q, msg, ctx));
            assert(!begun.contains(removal));
            if events.len() > begun.len() {
                assert(events =~= begun.push(events.last()));
                lemma_contains_push(begun, events.last(), removal);
            }
        },
        _ => {
            let k = choose|k: int| 0 <= k < events.len() && events[k] == removal;
            assert(events[k] == removal);
        },
    }
}

/// What starting transfers leaves waiting: if a slot is still free, nothing that could be
/// started; and nothing that could be started ahead of one that was.
proof fn lemma_admitted_exhaustive(q: Queue, i: int, limit: int, clients: Map<u64, u64>)
    requires
        model::well_formed(q),
        0 <= i,
    ensures
        ({
            let (after, jobs) = model::admitted(q, i, limit, clients);
            &&& forall|k: int|
                #![trigger after.rows[k]]
                i <= k < after.rows.len() && after.running.len() < limit ==> !model::startable(
                    after,
                    k,
                    clients,
                )
            &&& forall|k: int, n: int|
                #![trigger after.rows[k], jobs[n]]
                i <= k < after.rows.len() && 0 <= n < jobs.len() && after.rows[k].id < jobs[n].tid
                    ==> !model::startable(after, k, clients)
        }),
    decreases q.rows.len() - i,
{
    let (after, jobs) = model::admitted(q, i, limit, clients);
    lemma_admitted_keeps(q, i, limit, clients);
    lemma_admitted_running(q, i, limit, clients);
    if i >= q.rows.len() || q.running.len() >= limit {
    } else if model::startable(q, i, clients) {
        let next = model::started(q, i, clients);
        lemma_started_well_formed(q, i, clients);
        lemma_admitted_exhaustive(next, i + 1, limit, clients);
        lemma_admitted_keeps(next, i + 1, limit, clients);
        let rest = model::admitted(next, i + 1, limit, clients).1;
        assert(jobs =~= seq![model::job_of(model::active(q.rows[i], clients))] + rest);
        assert(next.rows[i].status == TransferStatus::Active);
        assert(after.rows[i] == next.rows[i]);
        assert forall|k: int, n: int|
            #![trigger after.rows[k], jobs[n]]
            i <= k < after.rows.len() && 0 <= n < jobs.len() && after.rows[k].id
                < jobs[n].tid implies !model::startable(after, k, clients) by {
            if k > i {
                if n > 0 {
                    assert(jobs[n] == rest[n - 1]);
                } else {
                    assert(after.rows[k].id == q.rows[k].id);
                    assert(q.rows[i].id < q.rows[k].id);
                }
            }
        }
    } else {
        lemma_admitted_exhaustive(q, i + 1, limit, clients);
        assert(!model::startable(after, i, clients)) by {
            lemma_admitted_grows(q, i + 1, limit, clients, model::target(q.rows[i]));
            assert(after.rows[i] == q.rows[i] || after.rows[i].status == TransferStatus::Active);
            if after.rows[i] == q.rows[i] && q.running.contains(q.rows[i].id) {
                assert(after.running.contains(q.rows[i].id));
            }
        }
    }
}

/// A file that is being written stays so while transfers are started.
proof fn lemma_admitted_grows(q: Queue, i: int, limit: int, clients: Map<u64, u64>, t: Target)
    requires
        model::well_formed(q),
        0 <= i,
    ensures
        model::occupied(q, t) ==> model::occupied(model::admitted(q, i, limit, clients).0, t),
{
    let after = model::admitted(q, i, limit, clients).0;
    lemma_admitted_keeps(q, i, limit, clients);
    lemma_admitted_running(q, i, limit, clients);
    if model::occupied(q, t) {
        let k = choose|k: int|
            0 <= k < q.rows.len() && ((#[trigger] q.rows[k]).status == TransferStatus::Active
                || q.running.contains(q.rows[k].id)) && model::target(q.rows[k]) == t;
        assert(after.rows[k].id == q.rows[k].id && model::target(after.rows[k]) == t);
        assert(q.running.contains(q.rows[k].id) ==> after.running.contains(after.rows[k].id));
    }
}

/// First come, first served, and no slot idle: after a message that has transfers started,
/// a waiting transfer that could be started means that all slots are in use, and it was asked for
/// later than every one that was started.
pub proof fn law_first_come_first_served(q: Queue, msg: Message, ctx: CtxView, k: int)
    requires
        model::well_formed(q),
        model::has_numbers(q, model::ids_needed(msg)),
        starts_waiting(q, msg, ctx),
        0 <= k < model::step(q, msg, ctx).0.rows.len(),
        model::startable(model::step(q, msg, ctx).0, k, ctx.clients),
    ensures
        model::step(q, msg, ctx).0.running.len() >= model::slots(ctx.max_concurrent as int),
        forall|n: int|
            0 <= n < jobs_started(q, msg, ctx).len() ==> (#[trigger] jobs_started(
                q,
                msg,
                ctx,
            )[n]).tid < model::step(q, msg, ctx).0.rows[k].id,
{
    law_change_then_start(q, msg, ctx);
    lemma_changed(q, msg, ctx);
    let base = changed(q, msg, ctx);
    let limit = model::slots(ctx.max_concurrent as int);
    lemma_admitted_exhaustive(base, 0, limit, ctx.clients);
    lemma_admitted_running(base, 0, limit, ctx.clients);
    let (after, jobs) = model::admitted(base, 0, limit, ctx.clients);
    assert forall|n: int| 0 <= n < jobs.len() implies (#[trigger] jobs[n]).tid
        < after.rows[k].id by {
        assert(!(after.rows[k].id < jobs[n].tid));
        if after.rows[k].id == jobs[n].tid {
            assert(tids(jobs).contains(jobs[n].tid));
            assert(after.running.contains(after.rows[k].id));
        }
    }
}

/// The end of a wait counts once: when the transfer no longer waits for a retry, nothing changes;
/// and after it counted, it does not count again.
pub proof fn law_retry_due_counts_once(q: Queue, tid: u64, ctx: CtxView, later: CtxView)
    requires
        model::well_formed(q),
    ensures
        match model::row_of(q.rows, tid) {
            Some(r) => r.status != TransferStatus::WaitingRetry,
            None => true,
        } ==> model::step(q, Message::RetryDue(tid), ctx) == (q, Seq::<EventView>::empty()),
        model::step(
            model::step(q, Message::RetryDue(tid), ctx).0,
            Message::RetryDue(tid),
            later,
        ) == (model::step(q, Message::RetryDue(tid), ctx).0, Seq::<EventView>::empty()),
{
    let msg = Message::RetryDue(tid);
    let after = model::step(q, msg, ctx).0;
    match model::row_of(q.rows, tid) {
        Some(r) => {
            if r.status == TransferStatus::WaitingRetry {
                let i = choose|i: int| 0 <= i < q.rows.len() && #[trigger] q.rows[i].id == tid;
                law_change_then_start(q, msg, ctx);
                let f = |x: Row| model::due(x);
                lemma_edit_at(q, i, f);
                lemma_edited_well_formed(q, tid, f);
                let base = Queue { rows: model::edited(q.rows, tid, f), ..q };
                let limit = model::slots(ctx.max_concurrent as int);
                lemma_admitted_keeps(base, 0, limit, ctx.clients);
                lemma_admitted_running(base, 0, limit, ctx.clients);
                assert(base.rows[i].status == TransferStatus::Queued);
                assert(after.rows[i].status != TransferStatus::WaitingRetry);
                assert(after.rows[i].id == tid);
                lemma_row_at(after, i);
            }
        },
        None => {},
    }
}

/// A late result only frees the slot: when the transfer is no longer counted as running, its
/// worker's result changes none of the rows by itself.
pub proof fn law_late_result_only_frees_the_slot(
    q: Queue,
    tab_id: u64,
    tid: u64,
    result: Result<(), Failure>,
    ctx: CtxView,
)
    requires
        model::well_formed(q),
        match model::row_of(q.rows, tid) {
            Some(r) => r.status != TransferStatus::Active,
            None => true,
        },
    ensures
        model::step(q, Message::TransferDone(tab_id, tid, result), ctx) == model::pumped(
            Queue { running: q.running.remove(tid), handles: q.handles.remove(tid), ..q },
            ctx,
        ),
{
}

/// A transfer that waits for a retry holds no slot, and the wait asked for is the one recorded.
pub proof fn law_waiting_holds_no_slot(
    q: Queue,
    tab_id: u64,
    tid: u64,
    f: Failure,
    ctx: CtxView,
)
    requires
        model::well_formed(q),
        ctx.now_ms + MAX_BACKOFF_MS <= u64::MAX,
        model::row_of(q.rows, tid) is Some,
        model::settles(model::row_of(q.rows, tid)->0, tab_id),
        model::retries(model::row_of(q.rows, tid)->0, f, ctx.retry_attempts),
    ensures
        ({
            let r = model::row_of(q.rows, tid)->0;
            let (after, events) = model::step(
                q,
                Message::TransferDone(tab_id, tid, Err(f)),
                ctx,
            );
            let s = model::row_of(after.rows, tid);
            &&& !after.running.contains(tid)
            &&& s is Some
            &&& s->0.status == TransferStatus::WaitingRetry
            &&& s->0.attempts == r.attempts + 1
            &&& s->0.not_before == Some((ctx.now_ms + model::backoff(r.attempts)) as u64)
            &&& events.last() == EventView::RetryTimer {
                delay: model::backoff(r.attempts),
                tid,
            }
        }),
{
    let msg = Message::TransferDone(tab_id, tid, Err(f));
    let r = model::row_of(q.rows, tid)->0;
    let s = model::settled(r, Err(f), ctx.retry_attempts, ctx.now_ms);
    let i = choose|i: int| 0 <= i < q.rows.len() && #[trigger] q.rows[i].id == tid;
    let change = |x: Row| s;
    lemma_edit_at(q, i, change);
    let freed = Queue { running: q.running.remove(tid), handles: q.handles.remove(tid), ..q };
    lemma_edited_well_formed(freed, tid, change);
    let base = Queue { rows: model::edited(q.rows, tid, change), ..freed };
    let limit = model::slots(ctx.max_concurrent as int);
    lemma_admitted_keeps(base, 0, limit, ctx.clients);
    lemma_admitted_running(base, 0, limit, ctx.clients);
    let (after, jobs) = model::admitted(base, 0, limit, ctx.clients);
    assert(base.rows[i] == s);
    assert(after.rows[i] == s);
    lemma_row_at(after, i);
    if after.running.contains(tid) {
        assert(tids(jobs).contains(tid));
        let n = choose|n: int| 0 <= n < jobs.len() && #[trigger] jobs[n].tid == tid;
        assert(job_from(base, 0, ctx.clients, jobs[n]));
        let k = choose|k: int|
            0 <= k < base.rows.len() && base.rows[k].status == TransferStatus::Queued && jobs[n]
                == #[trigger] model::job_of(model::active(base.rows[k], ctx.clients));
        assert(base.rows[k].id == tid);
        if k < i {
            assert(base.rows[k].id < base.rows[i].id);
        } else if i < k {
            assert(base.rows[i].id < base.rows[k].id);
        }
    }
}

/// A failed transfer keeps its staging file, so that it can be continued; only a given-up one
/// loses it, and never one that holds the whole content.
pub proof fn law_failure_keeps_the_staging_file(
    q: Queue,
    tab_id: u64,
    tid: u64,
    f: Failure,
    ctx: CtxView,
    job: JobView,
)
    requires
        model::well_formed(q),
        f.kind != FailureKind::Cancelled || f.keep_staging,
    ensures
        !model::step(q, Message::TransferDone(tab_id, tid, Err(f)), ctx).1.contains(
            EventView::Cleanup(job),
        ),
{
    let msg = Message::TransferDone(tab_id, tid, Err(f));
    let events = model::step(q, msg, ctx).1;
    if events.contains(EventView::Cleanup(job)) {
        let k = choose|k: int| 0 <= k < events.len() && events[k] == EventView::Cleanup(job);
        assert(events[k] is Start || events[k] is RetryTimer);
    }
}

/// A staging file with the whole content is never removed by giving the transfer up, taking it
/// off the list or closing its tab.
pub proof fn law_whole_content_is_never_removed(q: Queue, msg: Message, ctx: CtxView, r: Row)
    requires
        model::well_formed(q),
        model::row_of(q.rows, r.id) == Some(r),
        r.keep_staging,
        !(msg is TransferDone),
    ensures
        forall|job: JobView|
            job.tid == r.id ==> !(#[trigger] model::step(q, msg, ctx).1.contains(
                EventView::Cleanup(job),
            )),
{
    let (after, events) = model::step(q, msg, ctx);
    assert forall|job: JobView| job.tid == r.id implies !(#[trigger] events.contains(
        EventView::Cleanup(job),
    )) by {
        let removal = EventView::Cleanup(job);
        if events.contains(removal) {
            match msg {
                Message::TabClosed(tab_id) => {
                    let begun = model::starts(jobs_started(q, msg, ctx));
                    let closed = model::rows_in(q.rows, tab_id);
                    let front = model::abort_all(closed, q.handles);
                    let back = model::cleanup_all(closed, after);
                    lemma_abort_all(closed, q.handles, job);
                    lemma_cleanup_all(closed, after, job);
                    lemma_contains_add(front + begun, back, removal);
                    lemma_contains_add(front, begun, removal);
                    assert(!begun.contains(removal));
                    let i = choose|i: int|
                        0 <= i < closed.len() && model::job_of(#[trigger] closed[i]) == job
                            && model::leaves_partial(closed[i]) && !model::busy(
                            after,
                            model::target(closed[i]),
                            None,
                        );
                    lemma_picked_ordered(q.rows, |x: Row| x.tab_id == tab_id, q.next_id);
                    assert(q.rows.contains(closed[i]));
                    let n = choose|n: int| 0 <= n < q.rows.len() && q.rows[n] == closed[i];
                    lemma_row_at(q, n);
                },
                Message::RemoveTransfer(tid) => {
                    let begun = model::starts(jobs_started(q, msg, ctx));
                    assert(!begun.contains(removal));
                    if events.len() > begun.len() {
                        assert(events =~= begun.push(events.last()));
                        lemma_contains_push(begun, events.last(), removal);
                        let t = model::row_of(q.rows, tid)->0;
                        let n = choose|n: int|
                            0 <= n < q.rows.len() && #[trigger] q.rows[n].id == tid;
                        assert(t.id == tid);
                        assert(job == model::job_of(t));
                    }
                },
                _ => {
                    let k = choose|k: int| 0 <= k < events.len() && events[k] == removal;
                    assert(events[k] == removal);
                    match msg {
                        Message::CancelTransfer(tid) => {
                            let t = model::row_of(q.rows, tid)->0;
                            assert(job == model::job_of(t));
                            let n = choose|n: int|
                                0 <= n < q.rows.len() && #[trigger] q.rows[n].id == tid;
                            assert(t.id == tid);
                        },
                        _ => {
                            law_change_then_start(q, msg, ctx);
                            let begun = model::starts(jobs_started(q, msg, ctx));
                            assert(!begun.contains(removal));
                            if events.len() > begun.len() {
                                assert(starts_waiting(q, msg, ctx) ==> events =~= begun.push(
                                    events.last(),
                                ));
                                lemma_contains_push(begun, events.last(), removal);
                            }
                        },
                    }
                },
            }
        }
    }
}

/// The wait grows with each retry and stays between the first wait and the longest.
pub proof fn law_backoff_grows_up_to_a_bound(n: u32, m: u32)
    requires
        n <= m,
    ensures
        BASE_BACKOFF_MS <= model::backoff(n) <= model::backoff(m) <= MAX_BACKOFF_MS,
        model::backoff(0) == BASE_BACKOFF_MS,
{
    lemma_doubled_grows(BASE_BACKOFF_MS as nat, 0, n as nat);
    lemma_doubled_grows(BASE_BACKOFF_MS as nat, n as nat, m as nat);
}

/// What is written and what is removed is never the file under its final name.
pub proof fn law_staging_is_never_the_final_name(path: Seq<char>, local: Seq<u8>)
    ensures
        model::staged(path) != path,
        local_path::parts(local_path::staged(local)) != local_path::parts(local),
{
    local_path::law_staging_is_another_file(local);
    reveal_strlit(".part");
    assert(model::staged(path).len() == path.len() + 5);
}

/// Before transfers are started: rows that a message adds have numbers that none had before.
proof fn lemma_changed_numbers(q: Queue, msg: Message, ctx: CtxView)
    requires
        model::well_formed(q),
        model::has_numbers(q, model::ids_needed(msg)),
    ensures
        changed(q, msg, ctx).next_id >= q.next_id,
        forall|k: int|
            0 <= k < changed(q, msg, ctx).rows.len() ==> known(
                q,
                (#[trigger] changed(q, msg, ctx).rows[k]).id,
            ),
{
    let base = changed(q, msg, ctx);
    assert forall|k: int| 0 <= k < q.rows.len() implies known(q, (#[trigger] q.rows[k]).id) by {
        lemma_row_at(q, k);
    }
    match msg {
        Message::Upload(tab_id, items) => {
            match ctx.client {
                Some(client) => {
                    lemma_uploads(q, tab_id, items@, 0, ctx.remote_dir, client);
                    assert forall|k: int| 0 <= k < base.rows.len() implies known(
                        q,
                        (#[trigger] base.rows[k]).id,
                    ) by {
                        if k < q.rows.len() {
                            assert(base.rows.take(q.rows.len() as int)[k] == base.rows[k]);
                            assert(known(q, q.rows[k].id));
                        }
                    }
                },
                None => {},
            }
        },
        Message::RemoveTransfer(tid) => {
            lemma_picked_known(q, |x: Row| x.id != tid);
        },
        Message::TabClosed(tab_id) => {
            lemma_picked_known(q, |x: Row| x.tab_id != tab_id);
        },
        Message::Download(_, _, _) => {
            assert forall|k: int| 0 <= k < base.rows.len() implies known(
                q,
                (#[trigger] base.rows[k]).id,
            ) by {
                if k < q.rows.len() {
                    assert(known(q, q.rows[k].id));
                }
            }
        },
        _ => {
            assert forall|k: int| 0 <= k < base.rows.len() implies known(
                q,
                (#[trigger] base.rows[k]).id,
            ) by {
                assert(base.rows[k].id == q.rows[k].id);
                assert(known(q, q.rows[k].id));
            }
        },
    }
}

/// Whether a number is one that a row has, or one that none had yet.
pub open spec fn known(q: Queue, id: u64) -> bool {
    id >= q.next_id || model::row_of(q.rows, id) is Some
}

proof fn lemma_picked_known(q: Queue, pick: spec_fn(Row) -> bool)
    requires
        model::well_formed(q),
    ensures
        forall|k: int|
            0 <= k < q.rows.filter(pick).len() ==> known(q, (#[trigger] q.rows.filter(pick)[k]).id),
{
    lemma_picked_ordered(q.rows, pick, q.next_id);
    let picked = q.rows.filter(pick);
    assert forall|k: int| 0 <= k < picked.len() implies known(q, (#[trigger] picked[k]).id) by {
        assert(q.rows.contains(picked[k]));
        let n = choose|n: int| 0 <= n < q.rows.len() && q.rows[n] == picked[k];
        lemma_row_at(q, n);
    }
}

/// Numbers are not used twice: rows that a message adds have numbers that none had before.
pub proof fn law_numbers_are_not_reused(q: Queue, msg: Message, ctx: CtxView)
    requires
        model::well_formed(q),
        model::has_numbers(q, model::ids_needed(msg)),
    ensures
        model::well_formed(model::step(q, msg, ctx).0),
        model::step(q, msg, ctx).0.next_id >= q.next_id,
        forall|k: int|
            0 <= k < model::step(q, msg, ctx).0.rows.len() ==> known(
                q,
                (#[trigger] model::step(q, msg, ctx).0.rows[k]).id,
            ),
{
    law_change_then_start(q, msg, ctx);
    lemma_changed(q, msg, ctx);
    lemma_changed_numbers(q, msg, ctx);
    let base = changed(q, msg, ctx);
    let limit = model::slots(ctx.max_concurrent as int);
    lemma_admitted_keeps(base, 0, limit, ctx.clients);
    lemma_admitted_running(base, 0, limit, ctx.clients);
    let after = model::step(q, msg, ctx).0;
    assert forall|k: int| 0 <= k < after.rows.len() implies known(
        q,
        (#[trigger] after.rows[k]).id,
    ) by {
        assert(after.rows[k].id == base.rows[k].id);
        assert(known(q, base.rows[k].id));
    }
}

} // verus!
