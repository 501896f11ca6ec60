//! What a transfer does from its first action to its last, whatever it is answered.

use crate::error;
use crate::sftp::ResumeAt;
use crate::tasks;
use crate::transfer;
use crate::transfer::model::JobView;
use crate::transfer::worker;
use crate::transfer::worker::{ActionView, FilePathView, Phase, Reply, WorkerView};
use crate::transfer::{FailureKind, TransferDirection};
use vstd::prelude::*;

verus! {

/// A transfer after these replies, and what it asks for then.
pub open spec fn course(job: JobView, replies: Seq<Reply>) -> (WorkerView, ActionView)
    decreases replies.len(),
{
    if replies.len() == 0 {
        worker::begun(job)
    } else {
        worker::following(course(job, replies.drop_last()).0, replies.last())
    }
}

/// What a transfer asked for before the reply of number `k`.
pub open spec fn asked(job: JobView, replies: Seq<Reply>, k: int) -> ActionView {
    course(job, replies.take(k)).1
}

/// Whether the transfer was not over before the last of these replies.
pub open spec fn under_way(job: JobView, replies: Seq<Reply>) -> bool {
    forall|k: int| 0 <= k < replies.len() ==> !(#[trigger] asked(job, replies, k) is Finish)
}

/// Whether a directory was found or made with the reply of number `k`.
pub open spec fn assured(job: JobView, replies: Seq<Reply>, k: int, dir: Seq<char>) -> bool {
    &&& asked(job, replies, k) == ActionView::ListDir(dir) || asked(job, replies, k)
        == ActionView::CreateDir(dir)
    &&& !(replies[k] is Failed)
}

/// Whether the staging file was written with the reply of number `k`.
pub open spec fn written(job: JobView, replies: Seq<Reply>, k: int) -> bool {
    asked(job, replies, k) is Copy && !(replies[k] is Failed)
}

/// Whether the directories above a remote path can be numbered.
pub open spec fn in_bounds(job: JobView) -> bool {
    tasks::ancestors(tasks::parent(job.remote)).len() <= usize::MAX
}

/// The file that a transfer makes.
pub open spec fn made(job: JobView) -> FilePathView {
    if job.direction == TransferDirection::Upload {
        FilePathView::Remote(job.remote)
    } else {
        FilePathView::Local(job.local)
    }
}

/// The file that it writes until it is whole: the same path with `.part` behind it.
pub open spec fn part(job: JobView) -> FilePathView {
    if job.direction == TransferDirection::Upload {
        FilePathView::Remote(job.remote + seq!['.', 'p', 'a', 'r', 't'])
    } else {
        FilePathView::Local(job.local + seq![0x2eu8, 0x70, 0x61, 0x72, 0x74])
    }
}

/// What holds of a transfer and its last action.
spec fn fits(job: JobView, w: WorkerView, a: ActionView) -> bool {
    &&& w.job == job
    &&& w.dirs == worker::needed_dirs(job)
    &&& w.dirs.len() <= usize::MAX
    &&& worker::sound(w)
    &&& match w.phase {
        Phase::Listing(i) => a == ActionView::ListDir(w.dirs[i as int]),
        Phase::Creating(i) => a == ActionView::CreateDir(w.dirs[i as int]),
        Phase::Checking(i) => a == ActionView::ListDir(w.dirs[i as int]) && w.fault is Some,
        Phase::Source => a is StatSource,
        Phase::Staging(_) => a == ActionView::StatStaging(worker::staging_name(job)),
        Phase::Copying => a matches ActionView::Copy { staging, .. } && staging
            == worker::staging_name(job),
        Phase::Renaming | Phase::RenamingAgain => a == (ActionView::Rename {
            from: worker::staging_name(job),
            to: worker::final_name(job),
        }),
        Phase::Blocked => a == ActionView::StatTarget(worker::final_name(job)) && job.direction
            == TransferDirection::Download,
        Phase::Removing => a == ActionView::RemoveTarget(worker::final_name(job)),
        Phase::Over => a is Finish,
    }
}

proof fn lemma_fits(job: JobView, replies: Seq<Reply>)
    requires
        in_bounds(job),
    ensures
        fits(job, course(job, replies).0, course(job, replies).1),
    decreases replies.len(),
{
    if replies.len() > 0 {
        lemma_fits(job, replies.drop_last());
    }
}

proof fn lemma_names(job: JobView)
    ensures
        worker::final_name(job) == made(job),
        worker::staging_name(job) == part(job),
{
    reveal_strlit(".part");
    assert(".part"@ =~= seq!['.', 'p', 'a', 'r', 't']);
}

proof fn lemma_earlier(job: JobView, replies: Seq<Reply>, reply: Reply, k: int)
    requires
        0 <= k <= replies.len(),
    ensures
        asked(job, replies.push(reply), k) == asked(job, replies, k),
        asked(job, replies, replies.len() as int) == course(job, replies).1,
        k < replies.len() ==> replies.push(reply)[k] == replies[k],
        course(job, replies.push(reply)) == worker::following(course(job, replies).0, reply),
{
    assert(replies.push(reply).take(k) =~= replies.take(k));
    assert(replies.take(replies.len() as int) =~= replies);
    assert(replies.push(reply).drop_last() =~= replies);
}

/// How many directories were assured.
spec fn dirs_behind(w: WorkerView) -> int {
    match w.phase {
        Phase::Listing(i) => i as int,
        Phase::Creating(i) => i as int,
        Phase::Checking(i) => i as int,
        Phase::Over => 0,
        _ => w.dirs.len() as int,
    }
}

proof fn lemma_dirs_assured(job: JobView, replies: Seq<Reply>, i: int)
    requires
        in_bounds(job),
        0 <= i < dirs_behind(course(job, replies).0),
    ensures
        exists|k: int|
            0 <= k < replies.len() && #[trigger] assured(
                job,
                replies,
                k,
                worker::needed_dirs(job)[i],
            ),
    decreases replies.len(),
{
    lemma_fits(job, replies);
    if replies.len() > 0 {
        let earlier = replies.drop_last();
        let reply = replies.last();
        let d = worker::needed_dirs(job)[i];
        assert(replies =~= earlier.push(reply));
        lemma_fits(job, earlier);
        lemma_earlier(job, earlier, reply, earlier.len() as int);
        let w = course(job, earlier).0;
        if i < dirs_behind(w) {
            lemma_dirs_assured(job, earlier, i);
            let k = choose|k: int| 0 <= k < earlier.len() && #[trigger] assured(job, earlier, k, d);
            lemma_earlier(job, earlier, reply, k);
            assert(assured(job, replies, k, d));
        } else {
            assert(assured(job, replies, earlier.len() as int, d));
        }
    } else {
        assert(false);
    }
}

/// Before an upload looks at its source, or at anything behind that, each directory above the
/// remote path is there: it was found, or it was made.
pub proof fn law_directories_are_there_first(job: JobView, replies: Seq<Reply>, dir: Seq<char>)
    requires
        in_bounds(job),
        job.direction == TransferDirection::Upload,
        tasks::parent(job.remote) != job.remote,
        tasks::ancestors(tasks::parent(job.remote)).contains(dir),
        ({
            let action = course(job, replies).1;
            !(action is ListDir) && !(action is CreateDir) && !(action is Finish)
        }),
    ensures
        exists|k: int| 0 <= k < replies.len() && #[trigger] assured(job, replies, k, dir),
{
    lemma_fits(job, replies);
    tasks::lemma_parent_is_some(job.remote);
    let dirs = worker::needed_dirs(job);
    assert(dirs == tasks::ancestors(tasks::parent(job.remote)));
    let i = choose|i: int| 0 <= i < dirs.len() && dirs[i] == dir;
    lemma_dirs_assured(job, replies, i);
}

/// What becomes of a directory that is not there: it is made. Where that fails it is looked for
/// once more, for another may have made it meanwhile; and only where it is still not there is the
/// upload given up, with what making it failed with. No directory is made that was there.
pub proof fn law_missing_directories_are_made(job: JobView, replies: Seq<Reply>, reply: Reply)
    requires
        in_bounds(job),
    ensures
        ({
            let n = replies.len();
            let action = course(job, replies).1;
            let next = course(job, replies.push(reply)).1;
            let unmade = n > 0 && asked(job, replies, n - 1) is CreateDir && replies[n - 1] is Failed;
            &&& action matches ActionView::ListDir(dir) ==> (reply is Failed ==> if unmade {
                next matches ActionView::Finish(Err(f)) && f.kind == transfer::failure_kind(
                    error::class_of(replies[n - 1]->Failed_0),
                ) && !f.keep_staging
            } else {
                next == ActionView::CreateDir(dir)
            })
            &&& action matches ActionView::CreateDir(dir) ==> (reply is Failed ==> next
                == ActionView::ListDir(dir))
            &&& (action is ListDir || action is CreateDir) && !(reply is Failed) ==> next is ListDir
                || next is StatSource
            &&& next is CreateDir ==> reply is Failed && next == ActionView::CreateDir(
                action->ListDir_0,
            )
            &&& job.direction == TransferDirection::Download ==> !(action is ListDir) && !(action
                is CreateDir)
        }),
{
    lemma_fits(job, replies);
    lemma_earlier(job, replies, reply, replies.len() as int);
    let n = replies.len();
    let w = course(job, replies).0;
    if n > 0 {
        let earlier = replies.drop_last();
        assert(replies =~= earlier.push(replies.last()));
        lemma_fits(job, earlier);
        lemma_earlier(job, earlier, replies.last(), earlier.len() as int);
        assert(asked(job, replies, n - 1) == course(job, earlier).1);
    }
}

/// All that a transfer touches is named by its paths: it writes the file with `.part` behind its
/// name, gives that file its name, and looks at or removes no other file than these two.
pub proof fn law_a_transfer_touches_its_own_files(job: JobView, replies: Seq<Reply>)
    requires
        in_bounds(job),
    ensures
        match course(job, replies).1 {
            ActionView::StatStaging(path) => path == part(job),
            ActionView::Copy { staging, .. } => staging == part(job),
            ActionView::Rename { from, to } => from == part(job) && to == made(job),
            ActionView::StatTarget(path) => path == made(job),
            ActionView::RemoveTarget(path) => path == made(job),
            _ => true,
        },
{
    lemma_fits(job, replies);
    lemma_names(job);
}

proof fn lemma_written(job: JobView, replies: Seq<Reply>)
    requires
        in_bounds(job),
        worker::copied(course(job, replies).0.phase),
    ensures
        exists|k: int| 0 <= k < replies.len() && #[trigger] written(job, replies, k),
    decreases replies.len(),
{
    if replies.len() > 0 {
        let earlier = replies.drop_last();
        let reply = replies.last();
        assert(replies =~= earlier.push(reply));
        lemma_fits(job, earlier);
        lemma_earlier(job, earlier, reply, earlier.len() as int);
        if worker::copied(course(job, earlier).0.phase) {
            lemma_written(job, earlier);
            let k = choose|k: int| 0 <= k < earlier.len() && #[trigger] written(job, earlier, k);
            lemma_earlier(job, earlier, reply, k);
            assert(written(job, replies, k));
        } else {
            assert(written(job, replies, earlier.len() as int));
        }
    }
}

/// A transfer that ends well has written its staging file without a failure, and then given it
/// the final name without a failure; the name was the last thing to be given.
pub proof fn law_a_transfer_that_ends_well_made_its_file(job: JobView, replies: Seq<Reply>)
    requires
        in_bounds(job),
        under_way(job, replies),
        course(job, replies).1 == ActionView::Finish(Ok(())),
    ensures
        replies.len() > 0,
        asked(job, replies, replies.len() - 1) == (ActionView::Rename {
            from: part(job),
            to: made(job),
        }),
        !(replies.last() is Failed),
        exists|k: int| 0 <= k < replies.len() - 1 && #[trigger] written(job, replies, k),
{
    lemma_fits(job, replies);
    lemma_names(job);
    if replies.len() > 0 {
        let earlier = replies.drop_last();
        assert(replies =~= earlier.push(replies.last()));
        lemma_fits(job, earlier);
        lemma_earlier(job, earlier, replies.last(), earlier.len() as int);
        assert(asked(job, replies, replies.len() - 1) == course(job, earlier).1);
        assert(!(asked(job, replies, replies.len() - 1) is Finish));
        lemma_written(job, earlier);
        let k = choose|k: int| 0 <= k < earlier.len() && #[trigger] written(job, earlier, k);
        lemma_earlier(job, earlier, replies.last(), k);
        assert(written(job, replies, k));
    }
}

/// Where a copy starts: at the end of the staging file where the source is the one that the last
/// attempt had and is not shorter, and else at its beginning. What was found of the source is
/// recorded with the attempt; of a source that cannot be looked at nothing is.
pub proof fn law_a_copy_goes_on_where_it_can(job: JobView, replies: Seq<Reply>, reply: Reply)
    requires
        in_bounds(job),
    ensures
        ({
            let n = replies.len();
            let action = course(job, replies).1;
            let next = course(job, replies.push(reply)).1;
            &&& action is StatSource ==> match reply {
                Reply::Source(_) => next == ActionView::StatStaging(part(job)),
                _ => next == (ActionView::Copy {
                    staging: part(job),
                    resume: ResumeAt::Start,
                    attempt: None,
                }),
            }
            &&& action is StatStaging ==> n > 0 && (replies[n - 1] matches Reply::Source(now) && {
                let len = match reply {
                    Reply::Length(len) => len,
                    _ => 0,
                };
                let goes_on = job.prior_source == Some(now) && 0 < len <= now.len;
                next == (ActionView::Copy {
                    staging: part(job),
                    resume: if goes_on {
                        ResumeAt::Offset(len)
                    } else {
                        ResumeAt::Start
                    },
                    attempt: Some((now, if goes_on { len } else { 0 })),
                })
            })
        }),
{
    lemma_fits(job, replies);
    lemma_names(job);
    lemma_earlier(job, replies, reply, replies.len() as int);
    let n = replies.len();
    if n > 0 {
        let earlier = replies.drop_last();
        assert(replies =~= earlier.push(replies.last()));
        lemma_fits(job, earlier);
        lemma_earlier(job, earlier, replies.last(), earlier.len() as int);
    }
}

/// What ends a transfer behind its copy, and what does not: a copy that failed ends it with that
/// failure, and a copy that did not is given its name. Where the name is taken, the file that has
/// it is removed, a local one only if it is there; then the name is given once more, and not a
/// third time. Where that is not to be had, the whole content stays in the staging file.
pub proof fn law_a_whole_file_gets_its_name(job: JobView, replies: Seq<Reply>, reply: Reply)
    requires
        in_bounds(job),
    ensures
        ({
            let n = replies.len();
            let action = course(job, replies).1;
            let next = course(job, replies.push(reply)).1;
            let name = ActionView::Rename { from: part(job), to: made(job) };
            let again = n > 0 && asked(job, replies, n - 1) is RemoveTarget;
            let unnamed = next matches ActionView::Finish(Err(f)) && f.kind == FailureKind::Permanent
                && f.keep_staging;
            &&& action is Copy ==> match reply {
                Reply::Failed(e) => next matches ActionView::Finish(Err(f)) && f.kind
                    == transfer::failure_kind(error::class_of(e)) && !f.keep_staging,
                _ => next == name,
            }
            &&& action is Rename && !(reply is Failed) ==> next == ActionView::Finish(Ok(()))
            &&& action is Rename && reply is Failed ==> if again {
                unnamed
            } else if job.direction == TransferDirection::Upload {
                next == ActionView::RemoveTarget(made(job))
            } else {
                next == ActionView::StatTarget(made(job))
            }
            &&& action is StatTarget ==> if reply is Failed {
                unnamed
            } else {
                next == ActionView::RemoveTarget(made(job))
            }
            &&& action is RemoveTarget ==> if reply is Failed {
                unnamed
            } else {
                next == name
            }
        }),
{
    lemma_fits(job, replies);
    lemma_names(job);
    lemma_earlier(job, replies, reply, replies.len() as int);
    let n = replies.len();
    if n > 0 {
        let earlier = replies.drop_last();
        assert(replies =~= earlier.push(replies.last()));
        lemma_fits(job, earlier);
        lemma_earlier(job, earlier, replies.last(), earlier.len() as int);
        assert(asked(job, replies, n - 1) == course(job, earlier).1);
    }
}

/// A transfer begins with the highest directory above what it uploads, or with its source.
pub proof fn law_a_transfer_begins_at_the_top(job: JobView)
    requires
        in_bounds(job),
    ensures
        course(job, Seq::empty()).1 == if job.direction == TransferDirection::Upload && tasks::parent(
            job.remote,
        ) != job.remote {
            ActionView::ListDir(tasks::ancestors(tasks::parent(job.remote))[0])
        } else {
            ActionView::StatSource
        },
{
    tasks::lemma_parent_is_some(job.remote);
    tasks::law_parents_come_first(tasks::parent(job.remote));
}

/// A transfer that ends badly says why. Where the session has ended it says that, and else what
/// went wrong; where a directory could not be made it says that before. Where the final name was
/// not to be had it names the file that holds the content. Only what may pass counts as such.
pub proof fn law_a_bad_end_says_why(w: WorkerView, i: usize, e: error::CoreError)
    requires
        w.fault is None,
    ensures
        ({
            let gone = error::class_of(e) == error::ErrorClass::SessionGone;
            let words = if gone {
                crate::i18n::WordingView::Entry { key: "errors.session_gone"@, detail: None }
            } else {
                error::message(e)
            };
            let copying = WorkerView { phase: Phase::Copying, ..w };
            let checking = WorkerView { phase: Phase::Checking(i), ..w };
            let naming = WorkerView { phase: Phase::RenamingAgain, ..w };
            &&& worker::following(copying, Reply::Failed(e)).1 matches ActionView::Finish(Err(f))
                && f.message.prefix is None && f.message.body == words
            &&& worker::following(checking, Reply::Failed(e)).1 matches ActionView::Finish(Err(f))
                && f.message.prefix == Some(
                crate::i18n::WordingView::Entry { key: "sftp.mkdir_failed"@, detail: None },
            ) && f.message.body == words
            &&& worker::following(naming, Reply::Failed(e)).1 matches ActionView::Finish(Err(f))
                && f.message.prefix is None && (f.message.body matches
                crate::i18n::WordingView::Entry { key: _, detail } && detail == Some(
                worker::shown(part(w.job)),
            ))
        }),
        transfer::failure_kind(error::class_of(e)) == FailureKind::Transient <==> error::class_of(e)
            == error::ErrorClass::Transient,
        transfer::failure_kind(error::class_of(e)) == FailureKind::Permanent <==> error::class_of(e)
            == error::ErrorClass::Permanent,
        transfer::failure_kind(error::class_of(e)) == FailureKind::SessionGone
            <==> error::class_of(e) == error::ErrorClass::SessionGone,
        transfer::failure_kind(error::class_of(e)) == FailureKind::Unknown <==> error::class_of(e)
            == error::ErrorClass::Unknowable,
{
    lemma_names(w.job);
}

} // verus!
