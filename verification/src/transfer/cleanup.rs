//! Removing the staging file of a transfer that nobody wants any more.

use crate::local_path;
use crate::local_path::LocalPath;
use crate::transfer;
use crate::transfer::model;
use crate::transfer::Job;
use crate::transfer::TransferDirection;
use vstd::prelude::*;

verus! {

/// How often the removal of a local staging file is tried.
pub const CLEANUP_ATTEMPTS: u32 = 3;

/// The wait between two tries, in milliseconds.
pub const CLEANUP_RETRY_DELAY_MS: u64 = 120;

/// What is to be done next.
#[derive(Debug)]
pub enum Action {
    /// Remove a remote file, on the job's channel.
    RemoveRemote(String),
    /// Look whether a local path is a regular file.
    StatLocal(LocalPath),
    /// Remove a local file.
    RemoveLocal(LocalPath),
    /// Wait so many milliseconds.
    Wait(u64),
    /// It is over; a path, as it is shown, means that the file is still there.
    Finish(Option<String>),
}

/// What an [`Action`] holds.
pub enum ActionView {
    /// A remote file is removed.
    RemoveRemote(Seq<char>),
    /// A local path is looked at.
    StatLocal(Seq<u8>),
    /// A local file is removed.
    RemoveLocal(Seq<u8>),
    /// A wait.
    Wait(u64),
    /// The end.
    Finish(Option<Seq<char>>),
}

impl View for Action {
    type V = ActionView;

    open spec fn view(&self) -> ActionView {
        match *self {
            Action::RemoveRemote(path) => ActionView::RemoveRemote(path@),
            Action::StatLocal(path) => ActionView::StatLocal(path@),
            Action::RemoveLocal(path) => ActionView::RemoveLocal(path@),
            Action::Wait(ms) => ActionView::Wait(ms),
            Action::Finish(left) => ActionView::Finish(crate::text::opt(left)),
        }
    }
}

/// How far a removal has come.
#[derive(Debug, Clone, Copy, PartialEq, Eq, Structural)]
pub enum Phase {
    /// Removing a remote file.
    Remote,
    /// Looking at a local path.
    Looking,
    /// Removing a local file; so many tries were made before.
    Removing(u32),
    /// Waiting; so many tries were made.
    Waiting(u32),
    /// Over.
    Over,
}

/// The removal of a staging file.
#[derive(Debug)]
pub struct Cleaner {
    /// Whose staging file it is.
    pub job: Job,
    /// How far it has come.
    pub phase: Phase,
}

/// What follows an action that was done, or not.
pub open spec fn following(job: model::JobView, phase: Phase, done: bool) -> (Phase, ActionView) {
    let staged = local_path::staged(job.local);
    match phase {
        Phase::Remote => (Phase::Over, ActionView::Finish(None)),
        Phase::Looking => if done {
            (Phase::Removing(0), ActionView::RemoveLocal(staged))
        } else {
            (Phase::Over, ActionView::Finish(None))
        },
        Phase::Removing(tries) => if done {
            (Phase::Over, ActionView::Finish(None))
        } else if tries + 1 < CLEANUP_ATTEMPTS {
            (Phase::Waiting((tries + 1) as u32), ActionView::Wait(CLEANUP_RETRY_DELAY_MS))
        } else {
            (Phase::Over, ActionView::Finish(Some(local_path::shown(staged))))
        },
        Phase::Waiting(tries) => (Phase::Removing(tries), ActionView::RemoveLocal(staged)),
        Phase::Over => (Phase::Over, ActionView::Finish(None)),
    }
}

/// How a removal begins. Without a channel nothing can be done about a remote file.
pub open spec fn beginning(job: model::JobView) -> (Phase, ActionView) {
    match job.direction {
        TransferDirection::Upload => match job.client {
            Some(_) => (Phase::Remote, ActionView::RemoveRemote(model::staged(job.remote))),
            None => (Phase::Over, ActionView::Finish(None)),
        },
        TransferDirection::Download => (
            Phase::Looking,
            ActionView::StatLocal(local_path::staged(job.local)),
        ),
    }
}

impl Cleaner {
    /// A removal is begun; the first action comes with it.
    pub fn begin(job: Job) -> (r: (Cleaner, Action))
        ensures
            r.0.job@ == job@,
            (r.0.phase, r.1@) == beginning(job@),
    {
        match job.direction {
            TransferDirection::Upload => {
                if job.client.is_some() {
                    let path = transfer::staging_remote(&job.remote);
                    (Cleaner { job, phase: Phase::Remote }, Action::RemoveRemote(path))
                } else {
                    (Cleaner { job, phase: Phase::Over }, Action::Finish(None))
                }
            },
            TransferDirection::Download => {
                let path = transfer::staging_path(&job.local);
                (Cleaner { job, phase: Phase::Looking }, Action::StatLocal(path))
            },
        }
    }

    /// The next action, after one that was done, or not; for [`Action::StatLocal`], `done` says
    /// that the path is a regular file.
    pub fn next(&mut self, done: bool) -> (action: Action)
        ensures
            final(self).job@ == old(self).job@,
            (final(self).phase, action@) == following(old(self).job@, old(self).phase, done),
    {
        match self.phase {
            Phase::Remote => {
                self.phase = Phase::Over;
                Action::Finish(None)
            },
            Phase::Looking => if done {
                self.phase = Phase::Removing(0);
                Action::RemoveLocal(transfer::staging_path(&self.job.local))
            } else {
                self.phase = Phase::Over;
                Action::Finish(None)
            },
            Phase::Removing(tries) => if done {
                self.phase = Phase::Over;
                Action::Finish(None)
            } else if tries < CLEANUP_ATTEMPTS - 1 {
                self.phase = Phase::Waiting(tries + 1);
                Action::Wait(CLEANUP_RETRY_DELAY_MS)
            } else {
                self.phase = Phase::Over;
                Action::Finish(Some(transfer::staging_path(&self.job.local).shown()))
            },
            Phase::Waiting(tries) => {
                self.phase = Phase::Removing(tries);
                Action::RemoveLocal(transfer::staging_path(&self.job.local))
            },
            Phase::Over => Action::Finish(None),
        }
    }
}

/// Only a staging file is ever removed, and a local one only after it was seen to be a regular
/// file.
pub proof fn law_only_staging_files_are_removed(job: model::JobView, phase: Phase, done: bool)
    ensures
        following(job, phase, done).1 matches ActionView::RemoveLocal(path) ==> path
            == local_path::staged(job.local) && ((phase == Phase::Looking && done) || phase is Waiting),
        !(following(job, phase, done).1 is RemoveRemote),
        following(job, phase, done).0 is Waiting ==> phase is Removing,
        beginning(job).1 matches ActionView::RemoveRemote(path) ==> path == model::staged(
            job.remote,
        ),
        !(beginning(job).1 is RemoveLocal),
        beginning(job).0 is Removing == false,
        beginning(job).0 is Waiting == false,
{
}

/// A removal ends after a few tries, and a path is told only when the last of them failed.
pub proof fn law_removal_ends(job: model::JobView, tries: u32)
    ensures
        following(job, Phase::Removing(tries), true) == (Phase::Over, ActionView::Finish(None)),
        tries + 1 < CLEANUP_ATTEMPTS ==> following(job, Phase::Removing(tries), false).0
            == Phase::Waiting((tries + 1) as u32),
        tries + 1 >= CLEANUP_ATTEMPTS ==> following(job, Phase::Removing(tries), false) == (
            Phase::Over,
            ActionView::Finish(Some(local_path::shown(local_path::staged(job.local)))),
        ),
{
}

/// A removal after so many replies, and what it asks for then.
pub open spec fn course(job: model::JobView, replies: Seq<bool>) -> (Phase, ActionView)
    decreases replies.len(),
{
    if replies.len() == 0 {
        beginning(job)
    } else {
        following(job, course(job, replies.drop_last()).0, replies.last())
    }
}

/// What a removal does: it removes the file with `.part` behind the name that the transfer was to
/// make, on the server where that was an upload and there is a channel; a local one is looked at
/// first, and where it cannot be removed that is tried again after a while, three times in all, and
/// then told. Nothing else is ever removed.
pub proof fn law_leftovers_are_tried_to_be_removed(job: model::JobView, replies: Seq<bool>, done: bool)
    ensures
        ({
            let part = job.local + seq![0x2eu8, 0x70, 0x61, 0x72, 0x74];
            let remote = job.remote + seq!['.', 'p', 'a', 'r', 't'];
            let (phase, action) = course(job, replies);
            let next = course(job, replies.push(done)).1;
            &&& course(job, Seq::empty()).1 == if job.direction == TransferDirection::Download {
                ActionView::StatLocal(part)
            } else if job.client is Some {
                ActionView::RemoveRemote(remote)
            } else {
                ActionView::Finish(None)
            }
            &&& action is RemoveRemote ==> action == ActionView::RemoveRemote(remote) && next
                == ActionView::Finish(None)
            &&& action is StatLocal ==> next == if done {
                ActionView::RemoveLocal(part)
            } else {
                ActionView::Finish(None)
            }
            &&& action is RemoveLocal ==> action == ActionView::RemoveLocal(part) && if done {
                next == ActionView::Finish(None)
            } else if phase == Phase::Removing(0) || phase == Phase::Removing(1) {
                next == ActionView::Wait(120)
            } else {
                next == ActionView::Finish(Some(local_path::shown(part)))
            }
            &&& action is Wait ==> next == ActionView::RemoveLocal(part)
        }),
{
    lemma_course(job, replies);
    reveal_strlit(".part");
    assert(".part"@ =~= seq!['.', 'p', 'a', 'r', 't']);
    assert(replies.push(done).drop_last() =~= replies);
    assert(course(job, replies.push(done)) == following(job, course(job, replies).0, done));
}

proof fn lemma_course(job: model::JobView, replies: Seq<bool>)
    ensures
        ({
            let (phase, action) = course(job, replies);
            match phase {
                Phase::Remote => action == ActionView::RemoveRemote(model::staged(job.remote)),
                Phase::Looking => action is StatLocal,
                Phase::Removing(tries) => tries < CLEANUP_ATTEMPTS && action
                    == ActionView::RemoveLocal(local_path::staged(job.local)),
                Phase::Waiting(tries) => 0 < tries < CLEANUP_ATTEMPTS && action is Wait,
                Phase::Over => action is Finish,
            }
        }),
    decreases replies.len(),
{
    if replies.len() > 0 {
        lemma_course(job, replies.drop_last());
    }
}

} // verus!
