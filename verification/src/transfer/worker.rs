//! One transfer under way: what is done next, after what came of the last step.
//!
//! An upload makes sure that the remote directory is there, looks where it can go on, writes the
//! staging file and gives it its final name. A download does the same the other way round.

use crate::error::CoreError;
use crate::i18n::Text;
use crate::i18n::Wording;
use crate::i18n;
use crate::local_path;
use crate::local_path::LocalPath;
use crate::sftp::Fingerprint;
use crate::sftp::ResumeAt;
use crate::tasks;
use crate::text;
use crate::transfer;
use crate::transfer::model;
use crate::transfer::Failure;
use crate::transfer::FailureKind;
use crate::transfer::Job;
use crate::transfer::TransferDirection;
use vstd::prelude::*;

pub mod laws;

verus! {

/// The path of a file that is written.
#[derive(Debug)]
pub enum FilePath {
    /// A file of this machine.
    Local(LocalPath),
    /// A file of the server.
    Remote(String),
}

/// What a [`FilePath`] holds.
pub enum FilePathView {
    /// A file of this machine.
    Local(Seq<u8>),
    /// A file of the server.
    Remote(Seq<char>),
}

impl View for FilePath {
    type V = FilePathView;

    open spec fn view(&self) -> FilePathView {
        match *self {
            FilePath::Local(path) => FilePathView::Local(path@),
            FilePath::Remote(path) => FilePathView::Remote(path@),
        }
    }
}

/// The staging file of a path.
pub open spec fn staged(path: FilePathView) -> FilePathView {
    match path {
        FilePathView::Local(p) => FilePathView::Local(local_path::staged(p)),
        FilePathView::Remote(p) => FilePathView::Remote(model::staged(p)),
    }
}

/// A path as it is shown.
pub open spec fn shown(path: FilePathView) -> Seq<char> {
    match path {
        FilePathView::Local(p) => local_path::shown(p),
        FilePathView::Remote(p) => p,
    }
}

/// What is to be done next.
#[derive(Debug)]
pub enum Action {
    /// List a remote directory, to see whether it is there.
    ListDir(String),
    /// Create a remote directory.
    CreateDir(String),
    /// Look at the source: a local file for an upload, a remote one for a download.
    StatSource,
    /// Look how long the staging file is.
    StatStaging(FilePath),
    /// Copy into the staging file.
    Copy {
        /// The staging file.
        staging: FilePath,
        /// Where to start.
        resume: ResumeAt,
        /// What to record of the attempt before it starts, if anything.
        attempt: Option<(Fingerprint, u64)>,
    },
    /// Give the staging file its final name.
    Rename {
        /// The staging file.
        from: FilePath,
        /// The final name.
        to: FilePath,
    },
    /// Look whether a local file has the final name already.
    StatTarget(FilePath),
    /// Remove the file that has the final name already.
    RemoveTarget(FilePath),
    /// It is over.
    Finish(Result<(), Failure>),
}

/// What came of an action.
#[derive(Debug)]
pub enum Reply {
    /// It was done.
    Done,
    /// What tells this version of the source from another.
    Source(Fingerprint),
    /// How long the staging file is.
    Length(u64),
    /// It failed.
    Failed(CoreError),
}

/// How far a transfer has come.
#[derive(Debug, Clone, Copy, PartialEq, Eq, Structural)]
pub enum Phase {
    /// Looking whether the directory of this number is there.
    Listing(usize),
    /// Creating the directory of this number.
    Creating(usize),
    /// Looking again whether the directory of this number is there.
    Checking(usize),
    /// Looking at the source.
    Source,
    /// Looking at the staging file; the source is this.
    Staging(Fingerprint),
    /// Copying.
    Copying,
    /// Giving the final name.
    Renaming,
    /// Looking whether the final name is taken.
    Blocked,
    /// Removing the file that has the final name.
    Removing,
    /// Giving the final name once more.
    RenamingAgain,
    /// Over.
    Over,
}

/// One transfer under way.
#[derive(Debug)]
pub struct Worker {
    job: Job,
    dirs: Vec<String>,
    phase: Phase,
    fault: Option<CoreError>,
}

/// What a [`Worker`] holds.
#[verifier::ext_equal]
pub struct WorkerView {
    /// The transfer.
    pub job: model::JobView,
    /// The directories to make sure of.
    pub dirs: Seq<Seq<char>>,
    /// How far it has come.
    pub phase: Phase,
    /// Why the last directory could not be created.
    pub fault: Option<CoreError>,
}

/// What an [`Action`] holds.
pub enum ActionView {
    /// A directory is listed.
    ListDir(Seq<char>),
    /// A directory is created.
    CreateDir(Seq<char>),
    /// The source is looked at.
    StatSource,
    /// The staging file is looked at.
    StatStaging(FilePathView),
    /// The staging file is written.
    Copy {
        /// The staging file.
        staging: FilePathView,
        /// Where to start.
        resume: ResumeAt,
        /// What to record of the attempt.
        attempt: Option<(Fingerprint, u64)>,
    },
    /// The final name is given.
    Rename {
        /// The staging file.
        from: FilePathView,
        /// The final name.
        to: FilePathView,
    },
    /// The final name is looked at.
    StatTarget(FilePathView),
    /// The file with the final name is removed.
    RemoveTarget(FilePathView),
    /// It is over, well or with a failure.
    Finish(Result<(), FailureView>),
}

/// What a [`Failure`] holds.
pub struct FailureView {
    /// Why.
    pub kind: FailureKind,
    /// What the user is told.
    pub message: i18n::TextView,
    /// Whether the staging file is kept.
    pub keep_staging: bool,
}

impl View for Failure {
    type V = FailureView;

    open spec fn view(&self) -> FailureView {
        FailureView {
            kind: self.kind,
            message: self.message@,
            keep_staging: self.keep_staging,
        }
    }
}

impl View for Action {
    type V = ActionView;

    open spec fn view(&self) -> ActionView {
        match *self {
            Action::ListDir(dir) => ActionView::ListDir(dir@),
            Action::CreateDir(dir) => ActionView::CreateDir(dir@),
            Action::StatSource => ActionView::StatSource,
            Action::StatStaging(path) => ActionView::StatStaging(path@),
            Action::Copy { staging, resume, attempt } => ActionView::Copy {
                staging: staging@,
                resume,
                attempt,
            },
            Action::Rename { from, to } => ActionView::Rename { from: from@, to: to@ },
            Action::StatTarget(path) => ActionView::StatTarget(path@),
            Action::RemoveTarget(path) => ActionView::RemoveTarget(path@),
            Action::Finish(result) => ActionView::Finish(
                match result {
                    Ok(_) => Ok(()),
                    Err(f) => Err(f@),
                },
            ),
        }
    }
}

impl View for Worker {
    type V = WorkerView;

    closed spec fn view(&self) -> WorkerView {
        WorkerView {
            job: self.job@,
            dirs: text::strings(self.dirs@),
            phase: self.phase,
            fault: self.fault,
        }
    }
}

/// The final name of what a job writes.
pub open spec fn final_name(job: model::JobView) -> FilePathView {
    match job.direction {
        TransferDirection::Upload => FilePathView::Remote(job.remote),
        TransferDirection::Download => FilePathView::Local(job.local),
    }
}

/// The staging file of a job.
pub open spec fn staging_name(job: model::JobView) -> FilePathView {
    staged(final_name(job))
}

/// The directories that an upload makes sure of: those above the final name.
pub open spec fn needed_dirs(job: model::JobView) -> Seq<Seq<char>> {
    match job.direction {
        TransferDirection::Upload => if tasks::parent(job.remote) == job.remote || tasks::parent(
            job.remote,
        ).len() == 0 {
            Seq::empty()
        } else {
            tasks::ancestors(tasks::parent(job.remote))
        },
        TransferDirection::Download => Seq::empty(),
    }
}

/// Where to start a copy.
pub open spec fn resume_at(start: u64) -> ResumeAt {
    if start == 0 {
        ResumeAt::Start
    } else {
        ResumeAt::Offset(start)
    }
}

/// A transfer that an error ended.
pub open spec fn ended(e: CoreError) -> FailureView {
    FailureView {
        kind: transfer::failure_kind(crate::error::class_of(e)),
        message: i18n::plain(transfer::failure_words(e)),
        keep_staging: false,
    }
}

/// A directory that could not be created ended a transfer.
pub open spec fn ended_at_directory(e: CoreError) -> FailureView {
    FailureView {
        kind: transfer::failure_kind(crate::error::class_of(e)),
        message: i18n::prefixed(
            i18n::entry("sftp.mkdir_failed"@),
            transfer::failure_words(e),
        ),
        keep_staging: false,
    }
}

/// The whole content is there and only lacks its final name.
pub open spec fn unnamed(job: model::JobView) -> FailureView {
    FailureView {
        kind: FailureKind::Permanent,
        message: i18n::plain(
            i18n::entry_with(
                match job.direction {
                    TransferDirection::Upload => "transfer.rename_failed_upload"@,
                    TransferDirection::Download => "transfer.rename_failed"@,
                },
                shown(staging_name(job)),
            ),
        ),
        keep_staging: true,
    }
}

/// Going on to a phase with an action.
pub open spec fn go(w: WorkerView, phase: Phase, action: ActionView) -> (WorkerView, ActionView) {
    (WorkerView { phase, ..w }, action)
}

/// Coming to the end.
pub open spec fn finish(w: WorkerView, result: Result<(), FailureView>) -> (
    WorkerView,
    ActionView,
) {
    go(w, Phase::Over, ActionView::Finish(result))
}

/// Making sure of the directory of number `i`, or looking at the source when all are there.
pub open spec fn to_dir(w: WorkerView, i: int) -> (WorkerView, ActionView) {
    if 0 <= i < w.dirs.len() {
        go(w, Phase::Listing(i as usize), ActionView::ListDir(w.dirs[i]))
    } else {
        go(w, Phase::Source, ActionView::StatSource)
    }
}

/// A transfer that begins, and its first action.
pub open spec fn begun(job: model::JobView) -> (WorkerView, ActionView) {
    to_dir(
        WorkerView { job, dirs: needed_dirs(job), phase: Phase::Source, fault: None },
        0,
    )
}

/// Copying from `start`.
pub open spec fn to_copy(w: WorkerView, start: u64, source: Option<Fingerprint>) -> (
    WorkerView,
    ActionView,
) {
    go(
        w,
        Phase::Copying,
        ActionView::Copy {
            staging: staging_name(w.job),
            resume: resume_at(start),
            attempt: match source {
                Some(now) => Some((now, start)),
                None => None,
            },
        },
    )
}

/// Giving the final name.
pub open spec fn to_rename(w: WorkerView, phase: Phase) -> (WorkerView, ActionView) {
    go(
        w,
        phase,
        ActionView::Rename { from: staging_name(w.job), to: final_name(w.job) },
    )
}

/// What follows an action.
pub open spec fn following(w: WorkerView, reply: Reply) -> (WorkerView, ActionView) {
    match w.phase {
        Phase::Listing(i) => match reply {
            Reply::Failed(_) => go(w, Phase::Creating(i), ActionView::CreateDir(w.dirs[i as int])),
            _ => to_dir(w, i + 1),
        },
        Phase::Creating(i) => match reply {
            Reply::Failed(e) => (
                WorkerView { phase: Phase::Checking(i), fault: Some(e), ..w },
                ActionView::ListDir(w.dirs[i as int]),
            ),
            _ => to_dir(w, i + 1),
        },
        Phase::Checking(i) => match reply {
            Reply::Failed(e) => finish(
                w,
                Err(
                    ended_at_directory(
                        match w.fault {
                            Some(first) => first,
                            None => e,
                        },
                    ),
                ),
            ),
            _ => to_dir(w, i + 1),
        },
        Phase::Source => match reply {
            Reply::Source(now) => go(
                w,
                Phase::Staging(now),
                ActionView::StatStaging(staging_name(w.job)),
            ),
            _ => to_copy(w, 0, None),
        },
        Phase::Staging(now) => to_copy(
            w,
            model::resume_from(
                w.job.prior_source,
                now,
                match reply {
                    Reply::Length(n) => n,
                    _ => 0,
                },
            ),
            Some(now),
        ),
        Phase::Copying => match reply {
            Reply::Failed(e) => finish(w, Err(ended(e))),
            _ => to_rename(w, Phase::Renaming),
        },
        Phase::Renaming => match reply {
            Reply::Failed(_) => match w.job.direction {
                TransferDirection::Download => go(
                    w,
                    Phase::Blocked,
                    ActionView::StatTarget(final_name(w.job)),
                ),
                TransferDirection::Upload => go(
                    w,
                    Phase::Removing,
                    ActionView::RemoveTarget(final_name(w.job)),
                ),
            },
            _ => finish(w, Ok(())),
        },
        Phase::Blocked => match reply {
            Reply::Failed(_) => finish(w, Err(unnamed(w.job))),
            _ => go(w, Phase::Removing, ActionView::RemoveTarget(final_name(w.job))),
        },
        Phase::Removing => match reply {
            Reply::Failed(_) => finish(w, Err(unnamed(w.job))),
            _ => to_rename(w, Phase::RenamingAgain),
        },
        Phase::RenamingAgain => match reply {
            Reply::Failed(_) => finish(w, Err(unnamed(w.job))),
            _ => finish(w, Ok(())),
        },
        Phase::Over => finish(w, Ok(())),
    }
}

/// The number of the directory at hand is one of a directory.
pub open spec fn sound(w: WorkerView) -> bool {
    match w.phase {
        Phase::Listing(i) => i < w.dirs.len(),
        Phase::Creating(i) => i < w.dirs.len(),
        Phase::Checking(i) => i < w.dirs.len(),
        _ => true,
    }
}

impl Worker {
    /// A transfer is begun; the first action comes with it.
    pub fn begin(job: Job) -> (r: (Worker, Action))
        ensures
            sound(r.0@),
            (r.0@, r.1@) == begun(job@),
    {
        let mut dirs: Vec<String> = Vec::new();
        match job.direction {
            TransferDirection::Upload => {
                let above = tasks::parent_path(&job.remote);
                if !above.as_str().is_empty() && !text::same(&above, &job.remote) {
                    dirs = tasks::ancestor_dirs(&above);
                }
            },
            TransferDirection::Download => {},
        }
        assert(text::strings(dirs@) =~= needed_dirs(job@));
        let mut w = Worker { job, dirs, phase: Phase::Source, fault: None };
        let action = w.next_dir(0);
        (w, action)
    }

    /// The final name of what is written.
    fn target(&self) -> (r: FilePath)
        ensures
            r@ == final_name(self@.job),
    {
        match self.job.direction {
            TransferDirection::Upload => FilePath::Remote(self.job.remote.clone()),
            TransferDirection::Download => FilePath::Local(self.job.local.copied()),
        }
    }

    /// The staging file.
    fn staging(&self) -> (r: FilePath)
        ensures
            r@ == staging_name(self@.job),
    {
        match self.job.direction {
            TransferDirection::Upload => FilePath::Remote(
                transfer::staging_remote(&self.job.remote),
            ),
            TransferDirection::Download => FilePath::Local(
                transfer::staging_path(&self.job.local),
            ),
        }
    }

    fn next_dir(&mut self, i: usize) -> (action: Action)
        requires
            i <= old(self)@.dirs.len(),
        ensures
            sound(final(self)@),
            (final(self)@, action@) == to_dir(old(self)@, i as int),
    {
        if i < self.dirs.len() {
            self.phase = Phase::Listing(i);
            assert(self@.dirs[i as int] == self.dirs@[i as int]@);
            Action::ListDir(self.dirs[i].clone())
        } else {
            self.phase = Phase::Source;
            Action::StatSource
        }
    }

    fn copy(&mut self, start: u64, source: Option<Fingerprint>) -> (action: Action)
        ensures
            sound(final(self)@),
            (final(self)@, action@) == to_copy(old(self)@, start, source),
    {
        self.phase = Phase::Copying;
        Action::Copy {
            staging: self.staging(),
            resume: if start == 0 {
                ResumeAt::Start
            } else {
                ResumeAt::Offset(start)
            },
            attempt: match source {
                Some(now) => Some((now, start)),
                None => None,
            },
        }
    }

    fn rename(&mut self, phase: Phase) -> (action: Action)
        requires
            phase == Phase::Renaming || phase == Phase::RenamingAgain,
        ensures
            sound(final(self)@),
            (final(self)@, action@) == to_rename(old(self)@, phase),
    {
        self.phase = phase;
        Action::Rename { from: self.staging(), to: self.target() }
    }

    fn over(&mut self, result: Result<(), Failure>) -> (action: Action)
        ensures
            sound(final(self)@),
            (final(self)@, action@) == finish(
                old(self)@,
                match result {
                    Ok(_) => Ok(()),
                    Err(f) => Err(f@),
                },
            ),
    {
        self.phase = Phase::Over;
        Action::Finish(result)
    }

    /// The whole content is there and only lacks its final name.
    fn lacks_name(&self) -> (r: Failure)
        ensures
            r@ == unnamed(self@.job),
    {
        let key = match self.job.direction {
            TransferDirection::Upload => "transfer.rename_failed_upload",
            TransferDirection::Download => "transfer.rename_failed",
        };
        let staging = match self.staging() {
            FilePath::Local(path) => path.shown(),
            FilePath::Remote(path) => path,
        };
        Failure {
            kind: FailureKind::Permanent,
            message: Text::entry_with(key, staging),
            keep_staging: true,
        }
    }

    /// The next action, after what came of the last.
    pub fn next(&mut self, reply: Reply) -> (action: Action)
        requires
            sound(old(self)@),
        ensures
            sound(final(self)@),
            (final(self)@, action@) == following(old(self)@, reply),
    {
        let count: usize = self.dirs.len();
        assert(count == self@.dirs.len());
        match self.phase {
            Phase::Listing(i) => match reply {
                Reply::Failed(_) => {
                    self.phase = Phase::Creating(i);
                    assert(self@.dirs[i as int] == self.dirs@[i as int]@);
                    Action::CreateDir(self.dirs[i].clone())
                },
                _ => self.next_dir(i + 1),
            },
            Phase::Creating(i) => match reply {
                Reply::Failed(e) => {
                    self.phase = Phase::Checking(i);
                    self.fault = Some(e);
                    assert(self@.dirs[i as int] == self.dirs@[i as int]@);
                    Action::ListDir(self.dirs[i].clone())
                },
                _ => self.next_dir(i + 1),
            },
            Phase::Checking(i) => match reply {
                Reply::Failed(e) => {
                    let occasion = Wording::entry("sftp.mkdir_failed");
                    let failure = match &self.fault {
                        Some(first) => Failure::core_prefixed(occasion, first),
                        None => Failure::core_prefixed(occasion, &e),
                    };
                    self.over(Err(failure))
                },
                _ => self.next_dir(i + 1),
            },
            Phase::Source => match reply {
                Reply::Source(now) => {
                    self.phase = Phase::Staging(now);
                    Action::StatStaging(self.staging())
                },
                _ => self.copy(0, None),
            },
            Phase::Staging(now) => {
                let partial: u64 = match reply {
                    Reply::Length(n) => n,
                    _ => 0,
                };
                let start: u64 = transfer::resume_offset(self.job.prior_source, now, partial);
                self.copy(start, Some(now))
            },
            Phase::Copying => match reply {
                Reply::Failed(e) => {
                    let failure = Failure::from_core(&e);
                    self.over(Err(failure))
                },
                _ => self.rename(Phase::Renaming),
            },
            Phase::Renaming => match reply {
                Reply::Failed(_) => match self.job.direction {
                    TransferDirection::Download => {
                        self.phase = Phase::Blocked;
                        Action::StatTarget(self.target())
                    },
                    TransferDirection::Upload => {
                        self.phase = Phase::Removing;
                        Action::RemoveTarget(self.target())
                    },
                },
                _ => self.over(Ok(())),
            },
            Phase::Blocked => match reply {
                Reply::Failed(_) => {
                    let failure = self.lacks_name();
                    self.over(Err(failure))
                },
                _ => {
                    self.phase = Phase::Removing;
                    Action::RemoveTarget(self.target())
                },
            },
            Phase::Removing => match reply {
                Reply::Failed(_) => {
                    let failure = self.lacks_name();
                    self.over(Err(failure))
                },
                _ => self.rename(Phase::RenamingAgain),
            },
            Phase::RenamingAgain => match reply {
                Reply::Failed(_) => {
                    let failure = self.lacks_name();
                    self.over(Err(failure))
                },
                _ => self.over(Ok(())),
            },
            Phase::Over => self.over(Ok(())),
        }
    }
}

/// What is told of a transfer whose worker has ended: what the worker told, or, where it was
/// stopped or broke off before it could tell, that the transfer was given up.
pub fn outcome(ended: Option<Result<(), Failure>>) -> (r: Result<(), Failure>)
    ensures
        match ended {
            Some(result) => r == result,
            None => r matches Err(f) && f@ == (FailureView {
                kind: FailureKind::Cancelled,
                message: i18n::plain(i18n::entry("app.canceled"@)),
                keep_staging: false,
            }),
        },
{
    match ended {
        Some(result) => result,
        None => Err(Failure::cancelled(Text::entry("app.canceled"))),
    }
}

/// Whether the copy is behind.
pub open spec fn copied(phase: Phase) -> bool {
    phase == Phase::Renaming || phase == Phase::Blocked || phase == Phase::Removing || phase
        == Phase::RenamingAgain
}

/// Whether an action touches the file with the final name.
pub open spec fn touches_final_name(action: ActionView) -> bool {
    action is Rename || action is RemoveTarget
}

/// The file with the final name is left alone until the whole content is in the staging file:
/// it is renamed over or removed only after a copy that did not fail.
pub proof fn law_final_name_waits_for_the_copy(w: WorkerView, reply: Reply)
    ensures
        touches_final_name(following(w, reply).1) || copied(following(w, reply).0.phase) ==> copied(
            w.phase,
        ) || (w.phase == Phase::Copying && !(reply is Failed)),
{
}

/// A transfer that ends well has given the final name; one that fails after the copy keeps its
/// staging file, and one that fails before does not ask for that.
pub proof fn law_whole_content_is_kept_when_the_name_cannot_be_given(w: WorkerView, reply: Reply)
    requires
        w.phase != Phase::Over,
    ensures
        match following(w, reply).1 {
            ActionView::Finish(Ok(_)) => (w.phase == Phase::Renaming || w.phase
                == Phase::RenamingAgain) && !(reply is Failed),
            ActionView::Finish(Err(f)) => f.keep_staging == copied(w.phase),
            _ => true,
        },
{
}

/// How many steps a transfer can still take.
pub open spec fn steps_left(w: WorkerView) -> int {
    match w.phase {
        Phase::Listing(i) => 3 * (w.dirs.len() - i) + 9,
        Phase::Creating(i) => 3 * (w.dirs.len() - i) + 8,
        Phase::Checking(i) => 3 * (w.dirs.len() - i) + 7,
        Phase::Source => 7,
        Phase::Staging(_) => 6,
        Phase::Copying => 5,
        Phase::Renaming => 4,
        Phase::Blocked => 3,
        Phase::Removing => 2,
        Phase::RenamingAgain => 1,
        Phase::Over => 0,
    }
}

/// Every transfer comes to an end, whatever the replies.
pub proof fn law_every_transfer_ends(w: WorkerView, reply: Reply)
    requires
        sound(w),
        w.phase != Phase::Over,
        w.dirs.len() <= usize::MAX,
    ensures
        sound(following(w, reply).0),
        0 <= steps_left(following(w, reply).0) < steps_left(w),
        (following(w, reply).0.phase == Phase::Over) == (following(w, reply).1 is Finish),
{
}

/// A copy goes on in the middle only of a file that the last attempt has begun with the same
/// source, and never behind the source's end.
pub proof fn law_copy_goes_on_only_with_the_same_source(w: WorkerView, reply: Reply)
    ensures
        following(w, reply).1 matches ActionView::Copy { resume, attempt, .. } ==> (resume.first()
            > 0 ==> {
            &&& attempt is Some
            &&& w.job.prior_source == Some((attempt->0).0)
            &&& resume.first() <= (attempt->0).0.len
            &&& resume.first() == (attempt->0).1
            &&& reply == Reply::Length(resume.first())
        }),
{
}

} // verus!
