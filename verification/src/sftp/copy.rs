//! Copying a file, piece by piece, from where an earlier attempt stopped.
//!
//! An upload is confirmed from time to time: the server has then taken all that was sent so far.
//! One write can fail long before it is noticed, with later writes already taken, so where an
//! upload fails the remote file is cut back to what was confirmed. What stays there is then
//! without a gap, and its length is where the next attempt may start.

use crate::error::{CoreError, CoreErrorKind, IoKind, Source};
use crate::local_path;
use crate::local_path::LocalPath;
use crate::sftp::ResumeAt;
use crate::text;
use vstd::prelude::*;
#[allow(unused_imports)]
use vstd::string::*;

pub mod laws;

verus! {

/// After how many bytes an upload is confirmed.
pub const CONFIRM_INTERVAL: u64 = 4_194_304;

/// What a copy is to do next.
pub enum Stage {
    /// The length of the source is to be found out.
    Stat,
    /// The source is to be opened.
    OpenSource,
    /// The target is to be opened: emptied, or made, where the copy starts at the beginning; as it
    /// is, and only where it is there, else.
    OpenTarget,
    /// The source is to be read from the start of the copy on.
    SeekSource,
    /// The target is to be written from the start of the copy on.
    SeekTarget,
    /// A piece is to be read.
    Read,
    /// The piece just read, of so many bytes, is to be written.
    Write(u64),
    /// The server is to confirm what was written.
    Confirm,
    /// What was written is to be finished off: a remote file is closed, a local one is flushed.
    Flush,
    /// The target is to be cut to what was copied.
    SetLen,
    /// The target is to be cut to what was confirmed; then the copy has failed.
    Cut(CoreError),
    /// The copy is done.
    Done,
    /// The copy has failed.
    Failed(CoreError),
}

/// A copy.
pub struct FileCopy {
    /// Whether it goes to the remote side.
    pub upload: bool,
    /// The byte it starts at.
    pub start: u64,
    /// The length of the source; 0 where it is unknown.
    pub total: u64,
    /// The byte it has come to.
    pub done: u64,
    /// The byte up to which nothing is missing on the other side.
    pub confirmed: u64,
    /// What it is to do next.
    pub stage: Stage,
}

/// What came of it.
pub enum Reply {
    /// It was done.
    Completed,
    /// The source has this length.
    Length(u64),
    /// So many bytes were read; none at the end of the source.
    Read(u64),
    /// It failed on this side.
    LocalFailed(IoKind, String),
    /// It failed on the other side.
    RemoteFailed(Source),
}

/// A failure on the other side, in this step.
pub open spec fn remote_error(kind: CoreErrorKind, source: Source) -> CoreError {
    CoreError::Sftp { kind, source: Some(source) }
}

/// A copy that begins.
pub open spec fn begun(upload: bool, resume: ResumeAt) -> FileCopy {
    FileCopy {
        upload,
        start: resume.first(),
        total: 0,
        done: resume.first(),
        confirmed: resume.first(),
        stage: Stage::Stat,
    }
}

/// The copy at another stage.
pub open spec fn at(c: FileCopy, stage: Stage) -> FileCopy {
    FileCopy { stage, ..c }
}

/// The copy once it has failed on the way: an upload is cut back first.
pub open spec fn given_up(c: FileCopy, error: CoreError) -> FileCopy {
    if c.upload {
        at(c, Stage::Cut(error))
    } else {
        at(c, Stage::Failed(error))
    }
}

/// How a copy goes on, and what is then reported of it: the bytes so far and the length. A reply
/// that does not belong changes nothing.
pub open spec fn following(c: FileCopy, reply: Reply) -> (FileCopy, Option<(u64, u64)>) {
    match (c.stage, reply) {
        (Stage::Stat, Reply::Length(total)) => (FileCopy { total, stage: Stage::OpenSource, ..c }, None),
        (Stage::Stat, Reply::LocalFailed(kind, words)) => if c.upload {
            (at(c, Stage::Failed(CoreError::Io(kind, words))), None)
        } else {
            (c, None)
        },
        (Stage::Stat, Reply::RemoteFailed(_)) => if c.upload {
            (c, None)
        } else {
            (FileCopy { total: 0, stage: Stage::OpenSource, ..c }, None)
        },
        (Stage::OpenSource, Reply::Completed) => (at(c, Stage::OpenTarget), None),
        (Stage::OpenSource, Reply::LocalFailed(kind, words)) => if c.upload {
            (at(c, Stage::Failed(CoreError::Io(kind, words))), None)
        } else {
            (c, None)
        },
        (Stage::OpenSource, Reply::RemoteFailed(source)) => if c.upload {
            (c, None)
        } else {
            (at(c, Stage::Failed(remote_error(CoreErrorKind::OpenRemoteFile, source))), None)
        },
        (Stage::OpenTarget, Reply::Completed) => if c.start == 0 {
            (at(c, Stage::Read), Some((c.start, c.total)))
        } else {
            (at(c, Stage::SeekSource), None)
        },
        (Stage::OpenTarget, Reply::LocalFailed(kind, words)) => if c.upload {
            (c, None)
        } else {
            (at(c, Stage::Failed(CoreError::Io(kind, words))), None)
        },
        (Stage::OpenTarget, Reply::RemoteFailed(source)) => if c.upload {
            let kind = if c.start == 0 {
                CoreErrorKind::CreateRemoteFile
            } else {
                CoreErrorKind::OpenRemoteFile
            };
            (at(c, Stage::Failed(remote_error(kind, source))), None)
        } else {
            (c, None)
        },
        (Stage::SeekSource, Reply::Completed) => (at(c, Stage::SeekTarget), None),
        (Stage::SeekSource, Reply::LocalFailed(kind, words)) => (
            at(c, Stage::Failed(CoreError::Io(kind, words))),
            None,
        ),
        (Stage::SeekTarget, Reply::Completed) => (at(c, Stage::Read), Some((c.start, c.total))),
        (Stage::SeekTarget, Reply::LocalFailed(kind, words)) => (
            at(c, Stage::Failed(CoreError::Io(kind, words))),
            None,
        ),
        (Stage::Read, Reply::Read(n)) => if n == 0 {
            (at(c, Stage::Flush), None)
        } else {
            (at(c, Stage::Write(n)), None)
        },
        (Stage::Read, Reply::LocalFailed(kind, words)) => if c.upload {
            (given_up(c, CoreError::Io(kind, words)), None)
        } else {
            (c, None)
        },
        (Stage::Read, Reply::RemoteFailed(source)) => if c.upload {
            (c, None)
        } else {
            (given_up(c, remote_error(CoreErrorKind::ReadRemote, source)), None)
        },
        (Stage::Write(n), Reply::Completed) => {
            let done = (c.done + n) as u64;
            let stage = if c.upload && done - c.confirmed >= CONFIRM_INTERVAL {
                Stage::Confirm
            } else {
                Stage::Read
            };
            (FileCopy { done, stage, ..c }, Some((done, c.total)))
        },
        (Stage::Write(_), Reply::LocalFailed(kind, words)) => if c.upload {
            (c, None)
        } else {
            (given_up(c, CoreError::Io(kind, words)), None)
        },
        (Stage::Write(_), Reply::RemoteFailed(source)) => if c.upload {
            (given_up(c, remote_error(CoreErrorKind::WriteRemote, source)), None)
        } else {
            (c, None)
        },
        (Stage::Confirm, Reply::Completed) => (
            FileCopy { confirmed: c.done, stage: Stage::Read, ..c },
            None,
        ),
        (Stage::Confirm, Reply::RemoteFailed(source)) => (
            given_up(c, remote_error(CoreErrorKind::WriteRemote, source)),
            None,
        ),
        (Stage::Flush, Reply::Completed) => if c.upload {
            (FileCopy { confirmed: c.done, stage: Stage::Done, ..c }, None)
        } else {
            (at(c, Stage::SetLen), None)
        },
        (Stage::Flush, Reply::LocalFailed(kind, words)) => if c.upload {
            (c, None)
        } else {
            (given_up(c, CoreError::Io(kind, words)), None)
        },
        (Stage::Flush, Reply::RemoteFailed(source)) => if c.upload {
            (given_up(c, remote_error(CoreErrorKind::CloseRemoteFile, source)), None)
        } else {
            (c, None)
        },
        (Stage::SetLen, Reply::Completed) => (at(c, Stage::Done), None),
        (Stage::SetLen, Reply::LocalFailed(kind, words)) => (
            given_up(c, CoreError::Io(kind, words)),
            None,
        ),
        (Stage::Cut(error), Reply::Completed) => (at(c, Stage::Failed(error)), None),
        (Stage::Cut(error), Reply::LocalFailed(_, _)) => (at(c, Stage::Failed(error)), None),
        (Stage::Cut(error), Reply::RemoteFailed(_)) => (at(c, Stage::Failed(error)), None),
        _ => (c, None),
    }
}

/// Whether the numbers of a copy fit together.
pub open spec fn consistent(c: FileCopy) -> bool {
    &&& c.start <= c.confirmed <= c.done
    &&& c.stage matches Stage::Write(n) ==> n > 0
    &&& c.stage is Confirm ==> c.upload
    &&& c.stage is Cut ==> c.upload
    &&& c.stage is SetLen ==> !c.upload
}

/// The length that the target is to be cut to, where that is what is to be done.
pub open spec fn cut_of(c: FileCopy) -> Option<u64> {
    match c.stage {
        Stage::SetLen => Some(c.done),
        Stage::Cut(_) => Some(c.confirmed),
        _ => None,
    }
}

impl FileCopy {
    /// A copy begins.
    pub fn begin(upload: bool, resume: ResumeAt) -> (r: FileCopy)
        ensures
            r == begun(upload, resume),
            consistent(r),
    {
        let start: u64 = resume.offset();
        FileCopy { upload, start, total: 0, done: start, confirmed: start, stage: Stage::Stat }
    }

    /// The length that the target is to be cut to, where that is what is to be done.
    pub fn cut(&self) -> (r: Option<u64>)
        ensures
            r == cut_of(*self),
    {
        match self.stage {
            Stage::SetLen => Some(self.done),
            Stage::Cut(_) => Some(self.confirmed),
            _ => None,
        }
    }

    /// The copy goes on with what came of what was to be done. What is then to be reported is
    /// told.
    pub fn next(self, reply: Reply) -> (r: (FileCopy, Option<(u64, u64)>))
        requires
            consistent(self),
            self.stage matches Stage::Write(n) ==> self.done + n <= u64::MAX,
        ensures
            r == following(self, reply),
            consistent(r.0),
    {
        proof {
            lemma_stays_consistent(self, reply);
        }
        let FileCopy { upload, start, total, done, confirmed, stage } = self;
        let (total, done, confirmed, stage, report) = match (stage, reply) {
            (Stage::Stat, Reply::Length(n)) => (n, done, confirmed, Stage::OpenSource, None),
            (Stage::Stat, Reply::RemoteFailed(_)) if !upload => (
                0,
                done,
                confirmed,
                Stage::OpenSource,
                None,
            ),
            (Stage::OpenSource, Reply::Completed) => (
                total,
                done,
                confirmed,
                Stage::OpenTarget,
                None,
            ),
            (Stage::OpenTarget, Reply::Completed) => if start == 0 {
                (total, done, confirmed, Stage::Read, Some((start, total)))
            } else {
                (total, done, confirmed, Stage::SeekSource, None)
            },
            (Stage::SeekSource, Reply::Completed) => (
                total,
                done,
                confirmed,
                Stage::SeekTarget,
                None,
            ),
            (Stage::SeekTarget, Reply::Completed) => (
                total,
                done,
                confirmed,
                Stage::Read,
                Some((start, total)),
            ),
            (Stage::Read, Reply::Read(n)) => if n == 0 {
                (total, done, confirmed, Stage::Flush, None)
            } else {
                (total, done, confirmed, Stage::Write(n), None)
            },
            (Stage::Write(n), Reply::Completed) => {
                let done: u64 = done + n;
                let stage = if upload && done - confirmed >= CONFIRM_INTERVAL {
                    Stage::Confirm
                } else {
                    Stage::Read
                };
                (total, done, confirmed, stage, Some((done, total)))
            },
            (Stage::Confirm, Reply::Completed) => (total, done, done, Stage::Read, None),
            (Stage::Flush, Reply::Completed) => if upload {
                (total, done, done, Stage::Done, None)
            } else {
                (total, done, confirmed, Stage::SetLen, None)
            },
            (Stage::SetLen, Reply::Completed) => (total, done, confirmed, Stage::Done, None),
            (Stage::Cut(error), Reply::Completed) => (
                total,
                done,
                confirmed,
                Stage::Failed(error),
                None,
            ),
            (stage, Reply::LocalFailed(kind, words)) => (
                total,
                done,
                confirmed,
                local_failure(stage, upload, kind, words),
                None,
            ),
            (stage, Reply::RemoteFailed(source)) => (
                total,
                done,
                confirmed,
                remote_failure(stage, upload, start, source),
                None,
            ),
            (stage, _) => (total, done, confirmed, stage, None),
        };
        (FileCopy { upload, start, total, done, confirmed, stage }, report)
    }
}

/// The numbers of a copy go on to fit together.
proof fn lemma_stays_consistent(c: FileCopy, reply: Reply)
    requires
        consistent(c),
        c.stage matches Stage::Write(n) ==> c.done + n <= u64::MAX,
    ensures
        consistent(following(c, reply).0),
{
}

/// What a failure on this side leads to.
fn local_failure(stage: Stage, upload: bool, kind: IoKind, words: String) -> (r: Stage)
    ensures
        forall|c: FileCopy|
            c.stage == stage && c.upload == upload ==> (#[trigger] following(
                c,
                Reply::LocalFailed(kind, words),
            )).0 == at(c, r),
{
    match stage {
        Stage::Stat | Stage::OpenSource => if upload {
            Stage::Failed(CoreError::Io(kind, words))
        } else {
            stage
        },
        Stage::OpenTarget => if upload {
            stage
        } else {
            Stage::Failed(CoreError::Io(kind, words))
        },
        Stage::SeekSource | Stage::SeekTarget => Stage::Failed(CoreError::Io(kind, words)),
        Stage::Read => if upload {
            Stage::Cut(CoreError::Io(kind, words))
        } else {
            stage
        },
        Stage::Write(_) | Stage::Flush => if upload {
            stage
        } else {
            Stage::Failed(CoreError::Io(kind, words))
        },
        Stage::SetLen => if upload {
            Stage::Cut(CoreError::Io(kind, words))
        } else {
            Stage::Failed(CoreError::Io(kind, words))
        },
        Stage::Cut(error) => Stage::Failed(error),
        other => other,
    }
}

/// What a failure on the other side leads to.
fn remote_failure(stage: Stage, upload: bool, start: u64, source: Source) -> (r: Stage)
    requires
        stage is Stat ==> upload,
    ensures
        forall|c: FileCopy|
            c.stage == stage && c.upload == upload && c.start == start ==> (#[trigger] following(
                c,
                Reply::RemoteFailed(source),
            )).0 == at(c, r),
{
    match stage {
        Stage::OpenSource => if upload {
            stage
        } else {
            Stage::Failed(CoreError::sftp(CoreErrorKind::OpenRemoteFile, source))
        },
        Stage::OpenTarget => if !upload {
            stage
        } else if start == 0 {
            Stage::Failed(CoreError::sftp(CoreErrorKind::CreateRemoteFile, source))
        } else {
            Stage::Failed(CoreError::sftp(CoreErrorKind::OpenRemoteFile, source))
        },
        Stage::Read => if upload {
            stage
        } else {
            Stage::Failed(CoreError::sftp(CoreErrorKind::ReadRemote, source))
        },
        Stage::Write(_) => if upload {
            Stage::Cut(CoreError::sftp(CoreErrorKind::WriteRemote, source))
        } else {
            stage
        },
        Stage::Confirm => if upload {
            Stage::Cut(CoreError::sftp(CoreErrorKind::WriteRemote, source))
        } else {
            Stage::Failed(CoreError::sftp(CoreErrorKind::WriteRemote, source))
        },
        Stage::Flush => if upload {
            Stage::Cut(CoreError::sftp(CoreErrorKind::CloseRemoteFile, source))
        } else {
            stage
        },
        Stage::Cut(error) => Stage::Failed(error),
        other => other,
    }
}

/// Where the last part of a path begins.
pub open spec fn last_part(path: Seq<char>, i: int) -> int
    decreases i,
{
    if 0 < i && path[i - 1] != '/' {
        last_part(path, i - 1)
    } else {
        i
    }
}

/// The name that a download is shown by: the last part of the path, or the path where that is
/// empty.
pub open spec fn shown_name(path: Seq<char>) -> Seq<char> {
    let i = last_part(path, path.len() as int);
    if i == path.len() {
        path
    } else {
        path.skip(i)
    }
}

/// The name that a download is shown by.
pub fn download_name(remote: &str) -> (r: String)
    ensures
        r@ == shown_name(remote@),
{
    let chars = text::chars_of(remote);
    let total: usize = chars.len();
    let mut i: usize = total;
    while 0 < i && chars[i - 1] != '/'
        invariant
            chars@ == remote@,
            total == remote@.len(),
            i <= total,
            last_part(remote@, total as int) == last_part(remote@, i as int),
        decreases i,
    {
        i -= 1;
    }
    if i == total {
        remote.to_owned()
    } else {
        let name = remote.substring_char(i, total).to_owned();
        assert(name@ =~= remote@.skip(i as int));
        name
    }
}

/// The name that an upload is shown by: that of the local file, or the remote path where the
/// local one has no name.
pub fn upload_name(local: &LocalPath, remote: &str) -> (r: String)
    ensures
        r@ == (match local_path::shown_name(local@) {
            Some(name) => name,
            None => remote@,
        }),
{
    match local.name() {
        Some(name) => name,
        None => remote.to_owned(),
    }
}

/// The first report of a copy tells where it starts, so that what is shown does not fall back to
/// the beginning when an attempt goes on from where another stopped. It is the report with which
/// reading begins.
pub proof fn law_the_first_report_is_the_start(c: FileCopy, reply: Reply)
    requires
        consistent(c),
        c.stage is OpenTarget || c.stage is SeekTarget,
        following(c, reply).0.stage is Read,
    ensures
        following(c, reply).1 == Some((c.start, c.total)),
{
}

/// Each later report tells of more bytes than the copy had come to before it, and of exactly
/// those that were written.
pub proof fn law_reports_grow(c: FileCopy, reply: Reply)
    requires
        consistent(c),
        c.stage matches Stage::Write(n) ==> c.done + n <= u64::MAX,
        following(c, reply).1 is Some,
        !(c.stage is OpenTarget || c.stage is SeekTarget),
    ensures
        c.stage is Write,
        following(c, reply).1 == Some((following(c, reply).0.done, c.total)),
        following(c, reply).0.done == c.done + c.stage->Write_0,
        following(c, reply).0.done > c.done,
{
}

/// An upload that fails once bytes may have been written is cut back, to no more than what the
/// server confirmed; it has failed only after that.
pub proof fn law_a_failed_upload_is_cut_back(c: FileCopy, reply: Reply)
    requires
        consistent(c),
        c.upload,
        following(c, reply).0.stage is Failed,
        !(c.stage is Failed),
        c.stage is Read || c.stage is Write || c.stage is Confirm || c.stage is Flush || c.stage
            is Cut,
    ensures
        c.stage is Cut,
        cut_of(c) == Some(c.confirmed),
        c.confirmed <= c.done,
{
}

/// What counts as confirmed only moves when the server confirmed all that was written, or when
/// the file was closed.
pub proof fn law_only_the_server_confirms(c: FileCopy, reply: Reply)
    requires
        following(c, reply).0.confirmed != c.confirmed,
    ensures
        c.stage is Confirm || c.stage is Flush,
        reply is Completed,
        following(c, reply).0.confirmed == c.done,
{
}

/// Whatever an upload fails with, no more than one confirmed stretch and one piece has to be sent
/// again.
pub proof fn law_little_is_sent_twice(c: FileCopy, reply: Reply, piece: u64)
    requires
        consistent(c),
        c.upload,
        c.done + piece <= u64::MAX,
        c.stage matches Stage::Write(n) ==> n <= piece,
        c.stage is Read || c.stage is Write ==> c.done - c.confirmed < CONFIRM_INTERVAL,
        c.stage is Read || c.stage is Write || c.stage is Confirm,
        c.done - c.confirmed < CONFIRM_INTERVAL + piece,
    ensures
        following(c, reply).0.done - following(c, reply).0.confirmed < CONFIRM_INTERVAL + piece,
        following(c, reply).0.stage is Read ==> following(c, reply).0.done - following(
            c,
            reply,
        ).0.confirmed < CONFIRM_INTERVAL,
{
}

/// A copy that starts at the beginning goes on as one that resumes at the first byte does: there
/// is no third way to open the target.
pub proof fn law_the_first_byte_is_the_beginning(upload: bool)
    ensures
        begun(upload, ResumeAt::Start) == begun(upload, ResumeAt::Offset(0)),
{
}

} // verus!
