//! What a copy comes to, told of the two files that it is about.

use crate::error::{CoreError, CoreErrorKind};
use crate::sftp::copy;
use crate::sftp::copy::{FileCopy, Reply, Stage};
use crate::sftp::ResumeAt;
use vstd::prelude::*;

verus! {

/// The files of a copy, and how far they were read and written.
#[verifier::ext_equal]
pub struct Files {
    /// What the source holds.
    pub source: Seq<u8>,
    /// What the target holds.
    pub target: Seq<u8>,
    /// Where the source is read next.
    pub read_at: int,
    /// Where the target is written next.
    pub write_at: int,
    /// The piece that was read last.
    pub piece: Seq<u8>,
    /// How many bytes of the target cannot be lost any more.
    pub safe: int,
}

/// Bytes with a piece written over them, or behind them.
pub open spec fn overwritten(bytes: Seq<u8>, at: int, piece: Seq<u8>) -> Seq<u8> {
    bytes.take(at) + piece + if at + piece.len() < bytes.len() {
        bytes.skip(at + piece.len())
    } else {
        Seq::empty()
    }
}

/// Bytes with all that is behind `len` cut off.
pub open spec fn cut_to(bytes: Seq<u8>, len: int) -> Seq<u8> {
    if len < bytes.len() {
        bytes.take(len)
    } else {
        bytes
    }
}

/// Whether a reply tells of a failure.
pub open spec fn fails(reply: Reply) -> bool {
    reply is LocalFailed || reply is RemoteFailed
}

/// Whether a reply tells of a failure of the side that is at work: an upload reads here and writes
/// there, a download the other way round; to look for a place in a file is always done here.
pub open spec fn breaks(c: FileCopy, reply: Reply) -> bool {
    let reading = c.stage is Stat || c.stage is OpenSource || c.stage is Read;
    let writing = c.stage is OpenTarget || c.stage is Write || c.stage is Flush;
    match reply {
        Reply::LocalFailed(_, _) => reading && c.upload || writing && !c.upload || c.stage is SeekSource
            || c.stage is SeekTarget || c.stage is SetLen || c.stage is Cut,
        Reply::RemoteFailed(_) => reading && !c.upload || writing && c.upload || c.stage is Confirm
            || c.stage is Cut,
        _ => false,
    }
}

/// Whether what a copy asked for was done to the files, and told with this reply. Where it failed,
/// the target still holds what cannot be lost.
pub open spec fn answered(c: FileCopy, f: Files, reply: Reply, g: Files) -> bool {
    &&& g.source == f.source
    &&& if fails(reply) {
        &&& breaks(c, reply)
        &&& c.stage is Stat ==> g == f
        &&& g.safe == f.safe
        &&& g.target.len() >= f.safe
        &&& g.target.take(f.safe) == f.target.take(f.safe)
    } else {
        match c.stage {
            Stage::Stat => reply == Reply::Length(f.source.len() as u64) && g == f,
            Stage::OpenSource => reply is Completed && g == (Files { read_at: 0, ..f }),
            Stage::OpenTarget => reply is Completed && g == if c.start == 0 {
                Files { target: Seq::empty(), write_at: 0, safe: 0, ..f }
            } else {
                Files { write_at: 0, safe: c.start as int, ..f }
            },
            Stage::SeekSource => reply is Completed && g == (Files { read_at: c.start as int, ..f }),
            Stage::SeekTarget => reply is Completed && g == (Files {
                write_at: c.start as int,
                ..f
            }),
            Stage::Read => reply matches Reply::Read(n) && f.read_at + n <= f.source.len() && (n == 0
                <==> f.read_at == f.source.len()) && g == (Files {
                read_at: f.read_at + n,
                piece: f.source.subrange(f.read_at, f.read_at + n),
                ..f
            }),
            Stage::Write(n) => reply is Completed && g == (Files {
                target: overwritten(f.target, f.write_at, f.piece.take(n as int)),
                write_at: f.write_at + n,
                ..f
            }),
            Stage::Confirm => reply is Completed && g == (Files { safe: f.write_at, ..f }),
            Stage::Flush => reply is Completed && g == (Files { safe: f.write_at, ..f }),
            Stage::SetLen | Stage::Cut(_) => reply is Completed && match copy::cut_of(c) {
                Some(len) => g == (Files { target: cut_to(f.target, len as int), ..f }),
                None => false,
            },
            Stage::Done | Stage::Failed(_) => g == f,
        }
    }
}

/// Where a copy has come to after these replies.
pub open spec fn after(c: FileCopy, replies: Seq<Reply>) -> FileCopy
    decreases replies.len(),
{
    if replies.len() == 0 {
        c
    } else {
        copy::following(after(c, replies.drop_last()), replies.last()).0
    }
}

/// Whether each reply tells what was done to the files; they are told of before the first reply,
/// and after each.
pub open spec fn told(c: FileCopy, replies: Seq<Reply>, files: Seq<Files>) -> bool
    decreases replies.len(),
{
    &&& files.len() == replies.len() + 1
    &&& replies.len() > 0 ==> {
        &&& told(c, replies.drop_last(), files.drop_last())
        &&& answered(
            after(c, replies.drop_last()),
            files[files.len() - 2],
            replies.last(),
            files.last(),
        )
    }
}

/// Whether the files allow to start at this byte: what is in front of it was copied before, and
/// an upload has nothing behind it.
pub open spec fn ready(upload: bool, start: int, f: Files) -> bool {
    &&& f.source.len() <= u64::MAX
    &&& 0 <= start <= f.source.len()
    &&& start > 0 ==> start <= f.target.len() && f.target.take(start) == f.source.take(start)
    &&& upload && start > 0 ==> f.target.len() == start
}

/// The byte that a copy is asked to start at.
pub open spec fn asked_start(resume: ResumeAt) -> int {
    match resume {
        ResumeAt::Start => 0,
        ResumeAt::Offset(n) => n as int,
    }
}

/// What holds of a copy and its files on the way.
spec fn on_the_way(c: FileCopy, f: Files) -> bool {
    &&& f.source.len() <= u64::MAX
    &&& copy::consistent(c)
    &&& c.start <= f.source.len()
    &&& match c.stage {
        Stage::Stat | Stage::OpenSource => c.done == c.start && c.confirmed == c.start && ready(
            c.upload,
            c.start as int,
            f,
        ),
        Stage::OpenTarget => c.done == c.start && c.confirmed == c.start && ready(
            c.upload,
            c.start as int,
            f,
        ) && f.read_at == 0,
        Stage::SeekSource => c.start > 0 && c.done == c.start && c.confirmed == c.start && ready(
            c.upload,
            c.start as int,
            f,
        ) && f.safe == c.start,
        Stage::SeekTarget => c.start > 0 && c.done == c.start && c.confirmed == c.start && ready(
            c.upload,
            c.start as int,
            f,
        ) && f.safe == c.start && f.read_at == c.start,
        Stage::Read => in_step(c, f) && f.read_at == c.done,
        Stage::Write(n) => in_step(c, f) && f.read_at == c.done + n && f.read_at <= f.source.len()
            && f.piece == f.source.subrange(c.done as int, c.done + n),
        Stage::Confirm => in_step(c, f) && f.read_at == c.done,
        Stage::Flush | Stage::SetLen => in_step(c, f) && c.done == f.source.len(),
        Stage::Cut(_) => c.confirmed <= f.target.len() && c.confirmed <= f.source.len()
            && f.target.take(c.confirmed as int) == f.source.take(c.confirmed as int),
        Stage::Done => f.target == f.source,
        Stage::Failed(_) => true,
    }
}

/// Whether what was copied so far is in the target.
spec fn in_step(c: FileCopy, f: Files) -> bool {
    &&& f.write_at == c.done
    &&& c.done <= f.source.len()
    &&& c.done <= f.target.len()
    &&& f.target.take(c.done as int) == f.source.take(c.done as int)
    &&& c.upload ==> f.target.len() == c.done
    &&& c.confirmed <= f.safe <= c.done
}

proof fn lemma_prefix(a: Seq<u8>, b: Seq<u8>, n: int, m: int)
    requires
        0 <= m <= n <= a.len(),
        n <= b.len(),
        a.take(n) == b.take(n),
    ensures
        a.take(m) == b.take(m),
{
    assert(a.take(m) =~= a.take(n).take(m));
    assert(b.take(m) =~= b.take(n).take(m));
}

#[verifier::spinoff_prover]
proof fn lemma_on_the_way(c: FileCopy, f: Files, reply: Reply, g: Files)
    requires
        on_the_way(c, f),
        answered(c, f, reply, g),
    ensures
        on_the_way(copy::following(c, reply).0, g),
{
    let d = copy::following(c, reply).0;
    if fails(reply) {
        match c.stage {
            Stage::Read | Stage::Write(_) | Stage::Confirm | Stage::Flush | Stage::SetLen => {
                lemma_prefix(f.target, f.source, c.done as int, c.confirmed as int);
                lemma_prefix(g.target, f.target, f.safe, c.confirmed as int);
            },
            _ => {},
        }
    }
    match c.stage {
        Stage::Stat => {},
        Stage::OpenTarget => {
            if c.start == 0 && !fails(reply) {
                assert(g.target.take(0) =~= g.source.take(0));
            }
        },
        Stage::Write(n) => {
            if reply is Completed {
                let piece = f.piece.take(n as int);
                assert(piece =~= f.piece);
                let front = f.target.take(c.done as int);
                assert(g.target.take(c.done + n) =~= front + piece);
                assert(g.source.take(c.done + n) =~= f.source.take(c.done as int) + piece);
            }
        },
        Stage::Flush => {
            if c.upload && reply is Completed {
                assert(g.target.take(c.done as int) =~= g.target);
                assert(g.source.take(c.done as int) =~= g.source);
            }
        },
        Stage::SetLen => {
            if reply is Completed {
                assert(g.target =~= f.target.take(c.done as int));
                assert(g.source.take(c.done as int) =~= g.source);
            }
        },
        _ => {},
    }
}

proof fn lemma_all_on_the_way(c: FileCopy, replies: Seq<Reply>, files: Seq<Files>)
    requires
        told(c, replies, files),
        on_the_way(c, files[0]),
    ensures
        on_the_way(after(c, replies), files.last()),
        files.last().source == files[0].source,
    decreases replies.len(),
{
    if replies.len() > 0 {
        lemma_all_on_the_way(c, replies.drop_last(), files.drop_last());
        lemma_on_the_way(
            after(c, replies.drop_last()),
            files[files.len() - 2],
            replies.last(),
            files.last(),
        );
    }
}

/// What a copy is for: once it is done, the target holds what the source holds, whatever way it
/// took, wherever it started, and whatever was in the target before.
pub proof fn law_a_finished_copy_is_the_source(
    upload: bool,
    resume: ResumeAt,
    replies: Seq<Reply>,
    files: Seq<Files>,
)
    requires
        told(copy::begun(upload, resume), replies, files),
        ready(upload, asked_start(resume), files[0]),
        after(copy::begun(upload, resume), replies).stage is Done,
    ensures
        files.last().source == files[0].source,
        files.last().target == files[0].source,
{
    lemma_all_on_the_way(copy::begun(upload, resume), replies, files);
}

/// What an upload that failed on the way and was cut back leaves behind is a beginning of the
/// source, and reaches at least as far as the upload started: another attempt can go on there.
pub proof fn law_what_a_failed_upload_leaves_has_no_gap(
    resume: ResumeAt,
    replies: Seq<Reply>,
    files: Seq<Files>,
)
    requires
        replies.len() > 0,
        told(copy::begun(true, resume), replies, files),
        ready(true, asked_start(resume), files[0]),
        after(copy::begun(true, resume), replies.drop_last()).stage is Cut,
        replies.last() is Completed,
    ensures
        after(copy::begun(true, resume), replies).stage is Failed,
        asked_start(resume) <= files.last().target.len() <= files[0].source.len(),
        files.last().target == files[0].source.take(files.last().target.len() as int),
{
    let c = copy::begun(true, resume);
    let (earlier, some) = (replies.drop_last(), files.drop_last());
    lemma_all_on_the_way(c, earlier, some);
    lemma_all_on_the_way(c, replies, files);
    lemma_start_stays(c, earlier);
    let f = some.last();
    assert(f == files[files.len() - 2]);
    let d = after(c, earlier);
    assert(files.last().target =~= f.target.take(d.confirmed as int));
}

proof fn lemma_start_stays(c: FileCopy, replies: Seq<Reply>)
    ensures
        after(c, replies).start == c.start,
        after(c, replies).upload == c.upload,
    decreases replies.len(),
{
    if replies.len() > 0 {
        lemma_start_stays(c, replies.drop_last());
    }
}

/// How much a copy still has to do.
pub open spec fn work_left(c: FileCopy, f: Files) -> int {
    10 * (f.source.len() - c.done) + match c.stage {
        Stage::Stat => 9int,
        Stage::OpenSource => 8,
        Stage::OpenTarget => 7,
        Stage::SeekSource => 6,
        Stage::SeekTarget => 5,
        Stage::Confirm => 5,
        Stage::Read => 4,
        Stage::Write(_) => 3,
        Stage::Flush => 2,
        Stage::SetLen => 1,
        _ => 0,
    }
}

/// Where nothing fails, a copy comes to its end: with each reply there is less to do, and what has
/// nothing left to do is done.
pub proof fn law_a_copy_that_nothing_stops_is_done(
    upload: bool,
    resume: ResumeAt,
    replies: Seq<Reply>,
    files: Seq<Files>,
)
    requires
        told(copy::begun(upload, resume), replies, files),
        ready(upload, asked_start(resume), files[0]),
        forall|i: int| 0 <= i < replies.len() ==> !fails(#[trigger] replies[i]),
    ensures
        ({
            let c = after(copy::begun(upload, resume), replies);
            &&& !(c.stage is Failed)
            &&& !(c.stage is Cut)
            &&& c.stage is Done || work_left(c, files.last()) + replies.len() <= work_left(
                copy::begun(upload, resume),
                files[0],
            )
            &&& !(c.stage is Done) ==> work_left(c, files.last()) > 0
        }),
    decreases replies.len(),
{
    let c = copy::begun(upload, resume);
    lemma_all_on_the_way(c, replies, files);
    if replies.len() > 0 {
        let (earlier, some) = (replies.drop_last(), files.drop_last());
        assert(forall|i: int|
            0 <= i < earlier.len() ==> !fails(#[trigger] earlier[i]) && earlier[i] == replies[i]);
        assert(!fails(replies.last()));
        law_a_copy_that_nothing_stops_is_done(upload, resume, earlier, some);
        lemma_all_on_the_way(c, earlier, some);
    }
}

/// What a step that failed leads to: the copy ends with that very failure, told by what was being
/// done. An upload that may have written something is cut back before. Only the length of a
/// remote source may stay unknown, and only what is to be cut off may stay.
pub proof fn law_a_failure_ends_the_copy(c: FileCopy, reply: Reply)
    requires
        copy::consistent(c),
        breaks(c, reply),
    ensures
        ({
            let d = copy::following(c, reply).0;
            let wrote = c.upload && (c.stage is Read || c.stage is Write || c.stage is Confirm
                || c.stage is Flush);
            &&& copy::following(c, reply).1 is None
            &&& d.done == c.done && d.confirmed == c.confirmed && d.start == c.start && d.upload
                == c.upload
            &&& if c.stage is Stat && !c.upload {
                d.stage is OpenSource && d.total == 0
            } else if c.stage is Cut {
                d.stage == Stage::Failed(c.stage->Cut_0)
            } else {
                let e = if wrote {
                    d.stage->Cut_0
                } else {
                    d.stage->Failed_0
                };
                &&& wrote ==> d.stage is Cut
                &&& !wrote ==> d.stage is Failed
                &&& reply matches Reply::LocalFailed(kind, words) ==> e == CoreError::Io(kind, words)
                &&& reply matches Reply::RemoteFailed(source) ==> e matches CoreError::Sftp {
                    kind,
                    source: behind,
                } && behind == Some(source) && kind == match c.stage {
                    Stage::Read => CoreErrorKind::ReadRemote,
                    Stage::Write(_) => CoreErrorKind::WriteRemote,
                    Stage::Confirm => CoreErrorKind::WriteRemote,
                    Stage::Flush => CoreErrorKind::CloseRemoteFile,
                    Stage::OpenTarget if c.start == 0 => CoreErrorKind::CreateRemoteFile,
                    _ => CoreErrorKind::OpenRemoteFile,
                }
            }
        }),
{
}

/// The end of a copy is reached in one way only: the source was read to its end, what was written
/// was finished off, and a download was cut to its length. Each of these was done before the next.
pub proof fn law_a_copy_ends_after_the_source_does(c: FileCopy, reply: Reply)
    requires
        copy::consistent(c),
    ensures
        ({
            let d = copy::following(c, reply).0;
            &&& d.stage is Flush && !(c.stage is Flush) ==> c.stage is Read && reply
                == Reply::Read(0)
            &&& d.stage is SetLen && !(c.stage is SetLen) ==> c.stage is Flush && reply is Completed
                && !c.upload
            &&& d.stage is Done && !(c.stage is Done) ==> reply is Completed && if c.upload {
                c.stage is Flush
            } else {
                c.stage is SetLen
            }
            &&& c.stage is Done || c.stage is Failed ==> d == c
        }),
{
}

/// A reply to something else than what was asked for changes nothing, and is not reported.
pub proof fn law_stray_replies_change_nothing(c: FileCopy, reply: Reply)
    requires
        fails(reply) ==> !breaks(c, reply),
        reply is Length ==> !(c.stage is Stat),
        reply is Read ==> !(c.stage is Read),
        reply is Completed ==> c.stage is Stat || c.stage is Read,
    ensures
        copy::following(c, reply) == (c, None::<(u64, u64)>),
{
}

/// Where a copy starts and which way it goes never changes. The length that is reported is the one
/// that was found out, and bytes count as copied exactly when they were written.
pub proof fn law_a_copy_counts_what_it_writes(c: FileCopy, reply: Reply)
    requires
        c.stage matches Stage::Write(n) ==> c.done + n <= u64::MAX,
    ensures
        ({
            let d = copy::following(c, reply).0;
            &&& d.upload == c.upload
            &&& d.start == c.start
            &&& d.total == match (c.stage, reply) {
                (Stage::Stat, Reply::Length(n)) => n,
                (Stage::Stat, Reply::RemoteFailed(_)) if !c.upload => 0,
                _ => c.total,
            }
            &&& d.done == match (c.stage, reply) {
                (Stage::Write(n), Reply::Completed) => c.done + n,
                _ => c.done as int,
            }
            &&& c.stage is Read ==> (reply matches Reply::Read(n) ==> (n > 0 ==> d.stage
                == Stage::Write(n)))
        }),
{
}

/// A copy is asked to start at a byte, and so it does: nothing counts as copied before.
pub proof fn law_a_copy_starts_where_it_is_asked_to(upload: bool, resume: ResumeAt)
    ensures
        ({
            let c = copy::begun(upload, resume);
            &&& c.upload == upload
            &&& c.start == asked_start(resume)
            &&& c.done == c.start
            &&& c.confirmed == c.start
            &&& c.stage is Stat
            &&& copy::consistent(c)
        }),
{
}

/// What a download is shown by is the end of its path behind the last slash, or the whole path
/// where nothing is there.
pub proof fn law_a_download_is_shown_by_its_last_part(path: Seq<char>)
    ensures
        ({
            let name = copy::shown_name(path);
            let i = path.len() - name.len();
            &&& 0 <= i
            &&& name == path.skip(i)
            &&& path.len() > 0 && path.last() != '/' ==> name.len() > 0 && (forall|k: int|
                0 <= k < name.len() ==> #[trigger] name[k] != '/') && (i > 0 ==> path[i - 1] == '/')
            &&& path.len() > 0 && path.last() == '/' ==> name == path
        }),
{
    lemma_last_part(path, path.len() as int);
    assert(path.skip(0) =~= path);
}

proof fn lemma_last_part(path: Seq<char>, i: int)
    requires
        0 <= i <= path.len(),
    ensures
        0 <= copy::last_part(path, i) <= i,
        forall|k: int| copy::last_part(path, i) <= k < i ==> path[k] != '/',
        copy::last_part(path, i) > 0 ==> path[copy::last_part(path, i) - 1] == '/',
        i > 0 && path[i - 1] != '/' ==> copy::last_part(path, i) < i,
    decreases i,
{
    if 0 < i && path[i - 1] != '/' {
        lemma_last_part(path, i - 1);
    }
}

/// An upload that is done is written for good, up to its last byte.
pub proof fn law_what_is_done_is_written_for_good(c: FileCopy, reply: Reply)
    requires
        copy::consistent(c),
        c.upload,
        !(c.stage is Done),
        copy::following(c, reply).0.stage is Done,
    ensures
        copy::following(c, reply).0.confirmed == c.done,
        copy::following(c, reply).0.done == c.done,
{
}

} // verus!
