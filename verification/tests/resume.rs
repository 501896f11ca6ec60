//! Copies and whole transfers, against files that are held in memory.

use rterm::local_path::LocalPath;
use rterm::error::{CoreErrorKind, ErrorClass, IoKind, SftpFault, Source, StatusCode};
use rterm::error::CoreError;
use rterm::sftp::copy::{download_name, upload_name, FileCopy, Reply, Stage, CONFIRM_INTERVAL};
use rterm::sftp::listing::Operation;
use rterm::sftp::{Fingerprint, ResumeAt};
use rterm::transfer::cleanup;
use rterm::transfer::cleanup::Cleaner;
use rterm::transfer::progress::Meter;
use rterm::transfer::worker;
use rterm::transfer::worker::{FilePath, Worker};
use rterm::transfer::{
    resume_offset, staging_path, staging_remote, Failure, FailureKind, Job, TransferDirection,
};
use std::collections::BTreeMap;

type Files = BTreeMap<String, Vec<u8>>;

const KILO: usize = 1024;

const MEGA: usize = 1024 * 1024;

const BUFFER: usize = 64 * KILO;

#[test]
fn resume_at_reports_its_offset() {
    assert_eq!(ResumeAt::Start.offset(), 0);
    assert_eq!(ResumeAt::Offset(4096).offset(), 4096);
    assert_eq!(ResumeAt::default(), ResumeAt::Start);
}

/// Copies all that is left of a source, and tells the byte reached and what was reported.
fn copy_rest(source: &[u8], total: u64, start: u64) -> (u64, Vec<(u64, u64)>, Vec<u8>) {
    let resume = if start == 0 { ResumeAt::Start } else { ResumeAt::Offset(start) };
    let mut copy = FileCopy::begin(false, resume);
    let mut seen: Vec<(u64, u64)> = Vec::new();
    let mut sink: Vec<u8> = Vec::new();
    let mut rest = source;
    let mut piece: Vec<u8> = Vec::new();
    loop {
        let reply = match &copy.stage {
            Stage::Stat => Reply::Length(total),
            Stage::Read => {
                let n = rest.len().min(BUFFER);
                piece = rest[..n].to_vec();
                rest = &rest[n..];
                Reply::Read(n as u64)
            }
            Stage::Write(_) => {
                sink.extend_from_slice(&piece);
                Reply::Completed
            }
            Stage::Done => return (copy.done, seen, sink),
            Stage::Failed(_) | Stage::Cut(_) => panic!("the copy failed"),
            _ => Reply::Completed,
        };
        let (next, report) = copy.next(reply);
        copy = next;
        seen.extend(report);
    }
}

#[test]
fn copy_reports_the_start_offset_on_its_first_callback() {
    let (written, seen, sink) = copy_rest(b"hello world", 11, 3);
    assert_eq!(seen.first().copied(), Some((3, 11)));
    assert_eq!(written, 14);
    assert_eq!(sink, b"hello world");
}

#[test]
fn copy_stops_at_eof_and_keeps_the_offset_when_there_is_nothing_left() {
    let (written, seen, _) = copy_rest(b"", 11, 11);
    assert_eq!(written, 11);
    assert_eq!(seen, vec![(11, 11)]);
}

#[test]
fn copy_from_zero_calls_back_once_for_an_empty_source() {
    let (written, seen, _) = copy_rest(b"", 0, 0);
    assert_eq!(written, 0);
    assert_eq!(seen, vec![(0, 0)]);
}

#[test]
fn copy_reads_the_whole_source_in_chunks_and_reports_monotonic_offsets() {
    let data = vec![7u8; 200 * 1024];
    let (written, seen, sink) = copy_rest(&data, data.len() as u64, 0);
    assert_eq!(written, 200 * 1024);
    assert_eq!(sink.len(), 200 * 1024);
    assert_eq!(seen[0].0, 0);
    assert!(seen.windows(2).all(|w| w[0].0 < w[1].0));
    assert_eq!(seen.last().map(|s| s.0), Some(200 * 1024));
}

/// What goes wrong on the way.
#[derive(Clone, Copy, PartialEq)]
enum Trouble {
    Nothing,
    /// The connection breaks when so many bytes would be passed: nothing is taken from then on.
    BreaksAt(usize),
    /// The first piece at or behind this byte is refused, once. That is only told with the next
    /// confirmation; the pieces behind it are taken.
    RejectsAt(usize),
    /// Giving the final name fails.
    RenameFails,
    /// The target cannot be opened.
    OpenFails,
    /// The session is over: nothing is answered any more.
    SessionDead,
}

fn failure(code: StatusCode) -> Source {
    Source::Sftp(SftpFault::Status(code), "failure".to_string())
}

/// What was seen while a file was copied.
#[derive(Clone, Copy, Default)]
struct Seen {
    /// The bytes that were taken.
    written: usize,
    /// Where the first piece was written.
    first_write: Option<usize>,
    /// Where the first piece was read.
    first_read: Option<usize>,
}

/// Copies one file into a staging file.
fn run_copy(
    upload: bool,
    source: &[u8],
    target: &mut Files,
    name: &str,
    resume: ResumeAt,
    trouble: Trouble,
) -> (Result<(), CoreError>, Seen) {
    let mut copy = FileCopy::begin(upload, resume);
    let mut from: usize = 0;
    let mut at: usize = 0;
    let mut seen = Seen::default();
    let mut rejected = false;
    let mut owed = false;
    let mut piece: Vec<u8> = Vec::new();
    loop {
        let reply = match &copy.stage {
            Stage::Stat => Reply::Length(source.len() as u64),
            Stage::OpenSource => Reply::Completed,
            Stage::OpenTarget if trouble == Trouble::OpenFails => {
                Reply::RemoteFailed(failure(StatusCode::Failure))
            }
            Stage::OpenTarget if trouble == Trouble::SessionDead => {
                let fault = SftpFault::UnexpectedBehavior("session closed".to_string());
                Reply::RemoteFailed(Source::Sftp(fault, "session closed".to_string()))
            }
            Stage::OpenTarget => match resume {
                ResumeAt::Start => {
                    target.insert(name.to_string(), Vec::new());
                    Reply::Completed
                }
                ResumeAt::Offset(_) if target.contains_key(name) => Reply::Completed,
                ResumeAt::Offset(_) if upload => {
                    Reply::RemoteFailed(failure(StatusCode::NoSuchFile))
                }
                ResumeAt::Offset(_) => {
                    Reply::LocalFailed(IoKind::NotFound, "not found".to_string())
                }
            },
            Stage::SeekSource => {
                from = resume.offset() as usize;
                Reply::Completed
            }
            Stage::SeekTarget => {
                at = resume.offset() as usize;
                Reply::Completed
            }
            Stage::Read => {
                seen.first_read.get_or_insert(from);
                let n = (source.len() - from).min(BUFFER);
                piece = source[from..from + n].to_vec();
                from += n;
                Reply::Read(n as u64)
            }
            Stage::Write(_) => {
                let breaks = matches!(trouble, Trouble::BreaksAt(limit)
                    if seen.written + piece.len() > limit);
                let rejects = !rejected && matches!(trouble, Trouble::RejectsAt(byte) if at >= byte);
                if breaks {
                    Reply::RemoteFailed(failure(StatusCode::Failure))
                } else if rejects {
                    rejected = true;
                    owed = true;
                    at += piece.len();
                    Reply::Completed
                } else {
                    seen.first_write.get_or_insert(at);
                    let file = target.get_mut(name).unwrap();
                    if file.len() < at + piece.len() {
                        file.resize(at + piece.len(), 0);
                    }
                    file[at..at + piece.len()].copy_from_slice(&piece);
                    at += piece.len();
                    seen.written += piece.len();
                    Reply::Completed
                }
            }
            Stage::SetLen | Stage::Cut(_) => {
                let len = copy.cut().unwrap() as usize;
                target.get_mut(name).unwrap().truncate(len);
                Reply::Completed
            }
            Stage::Confirm | Stage::Flush if owed => {
                owed = false;
                Reply::RemoteFailed(failure(StatusCode::Failure))
            }
            Stage::Confirm | Stage::Flush => Reply::Completed,
            Stage::Done => return (Ok(()), seen),
            Stage::Failed(_) => match copy.stage {
                Stage::Failed(e) => return (Err(e), seen),
                _ => unreachable!(),
            },
        };
        copy = copy.next(reply).0;
    }
}

/// Gives a file another name, or fails as a server does.
fn rename(files: &mut Files, from: &str, to: &str, trouble: Trouble) -> Result<(), CoreError> {
    if trouble == Trouble::RenameFails || files.contains_key(to) {
        return Err(Operation::Rename.failure(failure(StatusCode::Failure)));
    }
    let content = files.remove(from).unwrap();
    files.insert(to.to_string(), content);
    Ok(())
}

fn job(direction: TransferDirection, prior_source: Option<Fingerprint>) -> Job {
    Job {
        tab_id: 7,
        tid: 1,
        direction,
        local: LocalPath::of("/l/a.bin"),
        remote: "/r/a.bin".to_string(),
        client: Some(3),
        prior_source,
    }
}

/// A path as a text.
fn spelled(path: &FilePath) -> String {
    match path {
        FilePath::Local(path) => path.shown(),
        FilePath::Remote(path) => path.clone(),
    }
}

/// Runs a transfer to its end; tells what became of it, the bytes sent and where it started.
fn run_worker(
    job: Job,
    source: &[u8],
    stamp: Fingerprint,
    target: &mut Files,
    trouble: Trouble,
) -> (Result<(), FailureKind>, usize, Option<u64>) {
    let upload = job.direction == TransferDirection::Upload;
    let (mut worker, mut action) = Worker::begin(job);
    let mut sent: usize = 0;
    let mut start: Option<u64> = None;
    loop {
        let reply = match action {
            worker::Action::ListDir(_) | worker::Action::CreateDir(_) => worker::Reply::Done,
            worker::Action::StatSource => worker::Reply::Source(stamp),
            worker::Action::StatStaging(path) => match target.get(&spelled(&path)) {
                Some(f) => worker::Reply::Length(f.len() as u64),
                None => worker::Reply::Failed(CoreError::Io(
                    IoKind::NotFound,
                    "not found".to_string(),
                )),
            },
            worker::Action::Copy { staging, resume, attempt } => {
                start = attempt.map(|a| a.1);
                let (result, seen) = {
                    let name = spelled(&staging);
                    run_copy(upload, source, target, &name, resume, trouble)
                };
                sent += seen.written;
                match result {
                    Ok(()) => worker::Reply::Done,
                    Err(e) => worker::Reply::Failed(e),
                }
            }
            worker::Action::Rename { from, to } => {
                match rename(target, &spelled(&from), &spelled(&to), trouble) {
                    Ok(()) => worker::Reply::Done,
                    Err(e) => worker::Reply::Failed(e),
                }
            }
            worker::Action::StatTarget(path) => {
                if target.contains_key(&spelled(&path)) {
                    worker::Reply::Done
                } else {
                    worker::Reply::Failed(CoreError::Io(
                        IoKind::NotFound,
                        "not found".to_string(),
                    ))
                }
            }
            worker::Action::RemoveTarget(path) => {
                target.remove(&spelled(&path));
                worker::Reply::Done
            }
            worker::Action::Finish(result) => {
                return (result.map_err(|f| f.kind), sent, start);
            }
        };
        action = worker.next(reply);
    }
}

fn stamp(len: usize) -> Fingerprint {
    Fingerprint { len: len as u64, modified: Some(1) }
}

/// Bytes that tell where they stand, of which a longer run starts with a shorter one.
fn payload(bytes: usize) -> Vec<u8> {
    (0..bytes.div_ceil(4) as u32)
        .flat_map(|n| {
            let (block, i) = (n / 1024, n % 1024);
            block.wrapping_mul(2_654_435_761).wrapping_add(i.wrapping_mul(40_503)).to_le_bytes()
        })
        .take(bytes)
        .collect()
}

#[test]
fn an_upload_lands_under_the_final_name_after_rename() {
    let data = payload(300 * KILO);
    let mut remote = Files::new();
    let (result, _) =
        run_copy(true, &data, &mut remote, "/big.bin.part", ResumeAt::Start, Trouble::Nothing);
    result.expect("upload should succeed");
    rename(&mut remote, "/big.bin.part", "/big.bin", Trouble::Nothing)
        .expect("rename should succeed");
    assert_eq!(remote.get("/big.bin").unwrap().len(), 300 * KILO);
    assert!(!remote.contains_key("/big.bin.part"));
    assert_eq!(remote.get("/big.bin"), Some(&payload(300 * KILO)));
}

#[test]
fn a_whole_upload_lands_under_the_final_name() {
    let data = payload(300 * KILO);
    let mut remote = Files::new();
    let (result, sent, start) = run_worker(
        job(TransferDirection::Upload, None),
        &data,
        stamp(data.len()),
        &mut remote,
        Trouble::Nothing,
    );
    assert_eq!(result, Ok(()));
    assert_eq!((sent, start), (300 * KILO, Some(0)));
    assert_eq!(remote.get("/r/a.bin"), Some(&data));
    assert!(!remote.contains_key("/r/a.bin.part"));
}

#[test]
fn a_resumed_upload_sends_only_the_tail() {
    let total = MEGA;
    let staged = 300 * KILO;
    let mut remote = Files::new();
    remote.insert("/big.bin.part".to_string(), payload(staged));
    let (result, seen) = run_copy(
        true,
        &payload(total),
        &mut remote,
        "/big.bin.part",
        ResumeAt::Offset(staged as u64),
        Trouble::Nothing,
    );
    result.expect("resumed upload should succeed");
    assert_eq!(seen.first_write, Some(staged));
    assert_eq!(seen.written, total - staged);
    assert_eq!(remote.get("/big.bin.part"), Some(&payload(total)));
}

#[test]
fn a_whole_resumed_upload_sends_only_the_tail() {
    let data = payload(MEGA);
    let now = stamp(data.len());
    let mut remote = Files::new();
    remote.insert("/r/a.bin.part".to_string(), payload(300 * KILO));
    let (result, sent, start) = run_worker(
        job(TransferDirection::Upload, Some(now)),
        &data,
        now,
        &mut remote,
        Trouble::Nothing,
    );
    assert_eq!(result, Ok(()));
    assert_eq!((sent, start), (MEGA - 300 * KILO, Some(300 * KILO as u64)));
    assert_eq!(remote.get("/r/a.bin"), Some(&data));
}

#[test]
fn an_interrupted_upload_resumes_from_the_bytes_that_landed() {
    let total = 6 * MEGA;
    let data = payload(total);
    let mut remote = Files::new();
    let (first, _) = run_copy(
        true,
        &data,
        &mut remote,
        "/big.bin.part",
        ResumeAt::Start,
        Trouble::BreaksAt(5 * MEGA),
    );
    assert!(first.is_err());
    let landed = remote.get("/big.bin.part").unwrap().len();
    assert!((4 * MEGA..4 * MEGA + 2 * KILO).contains(&landed));
    assert_eq!(remote.get("/big.bin.part"), Some(&payload(landed)));
    assert!(!remote.contains_key("/big.bin"));
    let (second, seen) = run_copy(
        true,
        &data,
        &mut remote,
        "/big.bin.part",
        ResumeAt::Offset(landed as u64),
        Trouble::Nothing,
    );
    second.expect("the second round should finish");
    assert_eq!(seen.first_write, Some(landed));
    rename(&mut remote, "/big.bin.part", "/big.bin", Trouble::Nothing)
        .expect("rename after resume");
    assert_eq!(remote.get("/big.bin"), Some(&payload(total)));
}

#[test]
fn a_whole_interrupted_upload_goes_on_where_it_was_confirmed() {
    let data = payload(CONFIRM_INTERVAL as usize + 300_000);
    let now = stamp(data.len());
    let mut remote = Files::new();
    let (result, _, _) = run_worker(
        job(TransferDirection::Upload, None),
        &data,
        now,
        &mut remote,
        Trouble::BreaksAt(CONFIRM_INTERVAL as usize + 100_000),
    );
    assert_eq!(result, Err(FailureKind::Transient));
    let left = remote.get("/r/a.bin.part").unwrap().len();
    assert_eq!(left, CONFIRM_INTERVAL as usize);
    let (result, sent, start) = run_worker(
        job(TransferDirection::Upload, Some(now)),
        &data,
        now,
        &mut remote,
        Trouble::Nothing,
    );
    assert_eq!(result, Ok(()));
    assert_eq!(start, Some(CONFIRM_INTERVAL));
    assert_eq!(sent, 300_000);
    assert_eq!(remote.get("/r/a.bin"), Some(&data));
}

#[test]
fn resuming_onto_a_missing_staging_file_fails_without_creating_it() {
    let mut remote = Files::new();
    let (result, _) = run_copy(
        true,
        &payload(64 * KILO),
        &mut remote,
        "/absent.bin.part",
        ResumeAt::Offset(4096),
        Trouble::Nothing,
    );
    let err = result.expect_err("opening a missing staging file must fail");
    assert!(matches!(err, CoreError::Sftp { kind: CoreErrorKind::OpenRemoteFile, .. }));
    assert!(!remote.contains_key("/absent.bin.part"));
}

#[test]
fn starting_over_truncates_the_stale_tail() {
    let mut remote = Files::new();
    remote.insert("/big.bin.part".to_string(), payload(800 * KILO));
    let (result, _) = run_copy(
        true,
        &payload(500 * KILO),
        &mut remote,
        "/big.bin.part",
        ResumeAt::Start,
        Trouble::Nothing,
    );
    result.expect("restarting from zero should succeed");
    assert_eq!(remote.get("/big.bin.part"), Some(&payload(500 * KILO)));
}

#[test]
fn a_failed_rename_keeps_the_staged_upload_and_a_retry_completes_it() {
    let mut remote = Files::new();
    let (result, _) = run_copy(
        true,
        &payload(200 * KILO),
        &mut remote,
        "/big.bin.part",
        ResumeAt::Start,
        Trouble::Nothing,
    );
    result.expect("upload should succeed");
    let err = rename(&mut remote, "/big.bin.part", "/big.bin", Trouble::RenameFails)
        .expect_err("the injected rename failure should surface");
    assert!(matches!(err, CoreError::Sftp { .. }));
    assert_eq!(remote.get("/big.bin.part").unwrap().len(), 200 * KILO);
    rename(&mut remote, "/big.bin.part", "/big.bin", Trouble::Nothing)
        .expect("rename succeeds once the fault is gone");
    assert_eq!(remote.get("/big.bin"), Some(&payload(200 * KILO)));
}

#[test]
fn a_whole_upload_that_was_not_renamed_is_not_sent_again() {
    let data = payload(200 * KILO);
    let now = stamp(data.len());
    let mut remote = Files::new();
    let (result, _, _) = run_worker(
        job(TransferDirection::Upload, None),
        &data,
        now,
        &mut remote,
        Trouble::RenameFails,
    );
    assert!(result.is_err());
    assert_eq!(remote.get("/r/a.bin.part"), Some(&data));
    let (result, sent, _) = run_worker(
        job(TransferDirection::Upload, Some(now)),
        &data,
        now,
        &mut remote,
        Trouble::Nothing,
    );
    assert_eq!(result, Ok(()));
    assert_eq!(sent, 0);
    assert_eq!(remote.get("/r/a.bin"), Some(&data));
}

#[test]
fn a_resumed_download_skips_the_bytes_already_on_disk() {
    let total = MEGA;
    let staged = 300 * KILO;
    let mut local = Files::new();
    local.insert("src.bin.part".to_string(), payload(staged));
    let (result, seen) = run_copy(
        false,
        &payload(total),
        &mut local,
        "src.bin.part",
        ResumeAt::Offset(staged as u64),
        Trouble::Nothing,
    );
    result.expect("resumed download should succeed");
    assert_eq!(seen.first_read, Some(staged));
    assert_eq!(local.get("src.bin.part"), Some(&payload(total)));
}

#[test]
fn a_whole_resumed_download_reads_only_the_tail() {
    let data = payload(MEGA);
    let now = stamp(data.len());
    let mut local = Files::new();
    local.insert("/l/a.bin.part".to_string(), payload(300 * KILO));
    let (result, sent, start) = run_worker(
        job(TransferDirection::Download, Some(now)),
        &data,
        now,
        &mut local,
        Trouble::Nothing,
    );
    assert_eq!(result, Ok(()));
    assert_eq!((sent, start), (MEGA - 300 * KILO, Some(300 * KILO as u64)));
    assert_eq!(local.get("/l/a.bin"), Some(&data));
}

#[test]
fn a_transient_write_failure_leaves_no_hole_in_the_staging_file() {
    let total = 6 * MEGA;
    let data = payload(total);
    let mut remote = Files::new();
    let (first, _) = run_copy(
        true,
        &data,
        &mut remote,
        "/x.part",
        ResumeAt::Start,
        Trouble::RejectsAt(2 * MEGA),
    );
    first.expect_err("one rejected write should abort the round");
    let landed = remote.get("/x.part").unwrap().len();
    assert!(landed < total);
    assert_eq!(remote.get("/x.part"), Some(&payload(landed)));
    let (second, _) = run_copy(
        true,
        &data,
        &mut remote,
        "/x.part",
        ResumeAt::Offset(landed as u64),
        Trouble::Nothing,
    );
    second.expect("the next round resumes from the trimmed prefix");
    assert_eq!(remote.get("/x.part"), Some(&payload(total)));
}

#[test]
fn a_hole_behind_the_last_confirmation_is_cut_off() {
    let total = 6 * MEGA;
    let data = payload(total);
    let mut remote = Files::new();
    let (first, _) = run_copy(
        true,
        &data,
        &mut remote,
        "/x.part",
        ResumeAt::Start,
        Trouble::RejectsAt(5 * MEGA),
    );
    assert!(first.is_err());
    let landed = remote.get("/x.part").unwrap().len();
    assert_eq!(landed, CONFIRM_INTERVAL as usize);
    assert_eq!(remote.get("/x.part"), Some(&payload(landed)));
}

#[test]
fn finalize_download_overwrites_an_existing_target() {
    let mut local = Files::new();
    local.insert("/l/a.bin".to_string(), b"old".to_vec());
    let (result, _, _) = run_worker(
        job(TransferDirection::Download, None),
        b"new",
        stamp(3),
        &mut local,
        Trouble::Nothing,
    );
    assert_eq!(result, Ok(()));
    assert_eq!(local.get("/l/a.bin").unwrap(), b"new");
}

#[test]
fn finalize_download_moves_the_staged_file_into_place() {
    let mut local = Files::new();
    let (result, _, _) = run_worker(
        job(TransferDirection::Download, None),
        b"complete payload",
        stamp(16),
        &mut local,
        Trouble::Nothing,
    );
    assert_eq!(result, Ok(()));
    assert!(!local.contains_key("/l/a.bin.part"));
    assert_eq!(local.get("/l/a.bin").unwrap(), b"complete payload");
}

#[test]
fn a_changed_source_is_copied_from_the_beginning() {
    let data = payload(1000);
    let mut remote = Files::new();
    remote.insert("/r/a.bin.part".to_string(), vec![1u8; 400]);
    let (result, sent, start) = run_worker(
        job(TransferDirection::Upload, Some(stamp(999))),
        &data,
        stamp(1000),
        &mut remote,
        Trouble::Nothing,
    );
    assert_eq!(result, Ok(()));
    assert_eq!((sent, start), (1000, Some(0)));
    assert_eq!(remote.get("/r/a.bin"), Some(&data));
}

/// What the file system tells of a file of this machine.
async fn local_fingerprint(path: &str) -> Fingerprint {
    let data = tokio::fs::metadata(path).await.expect("the file is there");
    let modified = data
        .modified()
        .ok()
        .and_then(|t| t.duration_since(std::time::UNIX_EPOCH).ok())
        .map(|d| d.as_nanos() as i128);
    Fingerprint { len: data.len(), modified }
}

#[test]
fn the_local_fingerprint_is_a_usable_resume_basis_for_uploads() {
    let rt = tokio::runtime::Builder::new_current_thread().enable_all().build().unwrap();
    rt.block_on(async {
        let file = "/tmp/rterm_local_fingerprint_payload.bin";
        tokio::fs::write(file, b"0123456789").await.expect("the source can be written");
        let first = local_fingerprint(file).await;
        assert_eq!(first.len, 10);
        assert!(first.modified.is_some());
        assert_eq!(first, local_fingerprint(file).await);
        assert_eq!(resume_offset(Some(first), local_fingerprint(file).await, 4), 4);
        tokio::fs::write(file, b"01234567890").await.expect("the source can be changed");
        let replaced = local_fingerprint(file).await;
        assert_ne!(first, replaced);
        assert_eq!(resume_offset(Some(first), replaced, 4), 0);
        let _ = tokio::fs::remove_file(file).await;
    });
}

/// Removes a staging file; `regular` are the local paths that are regular files.
fn clean(job: Job, regular: &mut Vec<String>, stuck: bool) -> (Vec<String>, Option<String>) {
    let (mut cleaner, mut action) = Cleaner::begin(job);
    let mut removed: Vec<String> = Vec::new();
    loop {
        let done = match action {
            cleanup::Action::RemoveRemote(path) => {
                removed.push(path);
                true
            }
            cleanup::Action::StatLocal(path) => regular.contains(&path.shown()),
            cleanup::Action::RemoveLocal(path) => {
                let path = path.shown();
                if !stuck {
                    regular.retain(|p| *p != path);
                    removed.push(path);
                }
                !stuck
            }
            cleanup::Action::Wait(_) => true,
            cleanup::Action::Finish(left) => return (removed, left),
        };
        action = cleaner.next(done);
    }
}

#[test]
fn cleanup_removes_only_the_staged_download() {
    let mut files = vec!["/l/a.bin".to_string(), staging_path(&LocalPath::of("/l/a.bin")).shown()];
    let (removed, left) = clean(job(TransferDirection::Download, None), &mut files, false);
    assert_eq!(removed, vec!["/l/a.bin.part".to_string()]);
    assert_eq!(files, vec!["/l/a.bin".to_string()]);
    assert_eq!(left, None);
}

#[test]
fn cleanup_never_touches_a_directory_or_a_missing_file() {
    let mut files: Vec<String> = Vec::new();
    let (removed, left) = clean(job(TransferDirection::Download, None), &mut files, false);
    assert!(removed.is_empty());
    assert_eq!(left, None);
}

#[test]
fn cleanup_skips_the_remote_side_when_the_client_is_gone() {
    let mut gone = job(TransferDirection::Upload, None);
    gone.client = None;
    let (removed, left) = clean(gone, &mut Vec::new(), false);
    assert!(removed.is_empty());
    assert_eq!(left, None);
    let (removed, _) = clean(job(TransferDirection::Upload, None), &mut Vec::new(), false);
    assert_eq!(removed, vec![staging_remote("/r/a.bin")]);
}

#[test]
fn a_staging_file_that_stays_is_told() {
    let mut files = vec![staging_path(&LocalPath::of("/l/a.bin")).shown()];
    let (_, left) = clean(job(TransferDirection::Download, None), &mut files, true);
    assert_eq!(left, Some("/l/a.bin.part".to_string()));
}

#[test]
fn reports_come_at_intervals_and_at_the_end() {
    let mut meter = Meter::new(0);
    assert!(meter.report(0, 0, 100));
    assert!(!meter.report(1, 10, 100));
    assert!(meter.report(2, 100, 100));
}

#[test]
fn names_are_shown_without_their_directory() {
    assert_eq!(download_name("/r/dir/a.bin"), "a.bin");
    assert_eq!(download_name("a.bin"), "a.bin");
    assert_eq!(upload_name(&LocalPath::of("/l/x"), "/r/y"), "x");
    assert_eq!(upload_name(&LocalPath::of("/"), "/r/y"), "/r/y");
    assert_eq!(upload_name(&LocalPath::of("/l/.."), "/r/y"), "/r/y");
}

/// What a server that tells when files were changed tells of one of its files.
fn remote_fingerprint(files: &Files, path: &str) -> Result<Fingerprint, CoreError> {
    match files.get(path) {
        Some(content) => {
            Ok(Fingerprint { len: content.len() as u64, modified: Some(1_700_000_000_000_000_000) })
        }
        None => Err(Operation::Stat.failure(failure(StatusCode::NoSuchFile))),
    }
}

#[test]
fn a_remote_fingerprint_carries_size_and_modification_time() {
    let mut files = Files::new();
    files.insert("/src.bin".to_string(), vec![7u8; 120 * 1024]);
    let before = remote_fingerprint(&files, "/src.bin").expect("stat the remote file");
    assert_eq!(before.len, 120 * 1024);
    assert!(before.modified.is_some());
    assert_eq!(remote_fingerprint(&files, "/src.bin").expect("stat again"), before);
    let err = remote_fingerprint(&files, "/absent.bin")
        .expect_err("a missing file must not look like a zero-length one");
    assert!(matches!(err, CoreError::Sftp { kind: CoreErrorKind::RemoteMetadata, .. }));
}

#[test]
fn requests_on_a_dead_session_are_classified_as_session_gone() {
    let mut files = Files::new();
    let source = vec![7u8; 16 * 1024];
    let (outcome, seen) = run_copy(
        true,
        &source,
        &mut files,
        "/big.bin.part",
        ResumeAt::Start,
        Trouble::SessionDead,
    );
    let err = outcome.expect_err("uploading over a dead session must fail");
    assert_eq!(err.class(), ErrorClass::SessionGone);
    assert_eq!(seen.written, 0);
}

#[test]
fn an_unopenable_staging_file_leaves_the_users_final_name_alone() {
    let mut files = Files::new();
    let existing = vec![0xABu8; 20 * 1024];
    files.insert("/big.bin".to_string(), existing.clone());
    let source = vec![7u8; 500 * 1024];
    let (outcome, _) = run_copy(
        true,
        &source,
        &mut files,
        "/big.bin.part",
        ResumeAt::Start,
        Trouble::OpenFails,
    );
    let err = outcome.expect_err("the injected open failure should surface");
    assert!(matches!(err, CoreError::Sftp { kind: CoreErrorKind::CreateRemoteFile, .. }));
    assert_eq!(files.get("/big.bin"), Some(&existing));
    assert!(!files.contains_key("/big.bin.part"));
}

#[test]
fn a_stopped_worker_tells_that_the_transfer_was_given_up() {
    assert!(worker::outcome(Some(Ok(()))).is_ok());
    let gone = CoreError::sftp_msg(CoreErrorKind::SftpInit);
    let told = worker::outcome(Some(Err(Failure::from_core(&gone))));
    assert_eq!(told.unwrap_err().kind, Failure::from_core(&gone).kind);
    let stopped = worker::outcome(None).unwrap_err();
    assert_eq!(stopped.kind, FailureKind::Cancelled);
    assert_eq!(stopped.message.spell(), "app.canceled");
    assert!(!stopped.keep_staging);
}

#[test]
fn a_download_to_a_path_that_is_no_unicode_keeps_its_bytes() {
    let mut odd = job(TransferDirection::Download, None);
    odd.local = LocalPath::from_bytes(vec![b'/', b'l', b'/', 0xff]);
    let (_, action) = Cleaner::begin(odd);
    match action {
        cleanup::Action::StatLocal(path) => {
            assert_eq!(path.bytes(), &vec![b'/', b'l', b'/', 0xff, b'.', b'p', b'a', b'r', b't']);
            assert_eq!(path.shown(), "/l/\u{fffd}.part");
        }
        _ => panic!("the staging file is not looked at"),
    }
}
