//! The scheduler of transfers.

use rterm::local_path::LocalPath;
use rterm::config::app_config::MIN_CONCURRENT;
use rterm::error::{CoreError, CoreErrorKind, IoKind, Source};
use rterm::i18n::{Text, ToastKind, Wording};
use rterm::sftp::Fingerprint;
use rterm::transfer::{
    backoff_delay, containing_folder, job_from, job_target, leaves_partial_on_disk, resume_offset,
    staging_path, staging_remote, write_target, Ctx, Event, Failure, FailureKind, Message,
    ResumeState, State, Transfer, TransferDirection, TransferStatus, UploadItem, WriteTarget,
    BASE_BACKOFF_MS, MAX_BACKOFF_MS, MAX_QUEUE,
};
use std::collections::HashMap;
use std::time::Duration;

/// A context in which no tab has a channel.
fn no_client_ctx(tab_id: u64) -> Ctx {
    Ctx {
        tab_id,
        client: None,
        clients: HashMap::new(),
        remote_dir: "/home/user".to_string(),
        max_concurrent: 3,
        retry_attempts: 2,
        now_ms: 10_000,
    }
}

/// Channels for these tabs.
fn channels(tabs: &[u64]) -> HashMap<u64, u64> {
    tabs.iter().map(|t| (*t, *t + 100)).collect()
}

fn make_transfer(tab_id: u64, id: u64, direction: TransferDirection) -> Transfer {
    Transfer {
        tab_id,
        id,
        direction,
        name: format!("f{id}.txt"),
        local: LocalPath::of(&format!("/tmp/f{id}.txt")),
        remote: format!("/home/user/f{id}.txt"),
        transferred: 0,
        total: 0,
        status: TransferStatus::Queued,
        attempts: 0,
        not_before: None,
        partial: None,
        error: None,
        speed_bits: 0,
        client: None,
        resume: None,
        keep_staging: false,
    }
}

/// A transfer that writes the same file as another.
fn same_target_as(tab_id: u64, id: u64, like: &Transfer) -> Transfer {
    let mut t = make_transfer(tab_id, id, like.direction);
    t.local = like.local.copied();
    t.remote = like.remote.clone();
    t
}

fn enqueue(s: &mut State, tab_id: u64, ids: &[u64]) {
    for &id in ids {
        s.restore(make_transfer(tab_id, id, TransferDirection::Upload), false);
    }
}

fn enqueue_with_status(s: &mut State, tab_id: u64, id: u64, status: TransferStatus) {
    let mut t = make_transfer(tab_id, id, TransferDirection::Upload);
    t.status = status;
    s.restore(t, false);
}

fn count_status(s: &State, status: TransferStatus) -> usize {
    s.all_transfers().iter().filter(|t| t.status == status).count()
}

fn status_of(s: &State, tid: u64) -> Option<TransferStatus> {
    s.find(tid).map(|t| t.status)
}

fn reason(t: &Transfer) -> Option<String> {
    t.error.as_ref().map(|e| e.spell())
}

fn started(jobs: &[rterm::transfer::Job]) -> Vec<u64> {
    jobs.iter().map(|j| j.tid).collect()
}

fn failure(kind: FailureKind) -> Failure {
    Failure { kind, message: Text::verbatim(format!("{kind:?}")), keep_staging: false }
}

fn cleanups(events: &[Event]) -> Vec<u64> {
    events
        .iter()
        .filter_map(|e| match e {
            Event::Cleanup(job) => Some(job.tid),
            _ => None,
        })
        .collect()
}

#[test]
fn new_state_has_no_transfers() {
    let s = State::new();
    assert!(s.all_transfers().is_empty());
    assert_eq!(s.running_len(), 0);
}

#[test]
fn upload_without_client_emits_error_toast_and_enqueues_nothing() {
    let mut s = State::new();
    let items = vec![UploadItem {
        local: LocalPath::of("/tmp/a.txt"),
        rel: "a.txt".to_string(),
    }];
    let events = s.update(Message::Upload(7, items), &no_client_ctx(7));
    assert_eq!(events.len(), 1);
    assert!(matches!(events[0], Event::Toast(ToastKind::Error, _)));
    assert!(s.all_transfers().is_empty());
}

#[test]
fn download_without_client_emits_error_toast_and_enqueues_nothing() {
    let mut s = State::new();
    let events = s.update(
        Message::Download(7, "a.txt".to_string(), LocalPath::of("/tmp/dl")),
        &no_client_ctx(7),
    );
    assert_eq!(events.len(), 1);
    assert!(matches!(events[0], Event::Toast(ToastKind::Error, _)));
    assert!(s.all_transfers().is_empty());
}

#[test]
fn cancel_marks_transfer_error_with_reason() {
    let mut s = State::new();
    s.restore(make_transfer(7, 1, TransferDirection::Upload), false);
    let _ = s.update(Message::CancelTransfer(1), &no_client_ctx(7));
    let t = s.find(1).unwrap();
    assert_eq!(t.status, TransferStatus::Error);
    assert_eq!(reason(t).as_deref(), Some("app.canceled"));
}

#[test]
fn retry_resets_failed_transfer_to_queued() {
    let mut s = State::new();
    s.restore(make_transfer(7, 1, TransferDirection::Upload), false);
    let _ = s.update(Message::CancelTransfer(1), &no_client_ctx(7));
    let _ = s.update(Message::RetryTransfer(1), &no_client_ctx(7));
    let t = s.find(1).unwrap();
    assert_eq!(t.status, TransferStatus::Queued);
    assert!(t.error.is_none());
    assert_eq!(t.transferred, 0);
}

#[test]
fn remove_deletes_transfer_from_queue() {
    let mut s = State::new();
    s.restore(make_transfer(7, 1, TransferDirection::Download), false);
    let _ = s.update(Message::RemoveTransfer(1), &no_client_ctx(7));
    assert!(s.all_transfers().iter().all(|t| t.tab_id != 7));
}

#[test]
fn containing_folder_returns_parent_directory() {
    let folder = |p: &str| containing_folder(&LocalPath::of(p));
    assert_eq!(folder("/home/user/dl/f.txt"), LocalPath::of("/home/user/dl"));
    assert_eq!(folder("/"), LocalPath::of("/"));
}

#[test]
fn folders_are_those_that_the_system_knows() {
    for p in ["/a/b", "/a//b/", "a/./b", "./a", "a", ".", "", "/a", "//", "../x", "/a/b/.", "a/..", "a//b/c", "./x/./y", "/./a"] {
        let path = std::path::Path::new(p);
        let expected = path.parent().unwrap_or(path).to_str().unwrap();
        let folder = containing_folder(&LocalPath::of(p));
        assert_eq!(folder.shown(), expected, "{p:?}");
    }
}

#[test]
fn names_are_those_that_the_system_knows() {
    for p in ["/a/b", "/a//b/", "b/.", "./a", "a", ".", "..", "/..", "", "/", "a/..", "a/../b", ".a"] {
        let expected = std::path::Path::new(p).file_name().map(|n| n.to_str().unwrap().to_string());
        assert_eq!(LocalPath::of(p).name(), expected, "{p:?}");
    }
}

#[test]
fn paths_are_the_same_where_the_system_says_so() {
    let all = ["/a/b", "/a//b", "/a/./b", "/a/b/", "/a/b/.", "a/b", "./a/b", "/a/../b", "", ".", "/"];
    for x in all {
        for y in all {
            let same = LocalPath::of(x) == LocalPath::of(y);
            assert_eq!(same, std::path::Path::new(x) == std::path::Path::new(y), "{x:?} {y:?}");
        }
    }
}

#[test]
fn one_file_under_two_spellings_has_one_writer() {
    let mut s = State::new();
    let first = make_transfer(7, 1, TransferDirection::Download);
    let mut second = make_transfer(9, 2, TransferDirection::Download);
    second.local = LocalPath::of("/tmp//./f1.txt");
    s.restore(first, false);
    s.restore(second, false);
    assert_eq!(started(&s.start_waiting(3, &channels(&[7, 9]))), vec![1]);
}

#[test]
fn progress_updates_transferred_total_and_speed() {
    let mut s = State::new();
    let mut t = make_transfer(7, 1, TransferDirection::Upload);
    t.status = TransferStatus::Active;
    s.restore(t, false);
    let speed: f64 = 12.5;
    let _ = s.update(Message::Progress(7, 1, 512, 1024, speed.to_bits()), &no_client_ctx(7));
    let t = s.find(1).unwrap();
    assert_eq!(t.transferred, 512);
    assert_eq!(t.total, 1024);
    assert_eq!(f64::from_bits(t.speed_bits), 12.5);
}

#[test]
fn upload_done_success_emits_refresh_dir() {
    let mut s = State::new();
    enqueue_with_status(&mut s, 7, 1, TransferStatus::Active);
    let events = s.update(Message::TransferDone(7, 1, Ok(())), &no_client_ctx(7));
    assert!(events.iter().any(|e| matches!(e, Event::RefreshDir(7))));
    assert_eq!(s.find(1).unwrap().status, TransferStatus::Done);
}

#[test]
fn download_done_success_does_not_emit_refresh_dir() {
    let mut s = State::new();
    let mut t = make_transfer(7, 1, TransferDirection::Download);
    t.status = TransferStatus::Active;
    s.restore(t, false);
    let events = s.update(Message::TransferDone(7, 1, Ok(())), &no_client_ctx(7));
    assert!(!events.iter().any(|e| matches!(e, Event::RefreshDir(_))));
    assert_eq!(s.find(1).unwrap().status, TransferStatus::Done);
}

#[test]
fn transfer_done_error_marks_failure_and_keeps_error() {
    let mut s = State::new();
    enqueue_with_status(&mut s, 7, 1, TransferStatus::Active);
    let failed = Failure {
        kind: FailureKind::Permanent,
        message: Text::verbatim("磁盘满".to_string()),
        keep_staging: false,
    };
    let events = s.update(Message::TransferDone(7, 1, Err(failed)), &no_client_ctx(7));
    assert!(!events.iter().any(|e| matches!(e, Event::RefreshDir(_))));
    let t = s.find(1).unwrap();
    assert_eq!(t.status, TransferStatus::Error);
    assert_eq!(reason(t).as_deref(), Some("磁盘满"));
}

#[test]
fn admit_starts_up_to_limit_and_leaves_rest_queued() {
    let mut s = State::new();
    enqueue(&mut s, 7, &[1, 2, 3, 4, 5]);
    let jobs = s.start_waiting(3, &channels(&[7]));
    assert_eq!(started(&jobs), vec![1, 2, 3]);
    assert_eq!(count_status(&s, TransferStatus::Active), 3);
    assert_eq!(count_status(&s, TransferStatus::Queued), 2);
    assert_eq!(s.running_len(), 3);
}

#[test]
fn finishing_a_transfer_frees_a_slot_for_the_next_queued() {
    let mut s = State::new();
    enqueue(&mut s, 7, &[1, 2, 3, 4]);
    s.start_waiting(3, &channels(&[7]));
    let _ = s.update(Message::TransferDone(7, 1, Ok(())), &no_client_ctx(7));
    assert_eq!(s.running_len(), 2);
    let jobs = s.start_waiting(3, &channels(&[7]));
    assert_eq!(started(&jobs), vec![4]);
    assert_eq!(s.running_len(), 3);
    assert_eq!(status_of(&s, 4), Some(TransferStatus::Active));
}

#[test]
fn raising_the_limit_backfills_immediately() {
    let mut s = State::new();
    enqueue(&mut s, 7, &[1, 2, 3, 4, 5]);
    s.start_waiting(3, &channels(&[7]));
    assert_eq!(s.running_len(), 3);
    let jobs = s.start_waiting(5, &channels(&[7]));
    assert_eq!(started(&jobs), vec![4, 5]);
    assert_eq!(s.running_len(), 5);
    assert_eq!(count_status(&s, TransferStatus::Queued), 0);
}

#[test]
fn lowering_the_limit_does_not_interrupt_running_transfers() {
    let mut s = State::new();
    enqueue(&mut s, 7, &[1, 2, 3, 4, 5]);
    s.start_waiting(5, &channels(&[7]));
    assert_eq!(s.running_len(), 5);
    let jobs = s.start_waiting(2, &channels(&[7]));
    assert!(jobs.is_empty());
    assert_eq!(count_status(&s, TransferStatus::Active), 5);
    for tid in [1, 2, 3] {
        let _ = s.update(Message::TransferDone(7, tid, Ok(())), &no_client_ctx(7));
    }
    assert_eq!(s.running_len(), 2);
}

#[test]
fn admitted_transfers_follow_global_fifo_across_tabs() {
    let mut s = State::new();
    s.restore(make_transfer(7, 1, TransferDirection::Upload), false);
    s.restore(make_transfer(9, 2, TransferDirection::Download), false);
    s.restore(make_transfer(7, 3, TransferDirection::Upload), false);
    s.restore(make_transfer(9, 4, TransferDirection::Download), false);
    let jobs = s.start_waiting(2, &channels(&[7, 9]));
    assert_eq!(started(&jobs), vec![1, 2]);
    assert_eq!(jobs[0].tab_id, 7);
    assert_eq!(jobs[1].tab_id, 9);
}

#[test]
fn unstartable_transfer_is_skipped_without_blocking_others() {
    let mut s = State::new();
    s.restore(make_transfer(7, 1, TransferDirection::Upload), false);
    for id in [2, 3] {
        let mut t = make_transfer(7, id, TransferDirection::Upload);
        t.client = Some(5);
        s.restore(t, false);
    }
    let jobs = s.start_waiting(3, &HashMap::new());
    assert_eq!(started(&jobs), vec![2, 3]);
    assert_eq!(status_of(&s, 1), Some(TransferStatus::Queued));
    assert_eq!(s.running_len(), 2);
}

#[test]
fn limit_is_clamped_to_the_supported_range() {
    let mut s = State::new();
    enqueue(&mut s, 7, &[1, 2, 3]);
    let _ = s.start_waiting(0, &channels(&[7]));
    assert_eq!(s.running_len(), MIN_CONCURRENT);
    let jobs = s.start_waiting(usize::MAX, &channels(&[7]));
    assert_eq!(s.running_len(), 3);
    assert_eq!(jobs.len(), 2);
}

#[test]
fn cancel_releases_the_slot_exactly_once() {
    let mut s = State::new();
    enqueue(&mut s, 7, &[1]);
    s.start_waiting(3, &channels(&[7]));
    assert_eq!(s.running_len(), 1);
    let _ = s.update(Message::CancelTransfer(1), &no_client_ctx(7));
    assert_eq!(s.running_len(), 1);
    assert_eq!(status_of(&s, 1), Some(TransferStatus::Active));
    let cancelled = Failure::cancelled(Text::verbatim("canceled".to_string()));
    let _ = s.update(Message::TransferDone(7, 1, Err(cancelled)), &no_client_ctx(7));
    assert_eq!(s.running_len(), 0);
    assert_eq!(status_of(&s, 1), Some(TransferStatus::Error));
}

#[test]
fn late_result_does_not_clobber_a_manual_retry() {
    let mut s = State::new();
    let mut t = make_transfer(7, 1, TransferDirection::Upload);
    t.status = TransferStatus::Active;
    s.restore(t, true);
    let _ = s.update(Message::CancelTransfer(1), &no_client_ctx(7));
    let _ = s.update(Message::RetryTransfer(1), &no_client_ctx(7));
    assert_eq!(status_of(&s, 1), Some(TransferStatus::Queued));
    assert_eq!(s.running_len(), 1);
    let cancelled = Failure::cancelled(Text::verbatim("canceled".to_string()));
    let _ = s.update(Message::TransferDone(7, 1, Err(cancelled)), &no_client_ctx(7));
    assert_eq!(status_of(&s, 1), Some(TransferStatus::Queued));
    assert_eq!(s.running_len(), 0);
    let jobs = s.start_waiting(3, &channels(&[7]));
    assert_eq!(started(&jobs), vec![1]);
}

#[test]
fn retry_waits_for_the_old_worker_to_release_its_slot() {
    let mut s = State::new();
    enqueue(&mut s, 7, &[1, 2]);
    s.start_waiting(1, &channels(&[7]));
    assert_eq!(s.running_len(), 1);
    let _ = s.update(Message::RetryTransfer(2), &no_client_ctx(7));
    assert_eq!(status_of(&s, 2), Some(TransferStatus::Queued));
    assert_eq!(count_status(&s, TransferStatus::Active), 1);
}

#[test]
fn a_transfer_put_back_keeps_its_file_until_its_worker_ends() {
    let mut s = State::new();
    let first = make_transfer(7, 1, TransferDirection::Download);
    let second = same_target_as(7, 2, &first);
    s.restore(first, false);
    s.restore(second, false);
    assert_eq!(started(&s.start_waiting(3, &channels(&[7]))), vec![1]);
    let _ = s.update(Message::RetryTransfer(1), &no_client_ctx(7));
    assert_eq!(status_of(&s, 1), Some(TransferStatus::Queued));
    assert!(s.start_waiting(3, &channels(&[7])).is_empty());
    assert!(s.is_running(1));
    assert_eq!(s.running_len(), 1);
    let events = s.update(Message::TransferDone(7, 1, Ok(())), &no_client_ctx(7));
    assert!(matches!(&events[..], [Event::Start(job)] if job.tid == 1));
    assert_eq!(status_of(&s, 2), Some(TransferStatus::Queued));
    assert_eq!(s.running_len(), 1);
}

#[test]
fn a_transfer_put_back_stays_on_the_list_until_its_worker_ends() {
    let mut s = State::new();
    enqueue(&mut s, 7, &[1]);
    s.start_waiting(3, &channels(&[7]));
    let _ = s.update(Message::RetryTransfer(1), &no_client_ctx(7));
    let events = s.update(Message::RemoveTransfer(1), &no_client_ctx(7));
    assert!(events.is_empty());
    assert!(s.find(1).is_some() && s.is_running(1));
    let _ = s.update(Message::TransferDone(7, 1, Ok(())), &no_client_ctx(7));
    assert_eq!(status_of(&s, 1), Some(TransferStatus::Active));
    let _ = s.update(Message::TransferDone(7, 1, Ok(())), &no_client_ctx(7));
    let _ = s.update(Message::RemoveTransfer(1), &no_client_ctx(7));
    assert!(s.find(1).is_none());
    assert_eq!(s.running_len(), 0);
}

#[test]
fn a_file_is_not_removed_under_a_worker_whose_transfer_was_put_back() {
    let mut s = State::new();
    let first = make_transfer(7, 1, TransferDirection::Download);
    let mut failed = same_target_as(7, 2, &first);
    failed.status = TransferStatus::Error;
    s.restore(first, false);
    s.restore(failed, false);
    assert_eq!(started(&s.start_waiting(3, &channels(&[7]))), vec![1]);
    let _ = s.update(Message::RetryTransfer(1), &no_client_ctx(7));
    let events = s.update(Message::RemoveTransfer(2), &no_client_ctx(7));
    assert!(s.find(2).is_none());
    assert!(cleanups(&events).is_empty());
}

#[test]
fn removing_a_running_transfer_is_refused() {
    let mut s = State::new();
    enqueue(&mut s, 7, &[1]);
    s.start_waiting(3, &channels(&[7]));
    let _ = s.update(Message::RemoveTransfer(1), &no_client_ctx(7));
    assert!(status_of(&s, 1).is_some());
    assert_eq!(s.running_len(), 1);
}

#[test]
fn tab_closed_clears_its_queue_and_reclaims_slots() {
    let mut s = State::new();
    enqueue(&mut s, 7, &[1, 2]);
    enqueue(&mut s, 9, &[3]);
    s.start_waiting(3, &channels(&[7, 9]));
    assert_eq!(s.running_len(), 3);
    let _ = s.update(Message::TabClosed(7), &no_client_ctx(7));
    assert!(s.all_transfers().iter().all(|t| t.tab_id != 7));
    assert!(!s.is_running(1) && !s.is_running(2));
    assert_eq!(s.running_len(), 1);
    assert_eq!(status_of(&s, 3), Some(TransferStatus::Active));
}

#[test]
fn clearing_a_closed_tab_does_not_resurrect_a_queued_transfer() {
    let mut s = State::new();
    enqueue(&mut s, 7, &[1]);
    let _ = s.update(Message::TabClosed(7), &no_client_ctx(7));
    let _ = s.update(Message::TransferDone(7, 1, Ok(())), &no_client_ctx(7));
    assert!(s.all_transfers().is_empty());
    assert_eq!(s.running_len(), 0);
}

#[test]
fn queue_capacity_is_bounded() {
    let mut s = State::new();
    let ids: Vec<u64> = (1..=MAX_QUEUE as u64).collect();
    enqueue(&mut s, 7, &ids);
    assert!(!s.has_queue_capacity(7));
    assert!(s.has_queue_capacity(9));
}

#[test]
fn backoff_grows_exponentially_and_is_capped() {
    let delay = |n: u32| Duration::from_millis(backoff_delay(n));
    let base = Duration::from_millis(BASE_BACKOFF_MS);
    let max = Duration::from_millis(MAX_BACKOFF_MS);
    assert_eq!(base, Duration::from_millis(1500));
    assert_eq!(max, Duration::from_secs(8));
    assert_eq!(delay(0), base);
    assert_eq!(delay(1), Duration::from_secs(3));
    assert_eq!(delay(2), Duration::from_secs(6));
    assert_eq!(delay(3), max);
    assert_eq!(delay(4), max);
    assert_eq!(delay(u32::MAX), max);
}

#[test]
fn transient_failure_schedules_a_retry_instead_of_failing() {
    let mut s = State::new();
    enqueue_with_status(&mut s, 7, 1, TransferStatus::Active);
    let ctx = no_client_ctx(7);
    let _ = s.update(Message::TransferDone(7, 1, Err(failure(FailureKind::Transient))), &ctx);
    let t = s.find(1).unwrap();
    assert_eq!(t.status, TransferStatus::WaitingRetry);
    assert_eq!(t.attempts, 1);
    let left = t.not_before.unwrap() - ctx.now_ms;
    assert!((BASE_BACKOFF_MS..MAX_BACKOFF_MS).contains(&left));
    assert_eq!(s.running_len(), 0);
}

#[test]
fn unknown_failure_is_also_retried() {
    let mut s = State::new();
    enqueue_with_status(&mut s, 7, 1, TransferStatus::Active);
    let _ = s.update(
        Message::TransferDone(7, 1, Err(failure(FailureKind::Unknown))),
        &no_client_ctx(7),
    );
    assert_eq!(status_of(&s, 1), Some(TransferStatus::WaitingRetry));
}

#[test]
fn permanent_and_cancelled_failures_are_never_retried() {
    for kind in [FailureKind::Permanent, FailureKind::Cancelled, FailureKind::SessionGone] {
        let mut s = State::new();
        enqueue_with_status(&mut s, 7, 1, TransferStatus::Active);
        let _ = s.update(Message::TransferDone(7, 1, Err(failure(kind))), &no_client_ctx(7));
        let t = s.find(1).unwrap();
        assert_eq!(t.status, TransferStatus::Error, "{kind:?}");
        assert_eq!(t.attempts, 0, "{kind:?}");
        assert!(t.not_before.is_none(), "{kind:?}");
    }
}

fn session_closed(kind: CoreErrorKind) -> CoreError {
    CoreError::Sftp {
        kind,
        source: Some(Source::Io(IoKind::Other, "session closed".to_string())),
    }
}

#[test]
fn a_dead_session_is_classified_as_such_and_explained_instead_of_echoed() {
    let f = Failure::from_core(&session_closed(CoreErrorKind::ReadRemote));
    assert_eq!(f.kind, FailureKind::SessionGone);
    assert!(!f.kind.is_retryable());
    assert!(!f.message.spell().contains("session closed"));
    assert!(!f.message.spell().is_empty());
}

#[test]
fn a_scenario_prefix_still_applies_to_a_dead_session() {
    let f = Failure::core_prefixed(
        Wording::Verbatim("创建远端目录失败".to_string()),
        &session_closed(CoreErrorKind::CreateDir),
    );
    assert_eq!(f.kind, FailureKind::SessionGone);
    assert!(f.message.spell().starts_with("创建远端目录失败"));
    assert!(!f.message.spell().contains("session closed"));
}

#[test]
fn zero_retry_budget_disables_automatic_retry() {
    let mut s = State::new();
    enqueue_with_status(&mut s, 7, 1, TransferStatus::Active);
    let mut ctx = no_client_ctx(7);
    ctx.retry_attempts = 0;
    let _ = s.update(Message::TransferDone(7, 1, Err(failure(FailureKind::Transient))), &ctx);
    assert_eq!(status_of(&s, 1), Some(TransferStatus::Error));
}

#[test]
fn auto_retry_stops_once_the_budget_is_exhausted() {
    let mut s = State::new();
    let mut t = make_transfer(7, 1, TransferDirection::Upload);
    t.status = TransferStatus::Active;
    t.attempts = 2;
    s.restore(t, false);
    let _ = s.update(
        Message::TransferDone(7, 1, Err(failure(FailureKind::Transient))),
        &no_client_ctx(7),
    );
    let t = s.find(1).unwrap();
    assert_eq!(t.status, TransferStatus::Error);
    assert_eq!(t.attempts, 2);
    assert!(t.not_before.is_none());
}

#[test]
fn retry_budget_is_read_per_failure_from_the_context() {
    let mut s = State::new();
    let mut t = make_transfer(7, 1, TransferDirection::Upload);
    t.status = TransferStatus::Active;
    t.attempts = 2;
    s.restore(t, false);
    let mut ctx = no_client_ctx(7);
    ctx.retry_attempts = 3;
    let _ = s.update(Message::TransferDone(7, 1, Err(failure(FailureKind::Transient))), &ctx);
    let t = s.find(1).unwrap();
    assert_eq!(t.status, TransferStatus::WaitingRetry);
    assert_eq!(t.attempts, 3);
    assert_eq!(Duration::from_millis(backoff_delay(2)), Duration::from_secs(6));
    assert_eq!(t.not_before, Some(ctx.now_ms + 6000));
}

#[test]
fn waiting_retry_does_not_block_the_queue() {
    let mut s = State::new();
    enqueue_with_status(&mut s, 7, 1, TransferStatus::WaitingRetry);
    enqueue_with_status(&mut s, 7, 2, TransferStatus::Queued);
    let jobs = s.start_waiting(1, &channels(&[7]));
    assert_eq!(started(&jobs), vec![2]);
    assert_eq!(status_of(&s, 1), Some(TransferStatus::WaitingRetry));
}

#[test]
fn a_transient_failure_comes_back_as_retry_due_and_is_promoted() {
    let mut s = State::new();
    enqueue_with_status(&mut s, 7, 1, TransferStatus::Active);
    let events = s.update(
        Message::TransferDone(7, 1, Err(failure(FailureKind::Transient))),
        &no_client_ctx(7),
    );
    let due = events.iter().find_map(|e| match e {
        Event::RetryTimer { delay, tid } => Some((*delay, *tid)),
        _ => None,
    });
    assert_eq!(due, Some((BASE_BACKOFF_MS, 1)));
    let _ = s.update(Message::RetryDue(1), &no_client_ctx(7));
    let t = s.find(1).unwrap();
    assert_eq!(t.status, TransferStatus::Queued);
    assert!(t.not_before.is_none());
    assert_eq!(t.transferred, 0);
    assert_eq!(reason(t).as_deref(), Some("Transient"));
}

#[test]
fn the_first_byte_ends_the_retry_state_and_drops_the_failure_reason() {
    let mut s = State::new();
    let mut t = make_transfer(7, 1, TransferDirection::Download);
    t.status = TransferStatus::Active;
    t.attempts = 1;
    t.error = Some(Text::verbatim("连接已断开".to_string()));
    s.restore(t, false);
    let _ = s.update(Message::Progress(7, 1, 0, 4096, 0f64.to_bits()), &no_client_ctx(7));
    let t = s.find(1).unwrap();
    assert_eq!(t.transferred, 0);
    assert_eq!(reason(t).as_deref(), Some("连接已断开"));
    let _ = s.update(Message::Progress(7, 1, 65536, 4096, 1f64.to_bits()), &no_client_ctx(7));
    let t = s.find(1).unwrap();
    assert_eq!(t.transferred, 65536);
    assert!(t.error.is_none());
}

#[test]
fn a_late_progress_never_wipes_the_reason_of_a_failed_row() {
    let mut s = State::new();
    let mut t = make_transfer(7, 1, TransferDirection::Download);
    t.status = TransferStatus::Error;
    t.error = Some(Text::verbatim("权限不足".to_string()));
    s.restore(t, false);
    let _ = s.update(Message::Progress(7, 1, 512, 4096, 1f64.to_bits()), &no_client_ctx(7));
    assert_eq!(reason(s.find(1).unwrap()).as_deref(), Some("权限不足"));
}

#[test]
fn retry_due_is_ignored_when_the_row_is_no_longer_waiting() {
    let mut s = State::new();
    let mut t = make_transfer(7, 1, TransferDirection::Upload);
    t.status = TransferStatus::WaitingRetry;
    t.attempts = 1;
    t.not_before = Some(10_000);
    s.restore(t, false);
    let _ = s.update(Message::CancelTransfer(1), &no_client_ctx(7));
    assert_eq!(status_of(&s, 1), Some(TransferStatus::Error));
    let _ = s.update(Message::RetryDue(1), &no_client_ctx(7));
    assert_eq!(status_of(&s, 1), Some(TransferStatus::Error));
    let _ = s.update(Message::RemoveTransfer(1), &no_client_ctx(7));
    assert!(s.find(1).is_none());
    let _ = s.update(Message::RetryDue(1), &no_client_ctx(7));
    assert!(s.all_transfers().is_empty());
}

#[test]
fn a_retry_falls_due_at_any_time() {
    let mut s = State::new();
    enqueue_with_status(&mut s, 7, 1, TransferStatus::WaitingRetry);
    enqueue_with_status(&mut s, 7, 2, TransferStatus::Error);
    let late = Ctx { now_ms: u64::MAX, ..no_client_ctx(7) };
    let _ = s.update(Message::RetryDue(2), &late);
    assert_eq!(status_of(&s, 2), Some(TransferStatus::Error));
    let _ = s.update(Message::RetryDue(1), &late);
    assert_eq!(status_of(&s, 1), Some(TransferStatus::Queued));
}

#[test]
fn retry_due_after_tab_closed_is_a_no_op() {
    let mut s = State::new();
    enqueue_with_status(&mut s, 7, 1, TransferStatus::WaitingRetry);
    let _ = s.update(Message::TabClosed(7), &no_client_ctx(7));
    let _ = s.update(Message::RetryDue(1), &no_client_ctx(7));
    assert!(s.all_transfers().is_empty());
    assert_eq!(s.running_len(), 0);
}

#[test]
fn manual_retry_resets_the_automatic_retry_counter() {
    let mut s = State::new();
    let mut t = make_transfer(7, 1, TransferDirection::Upload);
    t.status = TransferStatus::WaitingRetry;
    t.attempts = 2;
    t.not_before = Some(10_000);
    s.restore(t, false);
    let _ = s.update(Message::RetryTransfer(1), &no_client_ctx(7));
    let t = s.find(1).unwrap();
    assert_eq!(t.status, TransferStatus::Queued);
    assert_eq!(t.attempts, 0);
    assert!(t.not_before.is_none());
}

#[test]
fn cancel_operates_on_a_row_of_any_tab() {
    let mut s = State::new();
    enqueue_with_status(&mut s, 9, 1, TransferStatus::Queued);
    let _ = s.update(Message::CancelTransfer(1), &no_client_ctx(7));
    assert_eq!(status_of(&s, 1), Some(TransferStatus::Error));
}

#[test]
fn cancelling_a_settled_transfer_leaves_it_untouched() {
    let mut s = State::new();
    enqueue_with_status(&mut s, 7, 1, TransferStatus::Done);
    let mut t = make_transfer(7, 2, TransferDirection::Upload);
    t.status = TransferStatus::Error;
    t.error = Some(Text::verbatim("磁盘满".to_string()));
    s.restore(t, false);
    let _ = s.update(Message::CancelTransfer(1), &no_client_ctx(7));
    let _ = s.update(Message::CancelTransfer(2), &no_client_ctx(7));
    assert_eq!(status_of(&s, 1), Some(TransferStatus::Done));
    assert_eq!(status_of(&s, 2), Some(TransferStatus::Error));
    assert_eq!(reason(s.find(2).unwrap()).as_deref(), Some("磁盘满"));
}

#[test]
fn cancelling_a_queued_transfer_does_not_trigger_cleanup() {
    let mut s = State::new();
    enqueue_with_status(&mut s, 7, 1, TransferStatus::Queued);
    let events = s.update(Message::CancelTransfer(1), &no_client_ctx(7));
    assert_eq!(status_of(&s, 1), Some(TransferStatus::Error));
    assert!(cleanups(&events).is_empty());
}

#[test]
fn cancelling_a_transfer_awaiting_retry_triggers_cleanup() {
    let mut s = State::new();
    let mut t = make_transfer(7, 1, TransferDirection::Download);
    t.status = TransferStatus::WaitingRetry;
    t.not_before = Some(10_000);
    s.restore(t, false);
    let events = s.update(Message::CancelTransfer(1), &no_client_ctx(7));
    assert_eq!(cleanups(&events), vec![1]);
    assert_eq!(status_of(&s, 1), Some(TransferStatus::Error));
}

#[test]
fn removing_a_transfer_awaiting_retry_triggers_cleanup() {
    let mut s = State::new();
    let mut t = make_transfer(7, 1, TransferDirection::Download);
    t.status = TransferStatus::WaitingRetry;
    s.restore(t, false);
    let events = s.update(Message::RemoveTransfer(1), &no_client_ctx(7));
    assert!(s.find(1).is_none());
    assert_eq!(cleanups(&events), vec![1]);
}

#[test]
fn cleanup_done_records_the_path_only_when_it_failed() {
    let mut s = State::new();
    enqueue_with_status(&mut s, 7, 1, TransferStatus::Error);
    let _ = s.update(
        Message::CleanupDone(1, Some("/tmp/half.bin".to_string())),
        &no_client_ctx(7),
    );
    assert_eq!(s.find(1).unwrap().partial.as_deref(), Some("/tmp/half.bin"));
    let _ = s.update(Message::CleanupDone(1, None), &no_client_ctx(7));
    assert!(s.find(1).unwrap().partial.is_none());
    let _ = s.update(Message::CleanupDone(99, Some("/tmp/x".to_string())), &no_client_ctx(7));
    assert_eq!(s.all_transfers().len(), 1);
}

#[test]
fn a_final_failure_starts_a_cleanup() {
    let mut s = State::new();
    enqueue_with_status(&mut s, 7, 1, TransferStatus::Active);
    let events = s.update(
        Message::TransferDone(7, 1, Err(failure(FailureKind::Cancelled))),
        &no_client_ctx(7),
    );
    assert_eq!(cleanups(&events), vec![1]);
}

#[test]
fn a_failed_row_keeps_its_partial_on_both_sides() {
    let mut s = State::new();
    enqueue_with_status(&mut s, 7, 1, TransferStatus::Active);
    let mut dl = make_transfer(7, 2, TransferDirection::Download);
    dl.status = TransferStatus::Active;
    s.restore(dl, false);
    for tid in [2, 1] {
        let events = s.update(
            Message::TransferDone(7, tid, Err(failure(FailureKind::SessionGone))),
            &no_client_ctx(7),
        );
        assert_eq!(status_of(&s, tid), Some(TransferStatus::Error));
        assert!(cleanups(&events).is_empty());
    }
}

#[test]
fn a_cancelled_upload_cleans_up_the_remote_staging() {
    let mut s = State::new();
    enqueue_with_status(&mut s, 7, 1, TransferStatus::Active);
    let events = s.update(
        Message::TransferDone(7, 1, Err(failure(FailureKind::Cancelled))),
        &no_client_ctx(7),
    );
    assert_eq!(status_of(&s, 1), Some(TransferStatus::Error));
    assert_eq!(cleanups(&events), vec![1]);
}

#[test]
fn cancelling_a_download_still_cleans_up() {
    let mut s = State::new();
    let mut dl = make_transfer(7, 1, TransferDirection::Download);
    dl.status = TransferStatus::Active;
    s.restore(dl, false);
    let events = s.update(
        Message::TransferDone(7, 1, Err(failure(FailureKind::Cancelled))),
        &no_client_ctx(7),
    );
    assert_eq!(status_of(&s, 1), Some(TransferStatus::Error));
    assert_eq!(cleanups(&events), vec![1]);
}

#[test]
fn a_failed_rename_marks_the_row_so_its_data_is_never_cleaned_up() {
    let mut s = State::new();
    let mut t = make_transfer(7, 1, TransferDirection::Download);
    t.status = TransferStatus::Active;
    s.restore(t, false);
    let failed = Failure {
        kind: FailureKind::Permanent,
        message: Text::verbatim("rename failed".to_string()),
        keep_staging: true,
    };
    let events = s.update(Message::TransferDone(7, 1, Err(failed)), &no_client_ctx(7));
    assert!(s.find(1).unwrap().keep_staging);
    assert!(cleanups(&events).is_empty());
}

#[test]
fn leaves_partial_on_disk_covers_exactly_the_states_that_own_a_file() {
    let dl = |status| {
        let mut t = make_transfer(7, 1, TransferDirection::Download);
        t.status = status;
        t
    };
    assert!(leaves_partial_on_disk(&dl(TransferStatus::Active)));
    assert!(leaves_partial_on_disk(&dl(TransferStatus::WaitingRetry)));
    assert!(leaves_partial_on_disk(&dl(TransferStatus::Error)));
    assert!(!leaves_partial_on_disk(&dl(TransferStatus::Queued)));
    assert!(!leaves_partial_on_disk(&dl(TransferStatus::Done)));
    let mut up = make_transfer(7, 1, TransferDirection::Upload);
    up.status = TransferStatus::Error;
    assert!(leaves_partial_on_disk(&up));
    let mut up_waiting = make_transfer(7, 1, TransferDirection::Upload);
    up_waiting.status = TransferStatus::WaitingRetry;
    assert!(leaves_partial_on_disk(&up_waiting));
    let mut keep = dl(TransferStatus::Error);
    keep.keep_staging = true;
    assert!(!leaves_partial_on_disk(&keep));
    let mut keep_waiting = dl(TransferStatus::WaitingRetry);
    keep_waiting.keep_staging = true;
    assert!(!leaves_partial_on_disk(&keep_waiting));
}

#[test]
fn removing_a_failed_download_cleans_up_its_staging() {
    let mut s = State::new();
    let mut failed = make_transfer(7, 1, TransferDirection::Download);
    failed.status = TransferStatus::Error;
    s.restore(failed, false);
    let events = s.update(Message::RemoveTransfer(1), &no_client_ctx(7));
    assert!(s.find(1).is_none());
    assert_eq!(cleanups(&events), vec![1]);
}

#[test]
fn removing_a_failed_row_keeps_the_staging_of_a_live_row_on_the_same_target() {
    let mut s = State::new();
    let mut failed = make_transfer(7, 1, TransferDirection::Download);
    failed.status = TransferStatus::Error;
    let running = same_target_as(7, 2, &failed);
    s.restore(failed, false);
    s.restore(running, false);
    s.start_waiting(3, &channels(&[7]));
    assert_eq!(status_of(&s, 2), Some(TransferStatus::Active));
    let events = s.update(Message::RemoveTransfer(1), &no_client_ctx(7));
    assert!(s.find(1).is_none());
    assert!(cleanups(&events).is_empty());
}

#[test]
fn two_rows_writing_the_same_target_never_run_together() {
    let mut s = State::new();
    let first = make_transfer(7, 1, TransferDirection::Download);
    let second = same_target_as(7, 2, &first);
    s.restore(first, false);
    s.restore(second, false);
    s.restore(make_transfer(7, 3, TransferDirection::Download), false);
    let jobs = s.start_waiting(3, &channels(&[7]));
    assert_eq!(started(&jobs), vec![1, 3]);
    assert_eq!(status_of(&s, 2), Some(TransferStatus::Queued));
}

#[test]
fn a_queued_row_starts_once_the_conflicting_worker_is_done() {
    let mut s = State::new();
    let first = make_transfer(7, 1, TransferDirection::Download);
    let second = same_target_as(7, 2, &first);
    s.restore(first, false);
    s.restore(second, false);
    s.start_waiting(3, &channels(&[7]));
    assert_eq!(status_of(&s, 2), Some(TransferStatus::Queued));
    let _ = s.update(Message::TransferDone(7, 1, Ok(())), &no_client_ctx(7));
    let jobs = s.start_waiting(3, &channels(&[7]));
    assert_eq!(started(&jobs), vec![2]);
}

#[test]
fn retry_keeps_the_known_total_and_the_progress_reading() {
    let mut s = State::new();
    let mut t = make_transfer(7, 1, TransferDirection::Download);
    t.status = TransferStatus::Active;
    t.transferred = 400;
    t.total = 1000;
    t.speed_bits = 1234f64.to_bits();
    s.restore(t, false);
    let _ = s.update(
        Message::TransferDone(7, 1, Err(failure(FailureKind::Transient))),
        &no_client_ctx(7),
    );
    let t = s.find(1).unwrap();
    assert_eq!(t.status, TransferStatus::WaitingRetry);
    assert_eq!((t.transferred, t.total), (400, 1000));
    let _ = s.update(Message::RetryDue(1), &no_client_ctx(7));
    let t = s.find(1).unwrap();
    assert_eq!((t.transferred, t.total), (400, 1000));
    assert_eq!(f64::from_bits(t.speed_bits), 0.0);
}

#[test]
fn attempt_started_records_the_breakpoint_and_corrects_the_reading() {
    let mut s = State::new();
    let mut t = make_transfer(7, 1, TransferDirection::Download);
    t.status = TransferStatus::Active;
    t.transferred = 400;
    t.total = 1000;
    s.restore(t, false);
    let source = Fingerprint { len: 1000, modified: None };
    let _ = s.update(
        Message::AttemptStarted { tab_id: 7, tid: 1, source, offset: 400 },
        &no_client_ctx(7),
    );
    let t = s.find(1).unwrap();
    assert_eq!(t.transferred, 400);
    assert_eq!(t.resume, Some(ResumeState { source, offset: 400 }));
    let other = Fingerprint { len: 2000, modified: None };
    let _ = s.update(
        Message::AttemptStarted { tab_id: 7, tid: 1, source: other, offset: 0 },
        &no_client_ctx(7),
    );
    let t = s.find(1).unwrap();
    assert_eq!(t.transferred, 0);
    assert_eq!(t.resume.map(|r| r.source), Some(other));
}

#[test]
fn a_late_attempt_started_does_not_clobber_a_state_the_user_just_changed() {
    let mut s = State::new();
    let mut t = make_transfer(7, 1, TransferDirection::Download);
    t.status = TransferStatus::Error;
    s.restore(t, false);
    let source = Fingerprint { len: 1000, modified: None };
    let _ = s.update(
        Message::AttemptStarted { tab_id: 7, tid: 1, source, offset: 400 },
        &no_client_ctx(7),
    );
    let t = s.find(1).unwrap();
    assert!(t.resume.is_none());
    assert_eq!(t.transferred, 0);
}

#[test]
fn resume_offset_restarts_unless_the_source_is_unchanged_and_the_partial_fits() {
    let now = Fingerprint { len: 1000, modified: None };
    assert_eq!(resume_offset(None, now, 400), 0);
    assert_eq!(resume_offset(Some(now), now, 400), 400);
    assert_eq!(resume_offset(Some(now), now, 1000), 1000);
    assert_eq!(resume_offset(Some(now), now, 1200), 0);
    let longer = Fingerprint { len: 2000, modified: None };
    assert_eq!(resume_offset(Some(now), longer, 400), 0);
    let touched = Fingerprint { len: 1000, modified: Some(0) };
    assert_eq!(resume_offset(Some(now), touched, 400), 0);
    let unknown = Fingerprint { len: 0, modified: None };
    assert_eq!(resume_offset(Some(unknown), unknown, 0), 0);
    assert_eq!(resume_offset(Some(unknown), unknown, 400), 0);
}

#[test]
fn staging_path_appends_a_suffix_without_dropping_extensions() {
    let staged = |p: &str| staging_path(&LocalPath::of(p));
    assert_eq!(staged("/tmp/archive.tar.gz"), LocalPath::of("/tmp/archive.tar.gz.part"));
    assert_eq!(staged("/tmp/no_ext"), LocalPath::of("/tmp/no_ext.part"));
}

#[test]
fn staging_remote_appends_the_same_suffix_as_the_local_side() {
    assert_eq!(staging_remote("/home/user/archive.tar.gz"), "/home/user/archive.tar.gz.part");
    assert_eq!(staging_remote("/home/user/no_ext"), "/home/user/no_ext.part");
}

#[test]
fn upload_writes_and_cleans_its_staging_never_the_final_name() {
    let up = make_transfer(7, 1, TransferDirection::Upload);
    let remote = up.remote.clone();
    assert_eq!(write_target(&up), WriteTarget::Remote(7, staging_remote(&remote)));
    assert_eq!(job_target(&job_from(&up)), WriteTarget::Remote(7, staging_remote(&remote)));
    assert_ne!(job_target(&job_from(&up)), WriteTarget::Remote(7, remote));
}

#[test]
fn two_uploads_to_the_same_remote_path_never_run_together() {
    let mut s = State::new();
    let first = make_transfer(7, 1, TransferDirection::Upload);
    let second = same_target_as(7, 2, &first);
    let other_tab = same_target_as(8, 3, &first);
    s.restore(first, false);
    s.restore(second, false);
    s.restore(other_tab, false);
    let jobs = s.start_waiting(3, &channels(&[7, 8]));
    assert_eq!(started(&jobs), vec![1, 3]);
}

#[test]
fn a_download_that_failed_to_rename_keeps_its_staged_file() {
    let mut s = State::new();
    enqueue_with_status(&mut s, 7, 1, TransferStatus::Active);
    let failed = Failure {
        kind: FailureKind::Permanent,
        message: Text::verbatim("rename failed: /tmp/f.bin.part".to_string()),
        keep_staging: true,
    };
    let events = s.update(Message::TransferDone(7, 1, Err(failed)), &no_client_ctx(7));
    assert_eq!(status_of(&s, 1), Some(TransferStatus::Error));
    assert!(reason(s.find(1).unwrap()).unwrap().contains(".part"));
    assert!(cleanups(&events).is_empty());
}

#[test]
fn tab_close_cleans_up_rows_that_left_files_behind() {
    let mut s = State::new();
    let mut running = make_transfer(7, 1, TransferDirection::Upload);
    running.status = TransferStatus::Active;
    s.restore(running, true);
    enqueue_with_status(&mut s, 7, 2, TransferStatus::WaitingRetry);
    enqueue_with_status(&mut s, 7, 3, TransferStatus::Queued);
    enqueue_with_status(&mut s, 7, 4, TransferStatus::Done);
    enqueue_with_status(&mut s, 7, 5, TransferStatus::Error);
    let events = s.update(Message::TabClosed(7), &no_client_ctx(7));
    assert_eq!(cleanups(&events), vec![1, 2, 5]);
    assert!(s.all_transfers().is_empty());
    assert_eq!(s.running_len(), 0);
}

#[test]
fn cleanup_failure_for_a_vanished_row_falls_back_to_a_toast() {
    let mut s = State::new();
    let events = s.update(
        Message::CleanupDone(4242, Some("/tmp/left.part".to_string())),
        &no_client_ctx(7),
    );
    assert!(events.iter().any(|e| matches!(
        e,
        Event::Toast(ToastKind::Error, msg) if msg.spell().contains("/tmp/left.part")
    )));
}

#[test]
fn uploads_are_queued_in_order_and_started_at_once() {
    let mut s = State::new();
    let mut ctx = no_client_ctx(7);
    ctx.client = Some(107);
    ctx.clients = channels(&[7]);
    ctx.max_concurrent = 2;
    let items = ["a", "b", "c"]
        .iter()
        .map(|n| UploadItem {
            local: LocalPath::of(&format!("/src/{n}")),
            rel: format!("dir/{n}"),
        })
        .collect();
    let events = s.update(Message::Upload(7, items), &ctx);
    let jobs: Vec<(u64, String)> = events
        .iter()
        .filter_map(|e| match e {
            Event::Start(j) => Some((j.tid, j.remote.clone())),
            _ => None,
        })
        .collect();
    assert_eq!(
        jobs,
        vec![(1, "/home/user/dir/a".to_string()), (2, "/home/user/dir/b".to_string())]
    );
    assert_eq!(s.find(3).unwrap().status, TransferStatus::Queued);
    assert_eq!(s.find(3).unwrap().name, "c");
}

#[test]
fn a_worker_is_stopped_only_once_it_can_be() {
    let mut s = State::new();
    enqueue(&mut s, 7, &[1]);
    s.start_waiting(3, &channels(&[7]));
    let _ = s.update(Message::TransferHandle(1), &no_client_ctx(7));
    let events = s.update(Message::CancelTransfer(1), &no_client_ctx(7));
    assert!(events.iter().any(|e| matches!(e, Event::Abort(1))));
}

#[test]
fn a_full_queue_turns_uploads_away() {
    let mut s = State::new();
    let ids: Vec<u64> = (1..=MAX_QUEUE as u64).collect();
    enqueue(&mut s, 7, &ids);
    let mut ctx = no_client_ctx(7);
    ctx.client = Some(107);
    let items = vec![UploadItem {
        local: LocalPath::of("/src/x"),
        rel: "x".to_string(),
    }];
    let events = s.update(Message::Upload(7, items), &ctx);
    assert!(events.iter().any(|e| matches!(e, Event::Toast(_, _))));
    assert_eq!(s.all_transfers().len(), MAX_QUEUE);
}

#[test]
fn the_folder_of_a_file_is_shown() {
    let mut s = State::new();
    let events = s.update(
        Message::OpenContainingFolder(LocalPath::of("/a/b.txt")),
        &no_client_ctx(7),
    );
    assert!(matches!(&events[..], [Event::OpenFolder(p)] if *p == LocalPath::of("/a")));
}

#[test]
fn each_tab_has_its_own_channel() {
    let mut ctx = no_client_ctx(7);
    ctx.clients = channels(&[7, 8]);
    assert_eq!(ctx.client_for(7), Some(107));
    assert_eq!(ctx.client_for(8), Some(108));
    assert_eq!(ctx.client_for(9), None);
}
