//! Looking for a newer version.

use rterm::updates::{should_check, Ctx, Event, Message, ReleaseInfo, State, THROTTLE_SECS};
use std::time::{SystemTime, UNIX_EPOCH};

fn now_unix() -> i64 {
    SystemTime::now().duration_since(UNIX_EPOCH).map(|d| d.as_secs() as i64).unwrap_or(0)
}

fn ctx() -> Ctx {
    Ctx { auto_check: false, last_check_unix: None, now_unix: now_unix() }
}

fn release() -> ReleaseInfo {
    ReleaseInfo {
        version: "9.9.9".to_string(),
        html_url: "https://example.com/release".to_string(),
    }
}

#[test]
fn startup_check_is_throttled_or_disabled() {
    let mut s = State::new();
    let events = s.update(Message::CheckOnStartup, &ctx());
    assert!(events.is_empty());
    let now = now_unix();
    let events = s.update(
        Message::CheckOnStartup,
        &Ctx { auto_check: true, last_check_unix: Some(now), now_unix: now },
    );
    assert!(events.is_empty());
}

#[test]
fn throttle_window_is_24h() {
    let now = now_unix();
    assert!(should_check(None, now));
    assert!(!should_check(Some(now), now));
    assert!(should_check(Some(now - THROTTLE_SECS - 1), now));
    assert_eq!(THROTTLE_SECS, 24 * 60 * 60);
    assert!(should_check(Some(now - THROTTLE_SECS), now));
    assert!(!should_check(Some(now - THROTTLE_SECS + 1), now));
}

#[test]
fn found_release_sets_banner_and_writes_timestamp() {
    let mut s = State::new();
    let events = s.update(Message::CheckResult(Ok(Some(release()))), &ctx());
    assert_eq!(s.banner.as_ref().map(|(v, _)| v.as_str()), Some("9.9.9"));
    assert!(matches!(events.as_slice(), [Event::SetLastCheck(Some(_))]));
}

#[test]
fn no_release_or_error_keeps_throttle_window_open() {
    let mut s = State::new();
    s.banner = Some(("9.9.9".to_string(), "https://example.com".to_string()));
    let events = s.update(Message::CheckResult(Ok(None)), &ctx());
    assert!(events.is_empty());
    assert!(s.banner.is_none());
    s.banner = Some(("9.9.9".to_string(), "https://example.com".to_string()));
    let events = s.update(Message::CheckResult(Err("网络不可用".into())), &ctx());
    assert!(events.is_empty());
    assert!(s.banner.is_some());
}

#[test]
fn dismiss_clears_banner_only() {
    let mut s = State::new();
    let _ = s.update(Message::CheckResult(Ok(Some(release()))), &ctx());
    let _ = s.update(Message::DismissBanner, &ctx());
    assert!(s.banner.is_none());
}

#[test]
fn a_due_start_writes_the_time_and_looks() {
    let mut s = State::new();
    let events = s.update(
        Message::CheckOnStartup,
        &Ctx { auto_check: true, last_check_unix: None, now_unix: 77 },
    );
    assert!(matches!(events.as_slice(), [Event::SetLastCheck(Some(77)), Event::Check]));
    let events = s.update(Message::CheckNow, &ctx());
    assert!(matches!(events.as_slice(), [Event::Check]));
    let events = s.update(Message::OpenReleasePage("u".to_string()), &ctx());
    assert!(matches!(events.as_slice(), [Event::OpenPage(u)] if u == "u"));
}
