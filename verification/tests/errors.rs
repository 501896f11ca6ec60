//! Errors: what they are, and what is said of them.

use rterm::error::{
    classify_message, localize_error, CoreError, CoreErrorKind, ErrorClass, IoKind, SftpFault,
    Source, StatusCode,
};

fn status_error(code: StatusCode) -> Source {
    Source::Sftp(SftpFault::Status(code), "status".to_string())
}

fn other(words: &str) -> Source {
    Source::Io(IoKind::Other, words.to_string())
}

#[test]
fn local_io_errors_split_by_kind() {
    let class = |kind| CoreError::Io(kind, "words".to_string()).class();
    assert_eq!(class(IoKind::TimedOut), ErrorClass::Transient);
    assert_eq!(class(IoKind::ConnectionReset), ErrorClass::Transient);
    assert_eq!(class(IoKind::NotFound), ErrorClass::Permanent);
    assert_eq!(class(IoKind::PermissionDenied), ErrorClass::Permanent);
}

#[test]
fn ssh_channel_failures_are_transient() {
    assert_eq!(CoreError::ssh_msg(CoreErrorKind::Connect).class(), ErrorClass::Transient);
    assert_eq!(
        CoreError::ssh_msg(CoreErrorKind::AuthPasswordRejected).class(),
        ErrorClass::Unknowable
    );
}

#[test]
fn structured_sftp_status_is_downcast_and_classified() {
    assert_eq!(
        CoreError::sftp(
            CoreErrorKind::OpenRemoteFile,
            status_error(StatusCode::PermissionDenied)
        )
        .class(),
        ErrorClass::Permanent
    );
    assert_eq!(
        CoreError::sftp(CoreErrorKind::ReadRemote, status_error(StatusCode::ConnectionLost))
            .class(),
        ErrorClass::Transient
    );
    assert_eq!(
        CoreError::sftp(CoreErrorKind::WriteRemote, status_error(StatusCode::Failure)).class(),
        ErrorClass::Transient
    );
}

#[test]
fn lossy_streaming_wrapped_errors_fall_back_to_text() {
    assert_eq!(
        CoreError::sftp(CoreErrorKind::WriteRemote, other("Permission denied: /root/secret"))
            .class(),
        ErrorClass::Permanent
    );
    assert_eq!(
        CoreError::sftp(CoreErrorKind::ReadRemote, other("Connection lost")).class(),
        ErrorClass::Transient
    );
}

#[test]
fn non_transfer_sftp_kinds_are_unknowable() {
    assert_eq!(
        CoreError::sftp(CoreErrorKind::ParsePath, other("bad path")).class(),
        ErrorClass::Unknowable
    );
    assert_eq!(CoreError::sftp_msg(CoreErrorKind::WriteRemote).class(), ErrorClass::Unknowable);
    assert_eq!(
        CoreError::sftp(CoreErrorKind::CreateDir, other("Permission denied")).class(),
        ErrorClass::Unknowable
    );
}

#[test]
fn words_are_judged_whatever_their_case() {
    assert_eq!(classify_message("PERMISSION DENIED"), ErrorClass::Permanent);
    assert_eq!(classify_message("the Session Closed"), ErrorClass::SessionGone);
    assert_eq!(classify_message("something odd"), ErrorClass::Unknowable);
}

#[test]
fn an_ended_session_is_told_from_a_passing_fault() {
    assert_eq!(
        CoreError::sftp(CoreErrorKind::ReadRemote, other("session closed")).class(),
        ErrorClass::SessionGone
    );
}

#[test]
fn an_error_is_said_as_an_entry_with_what_lies_behind() {
    let e = CoreError::ssh_msg(CoreErrorKind::AuthPasswordRejected);
    assert!(localize_error(&e).spell().starts_with("errors."));
    let with = CoreError::sftp(CoreErrorKind::ReadDir, other("boom"));
    assert!(localize_error(&with).spell().contains("boom"));
    assert!(with.to_words().contains("boom"));
    let io = CoreError::Io(IoKind::NotFound, "no such file".to_string());
    assert!(io.to_words().contains("no such file"));
}
