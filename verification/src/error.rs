//! What can go wrong between this machine and the server, and whether trying again can help.

use crate::i18n;
use crate::i18n::Wording;
use crate::text;
use vstd::prelude::*;

verus! {

/// What was being done when it failed.
#[derive(Debug, Clone, Copy, PartialEq, Eq, Structural)]
pub enum CoreErrorKind {
    /// The connection could not be made.
    Connect,
    /// No password is at hand.
    MissingPassword,
    /// The password could not be offered.
    AuthPasswordRequest,
    /// The server refused the password.
    AuthPasswordRejected,
    /// The private key could not be read.
    ReadKey,
    /// The private key could not be decrypted.
    DecryptKey,
    /// The key could not be offered.
    AuthPublicKeyRequest,
    /// The server refused the key.
    AuthPublicKeyRejected,
    /// The key agent could not be reached.
    AgentConnect,
    /// The key agent could not be reached, on Windows.
    AgentConnectPageant,
    /// The key agent did not tell its keys.
    AgentIdentities,
    /// No key of the agent was accepted.
    AgentAuthFailed,
    /// A channel could not be opened.
    ChannelOpen,
    /// A terminal could not be requested.
    RequestPty,
    /// The shell could not be started.
    StartShell,
    /// A channel for files could not be opened.
    SftpChannelOpen,
    /// The server's file service could not be requested.
    SftpSubsystem,
    /// The server's file service did not start.
    SftpInit,
    /// There is no cache directory.
    CacheDirUnknown,
    /// The cache directory could not be created.
    CreateCacheDir,
    /// The known hosts could not be written.
    WriteKnownHosts,
    /// A remote path could not be resolved.
    ParsePath,
    /// A directory could not be read.
    ReadDir,
    /// A directory could not be created.
    CreateDir,
    /// A file could not be removed.
    DeleteFile,
    /// A directory could not be removed.
    DeleteDir,
    /// A file could not be renamed.
    Rename,
    /// A remote file's size and time could not be read.
    RemoteMetadata,
    /// A remote file could not be created.
    CreateRemoteFile,
    /// A remote file could not be written.
    WriteRemote,
    /// A remote file could not be closed.
    CloseRemoteFile,
    /// A remote file could not be opened.
    OpenRemoteFile,
    /// A remote file could not be read.
    ReadRemote,
}

/// What kind of local failure it was.
#[derive(Debug, Clone, Copy, PartialEq, Eq, Structural)]
pub enum IoKind {
    /// It took too long.
    TimedOut,
    /// It would have had to wait.
    WouldBlock,
    /// It was interrupted.
    Interrupted,
    /// The other side reset the connection.
    ConnectionReset,
    /// The connection was aborted.
    ConnectionAborted,
    /// The other side is gone.
    BrokenPipe,
    /// The data ended too early.
    UnexpectedEof,
    /// There is no such file.
    NotFound,
    /// It is not allowed.
    PermissionDenied,
    /// It is there already.
    AlreadyExists,
    /// The disk is full.
    StorageFull,
    /// Anything else.
    Other,
}

/// How a file server answers a request.
#[derive(Debug, Clone, Copy, PartialEq, Eq, Structural)]
pub enum StatusCode {
    /// Done.
    Completed,
    /// The end of the file.
    Eof,
    /// There is no such file.
    NoSuchFile,
    /// It is not allowed.
    PermissionDenied,
    /// It failed.
    Failure,
    /// The request was not understood.
    BadMessage,
    /// There is no connection.
    NoConnection,
    /// The connection was lost.
    ConnectionLost,
    /// The server cannot do that.
    OpUnsupported,
}

/// What the file client reports.
#[derive(Debug)]
pub enum SftpFault {
    /// The server's answer.
    Status(StatusCode),
    /// The connection failed.
    Io,
    /// No answer came in time.
    Timeout,
    /// A limit of the server was passed.
    Limited,
    /// An answer of the wrong kind came.
    UnexpectedPacket,
    /// Something else, in words.
    UnexpectedBehavior(String),
}

/// What lies behind an error.
#[derive(Debug)]
pub enum Source {
    /// The file client's report, and the same in words.
    Sftp(SftpFault, String),
    /// A local failure, and the same in words.
    Io(IoKind, String),
    /// Something else, in words.
    Other(String),
}

/// What went wrong.
#[derive(Debug)]
pub enum CoreError {
    /// A local failure, and the same in words.
    Io(IoKind, String),
    /// The connection failed.
    Ssh {
        /// What was being done.
        kind: CoreErrorKind,
        /// What lies behind it.
        source: Option<Source>,
    },
    /// A file operation failed.
    Sftp {
        /// What was being done.
        kind: CoreErrorKind,
        /// What lies behind it.
        source: Option<Source>,
    },
}

/// Whether trying again can help.
#[derive(Debug, Clone, Copy, PartialEq, Eq, Structural)]
pub enum ErrorClass {
    /// Something passing: it can.
    Transient,
    /// Something that stays: it cannot.
    Permanent,
    /// The session has ended: only a new one can.
    SessionGone,
    /// Not known.
    Unknowable,
}

/// Whether a local failure passes.
pub open spec fn io_class(kind: IoKind) -> ErrorClass {
    match kind {
        IoKind::TimedOut
        | IoKind::WouldBlock
        | IoKind::Interrupted
        | IoKind::ConnectionReset
        | IoKind::ConnectionAborted
        | IoKind::BrokenPipe
        | IoKind::UnexpectedEof => ErrorClass::Transient,
        IoKind::NotFound
        | IoKind::PermissionDenied
        | IoKind::AlreadyExists
        | IoKind::StorageFull => ErrorClass::Permanent,
        IoKind::Other => ErrorClass::Unknowable,
    }
}

/// Whether a server's refusal passes.
pub open spec fn status_class(code: StatusCode) -> ErrorClass {
    match code {
        StatusCode::PermissionDenied
        | StatusCode::NoSuchFile
        | StatusCode::OpUnsupported => ErrorClass::Permanent,
        StatusCode::Failure
        | StatusCode::NoConnection
        | StatusCode::ConnectionLost => ErrorClass::Transient,
        StatusCode::Completed | StatusCode::Eof | StatusCode::BadMessage => ErrorClass::Unknowable,
    }
}

/// Whether words speak of the end of the session.
pub open spec fn says_gone(lower: Seq<char>) -> bool {
    text::found_in(lower, "session closed"@)
}

/// Whether words speak of something that stays.
pub open spec fn says_permanent(lower: Seq<char>) -> bool {
    ||| text::found_in(lower, "permission denied"@)
    ||| text::found_in(lower, "no such file"@)
    ||| text::found_in(lower, "operation unsupported"@)
    ||| text::found_in(lower, "not a directory"@)
    ||| text::found_in(lower, "is a directory"@)
}

/// Whether words speak of something passing.
pub open spec fn says_transient(lower: Seq<char>) -> bool {
    ||| text::found_in(lower, "timeout"@)
    ||| text::found_in(lower, "timed out"@)
    ||| text::found_in(lower, "connection"@)
    ||| text::found_in(lower, "broken pipe"@)
    ||| text::found_in(lower, "limit exceeded"@)
    ||| text::found_in(lower, "unexpected eof"@)
}

/// What an error's words tell, whatever the case of their letters.
pub open spec fn message_class(words: Seq<char>) -> ErrorClass {
    let lower = text::ascii_lower(words);
    if says_gone(lower) {
        ErrorClass::SessionGone
    } else if says_permanent(lower) {
        ErrorClass::Permanent
    } else if says_transient(lower) {
        ErrorClass::Transient
    } else {
        ErrorClass::Unknowable
    }
}

/// What the file client's report tells.
pub open spec fn fault_class(fault: SftpFault) -> ErrorClass {
    match fault {
        SftpFault::Status(code) => status_class(code),
        SftpFault::Timeout
        | SftpFault::Io
        | SftpFault::Limited
        | SftpFault::UnexpectedPacket => ErrorClass::Transient,
        SftpFault::UnexpectedBehavior(words) => message_class(words@),
    }
}

/// What lies behind a remote error tells: the report itself, else the kind of failure, else the
/// words.
pub open spec fn source_class(source: Option<Source>) -> ErrorClass {
    match source {
        None => ErrorClass::Unknowable,
        Some(Source::Sftp(fault, _)) => fault_class(fault),
        Some(Source::Io(kind, words)) => if io_class(kind) != ErrorClass::Unknowable {
            io_class(kind)
        } else {
            message_class(words@)
        },
        Some(Source::Other(words)) => message_class(words@),
    }
}

/// Whether it was a step of reading or writing a remote file.
pub open spec fn moves_data(kind: CoreErrorKind) -> bool {
    kind == CoreErrorKind::ReadRemote || kind == CoreErrorKind::WriteRemote || kind
        == CoreErrorKind::OpenRemoteFile || kind == CoreErrorKind::CreateRemoteFile || kind
        == CoreErrorKind::CloseRemoteFile
}

/// Whether it was a step of opening a connection or a channel.
pub open spec fn opens_channel(kind: CoreErrorKind) -> bool {
    kind == CoreErrorKind::Connect || kind == CoreErrorKind::ChannelOpen || kind
        == CoreErrorKind::SftpChannelOpen || kind == CoreErrorKind::SftpSubsystem || kind
        == CoreErrorKind::SftpInit
}

/// Whether trying again can help. A file operation that moves no data is not repeated by itself;
/// that the session has ended is told of every file operation.
pub open spec fn class_of(e: CoreError) -> ErrorClass {
    match e {
        CoreError::Io(kind, _) => io_class(kind),
        CoreError::Ssh { kind, .. } => if opens_channel(kind) {
            ErrorClass::Transient
        } else {
            ErrorClass::Unknowable
        },
        CoreError::Sftp { kind, source } => if moves_data(kind) || source_class(source)
            == ErrorClass::SessionGone {
            source_class(source)
        } else {
            ErrorClass::Unknowable
        },
    }
}

fn classify_io_kind(kind: IoKind) -> (r: ErrorClass)
    ensures
        r == io_class(kind),
{
    match kind {
        IoKind::TimedOut
        | IoKind::WouldBlock
        | IoKind::Interrupted
        | IoKind::ConnectionReset
        | IoKind::ConnectionAborted
        | IoKind::BrokenPipe
        | IoKind::UnexpectedEof => ErrorClass::Transient,
        IoKind::NotFound
        | IoKind::PermissionDenied
        | IoKind::AlreadyExists
        | IoKind::StorageFull => ErrorClass::Permanent,
        IoKind::Other => ErrorClass::Unknowable,
    }
}

fn classify_status_code(code: StatusCode) -> (r: ErrorClass)
    ensures
        r == status_class(code),
{
    match code {
        StatusCode::PermissionDenied
        | StatusCode::NoSuchFile
        | StatusCode::OpUnsupported => ErrorClass::Permanent,
        StatusCode::Failure
        | StatusCode::NoConnection
        | StatusCode::ConnectionLost => ErrorClass::Transient,
        StatusCode::Completed | StatusCode::Eof | StatusCode::BadMessage => ErrorClass::Unknowable,
    }
}

/// What an error's words tell.
pub fn classify_message(msg: &str) -> (r: ErrorClass)
    ensures
        r == message_class(msg@),
{
    let lower = text::to_ascii_lower(msg);
    if text::contains(&lower, "session closed") {
        return ErrorClass::SessionGone;
    }
    if text::contains(&lower, "permission denied") || text::contains(&lower, "no such file")
        || text::contains(&lower, "operation unsupported") || text::contains(
        &lower,
        "not a directory",
    ) || text::contains(&lower, "is a directory") {
        return ErrorClass::Permanent;
    }
    if text::contains(&lower, "timeout") || text::contains(&lower, "timed out") || text::contains(
        &lower,
        "connection",
    ) || text::contains(&lower, "broken pipe") || text::contains(&lower, "limit exceeded")
        || text::contains(&lower, "unexpected eof") {
        return ErrorClass::Transient;
    }
    ErrorClass::Unknowable
}

fn classify_sftp_error(fault: &SftpFault) -> (r: ErrorClass)
    ensures
        r == fault_class(*fault),
{
    match fault {
        SftpFault::Status(code) => classify_status_code(*code),
        SftpFault::Timeout
        | SftpFault::Io
        | SftpFault::Limited
        | SftpFault::UnexpectedPacket => ErrorClass::Transient,
        SftpFault::UnexpectedBehavior(words) => classify_message(words),
    }
}

fn classify_remote(source: &Option<Source>) -> (r: ErrorClass)
    ensures
        r == source_class(*source),
{
    match source {
        None => ErrorClass::Unknowable,
        Some(Source::Sftp(fault, _)) => classify_sftp_error(fault),
        Some(Source::Io(kind, words)) => {
            let by_kind = classify_io_kind(*kind);
            if by_kind != ErrorClass::Unknowable {
                by_kind
            } else {
                classify_message(words)
            }
        },
        Some(Source::Other(words)) => classify_message(words),
    }
}

impl Source {
    /// The words of what lies behind an error.
    pub open spec fn words(self) -> Seq<char> {
        match self {
            Source::Sftp(_, words) => words@,
            Source::Io(_, words) => words@,
            Source::Other(words) => words@,
        }
    }

    /// The words of what lies behind an error.
    pub fn to_words(&self) -> (r: String)
        ensures
            r@ == self.words(),
    {
        match self {
            Source::Sftp(_, words) => words.clone(),
            Source::Io(_, words) => words.clone(),
            Source::Other(words) => words.clone(),
        }
    }
}

impl CoreErrorKind {
    /// The name, as it appears in logs.
    pub open spec fn name_spec(self) -> Seq<char> {
        match self {
            CoreErrorKind::Connect => "Connect"@,
            CoreErrorKind::MissingPassword => "MissingPassword"@,
            CoreErrorKind::AuthPasswordRequest => "AuthPasswordRequest"@,
            CoreErrorKind::AuthPasswordRejected => "AuthPasswordRejected"@,
            CoreErrorKind::ReadKey => "ReadKey"@,
            CoreErrorKind::DecryptKey => "DecryptKey"@,
            CoreErrorKind::AuthPublicKeyRequest => "AuthPublicKeyRequest"@,
            CoreErrorKind::AuthPublicKeyRejected => "AuthPublicKeyRejected"@,
            CoreErrorKind::AgentConnect => "AgentConnect"@,
            CoreErrorKind::AgentConnectPageant => "AgentConnectPageant"@,
            CoreErrorKind::AgentIdentities => "AgentIdentities"@,
            CoreErrorKind::AgentAuthFailed => "AgentAuthFailed"@,
            CoreErrorKind::ChannelOpen => "ChannelOpen"@,
            CoreErrorKind::RequestPty => "RequestPty"@,
            CoreErrorKind::StartShell => "StartShell"@,
            CoreErrorKind::SftpChannelOpen => "SftpChannelOpen"@,
            CoreErrorKind::SftpSubsystem => "SftpSubsystem"@,
            CoreErrorKind::SftpInit => "SftpInit"@,
            CoreErrorKind::CacheDirUnknown => "CacheDirUnknown"@,
            CoreErrorKind::CreateCacheDir => "CreateCacheDir"@,
            CoreErrorKind::WriteKnownHosts => "WriteKnownHosts"@,
            CoreErrorKind::ParsePath => "ParsePath"@,
            CoreErrorKind::ReadDir => "ReadDir"@,
            CoreErrorKind::CreateDir => "CreateDir"@,
            CoreErrorKind::DeleteFile => "DeleteFile"@,
            CoreErrorKind::DeleteDir => "DeleteDir"@,
            CoreErrorKind::Rename => "Rename"@,
            CoreErrorKind::RemoteMetadata => "RemoteMetadata"@,
            CoreErrorKind::CreateRemoteFile => "CreateRemoteFile"@,
            CoreErrorKind::WriteRemote => "WriteRemote"@,
            CoreErrorKind::CloseRemoteFile => "CloseRemoteFile"@,
            CoreErrorKind::OpenRemoteFile => "OpenRemoteFile"@,
            CoreErrorKind::ReadRemote => "ReadRemote"@,
        }
    }

    /// The name, as it appears in logs.
    pub fn name(self) -> (r: &'static str)
        ensures
            r@ == self.name_spec(),
    {
        match self {
            CoreErrorKind::Connect => "Connect",
            CoreErrorKind::MissingPassword => "MissingPassword",
            CoreErrorKind::AuthPasswordRequest => "AuthPasswordRequest",
            CoreErrorKind::AuthPasswordRejected => "AuthPasswordRejected",
            CoreErrorKind::ReadKey => "ReadKey",
            CoreErrorKind::DecryptKey => "DecryptKey",
            CoreErrorKind::AuthPublicKeyRequest => "AuthPublicKeyRequest",
            CoreErrorKind::AuthPublicKeyRejected => "AuthPublicKeyRejected",
            CoreErrorKind::AgentConnect => "AgentConnect",
            CoreErrorKind::AgentConnectPageant => "AgentConnectPageant",
            CoreErrorKind::AgentIdentities => "AgentIdentities",
            CoreErrorKind::AgentAuthFailed => "AgentAuthFailed",
            CoreErrorKind::ChannelOpen => "ChannelOpen",
            CoreErrorKind::RequestPty => "RequestPty",
            CoreErrorKind::StartShell => "StartShell",
            CoreErrorKind::SftpChannelOpen => "SftpChannelOpen",
            CoreErrorKind::SftpSubsystem => "SftpSubsystem",
            CoreErrorKind::SftpInit => "SftpInit",
            CoreErrorKind::CacheDirUnknown => "CacheDirUnknown",
            CoreErrorKind::CreateCacheDir => "CreateCacheDir",
            CoreErrorKind::WriteKnownHosts => "WriteKnownHosts",
            CoreErrorKind::ParsePath => "ParsePath",
            CoreErrorKind::ReadDir => "ReadDir",
            CoreErrorKind::CreateDir => "CreateDir",
            CoreErrorKind::DeleteFile => "DeleteFile",
            CoreErrorKind::DeleteDir => "DeleteDir",
            CoreErrorKind::Rename => "Rename",
            CoreErrorKind::RemoteMetadata => "RemoteMetadata",
            CoreErrorKind::CreateRemoteFile => "CreateRemoteFile",
            CoreErrorKind::WriteRemote => "WriteRemote",
            CoreErrorKind::CloseRemoteFile => "CloseRemoteFile",
            CoreErrorKind::OpenRemoteFile => "OpenRemoteFile",
            CoreErrorKind::ReadRemote => "ReadRemote",
        }
    }

    /// The entry of the message catalogue, and whether it has a place for what lies behind.
    pub open spec fn entry_spec(self) -> (Seq<char>, bool) {
        match self {
            CoreErrorKind::Connect => ("errors.ssh_connect"@, true),
            CoreErrorKind::MissingPassword => ("errors.ssh_missing_password"@, false),
            CoreErrorKind::AuthPasswordRequest => ("errors.ssh_auth_password_request"@, true),
            CoreErrorKind::AuthPasswordRejected => ("errors.ssh_auth_password_rejected"@, false),
            CoreErrorKind::ReadKey => ("errors.ssh_read_key"@, true),
            CoreErrorKind::DecryptKey => ("errors.ssh_decrypt_key"@, true),
            CoreErrorKind::AuthPublicKeyRequest => ("errors.ssh_auth_pubkey_request"@, true),
            CoreErrorKind::AuthPublicKeyRejected => ("errors.ssh_auth_pubkey_rejected"@, false),
            CoreErrorKind::AgentConnect => ("errors.ssh_agent_connect"@, true),
            CoreErrorKind::AgentConnectPageant => ("errors.ssh_agent_connect_pageant"@, true),
            CoreErrorKind::AgentIdentities => ("errors.ssh_agent_identities"@, true),
            CoreErrorKind::AgentAuthFailed => ("errors.ssh_agent_auth_failed"@, false),
            CoreErrorKind::ChannelOpen => ("errors.ssh_channel_open"@, true),
            CoreErrorKind::RequestPty => ("errors.ssh_request_pty"@, true),
            CoreErrorKind::StartShell => ("errors.ssh_start_shell"@, true),
            CoreErrorKind::SftpChannelOpen => ("errors.ssh_sftp_channel_open"@, true),
            CoreErrorKind::SftpSubsystem => ("errors.ssh_sftp_subsystem"@, true),
            CoreErrorKind::SftpInit => ("errors.ssh_sftp_init"@, true),
            CoreErrorKind::CacheDirUnknown => ("errors.ssh_cache_dir_unknown"@, false),
            CoreErrorKind::CreateCacheDir => ("errors.ssh_create_cache_dir"@, true),
            CoreErrorKind::WriteKnownHosts => ("errors.ssh_write_known_hosts"@, true),
            CoreErrorKind::ParsePath => ("errors.sftp_parse_path"@, true),
            CoreErrorKind::ReadDir => ("errors.sftp_read_dir"@, true),
            CoreErrorKind::CreateDir => ("errors.sftp_create_dir"@, true),
            CoreErrorKind::DeleteFile => ("errors.sftp_delete_file"@, true),
            CoreErrorKind::DeleteDir => ("errors.sftp_delete_dir"@, true),
            CoreErrorKind::Rename => ("errors.sftp_rename"@, true),
            CoreErrorKind::RemoteMetadata => ("errors.sftp_remote_metadata"@, true),
            CoreErrorKind::CreateRemoteFile => ("errors.sftp_create_remote_file"@, true),
            CoreErrorKind::WriteRemote => ("errors.sftp_write_remote"@, true),
            CoreErrorKind::CloseRemoteFile => ("errors.sftp_close_remote_file"@, true),
            CoreErrorKind::OpenRemoteFile => ("errors.sftp_open_remote_file"@, true),
            CoreErrorKind::ReadRemote => ("errors.sftp_read_remote"@, true),
        }
    }

    /// The entry of the message catalogue, and whether it has a place for what lies behind.
    pub fn entry(self) -> (r: (&'static str, bool))
        ensures
            (r.0@, r.1) == self.entry_spec(),
    {
        match self {
            CoreErrorKind::Connect => ("errors.ssh_connect", true),
            CoreErrorKind::MissingPassword => ("errors.ssh_missing_password", false),
            CoreErrorKind::AuthPasswordRequest => ("errors.ssh_auth_password_request", true),
            CoreErrorKind::AuthPasswordRejected => ("errors.ssh_auth_password_rejected", false),
            CoreErrorKind::ReadKey => ("errors.ssh_read_key", true),
            CoreErrorKind::DecryptKey => ("errors.ssh_decrypt_key", true),
            CoreErrorKind::AuthPublicKeyRequest => ("errors.ssh_auth_pubkey_request", true),
            CoreErrorKind::AuthPublicKeyRejected => ("errors.ssh_auth_pubkey_rejected", false),
            CoreErrorKind::AgentConnect => ("errors.ssh_agent_connect", true),
            CoreErrorKind::AgentConnectPageant => ("errors.ssh_agent_connect_pageant", true),
            CoreErrorKind::AgentIdentities => ("errors.ssh_agent_identities", true),
            CoreErrorKind::AgentAuthFailed => ("errors.ssh_agent_auth_failed", false),
            CoreErrorKind::ChannelOpen => ("errors.ssh_channel_open", true),
            CoreErrorKind::RequestPty => ("errors.ssh_request_pty", true),
            CoreErrorKind::StartShell => ("errors.ssh_start_shell", true),
            CoreErrorKind::SftpChannelOpen => ("errors.ssh_sftp_channel_open", true),
            CoreErrorKind::SftpSubsystem => ("errors.ssh_sftp_subsystem", true),
            CoreErrorKind::SftpInit => ("errors.ssh_sftp_init", true),
            CoreErrorKind::CacheDirUnknown => ("errors.ssh_cache_dir_unknown", false),
            CoreErrorKind::CreateCacheDir => ("errors.ssh_create_cache_dir", true),
            CoreErrorKind::WriteKnownHosts => ("errors.ssh_write_known_hosts", true),
            CoreErrorKind::ParsePath => ("errors.sftp_parse_path", true),
            CoreErrorKind::ReadDir => ("errors.sftp_read_dir", true),
            CoreErrorKind::CreateDir => ("errors.sftp_create_dir", true),
            CoreErrorKind::DeleteFile => ("errors.sftp_delete_file", true),
            CoreErrorKind::DeleteDir => ("errors.sftp_delete_dir", true),
            CoreErrorKind::Rename => ("errors.sftp_rename", true),
            CoreErrorKind::RemoteMetadata => ("errors.sftp_remote_metadata", true),
            CoreErrorKind::CreateRemoteFile => ("errors.sftp_create_remote_file", true),
            CoreErrorKind::WriteRemote => ("errors.sftp_write_remote", true),
            CoreErrorKind::CloseRemoteFile => ("errors.sftp_close_remote_file", true),
            CoreErrorKind::OpenRemoteFile => ("errors.sftp_open_remote_file", true),
            CoreErrorKind::ReadRemote => ("errors.sftp_read_remote", true),
        }
    }
}

impl CoreError {
    /// A connection error with what lies behind it.
    pub fn ssh(kind: CoreErrorKind, source: Source) -> (r: CoreError)
        ensures
            r == (CoreError::Ssh { kind, source: Some(source) }),
    {
        CoreError::Ssh { kind, source: Some(source) }
    }

    /// A connection error with nothing behind it, such as a refusal.
    pub fn ssh_msg(kind: CoreErrorKind) -> (r: CoreError)
        ensures
            r == (CoreError::Ssh { kind, source: None }),
    {
        CoreError::Ssh { kind, source: None }
    }

    /// A file error with what lies behind it.
    pub fn sftp(kind: CoreErrorKind, source: Source) -> (r: CoreError)
        ensures
            r == (CoreError::Sftp { kind, source: Some(source) }),
    {
        CoreError::Sftp { kind, source: Some(source) }
    }

    /// A file error with nothing behind it.
    pub fn sftp_msg(kind: CoreErrorKind) -> (r: CoreError)
        ensures
            r == (CoreError::Sftp { kind, source: None }),
    {
        CoreError::Sftp { kind, source: None }
    }

    /// Whether trying again can help.
    pub fn class(&self) -> (r: ErrorClass)
        ensures
            r == class_of(*self),
    {
        match self {
            CoreError::Io(kind, _) => classify_io_kind(*kind),
            CoreError::Ssh { kind, .. } => match *kind {
                CoreErrorKind::Connect
                | CoreErrorKind::ChannelOpen
                | CoreErrorKind::SftpChannelOpen
                | CoreErrorKind::SftpSubsystem
                | CoreErrorKind::SftpInit => ErrorClass::Transient,
                _ => ErrorClass::Unknowable,
            },
            CoreError::Sftp { kind, source } => {
                let class = classify_remote(source);
                match *kind {
                    CoreErrorKind::ReadRemote
                    | CoreErrorKind::WriteRemote
                    | CoreErrorKind::OpenRemoteFile
                    | CoreErrorKind::CreateRemoteFile
                    | CoreErrorKind::CloseRemoteFile => class,
                    _ => if class == ErrorClass::SessionGone {
                        class
                    } else {
                        ErrorClass::Unknowable
                    },
                }
            },
        }
    }

    /// The error in words, for logs.
    pub open spec fn words(self) -> Seq<char> {
        match self {
            CoreError::Io(_, words) => "I/O error: "@ + words@,
            CoreError::Ssh { kind, source } => match source {
                Some(s) => kind.name_spec() + ": "@ + s.words(),
                None => kind.name_spec(),
            },
            CoreError::Sftp { kind, source } => match source {
                Some(s) => kind.name_spec() + ": "@ + s.words(),
                None => kind.name_spec(),
            },
        }
    }

    /// The error in words, for logs.
    pub fn to_words(&self) -> (r: String)
        ensures
            r@ == self.words(),
    {
        match self {
            CoreError::Io(_, words) => text::concat("I/O error: ", words),
            CoreError::Ssh { kind, source } | CoreError::Sftp { kind, source } => match source {
                Some(s) => {
                    let behind = s.to_words();
                    text::concat3(kind.name(), ": ", &behind)
                },
                None => kind.name().to_owned(),
            },
        }
    }
}

/// What lies behind an error, in words; nothing where nothing does.
pub open spec fn detail(source: Option<Source>) -> Seq<char> {
    match source {
        Some(s) => s.words(),
        None => Seq::empty(),
    }
}

/// The message for an error of this kind.
pub open spec fn kind_message(kind: CoreErrorKind, source: Option<Source>) -> i18n::WordingView {
    let (key, with_detail) = kind.entry_spec();
    if with_detail {
        i18n::entry_with(key, detail(source))
    } else {
        i18n::entry(key)
    }
}

/// What the user is told of an error.
pub open spec fn message(e: CoreError) -> i18n::WordingView {
    match e {
        CoreError::Io(_, words) => i18n::entry_with("errors.io"@, words@),
        CoreError::Ssh { kind, source } => kind_message(kind, source),
        CoreError::Sftp { kind, source } => kind_message(kind, source),
    }
}

fn localize_kind(kind: CoreErrorKind, source: &Option<Source>) -> (r: Wording)
    ensures
        r@ == kind_message(kind, *source),
{
    let (key, with_detail) = kind.entry();
    if with_detail {
        let behind = match source {
            Some(s) => s.to_words(),
            None => String::new(),
        };
        Wording::entry_with(key, behind)
    } else {
        Wording::entry(key)
    }
}

/// What the user is told of an error.
pub fn localize_error(e: &CoreError) -> (r: Wording)
    ensures
        r@ == message(*e),
{
    match e {
        CoreError::Io(_, words) => Wording::entry_with("errors.io", words.clone()),
        CoreError::Ssh { kind, source } | CoreError::Sftp { kind, source } => localize_kind(
            *kind,
            source,
        ),
    }
}

/// The end of the session is told apart whatever file operation met it, and is never taken for
/// something passing.
pub proof fn law_end_of_session_is_told_of_every_operation(kind: CoreErrorKind, words: String)
    requires
        says_gone(text::ascii_lower(words@)),
    ensures
        class_of(CoreError::Sftp { kind, source: Some(Source::Io(IoKind::Other, words)) })
            == ErrorClass::SessionGone,
        class_of(
            CoreError::Sftp {
                kind,
                source: Some(Source::Sftp(SftpFault::UnexpectedBehavior(words), words)),
            },
        ) == ErrorClass::SessionGone,
{
}

/// A file operation that moves no data is never repeated by itself.
pub proof fn law_only_moving_data_is_repeated(kind: CoreErrorKind, source: Option<Source>)
    requires
        !moves_data(kind),
    ensures
        class_of(CoreError::Sftp { kind, source }) == ErrorClass::SessionGone || class_of(
            CoreError::Sftp { kind, source },
        ) == ErrorClass::Unknowable,
{
}

/// What ails the connection or the server for a while is worth another try; what a file or its
/// rights stand against is not; of the rest nothing is known.
pub proof fn law_what_passes_is_tried_again(kind: IoKind, code: StatusCode)
    ensures
        kind == IoKind::TimedOut || kind == IoKind::WouldBlock || kind == IoKind::Interrupted || kind
            == IoKind::ConnectionReset || kind == IoKind::ConnectionAborted || kind
            == IoKind::BrokenPipe || kind == IoKind::UnexpectedEof <==> io_class(kind)
            == ErrorClass::Transient,
        kind == IoKind::NotFound || kind == IoKind::PermissionDenied || kind
            == IoKind::AlreadyExists || kind == IoKind::StorageFull <==> io_class(kind)
            == ErrorClass::Permanent,
        io_class(kind) != ErrorClass::SessionGone,
        code == StatusCode::Failure || code == StatusCode::NoConnection || code
            == StatusCode::ConnectionLost <==> status_class(code) == ErrorClass::Transient,
        code == StatusCode::PermissionDenied || code == StatusCode::NoSuchFile || code
            == StatusCode::OpUnsupported <==> status_class(code) == ErrorClass::Permanent,
        status_class(code) != ErrorClass::SessionGone,
{
}

/// An error of this machine counts by its kind alone. One of the connection is worth another try
/// where no channel came up, and says nothing else. One of the files counts by what the server
/// said, while bytes were moved; in all other work only the end of the session counts.
pub proof fn law_errors_count_by_where_they_come_from(
    kind: CoreErrorKind,
    source: Option<Source>,
    io: IoKind,
    words: String,
)
    ensures
        class_of(CoreError::Io(io, words)) == io_class(io),
        class_of(CoreError::Ssh { kind, source }) == ErrorClass::Transient <==> kind
            == CoreErrorKind::Connect || kind == CoreErrorKind::ChannelOpen || kind
            == CoreErrorKind::SftpChannelOpen || kind == CoreErrorKind::SftpSubsystem || kind
            == CoreErrorKind::SftpInit,
        class_of(CoreError::Ssh { kind, source }) != ErrorClass::Transient ==> class_of(
            CoreError::Ssh { kind, source },
        ) == ErrorClass::Unknowable,
        class_of(CoreError::Sftp { kind, source }) == ErrorClass::SessionGone <==> source_class(
            source,
        ) == ErrorClass::SessionGone,
        kind == CoreErrorKind::ReadRemote || kind == CoreErrorKind::WriteRemote || kind
            == CoreErrorKind::OpenRemoteFile || kind == CoreErrorKind::CreateRemoteFile || kind
            == CoreErrorKind::CloseRemoteFile ==> class_of(CoreError::Sftp { kind, source })
            == source_class(source),
        kind == CoreErrorKind::ReadDir || kind == CoreErrorKind::CreateDir || kind
            == CoreErrorKind::DeleteFile || kind == CoreErrorKind::DeleteDir || kind
            == CoreErrorKind::Rename || kind == CoreErrorKind::RemoteMetadata ==> class_of(
            CoreError::Sftp { kind, source },
        ) == ErrorClass::SessionGone || class_of(CoreError::Sftp { kind, source })
            == ErrorClass::Unknowable,
{
}

/// Words count whatever their case is. That the session is closed outweighs all else they say, and
/// that a file or its rights stand against it outweighs what is said of the connection.
pub proof fn law_words_count(words: Seq<char>)
    ensures
        ({
            let lower = text::ascii_lower(words);
            let class = message_class(words);
            &&& class == ErrorClass::SessionGone <==> text::found_in(lower, "session closed"@)
            &&& class == ErrorClass::Permanent <==> !text::found_in(lower, "session closed"@) && (
            text::found_in(lower, "permission denied"@) || text::found_in(lower, "no such file"@)
                || text::found_in(lower, "operation unsupported"@) || text::found_in(
                lower,
                "not a directory"@,
            ) || text::found_in(lower, "is a directory"@))
            &&& class == ErrorClass::Transient ==> text::found_in(lower, "timeout"@)
                || text::found_in(lower, "timed out"@) || text::found_in(lower, "connection"@)
                || text::found_in(lower, "broken pipe"@) || text::found_in(
                lower,
                "limit exceeded"@,
            ) || text::found_in(lower, "unexpected eof"@)
            &&& class == ErrorClass::Unknowable ==> !text::found_in(lower, "timeout"@)
                && !text::found_in(lower, "timed out"@) && !text::found_in(lower, "connection"@)
                && !text::found_in(lower, "broken pipe"@) && !text::found_in(
                lower,
                "limit exceeded"@,
            ) && !text::found_in(lower, "unexpected eof"@)
        }),
{
}

/// What a server did not answer, or answered with something else, is worth another try; where it
/// only sent words, they count, and so they do where this machine knows no more.
pub proof fn law_silence_is_tried_again(fault: SftpFault, io: IoKind, words: String)
    ensures
        fault is Timeout || fault is Io || fault is Limited || fault is UnexpectedPacket
            ==> source_class(Some(Source::Sftp(fault, words))) == ErrorClass::Transient,
        fault matches SftpFault::Status(code) ==> source_class(Some(Source::Sftp(fault, words)))
            == status_class(code),
        fault matches SftpFault::UnexpectedBehavior(said) ==> source_class(
            Some(Source::Sftp(fault, words)),
        ) == message_class(said@),
        source_class(Some(Source::Other(words))) == message_class(words@),
        io != IoKind::Other ==> source_class(Some(Source::Io(io, words))) == io_class(io),
        io == IoKind::Other ==> source_class(Some(Source::Io(io, words))) == message_class(words@),
        source_class(None) == ErrorClass::Unknowable,
{
}

/// An error is told with what lies behind it, but for those behind which there is nothing: no
/// password, a login refused, or no place for the cache.
pub proof fn law_errors_are_told_with_what_lies_behind(
    kind: CoreErrorKind,
    source: Source,
    io: IoKind,
    words: String,
)
    ensures
        ({
            let bare = kind == CoreErrorKind::MissingPassword || kind
                == CoreErrorKind::AuthPasswordRejected || kind
                == CoreErrorKind::AuthPublicKeyRejected || kind == CoreErrorKind::AgentAuthFailed
                || kind == CoreErrorKind::CacheDirUnknown;
            let told = message(CoreError::Sftp { kind, source: Some(source) });
            &&& message(CoreError::Ssh { kind, source: Some(source) }) == told
            &&& !bare ==> (told matches i18n::WordingView::Entry { detail, .. } && detail == Some(
                source.words(),
            ))
            &&& bare ==> (told matches i18n::WordingView::Entry { detail, .. } && detail is None)
        }),
        message(CoreError::Io(io, words)) == (i18n::WordingView::Entry {
            key: "errors.io"@,
            detail: Some(words@),
        }),
{
}

} // verus!
