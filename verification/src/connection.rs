//! Opening a connection: is the host's key trusted, and does the user get in.
//!
//! Whatever talks to the network, the agent or the disk is done elsewhere; here it is decided what
//! is to be done next, and what an answer means.

use crate::config::session::AuthMethod;
use crate::config::session;
use crate::crypto::SecretText;
use crate::error::{CoreError, CoreErrorKind, Source};
use crate::host_key::{self, HostKeyStatus, StatusView};
use crate::text;
use vstd::prelude::*;

pub mod laws;

verus! {

/// What the user is asked about a host's key.
#[derive(Debug)]
pub struct HostKeyPrompt {
    /// The host.
    pub host: String,
    /// The port.
    pub port: u16,
    /// The name of the key's algorithm.
    pub key_type: String,
    /// The key's fingerprint.
    pub fingerprint: String,
    /// The fingerprint that the host is known by, where it is another.
    pub mismatch: Option<String>,
}

/// What a [`HostKeyPrompt`] holds.
#[verifier::ext_equal]
pub struct PromptView {
    /// The host.
    pub host: Seq<char>,
    /// The port.
    pub port: u16,
    /// The name of the key's algorithm.
    pub key_type: Seq<char>,
    /// The key's fingerprint.
    pub fingerprint: Seq<char>,
    /// The fingerprint that the host is known by.
    pub mismatch: Option<Seq<char>>,
}

impl View for HostKeyPrompt {
    type V = PromptView;

    open spec fn view(&self) -> PromptView {
        PromptView {
            host: self.host@,
            port: self.port,
            key_type: self.key_type@,
            fingerprint: self.fingerprint@,
            mismatch: text::opt(self.mismatch),
        }
    }
}

/// The secrets for logging in, opened for as long as that takes.
pub struct SessionSecrets {
    /// The password, where one is needed.
    pub password: Option<SecretText>,
    /// The passphrase of the key, where it has one.
    pub key_passphrase: Option<SecretText>,
}

impl Default for SessionSecrets {
    fn default() -> (r: SessionSecrets)
        ensures
            r.password is None,
            r.key_passphrase is None,
    {
        SessionSecrets { password: None, key_passphrase: None }
    }
}

/// A prompt that the user can answer. Only the first answer counts.
#[derive(Debug)]
pub struct HostKeyReply {
    handle: u64,
    open: bool,
}

/// What a [`HostKeyReply`] holds.
pub struct ReplyView {
    /// Which one waits for the answer.
    pub handle: u64,
    /// Whether the prompt can still be answered.
    pub open: bool,
}

impl View for HostKeyReply {
    type V = ReplyView;

    closed spec fn view(&self) -> ReplyView {
        ReplyView { handle: self.handle, open: self.open }
    }
}

impl HostKeyReply {
    /// A prompt that was not answered yet, and which one waits for the answer.
    pub fn new(handle: u64) -> (r: HostKeyReply)
        ensures
            r@ == (ReplyView { handle, open: true }),
    {
        HostKeyReply { handle, open: true }
    }

    /// Which one waits for the answer.
    pub fn handle(&self) -> (r: u64)
        ensures
            r == self@.handle,
    {
        self.handle
    }

    /// The user answers. The one who waits is told the first answer, and none after it.
    pub fn reply(&mut self, trust: bool) -> (told: Option<bool>)
        ensures
            final(self)@ == (ReplyView { open: false, ..old(self)@ }),
            told == (if old(self)@.open {
                Some(trust)
            } else {
                None
            }),
    {
        if self.open {
            self.open = false;
            Some(trust)
        } else {
            None
        }
    }

    /// What one who begins to wait now learns in the end; `told` is what those who wait are told,
    /// where they are told anything. One who comes after the answer learns nothing.
    pub fn decided(&self, told: Option<bool>) -> (r: Option<bool>)
        ensures
            r == (if self@.open {
                told
            } else {
                None
            }),
    {
        if self.open {
            told
        } else {
            None
        }
    }
}

/// What is to be done about a host's key.
pub enum KeyCheck {
    /// The user is to be asked.
    Ask {
        /// What the user is asked.
        prompt: HostKeyPrompt,
    },
    /// The file of the hosts is to be read again: it may have changed meanwhile.
    Reread {
        /// What the user agreed to.
        prompt: HostKeyPrompt,
    },
    /// The file of the hosts is to be written.
    Write {
        /// What it is to hold.
        content: String,
    },
    /// The key is the right one.
    Accepted,
    /// The key is refused; the connection is given up.
    Refused,
}

/// What a [`KeyCheck`] holds.
pub enum KeyCheckView {
    /// The user is to be asked.
    Ask {
        /// What the user is asked.
        prompt: PromptView,
    },
    /// The file of the hosts is to be read again.
    Reread {
        /// What the user agreed to.
        prompt: PromptView,
    },
    /// The file of the hosts is to be written.
    Write {
        /// What it is to hold.
        content: Seq<char>,
    },
    /// The key is the right one.
    Accepted,
    /// The key is refused.
    Refused,
}

impl View for KeyCheck {
    type V = KeyCheckView;

    open spec fn view(&self) -> KeyCheckView {
        match *self {
            KeyCheck::Ask { prompt } => KeyCheckView::Ask { prompt: prompt@ },
            KeyCheck::Reread { prompt } => KeyCheckView::Reread { prompt: prompt@ },
            KeyCheck::Write { content } => KeyCheckView::Write { content: content@ },
            KeyCheck::Accepted => KeyCheckView::Accepted,
            KeyCheck::Refused => KeyCheckView::Refused,
        }
    }
}

/// What came of it.
pub enum KeyReply {
    /// The user answered, or nobody did.
    Answer(Option<bool>),
    /// The file was read; one that cannot be read is as good as an empty one.
    Content(String),
    /// There is no place for the file.
    NoPlace,
    /// The file was written, or not.
    Written(bool),
}

/// What a host's key comes to at first: `content` is what the file of the hosts holds, where
/// there is a place for it.
pub open spec fn judged(
    content: Option<Seq<char>>,
    host: Seq<char>,
    port: u16,
    fp: Seq<char>,
    key_type: Seq<char>,
) -> KeyCheckView {
    match content {
        None => KeyCheckView::Refused,
        Some(content) => match host_key::status(content, host_key::entry_of(host, port), fp) {
            StatusView::Known => KeyCheckView::Accepted,
            StatusView::Unknown => KeyCheckView::Ask {
                prompt: PromptView { host, port, key_type, fingerprint: fp, mismatch: None },
            },
            StatusView::Mismatch { stored } => KeyCheckView::Ask {
                prompt: PromptView {
                    host,
                    port,
                    key_type,
                    fingerprint: fp,
                    mismatch: Some(stored),
                },
            },
        },
    }
}

/// What the file of the hosts is to hold once the user agreed.
pub open spec fn agreed(content: Seq<char>, prompt: PromptView) -> Seq<char> {
    let entry = host_key::entry_of(prompt.host, prompt.port);
    if prompt.mismatch is Some {
        host_key::replaced(content, entry, prompt.fingerprint)
    } else {
        host_key::trusted(content, entry, prompt.fingerprint)
    }
}

/// How it goes on. A reply that does not belong changes nothing.
pub open spec fn key_following(k: KeyCheckView, reply: KeyReply) -> KeyCheckView {
    match (k, reply) {
        (KeyCheckView::Ask { prompt }, KeyReply::Answer(answer)) => if answer == Some(true) {
            KeyCheckView::Reread { prompt }
        } else {
            KeyCheckView::Refused
        },
        (KeyCheckView::Reread { prompt }, KeyReply::Content(content)) => KeyCheckView::Write {
            content: agreed(content@, prompt),
        },
        (KeyCheckView::Reread { .. }, KeyReply::NoPlace) => KeyCheckView::Refused,
        (KeyCheckView::Write { .. }, KeyReply::Written(written)) => if written {
            KeyCheckView::Accepted
        } else {
            KeyCheckView::Refused
        },
        _ => k,
    }
}

/// What the key of a host comes to at first, from its bytes in SSH's encoding. Bytes that are no
/// key are refused.
pub fn check_server_key(content: Option<&str>, host: &str, port: u16, key: &[u8]) -> (r: KeyCheck)
    ensures
        r@ == (match (
            host_key::sha256_fingerprint(key@),
            host_key::algorithm_name(key@),
        ) {
            (Some(fp), Some(key_type)) => judged(
                match content {
                    Some(c) => Some(c@),
                    None => None,
                },
                host@,
                port,
                fp,
                key_type,
            ),
            _ => KeyCheckView::Refused,
        }),
{
    match (host_key::fingerprint(key), host_key::key_type(key)) {
        (Some(fp), Some(key_type)) => judge(content, host, port, fp, key_type),
        _ => KeyCheck::Refused,
    }
}

/// What a host's key comes to at first, from its fingerprint.
pub fn judge(
    content: Option<&str>,
    host: &str,
    port: u16,
    fp: String,
    key_type: String,
) -> (r: KeyCheck)
    ensures
        r@ == judged(
            match content {
                Some(c) => Some(c@),
                None => None,
            },
            host@,
            port,
            fp@,
            key_type@,
        ),
{
    let content = match content {
        Some(c) => c,
        None => {
            return KeyCheck::Refused;
        },
    };
    let mismatch = match host_key::check_host_key(content, host, port, fp.as_str()) {
        HostKeyStatus::Known => {
            return KeyCheck::Accepted;
        },
        HostKeyStatus::Unknown => None,
        HostKeyStatus::Mismatch { stored } => Some(stored),
    };
    KeyCheck::Ask {
        prompt: HostKeyPrompt { host: host.to_owned(), port, key_type, fingerprint: fp, mismatch },
    }
}

impl KeyCheck {
    /// It goes on with what came of it.
    pub fn next(self, reply: KeyReply) -> (r: KeyCheck)
        ensures
            r@ == key_following(self@, reply),
    {
        match (self, reply) {
            (KeyCheck::Ask { prompt }, KeyReply::Answer(Some(true))) => KeyCheck::Reread { prompt },
            (KeyCheck::Ask { .. }, KeyReply::Answer(_)) => KeyCheck::Refused,
            (KeyCheck::Reread { prompt }, KeyReply::Content(content)) => KeyCheck::Write {
                content: if prompt.mismatch.is_some() {
                    host_key::replace_host_key(
                        content.as_str(),
                        prompt.host.as_str(),
                        prompt.port,
                        prompt.fingerprint.as_str(),
                    )
                } else {
                    host_key::trust_host_key(
                        content.as_str(),
                        prompt.host.as_str(),
                        prompt.port,
                        prompt.fingerprint.as_str(),
                    )
                },
            },
            (KeyCheck::Reread { .. }, KeyReply::NoPlace) => KeyCheck::Refused,
            (KeyCheck::Write { .. }, KeyReply::Written(true)) => KeyCheck::Accepted,
            (KeyCheck::Write { .. }, KeyReply::Written(false)) => KeyCheck::Refused,
            (other, _) => other,
        }
    }
}

/// A key is accepted only where the host is known by it, or where the user agreed and the file of
/// the hosts was written.
pub proof fn law_only_known_or_agreed_keys_are_accepted(
    content: Option<Seq<char>>,
    host: Seq<char>,
    port: u16,
    fp: Seq<char>,
    key_type: Seq<char>,
    k: KeyCheckView,
    reply: KeyReply,
)
    ensures
        judged(content, host, port, fp, key_type) is Accepted <==> (content is Some
            && host_key::status(content->0, host_key::entry_of(host, port), fp) is Known),
        key_following(k, reply) is Accepted && !(k is Accepted) ==> k is Write && reply
            == KeyReply::Written(true),
        key_following(k, reply) is Write && !(k is Write) ==> k is Reread,
        key_following(k, reply) is Reread && !(k is Reread) ==> k is Ask && reply
            == KeyReply::Answer(Some(true)),
{
}

/// What is written once the user agreed makes the host known by its key: always where another key
/// was known, and else unless the host became known by another key meanwhile.
pub proof fn law_agreed_keys_are_known(content: Seq<char>, prompt: PromptView)
    requires
        host_key::laws::nameable(prompt.host),
        host_key::solid(prompt.fingerprint),
        prompt.mismatch is Some || host_key::status(
            content,
            host_key::entry_of(prompt.host, prompt.port),
            prompt.fingerprint,
        ) is Unknown,
    ensures
        host_key::status(
            agreed(content, prompt),
            host_key::entry_of(prompt.host, prompt.port),
            prompt.fingerprint,
        ) == StatusView::Known,
{
    if prompt.mismatch is Some {
        host_key::laws::law_a_replaced_key_is_known(
            content,
            prompt.host,
            prompt.port,
            prompt.fingerprint,
        );
    } else {
        host_key::laws::law_a_trusted_host_is_known(
            content,
            prompt.host,
            prompt.port,
            prompt.fingerprint,
        );
    }
}

/// Logging in: what is to be done next.
pub enum Login {
    /// The connection is to be opened; the host's key is checked on the way.
    Connect(Way),
    /// The password is to be offered.
    OfferPassword,
    /// The file of the key is to be read.
    ReadKey {
        /// Whether the key has a passphrase.
        locked: bool,
    },
    /// The key is to be unlocked with its passphrase.
    UnlockKey,
    /// The key is to be offered.
    OfferKey,
    /// The agent is to be reached.
    ReachAgent,
    /// The agent is to be asked for its keys.
    ListKeys,
    /// The key of the agent with this number is to be offered.
    OfferAgentKey {
        /// The number of the key.
        index: usize,
        /// How many keys the agent has.
        count: usize,
    },
    /// The user is in.
    Done,
    /// It did not work.
    Failed(CoreError),
}

/// How to log in, as far as that decides what is to be done.
#[derive(Debug, Clone, Copy, PartialEq, Eq, Structural)]
pub enum Way {
    /// With a password, which may be missing.
    Password {
        /// Whether it is there.
        present: bool,
    },
    /// With a key.
    Key {
        /// Whether its passphrase is there.
        locked: bool,
    },
    /// With the keys of the agent.
    Agent,
}

/// What came of it.
pub enum LoginReply {
    /// It was done, or the server let the user in.
    Completed,
    /// The server did not let the user in.
    Rejected,
    /// It failed.
    Failed(Source),
    /// The agent has so many keys.
    Keys(usize),
}

/// How to log in with a method and the secrets that are there.
pub open spec fn way_of(auth: session::AuthView, secrets: SessionSecrets) -> Way {
    match auth {
        session::AuthView::Password { .. } => Way::Password {
            present: secrets.password is Some,
        },
        session::AuthView::PublicKey { .. } => Way::Key {
            locked: secrets.key_passphrase is Some,
        },
        session::AuthView::Agent => Way::Agent,
    }
}

/// An error of this kind with what lies behind it.
pub open spec fn failed(kind: CoreErrorKind, source: Source) -> Login {
    Login::Failed(CoreError::Ssh { kind, source: Some(source) })
}

/// An error of this kind.
pub open spec fn refused(kind: CoreErrorKind) -> Login {
    Login::Failed(CoreError::Ssh { kind, source: None })
}

/// What is to be done once the connection is open.
pub open spec fn first_step(way: Way) -> Login {
    match way {
        Way::Password { present: true } => Login::OfferPassword,
        Way::Password { present: false } => refused(CoreErrorKind::MissingPassword),
        Way::Key { locked } => Login::ReadKey { locked },
        Way::Agent => Login::ReachAgent,
    }
}

/// What is to be done with the keys of the agent from this one on.
pub open spec fn agent_step(index: int, count: usize) -> Login {
    if index < count {
        Login::OfferAgentKey { index: index as usize, count }
    } else {
        refused(CoreErrorKind::AgentAuthFailed)
    }
}

/// How logging in goes on. A reply that does not belong changes nothing.
pub open spec fn login_following(l: Login, reply: LoginReply) -> Login {
    match (l, reply) {
        (Login::Connect(way), LoginReply::Completed) => first_step(way),
        (Login::Connect(_), LoginReply::Failed(s)) => failed(CoreErrorKind::Connect, s),
        (Login::OfferPassword, LoginReply::Completed) => Login::Done,
        (Login::OfferPassword, LoginReply::Rejected) => refused(
            CoreErrorKind::AuthPasswordRejected,
        ),
        (Login::OfferPassword, LoginReply::Failed(s)) => failed(
            CoreErrorKind::AuthPasswordRequest,
            s,
        ),
        (Login::ReadKey { locked }, LoginReply::Completed) => if locked {
            Login::UnlockKey
        } else {
            Login::OfferKey
        },
        (Login::ReadKey { .. }, LoginReply::Failed(s)) => failed(CoreErrorKind::ReadKey, s),
        (Login::UnlockKey, LoginReply::Completed) => Login::OfferKey,
        (Login::UnlockKey, LoginReply::Failed(s)) => failed(CoreErrorKind::DecryptKey, s),
        (Login::OfferKey, LoginReply::Completed) => Login::Done,
        (Login::OfferKey, LoginReply::Rejected) => refused(CoreErrorKind::AuthPublicKeyRejected),
        (Login::OfferKey, LoginReply::Failed(s)) => failed(
            CoreErrorKind::AuthPublicKeyRequest,
            s,
        ),
        (Login::ReachAgent, LoginReply::Completed) => Login::ListKeys,
        (Login::ReachAgent, LoginReply::Failed(s)) => failed(CoreErrorKind::AgentConnect, s),
        (Login::ListKeys, LoginReply::Keys(count)) => agent_step(0, count),
        (Login::ListKeys, LoginReply::Failed(s)) => failed(CoreErrorKind::AgentIdentities, s),
        (Login::OfferAgentKey { .. }, LoginReply::Completed) => Login::Done,
        (Login::OfferAgentKey { index, count }, LoginReply::Rejected) => agent_step(
            index + 1,
            count,
        ),
        (Login::OfferAgentKey { index, count }, LoginReply::Failed(_)) => agent_step(
            index + 1,
            count,
        ),
        _ => l,
    }
}

/// Whether a step of logging in is one that there can be.
pub open spec fn in_reach(l: Login) -> bool {
    match l {
        Login::OfferAgentKey { index, count } => index < count,
        _ => true,
    }
}

/// Logging in begins.
pub fn connect(auth: &AuthMethod, secrets: &SessionSecrets) -> (r: Login)
    ensures
        r == Login::Connect(way_of(auth@, *secrets)),
        in_reach(r),
{
    Login::Connect(
        match auth {
            AuthMethod::Password { .. } => Way::Password { present: secrets.password.is_some() },
            AuthMethod::PublicKey { .. } => Way::Key { locked: secrets.key_passphrase.is_some() },
            AuthMethod::Agent => Way::Agent,
        },
    )
}

impl Login {
    /// Logging in goes on with what came of it.
    pub fn next(self, reply: LoginReply) -> (r: Login)
        requires
            in_reach(self),
        ensures
            r == login_following(self, reply),
            in_reach(r),
    {
        match (self, reply) {
            (Login::Connect(way), LoginReply::Completed) => match way {
                Way::Password { present: true } => Login::OfferPassword,
                Way::Password { present: false } => Login::Failed(
                    CoreError::ssh_msg(CoreErrorKind::MissingPassword),
                ),
                Way::Key { locked } => Login::ReadKey { locked },
                Way::Agent => Login::ReachAgent,
            },
            (Login::Connect(_), LoginReply::Failed(s)) => Login::Failed(
                CoreError::ssh(CoreErrorKind::Connect, s),
            ),
            (Login::OfferPassword, LoginReply::Completed) => Login::Done,
            (Login::OfferPassword, LoginReply::Rejected) => Login::Failed(
                CoreError::ssh_msg(CoreErrorKind::AuthPasswordRejected),
            ),
            (Login::OfferPassword, LoginReply::Failed(s)) => Login::Failed(
                CoreError::ssh(CoreErrorKind::AuthPasswordRequest, s),
            ),
            (Login::ReadKey { locked }, LoginReply::Completed) => if locked {
                Login::UnlockKey
            } else {
                Login::OfferKey
            },
            (Login::ReadKey { .. }, LoginReply::Failed(s)) => Login::Failed(
                CoreError::ssh(CoreErrorKind::ReadKey, s),
            ),
            (Login::UnlockKey, LoginReply::Completed) => Login::OfferKey,
            (Login::UnlockKey, LoginReply::Failed(s)) => Login::Failed(
                CoreError::ssh(CoreErrorKind::DecryptKey, s),
            ),
            (Login::OfferKey, LoginReply::Completed) => Login::Done,
            (Login::OfferKey, LoginReply::Rejected) => Login::Failed(
                CoreError::ssh_msg(CoreErrorKind::AuthPublicKeyRejected),
            ),
            (Login::OfferKey, LoginReply::Failed(s)) => Login::Failed(
                CoreError::ssh(CoreErrorKind::AuthPublicKeyRequest, s),
            ),
            (Login::ReachAgent, LoginReply::Completed) => Login::ListKeys,
            (Login::ReachAgent, LoginReply::Failed(s)) => Login::Failed(
                CoreError::ssh(CoreErrorKind::AgentConnect, s),
            ),
            (Login::ListKeys, LoginReply::Keys(count)) => if count > 0 {
                Login::OfferAgentKey { index: 0, count }
            } else {
                Login::Failed(CoreError::ssh_msg(CoreErrorKind::AgentAuthFailed))
            },
            (Login::ListKeys, LoginReply::Failed(s)) => Login::Failed(
                CoreError::ssh(CoreErrorKind::AgentIdentities, s),
            ),
            (Login::OfferAgentKey { .. }, LoginReply::Completed) => Login::Done,
            (Login::OfferAgentKey { index, count }, LoginReply::Rejected) => if index + 1 < count {
                Login::OfferAgentKey { index: index + 1, count }
            } else {
                Login::Failed(CoreError::ssh_msg(CoreErrorKind::AgentAuthFailed))
            },
            (Login::OfferAgentKey { index, count }, LoginReply::Failed(_)) => if index + 1
                < count {
                Login::OfferAgentKey { index: index + 1, count }
            } else {
                Login::Failed(CoreError::ssh_msg(CoreErrorKind::AgentAuthFailed))
            },
            (other, _) => other,
        }
    }
}

/// The user is in only where the server said so to what was offered; reading or unlocking a key,
/// or reaching the agent, is not enough.
pub proof fn law_only_the_server_lets_in(l: Login, reply: LoginReply)
    requires
        login_following(l, reply) is Done,
        !(l is Done),
    ensures
        reply is Completed,
        l is OfferPassword || l is OfferKey || l is OfferAgentKey,
{
}

/// Each key of the agent is offered in turn until one is taken; only when all were refused is it
/// given up.
pub proof fn law_all_keys_of_the_agent_are_offered(index: usize, count: usize, reply: LoginReply)
    requires
        index < count,
        reply is Rejected || reply is Failed,
    ensures
        index + 1 < count ==> login_following(Login::OfferAgentKey { index, count }, reply)
            == (Login::OfferAgentKey { index: (index + 1) as usize, count }),
        index + 1 == count ==> login_following(Login::OfferAgentKey { index, count }, reply)
            == refused(CoreErrorKind::AgentAuthFailed),
{
}

/// A step of opening a channel.
#[derive(Debug, Clone, Copy, PartialEq, Eq, Structural)]
pub enum ChannelStep {
    /// A channel for a shell is to be opened.
    ShellChannel,
    /// A terminal is to be asked for.
    Pty,
    /// The shell is to be started.
    Shell,
    /// A channel for files is to be opened.
    SftpChannel,
    /// The file service is to be asked for.
    Subsystem,
    /// The file service is to be greeted.
    Session,
}

/// The step behind a step.
pub open spec fn step_behind(step: ChannelStep) -> Option<ChannelStep> {
    match step {
        ChannelStep::ShellChannel => Some(ChannelStep::Pty),
        ChannelStep::Pty => Some(ChannelStep::Shell),
        ChannelStep::Shell => None,
        ChannelStep::SftpChannel => Some(ChannelStep::Subsystem),
        ChannelStep::Subsystem => Some(ChannelStep::Session),
        ChannelStep::Session => None,
    }
}

/// What it means that a step failed.
pub open spec fn step_failed(step: ChannelStep, source: Source) -> CoreError {
    match step {
        ChannelStep::ShellChannel => CoreError::Ssh {
            kind: CoreErrorKind::ChannelOpen,
            source: Some(source),
        },
        ChannelStep::Pty => CoreError::Ssh { kind: CoreErrorKind::RequestPty, source: Some(source) },
        ChannelStep::Shell => CoreError::Ssh {
            kind: CoreErrorKind::StartShell,
            source: Some(source),
        },
        ChannelStep::SftpChannel => CoreError::Ssh {
            kind: CoreErrorKind::SftpChannelOpen,
            source: Some(source),
        },
        ChannelStep::Subsystem => CoreError::Ssh {
            kind: CoreErrorKind::SftpSubsystem,
            source: Some(source),
        },
        ChannelStep::Session => CoreError::Sftp {
            kind: CoreErrorKind::SftpInit,
            source: Some(source),
        },
    }
}

impl ChannelStep {
    /// The first step of opening a shell.
    pub fn open_shell_channel() -> (r: ChannelStep)
        ensures
            r == ChannelStep::ShellChannel,
    {
        ChannelStep::ShellChannel
    }

    /// The first step of opening the file service.
    pub fn open_sftp() -> (r: ChannelStep)
        ensures
            r == ChannelStep::SftpChannel,
    {
        ChannelStep::SftpChannel
    }

    /// The step behind this one; none where the channel is open.
    pub fn next(self) -> (r: Option<ChannelStep>)
        ensures
            r == step_behind(self),
    {
        match self {
            ChannelStep::ShellChannel => Some(ChannelStep::Pty),
            ChannelStep::Pty => Some(ChannelStep::Shell),
            ChannelStep::Shell => None,
            ChannelStep::SftpChannel => Some(ChannelStep::Subsystem),
            ChannelStep::Subsystem => Some(ChannelStep::Session),
            ChannelStep::Session => None,
        }
    }

    /// What it means that this step failed.
    pub fn failure(self, source: Source) -> (r: CoreError)
        ensures
            r == step_failed(self, source),
    {
        match self {
            ChannelStep::ShellChannel => CoreError::ssh(CoreErrorKind::ChannelOpen, source),
            ChannelStep::Pty => CoreError::ssh(CoreErrorKind::RequestPty, source),
            ChannelStep::Shell => CoreError::ssh(CoreErrorKind::StartShell, source),
            ChannelStep::SftpChannel => CoreError::ssh(CoreErrorKind::SftpChannelOpen, source),
            ChannelStep::Subsystem => CoreError::ssh(CoreErrorKind::SftpSubsystem, source),
            ChannelStep::Session => CoreError::sftp(CoreErrorKind::SftpInit, source),
        }
    }
}

} // verus!
