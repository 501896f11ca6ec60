//! How users get in and keys get trusted, from the first step to the last.

use crate::config::session::AuthView;
use crate::connection;
use crate::connection::{
    ChannelStep, KeyCheckView, KeyReply, Login, LoginReply, PromptView, SessionSecrets,
};
use crate::error::{CoreError, CoreErrorKind};
use crate::host_key;
use crate::host_key::StatusView;
use vstd::prelude::*;

verus! {

/// Logging in with a method and some secrets, after these replies.
pub open spec fn progress(auth: AuthView, secrets: SessionSecrets, replies: Seq<LoginReply>) -> Login
    decreases replies.len(),
{
    if replies.len() == 0 {
        Login::Connect(connection::way_of(auth, secrets))
    } else {
        connection::login_following(progress(auth, secrets, replies.drop_last()), replies.last())
    }
}

/// Whether what `step` tells was done with the reply of number `k`.
pub open spec fn done_at(
    auth: AuthView,
    secrets: SessionSecrets,
    replies: Seq<LoginReply>,
    k: int,
    step: Login,
) -> bool {
    progress(auth, secrets, replies.take(k)) == step && replies[k] is Completed
}

/// What can come up on the way, by the method of the session.
spec fn in_course(auth: AuthView, secrets: SessionSecrets, l: Login) -> bool {
    match l {
        Login::Connect(way) => way == connection::way_of(auth, secrets),
        Login::OfferPassword => auth is Password && secrets.password is Some,
        Login::ReadKey { locked } => auth is PublicKey && locked == (secrets.key_passphrase
            is Some),
        Login::UnlockKey => auth is PublicKey && secrets.key_passphrase is Some,
        Login::OfferKey => auth is PublicKey,
        Login::ReachAgent => auth is Agent,
        Login::ListKeys => auth is Agent,
        Login::OfferAgentKey { .. } => auth is Agent,
        _ => true,
    }
}

proof fn lemma_in_course(auth: AuthView, secrets: SessionSecrets, replies: Seq<LoginReply>)
    ensures
        in_course(auth, secrets, progress(auth, secrets, replies)),
    decreases replies.len(),
{
    if replies.len() > 0 {
        lemma_in_course(auth, secrets, replies.drop_last());
    }
}

/// Only what belongs to the session's method is ever tried: a password is offered only for a
/// session with a password, and only where it is there; a key's file is read only for a session
/// with a key, and is unlocked only where its passphrase is there; and the agent is asked only for
/// a session that leaves its keys to the agent.
pub proof fn law_each_method_goes_its_own_way(
    auth: AuthView,
    secrets: SessionSecrets,
    replies: Seq<LoginReply>,
)
    ensures
        ({
            let l = progress(auth, secrets, replies);
            &&& l is OfferPassword ==> auth is Password && secrets.password is Some
            &&& l is ReadKey || l is UnlockKey || l is OfferKey ==> auth is PublicKey
            &&& l is UnlockKey ==> secrets.key_passphrase is Some
            &&& l is ReachAgent || l is ListKeys || l is OfferAgentKey ==> auth is Agent
        }),
{
    lemma_in_course(auth, secrets, replies);
}

/// What follows an open connection: the password is offered, or is missed where it is not there;
/// the file of the key is read; the agent is reached.
pub proof fn law_an_open_connection_is_used(
    auth: AuthView,
    secrets: SessionSecrets,
    replies: Seq<LoginReply>,
)
    requires
        progress(auth, secrets, replies) is Connect,
    ensures
        ({
            let next = progress(auth, secrets, replies.push(LoginReply::Completed));
            match auth {
                AuthView::Password { .. } => if secrets.password is Some {
                    next is OfferPassword
                } else {
                    next == Login::Failed(
                        CoreError::Ssh { kind: CoreErrorKind::MissingPassword, source: None },
                    )
                },
                AuthView::PublicKey { .. } => next is ReadKey,
                AuthView::Agent => next is ReachAgent,
            }
        }),
{
    lemma_in_course(auth, secrets, replies);
    assert(replies.push(LoginReply::Completed).drop_last() =~= replies);
}

/// A key that was read is unlocked where its passphrase is there, and else offered as it is; one
/// that was unlocked is offered.
pub proof fn law_a_key_is_read_unlocked_and_offered(
    auth: AuthView,
    secrets: SessionSecrets,
    replies: Seq<LoginReply>,
)
    ensures
        ({
            let l = progress(auth, secrets, replies);
            let next = progress(auth, secrets, replies.push(LoginReply::Completed));
            &&& l is ReadKey ==> if secrets.key_passphrase is Some {
                next is UnlockKey
            } else {
                next is OfferKey
            }
            &&& l is UnlockKey ==> next is OfferKey
            &&& l is ReachAgent ==> next is ListKeys
        }),
{
    lemma_in_course(auth, secrets, replies);
    assert(replies.push(LoginReply::Completed).drop_last() =~= replies);
}

/// Before a key is offered its file was read; and, where a passphrase is there, the key was
/// unlocked with it.
pub proof fn law_what_is_offered_was_read(
    auth: AuthView,
    secrets: SessionSecrets,
    replies: Seq<LoginReply>,
)
    requires
        progress(auth, secrets, replies) is OfferKey || progress(auth, secrets, replies)
            is UnlockKey,
    ensures
        exists|k: int|
            0 <= k < replies.len() && #[trigger] done_at(
                auth,
                secrets,
                replies,
                k,
                Login::ReadKey { locked: secrets.key_passphrase is Some },
            ),
        progress(auth, secrets, replies) is OfferKey && secrets.key_passphrase is Some ==> exists|
            k: int,
        |
            0 <= k < replies.len() && #[trigger] done_at(
                auth,
                secrets,
                replies,
                k,
                Login::UnlockKey,
            ),
    decreases replies.len(),
{
    if replies.len() > 0 {
        let earlier = replies.drop_last();
        let n = earlier.len() as int;
        let read = Login::ReadKey { locked: secrets.key_passphrase is Some };
        lemma_in_course(auth, secrets, earlier);
        assert(replies.take(n) =~= earlier);
        let l = progress(auth, secrets, earlier);
        if l is ReadKey {
            assert(done_at(auth, secrets, replies, n, read));
        } else {
            law_what_is_offered_was_read(auth, secrets, earlier);
            let k = choose|k: int|
                0 <= k < earlier.len() && #[trigger] done_at(auth, secrets, earlier, k, read);
            assert(replies.take(k) =~= earlier.take(k));
            assert(done_at(auth, secrets, replies, k, read));
            if progress(auth, secrets, replies) is OfferKey && secrets.key_passphrase is Some {
                if l is UnlockKey {
                    assert(done_at(auth, secrets, replies, n, Login::UnlockKey));
                } else {
                    let m = choose|m: int|
                        0 <= m < earlier.len() && #[trigger] done_at(
                            auth,
                            secrets,
                            earlier,
                            m,
                            Login::UnlockKey,
                        );
                    assert(replies.take(m) =~= earlier.take(m));
                    assert(done_at(auth, secrets, replies, m, Login::UnlockKey));
                }
            }
        }
    }
}

/// What the server answers decides: what it takes lets the user in, and what it refuses does not.
/// Nothing is offered twice, but for the agent's other keys.
pub proof fn law_the_server_decides(l: Login)
    requires
        l is OfferPassword || l is OfferKey || l is OfferAgentKey,
    ensures
        connection::login_following(l, LoginReply::Completed) is Done,
        l is OfferPassword ==> connection::login_following(l, LoginReply::Rejected) == Login::Failed(
            CoreError::Ssh { kind: CoreErrorKind::AuthPasswordRejected, source: None },
        ),
        l is OfferKey ==> connection::login_following(l, LoginReply::Rejected) == Login::Failed(
            CoreError::Ssh { kind: CoreErrorKind::AuthPublicKeyRejected, source: None },
        ),
{
}

/// A step that failed ends the login, with what it failed with and with what was being done; only
/// a key of the agent that could not be offered gives way to the next.
pub proof fn law_a_failed_step_ends_the_login(l: Login, reply: LoginReply)
    requires
        reply is Failed,
        !(l is OfferAgentKey) && !(l is Done) && !(l is Failed),
    ensures
        connection::login_following(l, reply) == Login::Failed(
            CoreError::Ssh {
                kind: match l {
                    Login::Connect(_) => CoreErrorKind::Connect,
                    Login::OfferPassword => CoreErrorKind::AuthPasswordRequest,
                    Login::ReadKey { .. } => CoreErrorKind::ReadKey,
                    Login::UnlockKey => CoreErrorKind::DecryptKey,
                    Login::OfferKey => CoreErrorKind::AuthPublicKeyRequest,
                    Login::ReachAgent => CoreErrorKind::AgentConnect,
                    _ => CoreErrorKind::AgentIdentities,
                },
                source: Some(reply->Failed_0),
            },
        ),
{
}

/// What is over stays over.
pub proof fn law_a_login_ends_once(l: Login, reply: LoginReply)
    requires
        l is Done || l is Failed,
    ensures
        connection::login_following(l, reply) == l,
{
}

/// Offering the keys of an agent from the one of number `index` on, with these replies.
pub open spec fn offering(l: Login, replies: Seq<LoginReply>) -> Login
    decreases replies.len(),
{
    if replies.len() == 0 {
        l
    } else {
        connection::login_following(offering(l, replies.drop_last()), replies.last())
    }
}

/// The keys that the agent lists are offered one by one from the first: after as many refusals as
/// there were keys before it, a key has its turn; and the login fails exactly when none is left.
pub proof fn law_the_keys_of_the_agent_have_their_turn(count: usize, refusals: Seq<LoginReply>)
    requires
        refusals.len() <= count,
        forall|i: int|
            0 <= i < refusals.len() ==> (#[trigger] refusals[i]) is Rejected || refusals[i]
                is Failed,
    ensures
        offering(connection::login_following(Login::ListKeys, LoginReply::Keys(count)), refusals)
            == if refusals.len() < count {
            Login::OfferAgentKey { index: refusals.len() as usize, count }
        } else {
            Login::Failed(CoreError::Ssh { kind: CoreErrorKind::AgentAuthFailed, source: None })
        },
    decreases refusals.len(),
{
    if refusals.len() > 0 {
        let earlier = refusals.drop_last();
        assert(forall|i: int| 0 <= i < earlier.len() ==> #[trigger] earlier[i] == refusals[i]);
        law_the_keys_of_the_agent_have_their_turn(count, earlier);
        assert(refusals.last() == refusals[refusals.len() - 1]);
    }
}

/// What a user is asked about a key tells of that host and that key, and says that another key is
/// known exactly where one is, and which. A key that is known is not asked about; and where there
/// is no place for the hosts, no key is taken.
pub proof fn law_the_user_is_told_which_key_it_is(
    content: Seq<char>,
    host: Seq<char>,
    port: u16,
    fp: Seq<char>,
    key_type: Seq<char>,
)
    ensures
        ({
            let asked = connection::judged(Some(content), host, port, fp, key_type);
            let status = host_key::status(content, host_key::entry_of(host, port), fp);
            &&& asked is Ask <==> !(status is Known)
            &&& asked is Accepted <==> status is Known
            &&& asked matches KeyCheckView::Ask { prompt } ==> {
                &&& prompt.host == host
                &&& prompt.port == port
                &&& prompt.key_type == key_type
                &&& prompt.fingerprint == fp
                &&& status is Unknown ==> prompt.mismatch is None
                &&& status matches StatusView::Mismatch { stored } ==> prompt.mismatch == Some(stored)
            }
        }),
        connection::judged(None, host, port, fp, key_type) is Refused,
{
}

/// What comes of the user's answer: only a yes goes on, the hosts are then read again, what is
/// written makes that key known, and the key is taken only once that was written. Any other answer,
/// and any failure, refuses it.
pub proof fn law_only_a_yes_that_is_kept_counts(prompt: PromptView, content: String)
    ensures
        ({
            let ask = KeyCheckView::Ask { prompt };
            let reread = KeyCheckView::Reread { prompt };
            let write = connection::key_following(reread, KeyReply::Content(content));
            &&& connection::key_following(ask, KeyReply::Answer(Some(true))) == reread
            &&& connection::key_following(ask, KeyReply::Answer(Some(false))) is Refused
            &&& connection::key_following(ask, KeyReply::Answer(None)) is Refused
            &&& connection::key_following(reread, KeyReply::NoPlace) is Refused
            &&& write is Write
            &&& connection::key_following(write, KeyReply::Written(true)) is Accepted
            &&& connection::key_following(write, KeyReply::Written(false)) is Refused
            &&& host_key::laws::nameable(prompt.host) && host_key::solid(prompt.fingerprint) && (
            prompt.mismatch is Some || host_key::status(
                content@,
                host_key::entry_of(prompt.host, prompt.port),
                prompt.fingerprint,
            ) is Unknown) ==> host_key::status(
                write->content,
                host_key::entry_of(prompt.host, prompt.port),
                prompt.fingerprint,
            ) == StatusView::Known
        }),
{
    if host_key::laws::nameable(prompt.host) && host_key::solid(prompt.fingerprint) && (
    prompt.mismatch is Some || host_key::status(
        content@,
        host_key::entry_of(prompt.host, prompt.port),
        prompt.fingerprint,
    ) is Unknown) {
        connection::law_agreed_keys_are_known(content@, prompt);
    }
}

/// What was decided about a key stays decided.
pub proof fn law_a_judgement_is_final(k: KeyCheckView, reply: KeyReply)
    requires
        k is Accepted || k is Refused,
    ensures
        connection::key_following(k, reply) == k,
{
}

/// A channel is opened in three steps that differ: first the channel itself, then what is to run
/// on it, and then that is started. Each step that fails tells of itself.
pub proof fn law_channels_are_opened_in_order(step: ChannelStep, source: crate::error::Source)
    ensures
        connection::step_behind(ChannelStep::ShellChannel) == Some(ChannelStep::Pty),
        connection::step_behind(ChannelStep::Pty) == Some(ChannelStep::Shell),
        connection::step_behind(ChannelStep::Shell) is None,
        connection::step_behind(ChannelStep::SftpChannel) == Some(ChannelStep::Subsystem),
        connection::step_behind(ChannelStep::Subsystem) == Some(ChannelStep::Session),
        connection::step_behind(ChannelStep::Session) is None,
        match connection::step_failed(step, source) {
            CoreError::Ssh { kind, source: behind } => behind == Some(source) && match step {
                ChannelStep::ShellChannel => kind == CoreErrorKind::ChannelOpen,
                ChannelStep::Pty => kind == CoreErrorKind::RequestPty,
                ChannelStep::Shell => kind == CoreErrorKind::StartShell,
                ChannelStep::SftpChannel => kind == CoreErrorKind::SftpChannelOpen,
                ChannelStep::Subsystem => kind == CoreErrorKind::SftpSubsystem,
                ChannelStep::Session => false,
            },
            CoreError::Sftp { kind, source: behind } => behind == Some(source) && kind
                == CoreErrorKind::SftpInit && step == ChannelStep::Session,
            CoreError::Io(_, _) => false,
        },
{
}

} // verus!
