//! Hosts' keys and connections.

use base64::Engine;
use rterm::local_path::LocalPath;
use rterm::bridge::{is_user_interaction, pump, Arrived, Next, TerminalCall};
use rterm::config::paths::Roots;
use rterm::config::session::{AuthMethod, SessionConfig};
use rterm::connect::build_secrets;
use rterm::connection::{
    check_server_key, connect, ChannelStep, HostKeyPrompt, HostKeyReply, KeyCheck, KeyReply,
    Login, LoginReply, SessionSecrets,
};
use rterm::crypto::Vault;
use rterm::error::{CoreError, CoreErrorKind, Source};
use rterm::host_key::{
    check_host_key, fingerprint, key_type, path, replace_host_key, trust_host_key, HostKeyStatus,
};
use rterm::hostkey::{Event, Message, State};
use rterm::tasks::deadline::{connect_deadline, outcome, Deadline, Ended};

fn prompt() -> HostKeyPrompt {
    HostKeyPrompt {
        host: "example.com".into(),
        port: 22,
        key_type: "ssh-ed25519".into(),
        fingerprint: "aa:bb:cc".into(),
        mismatch: None,
    }
}

fn reply() -> HostKeyReply {
    HostKeyReply::new(1)
}

#[test]
fn new_state_is_empty() {
    let s = State::new();
    assert!(s.is_empty());
    assert!(s.head().is_none());
}

#[test]
fn prompt_enqueues_and_head_is_first() {
    let mut s = State::new();
    let _ = s.update(Message::Prompt(1, prompt(), reply()));
    assert!(!s.is_empty());
    let h = s.head().unwrap();
    assert_eq!(h.tab_id, 1);
    assert_eq!(h.prompt.host, "example.com");
}

#[test]
fn decision_pops_only_head() {
    let mut s = State::new();
    let _ = s.update(Message::Prompt(1, prompt(), reply()));
    let _ = s.update(Message::Prompt(2, prompt(), reply()));
    let _ = s.update(Message::Decision(true));
    assert_eq!(s.head().unwrap().tab_id, 2);
    let _ = s.update(Message::Decision(false));
    assert!(s.is_empty());
}

#[test]
fn dismiss_pops_head() {
    let mut s = State::new();
    let _ = s.update(Message::Prompt(7, prompt(), reply()));
    let _ = s.update(Message::Dismiss);
    assert!(s.is_empty());
    assert!(s.head().is_none());
}

#[test]
fn remove_for_tab_clears_only_matching() {
    let mut s = State::new();
    let _ = s.update(Message::Prompt(1, prompt(), HostKeyReply::new(11)));
    let _ = s.update(Message::Prompt(2, prompt(), HostKeyReply::new(12)));
    let _ = s.update(Message::Prompt(1, prompt(), HostKeyReply::new(13)));
    let told = s.remove_for_tab(1);
    assert_eq!(told, vec![Event::Answer(11, false), Event::Answer(13, false)]);
    assert_eq!(s.head().unwrap().tab_id, 2);
    assert!(!s.is_empty());
}

#[test]
fn the_one_who_waits_is_told_the_answer() {
    let mut s = State::new();
    let _ = s.update(Message::Prompt(1, prompt(), HostKeyReply::new(5)));
    let _ = s.update(Message::Prompt(1, prompt(), HostKeyReply::new(6)));
    assert_eq!(s.update(Message::Decision(true)), vec![Event::Answer(5, true)]);
    assert_eq!(s.update(Message::Dismiss), vec![Event::Answer(6, false)]);
}

#[test]
fn only_the_first_answer_counts() {
    let mut r = HostKeyReply::new(9);
    assert_eq!(r.handle(), 9);
    assert_eq!(r.reply(true), Some(true));
    assert_eq!(r.reply(false), None);
}

/// The key of a public host, as it is published, and its fingerprint.
fn known_key() -> Vec<u8> {
    base64::engine::general_purpose::STANDARD
        .decode("AAAAC3NzaC1lZDI1NTE5AAAAIOMqqnkVzrm0SdG6UOoqKLsabgH5C9okWi0dh2l9GKJl")
        .unwrap()
}

const KNOWN_FINGERPRINT: &str = "SHA256:+DiY3wvvV6TuJJhbpZisF/zLDA0zPMSvHdkr4UvCOqU";

#[test]
fn a_key_has_a_fingerprint_and_a_kind() {
    assert_eq!(fingerprint(&known_key()).as_deref(), Some(KNOWN_FINGERPRINT));
    assert_eq!(key_type(&known_key()).as_deref(), Some("ssh-ed25519"));
    assert_eq!(fingerprint(&[1, 2, 3]), None);
    assert_eq!(key_type(&[]), None);
}

#[test]
fn hosts_are_known_once_they_are_trusted() {
    assert!(matches!(check_host_key("", "h", 22, "SHA256:a"), HostKeyStatus::Unknown));
    let file = trust_host_key("", "h", 22, "SHA256:a");
    assert_eq!(file, "h:22 SHA256:a\n");
    assert!(matches!(check_host_key(&file, "h", 22, "SHA256:a"), HostKeyStatus::Known));
    assert!(matches!(check_host_key(&file, "h", 2222, "SHA256:a"), HostKeyStatus::Unknown));
    match check_host_key(&file, "h", 22, "SHA256:b") {
        HostKeyStatus::Mismatch { stored } => assert_eq!(stored, "SHA256:a"),
        _ => panic!("the other key was not noticed"),
    }
}

#[test]
fn a_replaced_key_takes_the_place_of_the_old_one() {
    let file = "a:22 SHA256:1\nb:22 SHA256:2\n";
    let after = replace_host_key(file, "a", 22, "SHA256:3");
    assert!(matches!(check_host_key(&after, "a", 22, "SHA256:3"), HostKeyStatus::Known));
    assert!(matches!(check_host_key(&after, "b", 22, "SHA256:2"), HostKeyStatus::Known));
    assert!(!after.contains("SHA256:1"));
    let many = "a:22 SHA256:1\nb:22 SHA256:2\na:22 SHA256:9\n# note\n";
    let after = replace_host_key(many, "a", 22, "SHA256:3");
    assert_eq!(after, "b:22 SHA256:2\n# note\na:22 SHA256:3\n");
}

#[test]
fn a_host_without_a_name_is_known_by_its_port() {
    let file = trust_host_key("", "", 22, "SHA256:1");
    assert!(matches!(check_host_key(&file, "", 22, "SHA256:1"), HostKeyStatus::Known));
    let after = replace_host_key(&file, "", 22, "SHA256:2");
    assert_eq!(after, ":22 SHA256:2\n");
    assert!(matches!(check_host_key(&after, "", 22, "SHA256:2"), HostKeyStatus::Known));
}

#[test]
fn the_file_of_the_hosts_is_among_the_caches() {
    let roots = Roots {
        test: Some(LocalPath::of("/t")),
        workspace: None,
        config: None,
        cache: None,
    };
    assert_eq!(path(&roots).ok().unwrap().names, vec!["cache", "known_hosts"]);
    let nowhere = Roots { test: None, workspace: None, config: None, cache: None };
    assert!(matches!(
        path(&nowhere),
        Err(CoreError::Ssh { kind: CoreErrorKind::CacheDirUnknown, .. })
    ));
}

#[test]
fn a_known_key_is_accepted_without_a_question() {
    let file = trust_host_key("", "h", 22, KNOWN_FINGERPRINT);
    assert!(matches!(
        check_server_key(Some(&file), "h", 22, &known_key()),
        KeyCheck::Accepted
    ));
}

#[test]
fn an_unknown_key_is_asked_about_and_written_down() {
    let check = check_server_key(Some(""), "h", 22, &known_key());
    match &check {
        KeyCheck::Ask { prompt } => {
            assert_eq!(prompt.fingerprint, KNOWN_FINGERPRINT);
            assert_eq!(prompt.key_type, "ssh-ed25519");
            assert!(prompt.mismatch.is_none());
        }
        _ => panic!("no question"),
    }
    let check = check.next(KeyReply::Answer(Some(true)));
    assert!(matches!(check, KeyCheck::Reread { .. }));
    let check = check.next(KeyReply::Content("x:22 SHA256:z\n".to_string()));
    match &check {
        KeyCheck::Write { content } => {
            assert!(content.starts_with("x:22 SHA256:z\n"));
            assert!(content.contains(KNOWN_FINGERPRINT));
        }
        _ => panic!("nothing written"),
    }
    assert!(matches!(check.next(KeyReply::Written(true)), KeyCheck::Accepted));
}

#[test]
fn a_refused_or_unanswered_key_is_refused() {
    for answer in [Some(false), None] {
        let check = check_server_key(Some(""), "h", 22, &known_key());
        assert!(matches!(check.next(KeyReply::Answer(answer)), KeyCheck::Refused));
    }
}

#[test]
fn a_changed_key_is_asked_about_with_the_old_one() {
    let file = trust_host_key("", "h", 22, "SHA256:old");
    match check_server_key(Some(&file), "h", 22, &known_key()) {
        KeyCheck::Ask { prompt } => assert_eq!(prompt.mismatch.as_deref(), Some("SHA256:old")),
        _ => panic!("no question"),
    }
}

fn login(auth: AuthMethod, replies: Vec<LoginReply>) -> Login {
    let vault = Vault::with_key([1u8; 32]);
    let cfg = session(auth);
    let secrets = build_secrets(&cfg, &vault).ok().unwrap_or_default();
    let mut l = connect(&cfg.auth, &secrets);
    for r in replies {
        l = l.next(r);
    }
    l
}

fn session(auth: AuthMethod) -> SessionConfig {
    SessionConfig {
        id: "s".into(),
        name: "n".into(),
        host: "h".into(),
        port: 22,
        username: "u".into(),
        auth,
        group: None,
    }
}

fn password() -> AuthMethod {
    let vault = Vault::with_key([1u8; 32]);
    AuthMethod::Password { password: Some(vault.encrypt("pw")) }
}

#[test]
fn a_password_lets_in_or_not() {
    assert!(matches!(
        login(password(), vec![LoginReply::Completed, LoginReply::Completed]),
        Login::Done
    ));
    assert!(matches!(
        login(password(), vec![LoginReply::Completed, LoginReply::Rejected]),
        Login::Failed(CoreError::Ssh { kind: CoreErrorKind::AuthPasswordRejected, .. })
    ));
    assert!(matches!(
        login(password(), vec![LoginReply::Failed(Source::Other("no".to_string()))]),
        Login::Failed(CoreError::Ssh { kind: CoreErrorKind::Connect, .. })
    ));
    let missing = connect(&password(), &SessionSecrets::default()).next(LoginReply::Completed);
    assert!(matches!(
        missing,
        Login::Failed(CoreError::Ssh { kind: CoreErrorKind::MissingPassword, .. })
    ));
}

#[test]
fn all_keys_of_the_agent_are_tried() {
    let replies = vec![
        LoginReply::Completed,
        LoginReply::Completed,
        LoginReply::Keys(2),
        LoginReply::Rejected,
    ];
    assert!(matches!(
        login(AuthMethod::Agent, replies),
        Login::OfferAgentKey { index: 1, count: 2 }
    ));
    let replies = vec![LoginReply::Completed, LoginReply::Completed, LoginReply::Keys(0)];
    assert!(matches!(
        login(AuthMethod::Agent, replies),
        Login::Failed(CoreError::Ssh { kind: CoreErrorKind::AgentAuthFailed, .. })
    ));
}

#[test]
fn secrets_are_opened_for_the_way_to_log_in() {
    let vault = Vault::with_key([1u8; 32]);
    let s = build_secrets(&session(password()), &vault).ok().unwrap();
    assert_eq!(s.password.unwrap().as_str(), "pw");
    assert!(s.key_passphrase.is_none());
    let bare = session(AuthMethod::Password { password: None });
    assert_eq!(build_secrets(&bare, &vault).err().unwrap().spell(), "app.no_password");
    let other = Vault::with_key([2u8; 32]);
    assert_eq!(
        build_secrets(&session(password()), &other).err().unwrap().spell(),
        "app.decrypt_failed"
    );
    let key = AuthMethod::PublicKey {
        key_path: LocalPath::of("/k"),
        passphrase: Some(vault.encrypt("pp")),
    };
    let s = build_secrets(&session(key), &vault).ok().unwrap();
    assert_eq!(s.key_passphrase.unwrap().as_str(), "pp");
    let open = AuthMethod::PublicKey { key_path: LocalPath::of("/k"), passphrase: None };
    let s = build_secrets(&session(open), &vault).ok().unwrap();
    assert!(s.key_passphrase.is_none() && s.password.is_none());
    assert!(build_secrets(&session(AuthMethod::Agent), &vault).is_ok());
}

#[test]
fn channels_are_opened_step_by_step() {
    let step = ChannelStep::open_shell_channel();
    let step = step.next().unwrap();
    let step = step.next().unwrap();
    assert!(matches!(step, ChannelStep::Shell));
    assert!(matches!(
        step.failure(Source::Other("x".to_string())),
        CoreError::Ssh { kind: CoreErrorKind::StartShell, .. }
    ));
    assert!(step.next().is_none());
    let step = ChannelStep::open_sftp().next().unwrap();
    assert!(matches!(step, ChannelStep::Subsystem));
}

#[test]
fn the_time_for_a_connection_stands_still_while_the_user_is_asked() {
    assert_eq!(connect_deadline(0, 5), None);
    assert_eq!(connect_deadline(30, 5), Some(30_005));
    let mut d = Deadline::new(30, 0);
    assert!(!d.is_over(29_999) && d.is_over(30_000));
    d.ask();
    assert!(!d.is_over(1_000_000));
    d.answered(1_000_000);
    assert!(!d.is_over(1_029_999) && d.is_over(1_030_000));
    assert_eq!(outcome(Ended::TimedOut).err().unwrap().spell(), "app.connect_timeout");
    assert_eq!(outcome(Ended::Finished(Ok(4))).ok(), Some(4));
    assert!(outcome(Ended::Broken("b".to_string())).is_err());
}

#[test]
fn bytes_are_moved_until_a_side_is_closed() {
    assert_eq!(pump(Arrived::FromServer(10)), Next::ToTerminal(10));
    assert_eq!(pump(Arrived::FromTerminal(3)), Next::ToServer(3));
    assert_eq!(pump(Arrived::FromServer(0)), Next::Stop);
    assert_eq!(pump(Arrived::FromTerminal(0)), Next::Stop);
    assert_eq!(pump(Arrived::ServerFailed), Next::Stop);
    assert_eq!(pump(Arrived::TerminalFailed), Next::Stop);
    assert_eq!(pump(Arrived::Resized(80, 24)), Next::TellSize(80, 24));
    assert_eq!(pump(Arrived::SizeTold(false)), Next::Wait);
    assert_eq!(pump(Arrived::Written(true)), Next::Wait);
    assert_eq!(pump(Arrived::Written(false)), Next::Stop);
}

#[test]
fn output_is_no_sign_of_the_user() {
    assert!(is_user_interaction(TerminalCall::Write));
    assert!(is_user_interaction(TerminalCall::Scroll));
    assert!(!is_user_interaction(TerminalCall::Output));
    assert!(!is_user_interaction(TerminalCall::Resize));
}
