//! The program as a whole.

use rterm::local_path::LocalPath;
use rterm::app::routing::Message;
use rterm::app::{App, Env, Task};
use rterm::boot;
use rterm::config::app_config::{AppConfig, Language};
use rterm::config::paths::Roots;
use rterm::config::session::{new_id, AuthMethod, SessionConfig};
use rterm::config::store::{SessionStore, SessionsFile};
use rterm::connection::{HostKeyPrompt, HostKeyReply};
use rterm::crypto::Vault;
use rterm::files;
use rterm::font::{font_lists, FontLists};
use rterm::hostkey;
use rterm::i18n::{Text, ToastKind};
use rterm::layout;
use rterm::layout::{Gesture, Layer};
use rterm::masterpw;
use rterm::masterpw::rekey::{can_move, can_move_all, change_keys, rekey_sessions, setup_sessions};
use rterm::model::ConnectionStatus;
use rterm::session;
use rterm::settings;
use rterm::tabs;
use rterm::tabs::CenterView;
use rterm::transfer::UploadItem;
use rterm::updates;
use rterm::window;

fn no_fonts() -> FontLists {
    font_lists(&Vec::new())
}

fn env(fonts: &FontLists) -> Env<'_> {
    Env {
        nanos: 1_000,
        now_unix: 1_700_000_000,
        now_ms: 5_000,
        nonce: [4u8; 12],
        default_label: "Default",
        fonts,
    }
}

/// The world around the program: its file, the keyring, and what the user was told.
struct World {
    app: App,
    disk: Option<SessionsFile>,
    keyring: Option<[u8; 32]>,
    told: Vec<ToastKind>,
    fonts: FontLists,
}

fn read(disk: &Option<SessionsFile>) -> Option<SessionsFile> {
    disk.as_ref().map(|f| SessionsFile {
        crypto: f.crypto.as_ref().map(|h| h.copied()),
        sessions: f.sessions.iter().map(|s| s.copied()).collect(),
    })
}

fn store() -> Option<SessionStore> {
    let roots =
        Roots { test: Some(LocalPath::of("/t")), workspace: None, config: None, cache: None };
    SessionStore::new(&roots).ok()
}

/// Starts the program on a disk and a keyring.
fn start(disk: Option<SessionsFile>, keyring: Option<[u8; 32]>, remember: bool) -> World {
    let fonts = no_fonts();
    let mut config = AppConfig::default();
    config.security.remember_master_key = remember;
    config.updates.auto_check = false;
    let header = disk.as_ref().and_then(|f| f.crypto.as_ref().map(|h| h.copied()));
    let begun = boot::start(header.as_ref(), remember, keyring);
    let sessions = SessionStore::load(read(&disk));
    let keep = begun.keep_key;
    let write = begun.write_header;
    let (app, _tasks) = App::new(store(), sessions, config, begun, &env(&fonts));
    let mut w = World { app, disk, keyring, told: Vec::new(), fonts };
    if keep {
        w.keyring = w.app.vault.as_ref().map(|v| v.dek_bytes());
    }
    if write {
        w.disk =
            w.app.vault.as_ref().map(|v| SessionStore::save(&Vec::new(), v.header()));
    }
    w
}

impl World {
    /// A message is dealt with, and what is left to be done; tells the message that follows.
    fn step(&mut self, msg: masterpw::Message) -> Option<masterpw::Message> {
        let fonts = no_fonts();
        let tasks = self.app.update(Message::MasterPw(msg), &env(&fonts));
        let mut next: Option<masterpw::Message> = None;
        for t in tasks {
            if let Task::MasterPw(events) = t {
                for e in events {
                    for t in self.app.apply_masterpw_event(e) {
                        if let Some(m) = self.perform(t) {
                            next = Some(m);
                        }
                    }
                }
            }
        }
        next
    }

    fn written(&mut self, v: &Vault, list: &Vec<SessionConfig>) {
        self.disk = Some(SessionStore::save(list, v.header()));
    }

    fn perform(&mut self, t: Task) -> Option<masterpw::Message> {
        match t {
            Task::StoreKey(key) => self.keyring = Some(key),
            Task::DeleteKey => self.keyring = None,
            Task::Toast(kind, _) => self.told.push(kind),
            Task::MasterPwWork(masterpw::Event::Derive(p)) => {
                return Some(masterpw::Message::SetupDerive(Vault::new(&p, Some(4))));
            }
            Task::MasterPwWork(masterpw::Event::CheckAndDerive(current, new)) => {
                let header = self.disk.as_ref().unwrap().crypto.as_ref().unwrap().copied();
                return Some(masterpw::Message::ChangeDerive(change_keys(
                    &current,
                    &new,
                    &header,
                    Some(4),
                )));
            }
            Task::MasterPwWork(masterpw::Event::Rekey(to)) => {
                let list =
                    setup_sessions(&self.app.session.sessions, self.app.vault.as_ref(), &to);
                self.written(&to, &list);
                return Some(masterpw::Message::SetupRekey(Ok((to, list))));
            }
            Task::MasterPwWork(masterpw::Event::RekeyFrom(from, to)) => {
                let list = rekey_sessions(&self.app.session.sessions, &from, &to);
                self.written(&to, &list);
                return Some(masterpw::Message::ChangeRekey(Ok((to, list))));
            }
            Task::MasterPwWork(masterpw::Event::RekeyRandom) => {
                let to = Vault::create_random();
                let from = self.app.vault.as_ref().unwrap();
                let list = rekey_sessions(&self.app.session.sessions, from, &to);
                self.written(&to, &list);
                return Some(masterpw::Message::Disabled(Ok((to, list))));
            }
            _ => {}
        }
        None
    }

    fn type_setup(&mut self, password: &str) {
        self.app.masterpw.setup = true;
        self.app.masterpw.input = password.to_string();
        self.app.masterpw.confirm = password.to_string();
        self.app.masterpw.memorized = true;
    }

    fn drive_setup(&mut self) {
        let m = self.step(masterpw::Message::Submit).unwrap();
        let m = self.step(m).unwrap();
        let _ = self.step(m);
    }

    fn drive_change(&mut self) {
        let m = self.step(masterpw::Message::ChangeSubmit).unwrap();
        if let Some(m) = self.step(m) {
            let _ = self.step(m);
        }
    }

    fn header_salt(&self) -> String {
        self.app.vault.as_ref().unwrap().header().salt.clone()
    }
}

#[test]
fn mode0_startup_creates_random_key_and_self_unlocks() {
    let w = start(None, None, true);
    assert!(w.app.vault.is_some());
    assert!(!w.app.masterpw.setup);
    assert!(!w.app.vault.as_ref().unwrap().header().master_password_set);
    assert!(w.keyring.is_some());
    let header = SessionStore::load_crypto_header(read(&w.disk).unwrap()).ok().unwrap();
    assert!(!header.master_password_set);
}

#[test]
fn setup_mode0_to_mode1_persists_and_round_trips() {
    let mut w = start(None, None, true);
    assert!(!w.app.vault.as_ref().unwrap().header().master_password_set);
    let old_random_dek = w.app.vault.as_ref().unwrap().dek_bytes();
    w.type_setup("hunter2-master");
    w.drive_setup();
    assert!(w.app.vault.is_some());
    assert!(!w.app.masterpw.setup);
    assert!(w.app.vault.as_ref().unwrap().header().master_password_set);
    let header = SessionStore::load_crypto_header(read(&w.disk).unwrap()).ok().unwrap();
    let reloaded = Vault::unlock("hunter2-master", &header).ok().unwrap();
    assert_eq!(reloaded.header().salt, w.header_salt());
    assert!(Vault::unlock("wrong-pass", &header).is_err());
    assert!(Vault::from_dek(&old_random_dek, &header).is_err());
}

#[test]
fn setup_without_store_reports_error_instead_of_silent_skip() {
    let mut w = start(None, None, true);
    w.app.session.store = None;
    w.type_setup("pw");
    let _ = w.step(masterpw::Message::Submit);
    assert!(w.app.masterpw.error.is_some());
    assert!(w.app.masterpw.setup);
}

#[test]
fn change_master_password_rekeys_all_credentials() {
    let mut w = start(None, None, true);
    w.type_setup("old-master");
    w.drive_setup();
    let old_salt = w.header_salt();
    let old_dek = w.app.vault.as_ref().unwrap().dek_bytes();
    let secret = "topsecret";
    let env = w.app.vault.as_ref().unwrap().encrypt(secret);
    w.app.session.sessions.push(SessionConfig {
        id: new_id(1),
        name: "demo".into(),
        host: "example.com".into(),
        port: 22,
        username: "root".into(),
        auth: AuthMethod::Password { password: Some(env) },
        group: None,
    });
    w.app.masterpw.change_current = "old-master".to_string();
    w.app.masterpw.change_new = "new-master".to_string();
    w.app.masterpw.change_new_confirm = "new-master".to_string();
    w.app.masterpw.change_memorized = true;
    w.drive_change();
    assert!(w.app.masterpw.change_error.is_none());
    assert!(!w.app.masterpw.change_open);
    assert!(!w.told.is_empty());
    assert_ne!(w.header_salt(), old_salt);
    let new_env = match &w.app.session.sessions[0].auth {
        AuthMethod::Password { password } => password.as_ref().unwrap().copied(),
        _ => panic!("the way to log in changed"),
    };
    let decrypted = w.app.vault.as_ref().unwrap().decrypt(&new_env).unwrap();
    assert_eq!(decrypted.as_str(), secret);
    assert!(Vault::with_key(old_dek).decrypt(&new_env).is_err());
}

#[test]
fn change_master_password_rejects_wrong_current() {
    let mut w = start(None, None, true);
    w.type_setup("old-master");
    w.drive_setup();
    let before = w.header_salt();
    w.app.masterpw.change_open = true;
    w.app.masterpw.change_current = "WRONG".to_string();
    w.app.masterpw.change_new = "new-master".to_string();
    w.app.masterpw.change_new_confirm = "new-master".to_string();
    w.app.masterpw.change_memorized = true;
    w.drive_change();
    assert!(w.app.masterpw.change_error.is_some());
    assert!(w.app.masterpw.change_open);
    assert_eq!(w.header_salt(), before);
}

#[test]
fn auto_unlock_uses_keyring_when_available() {
    let w = start(None, None, true);
    assert!(w.app.vault.is_some());
    assert!(!w.app.masterpw.setup);
    assert!(w.keyring.is_some());
    let mut w = start(w.disk, w.keyring, true);
    w.type_setup("launch-master");
    w.drive_setup();
    assert!(w.app.vault.is_some());
    assert_eq!(w.keyring, w.app.vault.as_ref().map(|v| v.dek_bytes()));
    let w2 = start(read(&w.disk), w.keyring, true);
    assert!(w2.app.vault.is_some());
    assert!(!w2.app.masterpw.setup);
    let _ = w.step(masterpw::Message::RememberToggled(false));
    assert!(w.keyring.is_none());
    let w3 = start(w.disk, w.keyring, false);
    assert!(w3.app.vault.is_none());
}

#[test]
fn giving_up_the_password_goes_back_to_a_random_key() {
    let mut w = start(None, None, true);
    w.type_setup("pw");
    w.drive_setup();
    assert!(w.app.can_enable_sync());
    let m = w.step(masterpw::Message::Disable).unwrap();
    let _ = w.step(m);
    assert!(!w.app.can_enable_sync());
    assert!(!w.app.vault.as_ref().unwrap().header().master_password_set);
}

fn plain_session(id: &str, auth: AuthMethod) -> SessionConfig {
    SessionConfig {
        id: id.to_string(),
        name: format!("name of {id}"),
        host: "h".into(),
        port: 22,
        username: "u".into(),
        auth,
        group: None,
    }
}

fn with_session() -> World {
    let mut w = start(None, None, true);
    w.app.session.sessions.push(plain_session("a", AuthMethod::Agent));
    w.app
        .session
        .sessions
        .push(plain_session("b", AuthMethod::Password { password: None }));
    w
}

fn status(w: &World) -> Option<String> {
    w.app.status.as_ref().map(|t| t.spell())
}

#[test]
fn connecting_opens_a_tab_at_once() {
    let mut w = with_session();
    let tasks = w.app.apply_session_event(session::Event::Connect("a".to_string()));
    assert!(matches!(&tasks[..], [Task::Connect(c)] if c.tab_id == 1 && c.config.id == "a"));
    let tab = &w.app.tabs.list()[0];
    assert_eq!(tab.title, "name of a");
    assert_eq!(tab.status, ConnectionStatus::Connecting);
    assert_eq!(w.app.session_status("a"), ConnectionStatus::Connecting);
    assert_eq!(w.app.tabs.active(), Some(1));
    assert!(w.app.active_sftp().is_some());
}

#[test]
fn a_session_without_its_password_is_not_connected() {
    let mut w = with_session();
    let tasks = w.app.apply_session_event(session::Event::Connect("b".to_string()));
    assert!(tasks.is_empty());
    assert_eq!(status(&w).as_deref(), Some("app.no_password"));
    assert_eq!(w.app.tabs.list().len(), 1);
}

#[test]
fn nothing_is_connected_while_the_vault_is_locked() {
    let mut w = with_session();
    w.app.vault = None;
    let tasks = w.app.apply_session_event(session::Event::Connect("a".to_string()));
    assert!(tasks.is_empty());
    assert_eq!(status(&w).as_deref(), Some("app.vault_locked"));
    let tasks = w.app.connect_session(9, "nobody");
    assert!(tasks.is_empty());
}

#[test]
fn files_need_a_terminal_and_a_connection() {
    let mut w = with_session();
    assert!(w.app.open_files("a").is_empty());
    assert_eq!(status(&w).as_deref(), Some("app.open_terminal_first"));
    let _ = w.app.open_tab("a");
    assert!(w.app.open_files("a").is_empty());
    assert_eq!(status(&w).as_deref(), Some("app.connect_session_first"));
    let tasks = w.app.apply_tabs_event(tabs::Event::OpenTerminalBridge(1, 77));
    assert!(matches!(
        &tasks[..],
        [Task::TabsWork(tabs::Event::OpenTerminalBridge(1, 77))]
    ));
    let tasks = w.app.open_files("a");
    assert!(matches!(&tasks[..], [Task::OpenSession(1, id, None, Some(77))] if id == "a"));
    assert_eq!(w.app.center, CenterView::Files);
    assert_eq!(w.app.active_session.as_deref(), Some("a"));
}

#[test]
fn deleting_a_session_closes_its_tabs() {
    let mut w = with_session();
    let _ = w.app.open_tab("a");
    let _ = w.app.open_tab("b");
    let _ = w.app.apply_session_event(session::Event::SessionDeleted("a".to_string()));
    assert_eq!(w.app.tabs.list().len(), 1);
    assert_eq!(w.app.tabs.list()[0].session_id, "b");
}

fn connected(w: &mut World) {
    let _ = w.app.open_tab("a");
    let _ = w.app.apply_tabs_event(tabs::Event::OpenTerminalBridge(1, 77));
    let fonts = no_fonts();
    let _ = w.app.update(
        Message::Tabs(tabs::Message::TerminalMounted(1, Ok(5))),
        &env(&fonts),
    );
}

#[test]
fn showing_the_files_opens_those_of_a_connected_tab_once() {
    let mut w = with_session();
    assert!(w.app.handle_switch_center(CenterView::Files).is_empty());
    connected(&mut w);
    let tasks = w.app.handle_switch_center(CenterView::Files);
    assert!(matches!(&tasks[..], [Task::OpenSession(1, _, None, Some(77))]));
    let fonts = no_fonts();
    let open = files::Message::SftpOpenSession(1, "a".to_string(), None, Some(77));
    let tasks = w.app.update(Message::Files(open), &env(&fonts));
    assert!(matches!(
        &tasks[..],
        [Task::Files(e)] if matches!(&e[..], [files::Event::OpenChannel(1, _, 77)])
    ));
    assert!(w.app.handle_switch_center(CenterView::Files).is_empty());
    assert!(w.app.handle_switch_center(CenterView::Sessions).is_empty());
    assert_eq!(w.app.center, CenterView::Sessions);
}

fn question(w: &mut World, tab: u64, handle: u64) {
    let prompt = HostKeyPrompt {
        host: "h".into(),
        port: 22,
        key_type: "k".into(),
        fingerprint: "f".into(),
        mismatch: None,
    };
    let fonts = no_fonts();
    let m = hostkey::Message::Prompt(tab, prompt, HostKeyReply::new(handle));
    let _ = w.app.update(Message::HostKey(m), &env(&fonts));
}

#[test]
fn giving_up_closes_what_is_on_top() {
    let mut w = with_session();
    let fonts = no_fonts();
    let e = env(&fonts);
    let _ = w.app.update(Message::Session(session::Message::NewSession), &e);
    let _ = w.app.update(Message::Settings(settings::Message::Toggle), &e);
    question(&mut w, 1, 8);
    let tasks = w.app.update(Message::Escape, &e);
    assert!(matches!(
        &tasks[..],
        [Task::Answer(a)] if a == &vec![hostkey::Event::Answer(8, false)]
    ));
    assert!(w.app.settings.show_settings);
    let _ = w.app.update(Message::Escape, &e);
    assert!(!w.app.settings.show_settings && w.app.session.editor.is_some());
    let _ = w.app.update(Message::Escape, &e);
    assert!(w.app.session.editor.is_none());
    assert!(w.app.update(Message::Escape, &e).is_empty());
}

#[test]
fn a_menu_selects_what_is_under_the_pointer() {
    let mut w = with_session();
    let fonts = no_fonts();
    let e = env(&fonts);
    let _ = w.app.update(Message::RightPress, &e);
    assert!(w.app.session.selected_session.is_none());
    let _ = w.app.update(Message::Session(session::Message::SessionEnter("b".to_string())), &e);
    let _ = w.app.update(Message::RightPress, &e);
    assert_eq!(w.app.session.selected_session.as_deref(), Some("b"));
}

#[test]
fn closing_a_tab_refuses_its_question() {
    let mut w = with_session();
    connected(&mut w);
    question(&mut w, 1, 21);
    question(&mut w, 2, 22);
    let tasks = w.app.apply_tabs_event(tabs::Event::RemoveHostKeyForTab(1));
    assert!(matches!(
        &tasks[..],
        [Task::Answer(a)] if a == &vec![hostkey::Event::Answer(21, false)]
    ));
    assert_eq!(w.app.hostkey.head().unwrap().tab_id, 2);
}

#[test]
fn a_closed_tab_leaves_no_transfers() {
    let mut w = with_session();
    connected(&mut w);
    w.app.files.set_connection(1, 55);
    let fonts = no_fonts();
    let items = vec![UploadItem {
        local: LocalPath::of("/l/x"),
        rel: "x".to_string(),
    }];
    let _ = w.app.apply_sftp_event(files::Event::StartUpload(items), &env(&fonts));
    assert_eq!(w.app.transfer.running_len(), 1);
    let tasks = w.app.update(Message::Tabs(tabs::Message::CloseTab(1)), &env(&fonts));
    let mut closed: Vec<u64> = Vec::new();
    for t in tasks {
        if let Task::Tabs(list) = t {
            for e in list {
                for t in w.app.apply_tabs_event(e) {
                    if let Task::CloseTransfers(tab) = t {
                        closed.push(tab);
                    }
                }
            }
        }
    }
    assert_eq!(closed, vec![1]);
    let tasks = w.app.close_transfers(1, &env(&fonts));
    assert!(matches!(&tasks[..], [Task::Transfer(_)]));
    assert!(w.app.transfer.all_transfers().is_empty());
    assert_eq!(w.app.transfer.running_len(), 0);
}

#[test]
fn a_deleted_session_ends_the_transfers_of_its_tabs() {
    let mut w = with_session();
    connected(&mut w);
    let second = w.app.open_tab("a");
    let other = w.app.open_tab("b");
    let tasks = w.app.apply_session_event(session::Event::SessionDeleted("a".to_string()));
    let closed: Vec<u64> = tasks
        .iter()
        .filter_map(|t| match t {
            Task::CloseTransfers(tab) => Some(*tab),
            _ => None,
        })
        .collect();
    assert_eq!(closed, vec![1, second]);
    assert!(!closed.contains(&other));
}

#[test]
fn what_the_program_is_told_is_kept_with_a_nonce_of_its_own() {
    let fonts = no_fonts();
    let a = Env::drawn(1, 2, 3, "Default", &fonts);
    let b = Env::drawn(1, 2, 3, "Default", &fonts);
    assert_eq!((a.nanos, a.now_unix, a.now_ms, a.default_label), (1, 2, 3, "Default"));
    assert_ne!(a.nonce, b.nonce);
}

#[test]
fn uploads_go_to_the_tab_that_is_shown() {
    let mut w = with_session();
    connected(&mut w);
    w.app.files.set_connection(1, 55);
    let fonts = no_fonts();
    let items = vec![UploadItem {
        local: LocalPath::of("/l/x"),
        rel: "x".to_string(),
    }];
    let tasks = w.app.apply_sftp_event(files::Event::StartUpload(items), &env(&fonts));
    assert!(matches!(&tasks[..], [Task::Transfer(e)] if !e.is_empty()));
    let t = &w.app.transfer.all_transfers()[0];
    assert_eq!((t.tab_id, t.client, t.remote.as_str()), (1, Some(55), "x"));
    let ctx = w.app.transfer_ctx(&env(&fonts));
    assert_eq!(ctx.client, Some(55));
    assert_eq!(ctx.clients.get(&1), Some(&55));
    assert_eq!(ctx.remote_dir, ".");
    assert_eq!((ctx.max_concurrent, ctx.retry_attempts), (3, 2));
}

#[test]
fn an_uploaded_file_is_shown() {
    let mut w = with_session();
    connected(&mut w);
    w.app.files.set_connection(1, 55);
    let tasks = w.app.apply_transfer_event(rterm::transfer::Event::RefreshDir(1));
    assert!(matches!(
        &tasks[..],
        [Task::Files(e)] if matches!(&e[..], [files::Event::List(1, 55, p)] if p == ".")
    ));
    let toast = rterm::transfer::Event::Toast(ToastKind::Error, Text::entry("x"));
    assert!(matches!(
        &w.app.apply_transfer_event(toast)[..],
        [Task::Toast(ToastKind::Error, _)]
    ));
}

#[test]
fn settings_are_kept_and_take_effect() {
    let mut w = with_session();
    let tasks = w.app.apply_settings_event(settings::Event::FontSize(18f32.to_bits()));
    assert!(matches!(&tasks[..], [Task::SaveConfig, Task::ChangeFont(_, _)]));
    assert_eq!(f32::from_bits(w.app.config.terminal.font_size), 18.0);
    let tasks = w.app.apply_settings_event(settings::Event::Language(Language::En));
    assert!(matches!(&tasks[..], [Task::SaveConfig, Task::SetLocale(Language::En)]));
    let tasks = w.app.apply_settings_event(settings::Event::TerminalTheme("T".to_string()));
    assert!(matches!(&tasks[..], [Task::SaveConfig, Task::ChangeTheme(t)] if t == "T"));
    let tasks = w.app.apply_settings_event(settings::Event::ConnectTimeout(9));
    assert!(matches!(&tasks[..], [Task::SaveConfig]));
    assert_eq!(w.app.config.connection.timeout, 9);
    let tasks = w.app.apply_settings_event(settings::Event::OpenLogFolder);
    assert!(matches!(&tasks[..], [Task::OpenLogFolder]));
}

#[test]
fn the_time_of_the_last_look_is_kept() {
    let mut w = with_session();
    let tasks = w.app.apply_updates_event(updates::Event::SetLastCheck(Some(4)));
    assert!(matches!(&tasks[..], [Task::SaveConfig]));
    assert_eq!(w.app.config.updates.last_check_unix, Some(4));
    let tasks = w.app.apply_updates_event(updates::Event::Check);
    assert!(matches!(&tasks[..], [Task::UpdatesWork(updates::Event::Check)]));
}

#[test]
fn the_size_of_the_window_is_kept_before_it_closes() {
    let mut w = with_session();
    let (x, y) = (800f32.to_bits(), 600f32.to_bits());
    let tasks = w.app.apply_window_event(window::Event::PersistAndClose(3, x, y));
    assert!(matches!(
        &tasks[..],
        [Task::SaveConfig, Task::WindowWork(window::Event::Close(3))]
    ));
    assert_eq!(w.app.config.remembered_size(), Some((x, y)));
}

#[test]
fn a_window_closes_after_what_must_be_known() {
    let mut s = window::State::new();
    assert_eq!(s.update(window::Message::Opened(2), true), None);
    assert_eq!(s.id(), Some(2));
    assert_eq!(
        s.update(window::Message::CloseRequested(2), true),
        Some(window::Event::QueryMaximized(2))
    );
    assert_eq!(
        s.update(window::Message::CloseRequested(2), false),
        Some(window::Event::Close(2))
    );
    assert_eq!(
        s.update(window::Message::MaximizedForClose(2, true), true),
        Some(window::Event::Close(2))
    );
    assert_eq!(
        s.update(window::Message::MaximizedForClose(2, false), true),
        Some(window::Event::QuerySize(2))
    );
    assert_eq!(
        s.update(window::Message::SizeForClose(2, 7, 8), true),
        Some(window::Event::PersistAndClose(2, 7, 8))
    );
}

#[test]
fn a_lost_key_is_told_at_the_start() {
    let random = Vault::with_key([3u8; 32]);
    let begun = boot::start_with(Some(random.header()), true, None, [1u8; 32]);
    let fonts = no_fonts();
    let (app, tasks) =
        App::new(store(), Vec::new(), AppConfig::default(), begun, &env(&fonts));
    assert!(matches!(tasks[0], Task::Toast(ToastKind::Warning, _)));
    assert!(matches!(&tasks[1], Task::Updates(e) if e.len() == 2));
    assert_eq!(app.settings.ui_font_options, vec!["Default".to_string()]);
}

#[test]
fn a_question_about_a_key_lies_on_top() {
    let mut w = with_session();
    assert_eq!(layout::layers(&w.app), vec![Layer::Body(false)]);
    w.app.masterpw.change_open = true;
    w.app.settings.show_settings = true;
    question(&mut w, 1, 1);
    assert_eq!(
        layout::layers(&w.app),
        vec![Layer::Body(false), Layer::Settings, Layer::ChangeMasterPw, Layer::HostKey]
    );
    w.app.vault = None;
    assert!(layout::layers(&w.app).contains(&Layer::MasterPw));
}

#[test]
fn a_changed_key_is_warned_of() {
    let mut p = HostKeyPrompt {
        host: "h".into(),
        port: 22,
        key_type: "k".into(),
        fingerprint: "new".into(),
        mismatch: None,
    };
    let d = layout::host_key_dialog(&p);
    assert!(!d.warning && d.primary.1 && !d.secondary.1);
    assert_eq!(d.rows[1].1, "22");
    p.mismatch = Some("old".into());
    let d = layout::host_key_dialog(&p);
    assert!(d.warning && !d.primary.1 && d.secondary.1);
    assert_eq!(d.rows[0].1, "h:22");
    assert_eq!((d.rows[1].1.as_str(), d.rows[2].1.as_str()), ("old", "new"));
}

#[test]
fn the_change_of_the_password_says_what_is_wrong() {
    let mut s = masterpw::State::new();
    assert!(layout::change_dialog(&s).is_none());
    s.change_open = true;
    s.change_new = "a".to_string();
    s.change_new_confirm = "b".to_string();
    let d = layout::change_dialog(&s).unwrap();
    assert_eq!(d.error.unwrap().spell(), "masterpw.mismatch");
    assert!(matches!(d.submit, masterpw::Message::ChangeSubmit));
    s.stage = masterpw::MpwStage::Deriving;
    let d = layout::change_dialog(&s).unwrap();
    assert_eq!(d.label.spell(), "masterpw.deriving");
    assert!(matches!(d.cancel, masterpw::Message::Noop));
}

#[test]
fn files_can_be_shown_only_while_a_tab_is_connected() {
    let mut w = with_session();
    assert_eq!(layout::activity_bar(&w.app)[1].target, None);
    connected(&mut w);
    assert_eq!(layout::activity_bar(&w.app)[1].target, Some(CenterView::Files));
    assert_eq!(layout::activity_bar(&w.app)[1].icon.file_name(), "folder-multiple-16-filled");
}

#[test]
fn gestures_have_a_meaning() {
    assert!(matches!(layout::meaning(Gesture::EscapeKey), Some(Message::Escape)));
    assert!(matches!(layout::meaning(Gesture::RightButton), Some(Message::RightPress)));
    assert!(matches!(
        layout::meaning(Gesture::RenameKey),
        Some(Message::Files(files::Message::SftpRenameShortcut))
    ));
    assert!(matches!(
        layout::meaning(Gesture::CloseRequested),
        Some(Message::Tabs(tabs::Message::WindowClosing))
    ));
    assert!(layout::meaning(Gesture::Other).is_none());
    assert_eq!(layout::toast_title(ToastKind::Error).spell(), "app.toast.error");
}

#[test]
fn touching_a_terminal_gives_it_the_focus() {
    let mut w = with_session();
    let fonts = no_fonts();
    w.app.terminal_focused = false;
    assert!(w.app.update(Message::Noop, &env(&fonts)).is_empty());
    assert!(!w.app.terminal_focused);
    let _ = w.app.update(Message::TerminalTouched, &env(&fonts));
    assert!(w.app.terminal_focused);
    assert_eq!(w.fonts_len(), 0);
}

impl World {
    fn fonts_len(&self) -> usize {
        rterm::font::installed_families(&self.fonts).len()
    }
}

#[test]
fn only_messages_that_fit_are_accepted() {
    let fonts = no_fonts();
    let mut w = with_session();
    assert!(!w.app.accepts(&Message::HostKey(hostkey::Message::Dismiss), &env(&fonts)));
    question(&mut w, 1, 7);
    assert!(w.app.accepts(&Message::HostKey(hostkey::Message::Dismiss), &env(&fonts)));
    let two = Ok(vec![plain_session("a", AuthMethod::Agent), plain_session("b", AuthMethod::Agent)]);
    let short = Message::Session(session::Message::Imported(two, vec![1]));
    assert!(!w.app.accepts(&short, &env(&fonts)));
    let none = Message::Session(session::Message::Imported(Ok(Vec::new()), Vec::new()));
    assert!(w.app.accepts(&none, &env(&fonts)));
    assert!(w.app.accepts(&Message::Session(session::Message::SaveSession), &env(&fonts)));
    let late = Env { now_ms: u64::MAX, ..env(&fonts) };
    let resume = Message::Transfer(rterm::transfer::Message::ConcurrencyChanged);
    assert!(w.app.accepts(&resume, &late));
    let done = Message::Transfer(rterm::transfer::Message::TransferDone(1, 1, Ok(())));
    assert!(w.app.accepts(&done, &env(&fonts)));
    assert!(!w.app.accepts(&done, &late));
    w.app.config.updates.last_check_unix = Some(i64::MIN);
    let look = Message::Updates(updates::Message::CheckOnStartup);
    assert!(!w.app.accepts(&look, &env(&fonts)));
    assert!(w.app.accepts(&Message::Noop, &late));
}

#[test]
fn events_are_taken_while_there_are_numbers_left() {
    let w = with_session();
    assert!(w.app.takes_session_event(&session::Event::Connect("a".to_string())));
    assert!(w.app.takes_session_event(&session::Event::Load));
    let one = files::Event::StartDownload("a".to_string(), LocalPath::of("/tmp/a"));
    assert!(w.app.takes_sftp_event(&one));
    assert!(w.app.transfer.has_numbers(1_000));
    assert!(!w.app.transfer.has_numbers(usize::MAX));
    assert!(w.app.tabs.has_number());
}

#[test]
fn what_can_be_sealed_and_measured_is_told() {
    assert!(rterm::crypto::can_seal(""));
    assert!(rterm::crypto::can_seal("words"));
    assert!(rterm::crypto::can_derive("words"));
    let vault = rterm::crypto::Vault::new("words", Some(1));
    let password = Some(vault.encrypt("secret"));
    let key = AuthMethod::PublicKey { key_path: LocalPath::of("/k"), passphrase: None };
    let list = vec![
        plain_session("a", AuthMethod::Password { password }),
        plain_session("b", key),
        plain_session("c", AuthMethod::Agent),
    ];
    assert!(list.iter().all(can_move));
    assert!(can_move_all(&list));
    assert!(can_move_all(&Vec::new()));
    assert!(updates::can_measure(None, i64::MIN));
    assert!(updates::can_measure(Some(-1), i64::MAX - 1));
    assert!(!updates::can_measure(Some(-1), i64::MAX));
    assert!(!updates::can_measure(Some(1), i64::MIN));
}
