//! The panels: sessions, tabs, files, settings and fonts.

use rterm::local_path::LocalPath;
use rterm::config::app_config::{Language, LogLevel};
use rterm::config::paths::Roots;
use rterm::config::session::{AuthMethod, SessionConfig};
use rterm::config::store::SessionStore;
use rterm::crypto::Vault;
use rterm::files;
use rterm::files::{SftpDialog, WriteOp};
use rterm::font::{
    default_font_label, font_lists, installed_families, installed_monospace_families,
    resolve_font, resolve_terminal_font, terminal_font_options, ui_font_options, Face, FontLists,
    Resolved,
};
use rterm::i18n::{Text, ToastKind, Wording};
use rterm::id_set::IdSet;
use rterm::model::{ConnectionStatus, FileEntry};
use rterm::session;
use rterm::session::draft::{EditorDraft, SessionField};
use rterm::session::Purpose;
use rterm::settings;
use rterm::settings::SettingsCategory;
use rterm::sftp::listing::{
    arrange, comes_before, list_dir, list_with, owner, Operation, RawEntry,
};
use rterm::tabs;
use rterm::tabs::CenterView;
use rterm::tasks::collect::{collect_upload_items, upload_item, LocalNode};
use rterm::tasks::{ancestor_dirs, join_path, parent_path};
use rterm::text;
use rterm::text_set::TextSet;

fn store() -> Option<SessionStore> {
    let roots =
        Roots { test: Some(LocalPath::of("/t")), workspace: None, config: None, cache: None };
    SessionStore::new(&roots).ok()
}

fn make_session(id: &str) -> SessionConfig {
    SessionConfig {
        id: id.to_string(),
        name: id.to_string(),
        host: "h".to_string(),
        port: 22,
        username: "u".to_string(),
        auth: AuthMethod::Agent,
        group: None,
    }
}

fn ctx(vault: Option<&Vault>) -> session::Ctx<'_> {
    session::Ctx { vault, nanos: 42, nonce: [0u8; 12] }
}

#[test]
fn a_draft_becomes_a_session() {
    let vault = Vault::with_key([1u8; 32]);
    let mut d = EditorDraft::new(5);
    assert_eq!(d.port, "22");
    assert_eq!(d.to_config(&vault).err().unwrap().spell(), "session.host_empty");
    d.apply_editor_field(SessionField::Host, " example.com ".to_string());
    d.apply_editor_field(SessionField::Username, "root".to_string());
    d.apply_editor_field(SessionField::Port, "x".to_string());
    assert_eq!(d.to_config(&vault).err().unwrap().spell(), "session.port_invalid");
    d.apply_editor_field(SessionField::Port, "0".to_string());
    assert_eq!(d.to_config(&vault).err().unwrap().spell(), "session.port_zero");
    d.apply_editor_field(SessionField::Port, "65536".to_string());
    assert_eq!(d.to_config(&vault).err().unwrap().spell(), "session.port_invalid");
    d.apply_editor_field(SessionField::Port, "2222".to_string());
    d.apply_editor_field(SessionField::Password, "pw".to_string());
    let s = d.to_config(&vault).ok().unwrap();
    assert_eq!(s.name, "root@example.com");
    assert_eq!(s.port, 2222);
    match &s.auth {
        AuthMethod::Password { password: Some(e) } => {
            assert_eq!(vault.decrypt(e).unwrap().as_str(), "pw");
        }
        _ => panic!("no password"),
    }
    assert!(s.group.is_none());
}

#[test]
fn an_unchanged_draft_keeps_its_secret() {
    let vault = Vault::with_key([1u8; 32]);
    let mut s = make_session("a");
    s.auth = AuthMethod::Password { password: Some(vault.encrypt("old")) };
    s.group = Some("g".to_string());
    let d = EditorDraft::from_config(&s);
    assert!(d.password.is_empty());
    let again = d.to_config(&vault).ok().unwrap();
    match &again.auth {
        AuthMethod::Password { password: Some(e) } => {
            assert_eq!(vault.decrypt(e).unwrap().as_str(), "old");
        }
        _ => panic!("no password"),
    }
    assert_eq!(again.group.as_deref(), Some("g"));
    let mut d = EditorDraft::from_config(&s);
    d.apply_editor_field(SessionField::Auth, "publickey".to_string());
    match d.to_config(&vault).ok().unwrap().auth {
        AuthMethod::PublicKey { passphrase, .. } => assert!(passphrase.is_none()),
        _ => panic!("no key"),
    }
}

#[test]
fn the_path_of_a_key_is_edited_as_a_text() {
    let vault = Vault::with_key([1u8; 32]);
    let mut s = make_session("a");
    let spelled = |s: &SessionConfig| {
        let d = EditorDraft::from_config(s);
        let shown = d.key_path.clone();
        match d.to_config(&vault).ok().unwrap().auth {
            AuthMethod::PublicKey { key_path, .. } => (shown, key_path.bytes().clone()),
            _ => panic!("no key"),
        }
    };
    s.auth = AuthMethod::PublicKey { key_path: LocalPath::of("/k/\u{e9}"), passphrase: None };
    assert_eq!(spelled(&s), ("/k/\u{e9}".to_string(), "/k/\u{e9}".as_bytes().to_vec()));
    let odd = LocalPath::from_bytes(vec![b'/', 0xff]);
    s.auth = AuthMethod::PublicKey { key_path: odd, passphrase: None };
    assert_eq!(spelled(&s), ("/\u{fffd}".to_string(), "/\u{fffd}".as_bytes().to_vec()));
}

#[test]
fn sessions_are_saved_and_deleted() {
    let vault = Vault::with_key([1u8; 32]);
    let mut s = session::State::new(store(), vec![make_session("a"), make_session("b")]);
    let events = s.update(session::Message::DeleteSession("a".to_string()), &ctx(Some(&vault)));
    assert_eq!(s.sessions.len(), 1);
    assert!(matches!(&events[0], session::Event::SessionDeleted(id) if id == "a"));
    assert!(matches!(
        &events[1],
        session::Event::Write(Purpose::Delete, f) if f.sessions.len() == 1 && f.crypto.is_some()
    ));
    let _ = s.update(session::Message::NewSession, &ctx(Some(&vault)));
    let field = session::Message::EditorField(SessionField::Host, "new".to_string());
    let _ = s.update(field, &ctx(Some(&vault)));
    let events = s.update(session::Message::SaveSession, &ctx(Some(&vault)));
    assert!(matches!(
        &events[..],
        [session::Event::Write(Purpose::Save, f)] if f.sessions.len() == 2
    ));
    let events = s.update(session::Message::Written(Purpose::Save, None), &ctx(Some(&vault)));
    assert!(s.editor.is_none());
    assert!(matches!(&events[..], [session::Event::Status(Some(t))]
        if t.spell() == "app.session_saved"));
}

#[test]
fn nothing_is_saved_while_the_vault_is_locked() {
    let mut s = session::State::new(store(), Vec::new());
    let _ = s.update(session::Message::NewSession, &ctx(None));
    let field = session::Message::EditorField(SessionField::Host, "h".to_string());
    let _ = s.update(field, &ctx(None));
    let events = s.update(session::Message::SaveSession, &ctx(None));
    assert!(!events.iter().any(|e| matches!(e, session::Event::Write(..))));
    assert!(s.editor.as_ref().unwrap().error.is_some());
}

#[test]
fn shared_sessions_get_ids_of_their_own() {
    let vault = Vault::with_key([1u8; 32]);
    let mut s = session::State::new(store(), vec![make_session("a")]);
    let list = vec![make_session("a"), make_session("a")];
    let events =
        s.update(session::Message::Imported(Ok(list), vec![1, 2]), &ctx(Some(&vault)));
    assert_eq!(s.sessions.len(), 3);
    assert_eq!(s.sessions[0].id, "a");
    assert_ne!(s.sessions[1].id, s.sessions[2].id);
    assert_ne!(s.sessions[1].id, "a");
    assert!(matches!(events.last(), Some(session::Event::Toast(ToastKind::Success, _))));
    let failed = session::Message::Imported(Err("bad".to_string()), Vec::new());
    let events = s.update(failed, &ctx(Some(&vault)));
    assert!(matches!(&events[..], [session::Event::Toast(ToastKind::Error, _)]));
}

#[test]
fn shared_files_carry_no_secret() {
    let vault = Vault::with_key([1u8; 32]);
    let mut a = make_session("a");
    a.auth = AuthMethod::Password { password: Some(vault.encrypt("pw")) };
    let mut s = session::State::new(store(), vec![a]);
    let msg = session::Message::ExportSessionsToFile(Some(LocalPath::of("/x")));
    let events = s.update(msg, &ctx(Some(&vault)));
    match &events[..] {
        [session::Event::Export(path, file, 1)] => {
            assert_eq!(*path, LocalPath::of("/x"));
            assert!(file.crypto.is_none());
            assert!(matches!(
                file.sessions[0].auth,
                AuthMethod::Password { password: None }
            ));
        }
        _ => panic!("nothing to share"),
    }
}

#[test]
fn groups_are_folded_and_unfolded() {
    let mut s = session::State::new(None, Vec::new());
    let _ = s.update(session::Message::ToggleGroup("g".to_string()), &ctx(None));
    assert!(s.collapsed_groups.contains("g"));
    let _ = s.update(session::Message::ToggleGroup("g".to_string()), &ctx(None));
    assert!(!s.collapsed_groups.contains("g"));
    let mut t = TextSet::new();
    t.toggle("x".to_string());
    assert!(t.contains("x") && !t.contains("y"));
}

fn tabs_ctx(center: CenterView, active_session: Option<&str>) -> tabs::Ctx {
    tabs::Ctx {
        center,
        active_session: active_session.map(|s| s.to_string()),
        terminal_focused: true,
        window_focus_saved: None,
    }
}

#[test]
fn closing_the_last_tab_shows_the_sessions() {
    let mut s = tabs::State::new();
    let id = s.add("a".to_string(), "A".to_string());
    let c = tabs_ctx(CenterView::Files, Some("a"));
    let events = s.update(tabs::Message::CloseTab(id), &c, &IdSet::new());
    assert!(s.list().is_empty());
    assert_eq!(s.active(), None);
    assert!(events
        .iter()
        .any(|e| matches!(e, tabs::Event::SetCenter(CenterView::Sessions))));
    assert!(events.iter().any(|e| matches!(e, tabs::Event::SetActiveSession(None))));
    assert!(matches!(events[0], tabs::Event::RemoveHostKeyForTab(1)));
    assert!(matches!(events[1], tabs::Event::CloseTransfers(1)));
}

#[test]
fn a_tab_without_a_terminal_goes_with_its_transfers() {
    let mut s = tabs::State::new();
    let first = s.add("a".to_string(), "A".to_string());
    let second = s.add("a".to_string(), "A".to_string());
    assert_eq!(s.of_session("a"), vec![first, second]);
    assert!(s.of_session("b").is_empty());
    let c = tabs_ctx(CenterView::Sessions, None);
    let refused = Err(Text::verbatim("no".to_string()));
    let events = s.update(tabs::Message::TerminalOpened(first, refused), &c, &IdSet::new());
    assert!(events.iter().any(|e| matches!(e, tabs::Event::CloseTransfers(1))));
    let failed = tabs::Message::TerminalMounted(second, Err("no".to_string()));
    let events = s.update(failed, &c, &IdSet::new());
    assert!(events.iter().any(|e| matches!(e, tabs::Event::CloseTransfers(2))));
    assert!(s.list().is_empty());
}

#[test]
fn closing_a_tab_shows_the_last_one() {
    let mut s = tabs::State::new();
    let _ = s.add("a".to_string(), "A".to_string());
    let _ = s.add("b".to_string(), "B".to_string());
    let third = s.add("c".to_string(), "C".to_string());
    let c = tabs_ctx(CenterView::Sessions, Some("c"));
    let events = s.update(tabs::Message::CloseTab(third), &c, &IdSet::new());
    assert_eq!(s.active(), Some(2));
    assert!(events
        .iter()
        .any(|e| matches!(e, tabs::Event::SetActiveSession(Some(id)) if id == "b")));
    assert_eq!(s.add("d".to_string(), "D".to_string()), 4);
}

#[test]
fn a_failed_connection_stays_in_its_tab() {
    let mut s = tabs::State::new();
    let first = s.add("a".to_string(), "A".to_string());
    let second = s.add("a".to_string(), "A".to_string());
    let c = tabs_ctx(CenterView::Sessions, None);
    let failed = tabs::Message::SessionConnected(
        first,
        "a".to_string(),
        Err(Text::verbatim("refused".to_string())),
    );
    let _ = s.update(failed, &c, &IdSet::new());
    assert_eq!(s.list()[0].status, ConnectionStatus::Error);
    assert_eq!(s.list()[0].error.as_ref().unwrap().spell(), "refused");
    assert_eq!(s.list()[1].status, ConnectionStatus::Connecting);
    assert_eq!(s.session_status("a"), ConnectionStatus::Connecting);
    let _ = s.update(tabs::Message::TerminalMounted(second, Ok(3)), &c, &IdSet::new());
    assert_eq!(s.session_status("a"), ConnectionStatus::Connected);
    let _ = s.update(tabs::Message::TerminalDisconnected(second), &c, &IdSet::new());
    assert_eq!(s.session_status("a"), ConnectionStatus::Error);
    assert_eq!(s.session_status("zz"), ConnectionStatus::Disconnected);
}

#[test]
fn the_focus_comes_back_with_the_window() {
    let mut s = tabs::State::new();
    let mut c = tabs_ctx(CenterView::Sessions, None);
    let events = s.update(tabs::Message::WindowFocused(false), &c, &IdSet::new());
    assert!(matches!(
        &events[..],
        [tabs::Event::SetWindowFocusSaved(Some(true)), tabs::Event::SetTerminalFocused(false)]
    ));
    c.terminal_focused = false;
    c.window_focus_saved = Some(true);
    let events = s.update(tabs::Message::WindowFocused(true), &c, &IdSet::new());
    assert!(matches!(
        &events[..],
        [tabs::Event::SetTerminalFocused(true), tabs::Event::SetWindowFocusSaved(None)]
    ));
}

#[test]
fn choosing_a_tab_opens_its_files_once() {
    let mut s = tabs::State::new();
    let id = s.add("a".to_string(), "A".to_string());
    let c = tabs_ctx(CenterView::Files, None);
    let _ = s.update(tabs::Message::TerminalMounted(id, Ok(3)), &c, &IdSet::new());
    let events = s.update(tabs::Message::SelectTab(id), &c, &IdSet::new());
    assert!(events.iter().any(|e| matches!(e, tabs::Event::OpenSftp(x) if x == "a")));
    let mut opened = IdSet::new();
    opened.insert(id);
    let events = s.update(tabs::Message::SelectTab(id), &c, &opened);
    assert!(!events.iter().any(|e| matches!(e, tabs::Event::OpenSftp(_))));
    let events = s.update(tabs::Message::WindowClosing, &c, &opened);
    assert!(matches!(&events[..], [tabs::Event::Disconnect(3)]));
}

fn file(name: &str, is_dir: bool) -> FileEntry {
    FileEntry {
        name: name.to_string(),
        is_dir,
        size: 1,
        modified: None,
        permissions: None,
        user: None,
        group: None,
    }
}

fn opened_files() -> files::State {
    let mut s = files::State::new();
    s.ensure(1);
    let _ = s.update(files::Message::SftpReady(1, "a".to_string(), Ok(9)), 1);
    let _ = s.update(
        files::Message::SftpListed(
            1,
            "/home".to_string(),
            Ok(vec![file("d", true), file("f", false)]),
        ),
        1,
    );
    s
}

#[test]
fn a_directory_is_read_and_left() {
    let mut s = opened_files();
    assert_eq!(s.tab(1).unwrap().entries.len(), 2);
    assert!(!s.tab(1).unwrap().busy);
    let events = s.update(files::Message::SftpParent, 1);
    assert!(matches!(&events[..], [files::Event::List(1, 9, p)] if p == "/"));
    let events = s.update(files::Message::SftpCd("/x".to_string()), 2);
    assert!(matches!(&events[..], [files::Event::Toast(ToastKind::Error, _)]));
    let events = s.update(files::Message::SftpGotoTerminalDir(None), 1);
    assert!(matches!(&events[..], [files::Event::Toast(ToastKind::Error, t)]
        if t.spell() == "sftp.cwd_unavailable"));
    let events = s.update(files::Message::SftpGotoTerminalDir(Some("/w".to_string())), 1);
    assert!(matches!(&events[..], [files::Event::List(1, 9, p)] if p == "/w"));
}

#[test]
fn deleting_and_overwriting_are_asked_first() {
    let mut s = opened_files();
    let events = s.update(files::Message::SftpDeleteConfirm("f".to_string()), 1);
    assert!(events.is_empty());
    let events = s.update(files::Message::SftpDialogConfirm, 1);
    assert!(matches!(&events[..], [files::Event::Delete(9, p, false, _)] if p == "/home/f"));
    let download = files::Message::SftpDownload("f".to_string(), LocalPath::of("/l/f"), true);
    assert!(s.update(download, 1).is_empty());
    assert!(matches!(
        s.tab(1).unwrap().dialog,
        Some(SftpDialog::OverwriteDownload { .. })
    ));
    let events = s.update(files::Message::SftpCancelDialog, 1);
    assert!(events.is_empty() && s.tab(1).unwrap().dialog.is_none());
    let download = files::Message::SftpDownload("f".to_string(), LocalPath::of("/l/f"), false);
    let events = s.update(download, 1);
    assert!(matches!(&events[..], [files::Event::StartDownload(n, l)]
        if n == "f" && *l == LocalPath::of("/l/f")));
}

#[test]
fn blank_names_are_not_given() {
    let mut s = opened_files();
    let _ = s.update(files::Message::SftpNewDirConfirm, 1);
    assert_eq!(s.tab(1).unwrap().creating_dir.as_deref(), Some("New Folder"));
    let _ = s.update(files::Message::SftpNewDirInput("  ".to_string()), 1);
    assert!(s.update(files::Message::SftpNewDirSubmit, 1).is_empty());
    let _ = s.update(files::Message::SftpNewDirInput("n".to_string()), 1);
    let events = s.update(files::Message::SftpNewDirSubmit, 1);
    assert!(matches!(&events[..], [files::Event::MakeDir(9, p, _)] if p == "/home/n"));
    let _ = s.update(files::Message::SftpRenameConfirm("f".to_string()), 1);
    assert!(s.update(files::Message::SftpRenameSubmit, 1).is_empty());
    let _ = s.update(files::Message::SftpSelect("f".to_string()), 1);
    let _ = s.update(files::Message::SftpRenameShortcut, 1);
    let _ = s.update(files::Message::SftpRenameInput("g".to_string()), 1);
    let events = s.update(files::Message::SftpRenameSubmit, 1);
    assert!(matches!(&events[..], [files::Event::Rename(9, a, b, _)]
        if a == "/home/f" && b == "/home/g"));
    let failed = files::Message::SftpWritten(
        WriteOp::Rename,
        "/home".to_string(),
        Some(Wording::entry("errors.x")),
    );
    let events = s.update(failed, 1);
    assert!(matches!(&events[..], [files::Event::Toast(ToastKind::Error, t)]
        if t.spell() == "sftp.rename_failed: errors.x"));
}

#[test]
fn a_session_is_opened_over_what_there_is() {
    let mut s = files::State::new();
    let open = files::Message::SftpOpenSession(3, "a".to_string(), None, Some(7));
    let events = s.update(open, 3);
    assert!(matches!(&events[..], [files::Event::OpenChannel(3, _, 7)]));
    assert_eq!(s.tab_session(3).as_deref(), Some("a"));
    s.set_connection(3, 8);
    let open = files::Message::SftpOpenSession(3, "a".to_string(), Some(8), None);
    let events = s.update(open, 3);
    assert!(matches!(&events[..], [files::Event::List(3, 8, p)] if p == "."));
    assert!(s.active(None).is_none());
    assert!(s.refresh(99).is_empty());
}

#[test]
fn directories_come_first_and_names_in_order() {
    let list = vec![file("b", false), file("z", true), file("a", false), file("y", true)];
    let names: Vec<String> = arrange(list).into_iter().map(|e| e.name).collect();
    assert_eq!(names, vec!["y", "z", "a", "b"]);
    assert!(comes_before("a", "b") && !comes_before("b", "a") && !comes_before("a", "a"));
    assert_eq!(owner(None, Some(7)).as_deref(), Some("7"));
    assert_eq!(owner(Some("root".to_string()), Some(0)).as_deref(), Some("root"));
    let e = Operation::ListDir.failure(rterm::error::Source::Other("x".to_string()));
    assert!(matches!(
        e,
        rterm::error::CoreError::Sftp { kind: rterm::error::CoreErrorKind::ReadDir, .. }
    ));
}

#[test]
fn collect_upload_items_flattens_preserving_hierarchy() {
    let leaf = |path: &str| LocalNode::File { path: LocalPath::of(path) };
    let items = collect_upload_items(&leaf("/t/foo/a.txt"));
    assert_eq!(items.len(), 1);
    assert_eq!(items[0].rel, "a.txt");
    let tree = LocalNode::Dir {
        path: LocalPath::of("/t/foo"),
        children: vec![
            leaf("/t/foo/a.txt"),
            LocalNode::Dir {
                path: LocalPath::of("/t/foo/bar"),
                children: vec![leaf("/t/foo/bar/b.txt")],
            },
            LocalNode::Other,
        ],
    };
    let mut rels: Vec<String> =
        collect_upload_items(&tree).into_iter().map(|i| i.rel).collect();
    rels.sort();
    assert_eq!(rels, vec!["foo/a.txt".to_string(), "foo/bar/b.txt".to_string()]);
}

#[test]
fn a_picked_file_goes_under_its_own_name() {
    let item = upload_item(LocalPath::of("/t/a.txt"));
    assert_eq!(item.local, LocalPath::of("/t/a.txt"));
    assert_eq!(item.rel, "a.txt");
    let odd = upload_item(LocalPath::from_bytes(vec![b'/', b'a', 0xff]));
    assert_eq!(odd.local.bytes(), &vec![b'/', b'a', 0xff]);
    assert_eq!(odd.rel, "a\u{fffd}");
    assert_eq!(upload_item(LocalPath::of("/")).rel, "");
}

#[test]
fn remote_paths_are_joined_and_cut() {
    assert_eq!(parent_path("/a/b"), "/a");
    assert_eq!(parent_path("/a"), "/");
    assert_eq!(parent_path("/"), "/");
    assert_eq!(parent_path("a"), ".");
    assert_eq!(parent_path("/a/b/"), "/a");
    assert_eq!(join_path("/a", "b"), "/a/b");
    assert_eq!(join_path("/", "b"), "/b");
    assert_eq!(join_path(".", "b"), "b");
    assert_eq!(join_path("/a/b", ".."), "/a");
    assert_eq!(ancestor_dirs("/a/b"), vec!["/", "/a", "/a/b"]);
}

fn face(name: &str, monospaced: bool) -> Face {
    Face { family: Some(name.to_string()), monospaced }
}

fn some_fonts() -> FontLists {
    font_lists(&vec![
        face("Noto", false),
        face(" Hack ", true),
        face("Arial", false),
        face("Hack", true),
        face("  ", true),
        Face { family: None, monospaced: true },
    ])
}

#[test]
fn families_are_listed_once_and_in_order() {
    let fonts = some_fonts();
    assert_eq!(installed_families(&fonts), &vec!["Arial", "Hack", "Noto"]);
    assert_eq!(installed_monospace_families(&fonts), &vec!["Hack"]);
}

#[test]
fn the_font_there_is_can_be_chosen_again() {
    let fonts = some_fonts();
    assert_eq!(default_font_label().spell(), "settings.ui_font_default");
    assert_eq!(ui_font_options("Default", &fonts, ""), vec!["Default", "Arial", "Hack", "Noto"]);
    assert_eq!(ui_font_options("Default", &fonts, "Hack").len(), 4);
    assert_eq!(terminal_font_options("D", &fonts, "Gone"), vec!["D", "Hack", "Gone"]);
    assert_eq!(terminal_font_options("D", &fonts, "  "), vec!["D", "Hack"]);
    assert_eq!(resolve_font(" "), Resolved::Default);
    assert_eq!(resolve_font("X"), Resolved::Named);
    assert_eq!(resolve_terminal_font(""), Resolved::Monospace);
}

#[test]
fn what_is_no_number_is_not_taken() {
    let fonts = some_fonts();
    let c = settings::Ctx {
        ui_font: "",
        terminal_font: "",
        default_label: "D",
        fonts: &fonts,
    };
    let mut s = settings::State::new(&c);
    assert!(!s.show_settings);
    assert!(s.update(settings::Message::Toggle, &c).is_none());
    assert!(s.show_settings);
    let _ = s.update(settings::Message::CategorySelected(SettingsCategory::About), &c);
    assert_eq!(s.category, SettingsCategory::About);
    assert!(s.update(settings::Message::ConnectTimeout("x".to_string()), &c).is_none());
    assert!(s.update(settings::Message::ConnectTimeout("-1".to_string()), &c).is_none());
    assert!(matches!(
        s.update(settings::Message::ConnectTimeout("0".to_string()), &c),
        Some(settings::Event::ConnectTimeout(0))
    ));
    assert!(s
        .update(settings::Message::ConnectTimeout("18446744073709551616".to_string()), &c)
        .is_none());
    assert!(matches!(
        s.update(settings::Message::Scrollback("+7".to_string()), &c),
        Some(settings::Event::Scrollback(7))
    ));
    assert!(matches!(
        s.update(settings::Message::LogLevel(LogLevel::Debug), &c),
        Some(settings::Event::LogLevel(LogLevel::Debug))
    ));
    let german = settings::Ctx {
        ui_font: "Gone",
        terminal_font: "",
        default_label: "Standard",
        fonts: &fonts,
    };
    let _ = s.update(settings::Message::Language(Language::En), &german);
    assert_eq!(s.ui_font_options, vec!["Standard", "Arial", "Hack", "Noto", "Gone"]);
}

#[test]
fn texts_are_taken_apart_and_put_together() {
    assert_eq!(text::trim("\u{3000} a b\n"), "a b");
    assert!(text::is_blank(" \t"));
    assert!(text::contains("abcd", "bc") && !text::contains("abcd", "cb"));
    assert_eq!(text::to_ascii_lower("AbÄ"), "abÄ");
    assert_eq!(text::to_decimal(1203), "1203");
    assert_eq!(text::parse_number("0042", 99), Some(42));
    assert_eq!(text::parse_number("100", 99), None);
    assert_eq!(text::parse_number("", 99), None);
    assert_eq!(text::parse_number("+", 99), None);
}

fn raw(name: &str, is_dir: bool, mtime: Option<u32>) -> RawEntry {
    RawEntry {
        name: name.to_string(),
        is_dir,
        size: Some(12),
        mtime,
        permissions: Some(0o644),
        user: None,
        uid: Some(1000),
        group: Some("staff".to_string()),
        gid: Some(50),
    }
}

#[test]
fn a_directory_is_shown_with_what_the_server_tells() {
    let mut nameless = raw("b", false, None);
    nameless.size = None;
    nameless.uid = None;
    let times = vec![None, Some("2020-02-03 04:05:06".to_string())];
    let list = list_with(vec![nameless, raw("a", true, Some(1))], times);
    assert_eq!(list[0].name, "a");
    assert_eq!(list[0].modified.as_deref(), Some("2020-02-03 04:05:06"));
    assert_eq!(list[0].size, 12);
    assert_eq!(list[0].user.as_deref(), Some("1000"));
    assert_eq!(list[0].group.as_deref(), Some("staff"));
    assert_eq!(list[0].permissions, Some(0o644));
    assert_eq!(list[1].name, "b");
    assert_eq!(list[1].size, 0);
    assert_eq!(list[1].user, None);
    assert_eq!(list[1].modified, None);
}

#[test]
fn times_are_shown_in_one_form() {
    let list = list_dir(vec![
        raw("a", false, Some(0)),
        raw("b", false, Some(1_700_000_000)),
        raw("c", false, Some(u32::MAX)),
        raw("d", false, None),
    ]);
    for e in &list[..3] {
        let t: Vec<char> = e.modified.as_ref().map(|t| t.chars().collect()).unwrap_or_default();
        assert_eq!(t.len(), 19);
        assert_eq!((t[4], t[7], t[10], t[13], t[16]), ('-', '-', ' ', ':', ':'));
        let digits = t.iter().filter(|c| c.is_ascii_digit()).count();
        assert_eq!(digits, 14);
    }
    for (e, seconds) in list.iter().zip([0u32, 1_700_000_000, u32::MAX]) {
        let at = chrono::DateTime::from_timestamp(i64::from(seconds), 0).unwrap();
        let local = at.with_timezone(&chrono::Local);
        let text = local.format("%Y-%m-%d %H:%M:%S").to_string();
        assert_eq!(e.modified.as_deref(), Some(text.as_str()));
    }
    let second = list[1].modified.clone().unwrap_or_default();
    assert!(second.starts_with("2023-11-1"));
    assert_eq!(list[3].modified, None);
}

#[test]
fn names_that_differ_in_case_alone_stay_as_they_came() {
    let list = list_with(
        vec![
            raw("b", false, None),
            raw("README", false, None),
            raw("readme", false, None),
            raw("ReadMe", false, None),
            raw("A", true, None),
            raw("a", true, None),
        ],
        vec![None, None, None, None, None, None],
    );
    let names: Vec<&str> = list.iter().map(|e| e.name.as_str()).collect();
    assert_eq!(names, vec!["A", "a", "b", "README", "readme", "ReadMe"]);
}
