//! Events of the parts, taken in by the whole.

use crate::app::{self, App, Connect, Env, EnvView, RootView, Task, TaskView};
use crate::config::app_config;
use crate::config::session::SessionView;
use crate::connect;
use crate::files;
use crate::i18n::Text;
use crate::masterpw;
use crate::session;
use crate::settings;
use crate::tabs::{self, CenterView};
use crate::transfer;
use crate::transfer::model;
use crate::updates;
use crate::window;
use vstd::prelude::*;

verus! {

/// What a session's tab is called: the name of the session, or else its id.
pub open spec fn title_of(sessions: Seq<SessionView>, id: Seq<char>) -> Seq<char> {
    match session::found(sessions, id) {
        Some(i) => sessions[i].name,
        None => id,
    }
}

/// A tab for a session is opened and shown.
pub open spec fn tab_opened(v: RootView, id: Seq<char>) -> RootView {
    RootView {
        tabs: tabs::added(v.tabs, id, title_of(v.session.sessions, id)),
        files: v.files.insert(v.tabs.next, files::pane(v.files, v.tabs.next)),
        ..v
    }
}

/// A connection of a tab to a session is to be opened, where there are the secrets for it; else
/// the status bar says why not.
pub open spec fn session_connected(v: RootView, tab_id: u64, id: Seq<char>) -> (
    RootView,
    Seq<TaskView>,
) {
    match session::found(v.session.sessions, id) {
        None => (v, Seq::empty()),
        Some(i) => match v.vault {
            None => (RootView { status: app::entry("app.vault_locked"@), ..v }, Seq::empty()),
            Some(vault) => match connect::secrets_of(v.session.sessions[i].auth, vault.dek) {
                Err(t) => (RootView { status: Some(t), ..v }, Seq::empty()),
                Ok(secrets) => (
                    v,
                    seq![
                        TaskView::Connect {
                            tab_id,
                            config: v.session.sessions[i],
                            secrets,
                            timeout: v.config.connection.timeout,
                        },
                    ],
                ),
            },
        },
    }
}

/// The connection of a tab.
pub open spec fn conn_of(b: tabs::BarView, id: u64) -> Option<u64> {
    match tabs::found(b.tabs, id) {
        Some(i) => b.tabs[i].conn,
        None => None,
    }
}

/// The channel of a tab.
pub open spec fn client_of(v: RootView, id: u64) -> Option<u64> {
    if v.files.contains_key(id) {
        v.files[id].client
    } else {
        None
    }
}

/// The files of a session are to be shown: in the tab for it, where there is one, over the channel
/// that it has, or a connection; else the status bar says what is missing.
pub open spec fn files_opened(v: RootView, id: Seq<char>) -> (RootView, Seq<TaskView>) {
    match tabs::files_tab(v.tabs, id) {
        None => (RootView { status: app::entry("app.open_terminal_first"@), ..v }, Seq::empty()),
        Some(tab_id) => {
            let shown = RootView {
                center: CenterView::Files,
                tabs: tabs::BarView { active: Some(tab_id), ..v.tabs },
                active_session: Some(id),
                ..v
            };
            let client = client_of(v, tab_id);
            let conn = conn_of(v.tabs, tab_id);
            if client is None && conn is None {
                (
                    RootView { status: app::entry("app.connect_session_first"@), ..shown },
                    Seq::empty(),
                )
            } else {
                (shown, seq![TaskView::OpenSession(tab_id, id, client, conn)])
            }
        },
    }
}

/// The transfers of some tabs are to be ended.
pub open spec fn closings(ids: Seq<u64>) -> Seq<TaskView> {
    ids.map_values(|id: u64| TaskView::CloseTransfers(id))
}

/// What becomes of an event of the sessions.
pub open spec fn session_applied(v: RootView, e: session::EventView) -> (RootView, Seq<TaskView>) {
    match e {
        session::EventView::Connect(id) => session_connected(tab_opened(v, id), v.tabs.next, id),
        session::EventView::OpenFiles(id) => files_opened(v, id),
        session::EventView::SessionDeleted(id) => (
            RootView { tabs: tabs::session_removed(v.tabs, id), ..v },
            closings(tabs::session_ids(v.tabs.tabs, id)),
        ),
        session::EventView::Status(status) => (RootView { status, ..v }, Seq::empty()),
        session::EventView::Toast(kind, t) => (v, seq![TaskView::Toast(kind, t)]),
        _ => (v, seq![TaskView::SessionWork(e)]),
    }
}

/// What becomes of an event of the tabs.
pub open spec fn tabs_applied(v: RootView, e: tabs::EventView) -> (RootView, Seq<TaskView>) {
    match e {
        tabs::EventView::SetActiveSession(active_session) => (
            RootView { active_session, ..v },
            Seq::empty(),
        ),
        tabs::EventView::SetCenter(center) => (RootView { center, ..v }, Seq::empty()),
        tabs::EventView::SetTerminalFocused(terminal_focused) => (
            RootView { terminal_focused, ..v },
            Seq::empty(),
        ),
        tabs::EventView::SetWindowFocusSaved(window_focus_saved) => (
            RootView { window_focus_saved, ..v },
            Seq::empty(),
        ),
        tabs::EventView::SetStatus(t) => (RootView { status: Some(t), ..v }, Seq::empty()),
        tabs::EventView::OpenSftp(id) => files_opened(v, id),
        tabs::EventView::OpenTerminalBridge(id, conn) => (
            RootView { tabs: tabs::attached(v.tabs, id, conn), ..v },
            seq![TaskView::TabsWork(e)],
        ),
        tabs::EventView::RemoveHostKeyForTab(id) => (
            RootView { hostkey: crate::hostkey::others(v.hostkey, id), ..v },
            seq![TaskView::Answer(crate::hostkey::refusals(v.hostkey, id))],
        ),
        tabs::EventView::CloseTransfers(id) => (v, seq![TaskView::CloseTransfers(id)]),
        _ => (v, seq![TaskView::TabsWork(e)]),
    }
}

/// What becomes of a message to the transfers.
pub open spec fn transfer_stepped(v: RootView, msg: transfer::Message, env: EnvView) -> (
    RootView,
    Seq<TaskView>,
) {
    let (transfer, events) = model::step(v.transfer, msg, app::transfer_ctx_of(v, env));
    (RootView { transfer, ..v }, seq![TaskView::Transfer(events)])
}

/// What becomes of an event of the files.
pub open spec fn sftp_applied(v: RootView, e: files::Event, env: EnvView) -> (
    RootView,
    Seq<TaskView>,
) {
    match e {
        files::Event::Toast(kind, t) => (v, seq![TaskView::Toast(kind, t@)]),
        files::Event::FocusTerminal => (
            RootView { terminal_focused: true, ..v },
            Seq::empty(),
        ),
        files::Event::StartUpload(items) => transfer_stepped(
            v,
            transfer::Message::Upload(app::active_or_zero(v), items),
            env,
        ),
        files::Event::StartDownload(name, local) => transfer_stepped(
            v,
            transfer::Message::Download(app::active_or_zero(v), name, local),
            env,
        ),
        _ => (v, seq![TaskView::FilesWork(e@)]),
    }
}

/// The numbers of transfers that an event of the files asks for.
pub open spec fn numbers_needed(e: files::Event) -> nat {
    match e {
        files::Event::StartUpload(items) => items@.len(),
        files::Event::StartDownload(_, _) => 1,
        _ => 0,
    }
}

/// The directory of a tab is to be read again, where there is a channel.
pub open spec fn relisted(m: Map<u64, files::PaneView>, id: u64) -> Seq<files::EventView> {
    if m.contains_key(id) && m[id].client is Some {
        seq![files::EventView::List(id, m[id].client->0, m[id].path)]
    } else {
        Seq::empty()
    }
}

/// What becomes of an event of the transfers.
pub open spec fn transfer_applied(v: RootView, e: model::EventView) -> Seq<TaskView> {
    match e {
        model::EventView::Toast(kind, t) => seq![TaskView::Toast(kind, t)],
        model::EventView::RefreshDir(id) => seq![TaskView::Files(relisted(v.files, id))],
        _ => seq![TaskView::TransferWork(e)],
    }
}

/// What is left to be done once an event of the settings is in the preferences.
pub open spec fn settings_tasks(c: app_config::AppView, e: settings::EventView) -> Seq<TaskView> {
    match e {
        settings::EventView::OpenLogFolder => seq![TaskView::OpenLogFolder],
        settings::EventView::FontSize(size) => seq![
            TaskView::SaveConfig,
            TaskView::ChangeFont(c.terminal.font, size),
        ],
        settings::EventView::TerminalFont(name) => seq![
            TaskView::SaveConfig,
            TaskView::ChangeFont(name, c.terminal.font_size),
        ],
        settings::EventView::TerminalTheme(name) => seq![
            TaskView::SaveConfig,
            TaskView::ChangeTheme(name),
        ],
        settings::EventView::Language(language) => seq![
            TaskView::SaveConfig,
            TaskView::SetLocale(language),
        ],
        _ => seq![TaskView::SaveConfig],
    }
}

/// What becomes of an event of the settings.
pub open spec fn settings_applied(v: RootView, e: settings::EventView) -> (
    RootView,
    Seq<TaskView>,
) {
    (
        RootView { config: settings::configured(v.config, e), ..v },
        settings_tasks(v.config, e),
    )
}

/// What becomes of an event of looking for a newer version.
pub open spec fn updates_applied(v: RootView, e: updates::EventView) -> (RootView, Seq<TaskView>) {
    match e {
        updates::EventView::SetLastCheck(last_check_unix) => (
            RootView {
                config: app_config::AppView {
                    updates: app_config::UpdatesConfig { last_check_unix, ..v.config.updates },
                    ..v.config
                },
                ..v
            },
            seq![TaskView::SaveConfig],
        ),
        _ => (v, seq![TaskView::UpdatesWork(e)]),
    }
}

/// What the system is to keep of the key.
pub open spec fn keyring_synced(v: RootView) -> Seq<TaskView> {
    if v.config.security.remember_master_key {
        match v.vault {
            Some(vault) => seq![TaskView::StoreKey(vault.dek)],
            None => Seq::empty(),
        }
    } else {
        seq![TaskView::DeleteKey]
    }
}

/// What becomes of an event of the master password.
pub open spec fn masterpw_applied(v: RootView, e: masterpw::EventView) -> (
    RootView,
    Seq<TaskView>,
) {
    match e {
        masterpw::EventView::SetVault(vault) => (
            RootView { vault: Some(vault), ..v },
            Seq::empty(),
        ),
        masterpw::EventView::SetSessions(sessions) => (
            RootView { session: session::ListView { sessions, ..v.session }, ..v },
            Seq::empty(),
        ),
        masterpw::EventView::SetRemember(remember_master_key) => {
            let after = RootView {
                config: app_config::AppView {
                    security: app_config::SecurityConfig { remember_master_key },
                    ..v.config
                },
                ..v
            };
            (after, seq![TaskView::SaveConfig] + keyring_synced(after))
        },
        masterpw::EventView::Toast(kind, t) => (v, seq![TaskView::Toast(kind, t)]),
        masterpw::EventView::StoreKey(key) => (v, seq![TaskView::StoreKey(key)]),
        _ => (v, seq![TaskView::MasterPwWork(e)]),
    }
}

/// What becomes of an event of the window: its size is kept before it closes.
pub open spec fn window_applied(v: RootView, e: window::Event) -> (RootView, Seq<TaskView>) {
    match e {
        window::Event::PersistAndClose(id, width, height) => (
            RootView {
                config: app_config::AppView {
                    window: app_config::WindowConfig {
                        width: Some(width),
                        height: Some(height),
                        ..v.config.window
                    },
                    ..v.config
                },
                ..v
            },
            seq![TaskView::SaveConfig, TaskView::WindowWork(window::Event::Close(id))],
        ),
        _ => (v, seq![TaskView::WindowWork(e)]),
    }
}

impl App {
    /// A tab for a session is opened and shown before it is connected, so that it can say why it
    /// could not be. Its number is told.
    pub fn open_tab(&mut self, id: &str) -> (r: u64)
        requires
            old(self).wf(),
            old(self)@.tabs.next < u64::MAX,
        ensures
            final(self).wf(),
            r == old(self)@.tabs.next,
            final(self)@ == tab_opened(old(self)@, id@),
    {
        let title = match session::find(&self.session.sessions, id) {
            Some(i) => {
                proof {
                    session::lemma_found(self@.session.sessions, id@);
                    assert(self@.session.sessions[i as int] == self.session.sessions@[i as int]@);
                }
                self.session.sessions[i].name.clone()
            },
            None => id.to_owned(),
        };
        let tab_id: u64 = self.tabs.add(id.to_owned(), title);
        self.files.ensure(tab_id);
        tab_id
    }

    /// A connection of a tab to a session is to be opened.
    pub fn connect_session(&mut self, tab_id: u64, id: &str) -> (r: Vec<Task>)
        requires
            old(self).wf(),
        ensures
            final(self).wf(),
            (final(self)@, app::tasks_of(r@)) == session_connected(old(self)@, tab_id, id@),
    {
        let i: usize = match session::find(&self.session.sessions, id) {
            Some(i) => i,
            None => {
                return app::none();
            },
        };
        proof {
            session::lemma_found(self@.session.sessions, id@);
            assert(self@.session.sessions[i as int] == self.session.sessions@[i as int]@);
        }
        let built = match &self.vault {
            None => {
                self.status = Some(Text::entry("app.vault_locked"));
                return app::none();
            },
            Some(vault) => connect::build_secrets(&self.session.sessions[i], vault),
        };
        match built {
            Err(t) => {
                self.status = Some(t);
                app::none()
            },
            Ok(secrets) => app::only(
                Task::Connect(
                    Connect {
                        tab_id,
                        config: self.session.sessions[i].copied(),
                        secrets,
                        timeout: self.config.connection.timeout,
                    },
                ),
            ),
        }
    }

    /// The tabs of a session are closed, and the transfers of each are to be ended.
    pub fn close_session_tabs(&mut self, id: &str) -> (r: Vec<Task>)
        requires
            old(self).wf(),
        ensures
            final(self).wf(),
            final(self)@ == (RootView {
                tabs: tabs::session_removed(old(self)@.tabs, id@),
                ..old(self)@
            }),
            app::tasks_of(r@) == closings(tabs::session_ids(old(self)@.tabs.tabs, id@)),
    {
        let ids = self.tabs.of_session(id);
        self.tabs.remove_by_session(id);
        let mut tasks: Vec<Task> = Vec::new();
        let mut i: usize = 0;
        while i < ids.len()
            invariant
                i <= ids@.len(),
                tasks@.len() == i,
                forall|k: int| 0 <= k < i ==> #[trigger] tasks@[k]@ == TaskView::CloseTransfers(
                    ids@[k],
                ),
            decreases ids@.len() - i,
        {
            tasks.push(Task::CloseTransfers(ids[i]));
            i += 1;
        }
        assert(app::tasks_of(tasks@) =~= closings(ids@));
        tasks
    }

    /// The files of a session are to be shown.
    pub fn open_files(&mut self, id: &str) -> (r: Vec<Task>)
        requires
            old(self).wf(),
        ensures
            final(self).wf(),
            (final(self)@, app::tasks_of(r@)) == files_opened(old(self)@, id@),
    {
        let tab_id: u64 = match self.tabs.tab_for_files(id) {
            Some(tab_id) => tab_id,
            None => {
                self.status = Some(Text::entry("app.open_terminal_first"));
                return app::none();
            },
        };
        let client: Option<u64> = match self.files.tab(tab_id) {
            Some(p) => p.client,
            None => None,
        };
        let conn: Option<u64> = self.tabs.conn(tab_id);
        self.center = CenterView::Files;
        self.tabs.set_active(tab_id);
        self.active_session = Some(id.to_owned());
        if client.is_none() && conn.is_none() {
            self.status = Some(Text::entry("app.connect_session_first"));
            return app::none();
        }
        app::only(Task::OpenSession(tab_id, id.to_owned(), client, conn))
    }

    /// Whether an event of the sessions can be taken in.
    pub fn takes_session_event(&self, e: &session::Event) -> (r: bool)
        ensures
            r == (*e is Connect ==> self@.tabs.next < u64::MAX),
    {
        match e {
            session::Event::Connect(_) => self.tabs.has_number(),
            _ => true,
        }
    }

    /// An event of the sessions is taken in.
    pub fn apply_session_event(&mut self, e: session::Event) -> (r: Vec<Task>)
        requires
            old(self).wf(),
            e is Connect ==> old(self)@.tabs.next < u64::MAX,
        ensures
            final(self).wf(),
            (final(self)@, app::tasks_of(r@)) == session_applied(old(self)@, e@),
    {
        match e {
            session::Event::Connect(id) => {
                let tab_id: u64 = self.open_tab(id.as_str());
                self.connect_session(tab_id, id.as_str())
            },
            session::Event::OpenFiles(id) => self.open_files(id.as_str()),
            session::Event::SessionDeleted(id) => self.close_session_tabs(id.as_str()),
            session::Event::Status(status) => {
                self.status = status;
                app::none()
            },
            session::Event::Toast(kind, t) => app::only(Task::Toast(kind, t)),
            e => app::only(Task::SessionWork(e)),
        }
    }

    /// An event of the tabs is taken in.
    pub fn apply_tabs_event(&mut self, e: tabs::Event) -> (r: Vec<Task>)
        requires
            old(self).wf(),
        ensures
            final(self).wf(),
            (final(self)@, app::tasks_of(r@)) == tabs_applied(old(self)@, e@),
    {
        match e {
            tabs::Event::SetActiveSession(s) => {
                self.active_session = s;
                app::none()
            },
            tabs::Event::SetCenter(c) => {
                self.center = c;
                app::none()
            },
            tabs::Event::SetTerminalFocused(b) => {
                self.terminal_focused = b;
                app::none()
            },
            tabs::Event::SetWindowFocusSaved(b) => {
                self.window_focus_saved = b;
                app::none()
            },
            tabs::Event::SetStatus(t) => {
                self.status = Some(t);
                app::none()
            },
            tabs::Event::OpenSftp(id) => self.open_files(id.as_str()),
            tabs::Event::OpenTerminalBridge(id, conn) => {
                self.tabs.attach(id, conn);
                app::only(Task::TabsWork(tabs::Event::OpenTerminalBridge(id, conn)))
            },
            tabs::Event::RemoveHostKeyForTab(id) => {
                let answers = self.hostkey.remove_for_tab(id);
                app::only(Task::Answer(answers))
            },
            tabs::Event::CloseTransfers(id) => app::only(Task::CloseTransfers(id)),
            e => app::only(Task::TabsWork(e)),
        }
    }

    /// A message goes to the transfers.
    pub(crate) fn step_transfer(&mut self, msg: transfer::Message, env: &Env) -> (r: Vec<Task>)
        requires
            old(self).wf(),
            app::transfers_fit(old(self)@, env@, msg),
        ensures
            final(self).wf(),
            (final(self)@, app::tasks_of(r@)) == transfer_stepped(old(self)@, msg, env@),
    {
        let ctx = self.transfer_ctx(env);
        let events = self.transfer.update(msg, &ctx);
        app::only(Task::Transfer(events))
    }

    /// The transfers of a tab that is gone are ended: their workers are stopped, their slots are
    /// free, and what they left unfinished is removed.
    pub fn close_transfers(&mut self, id: u64, env: &Env) -> (r: Vec<Task>)
        requires
            old(self).wf(),
        ensures
            final(self).wf(),
            (final(self)@, app::tasks_of(r@)) == transfer_stepped(
                old(self)@,
                transfer::Message::TabClosed(id),
                env@,
            ),
    {
        self.step_transfer(transfer::Message::TabClosed(id), env)
    }

    /// Whether an event of the files can be taken in.
    pub fn takes_sftp_event(&self, e: &files::Event) -> (r: bool)
        ensures
            r == model::has_numbers(self@.transfer, numbers_needed(*e)),
    {
        let needed: usize = match e {
            files::Event::StartUpload(items) => items.len(),
            files::Event::StartDownload(_, _) => 1,
            _ => 0,
        };
        self.transfer.has_numbers(needed)
    }

    /// An event of the files is taken in.
    pub fn apply_sftp_event(&mut self, e: files::Event, env: &Env) -> (r: Vec<Task>)
        requires
            old(self).wf(),
            model::has_numbers(old(self)@.transfer, numbers_needed(e)),
        ensures
            final(self).wf(),
            (final(self)@, app::tasks_of(r@)) == sftp_applied(old(self)@, e, env@),
    {
        match e {
            files::Event::Toast(kind, t) => app::only(Task::Toast(kind, t)),
            files::Event::FocusTerminal => {
                self.terminal_focused = true;
                app::none()
            },
            files::Event::StartUpload(items) => {
                let tab_id: u64 = self.active_or_zero();
                self.step_transfer(transfer::Message::Upload(tab_id, items), env)
            },
            files::Event::StartDownload(name, local) => {
                let tab_id: u64 = self.active_or_zero();
                self.step_transfer(transfer::Message::Download(tab_id, name, local), env)
            },
            e => app::only(Task::FilesWork(e)),
        }
    }

    /// An event of the transfers is taken in.
    pub fn apply_transfer_event(&self, e: transfer::Event) -> (r: Vec<Task>)
        ensures
            app::tasks_of(r@) == transfer_applied(self@, e@),
    {
        match e {
            transfer::Event::Toast(kind, t) => app::only(Task::Toast(kind, t)),
            transfer::Event::RefreshDir(id) => app::only(Task::Files(self.files.refresh(id))),
            e => app::only(Task::TransferWork(e)),
        }
    }

    /// An event of the settings is taken in: it is written into the preferences, and what it is
    /// about is changed at once.
    pub fn apply_settings_event(&mut self, e: settings::Event) -> (r: Vec<Task>)
        requires
            old(self).wf(),
        ensures
            final(self).wf(),
            (final(self)@, app::tasks_of(r@)) == settings_applied(old(self)@, e@),
    {
        settings::configure(&mut self.config, &e);
        match e {
            settings::Event::OpenLogFolder => app::only(Task::OpenLogFolder),
            settings::Event::FontSize(size) => {
                let name = self.config.terminal.font.clone();
                app::both(Task::SaveConfig, Task::ChangeFont(name, size))
            },
            settings::Event::TerminalFont(name) => {
                let size: u32 = self.config.terminal.font_size;
                app::both(Task::SaveConfig, Task::ChangeFont(name, size))
            },
            settings::Event::TerminalTheme(name) => app::both(
                Task::SaveConfig,
                Task::ChangeTheme(name),
            ),
            settings::Event::Language(language) => app::both(
                Task::SaveConfig,
                Task::SetLocale(language),
            ),
            _ => app::only(Task::SaveConfig),
        }
    }

    /// An event of looking for a newer version is taken in.
    pub fn apply_updates_event(&mut self, e: updates::Event) -> (r: Vec<Task>)
        requires
            old(self).wf(),
        ensures
            final(self).wf(),
            (final(self)@, app::tasks_of(r@)) == updates_applied(old(self)@, e@),
    {
        match e {
            updates::Event::SetLastCheck(t) => {
                self.config.updates.last_check_unix = t;
                app::only(Task::SaveConfig)
            },
            e => app::only(Task::UpdatesWork(e)),
        }
    }

    /// What the system is to keep of the key: the key of the vault there is, where that is
    /// wished, and none where it is not.
    pub fn sync_keyring(&self) -> (r: Vec<Task>)
        ensures
            app::tasks_of(r@) == keyring_synced(self@),
    {
        if self.config.security.remember_master_key {
            match &self.vault {
                Some(vault) => app::only(Task::StoreKey(vault.dek_bytes())),
                None => app::none(),
            }
        } else {
            app::only(Task::DeleteKey)
        }
    }

    /// An event of the master password is taken in.
    pub fn apply_masterpw_event(&mut self, e: masterpw::Event) -> (r: Vec<Task>)
        requires
            old(self).wf(),
        ensures
            final(self).wf(),
            (final(self)@, app::tasks_of(r@)) == masterpw_applied(old(self)@, e@),
    {
        match e {
            masterpw::Event::SetVault(vault) => {
                self.vault = Some(vault);
                app::none()
            },
            masterpw::Event::SetSessions(sessions) => {
                self.session.sessions = sessions;
                app::none()
            },
            masterpw::Event::SetRemember(b) => {
                self.config.security.remember_master_key = b;
                let mut rest = self.sync_keyring();
                let mut tasks = app::only(Task::SaveConfig);
                let ghost (first, behind) = (tasks@, rest@);
                tasks.append(&mut rest);
                proof {
                    assert(tasks@ =~= first + behind);
                    assert(app::tasks_of(tasks@) =~= app::tasks_of(first) + app::tasks_of(behind));
                }
                tasks
            },
            masterpw::Event::Toast(kind, t) => app::only(Task::Toast(kind, t)),
            masterpw::Event::StoreKey(key) => app::only(Task::StoreKey(key)),
            e => app::only(Task::MasterPwWork(e)),
        }
    }

    /// An event of the window is taken in.
    pub fn apply_window_event(&mut self, e: window::Event) -> (r: Vec<Task>)
        requires
            old(self).wf(),
        ensures
            final(self).wf(),
            (final(self)@, app::tasks_of(r@)) == window_applied(old(self)@, e),
    {
        match e {
            window::Event::PersistAndClose(id, width, height) => {
                self.config.window.width = Some(width);
                self.config.window.height = Some(height);
                app::both(Task::SaveConfig, Task::WindowWork(window::Event::Close(id)))
            },
            e => app::only(Task::WindowWork(e)),
        }
    }
}

} // verus!
