//! The program as a whole: what it holds, and where each message and event goes.
//!
//! A part of the program changes only itself, and tells by events what else is to be done. Here
//! these events are taken in; what cannot be done here is left as a task.

use crate::boot::Start;
use crate::config::app_config::{self, AppConfig, Language};
use crate::config::session::{SessionConfig, SessionView};
use crate::config::store::SessionStore;
use crate::connect::{self, SecretsView};
use crate::connection::SessionSecrets;
use crate::crypto::{self, Vault, VaultView};
use crate::files::{self, SftpView};
use crate::font::{self, FontLists};
use crate::hostkey;
use crate::i18n::{self, Text, TextView, ToastKind};
use crate::id_set::IdSet;
use crate::masterpw;
use crate::model::ConnectionStatus;
use crate::session;
use crate::settings;
use crate::tabs::{self, CenterView};
use crate::text;
use crate::transfer;
use crate::transfer::model;
use crate::updates;
use crate::window;
use std::collections::HashMap;
use vstd::prelude::*;

pub mod events;
pub mod laws;
pub mod routing;

verus! {

/// What the program holds.
pub struct App {
    /// The sessions.
    pub session: session::State,
    /// The session that is chosen.
    pub active_session: Option<String>,
    /// What the middle of the window shows.
    pub center: CenterView,
    /// The tabs.
    pub tabs: tabs::State,
    /// Whether what is typed goes to the terminal.
    pub terminal_focused: bool,
    /// Whether it did when the window was left.
    pub window_focus_saved: Option<bool>,
    /// The preferences.
    pub config: AppConfig,
    /// The files of the tabs.
    pub files: files::State,
    /// The transfers.
    pub transfer: transfer::State,
    /// What is shown of the settings.
    pub settings: settings::State,
    /// What stands in the status bar.
    pub status: Option<Text>,
    /// The questions about hosts' keys.
    pub hostkey: hostkey::State,
    /// What is shown of a newer version.
    pub updates: updates::State,
    /// The vault, where it is unlocked.
    pub vault: Option<Vault>,
    /// The panel of the master password.
    pub masterpw: masterpw::State,
    /// The window.
    pub window: window::State,
}

/// What an [`App`] holds.
#[verifier::ext_equal]
pub struct RootView {
    /// The sessions.
    pub session: session::ListView,
    /// The session that is chosen.
    pub active_session: Option<Seq<char>>,
    /// What the middle of the window shows.
    pub center: CenterView,
    /// The tabs.
    pub tabs: tabs::BarView,
    /// Whether what is typed goes to the terminal.
    pub terminal_focused: bool,
    /// Whether it did when the window was left.
    pub window_focus_saved: Option<bool>,
    /// The preferences.
    pub config: app_config::AppView,
    /// The files of the tabs.
    pub files: Map<u64, files::PaneView>,
    /// The transfers.
    pub transfer: model::Queue,
    /// What is shown of the settings.
    pub settings: settings::ShownView,
    /// What stands in the status bar.
    pub status: Option<TextView>,
    /// The questions about hosts' keys.
    pub hostkey: Seq<hostkey::Question>,
    /// What is shown of a newer version.
    pub updates: Option<(Seq<char>, Seq<char>)>,
    /// The vault.
    pub vault: Option<VaultView>,
    /// The panel of the master password.
    pub masterpw: masterpw::PanelView,
    /// The window.
    pub window: Option<u64>,
}

/// A vault, where there is one.
pub open spec fn opt_vault(v: Option<Vault>) -> Option<VaultView> {
    match v {
        Some(v) => Some(v@),
        None => None,
    }
}

impl View for App {
    type V = RootView;

    open spec fn view(&self) -> RootView {
        RootView {
            session: self.session@,
            active_session: text::opt(self.active_session),
            center: self.center,
            tabs: self.tabs@,
            terminal_focused: self.terminal_focused,
            window_focus_saved: self.window_focus_saved,
            config: self.config@,
            files: self.files@,
            transfer: self.transfer@,
            settings: self.settings@,
            status: i18n::opt_text(self.status),
            hostkey: self.hostkey@,
            updates: self.updates@,
            vault: opt_vault(self.vault),
            masterpw: self.masterpw@,
            window: self.window@,
        }
    }
}

/// What the program is told of the world with a message.
pub struct Env<'a> {
    /// The time, in nanoseconds since 1970.
    pub nanos: u128,
    /// The time, in seconds since 1970.
    pub now_unix: i64,
    /// The time, in milliseconds on a clock that only goes forward.
    pub now_ms: u64,
    /// A nonce to seal with, drawn for this message.
    pub nonce: [u8; 12],
    /// What stands for the default font, in the language that is chosen.
    pub default_label: &'a str,
    /// The families of the system's fonts.
    pub fonts: &'a FontLists,
}

/// What an [`Env`] holds.
pub struct EnvView {
    /// The time, in nanoseconds since 1970.
    pub nanos: u128,
    /// The time, in seconds since 1970.
    pub now_unix: i64,
    /// The time, in milliseconds on a clock that only goes forward.
    pub now_ms: u64,
    /// A nonce.
    pub nonce: Seq<u8>,
    /// What stands for the default font.
    pub default_label: Seq<char>,
    /// The families of the system's fonts.
    pub fonts: font::ListsView,
}

impl<'a> Env<'a> {
    /// What the program is told at some time. The nonce is drawn at random; whatever it is, the
    /// rest is as it was told.
    pub fn drawn(
        nanos: u128,
        now_unix: i64,
        now_ms: u64,
        default_label: &'a str,
        fonts: &'a FontLists,
    ) -> (r: Env<'a>)
        ensures
            r@ == (EnvView {
                nanos,
                now_unix,
                now_ms,
                nonce: r@.nonce,
                default_label: default_label@,
                fonts: fonts@,
            }),
            r@.nonce.len() == 12,
    {
        Env { nanos, now_unix, now_ms, nonce: crypto::random(), default_label, fonts }
    }
}

impl<'a> View for Env<'a> {
    type V = EnvView;

    open spec fn view(&self) -> EnvView {
        EnvView {
            nanos: self.nanos,
            now_unix: self.now_unix,
            now_ms: self.now_ms,
            nonce: self.nonce@,
            default_label: self.default_label@,
            fonts: self.fonts@,
        }
    }
}

/// What a connection is opened with.
pub struct Connect {
    /// The tab it is for.
    pub tab_id: u64,
    /// The session.
    pub config: SessionConfig,
    /// The secrets.
    pub secrets: SessionSecrets,
    /// How long to wait, in seconds; 0 for no limit.
    pub timeout: u64,
}

/// What is left to be done.
pub enum Task {
    /// These are to be taken in by [`App::apply_session_event`].
    Session(Vec<session::Event>),
    /// These are to be taken in by [`App::apply_tabs_event`].
    Tabs(Vec<tabs::Event>),
    /// These are to be taken in by [`App::apply_sftp_event`].
    Files(Vec<files::Event>),
    /// These are to be taken in by [`App::apply_transfer_event`].
    Transfer(Vec<transfer::Event>),
    /// This is to be taken in by [`App::apply_settings_event`].
    Settings(settings::Event),
    /// These are to be taken in by [`App::apply_updates_event`].
    Updates(Vec<updates::Event>),
    /// These are to be taken in by [`App::apply_masterpw_event`].
    MasterPw(Vec<masterpw::Event>),
    /// This is to be taken in by [`App::apply_window_event`].
    Window(window::Event),
    /// The files of a session are to be shown in a tab: over the channel that it has, or over one
    /// on this connection.
    OpenSession(u64, String, Option<u64>, Option<u64>),
    /// Those who wait are to be told the answers.
    Answer(Vec<hostkey::Event>),
    /// The transfers of a tab that is gone are to be ended by [`App::close_transfers`].
    CloseTransfers(u64),
    /// A connection is to be opened.
    Connect(Connect),
    /// The user is to be told, under the title of the kind.
    Toast(ToastKind, Text),
    /// The preferences are to be written.
    SaveConfig,
    /// The system is to keep this key.
    StoreKey([u8; 32]),
    /// The system is to keep no key.
    DeleteKey,
    /// The language is to be spoken.
    SetLocale(Language),
    /// The terminals are to have this font, in this size.
    ChangeFont(String, u32),
    /// The terminals are to look like this.
    ChangeTheme(String),
    /// The directory of the logs is to be shown.
    OpenLogFolder,
    /// What a session's event asks for outside of the program.
    SessionWork(session::Event),
    /// What a tab's event asks for outside of the program.
    TabsWork(tabs::Event),
    /// What the files' event asks for outside of the program.
    FilesWork(files::Event),
    /// What a transfer's event asks for outside of the program.
    TransferWork(transfer::Event),
    /// What is asked for outside of the program to find a newer version.
    UpdatesWork(updates::Event),
    /// What the master password's event asks for outside of the program.
    MasterPwWork(masterpw::Event),
    /// What is asked of the window.
    WindowWork(window::Event),
}

/// What a [`Task`] holds.
pub enum TaskView {
    /// Events of the sessions.
    Session(Seq<session::EventView>),
    /// Events of the tabs.
    Tabs(Seq<tabs::EventView>),
    /// Events of the files.
    Files(Seq<files::EventView>),
    /// Events of the transfers.
    Transfer(Seq<model::EventView>),
    /// An event of the settings.
    Settings(settings::EventView),
    /// Events of looking for a newer version.
    Updates(Seq<updates::EventView>),
    /// Events of the master password.
    MasterPw(Seq<masterpw::EventView>),
    /// An event of the window.
    Window(window::Event),
    /// The files of a session are to be shown in a tab.
    OpenSession(u64, Seq<char>, Option<u64>, Option<u64>),
    /// Those who wait are to be told the answers.
    Answer(Seq<hostkey::Event>),
    /// The transfers of a tab that is gone are to be ended.
    CloseTransfers(u64),
    /// A connection is to be opened.
    Connect {
        /// The tab it is for.
        tab_id: u64,
        /// The session.
        config: SessionView,
        /// The secrets.
        secrets: SecretsView,
        /// How long to wait.
        timeout: u64,
    },
    /// The user is to be told.
    Toast(ToastKind, TextView),
    /// The preferences are to be written.
    SaveConfig,
    /// The system is to keep this key.
    StoreKey(Seq<u8>),
    /// The system is to keep no key.
    DeleteKey,
    /// The language is to be spoken.
    SetLocale(Language),
    /// The terminals are to have this font, in this size.
    ChangeFont(Seq<char>, u32),
    /// The terminals are to look like this.
    ChangeTheme(Seq<char>),
    /// The directory of the logs is to be shown.
    OpenLogFolder,
    /// What a session's event asks for.
    SessionWork(session::EventView),
    /// What a tab's event asks for.
    TabsWork(tabs::EventView),
    /// What the files' event asks for.
    FilesWork(files::EventView),
    /// What a transfer's event asks for.
    TransferWork(model::EventView),
    /// What is asked for to find a newer version.
    UpdatesWork(updates::EventView),
    /// What the master password's event asks for.
    MasterPwWork(masterpw::EventView),
    /// What is asked of the window.
    WindowWork(window::Event),
}

impl View for Task {
    type V = TaskView;

    open spec fn view(&self) -> TaskView {
        match *self {
            Task::Session(list) => TaskView::Session(session::events_of(list@)),
            Task::Tabs(list) => TaskView::Tabs(tabs::events_of(list@)),
            Task::Files(list) => TaskView::Files(files::events_of(list@)),
            Task::Transfer(list) => TaskView::Transfer(model::events_of(list@)),
            Task::Settings(e) => TaskView::Settings(e@),
            Task::Updates(list) => TaskView::Updates(updates::events_of(list@)),
            Task::MasterPw(list) => TaskView::MasterPw(masterpw::events_of(list@)),
            Task::Window(e) => TaskView::Window(e),
            Task::OpenSession(tab, id, client, conn) => TaskView::OpenSession(
                tab,
                id@,
                client,
                conn,
            ),
            Task::Answer(list) => TaskView::Answer(list@),
            Task::CloseTransfers(tab) => TaskView::CloseTransfers(tab),
            Task::Connect(c) => TaskView::Connect {
                tab_id: c.tab_id,
                config: c.config@,
                secrets: connect::secrets_view(c.secrets),
                timeout: c.timeout,
            },
            Task::Toast(kind, t) => TaskView::Toast(kind, t@),
            Task::SaveConfig => TaskView::SaveConfig,
            Task::StoreKey(key) => TaskView::StoreKey(key@),
            Task::DeleteKey => TaskView::DeleteKey,
            Task::SetLocale(l) => TaskView::SetLocale(l),
            Task::ChangeFont(name, size) => TaskView::ChangeFont(name@, size),
            Task::ChangeTheme(name) => TaskView::ChangeTheme(name@),
            Task::OpenLogFolder => TaskView::OpenLogFolder,
            Task::SessionWork(e) => TaskView::SessionWork(e@),
            Task::TabsWork(e) => TaskView::TabsWork(e@),
            Task::FilesWork(e) => TaskView::FilesWork(e@),
            Task::TransferWork(e) => TaskView::TransferWork(e@),
            Task::UpdatesWork(e) => TaskView::UpdatesWork(e@),
            Task::MasterPwWork(e) => TaskView::MasterPwWork(e@),
            Task::WindowWork(e) => TaskView::WindowWork(e),
        }
    }
}

/// What a list of tasks holds.
pub open spec fn tasks_of(list: Seq<Task>) -> Seq<TaskView> {
    Seq::new(list.len(), |i: int| list[i]@)
}

/// One task.
pub(crate) fn only(t: Task) -> (r: Vec<Task>)
    ensures
        tasks_of(r@) == seq![t@],
{
    let mut tasks: Vec<Task> = Vec::new();
    tasks.push(t);
    assert(tasks_of(tasks@) =~= seq![t@]);
    tasks
}

/// Two tasks.
pub(crate) fn both(a: Task, b: Task) -> (r: Vec<Task>)
    ensures
        tasks_of(r@) == seq![a@, b@],
{
    let mut tasks: Vec<Task> = Vec::new();
    tasks.push(a);
    tasks.push(b);
    assert(tasks_of(tasks@) =~= seq![a@, b@]);
    tasks
}

/// No task.
pub(crate) fn none() -> (r: Vec<Task>)
    ensures
        tasks_of(r@) == Seq::<TaskView>::empty(),
{
    let tasks: Vec<Task> = Vec::new();
    assert(tasks_of(tasks@) =~= Seq::<TaskView>::empty());
    tasks
}

/// An entry of the catalogue.
pub open spec fn entry(key: Seq<char>) -> Option<TextView> {
    Some(i18n::plain(i18n::entry(key)))
}

/// The number of the tab that is shown, or 0.
pub open spec fn active_or_zero(v: RootView) -> u64 {
    match v.tabs.active {
        Some(id) => id,
        None => 0,
    }
}

/// Whether a number is that of one of the first `n` tabs, and its files are those of a session.
pub open spec fn opened_among(v: RootView, id: u64, n: int) -> bool {
    tabs::place(v.tabs.tabs, id, n) is Some && v.files.contains_key(id) && v.files[id].session
        is Some
}

/// The tabs whose files are open.
pub open spec fn opened_tabs(v: RootView) -> Set<u64> {
    Set::new(|id: u64| opened_among(v, id, v.tabs.tabs.len() as int))
}

/// Whether a number is that of one of the first `n` tabs, and it has a channel.
pub open spec fn channel_among(v: RootView, id: u64, n: int) -> bool {
    tabs::place(v.tabs.tabs, id, n) is Some && v.files.contains_key(id) && v.files[id].client
        is Some
}

/// The channels of the first `n` tabs.
pub open spec fn channels_among(v: RootView, n: int) -> Map<u64, u64> {
    Map::new(|id: u64| channel_among(v, id, n), |id: u64| v.files[id].client->0)
}

/// What the tabs know of the rest.
pub open spec fn tabs_ctx_of(v: RootView) -> tabs::CtxView {
    tabs::CtxView {
        center: v.center,
        active_session: v.active_session,
        terminal_focused: v.terminal_focused,
        window_focus_saved: v.window_focus_saved,
    }
}

/// What the master password's panel knows of the rest.
pub open spec fn masterpw_ctx_of(v: RootView) -> masterpw::Ctx {
    masterpw::Ctx {
        has_store: v.session.store is Some,
        has_vault: v.vault is Some,
        remember: v.config.security.remember_master_key,
    }
}

/// What the sessions know of the rest.
pub open spec fn session_ctx_of(v: RootView, env: EnvView) -> session::CtxView {
    session::CtxView { vault: v.vault, nanos: env.nanos, nonce: env.nonce }
}

/// What the settings know of the rest.
pub open spec fn settings_ctx_of(v: RootView, env: EnvView) -> settings::CtxView {
    settings::CtxView {
        ui_font: v.config.appearance.ui_font,
        terminal_font: v.config.terminal.font,
        default_label: env.default_label,
        fonts: env.fonts,
    }
}

/// What is known of the rest where a newer version is looked for.
pub open spec fn updates_ctx_of(v: RootView, env: EnvView) -> updates::Ctx {
    updates::Ctx {
        auto_check: v.config.updates.auto_check,
        last_check_unix: v.config.updates.last_check_unix,
        now_unix: env.now_unix,
    }
}

/// What the transfers know of the rest.
pub open spec fn transfer_ctx_of(v: RootView, env: EnvView) -> transfer::CtxView {
    let tab_id = active_or_zero(v);
    transfer::CtxView {
        tab_id,
        client: if v.files.contains_key(tab_id) {
            v.files[tab_id].client
        } else {
            None
        },
        clients: channels_among(v, v.tabs.tabs.len() as int),
        remote_dir: if v.files.contains_key(tab_id) {
            v.files[tab_id].path
        } else {
            "."@
        },
        max_concurrent: v.config.transfer.max_concurrent,
        retry_attempts: v.config.transfer.retry_attempts,
        now_ms: env.now_ms,
    }
}

/// Whether a message to the transfers stays within the limits of the machine.
pub open spec fn transfers_fit(v: RootView, env: EnvView, msg: transfer::Message) -> bool {
    model::fits(v.transfer, msg, env.now_ms)
}

/// What the program holds at its start.
pub open spec fn begun(
    store: Option<SessionStore>,
    sessions: Seq<SessionView>,
    config: app_config::AppView,
    vault: Option<VaultView>,
    env: EnvView,
) -> RootView {
    let v = RootView {
        session: session::ListView {
            store: session::opt_store(store),
            sessions,
            hovered: None,
            selected: None,
            collapsed: Set::empty(),
            editor: None,
        },
        active_session: None,
        center: CenterView::Sessions,
        tabs: tabs::BarView { tabs: Seq::empty(), active: None, next: 1, show_list: false },
        terminal_focused: true,
        window_focus_saved: None,
        config,
        files: Map::empty(),
        transfer: model::empty_queue(),
        settings: settings::ShownView {
            show_settings: false,
            category: settings::SettingsCategory::General,
            ui_font_options: Seq::empty(),
            terminal_font_options: Seq::empty(),
        },
        status: None,
        hostkey: Seq::empty(),
        updates: None,
        vault,
        masterpw: masterpw::empty_panel(),
        window: None,
    };
    RootView { settings: settings::refreshed(v.settings, settings_ctx_of(v, env)), ..v }
}

/// What the user is told at the start: where the key was lost, that.
pub open spec fn greeting(key_lost: bool) -> Seq<TaskView> {
    if key_lost {
        seq![
            TaskView::Toast(
                ToastKind::Warning,
                i18n::plain(i18n::entry("masterpw.keyring_lost"@)),
            ),
        ]
    } else {
        Seq::empty()
    }
}

impl App {
    /// Whether the tabs and the transfers are in order.
    pub open spec fn wf(&self) -> bool {
        &&& self.tabs.wf()
        &&& self.transfer.wf()
    }

    /// The program at its start, and what is left to be done: the user is told where the key was
    /// lost, and a newer version is looked for where it is time.
    pub fn new(
        store: Option<SessionStore>,
        sessions: Vec<SessionConfig>,
        config: AppConfig,
        start: Start,
        env: &Env,
    ) -> (r: (App, Vec<Task>))
        requires
            updates::measurable(config.updates.last_check_unix, env.now_unix),
        ensures
            r.0.wf(),
            r.0@ == begun(
                store,
                crate::config::session::views(sessions@),
                config@,
                opt_vault(start.vault),
                env@,
            ),
            tasks_of(r.1@) == greeting(start.key_lost).push(
                TaskView::Updates(
                    updates::step(
                        None,
                        updates::Message::CheckOnStartup,
                        updates_ctx_of(r.0@, env@),
                    ).1,
                ),
            ),
    {
        let ctx = settings::Ctx {
            ui_font: config.appearance.ui_font.as_str(),
            terminal_font: config.terminal.font.as_str(),
            default_label: env.default_label,
            fonts: env.fonts,
        };
        let settings = settings::State::new(&ctx);
        let mut app = App {
            session: session::State::new(store, sessions),
            active_session: None,
            center: CenterView::Sessions,
            tabs: tabs::State::new(),
            terminal_focused: true,
            window_focus_saved: None,
            config,
            files: files::State::new(),
            transfer: transfer::State::new(),
            settings,
            status: None,
            hostkey: hostkey::State::new(),
            updates: updates::State::new(),
            vault: start.vault,
            masterpw: masterpw::State::new(),
            window: window::State::new(),
        };
        let mut tasks: Vec<Task> = Vec::new();
        if start.key_lost {
            tasks.push(Task::Toast(ToastKind::Warning, Text::entry("masterpw.keyring_lost")));
        }
        assert(tasks_of(tasks@) =~= greeting(start.key_lost));
        let ctx = app.updates_ctx(env);
        let events = app.updates.update(updates::Message::CheckOnStartup, &ctx);
        let ghost before = tasks_of(tasks@);
        let last = Task::Updates(events);
        let ghost view = last@;
        tasks.push(last);
        assert(tasks_of(tasks@) =~= before.push(view));
        (app, tasks)
    }

    /// The files of the tab shown.
    pub fn active_sftp(&self) -> (r: Option<&SftpView>)
        ensures
            match r {
                Some(p) => self@.tabs.active is Some && self@.files.contains_key(
                    self@.tabs.active->0,
                ) && p@ == self@.files[self@.tabs.active->0],
                None => self@.tabs.active is None || !self@.files.contains_key(
                    self@.tabs.active->0,
                ),
            },
    {
        self.files.active(self.tabs.active())
    }

    /// How a session stands, over all its tabs.
    pub fn session_status(&self, id: &str) -> (r: ConnectionStatus)
        ensures
            r == tabs::status_of(self@.tabs.tabs, id@),
    {
        self.tabs.session_status(id)
    }

    /// Whether the credentials may be carried to other devices: only those that a master password
    /// opens can be opened there.
    pub fn can_enable_sync(&self) -> (r: bool)
        ensures
            r == (self@.vault matches Some(v) && v.header.master_password_set),
    {
        match &self.vault {
            Some(v) => v.header().master_password_set,
            None => false,
        }
    }

    /// The number of the tab that is shown, or 0.
    pub(crate) fn active_or_zero(&self) -> (r: u64)
        ensures
            r == active_or_zero(self@),
    {
        match self.tabs.active() {
            Some(id) => id,
            None => 0,
        }
    }

    /// The tabs whose files are open.
    pub(crate) fn opened_tabs(&self) -> (r: IdSet)
        ensures
            r.wf(),
            r@ == opened_tabs(self@),
    {
        let list = self.tabs.list();
        let ghost v = self@;
        let mut out = IdSet::new();
        let mut i: usize = 0;
        proof {
            assert(Set::new(|id: u64| opened_among(v, id, 0)) =~= Set::<u64>::empty());
        }
        while i < list.len()
            invariant
                i <= list@.len(),
                v == self@,
                tabs::views(list@) == v.tabs.tabs,
                out.wf(),
                out@ == Set::new(|id: u64| opened_among(v, id, i as int)),
            decreases list@.len() - i,
        {
            let tab_id: u64 = list[i].id;
            let ghost before = out@;
            proof {
                assert(v.tabs.tabs[i as int] == list@[i as int]@);
            }
            if let Some(p) = self.files.tab(tab_id) {
                if p.session.is_some() {
                    out.insert(tab_id);
                }
            }
            proof {
                assert(out@ =~= Set::new(|id: u64| opened_among(v, id, i + 1)));
            }
            i += 1;
        }
        out
    }

    /// The channels of the tabs.
    fn channels(&self) -> (r: HashMap<u64, u64>)
        ensures
            r@ == channels_among(self@, self@.tabs.tabs.len() as int),
    {
        broadcast use vstd::std_specs::hash::group_hash_axioms;

        let list = self.tabs.list();
        let ghost v = self@;
        let mut out: HashMap<u64, u64> = HashMap::new();
        let mut i: usize = 0;
        proof {
            assert(out@ =~= channels_among(v, 0));
        }
        while i < list.len()
            invariant
                i <= list@.len(),
                v == self@,
                tabs::views(list@) == v.tabs.tabs,
                out@ == channels_among(v, i as int),
            decreases list@.len() - i,
        {
            broadcast use vstd::std_specs::hash::group_hash_axioms;

            let tab_id: u64 = list[i].id;
            proof {
                assert(v.tabs.tabs[i as int] == list@[i as int]@);
            }
            if let Some(p) = self.files.tab(tab_id) {
                if let Some(c) = p.client {
                    out.insert(tab_id, c);
                }
            }
            proof {
                assert(out@ =~= channels_among(v, i + 1));
            }
            i += 1;
        }
        out
    }

    /// What the tabs know of the rest.
    pub fn tabs_ctx(&self) -> (r: tabs::Ctx)
        ensures
            r@ == tabs_ctx_of(self@),
    {
        tabs::Ctx {
            center: self.center,
            active_session: text::copied_opt(&self.active_session),
            terminal_focused: self.terminal_focused,
            window_focus_saved: self.window_focus_saved,
        }
    }

    /// What the master password's panel knows of the rest.
    pub fn masterpw_ctx(&self) -> (r: masterpw::Ctx)
        ensures
            r == masterpw_ctx_of(self@),
    {
        masterpw::Ctx {
            has_store: self.session.store.is_some(),
            has_vault: self.vault.is_some(),
            remember: self.config.security.remember_master_key,
        }
    }

    /// What is known of the rest where a newer version is looked for.
    pub fn updates_ctx(&self, env: &Env) -> (r: updates::Ctx)
        ensures
            r == updates_ctx_of(self@, env@),
    {
        updates::Ctx {
            auto_check: self.config.updates.auto_check,
            last_check_unix: self.config.updates.last_check_unix,
            now_unix: env.now_unix,
        }
    }

    /// What the transfers know of the rest.
    pub fn transfer_ctx(&self, env: &Env) -> (r: transfer::Ctx)
        ensures
            r@ == transfer_ctx_of(self@, env@),
    {
        let tab_id: u64 = self.active_or_zero();
        let (client, remote_dir) = match self.files.tab(tab_id) {
            Some(p) => (p.client, p.path.clone()),
            None => (None, ".".to_owned()),
        };
        let r = transfer::Ctx {
            tab_id,
            client,
            clients: self.channels(),
            remote_dir,
            max_concurrent: self.config.transfer.max_concurrent,
            retry_attempts: self.config.transfer.retry_attempts,
            now_ms: env.now_ms,
        };
        assert(r@ =~= transfer_ctx_of(self@, env@));
        r
    }
}

} // verus!
