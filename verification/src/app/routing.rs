//! Where each message goes.

use crate::app::{self, App, Env, EnvView, RootView, Task, TaskView};
use crate::app::events;
use crate::crypto;
use crate::files;
use crate::hostkey;
use crate::masterpw;
use crate::model::ConnectionStatus;
use crate::session;
use crate::settings;
use crate::tabs::{self, CenterView};
use crate::transfer;
use crate::transfer::model;
use crate::updates;
use crate::window;
use vstd::prelude::*;

verus! {

/// What the program is told.
pub enum Message {
    /// This is to be shown in the middle of the window.
    SwitchCenter(CenterView),
    /// To the sessions.
    Session(session::Message),
    /// To the tabs.
    Tabs(tabs::Message),
    /// To the questions about hosts' keys.
    HostKey(hostkey::Message),
    /// To the files.
    Files(files::Message),
    /// To the transfers.
    Transfer(transfer::Message),
    /// To the settings.
    Settings(settings::Message),
    /// To the search for a newer version.
    Updates(updates::Message),
    /// To the master password.
    MasterPw(masterpw::Message),
    /// To the window.
    Window(window::Message),
    /// The user gives up what is on top.
    Escape,
    /// The user asks for the menu of what is under the pointer.
    RightPress,
    /// The user types into a terminal, or points at something in it.
    TerminalTouched,
    /// Nothing.
    Noop,
}

/// Whether a message can be dealt with.
pub open spec fn fits(v: RootView, msg: Message, env: EnvView) -> bool {
    match msg {
        Message::Session(m) => session::acceptable(v.session, m),
        Message::HostKey(m) => m is Prompt || v.hostkey.len() > 0,
        Message::Transfer(m) => app::transfers_fit(v, env, m),
        Message::Updates(m) => m is CheckOnStartup ==> updates::measurable(
            v.config.updates.last_check_unix,
            env.now_unix,
        ),
        _ => true,
    }
}

/// The session whose files are to be opened by themselves when files are shown: that of the tab
/// shown, where it is connected and shows none yet.
pub open spec fn to_open(v: RootView) -> Option<Seq<char>> {
    match v.tabs.active {
        Some(id) => match tabs::found(v.tabs.tabs, id) {
            Some(i) => if v.tabs.tabs[i].status == ConnectionStatus::Connected && !(
            v.files.contains_key(id) && v.files[id].session is Some) {
                Some(v.tabs.tabs[i].session_id)
            } else {
                None
            },
            None => None,
        },
        None => None,
    }
}

/// Something else is shown in the middle of the window.
pub open spec fn center_switched(v: RootView, center: CenterView) -> (RootView, Seq<TaskView>) {
    let shown = RootView { center, ..v };
    if center == CenterView::Files {
        match to_open(shown) {
            Some(id) => events::files_opened(shown, id),
            None => (shown, Seq::empty()),
        }
    } else {
        (shown, Seq::empty())
    }
}

/// A message went to the sessions.
pub open spec fn session_stepped(v: RootView, m: session::Message, env: EnvView) -> (
    RootView,
    Seq<TaskView>,
) {
    let (session, list) = session::step(v.session, m, app::session_ctx_of(v, env));
    (RootView { session, ..v }, seq![TaskView::Session(list)])
}

/// A message went to the files.
pub open spec fn files_stepped(v: RootView, m: files::Message, tab_id: u64) -> (
    RootView,
    Seq<TaskView>,
) {
    let (files, list) = files::step(v.files, m, tab_id);
    (RootView { files, ..v }, seq![TaskView::Files(list)])
}

/// A message went to the settings.
pub open spec fn settings_stepped(v: RootView, m: settings::Message, env: EnvView) -> (
    RootView,
    Seq<TaskView>,
) {
    let (settings, e) = settings::step(v.settings, m, app::settings_ctx_of(v, env));
    (
        RootView { settings, ..v },
        match e {
            Some(e) => seq![TaskView::Settings(e)],
            None => Seq::empty(),
        },
    )
}

/// A message went to the questions about hosts' keys.
pub open spec fn hostkey_stepped(v: RootView, m: hostkey::Message) -> (RootView, Seq<TaskView>) {
    let (hostkey, list) = hostkey::step(v.hostkey, m);
    (RootView { hostkey, ..v }, seq![TaskView::Answer(list)])
}

/// What is on top is given up: a question about a host's key, else the settings, else the editor,
/// else what is asked or typed in the files of the tab shown.
pub open spec fn escaped(v: RootView, env: EnvView) -> (RootView, Seq<TaskView>) {
    if v.hostkey.len() > 0 {
        hostkey_stepped(v, hostkey::Message::Dismiss)
    } else if v.settings.show_settings {
        settings_stepped(v, settings::Message::Toggle, env)
    } else if v.session.editor is Some {
        session_stepped(v, session::Message::CancelEdit, env)
    } else {
        match v.tabs.active {
            Some(id) => files_stepped(v, files::Message::SftpCancelDialog, id),
            None => (v, Seq::empty()),
        }
    }
}

/// What is under the pointer is selected, among the files and among the sessions.
pub open spec fn right_pressed(v: RootView, env: EnvView) -> (RootView, Seq<TaskView>) {
    let (after, first) = files_stepped(
        v,
        files::Message::SftpSelectHovered,
        app::active_or_zero(v),
    );
    let (last, second) = session_stepped(after, session::Message::SessionSelectHovered, env);
    (last, first + second)
}

/// What becomes of the program, and what is left to be done.
pub open spec fn routed(v: RootView, msg: Message, env: EnvView) -> (RootView, Seq<TaskView>) {
    match msg {
        Message::SwitchCenter(center) => center_switched(v, center),
        Message::Session(m) => session_stepped(v, m, env),
        Message::Tabs(m) => {
            let (tabs, list) = tabs::step(v.tabs, m, app::tabs_ctx_of(v), app::opened_tabs(v));
            (RootView { tabs, ..v }, seq![TaskView::Tabs(list)])
        },
        Message::HostKey(m) => hostkey_stepped(v, m),
        Message::Files(m) => files_stepped(v, m, app::active_or_zero(v)),
        Message::Transfer(m) => events::transfer_stepped(v, m, env),
        Message::Settings(m) => settings_stepped(v, m, env),
        Message::Updates(m) => {
            let (updates, list) = updates::step(v.updates, m, app::updates_ctx_of(v, env));
            (RootView { updates, ..v }, seq![TaskView::Updates(list)])
        },
        Message::MasterPw(m) => {
            let (masterpw, list) = masterpw::step(v.masterpw, m, app::masterpw_ctx_of(v));
            (RootView { masterpw, ..v }, seq![TaskView::MasterPw(list)])
        },
        Message::Window(m) => {
            let (window, e) = window::step(v.window, m, v.config.window.remember_size);
            (
                RootView { window, ..v },
                match e {
                    Some(e) => seq![TaskView::Window(e)],
                    None => Seq::empty(),
                },
            )
        },
        Message::Escape => escaped(v, env),
        Message::RightPress => right_pressed(v, env),
        Message::TerminalTouched => (RootView { terminal_focused: true, ..v }, Seq::empty()),
        Message::Noop => (v, Seq::empty()),
    }
}

impl App {
    /// A message goes to the sessions.
    fn step_session(&mut self, m: session::Message, env: &Env) -> (r: Vec<Task>)
        requires
            old(self).wf(),
            session::acceptable(old(self)@.session, m),
        ensures
            final(self).wf(),
            (final(self)@, app::tasks_of(r@)) == session_stepped(old(self)@, m, env@),
    {
        let ctx = session::Ctx {
            vault: self.vault.as_ref(),
            nanos: env.nanos,
            nonce: env.nonce,
        };
        let list = self.session.update(m, &ctx);
        app::only(Task::Session(list))
    }

    /// A message goes to the files.
    fn step_files(&mut self, m: files::Message, tab_id: u64) -> (r: Vec<Task>)
        requires
            old(self).wf(),
        ensures
            final(self).wf(),
            (final(self)@, app::tasks_of(r@)) == files_stepped(old(self)@, m, tab_id),
    {
        let list = self.files.update(m, tab_id);
        app::only(Task::Files(list))
    }

    /// A message goes to the settings.
    fn step_settings(&mut self, m: settings::Message, env: &Env) -> (r: Vec<Task>)
        requires
            old(self).wf(),
        ensures
            final(self).wf(),
            (final(self)@, app::tasks_of(r@)) == settings_stepped(old(self)@, m, env@),
    {
        let ctx = settings::Ctx {
            ui_font: self.config.appearance.ui_font.as_str(),
            terminal_font: self.config.terminal.font.as_str(),
            default_label: env.default_label,
            fonts: env.fonts,
        };
        match self.settings.update(m, &ctx) {
            Some(e) => app::only(Task::Settings(e)),
            None => app::none(),
        }
    }

    /// A message goes to the questions about hosts' keys.
    fn step_hostkey(&mut self, m: hostkey::Message) -> (r: Vec<Task>)
        requires
            old(self).wf(),
            m is Prompt || old(self)@.hostkey.len() > 0,
        ensures
            final(self).wf(),
            (final(self)@, app::tasks_of(r@)) == hostkey_stepped(old(self)@, m),
    {
        let list = self.hostkey.update(m);
        app::only(Task::Answer(list))
    }

    /// The session whose files are to be opened by themselves when files are shown.
    fn to_open(&self) -> (r: Option<String>)
        ensures
            crate::text::opt(r) == to_open(self@),
    {
        let id: u64 = match self.tabs.active() {
            Some(id) => id,
            None => {
                return None;
            },
        };
        if let Some(p) = self.files.tab(id) {
            if p.session.is_some() {
                return None;
            }
        }
        self.tabs.connected_session(id)
    }

    /// Something else is shown in the middle of the window. Where that is files, those of the tab
    /// shown are opened if they are not.
    pub fn handle_switch_center(&mut self, center: CenterView) -> (r: Vec<Task>)
        requires
            old(self).wf(),
        ensures
            final(self).wf(),
            (final(self)@, app::tasks_of(r@)) == center_switched(old(self)@, center),
    {
        self.center = center;
        if center == CenterView::Files {
            match self.to_open() {
                Some(id) => self.open_files(id.as_str()),
                None => app::none(),
            }
        } else {
            app::none()
        }
    }

    /// What is on top is given up.
    pub fn handle_escape(&mut self, env: &Env) -> (r: Vec<Task>)
        requires
            old(self).wf(),
        ensures
            final(self).wf(),
            (final(self)@, app::tasks_of(r@)) == escaped(old(self)@, env@),
    {
        if !self.hostkey.is_empty() {
            self.step_hostkey(hostkey::Message::Dismiss)
        } else if self.settings.show_settings {
            self.step_settings(settings::Message::Toggle, env)
        } else if self.session.editor.is_some() {
            self.step_session(session::Message::CancelEdit, env)
        } else {
            match self.tabs.active() {
                Some(id) => self.step_files(files::Message::SftpCancelDialog, id),
                None => app::none(),
            }
        }
    }

    /// What is under the pointer is selected.
    pub fn handle_right_press(&mut self, env: &Env) -> (r: Vec<Task>)
        requires
            old(self).wf(),
        ensures
            final(self).wf(),
            (final(self)@, app::tasks_of(r@)) == right_pressed(old(self)@, env@),
    {
        let tab_id: u64 = self.active_or_zero();
        let mut tasks = self.step_files(files::Message::SftpSelectHovered, tab_id);
        let mut rest = self.step_session(session::Message::SessionSelectHovered, env);
        let ghost (first, behind) = (tasks@, rest@);
        tasks.append(&mut rest);
        proof {
            assert(tasks@ =~= first + behind);
            assert(app::tasks_of(tasks@) =~= app::tasks_of(first) + app::tasks_of(behind));
        }
        tasks
    }

    /// Whether a message can be dealt with.
    pub fn accepts(&self, msg: &Message, env: &Env) -> (r: bool)
        ensures
            r == fits(self@, *msg, env@),
    {
        match msg {
            Message::Session(session::Message::SaveSession) => match &self.session.editor {
                Some(d) => crypto::can_seal(d.password.as_str()) && crypto::can_seal(
                    d.passphrase.as_str(),
                ),
                None => true,
            },
            Message::Session(session::Message::Imported(Ok(list), clock)) => list.len()
                <= clock.len(),
            Message::HostKey(hostkey::Message::Prompt(_, _, _)) => true,
            Message::HostKey(_) => !self.hostkey.is_empty(),
            Message::Transfer(transfer::Message::Upload(_, items)) => self.transfer.has_numbers(
                items.len(),
            ),
            Message::Transfer(transfer::Message::Download(_, _, _)) => self.transfer.has_numbers(1),
            Message::Transfer(transfer::Message::TransferDone(_, _, _)) => env.now_ms <= u64::MAX
                - transfer::MAX_BACKOFF_MS,
            Message::Updates(updates::Message::CheckOnStartup) => updates::can_measure(
                self.config.updates.last_check_unix,
                env.now_unix,
            ),
            _ => true,
        }
    }

    /// A message is dealt with: the program changes, and what is left to be done is told.
    pub fn update(&mut self, msg: Message, env: &Env) -> (r: Vec<Task>)
        requires
            old(self).wf(),
            fits(old(self)@, msg, env@),
        ensures
            final(self).wf(),
            (final(self)@, app::tasks_of(r@)) == routed(old(self)@, msg, env@),
    {
        match msg {
            Message::SwitchCenter(center) => self.handle_switch_center(center),
            Message::Session(m) => self.step_session(m, env),
            Message::Tabs(m) => {
                let ctx = self.tabs_ctx();
                let opened = self.opened_tabs();
                let list = self.tabs.update(m, &ctx, &opened);
                app::only(Task::Tabs(list))
            },
            Message::HostKey(m) => self.step_hostkey(m),
            Message::Files(m) => {
                let tab_id: u64 = self.active_or_zero();
                self.step_files(m, tab_id)
            },
            Message::Transfer(m) => self.step_transfer(m, env),
            Message::Settings(m) => self.step_settings(m, env),
            Message::Updates(m) => {
                let ctx = self.updates_ctx(env);
                let list = self.updates.update(m, &ctx);
                app::only(Task::Updates(list))
            },
            Message::MasterPw(m) => {
                let ctx = self.masterpw_ctx();
                let list = self.masterpw.update(m, &ctx);
                app::only(Task::MasterPw(list))
            },
            Message::Window(m) => match self.window.update(
                m,
                self.config.window.remember_size,
            ) {
                Some(e) => app::only(Task::Window(e)),
                None => app::none(),
            },
            Message::Escape => self.handle_escape(env),
            Message::RightPress => self.handle_right_press(env),
            Message::TerminalTouched => {
                self.terminal_focused = true;
                app::none()
            },
            Message::Noop => app::none(),
        }
    }
}

} // verus!
