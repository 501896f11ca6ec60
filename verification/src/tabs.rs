//! The tabs of the terminals.
//!
//! Each tab has a connection of its own. Closing the last one brings the list of sessions back.

use crate::i18n::{Text, TextView};
use crate::i18n;
use crate::id_set::IdSet;
use crate::model::ConnectionStatus;
use crate::text;
use vstd::prelude::*;

pub mod laws;

verus! {

/// What the middle of the window shows.
#[derive(Debug, Clone, Copy, PartialEq, Eq, Structural)]
pub enum CenterView {
    /// The sessions.
    Sessions,
    /// The files of the tab.
    Files,
    /// The transfers.
    Transfers,
}

/// A tab.
#[derive(Debug)]
pub struct TerminalTab {
    /// Its number.
    pub id: u64,
    /// The session it belongs to.
    pub session_id: String,
    /// How its connection stands.
    pub status: ConnectionStatus,
    /// Why it could not be opened.
    pub error: Option<Text>,
    /// The handle of its connection, once there is one.
    pub conn: Option<u64>,
    /// Whether its terminal is there.
    pub terminal: bool,
    /// The handle of what moves the terminal's bytes, once there is one.
    pub bridge: Option<u64>,
    /// What it is called.
    pub title: String,
}

/// What a [`TerminalTab`] holds.
#[verifier::ext_equal]
pub struct TabView {
    /// Its number.
    pub id: u64,
    /// The session it belongs to.
    pub session_id: Seq<char>,
    /// How its connection stands.
    pub status: ConnectionStatus,
    /// Why it could not be opened.
    pub error: Option<TextView>,
    /// The handle of its connection.
    pub conn: Option<u64>,
    /// Whether its terminal is there.
    pub terminal: bool,
    /// The handle of what moves the terminal's bytes.
    pub bridge: Option<u64>,
    /// What it is called.
    pub title: Seq<char>,
}

impl View for TerminalTab {
    type V = TabView;

    open spec fn view(&self) -> TabView {
        TabView {
            id: self.id,
            session_id: self.session_id@,
            status: self.status,
            error: i18n::opt_text(self.error),
            conn: self.conn,
            terminal: self.terminal,
            bridge: self.bridge,
            title: self.title@,
        }
    }
}

/// What a list of tabs holds.
pub open spec fn views(list: Seq<TerminalTab>) -> Seq<TabView> {
    Seq::new(list.len(), |i: int| list[i]@)
}

/// The tabs.
pub struct State {
    tabs: Vec<TerminalTab>,
    active_tab: Option<u64>,
    next_tab_id: u64,
    show_tab_list: bool,
}

/// What a [`State`] holds.
#[verifier::ext_equal]
pub struct BarView {
    /// The tabs, the oldest first.
    pub tabs: Seq<TabView>,
    /// The tab that is shown.
    pub active: Option<u64>,
    /// The number of the next tab.
    pub next: u64,
    /// Whether the list of tabs is unfolded.
    pub show_list: bool,
}

impl View for State {
    type V = BarView;

    closed spec fn view(&self) -> BarView {
        BarView {
            tabs: views(self.tabs@),
            active: self.active_tab,
            next: self.next_tab_id,
            show_list: self.show_tab_list,
        }
    }
}

/// What the tabs know of the rest.
#[derive(Debug)]
pub struct Ctx {
    /// What the middle of the window shows.
    pub center: CenterView,
    /// The session that is chosen.
    pub active_session: Option<String>,
    /// Whether what is typed goes to the terminal.
    pub terminal_focused: bool,
    /// Whether it did when the window was left.
    pub window_focus_saved: Option<bool>,
}

/// What a [`Ctx`] holds.
pub struct CtxView {
    /// What the middle of the window shows.
    pub center: CenterView,
    /// The session that is chosen.
    pub active_session: Option<Seq<char>>,
    /// Whether what is typed goes to the terminal.
    pub terminal_focused: bool,
    /// Whether it did when the window was left.
    pub window_focus_saved: Option<bool>,
}

impl View for Ctx {
    type V = CtxView;

    open spec fn view(&self) -> CtxView {
        CtxView {
            center: self.center,
            active_session: text::opt(self.active_session),
            terminal_focused: self.terminal_focused,
            window_focus_saved: self.window_focus_saved,
        }
    }
}

/// What is asked of the tabs, and what came of what was to be done.
pub enum Message {
    /// A tab is chosen.
    SelectTab(u64),
    /// A tab is chosen from the list.
    SwitchTab(u64),
    /// A tab is to be closed.
    CloseTab(u64),
    /// The window is closing.
    WindowClosing,
    /// The list of tabs is to be folded or unfolded.
    ToggleTabList,
    /// The bytes of a tab's terminal are being moved, or why they are not.
    TerminalOpened(u64, Result<u64, Text>),
    /// The terminal of a tab is there, by the handle of what moves its bytes, or why it is not.
    TerminalMounted(u64, Result<u64, String>),
    /// The connection of a tab broke.
    TerminalDisconnected(u64),
    /// The terminal of a tab is to be drawn once more.
    TerminalReady(u64),
    /// The connection of a tab to a session is open, or why it is not.
    SessionConnected(u64, String, Result<u64, Text>),
    /// The window is entered or left.
    WindowFocused(bool),
}

/// What is to be done.
pub enum Event {
    /// This session is chosen.
    SetActiveSession(Option<String>),
    /// This is to be shown in the middle of the window.
    SetCenter(CenterView),
    /// What is typed goes to the terminal, or not.
    SetTerminalFocused(bool),
    /// This is to be kept until the window is entered again.
    SetWindowFocusSaved(Option<bool>),
    /// This is to stand in the status bar.
    SetStatus(Text),
    /// The files of this session are to be shown.
    OpenSftp(String),
    /// The bytes of a tab's terminal are to be moved over this connection.
    OpenTerminalBridge(u64, u64),
    /// The terminal of a tab is to be made, over what moves its bytes.
    SpawnTerminal(u64, u64),
    /// The questions about hosts' keys that a tab waits for are to be put away.
    RemoveHostKeyForTab(u64),
    /// The transfers of a tab that is gone are to be ended.
    CloseTransfers(u64),
    /// What moves a terminal's bytes is to stop.
    Disconnect(u64),
    /// The terminal of a tab is to be drawn once more.
    TerminalReady(u64),
    /// The bar is to be scrolled to a tab.
    ScrollTo(u64),
}

/// What an [`Event`] holds.
pub enum EventView {
    /// This session is chosen.
    SetActiveSession(Option<Seq<char>>),
    /// This is to be shown in the middle of the window.
    SetCenter(CenterView),
    /// What is typed goes to the terminal, or not.
    SetTerminalFocused(bool),
    /// This is to be kept until the window is entered again.
    SetWindowFocusSaved(Option<bool>),
    /// This is to stand in the status bar.
    SetStatus(TextView),
    /// The files of this session are to be shown.
    OpenSftp(Seq<char>),
    /// The bytes of a tab's terminal are to be moved over this connection.
    OpenTerminalBridge(u64, u64),
    /// The terminal of a tab is to be made.
    SpawnTerminal(u64, u64),
    /// The questions about hosts' keys that a tab waits for are to be put away.
    RemoveHostKeyForTab(u64),
    /// The transfers of a tab that is gone are to be ended.
    CloseTransfers(u64),
    /// What moves a terminal's bytes is to stop.
    Disconnect(u64),
    /// The terminal of a tab is to be drawn once more.
    TerminalReady(u64),
    /// The bar is to be scrolled to a tab.
    ScrollTo(u64),
}

impl View for Event {
    type V = EventView;

    open spec fn view(&self) -> EventView {
        match *self {
            Event::SetActiveSession(s) => EventView::SetActiveSession(text::opt(s)),
            Event::SetCenter(c) => EventView::SetCenter(c),
            Event::SetTerminalFocused(b) => EventView::SetTerminalFocused(b),
            Event::SetWindowFocusSaved(b) => EventView::SetWindowFocusSaved(b),
            Event::SetStatus(t) => EventView::SetStatus(t@),
            Event::OpenSftp(id) => EventView::OpenSftp(id@),
            Event::OpenTerminalBridge(tab, conn) => EventView::OpenTerminalBridge(tab, conn),
            Event::SpawnTerminal(tab, bridge) => EventView::SpawnTerminal(tab, bridge),
            Event::RemoveHostKeyForTab(tab) => EventView::RemoveHostKeyForTab(tab),
            Event::CloseTransfers(tab) => EventView::CloseTransfers(tab),
            Event::Disconnect(bridge) => EventView::Disconnect(bridge),
            Event::TerminalReady(tab) => EventView::TerminalReady(tab),
            Event::ScrollTo(tab) => EventView::ScrollTo(tab),
        }
    }
}

/// What a list of events holds.
pub open spec fn events_of(list: Seq<Event>) -> Seq<EventView> {
    Seq::new(list.len(), |i: int| list[i]@)
}

/// Whether the numbers of the tabs go up, and none was given out twice.
pub open spec fn ordered(b: BarView) -> bool {
    &&& forall|i: int, j: int|
        0 <= i < j < b.tabs.len() ==> (#[trigger] b.tabs[i]).id < (#[trigger] b.tabs[j]).id
    &&& forall|i: int| 0 <= i < b.tabs.len() ==> (#[trigger] b.tabs[i]).id < b.next
}

/// The place of a tab among the first `n`.
pub open spec fn place(tabs: Seq<TabView>, id: u64, n: int) -> Option<int>
    decreases n,
{
    if n <= 0 {
        None
    } else {
        match place(tabs, id, n - 1) {
            Some(i) => Some(i),
            None => if tabs[n - 1].id == id {
                Some(n - 1)
            } else {
                None
            },
        }
    }
}

/// The place of a tab.
pub open spec fn found(tabs: Seq<TabView>, id: u64) -> Option<int> {
    place(tabs, id, tabs.len() as int)
}

/// The session of a tab.
pub open spec fn session_of(tabs: Seq<TabView>, id: Option<u64>) -> Option<Seq<char>> {
    match id {
        Some(id) => match found(tabs, id) {
            Some(i) => Some(tabs[i].session_id),
            None => None,
        },
        None => None,
    }
}

/// The tabs without this one.
pub open spec fn without(tabs: Seq<TabView>, id: u64) -> Seq<TabView> {
    tabs.filter(|t: TabView| t.id != id)
}

/// The tabs without those of a session.
pub open spec fn without_session(tabs: Seq<TabView>, session: Seq<char>) -> Seq<TabView> {
    tabs.filter(|t: TabView| t.session_id != session)
}

/// The numbers of the tabs of a session, in their order.
pub open spec fn session_ids(tabs: Seq<TabView>, session: Seq<char>) -> Seq<u64>
    decreases tabs.len(),
{
    if tabs.len() == 0 {
        Seq::empty()
    } else if tabs.last().session_id == session {
        session_ids(tabs.drop_last(), session).push(tabs.last().id)
    } else {
        session_ids(tabs.drop_last(), session)
    }
}

/// The number of the last tab.
pub open spec fn last_id(tabs: Seq<TabView>) -> Option<u64> {
    if tabs.len() == 0 {
        None
    } else {
        Some(tabs.last().id)
    }
}

/// The bar with a new tab, which is shown.
pub open spec fn added(b: BarView, session_id: Seq<char>, title: Seq<char>) -> BarView {
    BarView {
        tabs: b.tabs.push(
            TabView {
                id: b.next,
                session_id,
                status: ConnectionStatus::Connecting,
                error: None,
                conn: None,
                terminal: false,
                bridge: None,
                title,
            },
        ),
        active: Some(b.next),
        next: (b.next + 1) as u64,
        ..b
    }
}

/// The bar without the tabs of a session; the last tab is shown where the one that was is gone.
pub open spec fn session_removed(b: BarView, session: Seq<char>) -> BarView {
    let tabs = without_session(b.tabs, session);
    BarView {
        tabs,
        active: match b.active {
            Some(id) => if found(tabs, id) is Some {
                Some(id)
            } else {
                last_id(tabs)
            },
            None => last_id(tabs),
        },
        ..b
    }
}

/// The bar without a tab; the last one is shown where it was shown.
pub open spec fn dropped(b: BarView, id: u64) -> BarView {
    let tabs = without(b.tabs, id);
    BarView {
        tabs,
        active: if b.active == Some(id) {
            last_id(tabs)
        } else {
            b.active
        },
        ..b
    }
}

/// What is chosen once a tab is gone: without tabs the sessions are shown; where the session of
/// the tab was chosen, that of the tab shown is.
pub open spec fn after_drop(before: BarView, id: u64, ctx: CtxView) -> Seq<EventView> {
    let after = dropped(before, id);
    if after.tabs.len() == 0 {
        seq![
            EventView::SetCenter(CenterView::Sessions),
            EventView::SetActiveSession(None),
        ]
    } else if ctx.active_session == session_of(before.tabs, Some(id)) {
        seq![EventView::SetActiveSession(session_of(after.tabs, after.active))]
    } else {
        Seq::empty()
    }
}

/// What is to be done when a tab is chosen. Where files are shown, and the tab is connected but
/// shows none yet, its files are opened.
pub open spec fn selected(
    b: BarView,
    id: u64,
    ctx: CtxView,
    opened: Set<u64>,
) -> Seq<EventView> {
    match found(b.tabs, id) {
        Some(i) => {
            let t = b.tabs[i];
            let events = seq![
                EventView::SetTerminalFocused(true),
                EventView::SetActiveSession(Some(t.session_id)),
            ];
            if ctx.center == CenterView::Files && !opened.contains(id) && t.status
                == ConnectionStatus::Connected {
                events.push(EventView::OpenSftp(t.session_id))
            } else {
                events
            }
        },
        None => seq![EventView::SetTerminalFocused(true)],
    }
}

/// What moves the bytes of a tab's terminal is to stop.
pub open spec fn stopped(tabs: Seq<TabView>, id: u64) -> Seq<EventView> {
    match found(tabs, id) {
        Some(i) => match tabs[i].bridge {
            Some(bridge) => seq![EventView::Disconnect(bridge)],
            None => Seq::empty(),
        },
        None => Seq::empty(),
    }
}

/// What moves the bytes of all terminals is to stop.
pub open spec fn all_stopped(tabs: Seq<TabView>) -> Seq<EventView>
    decreases tabs.len(),
{
    if tabs.len() == 0 {
        Seq::empty()
    } else {
        match tabs.last().bridge {
            Some(bridge) => all_stopped(tabs.drop_last()).push(EventView::Disconnect(bridge)),
            None => all_stopped(tabs.drop_last()),
        }
    }
}

/// The bar with a tab changed.
pub open spec fn changed(b: BarView, i: int, t: TabView) -> BarView {
    BarView { tabs: b.tabs.update(i, t), ..b }
}

/// The bar with a tab's connection kept.
pub open spec fn attached(b: BarView, id: u64, conn: u64) -> BarView {
    match found(b.tabs, id) {
        Some(i) => changed(b, i, TabView { conn: Some(conn), ..b.tabs[i] }),
        None => b,
    }
}

/// An entry of the catalogue with the value of its placeholder, as what stands in the status bar.
pub open spec fn status_with(key: Seq<char>, detail: Seq<char>) -> EventView {
    EventView::SetStatus(i18n::plain(i18n::entry_with(key, detail)))
}

/// The connection of a tab to a session is open, or not.
pub open spec fn connected(
    b: BarView,
    id: u64,
    session: Seq<char>,
    result: Result<u64, Text>,
) -> (BarView, Seq<EventView>) {
    match (found(b.tabs, id), result) {
        (None, Ok(_)) => (b, seq![status_with("app.tab_closed"@, session)]),
        (None, Err(t)) => (b, seq![EventView::SetStatus(t@)]),
        (Some(i), Ok(conn)) => (
            changed(b, i, TabView { error: None, ..b.tabs[i] }),
            seq![
                EventView::SetActiveSession(Some(session)),
                status_with("app.conn_established"@, session),
                EventView::OpenTerminalBridge(id, conn),
            ],
        ),
        (Some(i), Err(t)) => (
            changed(
                b,
                i,
                TabView { status: ConnectionStatus::Error, error: Some(t@), ..b.tabs[i] },
            ),
            seq![EventView::SetStatus(t@)],
        ),
    }
}

/// The terminal of a tab is there, or not.
pub open spec fn mounted(b: BarView, id: u64, result: Result<u64, String>) -> (
    BarView,
    Seq<EventView>,
) {
    match result {
        Ok(bridge) => (
            match found(b.tabs, id) {
                Some(i) => changed(
                    b,
                    i,
                    TabView {
                        terminal: true,
                        bridge: Some(bridge),
                        status: ConnectionStatus::Connected,
                        error: None,
                        ..b.tabs[i]
                    },
                ),
                None => b,
            },
            seq![
                EventView::SetStatus(i18n::plain(i18n::entry("app.terminal_ready"@))),
                EventView::SetTerminalFocused(true),
            ],
        ),
        Err(words) => (
            BarView { tabs: without(b.tabs, id), ..b },
            seq![
                status_with("app.terminal_create_failed"@, words@),
                EventView::CloseTransfers(id),
            ],
        ),
    }
}

/// What becomes of the tabs, and what is to be done. `opened` are the tabs whose files are open.
pub open spec fn step(b: BarView, msg: Message, ctx: CtxView, opened: Set<u64>) -> (
    BarView,
    Seq<EventView>,
) {
    match msg {
        Message::SelectTab(id) => (
            BarView { active: Some(id), ..b },
            selected(b, id, ctx, opened),
        ),
        Message::SwitchTab(id) => (
            BarView { active: Some(id), show_list: false, ..b },
            selected(b, id, ctx, opened).push(EventView::ScrollTo(id)),
        ),
        Message::CloseTab(id) => (
            dropped(b, id),
            seq![EventView::RemoveHostKeyForTab(id), EventView::CloseTransfers(id)] + stopped(
                b.tabs,
                id,
            ) + after_drop(b, id, ctx),
        ),
        Message::WindowClosing => (b, all_stopped(b.tabs)),
        Message::ToggleTabList => (BarView { show_list: !b.show_list, ..b }, Seq::empty()),
        Message::TerminalOpened(id, Ok(bridge)) => (b, seq![EventView::SpawnTerminal(id, bridge)]),
        Message::TerminalOpened(id, Err(t)) => (
            dropped(b, id),
            seq![EventView::SetStatus(t@), EventView::CloseTransfers(id)] + after_drop(b, id, ctx),
        ),
        Message::TerminalMounted(id, result) => mounted(b, id, result),
        Message::TerminalDisconnected(id) => match found(b.tabs, id) {
            Some(i) => (
                changed(b, i, TabView { status: ConnectionStatus::Error, ..b.tabs[i] }),
                seq![status_with("app.disconnected"@, b.tabs[i].session_id)],
            ),
            None => (b, Seq::empty()),
        },
        Message::TerminalReady(id) => (b, seq![EventView::TerminalReady(id)]),
        Message::SessionConnected(id, session, result) => connected(b, id, session@, result),
        Message::WindowFocused(true) => (
            b,
            seq![
                EventView::SetTerminalFocused(
                    match ctx.window_focus_saved {
                        Some(saved) => saved,
                        None => ctx.terminal_focused,
                    },
                ),
                EventView::SetWindowFocusSaved(None),
            ],
        ),
        Message::WindowFocused(false) => (
            b,
            seq![
                EventView::SetWindowFocusSaved(Some(ctx.terminal_focused)),
                EventView::SetTerminalFocused(false),
            ],
        ),
    }
}

/// How a session stands, over all its tabs: connected where one is, else being connected where
/// one is, else failed where one has.
pub open spec fn status_of(tabs: Seq<TabView>, session: Seq<char>) -> ConnectionStatus {
    if has_status(tabs, session, ConnectionStatus::Connected) {
        ConnectionStatus::Connected
    } else if has_status(tabs, session, ConnectionStatus::Connecting) {
        ConnectionStatus::Connecting
    } else if has_status(tabs, session, ConnectionStatus::Error) {
        ConnectionStatus::Error
    } else {
        ConnectionStatus::Disconnected
    }
}

/// Whether a tab of a session stands like this.
pub open spec fn has_status(
    tabs: Seq<TabView>,
    session: Seq<char>,
    status: ConnectionStatus,
) -> bool {
    exists|i: int|
        0 <= i < tabs.len() && (#[trigger] tabs[i]).session_id == session && tabs[i].status
            == status
}

/// The place of the first tab of a session among the first `n`.
pub open spec fn session_place(tabs: Seq<TabView>, session: Seq<char>, n: int) -> Option<int>
    decreases n,
{
    if n <= 0 {
        None
    } else {
        match session_place(tabs, session, n - 1) {
            Some(i) => Some(i),
            None => if tabs[n - 1].session_id == session {
                Some(n - 1)
            } else {
                None
            },
        }
    }
}

/// The tab in which the files of a session are shown: the one shown, where it is of the session,
/// else the session's first.
pub open spec fn files_tab(b: BarView, session: Seq<char>) -> Option<u64> {
    if session_of(b.tabs, b.active) == Some(session) {
        b.active
    } else {
        match session_place(b.tabs, session, b.tabs.len() as int) {
            Some(i) => Some(b.tabs[i].id),
            None => None,
        }
    }
}

proof fn lemma_place(tabs: Seq<TabView>, id: u64, n: int)
    requires
        0 <= n <= tabs.len(),
    ensures
        match place(tabs, id, n) {
            Some(i) => 0 <= i < n && tabs[i].id == id && forall|k: int|
                0 <= k < i ==> (#[trigger] tabs[k]).id != id,
            None => forall|k: int| 0 <= k < n ==> (#[trigger] tabs[k]).id != id,
        },
    decreases n,
{
    if n > 0 {
        lemma_place(tabs, id, n - 1);
    }
}

/// The place of a tab.
pub proof fn lemma_found(tabs: Seq<TabView>, id: u64)
    ensures
        match found(tabs, id) {
            Some(i) => 0 <= i < tabs.len() && tabs[i].id == id && forall|k: int|
                0 <= k < i ==> (#[trigger] tabs[k]).id != id,
            None => forall|k: int| 0 <= k < tabs.len() ==> (#[trigger] tabs[k]).id != id,
        },
{
    lemma_place(tabs, id, tabs.len() as int);
}

/// The place of a session's first tab.
pub proof fn lemma_session_place(tabs: Seq<TabView>, session: Seq<char>, n: int)
    requires
        0 <= n <= tabs.len(),
    ensures
        match session_place(tabs, session, n) {
            Some(i) => 0 <= i < n && tabs[i].session_id == session && forall|k: int|
                0 <= k < i ==> (#[trigger] tabs[k]).session_id != session,
            None => forall|k: int| 0 <= k < n ==> (#[trigger] tabs[k]).session_id != session,
        },
    decreases n,
{
    if n > 0 {
        lemma_session_place(tabs, session, n - 1);
    }
}

/// Leaving tabs out keeps the others in order.
pub proof fn lemma_filtered(tabs: Seq<TabView>, keep: spec_fn(TabView) -> bool)
    ensures
        tabs.filter(keep).len() <= tabs.len(),
        forall|i: int|
            0 <= i < tabs.filter(keep).len() ==> keep(#[trigger] tabs.filter(keep)[i])
                && tabs.contains(tabs.filter(keep)[i]),
        (forall|i: int, j: int|
            0 <= i < j < tabs.len() ==> (#[trigger] tabs[i]).id < (#[trigger] tabs[j]).id) ==> (
        forall|i: int, j: int|
            0 <= i < j < tabs.filter(keep).len() ==> (#[trigger] tabs.filter(keep)[i]).id < (
            #[trigger] tabs.filter(keep)[j]).id),
    decreases tabs.len(),
{
    reveal(Seq::filter);
    if tabs.len() > 0 {
        let front = tabs.drop_last();
        lemma_filtered(front, keep);
        let rest = front.filter(keep);
        let all = tabs.filter(keep);
        assert forall|i: int| 0 <= i < all.len() implies keep(#[trigger] all[i]) && tabs.contains(
            all[i],
        ) by {
            if i < rest.len() {
                assert(all[i] == rest[i]);
                assert(front.contains(rest[i]));
                let k = choose|k: int| 0 <= k < front.len() && front[k] == rest[i];
                assert(tabs[k] == all[i]);
            } else {
                assert(tabs[tabs.len() - 1] == all[i]);
            }
        }
        if forall|i: int, j: int|
            0 <= i < j < tabs.len() ==> (#[trigger] tabs[i]).id < (#[trigger] tabs[j]).id {
            assert(forall|i: int, j: int|
                0 <= i < j < front.len() ==> (#[trigger] front[i]).id < (#[trigger] front[j]).id)
                by {
                assert forall|i: int, j: int| 0 <= i < j < front.len() implies (
                #[trigger] front[i]).id < (#[trigger] front[j]).id by {
                    assert(front[i] == tabs[i] && front[j] == tabs[j]);
                }
            }
            assert forall|i: int, j: int| 0 <= i < j < all.len() implies (#[trigger] all[i]).id < (
            #[trigger] all[j]).id by {
                assert(all[i] == rest[i]);
                if j < rest.len() {
                    assert(all[j] == rest[j]);
                } else {
                    assert(front.contains(rest[i]));
                    let k = choose|k: int| 0 <= k < front.len() && front[k] == rest[i];
                    assert(tabs[k].id < tabs[tabs.len() - 1].id);
                }
            }
        }
    }
}

/// One event.
fn only(e: Event) -> (r: Vec<Event>)
    ensures
        events_of(r@) == seq![e@],
{
    let mut events: Vec<Event> = Vec::new();
    events.push(e);
    assert(events_of(events@) =~= seq![e@]);
    events
}

/// No event.
fn none() -> (r: Vec<Event>)
    ensures
        events_of(r@) == Seq::<EventView>::empty(),
{
    let events: Vec<Event> = Vec::new();
    assert(events_of(events@) =~= Seq::<EventView>::empty());
    events
}

/// One more event.
fn push(events: &mut Vec<Event>, e: Event)
    ensures
        events_of(final(events)@) == events_of(old(events)@).push(e@),
{
    let ghost before = events_of(events@);
    events.push(e);
    assert(events_of(events@) =~= before.push(e@));
}

/// More events.
fn append(events: &mut Vec<Event>, more: Vec<Event>)
    ensures
        events_of(final(events)@) == events_of(old(events)@) + events_of(more@),
{
    let ghost a = events@;
    let ghost b = more@;
    let mut more = more;
    events.append(&mut more);
    assert(events@ =~= a + b);
    assert(events_of(events@) =~= events_of(a) + events_of(b));
}

impl State {
    /// Whether the numbers of the tabs go up, and none was given out twice.
    pub open spec fn wf(&self) -> bool {
        ordered(self@)
    }

    /// No tabs.
    pub fn new() -> (r: State)
        ensures
            r@ == (BarView { tabs: Seq::empty(), active: None, next: 1, show_list: false }),
            r.wf(),
    {
        let r = State {
            tabs: Vec::new(),
            active_tab: None,
            next_tab_id: 1,
            show_tab_list: false,
        };
        assert(r@.tabs =~= Seq::<TabView>::empty());
        r
    }

    /// The tabs.
    pub fn list(&self) -> (r: &Vec<TerminalTab>)
        ensures
            views(r@) == self@.tabs,
    {
        &self.tabs
    }

    /// The tab that is shown.
    pub fn active(&self) -> (r: Option<u64>)
        ensures
            r == self@.active,
    {
        self.active_tab
    }

    /// Whether there is a number left for another tab.
    pub fn has_number(&self) -> (r: bool)
        ensures
            r == (self@.next < u64::MAX),
    {
        self.next_tab_id < u64::MAX
    }

    /// Whether the list of tabs is unfolded.
    pub fn show_list(&self) -> (r: bool)
        ensures
            r == self@.show_list,
    {
        self.show_tab_list
    }

    /// A tab is shown.
    pub fn set_active(&mut self, id: u64)
        ensures
            final(self)@ == (BarView { active: Some(id), ..old(self)@ }),
    {
        self.active_tab = Some(id);
    }

    /// A tab for a session is opened and shown, and its number is told.
    pub fn add(&mut self, session_id: String, title: String) -> (r: u64)
        requires
            old(self).wf(),
            old(self)@.next < u64::MAX,
        ensures
            r == old(self)@.next,
            final(self)@ == added(old(self)@, session_id@, title@),
            final(self).wf(),
    {
        let tab_id: u64 = self.next_tab_id;
        self.next_tab_id = tab_id + 1;
        let ghost before = self@.tabs;
        let t = TerminalTab {
            id: tab_id,
            session_id,
            status: ConnectionStatus::Connecting,
            error: None,
            conn: None,
            terminal: false,
            bridge: None,
            title,
        };
        let ghost view = t@;
        self.tabs.push(t);
        self.active_tab = Some(tab_id);
        assert(self@.tabs =~= before.push(view));
        tab_id
    }

    /// The numbers of the tabs of a session.
    pub fn of_session(&self, id: &str) -> (r: Vec<u64>)
        ensures
            r@ == session_ids(self@.tabs, id@),
    {
        let ghost all = self@.tabs;
        let mut ids: Vec<u64> = Vec::new();
        let mut i: usize = 0;
        assert(ids@ =~= session_ids(all.take(0), id@));
        while i < self.tabs.len()
            invariant
                i <= self.tabs@.len(),
                all == self@.tabs,
                ids@ == session_ids(all.take(i as int), id@),
            decreases self.tabs@.len() - i,
        {
            proof {
                assert(all[i as int] == self.tabs@[i as int]@);
                assert(all.take(i + 1).drop_last() =~= all.take(i as int));
                assert(all.take(i + 1).last() == all[i as int]);
            }
            if text::same(self.tabs[i].session_id.as_str(), id) {
                ids.push(self.tabs[i].id);
            }
            i += 1;
        }
        assert(all.take(i as int) =~= all);
        ids
    }

    /// The tabs of a session are closed; the last tab is shown where the one that was is gone.
    pub fn remove_by_session(&mut self, id: &str)
        requires
            old(self).wf(),
        ensures
            final(self)@ == session_removed(old(self)@, id@),
            final(self).wf(),
    {
        let ghost all = self@.tabs;
        let ghost keep = |t: TabView| t.session_id != id@;
        let mut kept: Vec<TerminalTab> = Vec::new();
        let mut rest: Vec<TerminalTab> = Vec::new();
        std::mem::swap(&mut rest, &mut self.tabs);
        let ghost source = rest@;
        assert(views(source) == all);
        let mut i: usize = 0;
        let total: usize = rest.len();
        assert(all.take(0).filter(keep) =~= Seq::<TabView>::empty()) by {
            reveal(Seq::filter);
        }
        assert(views(kept@) =~= all.take(0).filter(keep));
        assert(source.skip(0) =~= source);
        while i < total
            invariant
                i <= total == source.len(),
                views(source) == all,
                keep == (|t: TabView| t.session_id != id@),
                rest@ == source.skip(i as int),
                views(kept@) == all.take(i as int).filter(keep),
            decreases total - i,
        {
            let t = rest.remove(0);
            proof {
                assert(t == source[i as int]);
                assert(t@ == all[i as int]);
                assert(rest@ =~= source.skip(i + 1));
                assert(all.take(i + 1).drop_last() =~= all.take(i as int));
                assert(all.take(i + 1).last() == t@);
                reveal(Seq::filter);
            }
            let ghost before = views(kept@);
            if !text::same(t.session_id.as_str(), id) {
                kept.push(t);
                assert(views(kept@) =~= before.push(t@));
            }
            i += 1;
        }
        assert(all.take(i as int) =~= all);
        self.tabs = kept;
        proof {
            lemma_filtered(all, keep);
            assert(views(self.tabs@) == without_session(all, id@));
        }
        let gone = match self.active_tab {
            Some(active) => self.find(active).is_none(),
            None => true,
        };
        if gone {
            self.active_tab = self.last();
        }
    }

    /// The number of the last tab.
    fn last(&self) -> (r: Option<u64>)
        ensures
            r == last_id(self@.tabs),
    {
        let n: usize = self.tabs.len();
        if n == 0 {
            None
        } else {
            assert(self@.tabs.last() == self.tabs@[n - 1]@);
            Some(self.tabs[n - 1].id)
        }
    }

    /// The place of a tab.
    fn find(&self, id: u64) -> (r: Option<usize>)
        ensures
            found(self@.tabs, id) == (match r {
                Some(i) => Some(i as int),
                None => None,
            }),
            r matches Some(i) ==> i < self.tabs@.len(),
    {
        let ghost all = self@.tabs;
        let mut i: usize = 0;
        while i < self.tabs.len()
            invariant
                i <= self.tabs@.len(),
                all == views(self.tabs@),
                forall|k: int| 0 <= k < i ==> (#[trigger] all[k]).id != id,
            decreases self.tabs@.len() - i,
        {
            assert(all[i as int] == self.tabs@[i as int]@);
            if self.tabs[i].id == id {
                proof {
                    lemma_found(all, id);
                }
                return Some(i);
            }
            i += 1;
        }
        proof {
            lemma_found(all, id);
        }
        None
    }

    /// The session of a tab.
    fn session(&self, id: Option<u64>) -> (r: Option<String>)
        ensures
            text::opt(r) == session_of(self@.tabs, id),
    {
        match id {
            Some(id) => match self.find(id) {
                Some(i) => {
                    assert(self@.tabs[i as int] == self.tabs@[i as int]@);
                    Some(self.tabs[i].session_id.clone())
                },
                None => None,
            },
            None => None,
        }
    }

    /// The connection of a tab is kept.
    pub fn attach(&mut self, id: u64, conn: u64)
        requires
            old(self).wf(),
        ensures
            final(self)@ == attached(old(self)@, id, conn),
            final(self).wf(),
    {
        let ghost before = self@;
        if let Some(i) = self.find(id) {
            proof {
                lemma_found(before.tabs, id);
            }
            let t = &mut self.tabs[i];
            t.conn = Some(conn);
            assert(self@.tabs =~= before.tabs.update(
                i as int,
                TabView { conn: Some(conn), ..before.tabs[i as int] },
            ));
        }
    }

    /// The connection of a tab.
    pub fn conn(&self, id: u64) -> (r: Option<u64>)
        ensures
            r == (match found(self@.tabs, id) {
                Some(i) => self@.tabs[i].conn,
                None => None,
            }),
    {
        match self.find(id) {
            Some(i) => {
                assert(self@.tabs[i as int] == self.tabs@[i as int]@);
                self.tabs[i].conn
            },
            None => None,
        }
    }

    /// The session of a tab that is connected.
    pub fn connected_session(&self, id: u64) -> (r: Option<String>)
        ensures
            text::opt(r) == (match found(self@.tabs, id) {
                Some(i) => if self@.tabs[i].status == ConnectionStatus::Connected {
                    Some(self@.tabs[i].session_id)
                } else {
                    None
                },
                None => None,
            }),
    {
        match self.find(id) {
            Some(i) => {
                assert(self@.tabs[i as int] == self.tabs@[i as int]@);
                if self.tabs[i].status == ConnectionStatus::Connected {
                    Some(self.tabs[i].session_id.clone())
                } else {
                    None
                }
            },
            None => None,
        }
    }

    /// How a session stands, over all its tabs.
    pub fn session_status(&self, id: &str) -> (r: ConnectionStatus)
        ensures
            r == status_of(self@.tabs, id@),
    {
        let ghost all = self@.tabs;
        let mut connecting = false;
        let mut failed = false;
        let mut i: usize = 0;
        while i < self.tabs.len()
            invariant
                i <= self.tabs@.len(),
                all == views(self.tabs@),
                forall|k: int|
                    0 <= k < i && (#[trigger] all[k]).session_id == id@ ==> all[k].status
                        != ConnectionStatus::Connected,
                connecting == exists|k: int|
                    0 <= k < i && (#[trigger] all[k]).session_id == id@ && all[k].status
                        == ConnectionStatus::Connecting,
                failed == exists|k: int|
                    0 <= k < i && (#[trigger] all[k]).session_id == id@ && all[k].status
                        == ConnectionStatus::Error,
            decreases self.tabs@.len() - i,
        {
            assert(all[i as int] == self.tabs@[i as int]@);
            if text::same(self.tabs[i].session_id.as_str(), id) {
                match self.tabs[i].status {
                    ConnectionStatus::Connected => {
                        return ConnectionStatus::Connected;
                    },
                    ConnectionStatus::Connecting => {
                        connecting = true;
                    },
                    ConnectionStatus::Error => {
                        failed = true;
                    },
                    ConnectionStatus::Disconnected => {},
                }
            }
            i += 1;
        }
        if connecting {
            ConnectionStatus::Connecting
        } else if failed {
            ConnectionStatus::Error
        } else {
            ConnectionStatus::Disconnected
        }
    }

    /// The tab in which the files of a session are shown.
    pub fn tab_for_files(&self, id: &str) -> (r: Option<u64>)
        ensures
            r == files_tab(self@, id@),
    {
        if let Some(session) = self.session(self.active_tab) {
            if text::same(session.as_str(), id) {
                return self.active_tab;
            }
        }
        let ghost all = self@.tabs;
        let mut i: usize = 0;
        while i < self.tabs.len()
            invariant
                i <= self.tabs@.len(),
                all == views(self.tabs@),
                all == self@.tabs,
                session_of(self@.tabs, self@.active) != Some(id@),
                forall|k: int| 0 <= k < i ==> (#[trigger] all[k]).session_id != id@,
            decreases self.tabs@.len() - i,
        {
            assert(all[i as int] == self.tabs@[i as int]@);
            if text::same(self.tabs[i].session_id.as_str(), id) {
                proof {
                    lemma_session_place(all, id@, all.len() as int);
                }
                return Some(self.tabs[i].id);
            }
            i += 1;
        }
        proof {
            lemma_session_place(all, id@, all.len() as int);
        }
        None
    }

    /// A tab is taken out.
    fn retain_others(&mut self, id: u64)
        requires
            old(self).wf(),
        ensures
            final(self)@ == (BarView { tabs: without(old(self)@.tabs, id), ..old(self)@ }),
            final(self).wf(),
    {
        let ghost all = self@.tabs;
        let ghost keep = |t: TabView| t.id != id;
        let mut kept: Vec<TerminalTab> = Vec::new();
        let mut rest: Vec<TerminalTab> = Vec::new();
        std::mem::swap(&mut rest, &mut self.tabs);
        let ghost source = rest@;
        assert(views(source) == all);
        let mut i: usize = 0;
        let total: usize = rest.len();
        assert(all.take(0).filter(keep) =~= Seq::<TabView>::empty()) by {
            reveal(Seq::filter);
        }
        assert(views(kept@) =~= all.take(0).filter(keep));
        assert(source.skip(0) =~= source);
        while i < total
            invariant
                i <= total == source.len(),
                views(source) == all,
                keep == (|t: TabView| t.id != id),
                rest@ == source.skip(i as int),
                views(kept@) == all.take(i as int).filter(keep),
            decreases total - i,
        {
            let t = rest.remove(0);
            proof {
                assert(t == source[i as int]);
                assert(t@ == all[i as int]);
                assert(rest@ =~= source.skip(i + 1));
                assert(all.take(i + 1).drop_last() =~= all.take(i as int));
                assert(all.take(i + 1).last() == t@);
                reveal(Seq::filter);
            }
            let ghost before = views(kept@);
            if t.id != id {
                kept.push(t);
                assert(views(kept@) =~= before.push(t@));
            }
            i += 1;
        }
        assert(all.take(i as int) =~= all);
        self.tabs = kept;
        proof {
            lemma_filtered(all, keep);
            assert(views(self.tabs@) == without(all, id));
        }
    }

    /// A tab is dropped; the last one is shown where it was shown. What is then chosen is told.
    fn drop_tab(&mut self, id: u64, ctx: &Ctx) -> (r: Vec<Event>)
        requires
            old(self).wf(),
        ensures
            final(self)@ == dropped(old(self)@, id),
            final(self).wf(),
            events_of(r@) == after_drop(old(self)@, id, ctx@),
    {
        let closed_session = self.session(Some(id));
        self.retain_others(id);
        if self.active_tab == Some(id) {
            self.active_tab = self.last();
        }
        if self.tabs.len() == 0 {
            assert(self@.tabs.len() == 0);
            let mut events = only(Event::SetCenter(CenterView::Sessions));
            push(&mut events, Event::SetActiveSession(None));
            assert(events_of(events@) =~= seq![
                EventView::SetCenter(CenterView::Sessions),
                EventView::SetActiveSession(None),
            ]);
            events
        } else {
            assert(self@.tabs.len() > 0);
            let same = match (&ctx.active_session, &closed_session) {
                (Some(a), Some(b)) => text::same(a.as_str(), b.as_str()),
                (None, None) => true,
                _ => false,
            };
            if same {
                only(Event::SetActiveSession(self.session(self.active_tab)))
            } else {
                none()
            }
        }
    }

    /// What is to be done when a tab is chosen.
    fn select(&self, id: u64, ctx: &Ctx, opened: &IdSet) -> (r: Vec<Event>)
        requires
            opened.wf(),
        ensures
            events_of(r@) == selected(self@, id, ctx@, opened@),
    {
        let mut events = only(Event::SetTerminalFocused(true));
        if let Some(i) = self.find(id) {
            assert(self@.tabs[i as int] == self.tabs@[i as int]@);
            let session = self.tabs[i].session_id.clone();
            push(&mut events, Event::SetActiveSession(Some(session.clone())));
            assert(events_of(events@) =~= seq![
                EventView::SetTerminalFocused(true),
                EventView::SetActiveSession(Some(session@)),
            ]);
            if ctx.center == CenterView::Files && !opened.contains(id) && self.tabs[i].status
                == ConnectionStatus::Connected {
                push(&mut events, Event::OpenSftp(session));
            }
        }
        events
    }

    /// What moves the bytes of all terminals is to stop.
    fn window_closing(&self) -> (r: Vec<Event>)
        ensures
            events_of(r@) == all_stopped(self@.tabs),
    {
        let ghost all = self@.tabs;
        let mut events = none();
        let mut i: usize = 0;
        assert(all.take(0) =~= Seq::<TabView>::empty());
        while i < self.tabs.len()
            invariant
                i <= self.tabs@.len(),
                all == views(self.tabs@),
                events_of(events@) == all_stopped(all.take(i as int)),
            decreases self.tabs@.len() - i,
        {
            proof {
                assert(all[i as int] == self.tabs@[i as int]@);
                assert(all.take(i + 1).drop_last() =~= all.take(i as int));
                assert(all.take(i + 1).last() == all[i as int]);
            }
            if let Some(bridge) = self.tabs[i].bridge {
                push(&mut events, Event::Disconnect(bridge));
            }
            i += 1;
        }
        assert(all.take(i as int) =~= all);
        events
    }

    /// The connection of a tab to a session is open, or not.
    fn session_connected(&mut self, id: u64, session: String, result: Result<u64, Text>) -> (r: Vec<
        Event,
    >)
        requires
            old(self).wf(),
        ensures
            (final(self)@, events_of(r@)) == connected(old(self)@, id, session@, result),
            final(self).wf(),
    {
        let ghost before = self@;
        let i: usize = match self.find(id) {
            Some(i) => i,
            None => {
                return match result {
                    Ok(_) => only(Event::SetStatus(Text::entry_with("app.tab_closed", session))),
                    Err(t) => only(Event::SetStatus(t)),
                };
            },
        };
        proof {
            lemma_found(before.tabs, id);
        }
        match result {
            Ok(conn) => {
                let t = &mut self.tabs[i];
                t.error = None;
                assert(self@.tabs =~= before.tabs.update(
                    i as int,
                    TabView { error: None, ..before.tabs[i as int] },
                ));
                let mut events = only(Event::SetActiveSession(Some(session.clone())));
                push(
                    &mut events,
                    Event::SetStatus(Text::entry_with("app.conn_established", session)),
                );
                push(&mut events, Event::OpenTerminalBridge(id, conn));
                assert(events_of(events@) =~= seq![
                    EventView::SetActiveSession(Some(session@)),
                    status_with("app.conn_established"@, session@),
                    EventView::OpenTerminalBridge(id, conn),
                ]);
                events
            },
            Err(t) => {
                let words = t.copied();
                let tab = &mut self.tabs[i];
                tab.status = ConnectionStatus::Error;
                tab.error = Some(words);
                assert(self@.tabs =~= before.tabs.update(
                    i as int,
                    TabView {
                        status: ConnectionStatus::Error,
                        error: Some(t@),
                        ..before.tabs[i as int]
                    },
                ));
                only(Event::SetStatus(t))
            },
        }
    }

    /// The terminal of a tab is there, or not.
    fn terminal_mounted(&mut self, id: u64, result: Result<u64, String>) -> (r: Vec<Event>)
        requires
            old(self).wf(),
        ensures
            (final(self)@, events_of(r@)) == mounted(old(self)@, id, result),
            final(self).wf(),
    {
        let ghost before = self@;
        match result {
            Ok(bridge) => {
                if let Some(i) = self.find(id) {
                    proof {
                        lemma_found(before.tabs, id);
                    }
                    let t = &mut self.tabs[i];
                    t.terminal = true;
                    t.bridge = Some(bridge);
                    t.status = ConnectionStatus::Connected;
                    t.error = None;
                    assert(self@.tabs =~= before.tabs.update(
                        i as int,
                        TabView {
                            terminal: true,
                            bridge: Some(bridge),
                            status: ConnectionStatus::Connected,
                            error: None,
                            ..before.tabs[i as int]
                        },
                    ));
                }
                let mut events = only(Event::SetStatus(Text::entry("app.terminal_ready")));
                push(&mut events, Event::SetTerminalFocused(true));
                assert(events_of(events@) =~= seq![
                    EventView::SetStatus(i18n::plain(i18n::entry("app.terminal_ready"@))),
                    EventView::SetTerminalFocused(true),
                ]);
                events
            },
            Err(words) => {
                self.retain_others(id);
                let ghost spoken = words@;
                let mut events = only(
                    Event::SetStatus(Text::entry_with("app.terminal_create_failed", words)),
                );
                push(&mut events, Event::CloseTransfers(id));
                assert(events_of(events@) =~= seq![
                    status_with("app.terminal_create_failed"@, spoken),
                    EventView::CloseTransfers(id),
                ]);
                events
            },
        }
    }

    /// The tabs change, and what is to be done is told. `opened` are the tabs whose files are
    /// open.
    pub fn update(&mut self, msg: Message, ctx: &Ctx, opened: &IdSet) -> (r: Vec<Event>)
        requires
            old(self).wf(),
            opened.wf(),
        ensures
            (final(self)@, events_of(r@)) == step(old(self)@, msg, ctx@, opened@),
            final(self).wf(),
    {
        match msg {
            Message::SelectTab(id) => {
                let events = self.select(id, ctx, opened);
                self.active_tab = Some(id);
                events
            },
            Message::SwitchTab(id) => {
                let mut events = self.select(id, ctx, opened);
                self.active_tab = Some(id);
                self.show_tab_list = false;
                push(&mut events, Event::ScrollTo(id));
                events
            },
            Message::CloseTab(id) => {
                let mut events = only(Event::RemoveHostKeyForTab(id));
                push(&mut events, Event::CloseTransfers(id));
                let ghost before = self@;
                let mut bridge: Option<u64> = None;
                if let Some(i) = self.find(id) {
                    assert(self@.tabs[i as int] == self.tabs@[i as int]@);
                    bridge = self.tabs[i].bridge;
                }
                if let Some(b) = bridge {
                    push(&mut events, Event::Disconnect(b));
                }
                assert(events_of(events@) =~= seq![
                    EventView::RemoveHostKeyForTab(id),
                    EventView::CloseTransfers(id),
                ] + stopped(before.tabs, id));
                let rest = self.drop_tab(id, ctx);
                append(&mut events, rest);
                events
            },
            Message::WindowClosing => self.window_closing(),
            Message::ToggleTabList => {
                self.show_tab_list = !self.show_tab_list;
                none()
            },
            Message::TerminalOpened(id, Ok(bridge)) => only(Event::SpawnTerminal(id, bridge)),
            Message::TerminalOpened(id, Err(t)) => {
                let ghost words = t@;
                let mut events = only(Event::SetStatus(t));
                push(&mut events, Event::CloseTransfers(id));
                assert(events_of(events@) =~= seq![
                    EventView::SetStatus(words),
                    EventView::CloseTransfers(id),
                ]);
                let rest = self.drop_tab(id, ctx);
                append(&mut events, rest);
                events
            },
            Message::TerminalMounted(id, result) => self.terminal_mounted(id, result),
            Message::TerminalDisconnected(id) => {
                let ghost before = self@;
                match self.find(id) {
                    Some(i) => {
                        proof {
                            lemma_found(before.tabs, id);
                        }
                        let session = self.tabs[i].session_id.clone();
                        let t = &mut self.tabs[i];
                        t.status = ConnectionStatus::Error;
                        assert(self@.tabs =~= before.tabs.update(
                            i as int,
                            TabView {
                                status: ConnectionStatus::Error,
                                ..before.tabs[i as int]
                            },
                        ));
                        only(Event::SetStatus(Text::entry_with("app.disconnected", session)))
                    },
                    None => none(),
                }
            },
            Message::TerminalReady(id) => only(Event::TerminalReady(id)),
            Message::SessionConnected(id, session, result) => self.session_connected(
                id,
                session,
                result,
            ),
            Message::WindowFocused(true) => {
                let focus = match ctx.window_focus_saved {
                    Some(saved) => saved,
                    None => ctx.terminal_focused,
                };
                let mut events = only(Event::SetTerminalFocused(focus));
                push(&mut events, Event::SetWindowFocusSaved(None));
                assert(events_of(events@) =~= seq![
                    EventView::SetTerminalFocused(focus),
                    EventView::SetWindowFocusSaved(None),
                ]);
                events
            },
            Message::WindowFocused(false) => {
                let mut events = only(Event::SetWindowFocusSaved(Some(ctx.terminal_focused)));
                push(&mut events, Event::SetTerminalFocused(false));
                assert(events_of(events@) =~= seq![
                    EventView::SetWindowFocusSaved(Some(ctx.terminal_focused)),
                    EventView::SetTerminalFocused(false),
                ]);
                events
            },
        }
    }
}

} // verus!
