//! What holds of the program as a whole.

use crate::app::events;
use crate::app::routing::{self, Message};
use crate::app::{self, EnvView, RootView, TaskView};
use crate::config::app_config;
use crate::connect;
use crate::files;
use crate::hostkey;
use crate::masterpw;
use crate::model::ConnectionStatus;
use crate::session;
use crate::settings;
use crate::tabs::{self, CenterView, TabView};
use crate::transfer;
use crate::transfer::model;
use crate::window;
use vstd::prelude::*;

verus! {

/// A message to a part of the program changes nothing but that part.
pub proof fn law_parts_change_only_themselves(v: RootView, msg: Message, env: EnvView)
    ensures
        ({
            let after = routing::routed(v, msg, env).0;
            match msg {
                Message::Session(_) => after == (RootView { session: after.session, ..v }),
                Message::Tabs(_) => after == (RootView { tabs: after.tabs, ..v }),
                Message::HostKey(_) => after == (RootView { hostkey: after.hostkey, ..v }),
                Message::Files(_) => after == (RootView { files: after.files, ..v }),
                Message::Transfer(_) => after == (RootView { transfer: after.transfer, ..v }),
                Message::Settings(_) => after == (RootView { settings: after.settings, ..v }),
                Message::Updates(_) => after == (RootView { updates: after.updates, ..v }),
                Message::MasterPw(_) => after == (RootView { masterpw: after.masterpw, ..v }),
                Message::Window(_) => after == (RootView { window: after.window, ..v }),
                Message::Noop => after == v,
                _ => true,
            }
        }),
{
}

/// Giving up touches what is on top and nothing below it: while a question about a host's key
/// waits, only that is refused; else, while the settings are shown, only they are put away; else,
/// while a session is edited, only that is given up.
pub proof fn law_giving_up_touches_what_is_on_top(v: RootView, env: EnvView)
    ensures
        ({
            let (after, tasks) = routing::escaped(v, env);
            &&& v.hostkey.len() > 0 ==> after == (RootView { hostkey: v.hostkey.skip(1), ..v })
                && tasks == seq![TaskView::Answer(hostkey::told(v.hostkey[0], false))]
            &&& v.hostkey.len() == 0 && v.settings.show_settings ==> after == (RootView {
                settings: settings::ShownView { show_settings: false, ..v.settings },
                ..v
            }) && tasks.len() == 0
            &&& v.hostkey.len() == 0 && !v.settings.show_settings && v.session.editor is Some
                ==> after == (RootView { session: after.session, ..v }) && after.session.editor
                is None
        }),
{
}

/// Where nothing is under the pointer, asking for a menu selects nothing.
pub proof fn law_nothing_is_selected_where_nothing_is(v: RootView, env: EnvView)
    requires
        v.session.hovered is None,
        v.files.contains_key(app::active_or_zero(v)) ==> v.files[app::active_or_zero(
            v,
        )].hovered is None,
    ensures
        routing::right_pressed(v, env).0.session == v.session,
        routing::right_pressed(v, env).0.files =~= v.files,
{
}

/// The tab of a session is there before it is connected, and says so, whatever comes of the
/// connection; the tabs there were stay as they are.
pub proof fn law_a_tab_is_there_before_its_connection(v: RootView, id: Seq<char>)
    ensures
        ({
            let after = events::session_applied(v, session::EventView::Connect(id)).0;
            &&& after.tabs.tabs.len() == v.tabs.tabs.len() + 1
            &&& after.tabs.tabs.drop_last() =~= v.tabs.tabs
            &&& after.tabs.tabs.last().id == v.tabs.next
            &&& after.tabs.tabs.last().session_id == id
            &&& after.tabs.tabs.last().status == ConnectionStatus::Connecting
            &&& after.tabs.active == Some(v.tabs.next)
            &&& after.files.contains_key(v.tabs.next)
        }),
{
}

/// Without the vault no connection is opened, and the status bar says why.
pub proof fn law_nothing_is_connected_while_locked(v: RootView, tab_id: u64, id: Seq<char>)
    requires
        v.vault is None,
        session::found(v.session.sessions, id) is Some,
    ensures
        events::session_connected(v, tab_id, id) == (
            RootView { status: app::entry("app.vault_locked"@), ..v },
            Seq::<TaskView>::empty(),
        ),
{
}

/// A connection is opened with the secrets of its session, as the vault opens them, and with the
/// limit that is set.
pub proof fn law_connections_get_their_own_secrets(v: RootView, tab_id: u64, id: Seq<char>)
    ensures
        forall|i: int| #![trigger events::session_connected(v, tab_id, id).1[i]]
            0 <= i < events::session_connected(v, tab_id, id).1.len() ==> (
            events::session_connected(v, tab_id, id).1[i] matches TaskView::Connect {
                tab_id: t,
                config,
                secrets,
                timeout,
            } && t == tab_id && config.id == id && v.session.sessions.contains(config) && v.vault
                is Some && connect::secrets_of(config.auth, v.vault->0.dek) == Ok::<
                connect::SecretsView,
                crate::i18n::TextView,
            >(secrets) && timeout == v.config.connection.timeout),
{
    session::lemma_found(v.session.sessions, id);
}

/// Files are shown only in a tab of their session, and over a channel or a connection that this
/// tab has.
pub proof fn law_files_are_shown_over_their_own_connection(v: RootView, id: Seq<char>)
    ensures
        forall|i: int| #![trigger events::files_opened(v, id).1[i]]
            0 <= i < events::files_opened(v, id).1.len() ==> (events::files_opened(
                v,
                id,
            ).1[i] matches TaskView::OpenSession(tab, session, client, conn) && session == id
                && tabs::files_tab(v.tabs, id) == Some(tab) && client == events::client_of(v, tab)
                && conn == events::conn_of(v.tabs, tab) && (client is Some || conn is Some)),
{
}

/// Showing the files opens none where the tab shown has some already, or is not connected.
pub proof fn law_files_are_opened_once(v: RootView, tab: u64)
    requires
        v.tabs.active == Some(tab),
        v.files.contains_key(tab) && v.files[tab].session is Some || !(exists|i: int|
            0 <= i < v.tabs.tabs.len() && (#[trigger] v.tabs.tabs[i]).id == tab
                && v.tabs.tabs[i].status == ConnectionStatus::Connected),
    ensures
        routing::center_switched(v, CenterView::Files) == (
            RootView { center: CenterView::Files, ..v },
            Seq::<TaskView>::empty(),
        ),
{
    tabs::lemma_found(v.tabs.tabs, tab);
}

/// Once a session is deleted, none of its tabs is left, and those of others are.
pub proof fn law_a_deleted_session_has_no_tabs(v: RootView, id: Seq<char>, t: TabView)
    ensures
        events::session_applied(
            v,
            session::EventView::SessionDeleted(id),
        ).0.tabs.tabs.contains(t) <==> v.tabs.tabs.contains(t) && t.session_id != id,
{
    let keep = |t: TabView| t.session_id != id;
    let all = v.tabs.tabs;
    let kept = all.filter(keep);
    tabs::lemma_filtered(all, keep);
    if kept.contains(t) {
        let i = choose|i: int| 0 <= i < kept.len() && kept[i] == t;
        assert(keep(kept[i]) && all.contains(kept[i]));
    }
    if all.contains(t) && t.session_id != id {
        let i = choose|i: int| 0 <= i < all.len() && all[i] == t;
        all.lemma_filter_contains(keep, i);
    }
}

/// Whatever is chosen in the settings is written, and what is about the terminals reaches them at
/// once; only showing the directory of the logs writes nothing.
pub proof fn law_what_is_chosen_is_kept(v: RootView, e: settings::EventView)
    ensures
        events::settings_applied(v, e).0.config == settings::configured(v.config, e),
        events::settings_applied(v, e).1.contains(TaskView::SaveConfig) <==> !(e
            is OpenLogFolder),
        e matches settings::EventView::FontSize(size) ==> events::settings_applied(
            v,
            e,
        ).1.contains(TaskView::ChangeFont(v.config.terminal.font, size)),
        e matches settings::EventView::TerminalFont(name) ==> events::settings_applied(
            v,
            e,
        ).1.contains(TaskView::ChangeFont(name, v.config.terminal.font_size)),
{
    let tasks = events::settings_applied(v, e).1;
    assert(tasks.len() > 0 && (tasks[0] is SaveConfig <==> !(e is OpenLogFolder)));
    if tasks.len() > 1 {
        assert(tasks.contains(tasks[1]));
    }
    if !(e is OpenLogFolder) {
        assert(tasks.contains(tasks[0]));
    }
}

/// Where the key is no longer to be kept, the system is told to keep none; where it is, it is the
/// key of the vault there is.
pub proof fn law_the_kept_key_follows_the_wish(v: RootView, wish: bool)
    ensures
        ({
            let tasks = events::masterpw_applied(v, masterpw::EventView::SetRemember(wish)).1;
            &&& !wish ==> tasks =~= seq![TaskView::SaveConfig, TaskView::DeleteKey]
            &&& wish && v.vault is Some ==> tasks =~= seq![
                TaskView::SaveConfig,
                TaskView::StoreKey(v.vault->0.dek),
            ]
            &&& wish && v.vault is None ==> tasks =~= seq![TaskView::SaveConfig]
        }),
{
}

/// A size that is kept when the window closes is the one it opens in, where sizes are remembered
/// and it is one.
pub proof fn law_the_window_opens_in_the_size_it_had(
    v: RootView,
    id: u64,
    width: u32,
    height: u32,
)
    requires
        v.config.window.remember_size,
        app_config::is_size(width),
        app_config::is_size(height),
    ensures
        app_config::size_of(
            events::window_applied(v, window::Event::PersistAndClose(id, width, height)).0.config.window,
        ) == Some((width, height)),
{
}

/// A tab that is closed, and each tab of a session that is deleted, has its transfers ended, and
/// once they are, none of them is left, none of their slots is in use and none of their workers is
/// left to be stopped.
pub proof fn law_a_tab_that_is_gone_transfers_nothing(
    v: RootView,
    session: Seq<char>,
    ctx: tabs::CtxView,
    opened: Set<u64>,
    env: EnvView,
    tab: u64,
)
    requires
        model::well_formed(v.transfer),
        tabs::found(v.tabs.tabs, tab) is Some,
    ensures
        tabs::step(v.tabs, tabs::Message::CloseTab(tab), ctx, opened).1.contains(
            tabs::EventView::CloseTransfers(tab),
        ),
        events::tabs_applied(v, tabs::EventView::CloseTransfers(tab)) == (
            v,
            seq![TaskView::CloseTransfers(tab)],
        ),
        (exists|i: int|
            0 <= i < v.tabs.tabs.len() && (#[trigger] v.tabs.tabs[i]).session_id == session
                && v.tabs.tabs[i].id == tab) ==> events::session_applied(
            v,
            session::EventView::SessionDeleted(session),
        ).1.contains(TaskView::CloseTransfers(tab)),
        ({
            let ended = transfer::Message::TabClosed(tab);
            let after = events::transfer_stepped(v, ended, env).0.transfer;
            &&& forall|k: int|
                0 <= k < after.rows.len() ==> (#[trigger] after.rows[k]).tab_id != tab
            &&& forall|k: int|
                0 <= k < v.transfer.rows.len() && (#[trigger] v.transfer.rows[k]).tab_id == tab
                    ==> !after.running.contains(v.transfer.rows[k].id) && !after.handles.contains(
                    v.transfer.rows[k].id,
                )
        }),
{
    let closing = tabs::step(v.tabs, tabs::Message::CloseTab(tab), ctx, opened).1;
    assert(closing[1] == tabs::EventView::CloseTransfers(tab));
    let ids = tabs::session_ids(v.tabs.tabs, session);
    tabs::laws::lemma_session_ids(v.tabs.tabs, session, tab);
    if ids.contains(tab) {
        let k = choose|k: int| 0 <= k < ids.len() && ids[k] == tab;
        assert(events::closings(ids)[k] == TaskView::CloseTransfers(tab));
    }
    transfer::laws::law_a_closed_tab_leaves_nothing(
        v.transfer,
        tab,
        app::transfer_ctx_of(v, env),
    );
}

/// Closing a tab leaves no question of it waiting, and takes away no other.
pub proof fn law_a_closed_tab_asks_nothing(v: RootView, tab: u64, q: hostkey::Question)
    ensures
        events::tabs_applied(v, tabs::EventView::RemoveHostKeyForTab(tab)).0.hostkey.contains(q)
            <==> v.hostkey.contains(q) && q.tab_id != tab,
{
    lemma_others(v.hostkey, tab, q);
}

proof fn lemma_others(list: Seq<hostkey::Question>, tab: u64, q: hostkey::Question)
    ensures
        hostkey::others(list, tab).contains(q) <==> list.contains(q) && q.tab_id != tab,
    decreases list.len(),
{
    if list.len() > 0 {
        let init = list.drop_last();
        lemma_others(init, tab, q);
        let rest = hostkey::others(init, tab);
        assert(list =~= init.push(list.last()));
        lemma_push(init, list.last(), q);
        lemma_push(rest, list.last(), q);
    }
}

proof fn lemma_push(list: Seq<hostkey::Question>, last: hostkey::Question, q: hostkey::Question)
    ensures
        list.push(last).contains(q) <==> list.contains(q) || last == q,
{
    let all = list.push(last);
    if all.contains(q) {
        let i = choose|i: int| 0 <= i < all.len() && all[i] == q;
        if i < list.len() {
            assert(list[i] == q);
        }
    }
    if list.contains(q) {
        let i = choose|i: int| 0 <= i < list.len() && list[i] == q;
        assert(all[i] == q);
    }
    assert(all[list.len() as int] == last);
}

/// Opening a session whose secrets can be read connects it: with what the list holds of it, in a
/// tab of its own that bears its name, over no longer than the limit set, and nothing else is done.
pub proof fn law_a_session_is_connected(v: RootView, k: int, secrets: connect::SecretsView)
    requires
        0 <= k < v.session.sessions.len(),
        forall|j: int|
            0 <= j < k ==> (#[trigger] v.session.sessions[j]).id != v.session.sessions[k].id,
        v.vault is Some,
        connect::secrets_of(v.session.sessions[k].auth, v.vault->0.dek) == Ok::<
            connect::SecretsView,
            crate::i18n::TextView,
        >(secrets),
    ensures
        ({
            let s = v.session.sessions[k];
            let (after, tasks) = events::session_applied(v, session::EventView::Connect(s.id));
            &&& tasks == seq![
                TaskView::Connect {
                    tab_id: v.tabs.next,
                    config: s,
                    secrets,
                    timeout: v.config.connection.timeout,
                },
            ]
            &&& after.tabs.tabs.last().title == s.name
            &&& after.status == v.status
            &&& after.session == v.session
        }),
{
    session::lemma_found(v.session.sessions, v.session.sessions[k].id);
}

/// A session whose secrets cannot be read is not connected, and the reason is shown.
pub proof fn law_unreadable_secrets_are_told(v: RootView, k: int, why: crate::i18n::TextView)
    requires
        0 <= k < v.session.sessions.len(),
        forall|j: int|
            0 <= j < k ==> (#[trigger] v.session.sessions[j]).id != v.session.sessions[k].id,
        v.vault is Some,
        connect::secrets_of(v.session.sessions[k].auth, v.vault->0.dek) == Err::<
            connect::SecretsView,
            crate::i18n::TextView,
        >(why),
    ensures
        events::session_applied(v, session::EventView::Connect(v.session.sessions[k].id)).1.len()
            == 0,
        events::session_applied(
            v,
            session::EventView::Connect(v.session.sessions[k].id),
        ).0.status == Some(why),
{
    session::lemma_found(v.session.sessions, v.session.sessions[k].id);
}

/// Showing the files of a session turns to them, in a tab of the session, over the channel or the
/// connection that this tab has; without a tab nothing changes but what is told.
pub proof fn law_files_are_shown_where_the_session_is(v: RootView, id: Seq<char>, k: int)
    requires
        tabs::ordered(v.tabs),
        0 <= k < v.tabs.tabs.len(),
        v.tabs.active == Some(v.tabs.tabs[k].id),
        v.tabs.tabs[k].session_id == id,
    ensures
        ({
            let t = v.tabs.tabs[k];
            let (after, tasks) = events::session_applied(v, session::EventView::OpenFiles(id));
            let client = if v.files.contains_key(t.id) {
                v.files[t.id].client
            } else {
                None
            };
            &&& after.center == CenterView::Files
            &&& after.active_session == Some(id)
            &&& after.tabs == v.tabs
            &&& client is Some || t.conn is Some ==> tasks == seq![
                TaskView::OpenSession(t.id, id, client, t.conn),
            ] && after.status == v.status
            &&& client is None && t.conn is None ==> tasks.len() == 0 && after.status is Some
        }),
{
    tabs::lemma_found(v.tabs.tabs, v.tabs.tabs[k].id);
}

/// Without a tab of the session no files are shown.
pub proof fn law_without_a_tab_no_files_are_shown(v: RootView, id: Seq<char>)
    requires
        forall|j: int|
            0 <= j < v.tabs.tabs.len() ==> (#[trigger] v.tabs.tabs[j]).session_id != id,
    ensures
        ({
            let (after, tasks) = events::session_applied(v, session::EventView::OpenFiles(id));
            &&& tasks.len() == 0
            &&& after == (RootView { status: after.status, ..v })
            &&& after.status is Some
        }),
{
    if let Some(active) = v.tabs.active {
        tabs::lemma_found(v.tabs.tabs, active);
    }
    tabs::lemma_session_place(v.tabs.tabs, id, v.tabs.tabs.len() as int);
}

/// Transfers go over the channel of the tab that is shown, from and to the directory that it
/// shows, and keep to the limits that are set; those of other tabs keep their own channels.
pub proof fn law_transfers_belong_to_the_tab_shown(v: RootView, env: EnvView, k: int)
    requires
        tabs::ordered(v.tabs),
        0 <= k < v.tabs.tabs.len(),
        v.files.contains_key(v.tabs.tabs[k].id),
    ensures
        ({
            let id = v.tabs.tabs[k].id;
            let ctx = app::transfer_ctx_of(v, env);
            &&& v.tabs.active == Some(id) ==> ctx.tab_id == id && ctx.client == v.files[id].client
                && ctx.remote_dir == v.files[id].path
            &&& v.files[id].client is Some <==> ctx.clients.contains_key(id)
            &&& v.files[id].client matches Some(client) ==> ctx.clients[id] == client
            &&& ctx.max_concurrent == v.config.transfer.max_concurrent
            &&& ctx.retry_attempts == v.config.transfer.retry_attempts
            &&& ctx.now_ms == env.now_ms
        }),
{
    tabs::lemma_found(v.tabs.tabs, v.tabs.tabs[k].id);
}

/// A download that is asked for among the files is queued behind the others: for the file of that
/// name in the directory that the tab shows, to the place that was picked. Nothing but the queue
/// changes.
pub proof fn law_a_download_asked_for_is_queued(
    v: RootView,
    id: u64,
    name: String,
    local: crate::local_path::LocalPath,
    env: EnvView,
)
    requires
        model::well_formed(v.transfer),
        v.transfer.next_id < u64::MAX,
        v.tabs.active == Some(id),
        v.files.contains_key(id),
        v.files[id].client is Some,
        transfer::outcomes::load_of(v.transfer.rows, id) < transfer::MAX_QUEUE,
    ensures
        ({
            let asked = files::Event::StartDownload(name, local);
            let after = events::sftp_applied(v, asked, env).0;
            let n = v.transfer.rows.len() as int;
            let dir = v.files[id].path;
            &&& after == (RootView { transfer: after.transfer, ..v })
            &&& after.transfer.rows.len() == n + 1
            &&& after.transfer.rows[n].tab_id == id
            &&& after.transfer.rows[n].name == name@
            &&& after.transfer.rows[n].local == local@
            &&& after.transfer.rows[n].direction == transfer::TransferDirection::Download
            &&& crate::tasks::is_name(name@) && name@ != seq!['.', '.'] && dir.len() > 0 && dir
                != seq!['.'] && dir.last() != '/' ==> after.transfer.rows[n].remote == dir.push('/')
                + name@
        }),
{
    transfer::outcomes::law_a_download_fetches_what_was_picked(
        v.transfer,
        id,
        name,
        local,
        app::transfer_ctx_of(v, env),
    );
}

/// Uploads that are asked for among the files are queued for the tab shown; nothing but the queue
/// changes.
pub proof fn law_uploads_asked_for_are_queued(
    v: RootView,
    id: u64,
    items: Vec<crate::transfer::UploadItem>,
    env: EnvView,
)
    requires
        v.tabs.active == Some(id),
    ensures
        ({
            let asked = files::Event::StartUpload(items);
            let (after, tasks) = events::sftp_applied(v, asked, env);
            let (queue, list) = model::step(
                v.transfer,
                transfer::Message::Upload(id, items),
                app::transfer_ctx_of(v, env),
            );
            &&& after == (RootView { transfer: queue, ..v })
            &&& tasks == seq![TaskView::Transfer(list)]
        }),
{
}

/// Once an upload is done, the directory that its tab shows is read anew, over that tab's channel.
pub proof fn law_a_changed_directory_is_read_anew(v: RootView, id: u64, client: u64)
    requires
        v.files.contains_key(id),
        v.files[id].client == Some(client),
    ensures
        events::transfer_applied(v, model::EventView::RefreshDir(id)) == seq![
            TaskView::Files(seq![files::EventView::List(id, client, v.files[id].path)]),
        ],
{
}

/// A channel or a connection is noted where it belongs: what is told of the tabs reaches the part
/// of the program that it is about, and no other.
pub proof fn law_what_the_tabs_tell_is_noted(v: RootView, e: tabs::EventView)
    ensures
        ({
            let (after, tasks) = events::tabs_applied(v, e);
            match e {
                tabs::EventView::SetActiveSession(id) => after == (RootView {
                    active_session: id,
                    ..v
                }) && tasks.len() == 0,
                tabs::EventView::SetCenter(center) => after == (RootView { center, ..v })
                    && tasks.len() == 0,
                tabs::EventView::SetTerminalFocused(on) => after == (RootView {
                    terminal_focused: on,
                    ..v
                }) && tasks.len() == 0,
                tabs::EventView::SetWindowFocusSaved(kept) => after == (RootView {
                    window_focus_saved: kept,
                    ..v
                }) && tasks.len() == 0,
                tabs::EventView::SetStatus(told) => after == (RootView { status: Some(told), ..v })
                    && tasks.len() == 0,
                tabs::EventView::OpenTerminalBridge(_, _) => after == (RootView {
                    tabs: after.tabs,
                    ..v
                }) && tasks == seq![TaskView::TabsWork(e)],
                tabs::EventView::SpawnTerminal(_, _)
                | tabs::EventView::Disconnect(_)
                | tabs::EventView::ScrollTo(_)
                | tabs::EventView::TerminalReady(_) => after == v && tasks == seq![
                    TaskView::TabsWork(e),
                ],
                _ => true,
            }
        }),
{
}

/// A connection is noted in its tab before the terminal is opened over it.
pub proof fn law_a_terminal_has_its_connection(v: RootView, k: int, conn: u64)
    requires
        tabs::ordered(v.tabs),
        0 <= k < v.tabs.tabs.len(),
    ensures
        ({
            let id = v.tabs.tabs[k].id;
            let after = events::tabs_applied(v, tabs::EventView::OpenTerminalBridge(id, conn)).0;
            &&& after.tabs.tabs.len() == v.tabs.tabs.len()
            &&& after.tabs.tabs[k].conn == Some(conn)
            &&& after.tabs.tabs[k].status == v.tabs.tabs[k].status
            &&& forall|j: int|
                0 <= j < v.tabs.tabs.len() && j != k ==> #[trigger] after.tabs.tabs[j]
                    == v.tabs.tabs[j]
        }),
{
    tabs::lemma_found(v.tabs.tabs, v.tabs.tabs[k].id);
}

/// What comes of a master password takes effect in the whole program: the vault that was opened is
/// the one in use, and the sessions that were sealed anew are those in the list.
pub proof fn law_an_opened_vault_is_used(v: RootView, e: masterpw::EventView)
    ensures
        ({
            let (after, tasks) = events::masterpw_applied(v, e);
            match e {
                masterpw::EventView::SetVault(vault) => after == (RootView {
                    vault: Some(vault),
                    ..v
                }) && tasks.len() == 0,
                masterpw::EventView::SetSessions(sessions) => after.session.sessions == sessions
                    && after == (RootView {
                    session: session::ListView { sessions, ..v.session },
                    ..v
                }) && tasks.len() == 0,
                masterpw::EventView::SetRemember(wish) =>
                    after.config.security.remember_master_key == wish && tasks[0]
                    == TaskView::SaveConfig,
                masterpw::EventView::StoreKey(key) => after == v && tasks == seq![
                    TaskView::StoreKey(key),
                ],
                masterpw::EventView::Toast(kind, told) => after == v && tasks == seq![
                    TaskView::Toast(kind, told),
                ],
                _ => after == v && tasks == seq![TaskView::MasterPwWork(e)],
            }
        }),
{
}

/// When updates were last looked for is kept, and nothing else of the settings changes.
pub proof fn law_the_last_look_for_updates_is_kept(v: RootView, when: Option<i64>)
    ensures
        ({
            let (after, tasks) = events::updates_applied(
                v,
                crate::updates::EventView::SetLastCheck(when),
            );
            &&& after.config.updates.last_check_unix == when
            &&& after.config.updates.auto_check == v.config.updates.auto_check
            &&& after == (RootView {
                config: app_config::AppView { updates: after.config.updates, ..v.config },
                ..v
            })
            &&& tasks == seq![TaskView::SaveConfig]
        }),
{
}

/// Each part is told how the others stand.
pub proof fn law_each_part_sees_the_others(v: RootView, env: EnvView)
    ensures
        app::session_ctx_of(v, env).vault == v.vault,
        app::session_ctx_of(v, env).nanos == env.nanos,
        app::session_ctx_of(v, env).nonce == env.nonce,
        app::masterpw_ctx_of(v).has_vault <==> v.vault is Some,
        app::masterpw_ctx_of(v).has_store <==> v.session.store is Some,
        app::masterpw_ctx_of(v).remember == v.config.security.remember_master_key,
        app::tabs_ctx_of(v).center == v.center,
        app::tabs_ctx_of(v).active_session == v.active_session,
        app::tabs_ctx_of(v).terminal_focused == v.terminal_focused,
        app::tabs_ctx_of(v).window_focus_saved == v.window_focus_saved,
        app::updates_ctx_of(v, env).auto_check == v.config.updates.auto_check,
        app::updates_ctx_of(v, env).last_check_unix == v.config.updates.last_check_unix,
        app::updates_ctx_of(v, env).now_unix == env.now_unix,
        app::settings_ctx_of(v, env).ui_font == v.config.appearance.ui_font,
        app::settings_ctx_of(v, env).terminal_font == v.config.terminal.font,
        app::settings_ctx_of(v, env).fonts == env.fonts,
        app::settings_ctx_of(v, env).default_label == env.default_label,
{
}

/// The program starts with the sessions, the settings and the vault it is given, the list of
/// sessions shown, no tab, no transfer and nothing asked.
pub proof fn law_a_start_shows_the_sessions(
    store: Option<crate::config::store::SessionStore>,
    sessions: Seq<crate::config::session::SessionView>,
    config: app_config::AppView,
    vault: Option<crate::crypto::VaultView>,
    env: EnvView,
)
    ensures
        ({
            let v = app::begun(store, sessions, config, vault, env);
            &&& v.session.sessions == sessions
            &&& v.session.editor is None && v.session.selected is None && v.session.hovered is None
            &&& v.config == config
            &&& v.vault == vault
            &&& v.center == CenterView::Sessions
            &&& v.active_session is None
            &&& v.tabs.tabs.len() == 0 && v.tabs.active is None
            &&& v.files.dom() =~= Set::empty()
            &&& v.transfer.rows.len() == 0
            &&& v.hostkey.len() == 0
            &&& v.status is None
            &&& !v.settings.show_settings
            &&& v.updates is None
        }),
{
}

/// Asking for another part of the window shows it, and touches nothing else unless files are to
/// be opened.
pub proof fn law_the_part_asked_for_is_shown(v: RootView, center: CenterView, env: EnvView)
    ensures
        routing::routed(v, Message::SwitchCenter(center), env).0.center == center,
        center != CenterView::Files ==> routing::routed(v, Message::SwitchCenter(center), env) == (
            RootView { center, ..v },
            Seq::<TaskView>::empty(),
        ),
        routing::routed(v, Message::TerminalTouched, env) == (
            RootView { terminal_focused: true, ..v },
            Seq::<TaskView>::empty(),
        ),
{
}

/// Turning to the files opens those of the tab shown where it is connected and has none yet.
pub proof fn law_turning_to_the_files_opens_them(v: RootView, k: int, env: EnvView)
    requires
        tabs::ordered(v.tabs),
        0 <= k < v.tabs.tabs.len(),
        v.tabs.active == Some(v.tabs.tabs[k].id),
        v.tabs.tabs[k].status == ConnectionStatus::Connected,
        v.files.contains_key(v.tabs.tabs[k].id) ==> v.files[v.tabs.tabs[k].id].session is None,
        v.tabs.tabs[k].conn is Some,
    ensures
        ({
            let t = v.tabs.tabs[k];
            let tasks = routing::routed(v, Message::SwitchCenter(CenterView::Files), env).1;
            &&& tasks.len() == 1
            &&& tasks[0] matches TaskView::OpenSession(tab, id, _, conn) && tab == t.id && id
                == t.session_id && conn == t.conn
        }),
{
    tabs::lemma_found(v.tabs.tabs, v.tabs.tabs[k].id);
}

/// The size that a window is closed in is noted and written before it closes, and nothing else
/// changes.
pub proof fn law_the_size_is_written_before_the_window_closes(
    v: RootView,
    id: u64,
    width: u32,
    height: u32,
)
    ensures
        ({
            let (after, tasks) = events::window_applied(
                v,
                window::Event::PersistAndClose(id, width, height),
            );
            &&& after.config.window.width == Some(width)
            &&& after.config.window.height == Some(height)
            &&& after.config.window.remember_size == v.config.window.remember_size
            &&& after == (RootView {
                config: app_config::AppView { window: after.config.window, ..v.config },
                ..v
            })
            &&& tasks == seq![TaskView::SaveConfig, TaskView::WindowWork(window::Event::Close(id))]
        }),
        events::window_applied(v, window::Event::Close(id)) == (
            v,
            seq![TaskView::WindowWork(window::Event::Close(id))],
        ),
{
}

/// Where nothing lies over them, giving up puts away what is typed among the files of the tab
/// shown, and what is typed goes to the terminal again.
pub proof fn law_giving_up_reaches_the_files(v: RootView, id: u64, env: EnvView)
    requires
        v.hostkey.len() == 0,
        !v.settings.show_settings,
        v.session.editor is None,
        v.tabs.active == Some(id),
        v.files.contains_key(id),
    ensures
        ({
            let (after, tasks) = routing::routed(v, Message::Escape, env);
            &&& after == (RootView { files: after.files, ..v })
            &&& after.files.dom() =~= v.files.dom()
            &&& v.files[id].renaming is Some ==> after.files[id].renaming is None && tasks == seq![
                TaskView::Files(seq![files::EventView::FocusTerminal]),
            ]
            &&& v.files[id].renaming is None && v.files[id].creating_dir is Some
                ==> after.files[id].creating_dir is None && tasks == seq![
                TaskView::Files(seq![files::EventView::FocusTerminal]),
            ]
            &&& v.files[id].renaming is None && v.files[id].creating_dir is None
                ==> after.files[id].dialog is None
        }),
        events::sftp_applied(v, files::Event::FocusTerminal, env) == (
            RootView { terminal_focused: true, ..v },
            Seq::<TaskView>::empty(),
        ),
{
}

/// What is chosen takes effect at once: the terminals get their theme, and the words their
/// language, besides being written; the directory of the logs is shown, and that is all.
pub proof fn law_what_is_chosen_takes_effect(v: RootView, e: settings::EventView)
    ensures
        ({
            let (after, tasks) = events::settings_applied(v, e);
            &&& e matches settings::EventView::TerminalTheme(name) ==> tasks == seq![
                TaskView::SaveConfig,
                TaskView::ChangeTheme(name),
            ]
            &&& e matches settings::EventView::Language(language) ==> tasks == seq![
                TaskView::SaveConfig,
                TaskView::SetLocale(language),
            ]
            &&& e is OpenLogFolder ==> tasks == seq![TaskView::OpenLogFolder] && after == v
            &&& e is ConnectTimeout || e is Scrollback || e is Theme || e is UiFont || e is LogLevel
                || e is AutoCheckUpdates ==> tasks == seq![TaskView::SaveConfig]
            &&& after == (RootView { config: after.config, ..v })
        }),
{
}

/// Asking for a menu selects what is under the pointer, among the sessions and among the files of
/// the tab shown.
pub proof fn law_a_menu_is_for_what_is_under_the_pointer(v: RootView, id: u64, env: EnvView)
    requires
        v.tabs.active == Some(id),
        v.files.contains_key(id),
    ensures
        ({
            let after = routing::routed(v, Message::RightPress, env).0;
            &&& v.session.hovered is Some ==> after.session.selected == v.session.hovered
            &&& v.session.hovered is None ==> after.session.selected == v.session.selected
            &&& v.files[id].hovered is Some ==> after.files[id].selected == v.files[id].hovered
            &&& v.files[id].hovered is None ==> after.files[id].selected == v.files[id].selected
            &&& after.session.sessions == v.session.sessions
            &&& after.tabs == v.tabs && after.transfer == v.transfer
        }),
{
}

/// Files that a tab asks for are opened as those that are asked for among the sessions, and what
/// the sessions tell is told.
pub proof fn law_what_the_sessions_tell_is_told(v: RootView, id: Seq<char>, e: session::EventView)
    ensures
        events::tabs_applied(v, tabs::EventView::OpenSftp(id)) == events::session_applied(
            v,
            session::EventView::OpenFiles(id),
        ),
        e matches session::EventView::Status(told) ==> events::session_applied(v, e) == (
            RootView { status: told, ..v },
            Seq::<TaskView>::empty(),
        ),
        e matches session::EventView::Toast(kind, told) ==> events::session_applied(v, e) == (
            v,
            seq![TaskView::Toast(kind, told)],
        ),
        e is Write || e is Load || e is Export || e is Import || e is PickKeyFile
            || e is PickExportFile || e is PickImportFile ==> events::session_applied(v, e) == (
            v,
            seq![TaskView::SessionWork(e)],
        ),
{
}

} // verus!
