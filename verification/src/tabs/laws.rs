//! What holds of the tabs as a whole.

use crate::i18n::Text;
use crate::model::ConnectionStatus;
use crate::tabs::{self, BarView, CenterView, CtxView, EventView, Message, TabView};
use vstd::prelude::*;

verus! {

/// Whether the tab that is shown is one of the tabs, and one is shown where there is any.
pub open spec fn shown(b: BarView) -> bool {
    match b.active {
        Some(id) => tabs::found(b.tabs, id) is Some,
        None => b.tabs.len() == 0,
    }
}

proof fn lemma_last_is_found(list: Seq<TabView>)
    ensures
        match tabs::last_id(list) {
            Some(id) => tabs::found(list, id) is Some,
            None => list.len() == 0,
        },
{
    if list.len() > 0 {
        tabs::lemma_found(list, list.last().id);
        assert(list[list.len() - 1].id == list.last().id);
    }
}

proof fn lemma_kept_tabs_are_found(list: Seq<TabView>, keep: spec_fn(TabView) -> bool, i: int)
    requires
        0 <= i < list.len(),
        keep(list[i]),
    ensures
        list.filter(keep).contains(list[i]),
    decreases list.len(),
{
    reveal(Seq::filter);
    let front = list.drop_last();
    let rest = front.filter(keep);
    let all = list.filter(keep);
    if i < front.len() {
        assert(front[i] == list[i]);
        lemma_kept_tabs_are_found(front, keep, i);
        let k = choose|k: int| 0 <= k < rest.len() && rest[k] == list[i];
        assert(all[k] == list[i]);
    } else {
        assert(all[all.len() - 1] == list[i]);
    }
}

/// To close a tab, or all tabs of a session, or to open one leaves one of the tabs shown, where
/// there is any.
pub proof fn law_one_of_the_tabs_is_shown(b: BarView, id: u64, session: Seq<char>, title: Seq<char>)
    requires
        tabs::ordered(b),
        shown(b),
        b.next < u64::MAX,
    ensures
        shown(tabs::dropped(b, id)),
        shown(tabs::session_removed(b, session)),
        shown(tabs::added(b, session, title)),
{
    let keep = |t: TabView| t.id != id;
    let rest = tabs::without(b.tabs, id);
    lemma_last_is_found(rest);
    if b.active != Some(id) {
        match b.active {
            Some(active) => {
                tabs::lemma_found(b.tabs, active);
                let i = tabs::found(b.tabs, active)->0;
                lemma_kept_tabs_are_found(b.tabs, keep, i);
                let k = choose|k: int| 0 <= k < rest.len() && rest[k] == b.tabs[i];
                tabs::lemma_found(rest, active);
                assert(rest[k].id == active);
            },
            None => {
                tabs::lemma_filtered(b.tabs, keep);
            },
        }
    }
    lemma_last_is_found(tabs::without_session(b.tabs, session));
    let more = tabs::added(b, session, title);
    tabs::lemma_found(more.tabs, b.next);
    assert(more.tabs[b.tabs.len() as int].id == b.next);
}

/// A tab that was closed is gone, and all others stay, in their order; no number is given out a
/// second time.
pub proof fn law_closing_takes_out_one_tab(b: BarView, id: u64, session: Seq<char>, title: Seq<char>)
    requires
        tabs::ordered(b),
        b.next < u64::MAX,
    ensures
        tabs::found(tabs::dropped(b, id).tabs, id) is None,
        tabs::dropped(b, id).tabs == b.tabs.filter(|t: TabView| t.id != id),
        tabs::found(b.tabs, b.next) is None,
        tabs::added(b, session, title).next > b.next,
{
    let keep = |t: TabView| t.id != id;
    let rest = tabs::without(b.tabs, id);
    tabs::lemma_filtered(b.tabs, keep);
    tabs::lemma_found(rest, id);
    if let Some(i) = tabs::found(rest, id) {
        assert(keep(b.tabs.filter(keep)[i]));
    }
    tabs::lemma_found(b.tabs, b.next);
}

/// What becomes of one tab's connection does not touch any other tab, of the same session or not.
pub proof fn law_tabs_fail_by_themselves(
    b: BarView,
    id: u64,
    session: Seq<char>,
    result: Result<u64, Text>,
    k: int,
)
    requires
        0 <= k < b.tabs.len(),
        b.tabs[k].id != id,
    ensures
        tabs::connected(b, id, session, result).0.tabs[k] == b.tabs[k],
        tabs::connected(b, id, session, result).0.active == b.active,
{
    tabs::lemma_found(b.tabs, id);
}

/// A session counts as connected as long as one of its tabs is, whatever happens in the others.
pub proof fn law_one_connected_tab_is_enough(list: Seq<TabView>, session: Seq<char>, k: int)
    requires
        0 <= k < list.len(),
        list[k].session_id == session,
        list[k].status == ConnectionStatus::Connected,
    ensures
        tabs::status_of(list, session) == ConnectionStatus::Connected,
{
}

/// Closing the last tab brings the sessions back, with none of them chosen.
pub proof fn law_without_tabs_the_sessions_are_shown(
    b: BarView,
    id: u64,
    ctx: CtxView,
    opened: Set<u64>,
)
    requires
        tabs::dropped(b, id).tabs.len() == 0,
    ensures
        tabs::step(b, Message::CloseTab(id), ctx, opened).1.contains(
            EventView::SetCenter(CenterView::Sessions),
        ),
        tabs::step(b, Message::CloseTab(id), ctx, opened).1.contains(
            EventView::SetActiveSession(None),
        ),
{
    let events = tabs::step(b, Message::CloseTab(id), ctx, opened).1;
    let n = events.len();
    assert(events[n - 2] == EventView::SetCenter(CenterView::Sessions));
    assert(events[n - 1] == EventView::SetActiveSession(None));
}

/// A change of a tab that keeps its number takes no number away.
proof fn lemma_changed_is_found(b: BarView, i: int, t: TabView, id: u64)
    requires
        0 <= i < b.tabs.len(),
        t.id == b.tabs[i].id,
        tabs::found(b.tabs, id) is Some,
    ensures
        tabs::found(tabs::changed(b, i, t).tabs, id) is Some,
{
    let after = tabs::changed(b, i, t).tabs;
    tabs::lemma_found(b.tabs, id);
    tabs::lemma_found(after, id);
    let k = tabs::found(b.tabs, id)->0;
    assert(after[k].id == id);
}

proof fn lemma_only_one_is_dropped(list: Seq<TabView>, id: u64, other: u64)
    requires
        tabs::found(list, other) is Some,
        tabs::found(tabs::without(list, id), other) is None,
    ensures
        other == id,
{
    let rest = tabs::without(list, id);
    tabs::lemma_found(list, other);
    tabs::lemma_found(rest, other);
    let i = tabs::found(list, other)->0;
    if other != id {
        lemma_kept_tabs_are_found(list, |t: TabView| t.id != id, i);
        let k = choose|k: int| 0 <= k < rest.len() && rest[k] == list[i];
        assert(rest[k].id == other);
    }
}

/// A tab that goes, for whatever reason, has its transfers ended: those of no other tab are.
pub proof fn law_a_tab_that_goes_ends_its_transfers(
    b: BarView,
    msg: Message,
    ctx: CtxView,
    opened: Set<u64>,
    id: u64,
)
    requires
        tabs::found(b.tabs, id) is Some,
    ensures
        tabs::step(b, msg, ctx, opened).1.contains(EventView::CloseTransfers(id)) <==> tabs::found(
            tabs::step(b, msg, ctx, opened).0.tabs,
            id,
        ) is None,
{
    let (after, events) = tabs::step(b, msg, ctx, opened);
    let end = EventView::CloseTransfers(id);
    tabs::lemma_found(b.tabs, id);
    match msg {
        Message::CloseTab(gone) => {
            if tabs::found(after.tabs, id) is None {
                lemma_only_one_is_dropped(b.tabs, gone, id);
                assert(events[1] == end);
            } else if events.contains(end) {
                tabs::lemma_filtered(b.tabs, |t: TabView| t.id != gone);
                tabs::lemma_found(after.tabs, id);
                let k = choose|k: int| 0 <= k < events.len() && events[k] == end;
                assert(k == 1);
            }
        },
        Message::TerminalOpened(gone, Err(_)) => {
            if tabs::found(after.tabs, id) is None {
                lemma_only_one_is_dropped(b.tabs, gone, id);
                assert(events[1] == end);
            } else if events.contains(end) {
                tabs::lemma_filtered(b.tabs, |t: TabView| t.id != gone);
                tabs::lemma_found(after.tabs, id);
                let k = choose|k: int| 0 <= k < events.len() && events[k] == end;
                assert(k == 1);
            }
        },
        Message::TerminalMounted(gone, Err(_)) => {
            if tabs::found(after.tabs, id) is None {
                lemma_only_one_is_dropped(b.tabs, gone, id);
                assert(events[1] == end);
            } else if events.contains(end) {
                tabs::lemma_filtered(b.tabs, |t: TabView| t.id != gone);
                tabs::lemma_found(after.tabs, id);
                let k = choose|k: int| 0 <= k < events.len() && events[k] == end;
                assert(k == 1);
            }
        },
        Message::WindowClosing => {
            lemma_stopping_ends_nothing(b.tabs, id);
        },
        _ => {
            match msg {
                Message::TerminalMounted(changed, Ok(_)) => {
                    tabs::lemma_found(b.tabs, changed);
                    if let Some(i) = tabs::found(b.tabs, changed) {
                        lemma_changed_is_found(b, i, after.tabs[i], id);
                    }
                },
                Message::TerminalDisconnected(changed) => {
                    tabs::lemma_found(b.tabs, changed);
                    if let Some(i) = tabs::found(b.tabs, changed) {
                        lemma_changed_is_found(b, i, after.tabs[i], id);
                    }
                },
                Message::SessionConnected(changed, _, _) => {
                    tabs::lemma_found(b.tabs, changed);
                    if let Some(i) = tabs::found(b.tabs, changed) {
                        lemma_changed_is_found(b, i, after.tabs[i], id);
                    }
                },
                _ => {},
            }
            assert(tabs::found(after.tabs, id) is Some);
            if events.contains(end) {
                let k = choose|k: int| 0 <= k < events.len() && events[k] == end;
                assert(events[k] == end);
            }
        },
    }
}

proof fn lemma_stopping_ends_nothing(list: Seq<TabView>, id: u64)
    ensures
        !tabs::all_stopped(list).contains(EventView::CloseTransfers(id)),
    decreases list.len(),
{
    if list.len() > 0 {
        let front = list.drop_last();
        let before = tabs::all_stopped(front);
        let all = tabs::all_stopped(list);
        let end = EventView::CloseTransfers(id);
        lemma_stopping_ends_nothing(front, id);
        if all.contains(end) {
            let k = choose|k: int| 0 <= k < all.len() && all[k] == end;
            if k < before.len() {
                assert(before[k] == end);
            }
        }
    }
}

/// The numbers of a session's tabs are those of its tabs, and no others.
pub proof fn lemma_session_ids(list: Seq<TabView>, session: Seq<char>, id: u64)
    ensures
        tabs::session_ids(list, session).contains(id) <==> exists|i: int|
            0 <= i < list.len() && (#[trigger] list[i]).session_id == session && list[i].id == id,
    decreases list.len(),
{
    if list.len() > 0 {
        let front = list.drop_last();
        let before = tabs::session_ids(front, session);
        let all = tabs::session_ids(list, session);
        lemma_session_ids(front, session, id);
        if before.contains(id) {
            let k = choose|k: int| 0 <= k < before.len() && before[k] == id;
            assert(all[k] == id);
            let i = choose|i: int|
                0 <= i < front.len() && (#[trigger] front[i]).session_id == session && front[i].id
                    == id;
            assert(list[i] == front[i]);
        }
        if list.last().session_id == session && list.last().id == id {
            assert(all[before.len() as int] == id);
            assert(list[list.len() - 1].id == id);
        }
        if all.contains(id) && !before.contains(id) {
            let k = choose|k: int| 0 <= k < all.len() && all[k] == id;
            if k < before.len() {
                assert(before[k] == id);
            }
        }
        if exists|i: int|
            0 <= i < list.len() && (#[trigger] list[i]).session_id == session && list[i].id == id {
            let i = choose|i: int|
                0 <= i < list.len() && (#[trigger] list[i]).session_id == session && list[i].id
                    == id;
            if i < front.len() {
                assert(front[i] == list[i]);
            }
        }
    }
}

/// Leaving the window and coming back leaves what is typed where it went before.
pub proof fn law_focus_comes_back(b: BarView, ctx: CtxView, opened: Set<u64>)
    ensures
        tabs::step(
            b,
            Message::WindowFocused(true),
            CtxView {
                terminal_focused: false,
                window_focus_saved: Some(ctx.terminal_focused),
                ..ctx
            },
            opened,
        ).1[0] == EventView::SetTerminalFocused(ctx.terminal_focused),
        tabs::step(b, Message::WindowFocused(false), ctx, opened).1 == seq![
            EventView::SetWindowFocusSaved(Some(ctx.terminal_focused)),
            EventView::SetTerminalFocused(false),
        ],
{
}

/// A tab that is connected gets its terminal over the connection that was opened for it; one that
/// could not be is marked as failed, with the reason, and gets none. No other tab changes.
pub proof fn law_a_tab_follows_its_connection(
    b: BarView,
    k: int,
    session: String,
    result: Result<u64, Text>,
    ctx: CtxView,
    opened: Set<u64>,
)
    requires
        tabs::ordered(b),
        0 <= k < b.tabs.len(),
    ensures
        ({
            let id = b.tabs[k].id;
            let (after, events) = tabs::step(
                b,
                Message::SessionConnected(id, session, result),
                ctx,
                opened,
            );
            &&& after.tabs.len() == b.tabs.len()
            &&& forall|j: int|
                0 <= j < b.tabs.len() && j != k ==> #[trigger] after.tabs[j] == b.tabs[j]
            &&& after.active == b.active && after.next == b.next && after.show_list == b.show_list
            &&& result matches Ok(conn) ==> {
                &&& after.tabs[k] == (TabView { error: None, ..b.tabs[k] })
                &&& events.len() == 3
                &&& events[0] == EventView::SetActiveSession(Some(session@))
                &&& events[1] matches EventView::SetStatus(_)
                &&& events[2] == EventView::OpenTerminalBridge(id, conn)
            }
            &&& result matches Err(why) ==> {
                &&& after.tabs[k] == (TabView {
                    status: ConnectionStatus::Error,
                    error: Some(why@),
                    ..b.tabs[k]
                })
                &&& events == seq![EventView::SetStatus(why@)]
            }
        }),
{
    tabs::lemma_found(b.tabs, b.tabs[k].id);
}

/// A connection comes up in two steps: the terminal is made over its channel, and with it the tab
/// counts as connected, can be typed in and can be disconnected. Where it cannot be made, the tab
/// is gone.
pub proof fn law_a_terminal_makes_a_tab_connected(
    b: BarView,
    k: int,
    bridge: u64,
    ctx: CtxView,
    opened: Set<u64>,
)
    requires
        tabs::ordered(b),
        0 <= k < b.tabs.len(),
    ensures
        ({
            let id = b.tabs[k].id;
            let opening = tabs::step(b, Message::TerminalOpened(id, Ok(bridge)), ctx, opened);
            let (after, events) = tabs::step(
                b,
                Message::TerminalMounted(id, Ok(bridge)),
                ctx,
                opened,
            );
            &&& opening.0 == b
            &&& opening.1 == seq![EventView::SpawnTerminal(id, bridge)]
            &&& after.tabs.len() == b.tabs.len()
            &&& forall|j: int|
                0 <= j < b.tabs.len() && j != k ==> #[trigger] after.tabs[j] == b.tabs[j]
            &&& after.tabs[k].status == ConnectionStatus::Connected
            &&& after.tabs[k].terminal
            &&& after.tabs[k].bridge == Some(bridge)
            &&& after.tabs[k].error is None
            &&& after.tabs[k].id == id
            &&& after.tabs[k].session_id == b.tabs[k].session_id
            &&& after.tabs[k].title == b.tabs[k].title
            &&& after.tabs[k].conn == b.tabs[k].conn
            &&& after.active == b.active
            &&& events.contains(EventView::SetTerminalFocused(true))
        }),
{
    tabs::lemma_found(b.tabs, b.tabs[k].id);
    let events = tabs::step(
        b,
        Message::TerminalMounted(b.tabs[k].id, Ok(bridge)),
        ctx,
        opened,
    ).1;
    assert(events[1] == EventView::SetTerminalFocused(true));
}

/// A terminal that cannot be made leaves no tab behind, and the reason is told.
pub proof fn law_a_terminal_that_fails_leaves_no_tab(
    b: BarView,
    id: u64,
    why: Text,
    words: String,
    ctx: CtxView,
    opened: Set<u64>,
)
    ensures
        tabs::step(b, Message::TerminalOpened(id, Err(why)), ctx, opened).0.tabs == b.tabs.filter(
            |t: TabView| t.id != id,
        ),
        tabs::step(b, Message::TerminalOpened(id, Err(why)), ctx, opened).1[0]
            == EventView::SetStatus(why@),
        tabs::step(b, Message::TerminalMounted(id, Err(words)), ctx, opened).0.tabs
            == b.tabs.filter(|t: TabView| t.id != id),
        tabs::step(b, Message::TerminalMounted(id, Err(words)), ctx, opened).1[0] matches
            EventView::SetStatus(_),
{
}

/// A terminal that ends by itself leaves its tab as it is, but for the mark that it failed.
pub proof fn law_a_lost_terminal_is_marked(b: BarView, k: int, ctx: CtxView, opened: Set<u64>)
    requires
        tabs::ordered(b),
        0 <= k < b.tabs.len(),
    ensures
        ({
            let (after, events) = tabs::step(
                b,
                Message::TerminalDisconnected(b.tabs[k].id),
                ctx,
                opened,
            );
            &&& after.tabs == b.tabs.update(
                k,
                TabView { status: ConnectionStatus::Error, ..b.tabs[k] },
            )
            &&& after.active == b.active
            &&& events.len() == 1
            &&& events[0] matches EventView::SetStatus(_)
        }),
{
    tabs::lemma_found(b.tabs, b.tabs[k].id);
}

/// Where the tab is gone before its connection is there, the bar stays as it is, and nothing is
/// made over that connection.
pub proof fn law_nothing_comes_of_a_tab_that_is_gone(
    b: BarView,
    id: u64,
    session: String,
    result: Result<u64, Text>,
    bridge: u64,
    ctx: CtxView,
    opened: Set<u64>,
)
    requires
        forall|j: int| 0 <= j < b.tabs.len() ==> (#[trigger] b.tabs[j]).id != id,
    ensures
        tabs::step(b, Message::SessionConnected(id, session, result), ctx, opened).0 == b,
        tabs::step(b, Message::SessionConnected(id, session, result), ctx, opened).1.len() == 1,
        tabs::step(b, Message::SessionConnected(id, session, result), ctx, opened).1[0] matches
            EventView::SetStatus(_),
        result matches Err(why) ==> tabs::step(
            b,
            Message::SessionConnected(id, session, result),
            ctx,
            opened,
        ).1[0] == EventView::SetStatus(why@),
        tabs::step(b, Message::TerminalMounted(id, Ok(bridge)), ctx, opened).0 == b,
        tabs::step(b, Message::TerminalDisconnected(id), ctx, opened) == (
            b,
            Seq::<EventView>::empty(),
        ),
        forall|conn: u64| #[trigger] tabs::attached(b, id, conn) == b,
{
    tabs::lemma_found(b.tabs, id);
}

/// A connection is noted in the tab it was opened for, and nowhere else.
pub proof fn law_a_connection_belongs_to_its_tab(b: BarView, k: int, conn: u64)
    requires
        tabs::ordered(b),
        0 <= k < b.tabs.len(),
    ensures
        tabs::attached(b, b.tabs[k].id, conn) == (BarView {
            tabs: b.tabs.update(k, TabView { conn: Some(conn), ..b.tabs[k] }),
            ..b
        }),
{
    tabs::lemma_found(b.tabs, b.tabs[k].id);
}

/// A tab that is chosen is shown, its session becomes the chosen one, and what is typed goes to
/// it. Where files are shown, those of a connected tab that has none yet are opened. Choosing from
/// the list of tabs puts the list away and brings the tab into sight.
pub proof fn law_a_chosen_tab_is_shown(b: BarView, k: int, ctx: CtxView, opened: Set<u64>)
    requires
        tabs::ordered(b),
        0 <= k < b.tabs.len(),
    ensures
        ({
            let t = b.tabs[k];
            let (after, events) = tabs::step(b, Message::SelectTab(t.id), ctx, opened);
            let (listed, more) = tabs::step(b, Message::SwitchTab(t.id), ctx, opened);
            let opens = ctx.center == CenterView::Files && !opened.contains(t.id) && t.status
                == ConnectionStatus::Connected;
            &&& after == (BarView { active: Some(t.id), ..b })
            &&& events[0] == EventView::SetTerminalFocused(true)
            &&& events[1] == EventView::SetActiveSession(Some(t.session_id))
            &&& opens ==> events.len() == 3 && events[2] == EventView::OpenSftp(t.session_id)
            &&& !opens ==> events.len() == 2
            &&& listed == (BarView { active: Some(t.id), show_list: false, ..b })
            &&& more == events.push(EventView::ScrollTo(t.id))
        }),
{
    tabs::lemma_found(b.tabs, b.tabs[k].id);
}

/// The list of tabs is put up and put away in turn.
pub proof fn law_the_list_is_put_up_and_away(b: BarView, ctx: CtxView, opened: Set<u64>)
    ensures
        tabs::step(b, Message::ToggleTabList, ctx, opened) == (
            BarView { show_list: !b.show_list, ..b },
            Seq::<EventView>::empty(),
        ),
{
}

/// Closing a tab ends what runs in it and takes back the questions that wait for it. Where it was
/// the one shown, the last of the others is shown in its place; else the one shown stays.
pub proof fn law_closing_a_tab_ends_what_runs_in_it(
    b: BarView,
    k: int,
    ctx: CtxView,
    opened: Set<u64>,
)
    requires
        tabs::ordered(b),
        0 <= k < b.tabs.len(),
    ensures
        ({
            let t = b.tabs[k];
            let (after, events) = tabs::step(b, Message::CloseTab(t.id), ctx, opened);
            &&& events[0] == EventView::RemoveHostKeyForTab(t.id)
            &&& events[1] == EventView::CloseTransfers(t.id)
            &&& t.bridge matches Some(bridge) ==> events[2] == EventView::Disconnect(bridge)
            &&& b.active != Some(t.id) ==> after.active == b.active
            &&& b.active == Some(t.id) && after.tabs.len() > 0 ==> after.active == Some(
                after.tabs.last().id,
            )
            &&& b.active == Some(t.id) && after.tabs.len() == 0 ==> after.active is None
            &&& after.next == b.next
        }),
{
    tabs::lemma_found(b.tabs, b.tabs[k].id);
}

/// Closing the window ends every terminal that there is.
pub proof fn law_closing_the_window_ends_all(
    b: BarView,
    bridge: u64,
    ctx: CtxView,
    opened: Set<u64>,
)
    ensures
        tabs::step(b, Message::WindowClosing, ctx, opened).0 == b,
        tabs::step(b, Message::WindowClosing, ctx, opened).1.contains(
            EventView::Disconnect(bridge),
        ) <==> exists|k: int|
            0 <= k < b.tabs.len() && (#[trigger] b.tabs[k]).bridge == Some(bridge),
{
    lemma_all_are_stopped(b.tabs, bridge);
}

proof fn lemma_all_are_stopped(list: Seq<TabView>, bridge: u64)
    ensures
        tabs::all_stopped(list).contains(EventView::Disconnect(bridge)) <==> exists|k: int|
            0 <= k < list.len() && (#[trigger] list[k]).bridge == Some(bridge),
    decreases list.len(),
{
    if list.len() > 0 {
        let front = list.drop_last();
        let before = tabs::all_stopped(front);
        let all = tabs::all_stopped(list);
        let end = EventView::Disconnect(bridge);
        lemma_all_are_stopped(front, bridge);
        if before.contains(end) {
            let i = choose|i: int| 0 <= i < before.len() && before[i] == end;
            assert(all[i] == end);
            let k = choose|k: int|
                0 <= k < front.len() && (#[trigger] front[k]).bridge == Some(bridge);
            assert(list[k].bridge == Some(bridge));
        }
        if list.last().bridge == Some(bridge) {
            assert(all[before.len() as int] == end);
            assert(list[list.len() - 1].bridge == Some(bridge));
        }
        if all.contains(end) && !before.contains(end) {
            let i = choose|i: int| 0 <= i < all.len() && all[i] == end;
            if i < before.len() {
                assert(before[i] == end);
            }
        }
        if exists|k: int| 0 <= k < list.len() && (#[trigger] list[k]).bridge == Some(bridge) {
            let k = choose|k: int|
                0 <= k < list.len() && (#[trigger] list[k]).bridge == Some(bridge);
            if k < front.len() {
                assert(front[k].bridge == Some(bridge));
            }
        }
    }
}

/// A session without tabs is not connected; one whose tabs all failed has failed; one that is
/// being connected in a tab, and connected in none, is being connected.
pub proof fn law_a_session_stands_as_its_tabs_do(list: Seq<TabView>, session: Seq<char>)
    ensures
        tabs::status_of(list, session) == ConnectionStatus::Connected <==> exists|i: int|
            0 <= i < list.len() && (#[trigger] list[i]).session_id == session && list[i].status
                == ConnectionStatus::Connected,
        (forall|i: int|
            0 <= i < list.len() ==> (#[trigger] list[i]).session_id != session)
            ==> tabs::status_of(list, session) == ConnectionStatus::Disconnected,
        (exists|i: int|
            0 <= i < list.len() && (#[trigger] list[i]).session_id == session && list[i].status
                == ConnectionStatus::Connecting) && !(exists|i: int|
            0 <= i < list.len() && (#[trigger] list[i]).session_id == session && list[i].status
                == ConnectionStatus::Connected) ==> tabs::status_of(list, session)
            == ConnectionStatus::Connecting,
        (exists|i: int|
            0 <= i < list.len() && (#[trigger] list[i]).session_id == session && list[i].status
                == ConnectionStatus::Error) && (forall|i: int|
            0 <= i < list.len() && (#[trigger] list[i]).session_id == session ==> list[i].status
                == ConnectionStatus::Error) ==> tabs::status_of(list, session)
            == ConnectionStatus::Error,
{
}

/// A new tab is shown at once, after the others, under a number of its own and with the title
/// given; it waits for its connection and has nothing else yet.
pub proof fn law_a_new_tab_waits_for_its_connection(
    b: BarView,
    session: Seq<char>,
    title: Seq<char>,
)
    requires
        b.next < u64::MAX,
    ensures
        ({
            let after = tabs::added(b, session, title);
            let t = after.tabs.last();
            &&& after.tabs.len() == b.tabs.len() + 1
            &&& after.tabs.drop_last() =~= b.tabs
            &&& t.id == b.next
            &&& t.session_id == session
            &&& t.title == title
            &&& t.status == ConnectionStatus::Connecting
            &&& t.error is None && t.conn is None && t.bridge is None && !t.terminal
            &&& after.active == Some(b.next)
            &&& after.next == b.next + 1
            &&& after.show_list == b.show_list
        }),
{
}

/// The files of a session are shown in the tab that is shown, where it is one of the session, else
/// in the first tab that is.
pub proof fn law_files_go_into_a_tab_of_the_session(b: BarView, session: Seq<char>, k: int)
    requires
        tabs::ordered(b),
        0 <= k < b.tabs.len(),
        b.tabs[k].session_id == session,
    ensures
        b.active == Some(b.tabs[k].id) ==> tabs::files_tab(b, session) == Some(b.tabs[k].id),
        (forall|j: int|
            0 <= j < b.tabs.len() && b.active == Some((#[trigger] b.tabs[j]).id)
                ==> b.tabs[j].session_id != session) && (forall|j: int|
            0 <= j < k ==> (#[trigger] b.tabs[j]).session_id != session) ==> tabs::files_tab(
            b,
            session,
        ) == Some(b.tabs[k].id),
{
    tabs::lemma_found(b.tabs, b.tabs[k].id);
    tabs::lemma_session_place(b.tabs, session, b.tabs.len() as int);
    if let Some(id) = b.active {
        tabs::lemma_found(b.tabs, id);
    }
}

} // verus!
