//! What holds of the list of sessions as a whole.

use crate::config::session::{SessionConfig, SessionView};
use crate::config::session;
use crate::config::store;
use crate::i18n;
use crate::i18n::ToastKind;
use crate::local_path;
use crate::local_path::LocalPath;
use crate::session as list_of;
use crate::session::draft;
use crate::session::draft::{DraftView, SessionField};
use crate::session::{CtxView, EventView, ListView, Message, Purpose};
use crate::text;
use vstd::prelude::*;

verus! {

/// Whether no two sessions have the same id.
pub open spec fn told_apart(list: Seq<SessionView>) -> bool {
    forall|i: int, j: int|
        0 <= i < j < list.len() ==> (#[trigger] list[i]).id != (#[trigger] list[j]).id
}

/// To save a session touches no other: the others stay in their places, and the session is there.
pub proof fn law_saving_touches_one_session(list: Seq<SessionView>, s: SessionView)
    requires
        told_apart(list),
    ensures
        told_apart(list_of::stored(list, s)),
        list_of::stored(list, s).contains(s),
        list_of::stored(list, s).len() <= list.len() + 1,
        forall|i: int|
            0 <= i < list.len() && (#[trigger] list[i]).id != s.id ==> list_of::stored(list, s)[i]
                == list[i],
{
    list_of::lemma_found(list, s.id);
    let after = list_of::stored(list, s);
    match list_of::found(list, s.id) {
        Some(i) => {
            assert(after[i] == s);
        },
        None => {
            assert(after[list.len() as int] == s);
        },
    }
}

/// To delete a session leaves all others, in their order, and none of its id.
pub proof fn law_deleting_spares_the_others(list: Seq<SessionView>, id: Seq<char>)
    ensures
        list_of::without(list, id) == list.filter(|s: SessionView| s.id != id),
        forall|i: int|
            0 <= i < list_of::without(list, id).len() ==> (#[trigger] list_of::without(
                list,
                id,
            )[i]).id != id,
    decreases list.len(),
{
    reveal(Seq::filter);
    if list.len() > 0 {
        law_deleting_spares_the_others(list.drop_last(), id);
    }
}

/// Sessions that are taken in come behind those there are, which stay as they are; each comes in,
/// unchanged but for its id.
pub proof fn law_importing_overwrites_nothing(
    list: Seq<SessionView>,
    more: Seq<SessionView>,
    clock: Seq<u128>,
)
    ensures
        list_of::imported(list, more, clock).len() == list.len() + more.len(),
        forall|i: int|
            0 <= i < list.len() ==> #[trigger] list_of::imported(list, more, clock)[i] == list[i],
        forall|i: int|
            list.len() <= i < list.len() + more.len() ==> {
                let s = #[trigger] list_of::imported(list, more, clock)[i];
                s == (SessionView { id: s.id, ..more[i - list.len()] })
            },
    decreases more.len(),
{
    if more.len() > 0 {
        law_importing_overwrites_nothing(list, more.drop_last(), clock);
    }
}

/// Where the readings of the clock differ from one another, and none was used for an id before,
/// sessions stay told apart when others are taken in.
pub proof fn law_imported_sessions_are_told_apart(
    list: Seq<SessionView>,
    more: Seq<SessionView>,
    clock: Seq<u128>,
)
    requires
        told_apart(list),
        more.len() <= clock.len(),
        forall|i: int, j: int|
            0 <= i < j < clock.len() ==> (#[trigger] clock[i]) != (#[trigger] clock[j]),
        forall|i: int, j: int|
            0 <= i < list.len() && 0 <= j < clock.len() ==> (#[trigger] list[i]).id
                != session::id_of(#[trigger] clock[j]),
        forall|i: int, j: int|
            0 <= i < more.len() && 0 <= j < clock.len() ==> (#[trigger] more[i]).id
                != session::id_of(#[trigger] clock[j]),
    ensures
        told_apart(list_of::imported(list, more, clock)),
        forall|i: int, j: int|
            0 <= i < list.len() + more.len() && more.len() <= j < clock.len()
                ==> (#[trigger] list_of::imported(list, more, clock)[i]).id != session::id_of(
                #[trigger] clock[j],
            ),
    decreases more.len(),
{
    law_importing_overwrites_nothing(list, more, clock);
    if more.len() > 0 {
        let front = more.drop_last();
        let before = list_of::imported(list, front, clock);
        let all = list_of::imported(list, more, clock);
        let n = more.len() - 1;
        assert forall|i: int, j: int|
            0 <= i < front.len() && 0 <= j < clock.len() implies (#[trigger] front[i]).id
            != session::id_of(#[trigger] clock[j]) by {
            assert(front[i] == more[i]);
        }
        law_imported_sessions_are_told_apart(list, front, clock);
        law_importing_overwrites_nothing(list, front, clock);
        let s = more.last();
        list_of::lemma_found(before, s.id);
        assert(all.len() == before.len() + 1);
        assert forall|i: int, j: int| 0 <= i < j < all.len() implies (#[trigger] all[i]).id != (
        #[trigger] all[j]).id by {
            assert(all[i] == before[i]);
            if j < before.len() {
                assert(all[j] == before[j]);
            } else if list_of::found(before, s.id) is Some {
                assert(before[i].id != session::id_of(clock[n]));
            }
        }
        assert forall|i: int, j: int|
            0 <= i < list.len() + more.len() && more.len() <= j < clock.len() implies (
        #[trigger] all[i]).id != session::id_of(#[trigger] clock[j]) by {
            if i < before.len() {
                assert(all[i] == before[i]);
            } else if list_of::found(before, s.id) is Some {
                session::law_ids_differ(clock[n], clock[j]);
            } else {
                assert(more[n].id != session::id_of(clock[j]));
            }
        }
    }
}

/// A notice in the status line.
pub open spec fn status(key: Seq<char>) -> EventView {
    EventView::Status(Some(i18n::plain(i18n::entry(key))))
}

/// A session that is saved is on the list, in the place of the one it was made from or behind all
/// others, and nothing else of the list changes. Where there is a place for the sessions they are
/// all written, with the header of the vault that sealed their secrets, and the editor closes once
/// that was done; where that failed, the editor stays open and says so.
pub proof fn law_a_saved_session_is_listed_and_written(
    l: ListView,
    ctx: CtxView,
    words: String,
)
    requires
        told_apart(l.sessions),
        l.editor is Some,
        ctx.vault is Some,
        draft::built(l.editor->0, ctx.vault->0.dek, ctx.nonce) is Ok,
    ensures
        ({
            let s = draft::built(l.editor->0, ctx.vault->0.dek, ctx.nonce)->Ok_0;
            let (after, events) = list_of::step(l, Message::SaveSession, ctx);
            &&& after.sessions.contains(s)
            &&& forall|i: int|
                0 <= i < l.sessions.len() && (#[trigger] l.sessions[i]).id != s.id
                    ==> after.sessions[i] == l.sessions[i]
            &&& after.sessions.len() == l.sessions.len() || (after.sessions.len()
                == l.sessions.len() + 1 && after.sessions.last() == s && forall|i: int|
                0 <= i < l.sessions.len() ==> (#[trigger] l.sessions[i]).id != s.id)
            &&& after.store == l.store && after.selected == l.selected && after.collapsed
                == l.collapsed
            &&& l.store is Some ==> events.len() == 1 && (events[0] matches EventView::Write(
                purpose,
                file,
            ) && purpose == Purpose::Save && file.sessions == after.sessions && file.crypto == Some(
                ctx.vault->0.header,
            )) && after.editor == l.editor
            &&& l.store is None ==> events == seq![status("app.session_saved"@)] && after.editor
                is None
            &&& list_of::step(after, Message::Written(Purpose::Save, None), ctx).0 == (ListView {
                editor: None,
                ..after
            })
            &&& after.editor is Some ==> ({
                let failed = list_of::step(
                    after,
                    Message::Written(Purpose::Save, Some(words)),
                    ctx,
                ).0;
                failed.editor is Some && failed.editor->0.error is Some && failed.sessions
                    == after.sessions
            })
        }),
{
    let s = draft::built(l.editor->0, ctx.vault->0.dek, ctx.nonce)->Ok_0;
    law_saving_touches_one_session(l.sessions, s);
    list_of::lemma_found(l.sessions, s.id);
}

/// What is wrong with a draft, or that the vault is locked, is told in the editor; the list stays as
/// it is, and nothing is written.
pub proof fn law_a_faulty_draft_is_not_saved(l: ListView, ctx: CtxView)
    requires
        l.editor is Some,
        ctx.vault is None || draft::built(l.editor->0, ctx.vault->0.dek, ctx.nonce) is Err,
    ensures
        ({
            let (after, events) = list_of::step(l, Message::SaveSession, ctx);
            let fault = match ctx.vault {
                None => i18n::plain(i18n::entry("app.vault_locked"@)),
                Some(v) => draft::built(l.editor->0, v.dek, ctx.nonce)->Err_0,
            };
            &&& after == (ListView {
                editor: Some(DraftView { error: Some(fault), ..l.editor->0 }),
                ..l
            })
            &&& events.len() == 0
        }),
{
}

/// To edit a session opens its draft, to begin a new one an empty draft, and to type changes the
/// draft and takes back what was wrong with it; to give up closes it. The list is not touched by
/// any of this.
pub proof fn law_the_editor_works_on_a_draft(
    l: ListView,
    ctx: CtxView,
    i: int,
    id: String,
    field: SessionField,
    value: String,
)
    requires
        told_apart(l.sessions),
        0 <= i < l.sessions.len(),
        l.sessions[i].id == id@,
    ensures
        list_of::step(l, Message::EditSession(id), ctx) == (
            ListView { editor: Some(draft::drafted(l.sessions[i])), ..l },
            Seq::<EventView>::empty(),
        ),
        list_of::step(l, Message::NewSession, ctx) == (
            ListView { editor: Some(draft::blank(ctx.nanos)), ..l },
            Seq::<EventView>::empty(),
        ),
        list_of::step(l, Message::CancelEdit, ctx) == (
            ListView { editor: None, ..l },
            Seq::<EventView>::empty(),
        ),
        l.editor is Some ==> ({
            let (after, events) = list_of::step(l, Message::EditorField(field, value), ctx);
            &&& events.len() == 0
            &&& after.sessions == l.sessions
            &&& after.editor is Some
            &&& draft::laws::field_of(after.editor->0, field) == value@
            &&& after.editor->0.error is None
            &&& forall|other: SessionField|
                other != field ==> #[trigger] draft::laws::field_of(after.editor->0, other)
                    == draft::laws::field_of(l.editor->0, other)
            &&& after.editor->0.id == l.editor->0.id
            &&& after.editor->0.orig_auth == l.editor->0.orig_auth
        }),
        l.editor is Some ==> list_of::step(l, Message::KeyFilePicked(Some(value)), ctx).0 == (ListView {
            editor: Some(DraftView { key_path: value@, error: None, ..l.editor->0 }),
            ..l
        }),
        list_of::step(l, Message::KeyFilePicked(None), ctx) == (l, Seq::<EventView>::empty()),
{
    list_of::lemma_found(l.sessions, id@);
}

/// A session that is deleted is gone, all others are there in their order, the rest of the program
/// is told, and what is left is written where there is a place and a vault.
pub proof fn law_a_deleted_session_is_gone(l: ListView, ctx: CtxView, id: String)
    ensures
        ({
            let (after, events) = list_of::step(l, Message::DeleteSession(id), ctx);
            &&& after.sessions == l.sessions.filter(|s: SessionView| s.id != id@)
            &&& after == (ListView { sessions: after.sessions, ..l })
            &&& events.len() > 0 && events[0] == EventView::SessionDeleted(id@)
            &&& l.store is Some && ctx.vault is Some ==> events.len() == 2 && (
            events[1] matches EventView::Write(purpose, file) && purpose == Purpose::Delete
                && file.sessions == after.sessions && file.crypto == Some(ctx.vault->0.header))
            &&& l.store is Some && ctx.vault is None ==> events.len() == 2 && events[1] == status(
                "app.vault_locked"@,
            )
            &&& l.store is None ==> events.len() == 1
        }),
{
    law_deleting_spares_the_others(l.sessions, id@);
}

/// What is exported is every session without its secret, to the file that was picked; and the user
/// is told how many, and where. Where no file was picked nothing is.
pub proof fn law_all_sessions_are_exported(
    l: ListView,
    ctx: CtxView,
    path: LocalPath,
    count: usize,
    words: String,
)
    requires
        l.sessions.len() <= usize::MAX,
    ensures
        list_of::step(l, Message::ExportSessions, ctx) == (l, seq![EventView::PickExportFile]),
        list_of::step(l, Message::ExportSessionsToFile(None), ctx) == (l, Seq::<EventView>::empty()),
        ({
            let (after, events) = list_of::step(l, Message::ExportSessionsToFile(Some(path)), ctx);
            &&& after == l
            &&& events.len() == 1
            &&& events[0] matches EventView::Export(to, file, n) && to == path@ && n
                == l.sessions.len() && file.crypto is None && file.sessions.len() == l.sessions.len()
                && forall|i: int|
                0 <= i < l.sessions.len() ==> store::without_secret(
                    (#[trigger] file.sessions[i]).auth,
                ) && file.sessions[i].id == l.sessions[i].id && file.sessions[i].host
                    == l.sessions[i].host
        }),
        list_of::step(l, Message::Exported(path, count, None), ctx) == (
            l,
            seq![
                EventView::Toast(
                    ToastKind::Success,
                    i18n::plain(
                        i18n::WordingView::Pair {
                            key: "app.exported"@,
                            first: text::decimal(count as nat),
                            second: local_path::shown(path@),
                        },
                    ),
                ),
            ],
        ),
        list_of::step(l, Message::Exported(path, count, Some(words)), ctx) == (
            l,
            seq![
                EventView::Toast(
                    ToastKind::Error,
                    i18n::plain(i18n::entry_with("app.export_failed"@, words@)),
                ),
            ],
        ),
{
    store::law_shared_files_carry_no_secret(l.sessions);
}

/// What is imported comes behind the sessions there are, each unchanged but for an id that was
/// taken; all are written where there is a place and a vault, and the user is told how many came.
pub proof fn law_imported_sessions_come_behind(
    l: ListView,
    ctx: CtxView,
    path: LocalPath,
    more: Vec<SessionConfig>,
    clock: Vec<u128>,
    words: String,
)
    requires
        more@.len() <= clock@.len(),
    ensures
        list_of::step(l, Message::ImportSessions, ctx) == (l, seq![EventView::PickImportFile]),
        list_of::step(l, Message::ImportSessionsFromFile(Some(path)), ctx) == (
            l,
            seq![EventView::Import(path@)],
        ),
        list_of::step(l, Message::ImportSessionsFromFile(None), ctx) == (l, Seq::<EventView>::empty()),
        ({
            let (after, events) = list_of::step(l, Message::Imported(Ok(more), clock), ctx);
            let n = l.sessions.len() as int;
            &&& after.sessions.len() == n + more@.len()
            &&& after == (ListView { sessions: after.sessions, ..l })
            &&& forall|i: int| 0 <= i < n ==> #[trigger] after.sessions[i] == l.sessions[i]
            &&& forall|i: int|
                n <= i < after.sessions.len() ==> (#[trigger] after.sessions[i]) == (SessionView {
                    id: after.sessions[i].id,
                    ..more@[i - n]@
                })
            &&& l.store is Some && ctx.vault is Some ==> events.len() == 2 && (
            events[0] matches EventView::Write(purpose, file) && purpose == Purpose::Import
                && file.sessions == after.sessions && file.crypto == Some(ctx.vault->0.header))
            &&& events.last() == EventView::Toast(
                ToastKind::Success,
                i18n::plain(i18n::entry_with("app.imported"@, text::decimal(more@.len() as nat))),
            )
        }),
        list_of::step(l, Message::Imported(Err(words), clock), ctx) == (
            l,
            seq![
                EventView::Toast(
                    ToastKind::Error,
                    i18n::plain(i18n::entry_with("app.import_failed"@, words@)),
                ),
            ],
        ),
{
    law_importing_overwrites_nothing(l.sessions, session::views(more@), clock@);
    let after = list_of::step(l, Message::Imported(Ok(more), clock), ctx).0;
    let n = l.sessions.len() as int;
    assert forall|i: int| n <= i < after.sessions.len() implies (#[trigger] after.sessions[i]) == (
    SessionView { id: after.sessions[i].id, ..more@[i - n]@ }) by {
        let s = list_of::imported(l.sessions, session::views(more@), clock@)[i];
        assert(s == after.sessions[i]);
    }
}

/// An imported session keeps its id exactly where no session has it already.
pub proof fn law_a_free_id_is_kept(list: Seq<SessionView>, s: SessionView, clock: Seq<u128>)
    requires
        clock.len() > 0,
    ensures
        ({
            let after = list_of::imported(list, seq![s], clock);
            let taken = exists|i: int| 0 <= i < list.len() && (#[trigger] list[i]).id == s.id;
            &&& after.len() == list.len() + 1
            &&& !taken ==> after.last() == s
            &&& taken ==> after.last() == (SessionView { id: session::id_of(clock[0]), ..s })
        }),
{
    assert(seq![s].drop_last() =~= Seq::<SessionView>::empty());
    assert(list_of::imported(list, seq![s].drop_last(), clock) == list);
    list_of::lemma_found(list, s.id);
}

/// What was read is the list from then on; what could not be read changes nothing.
pub proof fn law_what_was_read_is_listed(l: ListView, ctx: CtxView, list: Vec<SessionConfig>, words: String)
    ensures
        list_of::step(l, Message::Loaded(Ok(list)), ctx) == (
            ListView { sessions: session::views(list@), ..l },
            Seq::<EventView>::empty(),
        ),
        list_of::step(l, Message::Loaded(Err(words)), ctx) == (l, Seq::<EventView>::empty()),
        l.store is Some ==> list_of::step(l, Message::RefreshSessions, ctx) == (
            l,
            seq![EventView::Load],
        ),
        l.store is None ==> list_of::step(l, Message::RefreshSessions, ctx) == (
            l,
            Seq::<EventView>::empty(),
        ),
{
}

/// What is connected to, or shown the files of, is the session that was picked; to pick or to point
/// at a session changes only what is picked or pointed at.
pub proof fn law_the_picked_session_is_used(l: ListView, ctx: CtxView, id: String)
    ensures
        list_of::step(l, Message::ConnectSession(id), ctx) == (l, seq![EventView::Connect(id@)]),
        list_of::step(l, Message::OpenFiles(id), ctx) == (l, seq![EventView::OpenFiles(id@)]),
        list_of::step(l, Message::SessionSelect(id), ctx) == (
            ListView { selected: Some(id@), ..l },
            Seq::<EventView>::empty(),
        ),
        ({
            let over = list_of::step(l, Message::SessionEnter(id), ctx).0;
            &&& over == (ListView { hovered: Some(id@), ..l })
            &&& list_of::step(over, Message::SessionSelectHovered, ctx).0.selected == Some(id@)
            &&& list_of::step(over, Message::SessionExit(id), ctx).0.hovered is None
        }),
        l.hovered is None ==> list_of::step(l, Message::SessionSelectHovered, ctx).0 == l,
        l.hovered != Some(id@) ==> list_of::step(l, Message::SessionExit(id), ctx).0 == l,
        list_of::step(l, Message::PickKeyFile, ctx) == (l, seq![EventView::PickKeyFile]),
{
}

/// A group that is folded away is shown again when it is folded once more, and no other group is
/// touched.
pub proof fn law_folding_twice_changes_nothing(l: ListView, ctx: CtxView, key: String, other: Seq<char>)
    ensures
        ({
            let once = list_of::step(l, Message::ToggleGroup(key), ctx).0;
            let twice = list_of::step(once, Message::ToggleGroup(key), ctx).0;
            &&& once.collapsed.contains(key@) == !l.collapsed.contains(key@)
            &&& other != key@ ==> once.collapsed.contains(other) == l.collapsed.contains(other)
            &&& twice.collapsed.contains(other) == l.collapsed.contains(other)
            &&& once.sessions == l.sessions
        }),
{
}

/// Sessions that could not be written after one was deleted are told of, with the reason; the list
/// stays as it is.
pub proof fn law_a_list_that_is_not_written_is_told(l: ListView, words: String, ctx: CtxView)
    ensures
        list_of::step(l, Message::Written(Purpose::Delete, Some(words)), ctx).0 == l,
        list_of::step(l, Message::Written(Purpose::Delete, Some(words)), ctx).1 == seq![
            EventView::Status(
                Some(i18n::plain(i18n::entry_with("app.save_failed"@, words@))),
            ),
        ],
{
}

} // verus!
