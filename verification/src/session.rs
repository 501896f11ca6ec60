//! The sessions: the list, and the editor.

use crate::config::paths;
use crate::config::session::{SessionConfig, SessionView};
use crate::config::session;
use crate::config::store::{self, FileView, SessionStore, SessionsFile};
use crate::crypto::{Vault, VaultView};
use crate::i18n::{Text, TextView, ToastKind};
use crate::i18n;
use crate::local_path::{self, LocalPath};
use crate::session::draft::{DraftView, EditorDraft, SessionField};
use crate::text;
use crate::text_set::TextSet;
use crate::text_set;
use vstd::prelude::*;

pub mod draft;
pub mod laws;

verus! {

/// What the list and the editor hold.
pub struct State {
    /// Where the sessions are kept, if anywhere.
    pub store: Option<SessionStore>,
    /// The sessions.
    pub sessions: Vec<SessionConfig>,
    /// The session that the pointer is over.
    pub hovered_session: Option<String>,
    /// The session that is selected.
    pub selected_session: Option<String>,
    /// The groups that are folded; the empty name stands for those without a group.
    pub collapsed_groups: TextSet,
    /// The session that is edited.
    pub editor: Option<EditorDraft>,
}

/// What a [`State`] holds.
#[verifier::ext_equal]
pub struct ListView {
    /// Where the sessions are kept.
    pub store: Option<paths::LocationView>,
    /// The sessions.
    pub sessions: Seq<SessionView>,
    /// The session that the pointer is over.
    pub hovered: Option<Seq<char>>,
    /// The session that is selected.
    pub selected: Option<Seq<char>>,
    /// The groups that are folded.
    pub collapsed: Set<Seq<char>>,
    /// The session that is edited.
    pub editor: Option<DraftView>,
}

/// A store, where there is one.
pub open spec fn opt_store(s: Option<SessionStore>) -> Option<paths::LocationView> {
    match s {
        Some(s) => Some(s@),
        None => None,
    }
}

/// A draft, where there is one.
pub open spec fn opt_draft(d: Option<EditorDraft>) -> Option<DraftView> {
    match d {
        Some(d) => Some(d@),
        None => None,
    }
}

impl View for State {
    type V = ListView;

    open spec fn view(&self) -> ListView {
        ListView {
            store: opt_store(self.store),
            sessions: session::views(self.sessions@),
            hovered: text::opt(self.hovered_session),
            selected: text::opt(self.selected_session),
            collapsed: self.collapsed_groups@,
            editor: opt_draft(self.editor),
        }
    }
}

/// What the sessions are written for.
#[derive(Debug, Clone, Copy, PartialEq, Eq, Structural)]
pub enum Purpose {
    /// One was deleted.
    Delete,
    /// One was saved.
    Save,
    /// Some were imported.
    Import,
}

/// What is asked of the list and the editor, and what came of what was to be done.
pub enum Message {
    /// A session is to be made.
    NewSession,
    /// A session is to be edited.
    EditSession(String),
    /// A session is to be deleted.
    DeleteSession(String),
    /// The session that is edited is to be saved.
    SaveSession,
    /// Editing is given up.
    CancelEdit,
    /// The sessions are to be read again.
    RefreshSessions,
    /// The sessions were read, or why they were not.
    Loaded(Result<Vec<SessionConfig>, String>),
    /// A field of the editor is changed.
    EditorField(SessionField, String),
    /// The file of a key is to be picked.
    PickKeyFile,
    /// The file of a key was picked, or not.
    KeyFilePicked(Option<String>),
    /// A group is to be folded or unfolded.
    ToggleGroup(String),
    /// A session is selected.
    SessionSelect(String),
    /// The pointer comes over a session.
    SessionEnter(String),
    /// The pointer leaves a session.
    SessionExit(String),
    /// The session under the pointer is selected.
    SessionSelectHovered,
    /// A session is to be connected.
    ConnectSession(String),
    /// The files of a session are to be shown.
    OpenFiles(String),
    /// The sessions are to be shared.
    ExportSessions,
    /// The file to share them in was picked, or not.
    ExportSessionsToFile(Option<LocalPath>),
    /// So many sessions were written to the file to share, or why they were not.
    Exported(LocalPath, usize, Option<String>),
    /// Shared sessions are to be taken in.
    ImportSessions,
    /// The file of shared sessions was picked, or not.
    ImportSessionsFromFile(Option<LocalPath>),
    /// Shared sessions were read, or why they were not; with a reading of the clock for each.
    Imported(Result<Vec<SessionConfig>, String>, Vec<u128>),
    /// The sessions were written, or why they were not.
    Written(Purpose, Option<String>),
}

/// What is to be done.
pub enum Event {
    /// A session is to be connected.
    Connect(String),
    /// The files of a session are to be shown.
    OpenFiles(String),
    /// A session was deleted: its tabs are to be closed.
    SessionDeleted(String),
    /// This is to stand in the status bar.
    Status(Option<Text>),
    /// The user is to be told.
    Toast(ToastKind, Text),
    /// The user is to pick the file of a key.
    PickKeyFile,
    /// The user is to pick a file to share the sessions in.
    PickExportFile,
    /// The user is to pick a file of shared sessions.
    PickImportFile,
    /// The sessions are to be read.
    Load,
    /// The sessions are to be written.
    Write(Purpose, SessionsFile),
    /// So many sessions are to be written to this file to share.
    Export(LocalPath, SessionsFile, usize),
    /// Shared sessions are to be read from this file.
    Import(LocalPath),
}

/// What an [`Event`] holds.
pub enum EventView {
    /// A session is to be connected.
    Connect(Seq<char>),
    /// The files of a session are to be shown.
    OpenFiles(Seq<char>),
    /// A session was deleted.
    SessionDeleted(Seq<char>),
    /// This is to stand in the status bar.
    Status(Option<TextView>),
    /// The user is to be told.
    Toast(ToastKind, TextView),
    /// The user is to pick the file of a key.
    PickKeyFile,
    /// The user is to pick a file to share the sessions in.
    PickExportFile,
    /// The user is to pick a file of shared sessions.
    PickImportFile,
    /// The sessions are to be read.
    Load,
    /// The sessions are to be written.
    Write(Purpose, FileView),
    /// So many sessions are to be written to this file to share.
    Export(Seq<u8>, FileView, usize),
    /// Shared sessions are to be read from this file.
    Import(Seq<u8>),
}

impl View for Event {
    type V = EventView;

    open spec fn view(&self) -> EventView {
        match *self {
            Event::Connect(id) => EventView::Connect(id@),
            Event::OpenFiles(id) => EventView::OpenFiles(id@),
            Event::SessionDeleted(id) => EventView::SessionDeleted(id@),
            Event::Status(t) => EventView::Status(i18n::opt_text(t)),
            Event::Toast(kind, t) => EventView::Toast(kind, t@),
            Event::PickKeyFile => EventView::PickKeyFile,
            Event::PickExportFile => EventView::PickExportFile,
            Event::PickImportFile => EventView::PickImportFile,
            Event::Load => EventView::Load,
            Event::Write(purpose, file) => EventView::Write(purpose, file@),
            Event::Export(path, file, count) => EventView::Export(path@, file@, count),
            Event::Import(path) => EventView::Import(path@),
        }
    }
}

/// What a list of events holds.
pub open spec fn events_of(list: Seq<Event>) -> Seq<EventView> {
    Seq::new(list.len(), |i: int| list[i]@)
}

/// What the list and the editor know of the rest.
pub struct Ctx<'a> {
    /// The vault, where it is unlocked.
    pub vault: Option<&'a Vault>,
    /// The time, in nanoseconds since 1970.
    pub nanos: u128,
    /// A nonce to seal with, drawn for this message.
    pub nonce: [u8; 12],
}

/// What a [`Ctx`] holds.
pub struct CtxView {
    /// The vault.
    pub vault: Option<VaultView>,
    /// The time.
    pub nanos: u128,
    /// A nonce.
    pub nonce: Seq<u8>,
}

impl<'a> View for Ctx<'a> {
    type V = CtxView;

    open spec fn view(&self) -> CtxView {
        CtxView {
            vault: match self.vault {
                Some(v) => Some(v@),
                None => None,
            },
            nanos: self.nanos,
            nonce: self.nonce@,
        }
    }
}

/// An entry of the catalogue.
pub open spec fn entry(key: Seq<char>) -> TextView {
    i18n::plain(i18n::entry(key))
}

/// An entry of the catalogue with the value of its placeholder.
pub open spec fn entry_with(key: Seq<char>, detail: Seq<char>) -> TextView {
    i18n::plain(i18n::entry_with(key, detail))
}

/// Where a session stands in a list, if it does.
pub open spec fn place(list: Seq<SessionView>, id: Seq<char>, n: int) -> Option<int>
    decreases n,
{
    if n <= 0 {
        None
    } else {
        match place(list, id, n - 1) {
            Some(i) => Some(i),
            None => if list[n - 1].id == id {
                Some(n - 1)
            } else {
                None
            },
        }
    }
}

/// The place of the first session with this id.
pub open spec fn found(list: Seq<SessionView>, id: Seq<char>) -> Option<int> {
    place(list, id, list.len() as int)
}

/// The sessions without those of this id.
pub open spec fn without(list: Seq<SessionView>, id: Seq<char>) -> Seq<SessionView>
    decreases list.len(),
{
    if list.len() == 0 {
        list
    } else if list.last().id == id {
        without(list.drop_last(), id)
    } else {
        without(list.drop_last(), id).push(list.last())
    }
}

/// The sessions with this one in the place of that of the same id, or behind the others.
pub open spec fn stored(list: Seq<SessionView>, s: SessionView) -> Seq<SessionView> {
    match found(list, s.id) {
        Some(i) => list.update(i, s),
        None => list.push(s),
    }
}

/// The sessions with others taken in behind them. One whose id is taken is given another, by a
/// reading of the clock.
pub open spec fn imported(
    list: Seq<SessionView>,
    more: Seq<SessionView>,
    clock: Seq<u128>,
) -> Seq<SessionView>
    decreases more.len(),
{
    if more.len() == 0 {
        list
    } else {
        let front = imported(list, more.drop_last(), clock);
        let s = more.last();
        if found(front, s.id) is Some {
            front.push(SessionView { id: session::id_of(clock[more.len() - 1]), ..s })
        } else {
            front.push(s)
        }
    }
}

/// What is to be done to write the sessions. Without a place for them nothing is; without a vault
/// that is told, where it is told at all.
pub open spec fn written(l: ListView, ctx: CtxView, purpose: Purpose) -> Seq<EventView> {
    match (l.store, ctx.vault) {
        (None, _) => Seq::empty(),
        (Some(_), None) => if purpose == Purpose::Import {
            Seq::empty()
        } else {
            seq![EventView::Status(Some(entry("app.vault_locked"@)))]
        },
        (Some(_), Some(v)) => seq![
            EventView::Write(purpose, store::saved(l.sessions, v.header)),
        ],
    }
}

/// The editor with what was wrong.
pub open spec fn faulted(l: ListView, t: TextView) -> ListView {
    match l.editor {
        Some(d) => ListView { editor: Some(DraftView { error: Some(t), ..d }), ..l },
        None => l,
    }
}

/// The session that is edited is saved.
pub open spec fn saved(l: ListView, ctx: CtxView) -> (ListView, Seq<EventView>) {
    match (ctx.vault, l.editor) {
        (None, _) => (faulted(l, entry("app.vault_locked"@)), Seq::empty()),
        (Some(_), None) => (l, Seq::empty()),
        (Some(v), Some(d)) => match draft::built(d, v.dek, ctx.nonce) {
            Err(t) => (faulted(l, t), Seq::empty()),
            Ok(s) => {
                let sessions = stored(l.sessions, s);
                if l.store is Some {
                    (
                        ListView { sessions, ..l },
                        seq![EventView::Write(Purpose::Save, store::saved(sessions, v.header))],
                    )
                } else {
                    (
                        ListView { sessions, editor: None, ..l },
                        seq![EventView::Status(Some(entry("app.session_saved"@)))],
                    )
                }
            },
        },
    }
}

/// What becomes of the list and the editor, and what is to be done.
pub open spec fn step(l: ListView, msg: Message, ctx: CtxView) -> (ListView, Seq<EventView>) {
    match msg {
        Message::NewSession => (
            ListView { editor: Some(draft::blank(ctx.nanos)), ..l },
            Seq::empty(),
        ),
        Message::EditSession(id) => match found(l.sessions, id@) {
            Some(i) => (
                ListView { editor: Some(draft::drafted(l.sessions[i])), ..l },
                Seq::empty(),
            ),
            None => (l, Seq::empty()),
        },
        Message::DeleteSession(id) => {
            let after = ListView { sessions: without(l.sessions, id@), ..l };
            (
                after,
                seq![EventView::SessionDeleted(id@)] + written(after, ctx, Purpose::Delete),
            )
        },
        Message::SaveSession => saved(l, ctx),
        Message::CancelEdit => (ListView { editor: None, ..l }, Seq::empty()),
        Message::RefreshSessions => if l.store is Some {
            (l, seq![EventView::Load])
        } else {
            (l, Seq::empty())
        },
        Message::Loaded(Ok(list)) => (
            ListView { sessions: session::views(list@), ..l },
            Seq::empty(),
        ),
        Message::Loaded(Err(_)) => (l, Seq::empty()),
        Message::EditorField(field, value) => match l.editor {
            Some(d) => (
                ListView {
                    editor: Some(DraftView { error: None, ..draft::edited(d, field, value@) }),
                    ..l
                },
                Seq::empty(),
            ),
            None => (l, Seq::empty()),
        },
        Message::PickKeyFile => (l, seq![EventView::PickKeyFile]),
        Message::KeyFilePicked(path) => match (path, l.editor) {
            (Some(p), Some(d)) => (
                ListView { editor: Some(DraftView { key_path: p@, error: None, ..d }), ..l },
                Seq::empty(),
            ),
            _ => (l, Seq::empty()),
        },
        Message::ToggleGroup(key) => (
            ListView { collapsed: text_set::toggled(l.collapsed, key@), ..l },
            Seq::empty(),
        ),
        Message::SessionSelect(id) => (ListView { selected: Some(id@), ..l }, Seq::empty()),
        Message::SessionEnter(id) => (ListView { hovered: Some(id@), ..l }, Seq::empty()),
        Message::SessionExit(id) => if l.hovered == Some(id@) {
            (ListView { hovered: None, ..l }, Seq::empty())
        } else {
            (l, Seq::empty())
        },
        Message::SessionSelectHovered => if l.hovered is Some {
            (ListView { selected: l.hovered, ..l }, Seq::empty())
        } else {
            (l, Seq::empty())
        },
        Message::ConnectSession(id) => (l, seq![EventView::Connect(id@)]),
        Message::OpenFiles(id) => (l, seq![EventView::OpenFiles(id@)]),
        Message::ExportSessions => (l, seq![EventView::PickExportFile]),
        Message::ExportSessionsToFile(Some(path)) => (
            l,
            seq![
                EventView::Export(
                    path@,
                    store::exported(l.sessions),
                    l.sessions.len() as usize,
                ),
            ],
        ),
        Message::ExportSessionsToFile(None) => (l, Seq::empty()),
        Message::Exported(path, count, None) => (
            l,
            seq![
                EventView::Toast(
                    ToastKind::Success,
                    i18n::plain(
                        i18n::WordingView::Pair {
                            key: "app.exported"@,
                            first: text::decimal(count as nat),
                            second: local_path::shown(path@),
                        },
                    ),
                ),
            ],
        ),
        Message::Exported(_, _, Some(words)) => (
            l,
            seq![EventView::Toast(ToastKind::Error, entry_with("app.export_failed"@, words@))],
        ),
        Message::ImportSessions => (l, seq![EventView::PickImportFile]),
        Message::ImportSessionsFromFile(Some(path)) => (l, seq![EventView::Import(path@)]),
        Message::ImportSessionsFromFile(None) => (l, Seq::empty()),
        Message::Imported(Ok(list), clock) => {
            let after = ListView {
                sessions: imported(l.sessions, session::views(list@), clock@),
                ..l
            };
            (
                after,
                written(after, ctx, Purpose::Import).push(
                    EventView::Toast(
                        ToastKind::Success,
                        entry_with("app.imported"@, text::decimal(list@.len() as nat)),
                    ),
                ),
            )
        },
        Message::Imported(Err(words), _) => (
            l,
            seq![EventView::Toast(ToastKind::Error, entry_with("app.import_failed"@, words@))],
        ),
        Message::Written(Purpose::Delete, Some(words)) => (
            l,
            seq![EventView::Status(Some(entry_with("app.save_failed"@, words@)))],
        ),
        Message::Written(Purpose::Save, None) => (
            ListView { editor: None, ..l },
            seq![EventView::Status(Some(entry("app.session_saved"@)))],
        ),
        Message::Written(Purpose::Save, Some(words)) => (
            faulted(l, i18n::plain(i18n::WordingView::Verbatim("保存失败: "@ + words@))),
            Seq::empty(),
        ),
        Message::Written(_, _) => (l, Seq::empty()),
    }
}

/// Whether a message can be dealt with: what is to be sealed is short enough, and there is a
/// reading of the clock for each session that is taken in.
pub open spec fn acceptable(l: ListView, msg: Message) -> bool {
    match msg {
        Message::SaveSession => l.editor matches Some(d) ==> draft::sealable(d),
        Message::Imported(Ok(list), clock) => list@.len() <= clock@.len(),
        _ => true,
    }
}

/// One event.
fn only(e: Event) -> (r: Vec<Event>)
    ensures
        events_of(r@) == seq![e@],
{
    let mut events: Vec<Event> = Vec::new();
    events.push(e);
    assert(events_of(events@) =~= seq![e@]);
    events
}

/// No event.
fn none() -> (r: Vec<Event>)
    ensures
        events_of(r@) == Seq::<EventView>::empty(),
{
    let events: Vec<Event> = Vec::new();
    assert(events_of(events@) =~= Seq::<EventView>::empty());
    events
}

/// One more event.
fn push(events: &mut Vec<Event>, e: Event)
    ensures
        events_of(final(events)@) == events_of(old(events)@).push(e@),
{
    let ghost before = events_of(events@);
    events.push(e);
    assert(events_of(events@) =~= before.push(e@));
}

proof fn lemma_place(list: Seq<SessionView>, id: Seq<char>, n: int)
    requires
        0 <= n <= list.len(),
    ensures
        match place(list, id, n) {
            Some(i) => 0 <= i < n && list[i].id == id && forall|k: int|
                0 <= k < i ==> (#[trigger] list[k]).id != id,
            None => forall|k: int| 0 <= k < n ==> (#[trigger] list[k]).id != id,
        },
    decreases n,
{
    if n > 0 {
        lemma_place(list, id, n - 1);
    }
}

/// Where the first session with an id stands.
pub proof fn lemma_found(list: Seq<SessionView>, id: Seq<char>)
    ensures
        match found(list, id) {
            Some(i) => 0 <= i < list.len() && list[i].id == id && forall|k: int|
                0 <= k < i ==> (#[trigger] list[k]).id != id,
            None => forall|k: int| 0 <= k < list.len() ==> (#[trigger] list[k]).id != id,
        },
{
    lemma_place(list, id, list.len() as int);
}

/// The first session with an id.
pub(crate) fn find(list: &Vec<SessionConfig>, id: &str) -> (r: Option<usize>)
    ensures
        found(session::views(list@), id@) == (match r {
            Some(i) => Some(i as int),
            None => None,
        }),
{
    let ghost all = session::views(list@);
    let mut i: usize = 0;
    while i < list.len()
        invariant
            i <= list@.len(),
            all == session::views(list@),
            forall|k: int| 0 <= k < i ==> (#[trigger] all[k]).id != id@,
        decreases list@.len() - i,
    {
        assert(all[i as int] == list@[i as int]@);
        if text::same(list[i].id.as_str(), id) {
            proof {
                lemma_found(all, id@);
            }
            return Some(i);
        }
        i += 1;
    }
    proof {
        lemma_found(all, id@);
    }
    None
}

impl State {
    /// A list with these sessions.
    pub fn new(store: Option<SessionStore>, sessions: Vec<SessionConfig>) -> (r: State)
        ensures
            r@ == (ListView {
                store: opt_store(store),
                sessions: session::views(sessions@),
                hovered: None,
                selected: None,
                collapsed: Set::empty(),
                editor: None,
            }),
    {
        State {
            store,
            sessions,
            hovered_session: None,
            selected_session: None,
            collapsed_groups: TextSet::new(),
            editor: None,
        }
    }

    /// What is to be done to write the sessions.
    fn save(&self, ctx: &Ctx, purpose: Purpose) -> (r: Vec<Event>)
        ensures
            events_of(r@) == written(self@, ctx@, purpose),
    {
        if self.store.is_none() {
            return none();
        }
        match ctx.vault {
            None => if purpose == Purpose::Import {
                none()
            } else {
                only(Event::Status(Some(Text::entry("app.vault_locked"))))
            },
            Some(vault) => only(
                Event::Write(purpose, SessionStore::save(&self.sessions, vault.header())),
            ),
        }
    }

    /// A session takes the place of that of the same id, or comes behind the others.
    fn store_session(&mut self, cfg: SessionConfig)
        ensures
            final(self)@ == (ListView {
                sessions: stored(old(self)@.sessions, cfg@),
                ..old(self)@
            }),
    {
        let ghost before = self@.sessions;
        match find(&self.sessions, cfg.id.as_str()) {
            Some(i) => {
                proof {
                    lemma_found(before, cfg@.id);
                }
                self.sessions.set(i, cfg);
                assert(self@.sessions =~= before.update(i as int, cfg@));
            },
            None => {
                self.sessions.push(cfg);
                assert(self@.sessions =~= before.push(cfg@));
            },
        }
    }

    /// The editor shows what was wrong.
    fn fault(&mut self, t: Text)
        ensures
            final(self)@ == faulted(old(self)@, t@),
    {
        let mut editor: Option<EditorDraft> = None;
        std::mem::swap(&mut editor, &mut self.editor);
        if let Some(mut d) = editor {
            d.error = Some(t);
            self.editor = Some(d);
        }
        assert(self@ =~= faulted(old(self)@, t@));
    }

    /// The session that is edited is saved.
    fn save_session(&mut self, ctx: &Ctx) -> (r: Vec<Event>)
        requires
            old(self)@.editor matches Some(d) ==> draft::sealable(d),
        ensures
            (final(self)@, events_of(r@)) == saved(old(self)@, ctx@),
    {
        let vault = match ctx.vault {
            Some(v) => v,
            None => {
                self.fault(Text::entry("app.vault_locked"));
                return none();
            },
        };
        let built = match &self.editor {
            Some(d) => d.to_config_with(vault, ctx.nonce),
            None => {
                return none();
            },
        };
        match built {
            Err(t) => {
                self.fault(t);
                none()
            },
            Ok(cfg) => {
                self.store_session(cfg);
                if self.store.is_some() {
                    only(
                        Event::Write(
                            Purpose::Save,
                            SessionStore::save(&self.sessions, vault.header()),
                        ),
                    )
                } else {
                    self.editor = None;
                    only(Event::Status(Some(Text::entry("app.session_saved"))))
                }
            },
        }
    }

    /// The sessions of an id are taken out.
    fn delete(&mut self, id: &str)
        ensures
            final(self)@ == (ListView {
                sessions: without(old(self)@.sessions, id@),
                ..old(self)@
            }),
    {
        let ghost all = self@.sessions;
        let mut kept: Vec<SessionConfig> = Vec::new();
        let mut i: usize = 0;
        assert(all.take(0) =~= Seq::<SessionView>::empty());
        assert(session::views(kept@) =~= without(all.take(0), id@));
        while i < self.sessions.len()
            invariant
                i <= self.sessions@.len(),
                all == session::views(self.sessions@),
                *self == *old(self),
                session::views(kept@) == without(all.take(i as int), id@),
            decreases self.sessions@.len() - i,
        {
            let ghost before = session::views(kept@);
            if !text::same(self.sessions[i].id.as_str(), id) {
                kept.push(self.sessions[i].copied());
                assert(session::views(kept@) =~= before.push(all[i as int]));
            }
            i += 1;
            proof {
                assert(all.take(i as int).drop_last() =~= all.take(i - 1));
                assert(all.take(i as int).last() == all[i - 1]);
            }
        }
        assert(all.take(i as int) =~= all);
        self.sessions = kept;
    }

    /// Sessions are taken in behind the others.
    fn import(&mut self, list: Vec<SessionConfig>, clock: &Vec<u128>)
        requires
            list@.len() <= clock@.len(),
        ensures
            final(self)@ == (ListView {
                sessions: imported(old(self)@.sessions, session::views(list@), clock@),
                ..old(self)@
            }),
    {
        let ghost all = session::views(list@);
        let ghost first = self@.sessions;
        let mut i: usize = 0;
        assert(all.take(0) =~= Seq::<SessionView>::empty());
        while i < list.len()
            invariant
                i <= list@.len(),
                list@.len() <= clock@.len(),
                all == session::views(list@),
                self@ == (ListView {
                    sessions: imported(first, all.take(i as int), clock@),
                    ..old(self)@
                }),
            decreases list@.len() - i,
        {
            let ghost before = self@.sessions;
            let mut s = list[i].copied();
            if find(&self.sessions, s.id.as_str()).is_some() {
                s.id = session::new_id(clock[i]);
            }
            let ghost added = s@;
            self.sessions.push(s);
            i += 1;
            proof {
                assert(all.take(i as int).drop_last() =~= all.take(i - 1));
                assert(all.take(i as int).last() == all[i - 1]);
                assert(self@.sessions =~= before.push(added));
                let s = all[i - 1];
                if found(before, s.id) is Some {
                    assert(added =~= (SessionView { id: session::id_of(clock@[i - 1]), ..s }));
                } else {
                    assert(added =~= s);
                }
                assert(self@ =~= (ListView {
                    sessions: imported(first, all.take(i as int), clock@),
                    ..old(self)@
                }));
            }
        }
        assert(all.take(i as int) =~= all);
    }

    /// A field of the editor is changed.
    fn edit(&mut self, field: SessionField, value: String)
        ensures
            final(self)@ == (match old(self)@.editor {
                Some(d) => ListView {
                    editor: Some(DraftView { error: None, ..draft::edited(d, field, value@) }),
                    ..old(self)@
                },
                None => old(self)@,
            }),
    {
        let mut editor: Option<EditorDraft> = None;
        std::mem::swap(&mut editor, &mut self.editor);
        if let Some(mut d) = editor {
            d.apply_editor_field(field, value);
            d.error = None;
            self.editor = Some(d);
        }
        proof {
            if let Some(d) = old(self)@.editor {
                assert(self@.editor->0 =~= DraftView {
                    error: None,
                    ..draft::edited(d, field, value@)
                });
            }
        }
    }

    /// The list and the editor change, and what is to be done is told.
    pub fn update(&mut self, msg: Message, ctx: &Ctx) -> (r: Vec<Event>)
        requires
            acceptable(old(self)@, msg),
        ensures
            (final(self)@, events_of(r@)) == step(old(self)@, msg, ctx@),
    {
        match msg {
            Message::NewSession => {
                self.editor = Some(EditorDraft::new(ctx.nanos));
                none()
            },
            Message::EditSession(id) => {
                if let Some(i) = find(&self.sessions, id.as_str()) {
                    proof {
                        lemma_found(self@.sessions, id@);
                        assert(self@.sessions[i as int] == self.sessions@[i as int]@);
                    }
                    self.editor = Some(EditorDraft::from_config(&self.sessions[i]));
                }
                none()
            },
            Message::DeleteSession(id) => {
                self.delete(id.as_str());
                let mut rest = self.save(ctx, Purpose::Delete);
                let ghost behind = events_of(rest@);
                let mut events = only(Event::SessionDeleted(id));
                let ghost first = events_of(events@);
                let ghost (a, b) = (events@, rest@);
                events.append(&mut rest);
                assert(events_of(events@) =~= first + behind) by {
                    assert(events@ =~= a + b);
                }
                events
            },
            Message::SaveSession => self.save_session(ctx),
            Message::CancelEdit => {
                self.editor = None;
                none()
            },
            Message::RefreshSessions => if self.store.is_some() {
                only(Event::Load)
            } else {
                none()
            },
            Message::Loaded(Ok(list)) => {
                self.sessions = list;
                none()
            },
            Message::Loaded(Err(_)) => none(),
            Message::EditorField(field, value) => {
                self.edit(field, value);
                none()
            },
            Message::PickKeyFile => only(Event::PickKeyFile),
            Message::KeyFilePicked(path) => {
                if let Some(p) = path {
                    self.edit(SessionField::KeyPath, p);
                }
                none()
            },
            Message::ToggleGroup(key) => {
                self.collapsed_groups.toggle(key);
                none()
            },
            Message::SessionSelect(id) => {
                self.selected_session = Some(id);
                none()
            },
            Message::SessionEnter(id) => {
                self.hovered_session = Some(id);
                none()
            },
            Message::SessionExit(id) => {
                let leaves = match &self.hovered_session {
                    Some(h) => text::same(h.as_str(), id.as_str()),
                    None => false,
                };
                if leaves {
                    self.hovered_session = None;
                }
                none()
            },
            Message::SessionSelectHovered => {
                if self.hovered_session.is_some() {
                    self.selected_session = text::copied_opt(&self.hovered_session);
                }
                none()
            },
            Message::ConnectSession(id) => only(Event::Connect(id)),
            Message::OpenFiles(id) => only(Event::OpenFiles(id)),
            Message::ExportSessions => only(Event::PickExportFile),
            Message::ExportSessionsToFile(Some(path)) => {
                let count: usize = self.sessions.len();
                only(Event::Export(path, store::export_sessions(&self.sessions), count))
            },
            Message::ExportSessionsToFile(None) => none(),
            Message::Exported(path, count, None) => only(
                Event::Toast(
                    ToastKind::Success,
                    Text::pair("app.exported", text::to_decimal(count as u128), path.shown()),
                ),
            ),
            Message::Exported(_, _, Some(words)) => only(
                Event::Toast(ToastKind::Error, Text::entry_with("app.export_failed", words)),
            ),
            Message::ImportSessions => only(Event::PickImportFile),
            Message::ImportSessionsFromFile(Some(path)) => only(Event::Import(path)),
            Message::ImportSessionsFromFile(None) => none(),
            Message::Imported(Ok(list), clock) => {
                let count: usize = list.len();
                self.import(list, &clock);
                let mut events = self.save(ctx, Purpose::Import);
                push(
                    &mut events,
                    Event::Toast(
                        ToastKind::Success,
                        Text::entry_with("app.imported", text::to_decimal(count as u128)),
                    ),
                );
                events
            },
            Message::Imported(Err(words), _) => only(
                Event::Toast(ToastKind::Error, Text::entry_with("app.import_failed", words)),
            ),
            Message::Written(Purpose::Delete, Some(words)) => only(
                Event::Status(Some(Text::entry_with("app.save_failed", words))),
            ),
            Message::Written(Purpose::Save, None) => {
                self.editor = None;
                only(Event::Status(Some(Text::entry("app.session_saved"))))
            },
            Message::Written(Purpose::Save, Some(words)) => {
                self.fault(Text::verbatim(text::concat("保存失败: ", words.as_str())));
                none()
            },
            Message::Written(_, _) => none(),
        }
    }
}

} // verus!
