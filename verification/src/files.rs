//! The files of the tabs: where each tab is, what is there, and what is done with it.

use crate::i18n::{Text, TextView, ToastKind, Wording};
use crate::i18n;
use crate::local_path::LocalPath;
use crate::model::{self, EntryView, FileEntry};
use crate::tasks;
use crate::text;
use crate::transfer::UploadItem;
use std::collections::HashMap;
use vstd::prelude::*;

pub mod laws;

verus! {

/// What the user is asked about files.
#[derive(Debug)]
pub enum SftpDialog {
    /// Whether this is to be deleted.
    Delete {
        /// Its name.
        name: String,
        /// Whether it is a directory.
        is_dir: bool,
    },
    /// Whether a local file is to be written over by a download.
    OverwriteDownload {
        /// The name of the remote file.
        name: String,
        /// The local file.
        local: LocalPath,
    },
    /// Nothing; this is shown.
    Properties {
        /// What is shown.
        entry: FileEntry,
        /// Where it is.
        path: String,
    },
}

/// What a [`SftpDialog`] holds.
pub enum DialogView {
    /// Whether this is to be deleted.
    Delete {
        /// Its name.
        name: Seq<char>,
        /// Whether it is a directory.
        is_dir: bool,
    },
    /// Whether a local file is to be written over by a download.
    OverwriteDownload {
        /// The name of the remote file.
        name: Seq<char>,
        /// The local file.
        local: Seq<u8>,
    },
    /// Nothing; this is shown.
    Properties {
        /// What is shown.
        entry: EntryView,
        /// Where it is.
        path: Seq<char>,
    },
}

impl View for SftpDialog {
    type V = DialogView;

    open spec fn view(&self) -> DialogView {
        match *self {
            SftpDialog::Delete { name, is_dir } => DialogView::Delete { name: name@, is_dir },
            SftpDialog::OverwriteDownload { name, local } => DialogView::OverwriteDownload {
                name: name@,
                local: local@,
            },
            SftpDialog::Properties { entry, path } => DialogView::Properties {
                entry: entry@,
                path: path@,
            },
        }
    }
}

/// The files of a tab.
#[derive(Debug)]
pub struct SftpView {
    /// The session whose files are shown, once they are.
    pub session: Option<String>,
    /// The handle of the channel, once there is one.
    pub client: Option<u64>,
    /// The directory.
    pub path: String,
    /// What is typed as the directory.
    pub path_input: String,
    /// What is in the directory.
    pub entries: Vec<FileEntry>,
    /// What is selected.
    pub selected: Option<String>,
    /// What the pointer is over.
    pub hovered: Option<String>,
    /// What the user is asked.
    pub dialog: Option<SftpDialog>,
    /// The name of the directory that is being made.
    pub creating_dir: Option<String>,
    /// The name of what is being renamed, and the name it is to have.
    pub renaming: Option<(String, String)>,
    /// Whether the directory is being read.
    pub busy: bool,
}

/// What a [`SftpView`] holds.
#[verifier::ext_equal]
pub struct PaneView {
    /// The session whose files are shown.
    pub session: Option<Seq<char>>,
    /// The handle of the channel.
    pub client: Option<u64>,
    /// The directory.
    pub path: Seq<char>,
    /// What is typed as the directory.
    pub path_input: Seq<char>,
    /// What is in the directory.
    pub entries: Seq<EntryView>,
    /// What is selected.
    pub selected: Option<Seq<char>>,
    /// What the pointer is over.
    pub hovered: Option<Seq<char>>,
    /// What the user is asked.
    pub dialog: Option<DialogView>,
    /// The name of the directory that is being made.
    pub creating_dir: Option<Seq<char>>,
    /// The name of what is being renamed, and the name it is to have.
    pub renaming: Option<(Seq<char>, Seq<char>)>,
    /// Whether the directory is being read.
    pub busy: bool,
}

impl View for SftpView {
    type V = PaneView;

    open spec fn view(&self) -> PaneView {
        PaneView {
            session: text::opt(self.session),
            client: self.client,
            path: self.path@,
            path_input: self.path_input@,
            entries: model::entries(self.entries@),
            selected: text::opt(self.selected),
            hovered: text::opt(self.hovered),
            dialog: match self.dialog {
                Some(d) => Some(d@),
                None => None,
            },
            creating_dir: text::opt(self.creating_dir),
            renaming: match self.renaming {
                Some((a, b)) => Some((a@, b@)),
                None => None,
            },
            busy: self.busy,
        }
    }
}

/// The files of a tab that shows none yet.
pub open spec fn blank() -> PaneView {
    PaneView {
        session: None,
        client: None,
        path: "."@,
        path_input: "."@,
        entries: Seq::empty(),
        selected: None,
        hovered: None,
        dialog: None,
        creating_dir: None,
        renaming: None,
        busy: false,
    }
}

impl Default for SftpView {
    fn default() -> (r: SftpView)
        ensures
            r@ == blank(),
    {
        let r = SftpView {
            session: None,
            client: None,
            path: ".".to_owned(),
            path_input: ".".to_owned(),
            entries: Vec::new(),
            selected: None,
            hovered: None,
            dialog: None,
            creating_dir: None,
            renaming: None,
            busy: false,
        };
        assert(r@ =~= blank());
        r
    }
}

/// What is done on the other side.
#[derive(Debug, Clone, Copy, PartialEq, Eq, Structural)]
pub enum WriteOp {
    /// A directory is made.
    MakeDir,
    /// Something is given another name.
    Rename,
    /// Something is deleted.
    Delete,
}

/// What is asked of the files, and what came of what was to be done.
pub enum Message {
    /// The channel of a tab for a session is open, or why it is not.
    SftpReady(u64, String, Result<u64, Wording>),
    /// The files of a session are to be shown in a tab: over the channel that it has, or over one
    /// on this connection.
    SftpOpenSession(u64, String, Option<u64>, Option<u64>),
    /// A directory is to be shown.
    SftpCd(String),
    /// The directory above is to be shown.
    SftpParent,
    /// The directory is typed.
    SftpPathInput(String),
    /// The directory of a tab was read, under this path, or why it was not.
    SftpListed(u64, String, Result<Vec<FileEntry>, Wording>),
    /// This is selected.
    SftpSelect(String),
    /// What is under the pointer is selected.
    SftpSelectHovered,
    /// The pointer comes over this.
    SftpEntryEnter(String),
    /// The pointer leaves this.
    SftpEntryExit(String),
    /// Files to upload are to be picked.
    SftpPickUpload,
    /// Directories to upload are to be picked.
    SftpPickUploadFolder,
    /// Files to upload were picked, or not.
    SftpUploadPicked(Option<Vec<UploadItem>>),
    /// A place to download this to is to be picked.
    SftpPickDownload(String),
    /// This is to be downloaded to a local file, which may be there already.
    SftpDownload(String, LocalPath, bool),
    /// The work of a tab is done.
    SftpActionDone(u64),
    /// The user is to be asked whether to delete this.
    SftpDeleteConfirm(String),
    /// This is to be shown in detail.
    SftpShowProperties(String),
    /// A path is to be copied.
    SftpCopyPath(String),
    /// The directory of the terminal is to be shown, where it is known.
    SftpGotoTerminalDir(Option<String>),
    /// Nothing.
    SftpNoop,
    /// A directory is to be made.
    SftpNewDirConfirm,
    /// The name of the directory is typed.
    SftpNewDirInput(String),
    /// The directory is to be made under the name that was typed.
    SftpNewDirSubmit,
    /// This is to be renamed.
    SftpRenameConfirm(String),
    /// The name is typed.
    SftpRenameInput(String),
    /// The name that was typed is to be given.
    SftpRenameSubmit,
    /// What is selected is to be renamed.
    SftpRenameShortcut,
    /// Something was written on the other side while this directory was shown, or why it was not.
    SftpWritten(WriteOp, String, Option<Wording>),
    /// The user agrees to what was asked.
    SftpDialogConfirm,
    /// The user puts away what was asked or typed.
    SftpCancelDialog,
}

/// What is to be done.
pub enum Event {
    /// The user is to be told.
    Toast(ToastKind, Text),
    /// These are to be uploaded.
    StartUpload(Vec<UploadItem>),
    /// This is to be downloaded to a local file.
    StartDownload(String, LocalPath),
    /// What is typed goes to the terminal.
    FocusTerminal,
    /// The directory of a tab is to be read over a channel.
    List(u64, u64, String),
    /// A channel for a tab and a session is to be opened on a connection.
    OpenChannel(u64, String, u64),
    /// A directory is to be made over a channel, while this one is shown.
    MakeDir(u64, String, String),
    /// A path is to become another one over a channel, while this directory is shown.
    Rename(u64, String, String, String),
    /// A path is to be deleted over a channel, a directory or not, while this one is shown.
    Delete(u64, String, bool, String),
    /// A text is to be copied.
    Copy(String),
    /// The user is to pick files to upload.
    PickUpload,
    /// The user is to pick directories to upload.
    PickUploadFolder,
    /// The user is to pick a place to download this to.
    PickDownload(String),
}

/// What an [`Event`] holds.
pub enum EventView {
    /// The user is to be told.
    Toast(ToastKind, TextView),
    /// These are to be uploaded.
    StartUpload(Seq<UploadItem>),
    /// This is to be downloaded to a local file.
    StartDownload(Seq<char>, Seq<u8>),
    /// What is typed goes to the terminal.
    FocusTerminal,
    /// The directory of a tab is to be read over a channel.
    List(u64, u64, Seq<char>),
    /// A channel for a tab and a session is to be opened on a connection.
    OpenChannel(u64, Seq<char>, u64),
    /// A directory is to be made over a channel.
    MakeDir(u64, Seq<char>, Seq<char>),
    /// A path is to become another one over a channel.
    Rename(u64, Seq<char>, Seq<char>, Seq<char>),
    /// A path is to be deleted over a channel.
    Delete(u64, Seq<char>, bool, Seq<char>),
    /// A text is to be copied.
    Copy(Seq<char>),
    /// The user is to pick files to upload.
    PickUpload,
    /// The user is to pick directories to upload.
    PickUploadFolder,
    /// The user is to pick a place to download this to.
    PickDownload(Seq<char>),
}

impl View for Event {
    type V = EventView;

    open spec fn view(&self) -> EventView {
        match *self {
            Event::Toast(kind, t) => EventView::Toast(kind, t@),
            Event::StartUpload(items) => EventView::StartUpload(items@),
            Event::StartDownload(name, local) => EventView::StartDownload(name@, local@),
            Event::FocusTerminal => EventView::FocusTerminal,
            Event::List(tab, client, path) => EventView::List(tab, client, path@),
            Event::OpenChannel(tab, session, conn) => EventView::OpenChannel(tab, session@, conn),
            Event::MakeDir(client, path, back) => EventView::MakeDir(client, path@, back@),
            Event::Rename(client, from, to, back) => EventView::Rename(client, from@, to@, back@),
            Event::Delete(client, path, is_dir, back) => EventView::Delete(
                client,
                path@,
                is_dir,
                back@,
            ),
            Event::Copy(t) => EventView::Copy(t@),
            Event::PickUpload => EventView::PickUpload,
            Event::PickUploadFolder => EventView::PickUploadFolder,
            Event::PickDownload(name) => EventView::PickDownload(name@),
        }
    }
}

/// What a list of events holds.
pub open spec fn events_of(list: Seq<Event>) -> Seq<EventView> {
    Seq::new(list.len(), |i: int| list[i]@)
}

/// The files of the tabs.
pub struct State {
    per_tab: HashMap<u64, SftpView>,
}

impl View for State {
    type V = Map<u64, PaneView>;

    closed spec fn view(&self) -> Map<u64, PaneView> {
        self.per_tab@.map_values(|v: SftpView| v@)
    }
}

/// An error told to the user, after what was being done.
pub open spec fn failed(occasion: Seq<char>, e: Wording) -> EventView {
    EventView::Toast(ToastKind::Error, i18n::prefixed(i18n::entry(occasion), e@))
}

/// That there is no connection, told to the user.
pub open spec fn not_connected() -> EventView {
    EventView::Toast(ToastKind::Error, i18n::plain(i18n::entry("sftp.not_connected"@)))
}

/// What is said where something that was done on the other side failed.
pub open spec fn occasion(op: WriteOp) -> Seq<char> {
    match op {
        WriteOp::MakeDir => "sftp.mkdir_failed"@,
        WriteOp::Rename => "sftp.rename_failed"@,
        WriteOp::Delete => "sftp.delete_failed"@,
    }
}

/// The files of a tab; one without any shows none yet.
pub open spec fn pane(m: Map<u64, PaneView>, tab: u64) -> PaneView {
    if m.contains_key(tab) {
        m[tab]
    } else {
        blank()
    }
}

/// A directory is shown in a tab. It is read where there is a channel; where there is none, that
/// is told.
pub open spec fn moved(m: Map<u64, PaneView>, tab: u64, path: Seq<char>) -> (
    Map<u64, PaneView>,
    Seq<EventView>,
) {
    if m.contains_key(tab) {
        let p = m[tab];
        let after = m.insert(
            tab,
            PaneView { path, path_input: path, entries: Seq::empty(), ..p },
        );
        match p.client {
            Some(c) => (after, seq![EventView::List(tab, c, path)]),
            None => (after, seq![not_connected()]),
        }
    } else {
        (m, seq![not_connected()])
    }
}

/// The directory of a tab was read, or not.
pub open spec fn listed(
    m: Map<u64, PaneView>,
    tab: u64,
    path: Seq<char>,
    result: Result<Vec<FileEntry>, Wording>,
) -> (Map<u64, PaneView>, Seq<EventView>) {
    let after = if m.contains_key(tab) {
        let p = PaneView { path, path_input: path, busy: false, ..m[tab] };
        m.insert(
            tab,
            match result {
                Ok(list) => PaneView { entries: model::entries(list@), ..p },
                Err(_) => p,
            },
        )
    } else {
        m
    };
    match result {
        Ok(_) => (after, Seq::empty()),
        Err(e) => (after, seq![failed("sftp.list_failed"@, e)]),
    }
}

/// The files of a session are shown in a tab.
pub open spec fn opened(
    m: Map<u64, PaneView>,
    tab: u64,
    session: Seq<char>,
    client: Option<u64>,
    conn: Option<u64>,
) -> (Map<u64, PaneView>, Seq<EventView>) {
    let p = pane(m, tab);
    let after = m.insert(
        tab,
        PaneView {
            session: Some(session),
            path: "."@,
            path_input: "."@,
            creating_dir: None,
            renaming: None,
            entries: Seq::empty(),
            busy: p.busy || client is Some || conn is Some,
            ..p
        },
    );
    match (client, conn) {
        (Some(c), _) => (after, seq![EventView::List(tab, c, "."@)]),
        (None, Some(conn)) => (after, seq![EventView::OpenChannel(tab, session, conn)]),
        (None, None) => (after, Seq::empty()),
    }
}

/// The place of the first entry of a name among the first `n`.
pub open spec fn place(list: Seq<EntryView>, name: Seq<char>, n: int) -> Option<int>
    decreases n,
{
    if n <= 0 {
        None
    } else {
        match place(list, name, n - 1) {
            Some(i) => Some(i),
            None => if list[n - 1].name == name {
                Some(n - 1)
            } else {
                None
            },
        }
    }
}

/// What becomes of a tab's files where only they are concerned, and what is to be done.
pub open spec fn pane_step(p: PaneView, msg: Message) -> (PaneView, Seq<EventView>) {
    match msg {
        Message::SftpPathInput(v) => (PaneView { path_input: v@, ..p }, Seq::empty()),
        Message::SftpSelect(name) => (PaneView { selected: Some(name@), ..p }, Seq::empty()),
        Message::SftpSelectHovered => if p.hovered is Some {
            (PaneView { selected: p.hovered, ..p }, Seq::empty())
        } else {
            (p, Seq::empty())
        },
        Message::SftpEntryEnter(name) => (PaneView { hovered: Some(name@), ..p }, Seq::empty()),
        Message::SftpEntryExit(_) => (PaneView { hovered: None, ..p }, Seq::empty()),
        Message::SftpNewDirConfirm => (
            PaneView { creating_dir: Some("New Folder"@), ..p },
            Seq::empty(),
        ),
        Message::SftpNewDirInput(v) => (PaneView { creating_dir: Some(v@), ..p }, Seq::empty()),
        Message::SftpNewDirSubmit => {
            let after = PaneView { creating_dir: None, ..p };
            match p.creating_dir {
                Some(name) => if text::trimmed(name).len() == 0 {
                    (after, Seq::empty())
                } else {
                    match p.client {
                        Some(c) => (
                            after,
                            seq![EventView::MakeDir(c, tasks::join(p.path, name), p.path)],
                        ),
                        None => (after, seq![not_connected()]),
                    }
                },
                None => (after, Seq::empty()),
            }
        },
        Message::SftpRenameConfirm(name) => (
            PaneView { renaming: Some((name@, name@)), ..p },
            Seq::empty(),
        ),
        Message::SftpRenameInput(v) => match p.renaming {
            Some((from, _)) => (PaneView { renaming: Some((from, v@)), ..p }, Seq::empty()),
            None => (p, Seq::empty()),
        },
        Message::SftpRenameSubmit => {
            let after = PaneView { renaming: None, ..p };
            match p.renaming {
                Some((from, to)) => if text::trimmed(to).len() == 0 || to == from {
                    (after, Seq::empty())
                } else {
                    match p.client {
                        Some(c) => (
                            after,
                            seq![
                                EventView::Rename(
                                    c,
                                    tasks::join(p.path, from),
                                    tasks::join(p.path, to),
                                    p.path,
                                ),
                            ],
                        ),
                        None => (after, seq![not_connected()]),
                    }
                },
                None => (after, Seq::empty()),
            }
        },
        Message::SftpRenameShortcut => match p.selected {
            Some(name) => (PaneView { renaming: Some((name, name)), ..p }, Seq::empty()),
            None => (p, Seq::empty()),
        },
        Message::SftpCancelDialog => if p.renaming is Some {
            (PaneView { renaming: None, ..p }, seq![EventView::FocusTerminal])
        } else if p.creating_dir is Some {
            (PaneView { creating_dir: None, ..p }, seq![EventView::FocusTerminal])
        } else {
            (PaneView { dialog: None, ..p }, Seq::empty())
        },
        Message::SftpDialogConfirm => {
            let after = PaneView { dialog: None, ..p };
            match p.dialog {
                Some(DialogView::Delete { name, is_dir }) => match p.client {
                    Some(c) => (
                        after,
                        seq![EventView::Delete(c, tasks::join(p.path, name), is_dir, p.path)],
                    ),
                    None => (after, seq![not_connected()]),
                },
                Some(DialogView::OverwriteDownload { name, local }) => (
                    after,
                    seq![EventView::StartDownload(name, local)],
                ),
                Some(DialogView::Properties { .. }) => (after, Seq::empty()),
                None => (after, Seq::empty()),
            }
        },
        Message::SftpDeleteConfirm(name) => (
            PaneView { dialog: Some(DialogView::Delete { name: name@, is_dir: false }), ..p },
            Seq::empty(),
        ),
        Message::SftpShowProperties(name) => match place(
            p.entries,
            name@,
            p.entries.len() as int,
        ) {
            Some(i) => (
                PaneView {
                    dialog: Some(
                        DialogView::Properties {
                            entry: p.entries[i],
                            path: tasks::join(p.path, name@),
                        },
                    ),
                    ..p
                },
                Seq::empty(),
            ),
            None => (p, Seq::empty()),
        },
        Message::SftpDownload(name, local, true) => (
            PaneView {
                dialog: Some(DialogView::OverwriteDownload { name: name@, local: local@ }),
                ..p
            },
            Seq::empty(),
        ),
        _ => (p, Seq::empty()),
    }
}

/// What becomes of the files of the tabs, and what is to be done. `active` is the tab shown.
pub open spec fn step(m: Map<u64, PaneView>, msg: Message, active: u64) -> (
    Map<u64, PaneView>,
    Seq<EventView>,
) {
    match msg {
        Message::SftpReady(tab, _, Ok(client)) => (
            m.insert(tab, PaneView { client: Some(client), busy: true, ..pane(m, tab) }),
            seq![EventView::List(tab, client, "."@)],
        ),
        Message::SftpReady(tab, _, Err(e)) => (
            m.insert(tab, PaneView { client: None, busy: false, ..pane(m, tab) }),
            seq![failed("sftp.list_failed"@, e)],
        ),
        Message::SftpOpenSession(tab, session, client, conn) => opened(
            m,
            tab,
            session@,
            client,
            conn,
        ),
        Message::SftpListed(tab, path, result) => listed(m, tab, path@, result),
        Message::SftpCd(path) => moved(m, active, path@),
        Message::SftpParent => moved(
            m,
            active,
            if m.contains_key(active) {
                tasks::parent(m[active].path)
            } else {
                "."@
            },
        ),
        Message::SftpGotoTerminalDir(Some(path)) => moved(m, active, path@),
        Message::SftpGotoTerminalDir(None) => (
            m,
            seq![
                EventView::Toast(
                    ToastKind::Error,
                    i18n::plain(i18n::entry("sftp.cwd_unavailable"@)),
                ),
            ],
        ),
        Message::SftpWritten(_, back, None) => moved(m, active, back@),
        Message::SftpWritten(op, _, Some(e)) => (m, seq![failed(occasion(op), e)]),
        Message::SftpActionDone(tab) => if m.contains_key(tab) {
            (m.insert(tab, PaneView { busy: false, ..m[tab] }), Seq::empty())
        } else {
            (m, Seq::empty())
        },
        Message::SftpCopyPath(path) => (
            m,
            seq![
                EventView::Copy(path@),
                EventView::Toast(
                    ToastKind::Success,
                    i18n::plain(i18n::WordingView::Verbatim("已复制路径"@)),
                ),
            ],
        ),
        Message::SftpNoop => (m, Seq::empty()),
        Message::SftpPickUpload => (m, seq![EventView::PickUpload]),
        Message::SftpPickUploadFolder => (m, seq![EventView::PickUploadFolder]),
        Message::SftpUploadPicked(Some(items)) => (m, seq![EventView::StartUpload(items@)]),
        Message::SftpUploadPicked(None) => (m, Seq::empty()),
        Message::SftpPickDownload(name) => (m, seq![EventView::PickDownload(name@)]),
        Message::SftpDownload(name, local, false) => (
            m,
            seq![EventView::StartDownload(name@, local@)],
        ),
        _ => if m.contains_key(active) {
            let (p, events) = pane_step(m[active], msg);
            (m.insert(active, p), events)
        } else {
            (m, Seq::empty())
        },
    }
}

/// One event.
fn only(e: Event) -> (r: Vec<Event>)
    ensures
        events_of(r@) == seq![e@],
{
    let mut events: Vec<Event> = Vec::new();
    events.push(e);
    assert(events_of(events@) =~= seq![e@]);
    events
}

/// No event.
fn none() -> (r: Vec<Event>)
    ensures
        events_of(r@) == Seq::<EventView>::empty(),
{
    let events: Vec<Event> = Vec::new();
    assert(events_of(events@) =~= Seq::<EventView>::empty());
    events
}

/// An error is told to the user, after what was being done.
fn fail(occasion: &'static str, e: Wording) -> (r: Vec<Event>)
    ensures
        events_of(r@) == seq![failed(occasion@, e)],
{
    let t = Text { prefix: Some(Wording::entry(occasion)), body: e };
    only(Event::Toast(ToastKind::Error, t))
}

/// That there is no connection is told to the user.
fn unconnected() -> (r: Vec<Event>)
    ensures
        events_of(r@) == seq![not_connected()],
{
    only(Event::Toast(ToastKind::Error, Text::entry("sftp.not_connected")))
}

pub proof fn lemma_place(list: Seq<EntryView>, name: Seq<char>, n: int)
    requires
        0 <= n <= list.len(),
    ensures
        match place(list, name, n) {
            Some(i) => 0 <= i < n && list[i].name == name && forall|k: int|
                0 <= k < i ==> (#[trigger] list[k]).name != name,
            None => forall|k: int| 0 <= k < n ==> (#[trigger] list[k]).name != name,
        },
    decreases n,
{
    if n > 0 {
        lemma_place(list, name, n - 1);
    }
}

impl SftpView {
    /// The first entry of a name.
    fn find(&self, name: &str) -> (r: Option<usize>)
        ensures
            place(self@.entries, name@, self@.entries.len() as int) == (match r {
                Some(i) => Some(i as int),
                None => None,
            }),
            r matches Some(i) ==> i < self.entries@.len(),
    {
        let ghost all = self@.entries;
        let mut i: usize = 0;
        while i < self.entries.len()
            invariant
                i <= self.entries@.len(),
                all == model::entries(self.entries@),
                forall|k: int| 0 <= k < i ==> (#[trigger] all[k]).name != name@,
            decreases self.entries@.len() - i,
        {
            assert(all[i as int] == self.entries@[i as int]@);
            if text::same(self.entries[i].name.as_str(), name) {
                proof {
                    lemma_place(all, name@, all.len() as int);
                }
                return Some(i);
            }
            i += 1;
        }
        proof {
            lemma_place(all, name@, all.len() as int);
        }
        None
    }

    /// The name of a new directory is submitted.
    fn new_dir_submit(&mut self) -> (r: Vec<Event>)
        ensures
            (final(self)@, events_of(r@)) == pane_step(old(self)@, Message::SftpNewDirSubmit),
    {
        let mut name: Option<String> = None;
        std::mem::swap(&mut name, &mut self.creating_dir);
        let name = match name {
            Some(name) => name,
            None => {
                return none();
            },
        };
        if text::is_blank(name.as_str()) {
            return none();
        }
        match self.client {
            Some(c) => {
                let path = tasks::join_path(self.path.as_str(), name.as_str());
                only(Event::MakeDir(c, path, self.path.clone()))
            },
            None => unconnected(),
        }
    }

    /// A new name is submitted.
    fn rename_submit(&mut self) -> (r: Vec<Event>)
        ensures
            (final(self)@, events_of(r@)) == pane_step(old(self)@, Message::SftpRenameSubmit),
    {
        let mut renaming: Option<(String, String)> = None;
        std::mem::swap(&mut renaming, &mut self.renaming);
        let (from, to) = match renaming {
            Some(pair) => pair,
            None => {
                return none();
            },
        };
        if text::is_blank(to.as_str()) || text::same(to.as_str(), from.as_str()) {
            return none();
        }
        match self.client {
            Some(c) => {
                let a = tasks::join_path(self.path.as_str(), from.as_str());
                let b = tasks::join_path(self.path.as_str(), to.as_str());
                only(Event::Rename(c, a, b, self.path.clone()))
            },
            None => unconnected(),
        }
    }

    /// The user agrees to what was asked.
    fn dialog_confirm(&mut self) -> (r: Vec<Event>)
        ensures
            (final(self)@, events_of(r@)) == pane_step(old(self)@, Message::SftpDialogConfirm),
    {
        let mut dialog: Option<SftpDialog> = None;
        std::mem::swap(&mut dialog, &mut self.dialog);
        match dialog {
            Some(SftpDialog::Delete { name, is_dir }) => match self.client {
                Some(c) => {
                    let path = tasks::join_path(self.path.as_str(), name.as_str());
                    only(Event::Delete(c, path, is_dir, self.path.clone()))
                },
                None => unconnected(),
            },
            Some(SftpDialog::OverwriteDownload { name, local }) => only(
                Event::StartDownload(name, local),
            ),
            Some(SftpDialog::Properties { .. }) => none(),
            None => none(),
        }
    }

    /// The user puts away what was asked or typed.
    fn cancel_dialog(&mut self) -> (r: Vec<Event>)
        ensures
            (final(self)@, events_of(r@)) == pane_step(old(self)@, Message::SftpCancelDialog),
    {
        if self.renaming.is_some() {
            self.renaming = None;
            only(Event::FocusTerminal)
        } else if self.creating_dir.is_some() {
            self.creating_dir = None;
            only(Event::FocusTerminal)
        } else {
            self.dialog = None;
            none()
        }
    }

    /// The files of a tab change where only they are concerned.
    fn update(&mut self, msg: Message) -> (r: Vec<Event>)
        ensures
            (final(self)@, events_of(r@)) == pane_step(old(self)@, msg),
    {
        match msg {
            Message::SftpPathInput(v) => {
                self.path_input = v;
                none()
            },
            Message::SftpSelect(name) => {
                self.selected = Some(name);
                none()
            },
            Message::SftpSelectHovered => {
                if self.hovered.is_some() {
                    self.selected = text::copied_opt(&self.hovered);
                }
                none()
            },
            Message::SftpEntryEnter(name) => {
                self.hovered = Some(name);
                none()
            },
            Message::SftpEntryExit(_) => {
                self.hovered = None;
                none()
            },
            Message::SftpNewDirConfirm => {
                self.creating_dir = Some("New Folder".to_owned());
                none()
            },
            Message::SftpNewDirInput(v) => {
                self.creating_dir = Some(v);
                none()
            },
            Message::SftpNewDirSubmit => self.new_dir_submit(),
            Message::SftpRenameConfirm(name) => {
                self.renaming = Some((name.clone(), name));
                none()
            },
            Message::SftpRenameInput(v) => {
                let mut renaming: Option<(String, String)> = None;
                std::mem::swap(&mut renaming, &mut self.renaming);
                if let Some((from, _)) = renaming {
                    self.renaming = Some((from, v));
                }
                none()
            },
            Message::SftpRenameSubmit => self.rename_submit(),
            Message::SftpRenameShortcut => {
                let selected = text::copied_opt(&self.selected);
                if let Some(name) = selected {
                    self.renaming = Some((name.clone(), name));
                }
                none()
            },
            Message::SftpCancelDialog => self.cancel_dialog(),
            Message::SftpDialogConfirm => self.dialog_confirm(),
            Message::SftpDeleteConfirm(name) => {
                self.dialog = Some(SftpDialog::Delete { name, is_dir: false });
                none()
            },
            Message::SftpShowProperties(name) => {
                if let Some(i) = self.find(name.as_str()) {
                    assert(self@.entries[i as int] == self.entries@[i as int]@);
                    let entry = self.entries[i].copied();
                    let path = tasks::join_path(self.path.as_str(), name.as_str());
                    self.dialog = Some(SftpDialog::Properties { entry, path });
                }
                none()
            },
            Message::SftpDownload(name, local, true) => {
                self.dialog = Some(SftpDialog::OverwriteDownload { name, local });
                none()
            },
            _ => none(),
        }
    }
}

impl Default for State {
    fn default() -> (r: State)
        ensures
            r@ == Map::<u64, PaneView>::empty(),
    {
        State::new()
    }
}

impl State {
    /// No tabs.
    pub fn new() -> (r: State)
        ensures
            r@ == Map::<u64, PaneView>::empty(),
    {
        let r = State { per_tab: HashMap::new() };
        assert(r@ =~= Map::<u64, PaneView>::empty());
        r
    }

    /// The files of a tab.
    pub fn tab(&self, id: u64) -> (r: Option<&SftpView>)
        ensures
            match r {
                Some(v) => self@.contains_key(id) && v@ == self@[id],
                None => !self@.contains_key(id),
            },
    {
        broadcast use vstd::std_specs::hash::group_hash_axioms;

        self.per_tab.get(&id)
    }

    /// The files of the tab shown.
    pub fn active(&self, active_tab: Option<u64>) -> (r: Option<&SftpView>)
        ensures
            match r {
                Some(v) => active_tab is Some && self@.contains_key(active_tab->0) && v@
                    == self@[active_tab->0],
                None => active_tab is None || !self@.contains_key(active_tab->0),
            },
    {
        match active_tab {
            Some(id) => self.tab(id),
            None => None,
        }
    }

    /// The files of a tab are taken out.
    fn take(&mut self, id: u64) -> (r: Option<SftpView>)
        ensures
            final(self)@ == old(self)@.remove(id),
            match r {
                Some(v) => old(self)@.contains_key(id) && v@ == old(self)@[id],
                None => !old(self)@.contains_key(id),
            },
    {
        broadcast use vstd::std_specs::hash::group_hash_axioms;

        let r = self.per_tab.remove(&id);
        assert(self@ =~= old(self)@.remove(id));
        r
    }

    /// The files of a tab are put in.
    fn put(&mut self, id: u64, v: SftpView)
        ensures
            final(self)@ == old(self)@.insert(id, v@),
    {
        broadcast use vstd::std_specs::hash::group_hash_axioms;

        self.per_tab.insert(id, v);
        assert(self@ =~= old(self)@.insert(id, v@));
    }

    /// A tab shows files from now on, if it did not.
    pub fn ensure(&mut self, id: u64)
        ensures
            final(self)@ == old(self)@.insert(id, pane(old(self)@, id)),
    {
        let v = self.take_or_blank(id);
        self.put(id, v);
        assert(self@ =~= old(self)@.insert(id, pane(old(self)@, id)));
    }

    /// The files of a tab are taken out; one without any shows none yet.
    fn take_or_blank(&mut self, id: u64) -> (r: SftpView)
        ensures
            final(self)@ == old(self)@.remove(id),
            r@ == pane(old(self)@, id),
    {
        match self.take(id) {
            Some(v) => v,
            None => SftpView::default(),
        }
    }

    /// The channel of a tab is open.
    pub fn set_connection(&mut self, id: u64, client: u64)
        ensures
            final(self)@ == old(self)@.insert(
                id,
                PaneView { client: Some(client), ..pane(old(self)@, id) },
            ),
    {
        let mut v = self.take_or_blank(id);
        v.client = Some(client);
        self.put(id, v);
        assert(self@ =~= old(self)@.insert(
            id,
            PaneView { client: Some(client), ..pane(old(self)@, id) },
        ));
    }

    /// The session whose files a tab shows.
    pub fn tab_session(&self, id: u64) -> (r: Option<String>)
        ensures
            text::opt(r) == (if self@.contains_key(id) {
                self@[id].session
            } else {
                None
            }),
    {
        match self.tab(id) {
            Some(v) => text::copied_opt(&v.session),
            None => None,
        }
    }

    /// The directory of a tab is to be read again, where there is a channel.
    pub fn refresh(&self, id: u64) -> (r: Vec<Event>)
        ensures
            events_of(r@) == (if self@.contains_key(id) && self@[id].client is Some {
                seq![EventView::List(id, self@[id].client->0, self@[id].path)]
            } else {
                Seq::empty()
            }),
    {
        match self.tab(id) {
            Some(v) => match v.client {
                Some(c) => only(Event::List(id, c, v.path.clone())),
                None => none(),
            },
            None => none(),
        }
    }

    /// A directory is shown in a tab.
    fn cd(&mut self, id: u64, path: String) -> (r: Vec<Event>)
        ensures
            (final(self)@, events_of(r@)) == moved(old(self)@, id, path@),
    {
        match self.take(id) {
            Some(mut v) => {
                let client: Option<u64> = v.client;
                v.path = path.clone();
                v.path_input = path.clone();
                v.entries = Vec::new();
                assert(model::entries(v.entries@) =~= Seq::<EntryView>::empty());
                self.put(id, v);
                assert(self@ =~= moved(old(self)@, id, path@).0);
                match client {
                    Some(c) => only(Event::List(id, c, path)),
                    None => unconnected(),
                }
            },
            None => {
                assert(self@ =~= old(self)@);
                unconnected()
            },
        }
    }

    /// The files of a session are shown in a tab.
    fn open_session(&mut self, id: u64, session: String, client: Option<u64>, conn: Option<u64>) -> (
    r: Vec<Event>)
        ensures
            (final(self)@, events_of(r@)) == opened(old(self)@, id, session@, client, conn),
    {
        let mut v = self.take_or_blank(id);
        v.session = Some(session.clone());
        v.path = ".".to_owned();
        v.path_input = ".".to_owned();
        v.creating_dir = None;
        v.renaming = None;
        v.entries = Vec::new();
        assert(model::entries(v.entries@) =~= Seq::<EntryView>::empty());
        if client.is_some() || conn.is_some() {
            v.busy = true;
        }
        self.put(id, v);
        assert(self@ =~= opened(old(self)@, id, session@, client, conn).0);
        match (client, conn) {
            (Some(c), _) => only(Event::List(id, c, ".".to_owned())),
            (None, Some(conn)) => only(Event::OpenChannel(id, session, conn)),
            (None, None) => none(),
        }
    }

    /// The directory of a tab was read, or not.
    fn list(&mut self, id: u64, path: String, result: Result<Vec<FileEntry>, Wording>) -> (r: Vec<
        Event,
    >)
        ensures
            (final(self)@, events_of(r@)) == listed(old(self)@, id, path@, result),
    {
        let taken = self.take(id);
        match taken {
            Some(mut v) => {
                v.path = path.clone();
                v.path_input = path;
                v.busy = false;
                match result {
                    Ok(entries) => {
                        v.entries = entries;
                        self.put(id, v);
                        assert(self@ =~= listed(old(self)@, id, path@, result).0);
                        none()
                    },
                    Err(e) => {
                        self.put(id, v);
                        assert(self@ =~= listed(old(self)@, id, path@, result).0);
                        fail("sftp.list_failed", e)
                    },
                }
            },
            None => {
                assert(self@ =~= old(self)@);
                match result {
                    Ok(_) => none(),
                    Err(e) => fail("sftp.list_failed", e),
                }
            },
        }
    }

    /// The files of the tab shown change where only they are concerned.
    fn update_active(&mut self, msg: Message, active_tab: u64) -> (r: Vec<Event>)
        ensures
            (final(self)@, events_of(r@)) == (if old(self)@.contains_key(active_tab) {
                let (p, events) = pane_step(old(self)@[active_tab], msg);
                (old(self)@.insert(active_tab, p), events)
            } else {
                (old(self)@, Seq::<EventView>::empty())
            }),
    {
        match self.take(active_tab) {
            Some(mut v) => {
                let events = v.update(msg);
                self.put(active_tab, v);
                assert(self@ =~= old(self)@.insert(active_tab, v@));
                events
            },
            None => {
                assert(self@ =~= old(self)@);
                none()
            },
        }
    }

    /// The files of the tabs change, and what is to be done is told.
    pub fn update(&mut self, msg: Message, active_tab: u64) -> (r: Vec<Event>)
        ensures
            (final(self)@, events_of(r@)) == step(old(self)@, msg, active_tab),
    {
        match msg {
            Message::SftpReady(id, _, Ok(client)) => {
                let mut v = self.take_or_blank(id);
                v.client = Some(client);
                v.busy = true;
                self.put(id, v);
                assert(self@ =~= old(self)@.insert(id, v@));
                assert(v@ =~= (PaneView {
                    client: Some(client),
                    busy: true,
                    ..pane(old(self)@, id)
                }));
                only(Event::List(id, client, ".".to_owned()))
            },
            Message::SftpReady(id, _, Err(e)) => {
                let mut v = self.take_or_blank(id);
                v.client = None;
                v.busy = false;
                self.put(id, v);
                assert(self@ =~= old(self)@.insert(id, v@));
                assert(v@ =~= (PaneView { client: None, busy: false, ..pane(old(self)@, id) }));
                fail("sftp.list_failed", e)
            },
            Message::SftpOpenSession(id, session, client, conn) => self.open_session(
                id,
                session,
                client,
                conn,
            ),
            Message::SftpListed(id, path, result) => self.list(id, path, result),
            Message::SftpCd(path) => self.cd(active_tab, path),
            Message::SftpParent => {
                let parent = match self.tab(active_tab) {
                    Some(v) => tasks::parent_path(v.path.as_str()),
                    None => ".".to_owned(),
                };
                self.cd(active_tab, parent)
            },
            Message::SftpGotoTerminalDir(Some(path)) => self.cd(active_tab, path),
            Message::SftpGotoTerminalDir(None) => only(
                Event::Toast(ToastKind::Error, Text::entry("sftp.cwd_unavailable")),
            ),
            Message::SftpWritten(_, back, None) => self.cd(active_tab, back),
            Message::SftpWritten(op, _, Some(e)) => {
                let key: &'static str = match op {
                    WriteOp::MakeDir => "sftp.mkdir_failed",
                    WriteOp::Rename => "sftp.rename_failed",
                    WriteOp::Delete => "sftp.delete_failed",
                };
                fail(key, e)
            },
            Message::SftpActionDone(id) => {
                match self.take(id) {
                    Some(mut v) => {
                        v.busy = false;
                        self.put(id, v);
                        assert(self@ =~= old(self)@.insert(id, v@));
                        assert(v@ =~= (PaneView { busy: false, ..old(self)@[id] }));
                    },
                    None => {
                        assert(self@ =~= old(self)@);
                    },
                }
                none()
            },
            Message::SftpCopyPath(path) => {
                let mut events: Vec<Event> = Vec::new();
                events.push(Event::Copy(path));
                events.push(
                    Event::Toast(ToastKind::Success, Text::verbatim("已复制路径".to_owned())),
                );
                assert(events_of(events@) =~= seq![
                    EventView::Copy(path@),
                    EventView::Toast(
                        ToastKind::Success,
                        i18n::plain(i18n::WordingView::Verbatim("已复制路径"@)),
                    ),
                ]);
                events
            },
            Message::SftpNoop => none(),
            Message::SftpPickUpload => only(Event::PickUpload),
            Message::SftpPickUploadFolder => only(Event::PickUploadFolder),
            Message::SftpUploadPicked(Some(items)) => only(Event::StartUpload(items)),
            Message::SftpUploadPicked(None) => none(),
            Message::SftpPickDownload(name) => only(Event::PickDownload(name)),
            Message::SftpDownload(name, local, false) => only(Event::StartDownload(name, local)),
            other => self.update_active(other, active_tab),
        }
    }
}

} // verus!
