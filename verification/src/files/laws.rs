//! What holds of the files of the tabs as a whole.

use crate::files::{self, DialogView, EventView, Message, PaneView, WriteOp};
use crate::i18n;
use crate::i18n::{ToastKind, Wording};
use crate::local_path::LocalPath;
use crate::model;
use crate::model::FileEntry;
use crate::tasks;
use crate::text;
use crate::transfer::UploadItem;
use vstd::prelude::*;

verus! {

/// The tab that a message is about: the one it names, else the one shown.
pub open spec fn about(msg: Message, active: u64) -> u64 {
    match msg {
        Message::SftpReady(tab, _, _) => tab,
        Message::SftpOpenSession(tab, _, _, _) => tab,
        Message::SftpListed(tab, _, _) => tab,
        Message::SftpActionDone(tab) => tab,
        _ => active,
    }
}

/// What happens to one tab's files leaves those of all other tabs as they are.
pub proof fn law_tabs_keep_their_own_files(
    m: Map<u64, PaneView>,
    msg: Message,
    active: u64,
    other: u64,
)
    requires
        other != about(msg, active),
    ensures
        files::step(m, msg, active).0.contains_key(other) == m.contains_key(other),
        m.contains_key(other) ==> files::step(m, msg, active).0[other] == m[other],
{
}

/// A local file is written over only where the user agreed to it: a download begins either
/// because there is no such file, or because the user was asked about exactly this one.
pub proof fn law_overwriting_is_asked_first(
    m: Map<u64, PaneView>,
    msg: Message,
    active: u64,
    name: Seq<char>,
    local: Seq<u8>,
)
    requires
        files::step(m, msg, active).1.contains(EventView::StartDownload(name, local)),
    ensures
        (msg matches Message::SftpDownload(n, l, there) && n@ == name && l@ == local && !there) || (
        msg is SftpDialogConfirm && m.contains_key(active) && m[active].dialog == Some(
            DialogView::OverwriteDownload { name, local },
        )),
{
    let events = files::step(m, msg, active).1;
    let i = choose|i: int|
        0 <= i < events.len() && events[i] == EventView::StartDownload(name, local);
    assert(events[i] is StartDownload);
}

/// Nothing is deleted that the user was not asked about, and nothing without a channel.
pub proof fn law_deleting_is_asked_first(m: Map<u64, PaneView>, msg: Message, active: u64, i: int)
    requires
        0 <= i < files::step(m, msg, active).1.len(),
        files::step(m, msg, active).1[i] is Delete,
    ensures
        msg is SftpDialogConfirm,
        m.contains_key(active),
        m[active].dialog matches Some(DialogView::Delete { .. }),
        m[active].client is Some,
{
}

/// Neither an empty name nor an unchanged one is sent to the other side.
pub proof fn law_empty_names_are_not_sent(p: PaneView)
    ensures
        match p.creating_dir {
            Some(name) => text::trimmed(name).len() == 0 ==> files::pane_step(
                p,
                Message::SftpNewDirSubmit,
            ).1 == Seq::<EventView>::empty(),
            None => true,
        },
        match p.renaming {
            Some((from, to)) => (text::trimmed(to).len() == 0 || to == from) ==> files::pane_step(
                p,
                Message::SftpRenameSubmit,
            ).1 == Seq::<EventView>::empty(),
            None => true,
        },
{
}

/// Putting away goes one step at a time: first a new name, then a new directory, then what was
/// asked.
pub proof fn law_one_thing_is_put_away_at_a_time(p: PaneView)
    ensures
        ({
            let (after, events) = files::pane_step(p, Message::SftpCancelDialog);
            if p.renaming is Some {
                after == (PaneView { renaming: None, ..p }) && events == seq![
                    EventView::FocusTerminal,
                ]
            } else if p.creating_dir is Some {
                after == (PaneView { creating_dir: None, ..p }) && events == seq![
                    EventView::FocusTerminal,
                ]
            } else {
                after == (PaneView { dialog: None, ..p }) && events.len() == 0
            }
        }),
{
}

/// That there is no channel, told to the user.
pub open spec fn unconnected() -> EventView {
    EventView::Toast(ToastKind::Error, i18n::plain(i18n::entry("sftp.not_connected"@)))
}

/// To go to a directory shows it, empty until it was read, and reads it over the tab's channel; once
/// it was read its entries are shown. Where there is no channel that is told. Where reading failed,
/// that is told and nothing is shown of it.
pub proof fn law_a_directory_is_read_and_shown(
    m: Map<u64, PaneView>,
    tab: u64,
    path: String,
    list: Vec<FileEntry>,
    e: Wording,
)
    requires
        m.contains_key(tab),
    ensures
        ({
            let (there, events) = files::step(m, Message::SftpCd(path), tab);
            let p = m[tab];
            &&& there[tab] == (PaneView {
                path: path@,
                path_input: path@,
                entries: Seq::empty(),
                ..p
            })
            &&& events == match p.client {
                Some(c) => seq![EventView::List(tab, c, path@)],
                None => seq![unconnected()],
            }
            &&& files::step(there, Message::SftpListed(tab, path, Ok(list)), tab) == (
                there.insert(
                    tab,
                    PaneView { entries: model::entries(list@), busy: false, ..there[tab] },
                ),
                Seq::<EventView>::empty(),
            )
            &&& files::step(there, Message::SftpListed(tab, path, Err(e)), tab) == (
                there.insert(tab, PaneView { busy: false, ..there[tab] }),
                seq![
                    EventView::Toast(
                        ToastKind::Error,
                        i18n::prefixed(i18n::entry("sftp.list_failed"@), e@),
                    ),
                ],
            )
        }),
{
    let there = files::step(m, Message::SftpCd(path), tab).0;
    assert(files::step(there, Message::SftpListed(tab, path, Ok(list)), tab).0[tab] == (PaneView {
        entries: model::entries(list@),
        busy: false,
        ..there[tab]
    }));
}

/// To go up, or to where the terminal is, or back after something was done on the other side, is to
/// go to that directory.
pub proof fn law_all_ways_lead_to_a_directory(
    m: Map<u64, PaneView>,
    tab: u64,
    path: String,
    op: WriteOp,
)
    requires
        m.contains_key(tab),
    ensures
        path@ == tasks::parent(m[tab].path) ==> files::step(m, Message::SftpParent, tab)
            == files::step(m, Message::SftpCd(path), tab),
        files::step(m, Message::SftpGotoTerminalDir(Some(path)), tab) == files::step(
            m,
            Message::SftpCd(path),
            tab,
        ),
        files::step(m, Message::SftpWritten(op, path, None), tab) == files::step(
            m,
            Message::SftpCd(path),
            tab,
        ),
{
}

/// A directory that is made has the name that was typed, stands in the directory shown, and is made
/// over the tab's channel; then that directory is read anew.
pub proof fn law_a_new_directory_has_the_name_typed(m: Map<u64, PaneView>, tab: u64, name: String)
    requires
        m.contains_key(tab),
    ensures
        ({
            let p = m[tab];
            let asked = files::step(m, Message::SftpNewDirConfirm, tab).0;
            let typed = files::step(asked, Message::SftpNewDirInput(name), tab).0;
            let (after, events) = files::step(typed, Message::SftpNewDirSubmit, tab);
            &&& asked[tab].creating_dir is Some
            &&& typed[tab].creating_dir == Some(name@)
            &&& after[tab] == (PaneView { creating_dir: None, ..p })
            &&& text::trimmed(name@).len() == 0 ==> events.len() == 0
            &&& text::trimmed(name@).len() > 0 ==> events == match p.client {
                Some(c) => seq![EventView::MakeDir(c, tasks::join(p.path, name@), p.path)],
                None => seq![unconnected()],
            }
        }),
{
    let asked = files::step(m, Message::SftpNewDirConfirm, tab).0;
    let typed = files::step(asked, Message::SftpNewDirInput(name), tab).0;
    assert(asked[tab] == (PaneView { creating_dir: Some("New Folder"@), ..m[tab] }));
    assert(typed[tab] == (PaneView { creating_dir: Some(name@), ..m[tab] }));
}

/// What is renamed is what was picked, to what was typed, in the directory shown; a name that is
/// blank or the same is not sent.
pub proof fn law_a_file_gets_the_name_typed(
    m: Map<u64, PaneView>,
    tab: u64,
    from: String,
    to: String,
)
    requires
        m.contains_key(tab),
    ensures
        ({
            let p = m[tab];
            let asked = files::step(m, Message::SftpRenameConfirm(from), tab).0;
            let typed = files::step(asked, Message::SftpRenameInput(to), tab).0;
            let (after, events) = files::step(typed, Message::SftpRenameSubmit, tab);
            &&& asked[tab].renaming == Some((from@, from@))
            &&& after[tab] == (PaneView { renaming: None, ..p })
            &&& text::trimmed(to@).len() == 0 || to@ == from@ ==> events.len() == 0
            &&& text::trimmed(to@).len() > 0 && to@ != from@ ==> events == match p.client {
                Some(c) => seq![
                    EventView::Rename(
                        c,
                        tasks::join(p.path, from@),
                        tasks::join(p.path, to@),
                        p.path,
                    ),
                ],
                None => seq![unconnected()],
            }
            &&& p.selected is Some ==> files::step(m, Message::SftpRenameShortcut, tab).0[tab].renaming
                == Some((p.selected->0, p.selected->0))
        }),
{
    let asked = files::step(m, Message::SftpRenameConfirm(from), tab).0;
    let typed = files::step(asked, Message::SftpRenameInput(to), tab).0;
    assert(asked[tab] == (PaneView { renaming: Some((from@, from@)), ..m[tab] }));
    assert(typed[tab] == (PaneView { renaming: Some((from@, to@)), ..m[tab] }));
}

/// What is deleted is what the user was asked about, in the directory shown; where the user does
/// not agree, nothing is.
pub proof fn law_what_is_deleted_was_asked_about(m: Map<u64, PaneView>, tab: u64, name: String)
    requires
        m.contains_key(tab),
    ensures
        ({
            let p = m[tab];
            let asked = files::step(m, Message::SftpDeleteConfirm(name), tab);
            let (after, events) = files::step(asked.0, Message::SftpDialogConfirm, tab);
            let refused = files::step(asked.0, Message::SftpCancelDialog, tab);
            &&& asked.1.len() == 0
            &&& after[tab] == (PaneView { dialog: None, ..p })
            &&& events == match p.client {
                Some(c) => seq![EventView::Delete(c, tasks::join(p.path, name@), false, p.path)],
                None => seq![unconnected()],
            }
            &&& forall|i: int| 0 <= i < refused.1.len() ==> !(#[trigger] refused.1[i] is Delete)
        }),
{
    let asked = files::step(m, Message::SftpDeleteConfirm(name), tab).0;
    assert(asked[tab] == (PaneView {
        dialog: Some(DialogView::Delete { name: name@, is_dir: false }),
        ..m[tab]
    }));
}

/// A download goes to the place that was picked: at once where nothing is there, and after the user
/// agreed where a file is.
pub proof fn law_a_download_begins_where_it_was_picked(
    m: Map<u64, PaneView>,
    tab: u64,
    name: String,
    local: LocalPath,
)
    requires
        m.contains_key(tab),
    ensures
        files::step(m, Message::SftpPickDownload(name), tab) == (
            m,
            seq![EventView::PickDownload(name@)],
        ),
        files::step(m, Message::SftpDownload(name, local, false), tab) == (
            m,
            seq![EventView::StartDownload(name@, local@)],
        ),
        ({
            let asked = files::step(m, Message::SftpDownload(name, local, true), tab);
            &&& asked.1.len() == 0
            &&& asked.0[tab].dialog == Some(
                DialogView::OverwriteDownload { name: name@, local: local@ },
            )
            &&& files::step(asked.0, Message::SftpDialogConfirm, tab).1 == seq![
                EventView::StartDownload(name@, local@),
            ]
            &&& files::step(asked.0, Message::SftpDialogConfirm, tab).0[tab].dialog is None
        }),
{
}

/// What was picked to be uploaded is uploaded, as it was picked.
pub proof fn law_what_was_picked_is_uploaded(m: Map<u64, PaneView>, tab: u64, items: Vec<UploadItem>)
    ensures
        files::step(m, Message::SftpPickUpload, tab) == (m, seq![EventView::PickUpload]),
        files::step(m, Message::SftpPickUploadFolder, tab) == (m, seq![EventView::PickUploadFolder]),
        files::step(m, Message::SftpUploadPicked(Some(items)), tab) == (
            m,
            seq![EventView::StartUpload(items@)],
        ),
        files::step(m, Message::SftpUploadPicked(None), tab) == (m, Seq::<EventView>::empty()),
{
}

/// A channel that is open is the tab's from then on, and the login directory is read over it; where
/// it could not be opened, the tab has none, and why is told.
pub proof fn law_an_open_channel_is_used(
    m: Map<u64, PaneView>,
    tab: u64,
    session: String,
    client: u64,
    e: Wording,
    active: u64,
)
    ensures
        ({
            let (after, events) = files::step(m, Message::SftpReady(tab, session, Ok(client)), active);
            &&& after.contains_key(tab)
            &&& after[tab].client == Some(client)
            &&& after[tab].busy
            &&& events == seq![EventView::List(tab, client, "."@)]
        }),
        ({
            let (after, events) = files::step(m, Message::SftpReady(tab, session, Err(e)), active);
            &&& after.contains_key(tab)
            &&& after[tab].client is None
            &&& !after[tab].busy
            &&& events == seq![
                EventView::Toast(
                    ToastKind::Error,
                    i18n::prefixed(i18n::entry("sftp.list_failed"@), e@),
                ),
            ]
        }),
        m.contains_key(tab) ==> ({
            let after = files::step(m, Message::SftpReady(tab, session, Ok(client)), active).0;
            after[tab] == (PaneView { client: Some(client), busy: true, ..m[tab] })
        }),
{
}

/// To show the files of a session in a tab begins at the login directory, over the channel there is,
/// or over one that is opened on the connection; nothing is left there of what was shown before.
pub proof fn law_files_of_a_session_begin_at_its_login(
    m: Map<u64, PaneView>,
    tab: u64,
    session: String,
    client: Option<u64>,
    conn: Option<u64>,
    active: u64,
)
    ensures
        ({
            let msg = Message::SftpOpenSession(tab, session, client, conn);
            let (after, events) = files::step(m, msg, active);
            let p = after[tab];
            &&& after.contains_key(tab)
            &&& p.session == Some(session@)
            &&& p.path == "."@ && p.path_input == "."@
            &&& p.entries.len() == 0 && p.creating_dir is None && p.renaming is None
            &&& client is Some || conn is Some ==> p.busy
            &&& m.contains_key(tab) ==> p.client == m[tab].client
            &&& events == match client {
                Some(c) => seq![EventView::List(tab, c, "."@)],
                None => match conn {
                    Some(conn) => seq![EventView::OpenChannel(tab, session@, conn)],
                    None => Seq::empty(),
                },
            }
        }),
{
}

/// What failed on the other side is told with what was being done, and nothing else changes.
pub proof fn law_failures_are_told_with_their_occasion(
    m: Map<u64, PaneView>,
    active: u64,
    op: WriteOp,
    back: String,
    e: Wording,
)
    ensures
        files::step(m, Message::SftpWritten(op, back, Some(e)), active) == (
            m,
            seq![
                EventView::Toast(
                    ToastKind::Error,
                    i18n::prefixed(
                        i18n::entry(
                            match op {
                                WriteOp::MakeDir => "sftp.mkdir_failed"@,
                                WriteOp::Rename => "sftp.rename_failed"@,
                                WriteOp::Delete => "sftp.delete_failed"@,
                            },
                        ),
                        e@,
                    ),
                ),
            ],
        ),
{
}

/// What the pointer is on and what is selected are told apart: to select takes that name, and to
/// select what the pointer is on takes that one, where there is one.
pub proof fn law_what_is_selected_was_picked(m: Map<u64, PaneView>, tab: u64, name: String)
    requires
        m.contains_key(tab),
    ensures
        ({
            let p = m[tab];
            let over = files::step(m, Message::SftpEntryEnter(name), tab).0;
            &&& files::step(m, Message::SftpSelect(name), tab) == (
                m.insert(tab, PaneView { selected: Some(name@), ..p }),
                Seq::<EventView>::empty(),
            )
            &&& over[tab] == (PaneView { hovered: Some(name@), ..p })
            &&& files::step(over, Message::SftpSelectHovered, tab).0[tab].selected == Some(name@)
            &&& files::step(over, Message::SftpEntryExit(name), tab).0[tab].hovered is None
            &&& p.hovered is None ==> files::step(m, Message::SftpSelectHovered, tab).0[tab] == p
            &&& files::step(m, Message::SftpPathInput(name), tab).0[tab] == (PaneView {
                path_input: name@,
                ..p
            })
        }),
{
}

/// What is told of an entry is what was listed of the first of that name, and where it is.
pub proof fn law_properties_are_those_of_the_entry(m: Map<u64, PaneView>, tab: u64, name: String, i: int)
    requires
        m.contains_key(tab),
        0 <= i < m[tab].entries.len(),
        m[tab].entries[i].name == name@,
        forall|k: int| 0 <= k < i ==> (#[trigger] m[tab].entries[k]).name != name@,
    ensures
        files::step(m, Message::SftpShowProperties(name), tab).0[tab].dialog == Some(
            DialogView::Properties {
                entry: m[tab].entries[i],
                path: tasks::join(m[tab].path, name@),
            },
        ),
{
    files::lemma_place(m[tab].entries, name@, m[tab].entries.len() as int);
}

/// A directory that cannot be read leaves the entries that are shown, and the reason is told; the
/// tab is at work no longer.
pub proof fn law_a_directory_that_cannot_be_read_is_told(
    m: Map<u64, PaneView>,
    tab: u64,
    active: u64,
    path: String,
    why: Wording,
)
    requires
        m.contains_key(tab),
    ensures
        ({
            let (after, events) = files::step(
                m,
                Message::SftpListed(tab, path, Err(why)),
                active,
            );
            &&& after.dom() =~= m.dom()
            &&& after[tab].entries == m[tab].entries
            &&& !after[tab].busy
            &&& after[tab].path == path@
            &&& forall|k: u64| m.contains_key(k) && k != tab ==> #[trigger] after[k] == m[k]
            &&& events.len() == 1
            &&& events[0] matches EventView::Toast(kind, told) && kind == ToastKind::Error
                && told.body == why@
        }),
{
}

/// A tab whose work is done is at work no longer, and nothing else changes in any tab.
pub proof fn law_done_work_is_over(m: Map<u64, PaneView>, tab: u64, active: u64)
    ensures
        ({
            let (after, events) = files::step(m, Message::SftpActionDone(tab), active);
            &&& events.len() == 0
            &&& after.dom() =~= m.dom()
            &&& m.contains_key(tab) ==> after[tab] == (PaneView { busy: false, ..m[tab] })
            &&& forall|k: u64| m.contains_key(k) && k != tab ==> #[trigger] after[k] == m[k]
        }),
{
}

} // verus!
