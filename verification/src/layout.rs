//! What is shown, and what the user's gestures mean.

use crate::app::routing::Message;
use crate::app::{App, RootView};
use crate::connection::{HostKeyPrompt, PromptView};
use crate::files;
use crate::i18n::{self, Text, TextView, ToastKind, Wording, WordingView};
use crate::icons::Icon;
use crate::masterpw::{self, MpwStage, PanelView};
use crate::model::ConnectionStatus;
use crate::tabs::{self, CenterView};
use crate::text;
use vstd::prelude::*;

verus! {

/// The columns of a terminal before its size is known.
pub const DEFAULT_COLS: u32 = 80;

/// The rows of a terminal before its size is known.
pub const DEFAULT_ROWS: u32 = 24;

/// How long the user is told something, in seconds.
pub const TOAST_TTL_SECS: u64 = 4;

/// What lies over another in the window.
#[derive(Debug, Clone, Copy, PartialEq, Eq, Structural)]
pub enum Layer {
    /// The bars, the middle and the terminals; with that there is a newer version, or not.
    Body(bool),
    /// What is asked about the files.
    Files,
    /// The settings.
    Settings,
    /// The editor.
    Editor,
    /// The master password, asked for or set.
    MasterPw,
    /// The master password, changed.
    ChangeMasterPw,
    /// The question about a host's key.
    HostKey,
}

/// Whether the files of the tab shown ask something.
pub open spec fn files_ask(v: RootView) -> bool {
    v.tabs.active matches Some(id) && v.files.contains_key(id) && v.files[id].dialog is Some
}

/// One more layer, where it is shown.
pub open spec fn with_layer(list: Seq<Layer>, layer: Layer, shown: bool) -> Seq<Layer> {
    if shown {
        list.push(layer)
    } else {
        list
    }
}

/// What lies over another, the lowest first.
pub open spec fn layers_of(v: RootView) -> Seq<Layer> {
    let list = seq![Layer::Body(v.updates is Some)];
    let list = with_layer(list, Layer::Files, files_ask(v));
    let list = with_layer(list, Layer::Settings, v.settings.show_settings);
    let list = with_layer(list, Layer::Editor, v.session.editor is Some);
    let list = with_layer(list, Layer::MasterPw, v.vault is None || v.masterpw.setup);
    let list = with_layer(list, Layer::ChangeMasterPw, v.masterpw.change_open);
    with_layer(list, Layer::HostKey, v.hostkey.len() > 0)
}

/// What lies over another in the window, the lowest first.
pub fn layers(app: &App) -> (r: Vec<Layer>)
    ensures
        r@ == layers_of(app@),
{
    let asks = match app.active_sftp() {
        Some(p) => p.dialog.is_some(),
        None => false,
    };
    let mut list: Vec<Layer> = Vec::new();
    list.push(Layer::Body(app.updates.banner.is_some()));
    assert(list@ =~= seq![Layer::Body(app@.updates is Some)]);
    if asks {
        list.push(Layer::Files);
    }
    if app.settings.show_settings {
        list.push(Layer::Settings);
    }
    if app.session.editor.is_some() {
        list.push(Layer::Editor);
    }
    if app.vault.is_none() || app.masterpw.setup {
        list.push(Layer::MasterPw);
    }
    if app.masterpw.change_open {
        list.push(Layer::ChangeMasterPw);
    }
    if !app.hostkey.is_empty() {
        list.push(Layer::HostKey);
    }
    list
}

/// A question about a host's key lies over all else.
pub proof fn law_host_keys_lie_on_top(v: RootView)
    requires
        v.hostkey.len() > 0,
    ensures
        layers_of(v).last() == Layer::HostKey,
{
}

/// While the vault is locked, nothing of the files, the settings or the editor lies over the
/// master password.
pub proof fn law_the_master_password_lies_over_the_work(v: RootView, i: int, j: int)
    requires
        0 <= i < layers_of(v).len(),
        0 <= j < layers_of(v).len(),
        layers_of(v)[i] == Layer::MasterPw,
        layers_of(v)[j] is Files || layers_of(v)[j] is Settings || layers_of(v)[j] is Editor
            || layers_of(v)[j] is Body,
    ensures
        j < i,
{
}

/// What the change of the master password shows.
pub struct ChangeDialog {
    /// What is wrong.
    pub error: Option<Text>,
    /// What the button says.
    pub label: Wording,
    /// What giving up means.
    pub cancel: masterpw::Message,
    /// What the button means.
    pub submit: masterpw::Message,
}

/// What a [`ChangeDialog`] holds.
pub struct ChangeView {
    /// What is wrong.
    pub error: Option<TextView>,
    /// What the button says.
    pub label: WordingView,
    /// What giving up means.
    pub cancel: masterpw::Message,
    /// What the button means.
    pub submit: masterpw::Message,
}

impl View for ChangeDialog {
    type V = ChangeView;

    open spec fn view(&self) -> ChangeView {
        ChangeView {
            error: i18n::opt_text(self.error),
            label: self.label@,
            cancel: self.cancel,
            submit: self.submit,
        }
    }
}

/// What the change of the master password shows, where it is open. While the passwords differ that
/// is said at once; while work goes on, nothing can be given up or begun.
pub open spec fn change_shown(p: PanelView) -> Option<ChangeView> {
    if p.change_open {
        Some(
            ChangeView {
                error: if p.change_error is None && p.change_new_confirm.len() > 0 && p.change_new
                    != p.change_new_confirm {
                    Some(i18n::plain(i18n::entry("masterpw.mismatch"@)))
                } else {
                    p.change_error
                },
                label: match p.stage {
                    MpwStage::Idle => i18n::entry("masterpw.change"@),
                    MpwStage::Deriving => i18n::entry("masterpw.deriving"@),
                    MpwStage::Reencrypting => i18n::entry("masterpw.reencrypting"@),
                },
                cancel: if p.stage == MpwStage::Idle {
                    masterpw::Message::ChangeCancel
                } else {
                    masterpw::Message::Noop
                },
                submit: if p.stage == MpwStage::Idle {
                    masterpw::Message::ChangeSubmit
                } else {
                    masterpw::Message::Noop
                },
            },
        )
    } else {
        None
    }
}

/// What the change of the master password shows, where it is open.
pub fn change_dialog(panel: &masterpw::State) -> (r: Option<ChangeDialog>)
    ensures
        match r {
            Some(d) => change_shown(panel@) == Some(d@),
            None => change_shown(panel@) is None,
        },
{
    if !panel.change_open {
        return None;
    }
    let error = match &panel.change_error {
        Some(t) => Some(t.copied()),
        None => if panel.change_new_confirm.as_str().unicode_len() > 0 && !text::same(
            panel.change_new.as_str(),
            panel.change_new_confirm.as_str(),
        ) {
            Some(Text::entry("masterpw.mismatch"))
        } else {
            None
        },
    };
    let label = match panel.stage {
        MpwStage::Idle => Wording::entry("masterpw.change"),
        MpwStage::Deriving => Wording::entry("masterpw.deriving"),
        MpwStage::Reencrypting => Wording::entry("masterpw.reencrypting"),
    };
    Some(
        if panel.stage == MpwStage::Idle {
            ChangeDialog {
                error,
                label,
                cancel: masterpw::Message::ChangeCancel,
                submit: masterpw::Message::ChangeSubmit,
            }
        } else {
            ChangeDialog {
                error,
                label,
                cancel: masterpw::Message::Noop,
                submit: masterpw::Message::Noop,
            }
        },
    )
}

/// While work goes on, neither of the buttons of the change does anything.
pub proof fn law_the_change_is_not_interrupted(p: PanelView, ctx: masterpw::Ctx)
    requires
        p.stage != MpwStage::Idle,
        p.change_open,
    ensures
        masterpw::step(p, change_shown(p)->0.cancel, ctx) == (
            p,
            Seq::<masterpw::EventView>::empty(),
        ),
        masterpw::step(p, change_shown(p)->0.submit, ctx) == (
            p,
            Seq::<masterpw::EventView>::empty(),
        ),
{
}

/// What a question about a host's key shows.
pub struct HostKeyDialog {
    /// The title.
    pub title: Wording,
    /// What it is about.
    pub body: Wording,
    /// Whether it is a warning.
    pub warning: bool,
    /// What is known, line by line.
    pub rows: Vec<(Wording, String)>,
    /// What is recommended: what the button says, and the answer it gives.
    pub primary: (Wording, bool),
    /// What else can be done: what the button says, and the answer it gives.
    pub secondary: (Wording, bool),
}

/// What a [`HostKeyDialog`] holds.
#[verifier::ext_equal]
pub struct QuestionView {
    /// The title.
    pub title: WordingView,
    /// What it is about.
    pub body: WordingView,
    /// Whether it is a warning.
    pub warning: bool,
    /// What is known, line by line.
    pub rows: Seq<(WordingView, Seq<char>)>,
    /// What is recommended.
    pub primary: (WordingView, bool),
    /// What else can be done.
    pub secondary: (WordingView, bool),
}

impl View for HostKeyDialog {
    type V = QuestionView;

    open spec fn view(&self) -> QuestionView {
        QuestionView {
            title: self.title@,
            body: self.body@,
            warning: self.warning,
            rows: Seq::new(self.rows@.len(), |i: int| (self.rows@[i].0@, self.rows@[i].1@)),
            primary: (self.primary.0@, self.primary.1),
            secondary: (self.secondary.0@, self.secondary.1),
        }
    }
}

/// What a question about a host's key shows. A host that is not known is to be trusted, or not; of
/// one whose key is another than it was the user is warned, and refusing is recommended.
pub open spec fn question_shown(p: PromptView) -> QuestionView {
    match p.mismatch {
        None => QuestionView {
            title: i18n::entry("hostkey.unknown_title"@),
            body: i18n::entry("hostkey.unknown_body"@),
            warning: false,
            rows: seq![
                (i18n::entry("hostkey.host"@), p.host),
                (i18n::entry("hostkey.port"@), text::decimal(p.port as nat)),
                (i18n::entry("hostkey.key_type"@), p.key_type),
                (i18n::entry("hostkey.fingerprint"@), p.fingerprint),
            ],
            primary: (i18n::entry("hostkey.trust"@), true),
            secondary: (i18n::entry("common.cancel"@), false),
        },
        Some(stored) => QuestionView {
            title: i18n::entry("hostkey.changed_title"@),
            body: i18n::entry("hostkey.changed_body"@),
            warning: true,
            rows: seq![
                (i18n::entry("hostkey.host"@), p.host + ":"@ + text::decimal(p.port as nat)),
                (i18n::entry("hostkey.stored_fp"@), stored),
                (i18n::entry("hostkey.current_fp"@), p.fingerprint),
            ],
            primary: (i18n::entry("hostkey.reject"@), false),
            secondary: (i18n::entry("hostkey.still_trust"@), true),
        },
    }
}

/// What a question about a host's key shows.
pub fn host_key_dialog(p: &HostKeyPrompt) -> (r: HostKeyDialog)
    ensures
        r@ == question_shown(p@),
{
    let port = text::to_decimal(p.port as u128);
    let mut rows: Vec<(Wording, String)> = Vec::new();
    match &p.mismatch {
        None => {
            rows.push((Wording::entry("hostkey.host"), p.host.clone()));
            rows.push((Wording::entry("hostkey.port"), port));
            rows.push((Wording::entry("hostkey.key_type"), p.key_type.clone()));
            rows.push((Wording::entry("hostkey.fingerprint"), p.fingerprint.clone()));
            let r = HostKeyDialog {
                title: Wording::entry("hostkey.unknown_title"),
                body: Wording::entry("hostkey.unknown_body"),
                warning: false,
                rows,
                primary: (Wording::entry("hostkey.trust"), true),
                secondary: (Wording::entry("common.cancel"), false),
            };
            assert(r@ =~= question_shown(p@));
            r
        },
        Some(stored) => {
            let place = text::concat3(p.host.as_str(), ":", port.as_str());
            rows.push((Wording::entry("hostkey.host"), place));
            rows.push((Wording::entry("hostkey.stored_fp"), stored.clone()));
            rows.push((Wording::entry("hostkey.current_fp"), p.fingerprint.clone()));
            let r = HostKeyDialog {
                title: Wording::entry("hostkey.changed_title"),
                body: Wording::entry("hostkey.changed_body"),
                warning: true,
                rows,
                primary: (Wording::entry("hostkey.reject"), false),
                secondary: (Wording::entry("hostkey.still_trust"), true),
            };
            assert(r@ =~= question_shown(p@));
            r
        },
    }
}

/// A key that is another than it was is never trusted by the button that is recommended, and the
/// user sees the key there was.
pub proof fn law_changed_keys_are_warned_of(p: PromptView)
    requires
        p.mismatch is Some,
    ensures
        question_shown(p).warning,
        !question_shown(p).primary.1,
        question_shown(p).rows[1].1 == p.mismatch->0,
        question_shown(p).rows[2].1 == p.fingerprint,
{
}

/// A button of the bar on the left.
#[derive(Debug, Clone, Copy, PartialEq, Eq, Structural)]
pub struct ActivityButton {
    /// Its icon.
    pub icon: Icon,
    /// What it shows in the middle of the window; nothing where it cannot be pressed.
    pub target: Option<CenterView>,
    /// Whether that is shown.
    pub active: bool,
}

/// Whether a tab is connected.
pub open spec fn any_connected(list: Seq<tabs::TabView>) -> bool {
    exists|i: int|
        0 <= i < list.len() && (#[trigger] list[i]).status == ConnectionStatus::Connected
}

/// The buttons of the bar on the left. The files can be shown only while a tab is connected.
pub open spec fn activity_of(v: RootView) -> Seq<ActivityButton> {
    seq![
        ActivityButton {
            icon: Icon::ListBar,
            target: Some(CenterView::Sessions),
            active: v.center == CenterView::Sessions,
        },
        if any_connected(v.tabs.tabs) {
            ActivityButton {
                icon: Icon::FolderMultiple,
                target: Some(CenterView::Files),
                active: v.center == CenterView::Files,
            }
        } else {
            ActivityButton { icon: Icon::FolderJunk, target: None, active: false }
        },
        ActivityButton {
            icon: Icon::ArrowSort,
            target: Some(CenterView::Transfers),
            active: v.center == CenterView::Transfers,
        },
    ]
}

/// The buttons of the bar on the left, the top one first.
pub fn activity_bar(app: &App) -> (r: Vec<ActivityButton>)
    ensures
        r@ == activity_of(app@),
{
    let list = app.tabs.list();
    let ghost all = app@.tabs.tabs;
    let mut connected = false;
    let mut i: usize = 0;
    while i < list.len()
        invariant
            i <= list@.len(),
            all == tabs::views(list@),
            connected == exists|k: int|
                0 <= k < i && (#[trigger] all[k]).status == ConnectionStatus::Connected,
        decreases list@.len() - i,
    {
        assert(all[i as int] == list@[i as int]@);
        if list[i].status == ConnectionStatus::Connected {
            connected = true;
        }
        i += 1;
    }
    let mut r: Vec<ActivityButton> = Vec::new();
    r.push(
        ActivityButton {
            icon: Icon::ListBar,
            target: Some(CenterView::Sessions),
            active: app.center == CenterView::Sessions,
        },
    );
    if connected {
        r.push(
            ActivityButton {
                icon: Icon::FolderMultiple,
                target: Some(CenterView::Files),
                active: app.center == CenterView::Files,
            },
        );
    } else {
        r.push(ActivityButton { icon: Icon::FolderJunk, target: None, active: false });
    }
    r.push(
        ActivityButton {
            icon: Icon::ArrowSort,
            target: Some(CenterView::Transfers),
            active: app.center == CenterView::Transfers,
        },
    );
    assert(r@ =~= activity_of(app@));
    r
}

/// What the user does to the window.
#[derive(Debug, Clone, Copy, PartialEq, Eq, Structural)]
pub enum Gesture {
    /// The window is entered.
    Focused,
    /// The window is left.
    Unfocused,
    /// The window is to be closed.
    CloseRequested,
    /// The key to give up is pressed.
    EscapeKey,
    /// The key to rename is pressed.
    RenameKey,
    /// The right button is pressed.
    RightButton,
    /// Anything else.
    Other,
}

/// What a gesture means.
pub open spec fn meaning_of(g: Gesture) -> Option<Message> {
    match g {
        Gesture::Focused => Some(Message::Tabs(tabs::Message::WindowFocused(true))),
        Gesture::Unfocused => Some(Message::Tabs(tabs::Message::WindowFocused(false))),
        Gesture::CloseRequested => Some(Message::Tabs(tabs::Message::WindowClosing)),
        Gesture::EscapeKey => Some(Message::Escape),
        Gesture::RenameKey => Some(Message::Files(files::Message::SftpRenameShortcut)),
        Gesture::RightButton => Some(Message::RightPress),
        Gesture::Other => None,
    }
}

/// What a gesture means.
pub fn meaning(g: Gesture) -> (r: Option<Message>)
    ensures
        r == meaning_of(g),
{
    match g {
        Gesture::Focused => Some(Message::Tabs(tabs::Message::WindowFocused(true))),
        Gesture::Unfocused => Some(Message::Tabs(tabs::Message::WindowFocused(false))),
        Gesture::CloseRequested => Some(Message::Tabs(tabs::Message::WindowClosing)),
        Gesture::EscapeKey => Some(Message::Escape),
        Gesture::RenameKey => Some(Message::Files(files::Message::SftpRenameShortcut)),
        Gesture::RightButton => Some(Message::RightPress),
        Gesture::Other => None,
    }
}

/// The title under which the user is told something.
pub open spec fn title_of(kind: ToastKind) -> WordingView {
    match kind {
        ToastKind::Success => i18n::entry("app.toast.success"@),
        ToastKind::Error => i18n::entry("app.toast.error"@),
        ToastKind::Warning => i18n::entry("app.toast.warning"@),
    }
}

/// The title under which the user is told something.
pub fn toast_title(kind: ToastKind) -> (r: Wording)
    ensures
        r@ == title_of(kind),
{
    match kind {
        ToastKind::Success => Wording::entry("app.toast.success"),
        ToastKind::Error => Wording::entry("app.toast.error"),
        ToastKind::Warning => Wording::entry("app.toast.warning"),
    }
}

/// Each thing that is asked or open is shown, and nothing that is not; the body is always there,
/// below all else.
pub proof fn law_what_is_open_is_shown(v: RootView)
    ensures
        layers_of(v)[0] == Layer::Body(v.updates is Some),
        layers_of(v).contains(Layer::HostKey) <==> v.hostkey.len() > 0,
        layers_of(v).contains(Layer::ChangeMasterPw) <==> v.masterpw.change_open,
        layers_of(v).contains(Layer::MasterPw) <==> v.vault is None || v.masterpw.setup,
        layers_of(v).contains(Layer::Editor) <==> v.session.editor is Some,
        layers_of(v).contains(Layer::Settings) <==> v.settings.show_settings,
        layers_of(v).contains(Layer::Files) <==> (v.tabs.active matches Some(id)
            && v.files.contains_key(id) && v.files[id].dialog is Some),
{
    let l0 = seq![Layer::Body(v.updates is Some)];
    let l1 = with_layer(l0, Layer::Files, files_ask(v));
    let l2 = with_layer(l1, Layer::Settings, v.settings.show_settings);
    let l3 = with_layer(l2, Layer::Editor, v.session.editor is Some);
    let l4 = with_layer(l3, Layer::MasterPw, v.vault is None || v.masterpw.setup);
    let l5 = with_layer(l4, Layer::ChangeMasterPw, v.masterpw.change_open);
    assert forall|x: Layer| l0.contains(x) <==> x == l0[0] by {
        assert(l0[0] == l0[0]);
    }
    lemma_with_layer(l0, Layer::Files, files_ask(v));
    lemma_with_layer(l1, Layer::Settings, v.settings.show_settings);
    lemma_with_layer(l2, Layer::Editor, v.session.editor is Some);
    lemma_with_layer(l3, Layer::MasterPw, v.vault is None || v.masterpw.setup);
    lemma_with_layer(l4, Layer::ChangeMasterPw, v.masterpw.change_open);
    lemma_with_layer(l5, Layer::HostKey, v.hostkey.len() > 0);
}

proof fn lemma_with_layer(list: Seq<Layer>, layer: Layer, shown: bool)
    requires
        list.len() > 0,
    ensures
        with_layer(list, layer, shown)[0] == list[0],
        with_layer(list, layer, shown).len() > 0,
        forall|x: Layer| #[trigger]
            with_layer(list, layer, shown).contains(x) <==> list.contains(x) || (shown && x
                == layer),
{
    let all = with_layer(list, layer, shown);
    assert forall|x: Layer| #[trigger] all.contains(x) <==> list.contains(x) || (shown && x
        == layer) by {
        if all.contains(x) {
            let i = choose|i: int| 0 <= i < all.len() && all[i] == x;
            if i < list.len() {
                assert(list[i] == x);
            }
        }
        if list.contains(x) {
            let i = choose|i: int| 0 <= i < list.len() && list[i] == x;
            assert(all[i] == x);
        }
        if shown {
            assert(all[list.len() as int] == layer);
        }
    }
}

/// Of a host that is not known the user sees where it is and what its key is, and the button that
/// is recommended trusts it; the other one does not.
pub proof fn law_unknown_hosts_are_shown(p: PromptView)
    requires
        p.mismatch is None,
    ensures
        ({
            let q = question_shown(p);
            &&& !q.warning
            &&& q.primary.1
            &&& !q.secondary.1
            &&& q.rows.len() == 4
            &&& q.rows[0].1 == p.host
            &&& q.rows[1].1 == text::decimal(p.port as nat)
            &&& q.rows[2].1 == p.key_type
            &&& q.rows[3].1 == p.fingerprint
        }),
{
}

/// The files can be turned to exactly while a tab is connected; the sessions and the transfers
/// always can. The button of what is shown is marked, and no other.
pub proof fn law_files_can_be_turned_to_while_connected(v: RootView)
    ensures
        ({
            let bar = activity_of(v);
            &&& bar.len() == 3
            &&& bar[0].target == Some(CenterView::Sessions)
            &&& bar[2].target == Some(CenterView::Transfers)
            &&& bar[1].target == Some(CenterView::Files) <==> exists|i: int|
                0 <= i < v.tabs.tabs.len() && (#[trigger] v.tabs.tabs[i]).status
                    == ConnectionStatus::Connected
            &&& bar[1].target == Some(CenterView::Files) || bar[1].target is None
            &&& forall|k: int|
                0 <= k < 3 ==> ((#[trigger] bar[k]).active <==> bar[k].target == Some(v.center))
        }),
{
}

/// Asking to close the window ends every terminal; the key to give up refuses the question that is
/// asked first.
pub proof fn law_gestures_do_what_they_mean(v: RootView, env: crate::app::EnvView, k: int)
    ensures
        ({
            let closing = meaning_of(Gesture::CloseRequested);
            closing is Some && (0 <= k < v.tabs.tabs.len() ==> (
            v.tabs.tabs[k].bridge matches Some(bridge)
                ==> (crate::app::routing::routed(v, closing->0, env).1[0] matches
                crate::app::TaskView::Tabs(list) && list.contains(
                tabs::EventView::Disconnect(bridge),
            ))))
        }),
        ({
            let giving_up = meaning_of(Gesture::EscapeKey);
            giving_up is Some && (v.hostkey.len() > 0 ==> crate::app::routing::routed(
                v,
                giving_up->0,
                env,
            ).1 == seq![
                crate::app::TaskView::Answer(crate::hostkey::told(v.hostkey[0], false)),
            ])
        }),
        meaning_of(Gesture::RenameKey) == Some(
            Message::Files(files::Message::SftpRenameShortcut),
        ),
        meaning_of(Gesture::RightButton) == Some(Message::RightPress),
        meaning_of(Gesture::Focused) == Some(Message::Tabs(tabs::Message::WindowFocused(true))),
        meaning_of(Gesture::Unfocused) == Some(Message::Tabs(tabs::Message::WindowFocused(false))),
        meaning_of(Gesture::Other) is None,
{
    if 0 <= k < v.tabs.tabs.len() {
        if let Some(bridge) = v.tabs.tabs[k].bridge {
            tabs::laws::law_closing_the_window_ends_all(
                v.tabs,
                bridge,
                crate::app::tabs_ctx_of(v),
                crate::app::opened_tabs(v),
            );
        }
    }
}

/// While nothing is at work, the change of the master password can be given up and begun; that the
/// two passwords differ is said as soon as the second one is begun, unless something else is.
pub proof fn law_passwords_that_differ_are_told(p: PanelView)
    requires
        p.change_open,
    ensures
        p.change_error is Some ==> change_shown(p)->0.error == p.change_error,
        p.change_error is None && p.change_new_confirm.len() > 0 && p.change_new
            != p.change_new_confirm ==> change_shown(p)->0.error is Some,
        p.change_error is None && (p.change_new_confirm.len() == 0 || p.change_new
            == p.change_new_confirm) ==> change_shown(p)->0.error is None,
        p.stage == MpwStage::Idle ==> change_shown(p)->0.cancel == masterpw::Message::ChangeCancel
            && change_shown(p)->0.submit == masterpw::Message::ChangeSubmit,
{
}

} // verus!
