//! The master password: setting it, unlocking with it, changing it and giving it up.
//!
//! Deriving keys and sealing the credentials anew take a while and are done aside; the panel shows
//! which of the two is going on. The credentials change only when all of them were written.

use crate::config::session::{SessionConfig, SessionView};
use crate::config::session;
use crate::crypto::{CryptoHeader, Vault, VaultView};
use crate::crypto;
use crate::i18n::{Text, TextView, ToastKind};
use crate::i18n;
use crate::text;
use vstd::prelude::*;

pub mod laws;
pub mod rekey;

verus! {

/// How far the work that is done aside has come.
#[derive(Debug, Clone, Copy, PartialEq, Eq, Structural)]
pub enum MpwStage {
    /// There is none.
    Idle,
    /// Keys are being derived.
    Deriving,
    /// Credentials are being sealed anew and written.
    Reencrypting,
}

/// What the panel holds.
#[derive(Debug)]
pub struct State {
    /// The password, to be set or to unlock with.
    pub input: String,
    /// The password once more.
    pub confirm: String,
    /// Whether the user says to have learnt it.
    pub memorized: bool,
    /// What was wrong.
    pub error: Option<Text>,
    /// How far the work that is done aside has come.
    pub stage: MpwStage,
    /// Whether a password is being set, and not asked for.
    pub setup: bool,
    /// Whether the password is being changed.
    pub change_open: bool,
    /// The password there is.
    pub change_current: String,
    /// The password there is to be.
    pub change_new: String,
    /// The password there is to be, once more.
    pub change_new_confirm: String,
    /// Whether the user says to have learnt it.
    pub change_memorized: bool,
    /// What was wrong with the change.
    pub change_error: Option<Text>,
}

/// What a [`State`] holds.
#[verifier::ext_equal]
pub struct PanelView {
    /// The password, to be set or to unlock with.
    pub input: Seq<char>,
    /// The password once more.
    pub confirm: Seq<char>,
    /// Whether the user says to have learnt it.
    pub memorized: bool,
    /// What was wrong.
    pub error: Option<TextView>,
    /// How far the work that is done aside has come.
    pub stage: MpwStage,
    /// Whether a password is being set.
    pub setup: bool,
    /// Whether the password is being changed.
    pub change_open: bool,
    /// The password there is.
    pub change_current: Seq<char>,
    /// The password there is to be.
    pub change_new: Seq<char>,
    /// The password there is to be, once more.
    pub change_new_confirm: Seq<char>,
    /// Whether the user says to have learnt it.
    pub change_memorized: bool,
    /// What was wrong with the change.
    pub change_error: Option<TextView>,
}

impl View for State {
    type V = PanelView;

    open spec fn view(&self) -> PanelView {
        PanelView {
            input: self.input@,
            confirm: self.confirm@,
            memorized: self.memorized,
            error: i18n::opt_text(self.error),
            stage: self.stage,
            setup: self.setup,
            change_open: self.change_open,
            change_current: self.change_current@,
            change_new: self.change_new@,
            change_new_confirm: self.change_new_confirm@,
            change_memorized: self.change_memorized,
            change_error: i18n::opt_text(self.change_error),
        }
    }
}

/// What is asked of the panel, and what came of the work that is done aside.
pub enum Message {
    /// Nothing.
    Noop,
    /// The password is typed.
    Input(String),
    /// The password is typed once more.
    Confirm(String),
    /// The user says to have learnt it, or not.
    Memorized(bool),
    /// The password is to be set, or to unlock.
    Submit,
    /// The header of the credentials was read to unlock them, or why it was not.
    HeaderRead(Result<CryptoHeader, String>),
    /// Setting the password is given up.
    Cancel,
    /// A password is to be set.
    SetupOpen,
    /// The key of the password that is set was derived.
    SetupDerive(Vault),
    /// The credentials were sealed with it and written, or why they were not.
    SetupRekey(Result<(Vault, Vec<SessionConfig>), String>),
    /// The password is to be changed.
    ChangeOpen,
    /// The password there is is typed.
    ChangeCurrent(String),
    /// The password there is to be is typed.
    ChangeNew(String),
    /// The password there is to be is typed once more.
    ChangeConfirm(String),
    /// The user says to have learnt it, or not.
    ChangeMemorized(bool),
    /// Changing the password is given up.
    ChangeCancel,
    /// The password is to be changed to what was typed.
    ChangeSubmit,
    /// The keys of both passwords were derived, or why they were not.
    ChangeDerive(Result<(Vault, Vault), Text>),
    /// The credentials were sealed with the new one and written, or why they were not.
    ChangeRekey(Result<(Vault, Vec<SessionConfig>), String>),
    /// The password is to be given up.
    Disable,
    /// The credentials were sealed with a random key and written, or why they were not.
    Disabled(Result<(Vault, Vec<SessionConfig>), String>),
    /// The key is to be kept by the system, or no longer.
    RememberToggled(bool),
}

/// What is to be done.
pub enum Event {
    /// This is the vault from now on.
    SetVault(Vault),
    /// These are the sessions from now on.
    SetSessions(Vec<SessionConfig>),
    /// The key is to be kept by the system, or no longer.
    SetRemember(bool),
    /// The user is to be told.
    Toast(ToastKind, Text),
    /// The system is to keep this key.
    StoreKey([u8; 32]),
    /// The header of the credentials is to be read.
    ReadHeader,
    /// The key of this password is to be derived.
    Derive(String),
    /// The first password is to be checked, and the key of the second one derived.
    CheckAndDerive(String, String),
    /// The credentials, sealed with the vault there is, are to be sealed with this one and
    /// written: a password was set.
    Rekey(Vault),
    /// The credentials, sealed with the first vault, are to be sealed with the second one and
    /// written: the password was changed.
    RekeyFrom(Vault, Vault),
    /// The credentials are to be sealed with a random key and written.
    RekeyRandom,
}

/// What an [`Event`] holds.
pub enum EventView {
    /// This is the vault from now on.
    SetVault(VaultView),
    /// These are the sessions from now on.
    SetSessions(Seq<SessionView>),
    /// The key is to be kept by the system, or no longer.
    SetRemember(bool),
    /// The user is to be told.
    Toast(ToastKind, TextView),
    /// The system is to keep this key.
    StoreKey(Seq<u8>),
    /// The header of the credentials is to be read.
    ReadHeader,
    /// The key of this password is to be derived.
    Derive(Seq<char>),
    /// The first password is to be checked, and the key of the second one derived.
    CheckAndDerive(Seq<char>, Seq<char>),
    /// The credentials are to be sealed with this vault and written.
    Rekey(VaultView),
    /// The credentials, sealed with the first vault, are to be sealed with the second one.
    RekeyFrom(VaultView, VaultView),
    /// The credentials are to be sealed with a random key and written.
    RekeyRandom,
}

impl View for Event {
    type V = EventView;

    open spec fn view(&self) -> EventView {
        match *self {
            Event::SetVault(v) => EventView::SetVault(v@),
            Event::SetSessions(s) => EventView::SetSessions(session::views(s@)),
            Event::SetRemember(b) => EventView::SetRemember(b),
            Event::Toast(kind, t) => EventView::Toast(kind, t@),
            Event::StoreKey(key) => EventView::StoreKey(key@),
            Event::ReadHeader => EventView::ReadHeader,
            Event::Derive(p) => EventView::Derive(p@),
            Event::CheckAndDerive(p, q) => EventView::CheckAndDerive(p@, q@),
            Event::Rekey(v) => EventView::Rekey(v@),
            Event::RekeyFrom(v, w) => EventView::RekeyFrom(v@, w@),
            Event::RekeyRandom => EventView::RekeyRandom,
        }
    }
}

/// What a list of events holds.
pub open spec fn events_of(list: Seq<Event>) -> Seq<EventView> {
    Seq::new(list.len(), |i: int| list[i]@)
}

/// What the panel knows of the rest.
#[derive(Debug, Clone, Copy, PartialEq, Eq, Structural)]
pub struct Ctx {
    /// Whether there is a place for the sessions.
    pub has_store: bool,
    /// Whether there is a vault.
    pub has_vault: bool,
    /// Whether the system is to keep the key.
    pub remember: bool,
}

/// The entry of the catalogue.
pub open spec fn entry(key: Seq<char>) -> Option<TextView> {
    Some(i18n::plain(i18n::entry(key)))
}

/// The panel with nothing typed to set or unlock.
pub open spec fn cleared(p: PanelView) -> PanelView {
    PanelView { input: Seq::empty(), confirm: Seq::empty(), memorized: false, error: None, ..p }
}

/// The panel with nothing typed to change.
pub open spec fn change_cleared(p: PanelView) -> PanelView {
    PanelView {
        change_current: Seq::empty(),
        change_new: Seq::empty(),
        change_new_confirm: Seq::empty(),
        change_memorized: false,
        change_error: None,
        ..p
    }
}

/// An empty panel.
pub open spec fn empty_panel() -> PanelView {
    PanelView {
        input: Seq::empty(),
        confirm: Seq::empty(),
        memorized: false,
        error: None,
        stage: MpwStage::Idle,
        setup: false,
        change_open: false,
        change_current: Seq::empty(),
        change_new: Seq::empty(),
        change_new_confirm: Seq::empty(),
        change_memorized: false,
        change_error: None,
    }
}

/// The key is kept by the system where that is wished.
pub open spec fn kept(remember: bool, key: Seq<u8>) -> Seq<EventView> {
    if remember {
        seq![EventView::StoreKey(key)]
    } else {
        Seq::empty()
    }
}

/// A password is set with what was typed, if that is in order.
pub open spec fn setup_submitted(p: PanelView, ctx: Ctx) -> (PanelView, Seq<EventView>) {
    if p.stage != MpwStage::Idle {
        (p, Seq::empty())
    } else if p.input.len() == 0 {
        (PanelView { error: entry("masterpw.empty"@), ..p }, Seq::empty())
    } else if p.input != p.confirm {
        (PanelView { error: entry("masterpw.mismatch"@), ..p }, Seq::empty())
    } else if !p.memorized {
        (PanelView { error: entry("masterpw.not_memorized"@), ..p }, Seq::empty())
    } else if !ctx.has_store {
        (PanelView { error: entry("masterpw.no_store"@), ..p }, Seq::empty())
    } else {
        (
            PanelView { stage: MpwStage::Deriving, ..p },
            seq![EventView::Derive(p.input)],
        )
    }
}

/// The credentials are unlocked with what was typed.
pub open spec fn unlock_submitted(p: PanelView, ctx: Ctx) -> (PanelView, Seq<EventView>) {
    if !ctx.has_store {
        (PanelView { error: entry("masterpw.no_store"@), ..p }, Seq::empty())
    } else {
        (p, seq![EventView::ReadHeader])
    }
}

/// The password is changed to what was typed, if that is in order.
pub open spec fn change_submitted(p: PanelView, ctx: Ctx) -> (PanelView, Seq<EventView>) {
    if p.stage != MpwStage::Idle {
        (p, Seq::empty())
    } else if p.change_current.len() == 0 || p.change_new.len() == 0 {
        (PanelView { change_error: entry("masterpw.empty"@), ..p }, Seq::empty())
    } else if p.change_new != p.change_new_confirm {
        (PanelView { change_error: entry("masterpw.mismatch"@), ..p }, Seq::empty())
    } else if !p.change_memorized {
        (PanelView { change_error: entry("masterpw.not_memorized"@), ..p }, Seq::empty())
    } else if !ctx.has_vault || !ctx.has_store {
        (PanelView { change_error: entry("masterpw.no_store"@), ..p }, Seq::empty())
    } else {
        (
            PanelView { stage: MpwStage::Deriving, ..p },
            seq![EventView::CheckAndDerive(p.change_current, p.change_new)],
        )
    }
}

/// What becomes of the panel, and what is to be done.
pub open spec fn step(p: PanelView, msg: Message, ctx: Ctx) -> (PanelView, Seq<EventView>) {
    match msg {
        Message::Noop => (p, Seq::empty()),
        Message::Input(v) => (PanelView { input: v@, error: None, ..p }, Seq::empty()),
        Message::Confirm(v) => (PanelView { confirm: v@, error: None, ..p }, Seq::empty()),
        Message::Memorized(b) => (PanelView { memorized: b, ..p }, Seq::empty()),
        Message::Submit => if p.setup {
            setup_submitted(p, ctx)
        } else {
            unlock_submitted(p, ctx)
        },
        Message::HeaderRead(Err(words)) => (
            PanelView {
                error: Some(i18n::plain(i18n::entry_with("masterpw.read_failed"@, words@))),
                ..p
            },
            Seq::empty(),
        ),
        Message::HeaderRead(Ok(header)) => match crypto::unlocked(p.input, header@) {
            Ok(dek) => (
                cleared(p),
                kept(ctx.remember, dek).push(
                    EventView::SetVault(VaultView { dek, header: header@ }),
                ),
            ),
            Err(_) => (PanelView { error: entry("masterpw.wrong"@), ..p }, Seq::empty()),
        },
        Message::Cancel => (cleared(PanelView { setup: false, ..p }), Seq::empty()),
        Message::SetupOpen => (cleared(PanelView { setup: true, ..p }), Seq::empty()),
        Message::SetupDerive(v) => if !ctx.has_store {
            (
                PanelView { stage: MpwStage::Idle, error: entry("masterpw.no_store"@), ..p },
                Seq::empty(),
            )
        } else {
            (PanelView { stage: MpwStage::Reencrypting, ..p }, seq![EventView::Rekey(v@)])
        },
        Message::SetupRekey(Ok((v, sessions))) => (
            cleared(PanelView { setup: false, stage: MpwStage::Idle, ..p }),
            kept(ctx.remember, v@.dek) + seq![
                EventView::SetVault(v@),
                EventView::SetSessions(session::views(sessions@)),
            ],
        ),
        Message::SetupRekey(Err(words)) => (
            PanelView {
                stage: MpwStage::Idle,
                error: Some(i18n::plain(i18n::WordingView::Verbatim(words@))),
                ..p
            },
            Seq::empty(),
        ),
        Message::ChangeOpen => (change_cleared(PanelView { change_open: true, ..p }), Seq::empty()),
        Message::ChangeCurrent(v) => (
            PanelView { change_current: v@, change_error: None, ..p },
            Seq::empty(),
        ),
        Message::ChangeNew(v) => (
            PanelView { change_new: v@, change_error: None, ..p },
            Seq::empty(),
        ),
        Message::ChangeConfirm(v) => (
            PanelView { change_new_confirm: v@, change_error: None, ..p },
            Seq::empty(),
        ),
        Message::ChangeMemorized(b) => (PanelView { change_memorized: b, ..p }, Seq::empty()),
        Message::ChangeCancel => (
            change_cleared(PanelView { change_open: false, ..p }),
            Seq::empty(),
        ),
        Message::ChangeSubmit => change_submitted(p, ctx),
        Message::ChangeDerive(Err(t)) => (
            PanelView { stage: MpwStage::Idle, change_error: Some(t@), ..p },
            Seq::empty(),
        ),
        Message::ChangeDerive(Ok((from, to))) => if !ctx.has_store {
            (
                PanelView { stage: MpwStage::Idle, change_error: entry("masterpw.no_store"@), ..p },
                Seq::empty(),
            )
        } else {
            (
                PanelView { stage: MpwStage::Reencrypting, ..p },
                seq![EventView::RekeyFrom(from@, to@)],
            )
        },
        Message::ChangeRekey(Ok((v, sessions))) => (
            change_cleared(PanelView { change_open: false, stage: MpwStage::Idle, ..p }),
            kept(ctx.remember, v@.dek) + seq![
                EventView::SetVault(v@),
                EventView::SetSessions(session::views(sessions@)),
                EventView::Toast(
                    ToastKind::Success,
                    i18n::plain(i18n::entry("masterpw.changed"@)),
                ),
            ],
        ),
        Message::ChangeRekey(Err(words)) => (
            PanelView {
                stage: MpwStage::Idle,
                change_error: Some(i18n::plain(i18n::WordingView::Verbatim(words@))),
                ..p
            },
            Seq::empty(),
        ),
        Message::Disable => if !ctx.has_vault || !ctx.has_store {
            (PanelView { error: entry("masterpw.no_store"@), ..p }, Seq::empty())
        } else {
            (p, seq![EventView::RekeyRandom])
        },
        Message::Disabled(Ok((v, sessions))) => (
            p,
            seq![
                EventView::StoreKey(v@.dek),
                EventView::SetVault(v@),
                EventView::SetSessions(session::views(sessions@)),
                EventView::Toast(
                    ToastKind::Success,
                    i18n::plain(i18n::entry("masterpw.disabled"@)),
                ),
            ],
        ),
        Message::Disabled(Err(words)) => (
            PanelView {
                error: Some(i18n::plain(i18n::entry_with("masterpw.write_failed"@, words@))),
                ..p
            },
            Seq::empty(),
        ),
        Message::RememberToggled(b) => (p, seq![EventView::SetRemember(b)]),
    }
}

impl Default for State {
    fn default() -> (r: State)
        ensures
            r@ == empty_panel(),
    {
        State::new()
    }
}

/// The key is kept by the system where that is wished.
fn keep(remember: bool, vault: &Vault) -> (r: Vec<Event>)
    ensures
        events_of(r@) == kept(remember, vault@.dek),
{
    let mut events: Vec<Event> = Vec::new();
    if remember {
        events.push(Event::StoreKey(vault.dek_bytes()));
    }
    assert(events_of(events@) =~= kept(remember, vault@.dek));
    events
}

/// One event.
fn only(e: Event) -> (r: Vec<Event>)
    ensures
        events_of(r@) == seq![e@],
{
    let mut events: Vec<Event> = Vec::new();
    events.push(e);
    assert(events_of(events@) =~= seq![e@]);
    events
}

/// No event.
fn none() -> (r: Vec<Event>)
    ensures
        events_of(r@) == Seq::<EventView>::empty(),
{
    let events: Vec<Event> = Vec::new();
    assert(events_of(events@) =~= Seq::<EventView>::empty());
    events
}

/// One more event.
fn push(events: &mut Vec<Event>, e: Event)
    ensures
        events_of(final(events)@) == events_of(old(events)@).push(e@),
{
    let ghost before = events_of(events@);
    events.push(e);
    assert(events_of(events@) =~= before.push(e@));
}

impl State {
    /// An empty panel.
    pub fn new() -> (r: State)
        ensures
            r@ == empty_panel(),
    {
        let r = State {
            input: String::new(),
            confirm: String::new(),
            memorized: false,
            error: None,
            stage: MpwStage::Idle,
            setup: false,
            change_open: false,
            change_current: String::new(),
            change_new: String::new(),
            change_new_confirm: String::new(),
            change_memorized: false,
            change_error: None,
        };
        assert(r@ =~= empty_panel());
        r
    }

    /// What was typed to set or unlock is forgotten.
    fn clear_fields(&mut self)
        ensures
            final(self)@ == cleared(old(self)@),
    {
        self.input = String::new();
        self.confirm = String::new();
        self.memorized = false;
        self.error = None;
        assert(self@ =~= cleared(old(self)@));
    }

    /// What was typed to change is forgotten.
    fn clear_change(&mut self)
        ensures
            final(self)@ == change_cleared(old(self)@),
    {
        self.change_current = String::new();
        self.change_new = String::new();
        self.change_new_confirm = String::new();
        self.change_memorized = false;
        self.change_error = None;
        assert(self@ =~= change_cleared(old(self)@));
    }

    /// A password is set with what was typed, if that is in order.
    fn submit_setup(&mut self, ctx: &Ctx) -> (r: Vec<Event>)
        ensures
            (final(self)@, events_of(r@)) == setup_submitted(old(self)@, *ctx),
    {
        if self.stage != MpwStage::Idle {
            return none();
        }
        if self.input.as_str().is_empty() {
            self.error = Some(Text::entry("masterpw.empty"));
            return none();
        }
        if !text::same(self.input.as_str(), self.confirm.as_str()) {
            self.error = Some(Text::entry("masterpw.mismatch"));
            return none();
        }
        if !self.memorized {
            self.error = Some(Text::entry("masterpw.not_memorized"));
            return none();
        }
        if !ctx.has_store {
            self.error = Some(Text::entry("masterpw.no_store"));
            return none();
        }
        self.stage = MpwStage::Deriving;
        only(Event::Derive(self.input.clone()))
    }

    /// The credentials are unlocked with what was typed.
    fn submit_unlock(&mut self, ctx: &Ctx) -> (r: Vec<Event>)
        ensures
            (final(self)@, events_of(r@)) == unlock_submitted(old(self)@, *ctx),
    {
        if !ctx.has_store {
            self.error = Some(Text::entry("masterpw.no_store"));
            return none();
        }
        only(Event::ReadHeader)
    }

    /// The password is changed to what was typed, if that is in order.
    fn change_submit(&mut self, ctx: &Ctx) -> (r: Vec<Event>)
        ensures
            (final(self)@, events_of(r@)) == change_submitted(old(self)@, *ctx),
    {
        if self.stage != MpwStage::Idle {
            return none();
        }
        if self.change_current.as_str().is_empty() || self.change_new.as_str().is_empty() {
            self.change_error = Some(Text::entry("masterpw.empty"));
            return none();
        }
        if !text::same(self.change_new.as_str(), self.change_new_confirm.as_str()) {
            self.change_error = Some(Text::entry("masterpw.mismatch"));
            return none();
        }
        if !self.change_memorized {
            self.change_error = Some(Text::entry("masterpw.not_memorized"));
            return none();
        }
        if !ctx.has_vault || !ctx.has_store {
            self.change_error = Some(Text::entry("masterpw.no_store"));
            return none();
        }
        self.stage = MpwStage::Deriving;
        only(Event::CheckAndDerive(self.change_current.clone(), self.change_new.clone()))
    }

    /// The header was read: what was typed unlocks the credentials, or it does not.
    fn unlock(&mut self, header: &CryptoHeader, ctx: &Ctx) -> (r: Vec<Event>)
        ensures
            (final(self)@, events_of(r@)) == (match crypto::unlocked(old(self)@.input, header@) {
                Ok(dek) => (
                    cleared(old(self)@),
                    kept(ctx.remember, dek).push(
                        EventView::SetVault(VaultView { dek, header: header@ }),
                    ),
                ),
                Err(_) => (
                    PanelView { error: entry("masterpw.wrong"@), ..old(self)@ },
                    Seq::<EventView>::empty(),
                ),
            }),
    {
        match Vault::unlock(self.input.as_str(), header) {
            Ok(vault) => {
                let mut events = keep(ctx.remember, &vault);
                self.clear_fields();
                push(&mut events, Event::SetVault(vault));
                events
            },
            Err(_) => {
                self.error = Some(Text::entry("masterpw.wrong"));
                none()
            },
        }
    }

    /// The panel changes, and what is to be done is told.
    pub fn update(&mut self, msg: Message, ctx: &Ctx) -> (r: Vec<Event>)
        ensures
            (final(self)@, events_of(r@)) == step(old(self)@, msg, *ctx),
    {
        match msg {
            Message::Noop => none(),
            Message::Input(v) => {
                self.input = v;
                self.error = None;
                none()
            },
            Message::Confirm(v) => {
                self.confirm = v;
                self.error = None;
                none()
            },
            Message::Memorized(b) => {
                self.memorized = b;
                none()
            },
            Message::Submit => if self.setup {
                self.submit_setup(ctx)
            } else {
                self.submit_unlock(ctx)
            },
            Message::HeaderRead(Err(words)) => {
                self.error = Some(Text::entry_with("masterpw.read_failed", words));
                none()
            },
            Message::HeaderRead(Ok(header)) => self.unlock(&header, ctx),
            Message::Cancel => {
                self.setup = false;
                self.clear_fields();
                none()
            },
            Message::SetupOpen => {
                self.setup = true;
                self.clear_fields();
                none()
            },
            Message::SetupDerive(vault) => {
                if !ctx.has_store {
                    self.stage = MpwStage::Idle;
                    self.error = Some(Text::entry("masterpw.no_store"));
                    return none();
                }
                self.stage = MpwStage::Reencrypting;
                only(Event::Rekey(vault))
            },
            Message::SetupRekey(Ok((vault, sessions))) => {
                self.setup = false;
                let mut events = keep(ctx.remember, &vault);
                self.stage = MpwStage::Idle;
                self.clear_fields();
                push(&mut events, Event::SetVault(vault));
                push(&mut events, Event::SetSessions(sessions));
                assert(events_of(events@) =~= kept(ctx.remember, vault@.dek) + seq![
                    EventView::SetVault(vault@),
                    EventView::SetSessions(session::views(sessions@)),
                ]);
                events
            },
            Message::SetupRekey(Err(words)) => {
                self.stage = MpwStage::Idle;
                self.error = Some(Text::verbatim(words));
                none()
            },
            Message::ChangeOpen => {
                self.change_open = true;
                self.clear_change();
                none()
            },
            Message::ChangeCurrent(v) => {
                self.change_current = v;
                self.change_error = None;
                none()
            },
            Message::ChangeNew(v) => {
                self.change_new = v;
                self.change_error = None;
                none()
            },
            Message::ChangeConfirm(v) => {
                self.change_new_confirm = v;
                self.change_error = None;
                none()
            },
            Message::ChangeMemorized(b) => {
                self.change_memorized = b;
                none()
            },
            Message::ChangeCancel => {
                self.change_open = false;
                self.clear_change();
                none()
            },
            Message::ChangeSubmit => self.change_submit(ctx),
            Message::ChangeDerive(Err(t)) => {
                self.stage = MpwStage::Idle;
                self.change_error = Some(t);
                none()
            },
            Message::ChangeDerive(Ok((from, to))) => {
                if !ctx.has_store {
                    self.stage = MpwStage::Idle;
                    self.change_error = Some(Text::entry("masterpw.no_store"));
                    return none();
                }
                self.stage = MpwStage::Reencrypting;
                only(Event::RekeyFrom(from, to))
            },
            Message::ChangeRekey(Ok((vault, sessions))) => {
                let mut events = keep(ctx.remember, &vault);
                self.change_open = false;
                self.stage = MpwStage::Idle;
                self.clear_change();
                push(&mut events, Event::SetVault(vault));
                push(&mut events, Event::SetSessions(sessions));
                push(
                    &mut events,
                    Event::Toast(ToastKind::Success, Text::entry("masterpw.changed")),
                );
                assert(events_of(events@) =~= kept(ctx.remember, vault@.dek) + seq![
                    EventView::SetVault(vault@),
                    EventView::SetSessions(session::views(sessions@)),
                    EventView::Toast(
                        ToastKind::Success,
                        i18n::plain(i18n::entry("masterpw.changed"@)),
                    ),
                ]);
                events
            },
            Message::ChangeRekey(Err(words)) => {
                self.stage = MpwStage::Idle;
                self.change_error = Some(Text::verbatim(words));
                none()
            },
            Message::Disable => {
                if !ctx.has_vault || !ctx.has_store {
                    self.error = Some(Text::entry("masterpw.no_store"));
                    return none();
                }
                only(Event::RekeyRandom)
            },
            Message::Disabled(Ok((vault, sessions))) => {
                let mut events = keep(true, &vault);
                push(&mut events, Event::SetVault(vault));
                push(&mut events, Event::SetSessions(sessions));
                push(
                    &mut events,
                    Event::Toast(ToastKind::Success, Text::entry("masterpw.disabled")),
                );
                assert(events_of(events@) =~= seq![
                    EventView::StoreKey(vault@.dek),
                    EventView::SetVault(vault@),
                    EventView::SetSessions(session::views(sessions@)),
                    EventView::Toast(
                        ToastKind::Success,
                        i18n::plain(i18n::entry("masterpw.disabled"@)),
                    ),
                ]);
                events
            },
            Message::Disabled(Err(words)) => {
                self.error = Some(Text::entry_with("masterpw.write_failed", words));
                none()
            },
            Message::RememberToggled(b) => only(Event::SetRemember(b)),
        }
    }
}

} // verus!
