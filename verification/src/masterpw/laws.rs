//! What holds of the panel of the master password as a whole.

use crate::config::session;
use crate::config::session::SessionConfig;
use crate::crypto;
use crate::crypto::{CryptoHeader, Vault, VaultView};
use crate::i18n;
use crate::masterpw::{self, Ctx, EventView, Message, MpwStage, PanelView};
use vstd::prelude::*;

verus! {

/// The vault and the sessions change only with what was written, and in one step; the one
/// exception is that unlocking sets the vault. While work is done aside they stay.
pub proof fn law_only_what_was_written_counts(p: PanelView, msg: Message, ctx: Ctx, i: int)
    requires
        0 <= i < masterpw::step(p, msg, ctx).1.len(),
    ensures
        masterpw::step(p, msg, ctx).1[i] is SetSessions ==> (msg matches Message::SetupRekey(Ok(_))
            || msg matches Message::ChangeRekey(Ok(_)) || msg matches Message::Disabled(Ok(_))),
        masterpw::step(p, msg, ctx).1[i] is SetVault ==> (msg matches Message::SetupRekey(Ok(_))
            || msg matches Message::ChangeRekey(Ok(_)) || msg matches Message::Disabled(Ok(_))
            || msg matches Message::HeaderRead(Ok(_))),
{
}

/// While keys are derived or credentials are sealed, nothing is submitted a second time.
pub proof fn law_work_is_not_begun_twice(p: PanelView, ctx: Ctx)
    requires
        p.stage != MpwStage::Idle,
    ensures
        masterpw::step(p, Message::ChangeSubmit, ctx) == (p, Seq::<EventView>::empty()),
        p.setup ==> masterpw::step(p, Message::Submit, ctx) == (p, Seq::<EventView>::empty()),
{
}

/// A password that is not the right one changes nothing but what is shown: the dialog stays open,
/// with what was typed, and nothing else is to be done.
pub proof fn law_a_wrong_password_changes_nothing(p: PanelView, t: i18n::Text, ctx: Ctx)
    ensures
        masterpw::step(p, Message::ChangeDerive(Err(t)), ctx) == (
            PanelView { stage: MpwStage::Idle, change_error: Some(t@), ..p },
            Seq::<EventView>::empty(),
        ),
{
}

/// Without a place for the sessions no password is set: it is told, and the dialog stays open.
pub proof fn law_without_a_place_nothing_is_set(p: PanelView, ctx: Ctx)
    requires
        p.setup,
        p.stage == MpwStage::Idle,
        !ctx.has_store,
    ensures
        masterpw::step(p, Message::Submit, ctx).0.error is Some,
        masterpw::step(p, Message::Submit, ctx).0.setup,
        masterpw::step(p, Message::Submit, ctx).1 == Seq::<EventView>::empty(),
{
}

/// No password that was typed is left once it was set, changed or given up, or once it unlocked.
pub proof fn law_typed_passwords_are_forgotten(p: PanelView, msg: Message, ctx: Ctx)
    requires
        msg is Cancel || msg is SetupOpen || msg is ChangeCancel || msg is ChangeOpen || (
        msg matches Message::SetupRekey(Ok(_))) || (msg matches Message::ChangeRekey(Ok(_))),
    ensures
        ({
            let after = masterpw::step(p, msg, ctx).0;
            if msg is ChangeCancel || msg is ChangeOpen || msg is ChangeRekey {
                after.change_current.len() == 0 && after.change_new.len() == 0
                    && after.change_new_confirm.len() == 0
            } else {
                after.input.len() == 0 && after.confirm.len() == 0
            }
        }),
{
}

/// The panel after several messages, one after the other.
pub open spec fn after(p: PanelView, msgs: Seq<Message>, ctx: Ctx) -> PanelView
    decreases msgs.len(),
{
    if msgs.len() == 0 {
        p
    } else {
        masterpw::step(after(p, msgs.drop_last(), ctx), msgs.last(), ctx).0
    }
}

proof fn lemma_after(p: PanelView, msgs: Seq<Message>, msg: Message, ctx: Ctx)
    ensures
        after(p, msgs.push(msg), ctx) == masterpw::step(after(p, msgs, ctx), msg, ctx).0,
{
    assert(msgs.push(msg).drop_last() =~= msgs);
}

/// A password is set exactly where the same one was typed twice, is not empty, was said to be
/// memorized, and there is a place for what is sealed: its key is then derived, and that of no
/// other password. Else what is wrong is told, and the dialog stays open.
pub proof fn law_a_password_is_set_as_it_was_typed(
    p: PanelView,
    first: String,
    second: String,
    memorized: bool,
    ctx: Ctx,
)
    requires
        p.setup,
        p.stage == MpwStage::Idle,
    ensures
        ({
            let typed = after(
                p,
                seq![
                    Message::Input(first),
                    Message::Confirm(second),
                    Message::Memorized(memorized),
                ],
                ctx,
            );
            let (panel, events) = masterpw::step(typed, Message::Submit, ctx);
            if first@.len() > 0 && first@ == second@ && memorized && ctx.has_store {
                events == seq![EventView::Derive(first@)] && panel.stage == MpwStage::Deriving
            } else {
                &&& events.len() == 0
                &&& panel.stage == MpwStage::Idle
                &&& panel.setup
                &&& panel.error == Some(
                    i18n::plain(
                        i18n::entry(
                            if first@.len() == 0 {
                                "masterpw.empty"@
                            } else if first@ != second@ {
                                "masterpw.mismatch"@
                            } else if !memorized {
                                "masterpw.not_memorized"@
                            } else {
                                "masterpw.no_store"@
                            },
                        ),
                    ),
                )
            }
        }),
{
    let a = seq![Message::Input(first)];
    let b = a.push(Message::Confirm(second));
    let c = b.push(Message::Memorized(memorized));
    lemma_after(p, Seq::empty(), Message::Input(first), ctx);
    assert(Seq::<Message>::empty().push(Message::Input(first)) =~= a);
    lemma_after(p, a, Message::Confirm(second), ctx);
    lemma_after(p, b, Message::Memorized(memorized), ctx);
    assert(c =~= seq![
        Message::Input(first),
        Message::Confirm(second),
        Message::Memorized(memorized),
    ]);
}

/// The password is changed exactly where the one there is and the new one were typed, the new one
/// twice alike and said to be memorized, and there is a vault and a place for it.
pub proof fn law_a_password_is_changed_as_it_was_typed(
    p: PanelView,
    current: String,
    new: String,
    again: String,
    memorized: bool,
    ctx: Ctx,
)
    requires
        p.stage == MpwStage::Idle,
    ensures
        ({
            let typed = after(
                p,
                seq![
                    Message::ChangeCurrent(current),
                    Message::ChangeNew(new),
                    Message::ChangeConfirm(again),
                    Message::ChangeMemorized(memorized),
                ],
                ctx,
            );
            let (panel, events) = masterpw::step(typed, Message::ChangeSubmit, ctx);
            if current@.len() > 0 && new@.len() > 0 && new@ == again@ && memorized && ctx.has_vault
                && ctx.has_store {
                events == seq![EventView::CheckAndDerive(current@, new@)] && panel.stage
                    == MpwStage::Deriving
            } else {
                &&& events.len() == 0
                &&& panel.stage == MpwStage::Idle
                &&& panel.change_open == p.change_open
                &&& panel.change_error == Some(
                    i18n::plain(
                        i18n::entry(
                            if current@.len() == 0 || new@.len() == 0 {
                                "masterpw.empty"@
                            } else if new@ != again@ {
                                "masterpw.mismatch"@
                            } else if !memorized {
                                "masterpw.not_memorized"@
                            } else {
                                "masterpw.no_store"@
                            },
                        ),
                    ),
                )
            }
        }),
{
    let a = seq![Message::ChangeCurrent(current)];
    let b = a.push(Message::ChangeNew(new));
    let c = b.push(Message::ChangeConfirm(again));
    let d = c.push(Message::ChangeMemorized(memorized));
    lemma_after(p, Seq::empty(), Message::ChangeCurrent(current), ctx);
    assert(Seq::<Message>::empty().push(Message::ChangeCurrent(current)) =~= a);
    lemma_after(p, a, Message::ChangeNew(new), ctx);
    lemma_after(p, b, Message::ChangeConfirm(again), ctx);
    lemma_after(p, c, Message::ChangeMemorized(memorized), ctx);
    assert(d =~= seq![
        Message::ChangeCurrent(current),
        Message::ChangeNew(new),
        Message::ChangeConfirm(again),
        Message::ChangeMemorized(memorized),
    ]);
}

/// What was typed unlocks what was sealed with it: where it gives the right key, that key and the
/// header that was read are the vault from then on, what was typed is forgotten, and the key is kept
/// by the system exactly where that is wished. Where it does not, there is no vault, and the user
/// may try again.
pub proof fn law_the_right_password_unlocks(p: PanelView, typed: String, header: CryptoHeader, ctx: Ctx)
    requires
        !p.setup,
    ensures
        ({
            let panel = after(p, seq![Message::Input(typed)], ctx);
            let (asked, events) = masterpw::step(panel, Message::Submit, ctx);
            let (done, news) = masterpw::step(asked, Message::HeaderRead(Ok(header)), ctx);
            &&& ctx.has_store ==> events == seq![EventView::ReadHeader]
            &&& !ctx.has_store ==> events.len() == 0 && asked.error is Some
            &&& match crypto::unlocked(typed@, header@) {
                Ok(dek) => {
                    &&& news.contains(EventView::SetVault(VaultView { dek, header: header@ }))
                    &&& done.input.len() == 0
                    &&& done.error is None
                    &&& news.contains(EventView::StoreKey(dek)) <==> ctx.remember
                },
                Err(_) => news.len() == 0 && done.input == typed@ && done.error == Some(
                    i18n::plain(i18n::entry("masterpw.wrong"@)),
                ),
            }
        }),
{
    lemma_after(p, Seq::empty(), Message::Input(typed), ctx);
    assert(Seq::<Message>::empty().push(Message::Input(typed)) =~= seq![Message::Input(typed)]);
    let panel = after(p, seq![Message::Input(typed)], ctx);
    let asked = masterpw::step(panel, Message::Submit, ctx).0;
    let news = masterpw::step(asked, Message::HeaderRead(Ok(header)), ctx).1;
    if let Ok(dek) = crypto::unlocked(typed@, header@) {
        assert(news.last() == EventView::SetVault(VaultView { dek, header: header@ }));
        assert(news[news.len() - 1] == EventView::SetVault(VaultView { dek, header: header@ }));
        if ctx.remember {
            assert(news[0] == EventView::StoreKey(dek));
        } else {
            assert(news.len() == 1);
        }
    }
}

/// What was derived is what credentials are sealed with: of a new password, from the vault there
/// is; of a changed one, from the vault of the password there was. Without a place nothing is.
pub proof fn law_credentials_are_sealed_with_the_new_key(p: PanelView, from: Vault, to: Vault, ctx: Ctx)
    ensures
        ({
            let (set, first) = masterpw::step(p, Message::SetupDerive(to), ctx);
            let (changed, second) = masterpw::step(p, Message::ChangeDerive(Ok((from, to))), ctx);
            &&& ctx.has_store ==> first == seq![EventView::Rekey(to@)] && set.stage
                == MpwStage::Reencrypting
            &&& !ctx.has_store ==> first.len() == 0 && set.stage == MpwStage::Idle && set.error is Some
            &&& ctx.has_store ==> second == seq![EventView::RekeyFrom(from@, to@)] && changed.stage
                == MpwStage::Reencrypting
            &&& !ctx.has_store ==> second.len() == 0 && changed.stage == MpwStage::Idle
                && changed.change_error is Some
        }),
{
}

/// What was written counts: the vault and the sessions that were written are those there are from
/// then on, the dialog closes, and the key is kept by the system where that is wished. What could
/// not be written is told, and nothing else changes.
pub proof fn law_what_was_written_is_taken(
    p: PanelView,
    v: Vault,
    sessions: Vec<SessionConfig>,
    words: String,
    ctx: Ctx,
)
    ensures
        ({
            let list = session::views(sessions@);
            let (set, first) = masterpw::step(p, Message::SetupRekey(Ok((v, sessions))), ctx);
            let (changed, second) = masterpw::step(p, Message::ChangeRekey(Ok((v, sessions))), ctx);
            &&& first.contains(EventView::SetVault(v@)) && first.contains(
                EventView::SetSessions(list),
            )
            &&& first.contains(EventView::StoreKey(v@.dek)) <==> ctx.remember
            &&& !set.setup && set.stage == MpwStage::Idle
            &&& second.contains(EventView::SetVault(v@)) && second.contains(
                EventView::SetSessions(list),
            )
            &&& second.contains(EventView::StoreKey(v@.dek)) <==> ctx.remember
            &&& !changed.change_open && changed.stage == MpwStage::Idle
        }),
        ({
            let (set, first) = masterpw::step(p, Message::SetupRekey(Err(words)), ctx);
            let (changed, second) = masterpw::step(p, Message::ChangeRekey(Err(words)), ctx);
            &&& first.len() == 0 && second.len() == 0
            &&& set == (PanelView {
                stage: MpwStage::Idle,
                error: Some(i18n::plain(i18n::WordingView::Verbatim(words@))),
                ..p
            })
            &&& changed == (PanelView {
                stage: MpwStage::Idle,
                change_error: Some(i18n::plain(i18n::WordingView::Verbatim(words@))),
                ..p
            })
        }),
{
    let list = session::views(sessions@);
    let first = masterpw::step(p, Message::SetupRekey(Ok((v, sessions))), ctx).1;
    let second = masterpw::step(p, Message::ChangeRekey(Ok((v, sessions))), ctx).1;
    let k: int = if ctx.remember {
        1
    } else {
        0
    };
    if ctx.remember {
        assert(first[0] == EventView::StoreKey(v@.dek));
        assert(second[0] == EventView::StoreKey(v@.dek));
    } else {
        assert(first.len() == 2 && second.len() == 3);
    }
    assert(first[k] == EventView::SetVault(v@));
    assert(first[k + 1] == EventView::SetSessions(list));
    assert(second[k] == EventView::SetVault(v@));
    assert(second[k + 1] == EventView::SetSessions(list));
}

/// A password that is given up leaves a random key, which the system has to keep whatever is
/// wished: nobody could open the credentials again else.
pub proof fn law_without_a_password_the_system_keeps_the_key(
    p: PanelView,
    v: Vault,
    sessions: Vec<SessionConfig>,
    words: String,
    ctx: Ctx,
)
    ensures
        ({
            let (panel, events) = masterpw::step(p, Message::Disabled(Ok((v, sessions))), ctx);
            &&& panel == p
            &&& events.contains(EventView::StoreKey(v@.dek))
            &&& events.contains(EventView::SetVault(v@))
            &&& events.contains(EventView::SetSessions(session::views(sessions@)))
        }),
        ctx.has_vault && ctx.has_store ==> masterpw::step(p, Message::Disable, ctx) == (
            p,
            seq![EventView::RekeyRandom],
        ),
        !ctx.has_vault || !ctx.has_store ==> masterpw::step(p, Message::Disable, ctx).1.len() == 0
            && masterpw::step(p, Message::Disable, ctx).0.error is Some,
        masterpw::step(p, Message::Disabled(Err(words)), ctx).1.len() == 0,
        masterpw::step(p, Message::Disabled(Err(words)), ctx).0 == (PanelView {
            error: Some(i18n::plain(i18n::entry_with("masterpw.write_failed"@, words@))),
            ..p
        }),
{
    let events = masterpw::step(p, Message::Disabled(Ok((v, sessions))), ctx).1;
    assert(events[0] == EventView::StoreKey(v@.dek));
    assert(events[1] == EventView::SetVault(v@));
    assert(events[2] == EventView::SetSessions(session::views(sessions@)));
}

/// To type into one field changes that field, takes back what was wrong in its dialog, and does
/// nothing else; to open a dialog empties it, and to close it does too.
pub proof fn law_fields_hold_what_was_typed(p: PanelView, v: String, b: bool, ctx: Ctx)
    ensures
        masterpw::step(p, Message::Input(v), ctx) == (
            PanelView { input: v@, error: None, ..p },
            Seq::<EventView>::empty(),
        ),
        masterpw::step(p, Message::Confirm(v), ctx) == (
            PanelView { confirm: v@, error: None, ..p },
            Seq::<EventView>::empty(),
        ),
        masterpw::step(p, Message::Memorized(b), ctx) == (
            PanelView { memorized: b, ..p },
            Seq::<EventView>::empty(),
        ),
        ({
            let open = masterpw::step(p, Message::SetupOpen, ctx).0;
            let closed = masterpw::step(open, Message::Cancel, ctx).0;
            &&& open.setup && !closed.setup
            &&& open.input.len() == 0 && open.confirm.len() == 0 && !open.memorized && open.error
                is None
            &&& open.change_open == p.change_open && open.stage == p.stage
        }),
        ({
            let open = masterpw::step(p, Message::ChangeOpen, ctx).0;
            let closed = masterpw::step(open, Message::ChangeCancel, ctx).0;
            &&& open.change_open && !closed.change_open
            &&& open.change_current.len() == 0 && open.change_new.len() == 0
                && open.change_new_confirm.len() == 0 && !open.change_memorized && open.change_error
                is None
            &&& open.setup == p.setup && open.stage == p.stage
        }),
        masterpw::step(p, Message::RememberToggled(b), ctx) == (p, seq![EventView::SetRemember(b)]),
        masterpw::step(p, Message::Noop, ctx) == (p, Seq::<EventView>::empty()),
{
}

/// A header that cannot be read unlocks nothing, and that is told with why.
pub proof fn law_an_unreadable_header_unlocks_nothing(p: PanelView, words: String, ctx: Ctx)
    ensures
        masterpw::step(p, Message::HeaderRead(Err(words)), ctx) == (
            PanelView {
                error: Some(i18n::plain(i18n::entry_with("masterpw.read_failed"@, words@))),
                ..p
            },
            Seq::<EventView>::empty(),
        ),
{
}

} // verus!
