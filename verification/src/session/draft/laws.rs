//! What becomes of what is entered for a session.

use crate::config::session::{AuthView, SessionView};
use crate::crypto;
use crate::i18n;
use crate::session::draft;
use crate::session::draft::{DraftView, SessionField};
use crate::text;
use vstd::prelude::*;
use vstd::utf8;

verus! {

/// The secret that a way to log in holds.
pub open spec fn held(auth: AuthView) -> Option<Seq<u8>> {
    match auth {
        AuthView::Password { password } => password,
        AuthView::PublicKey { passphrase, .. } => passphrase,
        AuthView::Agent => None,
    }
}

/// A secret that is entered is what the session holds, sealed under the key with the nonce: the
/// passphrase for a session with a key, the password for one with a password, and none for one
/// that leaves its keys to the agent. What is entered for another way to log in is not kept.
pub proof fn law_entered_secrets_are_kept(d: DraftView, dek: Seq<u8>, nonce: Seq<u8>)
    requires
        draft::built(d, dek, nonce) is Ok,
    ensures
        ({
            let auth = draft::built(d, dek, nonce)->Ok_0.auth;
            &&& d.auth == "publickey"@ && d.passphrase.len() > 0 ==> held(auth) == Some(
                nonce + crypto::gcm_sealed(dek, nonce, utf8::encode_utf8(d.passphrase)),
            )
            &&& d.auth != "publickey"@ && d.auth != "agent"@ && d.password.len() > 0 ==> held(auth)
                == Some(nonce + crypto::gcm_sealed(dek, nonce, utf8::encode_utf8(d.password)))
            &&& d.auth == "agent"@ ==> held(auth) is None
        }),
{
    reveal_strlit("publickey");
    reveal_strlit("agent");
    assert("publickey"@.len() == 9 && "agent"@.len() == 5);
}

/// What is entered for one way to log in does not touch another: to enter a password changes
/// nothing about a session with a key, and to enter a passphrase nothing about one with a password.
pub proof fn law_other_secrets_are_not_touched(
    d: DraftView,
    password: Seq<char>,
    passphrase: Seq<char>,
    dek: Seq<u8>,
    nonce: Seq<u8>,
)
    ensures
        d.auth == "publickey"@ ==> draft::built(DraftView { password, ..d }, dek, nonce)
            == draft::built(d, dek, nonce),
        d.auth != "publickey"@ ==> draft::built(DraftView { passphrase, ..d }, dek, nonce)
            == draft::built(d, dek, nonce),
        d.auth == "agent"@ ==> draft::built(DraftView { password, passphrase, ..d }, dek, nonce)
            == draft::built(d, dek, nonce),
{
    reveal_strlit("publickey");
    reveal_strlit("agent");
    assert("publickey"@.len() == 9 && "agent"@.len() == 5);
}

/// The session of a draft is the one that the draft shows: each field is what was entered, the
/// way to log in is the one chosen, the key is read from the path given, and the port is the number
/// that was spelled. Without a name, user and host stand for it.
pub proof fn law_a_session_is_what_was_entered(d: DraftView, dek: Seq<u8>, nonce: Seq<u8>)
    requires
        draft::built(d, dek, nonce) is Ok,
    ensures
        ({
            let s = draft::built(d, dek, nonce)->Ok_0;
            &&& s.id == d.id
            &&& s.host == d.host
            &&& s.username == d.username
            &&& s.port > 0 && text::number(d.port, u16::MAX as nat) == Some(s.port as nat)
            &&& text::trimmed(d.name).len() > 0 ==> s.name == d.name
            &&& text::trimmed(d.name).len() == 0 ==> s.name == text::trimmed(d.username).push('@')
                + text::trimmed(d.host)
            &&& d.group.len() == 0 ==> s.group is None
            &&& d.group.len() > 0 ==> s.group == Some(d.group)
            &&& s.auth is PublicKey <==> d.auth == "publickey"@
            &&& s.auth is Agent <==> d.auth == "agent"@
            &&& s.auth matches AuthView::PublicKey { key_path, .. } ==> key_path
                == utf8::encode_utf8(d.key_path)
        }),
{
    reveal_strlit("publickey");
    reveal_strlit("agent");
    assert("publickey"@.len() == 9 && "agent"@.len() == 5);
    reveal_strlit("@");
    assert(text::trimmed(d.username) + "@"@ =~= text::trimmed(d.username).push('@'));
}

/// A draft becomes a session exactly where it has a host and a port that is a number other than
/// zero; of several faults the first is told.
pub proof fn law_what_is_wrong_is_told(d: DraftView, dek: Seq<u8>, nonce: Seq<u8>)
    ensures
        ({
            let r = draft::built(d, dek, nonce);
            let host = text::trimmed(d.host).len() > 0;
            let port = text::number(d.port, 65535);
            &&& r is Ok <==> host && port is Some && port->0 != 0
            &&& !host ==> r == Err::<SessionView, i18n::TextView>(
                i18n::plain(i18n::entry("session.host_empty"@)),
            )
            &&& host && port is None ==> r == Err::<SessionView, i18n::TextView>(
                i18n::plain(i18n::entry("session.port_invalid"@)),
            )
            &&& host && port == Some(0nat) ==> r == Err::<SessionView, i18n::TextView>(
                i18n::plain(i18n::entry("session.port_zero"@)),
            )
        }),
{
}

/// What a field of the editor shows.
pub open spec fn field_of(d: DraftView, field: SessionField) -> Seq<char> {
    match field {
        SessionField::Name => d.name,
        SessionField::Host => d.host,
        SessionField::Port => d.port,
        SessionField::Username => d.username,
        SessionField::Auth => d.auth,
        SessionField::Password => d.password,
        SessionField::KeyPath => d.key_path,
        SessionField::Passphrase => d.passphrase,
        SessionField::Group => d.group,
    }
}

/// To change a field changes that field, to what was entered, and no other.
pub proof fn law_an_edit_changes_one_field(
    d: DraftView,
    field: SessionField,
    other: SessionField,
    value: Seq<char>,
)
    ensures
        field_of(draft::edited(d, field, value), field) == value,
        other != field ==> field_of(draft::edited(d, field, value), other) == field_of(d, other),
        draft::edited(d, field, value).id == d.id,
        draft::edited(d, field, value).orig_auth == d.orig_auth,
        draft::edited(d, field, value).error == d.error,
{
}

/// A draft of a session shows what the session holds, but for its secret, which is only kept; and
/// it says nothing is wrong.
pub proof fn law_a_draft_shows_the_session(s: SessionView)
    ensures
        ({
            let d = draft::drafted(s);
            &&& d.id == s.id
            &&& d.name == s.name
            &&& d.host == s.host
            &&& d.username == s.username
            &&& text::number(d.port, u16::MAX as nat) == Some(s.port as nat)
            &&& d.password.len() == 0
            &&& d.passphrase.len() == 0
            &&& d.group == if s.group is Some {
                s.group->0
            } else {
                Seq::empty()
            }
            &&& d.error is None
            &&& d.orig_auth == Some(s.auth)
            &&& s.auth is Password ==> d.auth == "password"@
            &&& s.auth is PublicKey ==> d.auth == "publickey"@
            &&& s.auth is Agent ==> d.auth == "agent"@
            &&& s.auth matches AuthView::PublicKey { key_path, .. } ==> (utf8::valid_utf8(key_path)
                ==> d.key_path == utf8::decode_utf8(key_path))
        }),
{
    text::law_decimal_reads_back(s.port as nat, u16::MAX as nat);
}

/// A new draft is empty but for the port that SSH has by custom and for the most usual way to log
/// in, and is told from others by when it was made.
pub proof fn law_a_new_draft_is_empty(nanos: u128)
    ensures
        ({
            let d = draft::blank(nanos);
            &&& d.id == "sess-"@ + text::decimal(nanos as nat)
            &&& text::number(d.port, u16::MAX as nat) == Some(22nat)
            &&& d.auth == "password"@
            &&& d.name.len() == 0 && d.host.len() == 0 && d.username.len() == 0
            &&& d.password.len() == 0 && d.key_path.len() == 0 && d.passphrase.len() == 0
            &&& d.group.len() == 0
            &&& d.error is None && d.orig_auth is None
        }),
{
    text::law_decimal_reads_back(22, u16::MAX as nat);
}

} // verus!
