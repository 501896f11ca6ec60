//! Sealing credentials anew, from one key to another.

use crate::config::session::{AuthMethod, AuthView, SessionConfig, SessionView};
use crate::config::session;
use crate::crypto::{CryptoError, CryptoHeader, Envelope, Vault};
use crate::crypto;
use crate::i18n::Text;
use crate::i18n;
use crate::text;
use vstd::prelude::*;

verus! {

/// What a secret becomes when it is sealed with another key and this nonce: what the old key does
/// not open is dropped.
pub open spec fn resealed(
    from: Seq<u8>,
    to: Seq<u8>,
    nonce: Seq<u8>,
    secret: Option<Seq<u8>>,
) -> Option<Seq<u8>> {
    match secret {
        Some(e) => match crypto::decrypted(from, e) {
            Some(plain) => Some(crypto::sealed(to, nonce, plain)),
            None => None,
        },
        None => None,
    }
}

/// What a session becomes when its secret is sealed with another key and this nonce.
pub open spec fn rekeyed(
    s: SessionView,
    from: Seq<u8>,
    to: Seq<u8>,
    nonce: Seq<u8>,
) -> SessionView {
    SessionView {
        auth: match s.auth {
            AuthView::Password { password } => AuthView::Password {
                password: resealed(from, to, nonce, password),
            },
            AuthView::PublicKey { key_path, passphrase } => AuthView::PublicKey {
                key_path,
                passphrase: resealed(from, to, nonce, passphrase),
            },
            AuthView::Agent => AuthView::Agent,
        },
        ..s
    }
}

/// The secret of a session.
pub open spec fn secret_of(s: SessionView) -> Option<Seq<u8>> {
    match s.auth {
        AuthView::Password { password } => password,
        AuthView::PublicKey { passphrase, .. } => passphrase,
        AuthView::Agent => None,
    }
}

/// The secret of a session as this key opens it.
pub open spec fn opened(s: SessionView, key: Seq<u8>) -> Option<Seq<char>> {
    match secret_of(s) {
        Some(e) => crypto::decrypted(key, e),
        None => None,
    }
}

/// Whether the secret of a session is short enough to be sealed anew.
pub open spec fn movable(s: SessionView) -> bool {
    match secret_of(s) {
        Some(e) => crypto::resealable(e),
        None => true,
    }
}

/// Whether a secret is short enough to be sealed anew.
fn can_reseal(secret: &Option<Envelope>) -> (r: bool)
    ensures
        r == match crypto::opt_envelope(*secret) {
            Some(e) => crypto::resealable(e),
            None => true,
        },
{
    match secret {
        Some(e) => e.len() as u64 <= crypto::SEAL_MAX + crypto::NONCE_LEN as u64
            + crypto::TAG_LEN as u64,
        None => true,
    }
}

/// Whether the secret of a session is short enough to be sealed anew.
pub fn can_move(s: &SessionConfig) -> (r: bool)
    ensures
        r == movable(s@),
{
    match &s.auth {
        AuthMethod::Password { password } => can_reseal(password),
        AuthMethod::PublicKey { passphrase, .. } => can_reseal(passphrase),
        AuthMethod::Agent => true,
    }
}

/// Whether the secrets of all sessions are short enough to be sealed anew.
pub fn can_move_all(list: &Vec<SessionConfig>) -> (r: bool)
    ensures
        r == (forall|i: int| 0 <= i < list@.len() ==> movable((#[trigger] list@[i])@)),
{
    let mut i: usize = 0;
    while i < list.len()
        invariant
            i <= list@.len(),
            forall|k: int| 0 <= k < i ==> movable((#[trigger] list@[k])@),
        decreases list@.len() - i,
    {
        if !can_move(&list[i]) {
            return false;
        }
        i += 1;
    }
    true
}

/// Whether the second session is the first one with its secret under another key: all else is
/// the same, and the new key opens what the old one opened.
pub open spec fn moved(a: SessionView, b: SessionView, from: Seq<u8>, to: Seq<u8>) -> bool {
    &&& exists|nonce: Seq<u8>| nonce.len() == 12 && b == #[trigger] rekeyed(a, from, to, nonce)
    &&& opened(b, to) == opened(a, from)
    &&& secret_of(b) is Some == opened(a, from) is Some
    &&& movable(b)
}

/// A secret is sealed with another key and this nonce.
fn reseal(from: &Vault, to: &Vault, nonce: [u8; 12], secret: &Option<Envelope>) -> (r: Option<
    Envelope,
>)
    requires
        crypto::opt_envelope(*secret) matches Some(e) ==> crypto::resealable(e),
    ensures
        crypto::opt_envelope(r) == resealed(
            from@.dek,
            to@.dek,
            nonce@,
            crypto::opt_envelope(*secret),
        ),
        crypto::opt_envelope(r) matches Some(e) ==> crypto::resealable(e) && crypto::decrypted(
            to@.dek,
            e,
        ) == crypto::decrypted(from@.dek, crypto::opt_envelope(*secret)->0),
{
    match secret {
        Some(e) => match from.decrypt(e) {
            Ok(plain) => Some(to.encrypt_with(nonce, plain.as_str())),
            Err(_) => None,
        },
        None => None,
    }
}

/// A session with its secret sealed with another key and this nonce.
pub fn rekey_session_with(cfg: &SessionConfig, from: &Vault, to: &Vault, nonce: [u8; 12]) -> (r:
    SessionConfig)
    requires
        movable(cfg@),
    ensures
        r@ == rekeyed(cfg@, from@.dek, to@.dek, nonce@),
        moved(cfg@, r@, from@.dek, to@.dek),
{
    let auth = match &cfg.auth {
        AuthMethod::Password { password } => AuthMethod::Password {
            password: reseal(from, to, nonce, password),
        },
        AuthMethod::PublicKey { key_path, passphrase } => AuthMethod::PublicKey {
            key_path: key_path.copied(),
            passphrase: reseal(from, to, nonce, passphrase),
        },
        AuthMethod::Agent => AuthMethod::Agent,
    };
    let r = SessionConfig {
        id: cfg.id.clone(),
        name: cfg.name.clone(),
        host: cfg.host.clone(),
        port: cfg.port,
        username: cfg.username.clone(),
        auth,
        group: text::copied_opt(&cfg.group),
    };
    assert(r@ =~= rekeyed(cfg@, from@.dek, to@.dek, nonce@));
    r
}

/// A session with its secret sealed with another key. The nonce is drawn at random; whatever it
/// is, the new key opens what the old one opened.
pub fn rekey_session(cfg: &SessionConfig, from: &Vault, to: &Vault) -> (r: SessionConfig)
    requires
        movable(cfg@),
    ensures
        moved(cfg@, r@, from@.dek, to@.dek),
{
    let nonce: [u8; 12] = crypto::random();
    rekey_session_with(cfg, from, to, nonce)
}

/// Whether all sessions are the same, with their secrets under another key.
pub open spec fn all_moved(
    a: Seq<SessionView>,
    b: Seq<SessionView>,
    from: Seq<u8>,
    to: Seq<u8>,
) -> bool {
    a.len() == b.len() && forall|i: int|
        0 <= i < a.len() ==> #[trigger] moved(a[i], b[i], from, to)
}

/// All sessions with their secrets sealed with another key.
pub fn rekey_sessions(list: &Vec<SessionConfig>, from: &Vault, to: &Vault) -> (r: Vec<
    SessionConfig,
>)
    requires
        forall|i: int| 0 <= i < list@.len() ==> movable((#[trigger] list@[i])@),
    ensures
        all_moved(session::views(list@), session::views(r@), from@.dek, to@.dek),
{
    let mut out: Vec<SessionConfig> = Vec::new();
    let mut i: usize = 0;
    while i < list.len()
        invariant
            i <= list@.len(),
            out@.len() == i,
            forall|k: int| 0 <= k < list@.len() ==> movable((#[trigger] list@[k])@),
            forall|k: int|
                0 <= k < i ==> moved(list@[k]@, (#[trigger] out@[k])@, from@.dek, to@.dek),
        decreases list@.len() - i,
    {
        let ghost before = out@;
        let next = rekey_session(&list[i], from, to);
        out.push(next);
        i += 1;
        assert forall|k: int| 0 <= k < i implies moved(
            list@[k]@,
            (#[trigger] out@[k])@,
            from@.dek,
            to@.dek,
        ) by {
            if k < i - 1 {
                assert(out@[k] == before[k]);
            }
        }
    }
    proof {
        let (a, b) = (session::views(list@), session::views(out@));
        assert forall|k: int| 0 <= k < a.len() implies #[trigger] moved(
            a[k],
            b[k],
            from@.dek,
            to@.dek,
        ) by {
            assert(moved(list@[k]@, out@[k]@, from@.dek, to@.dek));
        }
    }
    out
}

/// The sessions once a password was set: sealed with its key, or as they are where there was no
/// vault before.
pub fn setup_sessions(list: &Vec<SessionConfig>, from: Option<&Vault>, to: &Vault) -> (r: Vec<
    SessionConfig,
>)
    requires
        from is Some ==> forall|i: int| 0 <= i < list@.len() ==> movable((#[trigger] list@[i])@),
    ensures
        match from {
            Some(v) => all_moved(session::views(list@), session::views(r@), v@.dek, to@.dek),
            None => session::views(r@) == session::views(list@),
        },
{
    match from {
        Some(v) => rekey_sessions(list, v, to),
        None => session::copied_sessions(list),
    }
}

/// The password there is is checked, and the key of the one there is to be is derived. A wrong
/// password is told, and nothing is derived.
pub fn change_keys(
    current: &str,
    new: &str,
    header: &CryptoHeader,
    processors: Option<u32>,
) -> (r: Result<(Vault, Vault), Text>)
    requires
        crypto::usable_password(new@),
    ensures
        match r {
            Ok((from, to)) => {
                &&& crypto::unlocked(current@, header@) == Ok::<Seq<u8>, CryptoError>(from@.dek)
                &&& from@.header == header@
                &&& exists|salt: Seq<u8>, nonce: Seq<u8>|
                    salt.len() == 16 && nonce.len() == 12 && to@
                        == #[trigger] crypto::password_vault(
                        new@,
                        salt,
                        crypto::lanes(processors),
                        nonce,
                    )
                &&& crypto::unlocked(new@, to@.header) == Ok::<Seq<u8>, CryptoError>(to@.dek)
            },
            Err(t) => crypto::unlocked(current@, header@) is Err && t@ == i18n::plain(
                i18n::entry("masterpw.wrong"@),
            ),
        },
{
    match Vault::unlock(current, header) {
        Ok(from) => {
            let to = Vault::new(new, processors);
            Ok((from, to))
        },
        Err(_) => Err(Text::entry("masterpw.wrong")),
    }
}

/// However often credentials are moved from key to key, what the first key opened the last one
/// opens, and nothing else of a session changes.
pub proof fn law_moving_twice_loses_nothing(
    a: SessionView,
    b: SessionView,
    c: SessionView,
    first: Seq<u8>,
    second: Seq<u8>,
    third: Seq<u8>,
)
    requires
        moved(a, b, first, second),
        moved(b, c, second, third),
    ensures
        opened(c, third) == opened(a, first),
        c == (SessionView { auth: c.auth, ..a }),
{
}

/// A session without a secret stays as it is, whichever keys there are.
pub proof fn law_nothing_to_seal_changes_nothing(
    a: SessionView,
    b: SessionView,
    from: Seq<u8>,
    to: Seq<u8>,
)
    requires
        moved(a, b, from, to),
        secret_of(a) is None,
    ensures
        b == a,
{
}

/// What moving credentials to another key does to a session, told of the session: it is the same
/// but for its secret, which is there exactly where the old key opened it, and then says under the
/// new key what it said under the old.
pub proof fn law_moved_sessions_say_the_same(
    a: SessionView,
    b: SessionView,
    from: Seq<u8>,
    to: Seq<u8>,
)
    requires
        moved(a, b, from, to),
    ensures
        b.id == a.id && b.name == a.name && b.host == a.host && b.port == a.port && b.username
            == a.username && b.group == a.group,
        b.auth is Password <==> a.auth is Password,
        b.auth is Agent <==> a.auth is Agent,
        a.auth matches AuthView::PublicKey { key_path, .. } ==> b.auth is PublicKey
            && b.auth->key_path == key_path,
        ({
            let before = match a.auth {
                AuthView::Password { password } => password,
                AuthView::PublicKey { passphrase, .. } => passphrase,
                AuthView::Agent => None,
            };
            let now = match b.auth {
                AuthView::Password { password } => password,
                AuthView::PublicKey { passphrase, .. } => passphrase,
                AuthView::Agent => None,
            };
            &&& now is Some <==> before is Some && crypto::decrypted(from, before->0) is Some
            &&& now is Some ==> crypto::decrypted(to, now->0) == crypto::decrypted(from, before->0)
        }),
{
}

} // verus!
