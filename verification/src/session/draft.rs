//! A session while it is edited.

use crate::config::session::{AuthMethod, AuthView, SessionConfig, SessionView};
use crate::config::session;
use crate::config::DEFAULT_SSH_PORT;
use crate::crypto;
use crate::crypto::{Envelope, Vault};
use crate::i18n::{Text, TextView};
use crate::i18n;
use crate::local_path;
use crate::local_path::LocalPath;
use crate::text;
use vstd::prelude::*;
use vstd::utf8;

pub mod laws;

verus! {

/// A field of the editor.
#[derive(Debug, Clone, Copy, PartialEq, Eq, Structural)]
pub enum SessionField {
    /// The name.
    Name,
    /// The host.
    Host,
    /// The port.
    Port,
    /// The user.
    Username,
    /// How to log in: `password`, `publickey` or `agent`.
    Auth,
    /// The password.
    Password,
    /// The file of the key.
    KeyPath,
    /// The passphrase of the key.
    Passphrase,
    /// The group.
    Group,
}

/// A session while it is edited: all fields are text.
pub struct EditorDraft {
    /// What tells it from others.
    pub id: String,
    /// The name.
    pub name: String,
    /// The host.
    pub host: String,
    /// The port.
    pub port: String,
    /// The user.
    pub username: String,
    /// How to log in: `password`, `publickey` or `agent`.
    pub auth: String,
    /// The password, where another one is entered.
    pub password: String,
    /// The file of the key.
    pub key_path: String,
    /// The passphrase of the key, where another one is entered.
    pub passphrase: String,
    /// The group.
    pub group: String,
    /// What was wrong.
    pub error: Option<Text>,
    /// How the session logged in before it was edited; its secret stays where none is entered.
    pub orig_auth: Option<AuthMethod>,
}

/// What an [`EditorDraft`] holds.
#[verifier::ext_equal]
pub struct DraftView {
    /// What tells it from others.
    pub id: Seq<char>,
    /// The name.
    pub name: Seq<char>,
    /// The host.
    pub host: Seq<char>,
    /// The port.
    pub port: Seq<char>,
    /// The user.
    pub username: Seq<char>,
    /// How to log in.
    pub auth: Seq<char>,
    /// The password, where another one is entered.
    pub password: Seq<char>,
    /// The file of the key.
    pub key_path: Seq<char>,
    /// The passphrase of the key, where another one is entered.
    pub passphrase: Seq<char>,
    /// The group.
    pub group: Seq<char>,
    /// What was wrong.
    pub error: Option<TextView>,
    /// How the session logged in before it was edited.
    pub orig_auth: Option<AuthView>,
}

/// A way to log in, where there is one.
pub open spec fn opt_auth(a: Option<AuthMethod>) -> Option<AuthView> {
    match a {
        Some(a) => Some(a@),
        None => None,
    }
}

impl View for EditorDraft {
    type V = DraftView;

    open spec fn view(&self) -> DraftView {
        DraftView {
            id: self.id@,
            name: self.name@,
            host: self.host@,
            port: self.port@,
            username: self.username@,
            auth: self.auth@,
            password: self.password@,
            key_path: self.key_path@,
            passphrase: self.passphrase@,
            group: self.group@,
            error: i18n::opt_text(self.error),
            orig_auth: opt_auth(self.orig_auth),
        }
    }
}

/// An empty draft of a session made at this time.
pub open spec fn blank(nanos: u128) -> DraftView {
    DraftView {
        id: session::id_of(nanos),
        name: Seq::empty(),
        host: Seq::empty(),
        port: text::decimal(DEFAULT_SSH_PORT as nat),
        username: Seq::empty(),
        auth: "password"@,
        password: Seq::empty(),
        key_path: Seq::empty(),
        passphrase: Seq::empty(),
        group: Seq::empty(),
        error: None,
        orig_auth: None,
    }
}

/// The draft of a session that there is. Its secret is not shown.
pub open spec fn drafted(s: SessionView) -> DraftView {
    DraftView {
        id: s.id,
        name: s.name,
        host: s.host,
        port: text::decimal(s.port as nat),
        username: s.username,
        auth: match s.auth {
            AuthView::Password { .. } => "password"@,
            AuthView::PublicKey { .. } => "publickey"@,
            AuthView::Agent => "agent"@,
        },
        password: Seq::empty(),
        key_path: match s.auth {
            AuthView::PublicKey { key_path, .. } => local_path::shown(key_path),
            _ => Seq::empty(),
        },
        passphrase: Seq::empty(),
        group: match s.group {
            Some(g) => g,
            None => Seq::empty(),
        },
        error: None,
        orig_auth: Some(s.auth),
    }
}

/// A draft with a field changed.
pub open spec fn edited(d: DraftView, field: SessionField, value: Seq<char>) -> DraftView {
    match field {
        SessionField::Name => DraftView { name: value, ..d },
        SessionField::Host => DraftView { host: value, ..d },
        SessionField::Port => DraftView { port: value, ..d },
        SessionField::Username => DraftView { username: value, ..d },
        SessionField::Auth => DraftView { auth: value, ..d },
        SessionField::Password => DraftView { password: value, ..d },
        SessionField::KeyPath => DraftView { key_path: value, ..d },
        SessionField::Passphrase => DraftView { passphrase: value, ..d },
        SessionField::Group => DraftView { group: value, ..d },
    }
}

/// The secret of a draft: what was entered, sealed with this key and nonce, or what there was
/// before.
pub open spec fn secret(
    entered: Seq<char>,
    before: Option<Seq<u8>>,
    dek: Seq<u8>,
    nonce: Seq<u8>,
) -> Option<Seq<u8>> {
    if entered.len() > 0 {
        Some(crypto::sealed(dek, nonce, entered))
    } else {
        before
    }
}

/// How the session of a draft logs in.
pub open spec fn auth_of(d: DraftView, dek: Seq<u8>, nonce: Seq<u8>) -> AuthView {
    if d.auth == "publickey"@ {
        AuthView::PublicKey {
            key_path: utf8::encode_utf8(d.key_path),
            passphrase: secret(
                d.passphrase,
                match d.orig_auth {
                    Some(AuthView::PublicKey { passphrase, .. }) => passphrase,
                    _ => None,
                },
                dek,
                nonce,
            ),
        }
    } else if d.auth == "agent"@ {
        AuthView::Agent
    } else {
        AuthView::Password {
            password: secret(
                d.password,
                match d.orig_auth {
                    Some(AuthView::Password { password }) => password,
                    _ => None,
                },
                dek,
                nonce,
            ),
        }
    }
}

/// The entry of the catalogue.
pub open spec fn entry(key: Seq<char>) -> TextView {
    i18n::plain(i18n::entry(key))
}

/// The session of a draft, or what is wrong with the draft: there has to be a host, and the port
/// has to be a number other than zero. Without a name the session is called by its user and host.
pub open spec fn built(
    d: DraftView,
    dek: Seq<u8>,
    nonce: Seq<u8>,
) -> Result<SessionView, TextView> {
    if text::trimmed(d.host).len() == 0 {
        Err(entry("session.host_empty"@))
    } else {
        match text::number(d.port, u16::MAX as nat) {
            None => Err(entry("session.port_invalid"@)),
            Some(port) => if port == 0 {
                Err(entry("session.port_zero"@))
            } else {
                Ok(
                    SessionView {
                        id: d.id,
                        name: if text::trimmed(d.name).len() == 0 {
                            text::trimmed(d.username) + "@"@ + text::trimmed(d.host)
                        } else {
                            d.name
                        },
                        host: d.host,
                        port: port as u16,
                        username: d.username,
                        auth: auth_of(d, dek, nonce),
                        group: if d.group.len() == 0 {
                            None
                        } else {
                            Some(d.group)
                        },
                    },
                )
            },
        }
    }
}

/// Whether a session opens to what was entered for its way to log in, where anything was.
pub open spec fn opens_to_entered(d: DraftView, s: SessionView, dek: Seq<u8>) -> bool {
    match s.auth {
        AuthView::Password { password } => d.password.len() > 0 ==> password is Some
            && crypto::decrypted(dek, password->0) == Some(d.password),
        AuthView::PublicKey { passphrase, .. } => d.passphrase.len() > 0 ==> passphrase is Some
            && crypto::decrypted(dek, passphrase->0) == Some(d.passphrase),
        AuthView::Agent => true,
    }
}

/// Whether what was entered is short enough to be sealed.
pub open spec fn sealable(d: DraftView) -> bool {
    crypto::sealable(d.password) && crypto::sealable(d.passphrase)
}

impl EditorDraft {
    /// An empty draft of a session made now: the time in nanoseconds since 1970.
    pub fn new(nanos: u128) -> (r: EditorDraft)
        ensures
            r@ == blank(nanos),
    {
        let r = EditorDraft {
            id: session::new_id(nanos),
            name: String::new(),
            host: String::new(),
            port: text::to_decimal(DEFAULT_SSH_PORT as u128),
            username: String::new(),
            auth: "password".to_owned(),
            password: String::new(),
            key_path: String::new(),
            passphrase: String::new(),
            group: String::new(),
            error: None,
            orig_auth: None,
        };
        assert(r@ =~= blank(nanos));
        r
    }

    /// The draft of a session that there is.
    pub fn from_config(cfg: &SessionConfig) -> (r: EditorDraft)
        ensures
            r@ == drafted(cfg@),
    {
        let (auth, key_path) = match &cfg.auth {
            AuthMethod::Password { .. } => ("password", String::new()),
            AuthMethod::PublicKey { key_path, .. } => ("publickey", key_path.shown()),
            AuthMethod::Agent => ("agent", String::new()),
        };
        let r = EditorDraft {
            id: cfg.id.clone(),
            name: cfg.name.clone(),
            host: cfg.host.clone(),
            port: text::to_decimal(cfg.port as u128),
            username: cfg.username.clone(),
            auth: auth.to_owned(),
            password: String::new(),
            key_path,
            passphrase: String::new(),
            group: match &cfg.group {
                Some(g) => g.clone(),
                None => String::new(),
            },
            error: None,
            orig_auth: Some(cfg.auth.copied()),
        };
        assert(r@ =~= drafted(cfg@));
        r
    }

    /// The session of the draft, or what is wrong with it. The nonce is drawn at random; whatever
    /// it is, the vault opens what was entered.
    pub fn to_config(&self, vault: &Vault) -> (r: Result<SessionConfig, Text>)
        requires
            sealable(self@),
        ensures
            exists|nonce: Seq<u8>|
                nonce.len() == 12 && (match r {
                    Ok(s) => #[trigger] built(self@, vault@.dek, nonce) == Ok::<
                        SessionView,
                        TextView,
                    >(s@),
                    Err(t) => built(self@, vault@.dek, nonce) == Err::<SessionView, TextView>(t@),
                }),
            r matches Ok(s) ==> opens_to_entered(self@, s@, vault@.dek),
    {
        let nonce: [u8; 12] = crypto::random();
        let r = self.to_config_with(vault, nonce);
        assert(nonce@.len() == 12);
        r
    }

    /// The session of the draft, sealed with this nonce, or what is wrong with the draft.
    pub fn to_config_with(&self, vault: &Vault, nonce: [u8; 12]) -> (r: Result<SessionConfig, Text>)
        requires
            sealable(self@),
        ensures
            match r {
                Ok(s) => built(self@, vault@.dek, nonce@) == Ok::<SessionView, TextView>(s@),
                Err(t) => built(self@, vault@.dek, nonce@) == Err::<SessionView, TextView>(t@),
            },
            r matches Ok(s) ==> opens_to_entered(self@, s@, vault@.dek),
    {
        if text::is_blank(self.host.as_str()) {
            return Err(Text::entry("session.host_empty"));
        }
        let port: u16 = match text::parse_number(self.port.as_str(), u16::MAX as u64) {
            Some(n) => n as u16,
            None => {
                return Err(Text::entry("session.port_invalid"));
            },
        };
        if port == 0 {
            return Err(Text::entry("session.port_zero"));
        }
        let name = if text::is_blank(self.name.as_str()) {
            text::concat3(text::trim(self.username.as_str()), "@", text::trim(self.host.as_str()))
        } else {
            self.name.clone()
        };
        let auth = if text::same(self.auth.as_str(), "publickey") {
            let before = match &self.orig_auth {
                Some(AuthMethod::PublicKey { passphrase, .. }) => session::copied_envelope(
                    passphrase,
                ),
                _ => None,
            };
            AuthMethod::PublicKey {
                key_path: LocalPath::of(self.key_path.as_str()),
                passphrase: sealed(self.passphrase.as_str(), before, vault, nonce),
            }
        } else if text::same(self.auth.as_str(), "agent") {
            AuthMethod::Agent
        } else {
            let before = match &self.orig_auth {
                Some(AuthMethod::Password { password }) => session::copied_envelope(password),
                _ => None,
            };
            AuthMethod::Password { password: sealed(self.password.as_str(), before, vault, nonce) }
        };
        Ok(
            SessionConfig {
                id: self.id.clone(),
                name,
                host: self.host.clone(),
                port,
                username: self.username.clone(),
                auth,
                group: if self.group.as_str().is_empty() {
                    None
                } else {
                    Some(self.group.clone())
                },
            },
        )
    }

    /// A field is changed.
    pub fn apply_editor_field(&mut self, field: SessionField, value: String)
        ensures
            final(self)@ == edited(old(self)@, field, value@),
    {
        match field {
            SessionField::Name => self.name = value,
            SessionField::Host => self.host = value,
            SessionField::Port => self.port = value,
            SessionField::Username => self.username = value,
            SessionField::Auth => self.auth = value,
            SessionField::Password => self.password = value,
            SessionField::KeyPath => self.key_path = value,
            SessionField::Passphrase => self.passphrase = value,
            SessionField::Group => self.group = value,
        }
    }
}

/// What was entered, sealed, or what there was before.
fn sealed(entered: &str, before: Option<Envelope>, vault: &Vault, nonce: [u8; 12]) -> (r: Option<
    Envelope,
>)
    requires
        crypto::sealable(entered@),
    ensures
        crypto::opt_envelope(r) == secret(
            entered@,
            crypto::opt_envelope(before),
            vault@.dek,
            nonce@,
        ),
        entered@.len() > 0 ==> r is Some && crypto::decrypted(vault@.dek, (r->0)@) == Some(entered@),
{
    if entered.is_empty() {
        before
    } else {
        Some(vault.encrypt_with(nonce, entered))
    }
}

/// To edit a session and change nothing leaves it as it was, secret and all, where it has a host,
/// a name and a port, no group with an empty name, and no key whose path is not Unicode.
pub proof fn law_unchanged_drafts_change_nothing(s: SessionView, dek: Seq<u8>, nonce: Seq<u8>)
    requires
        text::trimmed(s.host).len() > 0,
        text::trimmed(s.name).len() > 0,
        s.port != 0,
        s.group != Some(Seq::<char>::empty()),
        s.auth matches AuthView::PublicKey { key_path, .. } ==> utf8::valid_utf8(key_path),
    ensures
        built(drafted(s), dek, nonce) == Ok::<SessionView, TextView>(s),
{
    text::law_decimal_reads_back(s.port as nat, u16::MAX as nat);
    reveal_strlit("password");
    reveal_strlit("publickey");
    reveal_strlit("agent");
    assert("password"@.len() == 8 && "publickey"@.len() == 9 && "agent"@.len() == 5);
    if let AuthView::PublicKey { key_path, .. } = s.auth {
        utf8::decode_utf8_encode_utf8(key_path);
    }
    if s.group is Some {
        assert(s.group->0.len() > 0) by {
            if s.group->0.len() == 0 {
                assert(s.group->0 =~= Seq::<char>::empty());
            }
        }
    }
    assert(built(drafted(s), dek, nonce)->Ok_0 =~= s);
}

/// Where no secret is entered, and the way to log in stays, the secret stays; where the way
/// changes, none is taken over.
pub proof fn law_secrets_stay_with_their_method(d: DraftView, dek: Seq<u8>, nonce: Seq<u8>)
    requires
        d.password.len() == 0,
        d.passphrase.len() == 0,
        built(d, dek, nonce) is Ok,
    ensures
        ({
            let auth = built(d, dek, nonce)->Ok_0.auth;
            match (auth, d.orig_auth) {
                (AuthView::Password { password }, Some(AuthView::Password { password: before })) =>
                    password == before,
                (
                    AuthView::PublicKey { passphrase, .. },
                    Some(AuthView::PublicKey { passphrase: before, .. }),
                ) => passphrase == before,
                (AuthView::Password { password }, _) => password is None,
                (AuthView::PublicKey { passphrase, .. }, _) => passphrase is None,
                (AuthView::Agent, _) => true,
            }
        }),
{
}

} // verus!
