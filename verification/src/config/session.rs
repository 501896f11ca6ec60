//! Sessions: where to connect to, and how to log in.

use crate::config::DEFAULT_SSH_PORT;
use crate::crypto;
use crate::crypto::Envelope;
use crate::local_path::LocalPath;
use crate::text;
use vstd::prelude::*;

verus! {

/// How to log in. Secrets are sealed; one that is missing is still to be entered.
pub enum AuthMethod {
    /// With a password.
    Password {
        /// The password.
        password: Option<Envelope>,
    },
    /// With a key.
    PublicKey {
        /// The file of the key.
        key_path: LocalPath,
        /// The passphrase of the key.
        passphrase: Option<Envelope>,
    },
    /// With the keys of the agent.
    Agent,
}

/// What an [`AuthMethod`] holds.
pub enum AuthView {
    /// With a password.
    Password {
        /// The password.
        password: Option<Seq<u8>>,
    },
    /// With a key.
    PublicKey {
        /// The file of the key.
        key_path: Seq<u8>,
        /// The passphrase of the key.
        passphrase: Option<Seq<u8>>,
    },
    /// With the keys of the agent.
    Agent,
}

impl View for AuthMethod {
    type V = AuthView;

    open spec fn view(&self) -> AuthView {
        match *self {
            AuthMethod::Password { password } => AuthView::Password {
                password: crypto::opt_envelope(password),
            },
            AuthMethod::PublicKey { key_path, passphrase } => AuthView::PublicKey {
                key_path: key_path@,
                passphrase: crypto::opt_envelope(passphrase),
            },
            AuthMethod::Agent => AuthView::Agent,
        }
    }
}

/// A copy of an envelope, where there is one.
pub(crate) fn copied_envelope(e: &Option<Envelope>) -> (r: Option<Envelope>)
    ensures
        crypto::opt_envelope(r) == crypto::opt_envelope(*e),
{
    match e {
        Some(e) => Some(e.copied()),
        None => None,
    }
}

/// How to log in, without the secrets.
pub open spec fn bare_auth(auth: AuthView) -> AuthView {
    match auth {
        AuthView::Password { .. } => AuthView::Password { password: None },
        AuthView::PublicKey { key_path, .. } => AuthView::PublicKey { key_path, passphrase: None },
        AuthView::Agent => AuthView::Agent,
    }
}

impl AuthMethod {
    /// A copy.
    pub fn copied(&self) -> (r: AuthMethod)
        ensures
            r@ == self@,
    {
        match self {
            AuthMethod::Password { password } => AuthMethod::Password {
                password: copied_envelope(password),
            },
            AuthMethod::PublicKey { key_path, passphrase } => AuthMethod::PublicKey {
                key_path: key_path.copied(),
                passphrase: copied_envelope(passphrase),
            },
            AuthMethod::Agent => AuthMethod::Agent,
        }
    }

    /// A copy without the secrets.
    pub fn without_secrets(&self) -> (r: AuthMethod)
        ensures
            r@ == bare_auth(self@),
    {
        match self {
            AuthMethod::Password { .. } => AuthMethod::Password { password: None },
            AuthMethod::PublicKey { key_path, .. } => AuthMethod::PublicKey {
                key_path: key_path.copied(),
                passphrase: None,
            },
            AuthMethod::Agent => AuthMethod::Agent,
        }
    }
}

/// A session: where to connect to, and how to log in.
pub struct SessionConfig {
    /// What tells it from others.
    pub id: String,
    /// Its name, as it is shown.
    pub name: String,
    /// The host.
    pub host: String,
    /// The port.
    pub port: u16,
    /// The user.
    pub username: String,
    /// How to log in.
    pub auth: AuthMethod,
    /// The group it is shown in.
    pub group: Option<String>,
}

/// What a [`SessionConfig`] holds.
#[verifier::ext_equal]
pub struct SessionView {
    /// What tells it from others.
    pub id: Seq<char>,
    /// Its name.
    pub name: Seq<char>,
    /// The host.
    pub host: Seq<char>,
    /// The port.
    pub port: u16,
    /// The user.
    pub username: Seq<char>,
    /// How to log in.
    pub auth: AuthView,
    /// The group it is shown in.
    pub group: Option<Seq<char>>,
}

impl View for SessionConfig {
    type V = SessionView;

    open spec fn view(&self) -> SessionView {
        SessionView {
            id: self.id@,
            name: self.name@,
            host: self.host@,
            port: self.port,
            username: self.username@,
            auth: self.auth@,
            group: text::opt(self.group),
        }
    }
}

/// A session without its secrets.
pub open spec fn bare(s: SessionView) -> SessionView {
    SessionView { auth: bare_auth(s.auth), ..s }
}

/// What a list of sessions holds.
pub open spec fn views(list: Seq<SessionConfig>) -> Seq<SessionView> {
    Seq::new(list.len(), |i: int| list[i]@)
}

/// Sessions without their secrets.
pub open spec fn all_bare(list: Seq<SessionView>) -> Seq<SessionView> {
    Seq::new(list.len(), |i: int| bare(list[i]))
}

impl SessionConfig {
    /// A copy.
    pub fn copied(&self) -> (r: SessionConfig)
        ensures
            r@ == self@,
    {
        SessionConfig {
            id: self.id.clone(),
            name: self.name.clone(),
            host: self.host.clone(),
            port: self.port,
            username: self.username.clone(),
            auth: self.auth.copied(),
            group: text::copied_opt(&self.group),
        }
    }

    /// A copy without the secrets. All else stays.
    pub fn without_secrets(&self) -> (r: SessionConfig)
        ensures
            r@ == bare(self@),
    {
        SessionConfig {
            id: self.id.clone(),
            name: self.name.clone(),
            host: self.host.clone(),
            port: self.port,
            username: self.username.clone(),
            auth: self.auth.without_secrets(),
            group: text::copied_opt(&self.group),
        }
    }
}

/// A copy of a list of sessions.
pub fn copied_sessions(list: &Vec<SessionConfig>) -> (r: Vec<SessionConfig>)
    ensures
        views(r@) == views(list@),
{
    let mut out: Vec<SessionConfig> = Vec::new();
    let mut i: usize = 0;
    while i < list.len()
        invariant
            i <= list@.len(),
            out@.len() == i,
            forall|k: int| 0 <= k < i ==> (#[trigger] out@[k])@ == list@[k]@,
        decreases list@.len() - i,
    {
        out.push(list[i].copied());
        i += 1;
    }
    assert(views(out@) =~= views(list@));
    out
}

/// What tells a session made at this time from others.
pub open spec fn id_of(nanos: u128) -> Seq<char> {
    "sess-"@ + text::decimal(nanos as nat)
}

/// What tells a new session from others: the time it was made, in nanoseconds since 1970.
pub fn new_id(nanos: u128) -> (r: String)
    ensures
        r@ == id_of(nanos),
{
    let number = text::to_decimal(nanos);
    text::concat("sess-", number.as_str())
}

/// The port of a session that names none.
pub fn default_port() -> (r: u16)
    ensures
        r == DEFAULT_SSH_PORT,
{
    DEFAULT_SSH_PORT
}

/// Sessions made at different times are told apart.
pub proof fn law_ids_differ(a: u128, b: u128)
    requires
        a != b,
    ensures
        id_of(a) != id_of(b),
{
    text::law_decimal_reads_back(a as nat, u128::MAX as nat);
    text::law_decimal_reads_back(b as nat, u128::MAX as nat);
    if id_of(a) == id_of(b) {
        let prefix = "sess-"@;
        let (x, y) = (text::decimal(a as nat), text::decimal(b as nat));
        assert(id_of(a).skip(prefix.len() as int) =~= x);
        assert(id_of(b).skip(prefix.len() as int) =~= y);
    }
}

} // verus!
