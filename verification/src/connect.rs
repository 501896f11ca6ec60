//! What a connection to a session is opened with.

use crate::config::session::{self, AuthMethod, SessionConfig};
use crate::connection::SessionSecrets;
use crate::crypto::{self, Envelope, SecretText, Vault};
use crate::i18n::{self, Text, TextView};
use vstd::prelude::*;

verus! {

/// The secrets for logging in, or why there are none.
#[verifier::ext_equal]
pub struct SecretsView {
    /// The password.
    pub password: Option<Seq<char>>,
    /// The passphrase of the key.
    pub key_passphrase: Option<Seq<char>>,
}

/// What secrets hold.
pub open spec fn secrets_view(s: SessionSecrets) -> SecretsView {
    SecretsView {
        password: crypto::opt_secret(s.password),
        key_passphrase: crypto::opt_secret(s.key_passphrase),
    }
}

/// An entry of the catalogue.
pub open spec fn entry(key: Seq<char>) -> TextView {
    i18n::plain(i18n::entry(key))
}

/// What a secret that may be missing holds under a key, or that it cannot be opened.
pub open spec fn opened(key: Seq<u8>, envelope: Option<Seq<u8>>) -> Result<
    Option<Seq<char>>,
    TextView,
> {
    match envelope {
        Some(e) => match crypto::decrypted(key, e) {
            Some(s) => Ok(Some(s)),
            None => Err(entry("app.decrypt_failed"@)),
        },
        None => Ok(None),
    }
}

/// The secrets that a method needs, opened with a key, or why there are none.
pub open spec fn secrets_of(auth: session::AuthView, key: Seq<u8>) -> Result<
    SecretsView,
    TextView,
> {
    match auth {
        session::AuthView::Password { password: None } => Err(entry("app.no_password"@)),
        session::AuthView::Password { password } => match opened(key, password) {
            Ok(password) => Ok(SecretsView { password, key_passphrase: None }),
            Err(t) => Err(t),
        },
        session::AuthView::PublicKey { key_path, passphrase } => match opened(key, passphrase) {
            Ok(key_passphrase) => Ok(SecretsView { password: None, key_passphrase }),
            Err(t) => Err(t),
        },
        session::AuthView::Agent => Ok(SecretsView { password: None, key_passphrase: None }),
    }
}

/// What is known of secrets, or why there are none.
pub open spec fn result_view(r: Result<SessionSecrets, Text>) -> Result<SecretsView, TextView> {
    match r {
        Ok(s) => Ok(secrets_view(s)),
        Err(t) => Err(t@),
    }
}

/// A secret that may be missing is opened.
fn open_secret(vault: &Vault, envelope: &Option<Envelope>) -> (r: Result<Option<SecretText>, Text>)
    ensures
        match r {
            Ok(s) => opened(vault@.dek, crypto::opt_envelope(*envelope)) == Ok::<
                Option<Seq<char>>,
                TextView,
            >(crypto::opt_secret(s)),
            Err(t) => opened(vault@.dek, crypto::opt_envelope(*envelope)) == Err::<
                Option<Seq<char>>,
                TextView,
            >(t@),
        },
{
    match envelope {
        Some(e) => match vault.decrypt(e) {
            Ok(s) => Ok(Some(s)),
            Err(_) => Err(Text::entry("app.decrypt_failed")),
        },
        None => Ok(None),
    }
}

/// The secrets for logging in to a session, opened with the vault. A session that is to be logged
/// in to with a password needs one; a key without a passphrase needs none.
pub fn build_secrets(cfg: &SessionConfig, vault: &Vault) -> (r: Result<SessionSecrets, Text>)
    ensures
        result_view(r) == secrets_of(cfg@.auth, vault@.dek),
{
    match &cfg.auth {
        AuthMethod::Password { password } => {
            if password.is_none() {
                return Err(Text::entry("app.no_password"));
            }
            match open_secret(vault, password) {
                Ok(password) => Ok(SessionSecrets { password, key_passphrase: None }),
                Err(t) => Err(t),
            }
        },
        AuthMethod::PublicKey { key_path: _, passphrase } => match open_secret(vault, passphrase) {
            Ok(key_passphrase) => Ok(SessionSecrets { password: None, key_passphrase }),
            Err(t) => Err(t),
        },
        AuthMethod::Agent => Ok(SessionSecrets { password: None, key_passphrase: None }),
    }
}

/// No empty password is ever sent: a session that is to be logged in to with a password has one
/// that could be opened, or there are no secrets for it.
pub proof fn law_no_login_without_the_password(password: Option<Seq<u8>>, key: Seq<u8>)
    ensures
        secrets_of(session::AuthView::Password { password }, key) matches Ok(s) ==> s.password
            is Some && password is Some && crypto::decrypted(key, password->0) == s.password,
        password is None ==> secrets_of(session::AuthView::Password { password }, key) is Err,
{
}

/// What was sealed with the vault for a session is what it is logged in to with.
pub proof fn law_saved_passwords_are_used(
    key: Seq<u8>,
    envelope: Seq<u8>,
    password: Seq<char>,
)
    requires
        crypto::decrypted(key, envelope) == Some(password),
    ensures
        secrets_of(session::AuthView::Password { password: Some(envelope) }, key) == Ok::<
            SecretsView,
            TextView,
        >(SecretsView { password: Some(password), key_passphrase: None }),
{
}

/// What a session is logged in to with is what its own method needs and nothing else: the passphrase
/// of a key where one was sealed, none where none was, and nothing for the agent. A secret that
/// cannot be opened is never left out silently.
pub proof fn law_secrets_are_those_of_the_method(
    key_path: Seq<u8>,
    passphrase: Option<Seq<u8>>,
    password: Option<Seq<u8>>,
    key: Seq<u8>,
)
    ensures
        ({
            let r = secrets_of(session::AuthView::PublicKey { key_path, passphrase }, key);
            match passphrase {
                None => r == Ok::<SecretsView, TextView>(
                    SecretsView { password: None, key_passphrase: None },
                ),
                Some(e) => match crypto::decrypted(key, e) {
                    Some(s) => r == Ok::<SecretsView, TextView>(
                        SecretsView { password: None, key_passphrase: Some(s) },
                    ),
                    None => r == Err::<SecretsView, TextView>(
                        i18n::plain(i18n::entry("app.decrypt_failed"@)),
                    ),
                },
            }
        }),
        secrets_of(session::AuthView::Agent, key) == Ok::<SecretsView, TextView>(
            SecretsView { password: None, key_passphrase: None },
        ),
        password is None ==> secrets_of(session::AuthView::Password { password }, key) == Err::<
            SecretsView,
            TextView,
        >(i18n::plain(i18n::entry("app.no_password"@))),
        password matches Some(e) ==> (crypto::decrypted(key, e) is None ==> secrets_of(
            session::AuthView::Password { password },
            key,
        ) == Err::<SecretsView, TextView>(i18n::plain(i18n::entry("app.decrypt_failed"@)))),
{
}

} // verus!
