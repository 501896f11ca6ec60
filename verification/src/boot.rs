//! The vault that the program starts with.
//!
//! Without a master password the key is random and kept by the system, so that nothing is asked.
//! With one, the system may keep the key too; else the password is asked for.

use crate::crypto::{CryptoHeader, HeaderView, Vault, VaultView};
use crate::crypto;
use vstd::prelude::*;

verus! {

/// What the program starts with.
pub struct Start {
    /// The vault; none where the password is to be asked for.
    pub vault: Option<Vault>,
    /// Whether the system is to keep the key of the vault.
    pub keep_key: bool,
    /// Whether the header of the vault is to be written, with no sessions.
    pub write_header: bool,
    /// Whether the user is to be told that the key was lost.
    pub key_lost: bool,
}

/// What a [`Start`] holds.
pub struct StartView {
    /// The vault.
    pub vault: Option<VaultView>,
    /// Whether the system is to keep the key of the vault.
    pub keep_key: bool,
    /// Whether the header of the vault is to be written, with no sessions.
    pub write_header: bool,
    /// Whether the user is to be told that the key was lost.
    pub key_lost: bool,
}

impl View for Start {
    type V = StartView;

    open spec fn view(&self) -> StartView {
        StartView {
            vault: match self.vault {
                Some(v) => Some(v@),
                None => None,
            },
            keep_key: self.keep_key,
            write_header: self.write_header,
            key_lost: self.key_lost,
        }
    }
}

/// Whether the system is asked for the key: with a master password only where that is wished.
pub open spec fn asks(header: HeaderView, remember: bool) -> bool {
    header.master_password_set ==> remember
}

/// Whether the system is asked for the key.
pub fn asks_keyring(header: &CryptoHeader, remember: bool) -> (r: bool)
    ensures
        r == asks(header@, remember),
{
    if header.master_password_set {
        remember
    } else {
        true
    }
}

/// A vault with this random key.
pub open spec fn random_vault(key: Seq<u8>) -> VaultView {
    VaultView { dek: key, header: crypto::random_key_header() }
}

/// Whether a key is one that the header can be used with.
pub open spec fn fits(header: HeaderView, key: Seq<u8>) -> bool {
    header.master_password_set ==> crypto::vouches(header, key)
}

/// What the program starts with: `header` is that of the credentials, where there are any,
/// `kept` is the key that the system keeps, and `fresh` is a random key.
pub open spec fn started(
    header: Option<HeaderView>,
    remember: bool,
    kept: Option<Seq<u8>>,
    fresh: Seq<u8>,
) -> StartView {
    match header {
        None => StartView {
            vault: Some(random_vault(fresh)),
            keep_key: true,
            write_header: true,
            key_lost: false,
        },
        Some(h) => if asks(h, remember) && kept is Some && fits(h, kept->0) {
            StartView {
                vault: Some(VaultView { dek: kept->0, header: h }),
                keep_key: false,
                write_header: false,
                key_lost: false,
            }
        } else if h.master_password_set {
            StartView { vault: None, keep_key: false, write_header: false, key_lost: false }
        } else {
            StartView {
                vault: Some(random_vault(fresh)),
                keep_key: true,
                write_header: false,
                key_lost: true,
            }
        },
    }
}

/// A header, where there is one.
pub open spec fn opt_header(h: Option<&CryptoHeader>) -> Option<HeaderView> {
    match h {
        Some(h) => Some(h@),
        None => None,
    }
}

/// A key, where there is one.
pub open spec fn opt_key(k: Option<[u8; 32]>) -> Option<Seq<u8>> {
    match k {
        Some(k) => Some(k@),
        None => None,
    }
}

/// What the program starts with. The random key is drawn here, and whatever it is, it is used
/// only where there are no credentials yet, or where the key of those there are was lost.
pub fn start(header: Option<&CryptoHeader>, remember: bool, kept: Option<[u8; 32]>) -> (r: Start)
    ensures
        exists|fresh: Seq<u8>|
            fresh.len() == 32 && r@ == #[trigger] started(
                opt_header(header),
                remember,
                opt_key(kept),
                fresh,
            ),
{
    let fresh: [u8; 32] = crypto::random();
    start_with(header, remember, kept, fresh)
}

/// What the program starts with, with this random key.
pub fn start_with(
    header: Option<&CryptoHeader>,
    remember: bool,
    kept: Option<[u8; 32]>,
    fresh: [u8; 32],
) -> (r: Start)
    ensures
        r@ == started(opt_header(header), remember, opt_key(kept), fresh@),
{
    let header = match header {
        Some(h) => h,
        None => {
            return Start {
                vault: Some(Vault::with_key(fresh)),
                keep_key: true,
                write_header: true,
                key_lost: false,
            };
        },
    };
    if asks_keyring(header, remember) {
        if let Some(key) = kept {
            if let Ok(vault) = Vault::from_dek(&key, header) {
                return Start {
                    vault: Some(vault),
                    keep_key: false,
                    write_header: false,
                    key_lost: false,
                };
            }
        }
    }
    if header.master_password_set {
        Start { vault: None, keep_key: false, write_header: false, key_lost: false }
    } else {
        Start {
            vault: Some(Vault::with_key(fresh)),
            keep_key: true,
            write_header: false,
            key_lost: true,
        }
    }
}

/// Without a master password the program never starts locked: nobody could unlock it.
pub proof fn law_nobody_is_locked_out(
    header: Option<HeaderView>,
    remember: bool,
    kept: Option<Seq<u8>>,
    fresh: Seq<u8>,
)
    ensures
        started(header, remember, kept, fresh).vault is None ==> header is Some
            && header->0.master_password_set,
{
}

/// With a master password that is not to be remembered the password is asked for, whatever the
/// system keeps.
pub proof fn law_an_unremembered_password_is_asked_for(
    header: HeaderView,
    kept: Option<Seq<u8>>,
    fresh: Seq<u8>,
)
    requires
        header.master_password_set,
    ensures
        started(Some(header), false, kept, fresh).vault is None,
{
}

/// With a master password no key is taken from the system that the header does not tell to be
/// the right one, and a random key never takes its place.
pub proof fn law_only_the_right_key_is_taken(
    header: HeaderView,
    remember: bool,
    kept: Option<Seq<u8>>,
    fresh: Seq<u8>,
)
    requires
        header.master_password_set,
    ensures
        started(Some(header), remember, kept, fresh).vault matches Some(v) ==> v.header == header
            && kept == Some(v.dek) && crypto::vouches(header, v.dek),
{
}

/// What a first start leaves behind lets the next start go on without asking: the key that the
/// system keeps opens the vault again, with what was written.
pub proof fn law_the_next_start_goes_on(remember: bool, key: Seq<u8>, fresh: Seq<u8>)
    ensures
        started(Some(crypto::random_key_header()), remember, Some(key), fresh) == (StartView {
            vault: Some(random_vault(key)),
            keep_key: false,
            write_header: false,
            key_lost: false,
        }),
{
}

/// The key that the system keeps is used wherever it may be: without a master password always, and
/// with one where that is to be remembered and the header tells the key to be the right one. The
/// user is then asked nothing, and nothing is written.
pub proof fn law_a_kept_key_is_used(
    header: HeaderView,
    remember: bool,
    key: Seq<u8>,
    fresh: Seq<u8>,
)
    requires
        !header.master_password_set || (remember && crypto::vouches(header, key)),
    ensures
        ({
            let start = started(Some(header), remember, Some(key), fresh);
            &&& start.vault == Some(VaultView { dek: key, header })
            &&& !start.keep_key && !start.write_header && !start.key_lost
        }),
        !header.master_password_set || remember <==> asks(header, remember),
{
}

/// Where there are no credentials yet, a random key is made, kept and written down, without a master
/// password. Where there are some and the key to them is lost, another one is made and kept, and
/// that is told; what was written before is left.
pub proof fn law_a_new_key_is_kept(
    header: HeaderView,
    remember: bool,
    kept: Option<Seq<u8>>,
    fresh: Seq<u8>,
)
    ensures
        ({
            let first = started(None, remember, kept, fresh);
            &&& first.vault is Some
            &&& first.vault->0.dek == fresh
            &&& !first.vault->0.header.master_password_set
            &&& first.keep_key && first.write_header && !first.key_lost
        }),
        !header.master_password_set ==> ({
            let lost = started(Some(header), remember, None, fresh);
            &&& lost.vault is Some
            &&& lost.vault->0.dek == fresh
            &&& !lost.vault->0.header.master_password_set
            &&& lost.keep_key && !lost.write_header && lost.key_lost
        }),
        header.master_password_set ==> ({
            let locked = started(Some(header), remember, None, fresh);
            locked.vault is None && !locked.keep_key && !locked.write_header && !locked.key_lost
        }),
{
}

} // verus!
