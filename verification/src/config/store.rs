//! The file of the sessions, and files to share them in.

use crate::config::error::{ConfigError, ConfigErrorView};
use crate::config::paths::{self, Location, LocationView, Roots};
use crate::config::session::SessionConfig;
use crate::config::session;
use crate::crypto::CryptoHeader;
use crate::crypto;
use vstd::prelude::*;

verus! {

/// Where the sessions are kept.
pub struct SessionStore {
    path: Location,
}

impl View for SessionStore {
    type V = LocationView;

    closed spec fn view(&self) -> LocationView {
        self.path@
    }
}

/// What a file of sessions holds.
pub struct SessionsFile {
    /// How the key that seals their secrets is protected; a file to share has none.
    pub crypto: Option<CryptoHeader>,
    /// The sessions.
    pub sessions: Vec<SessionConfig>,
}

/// What a [`SessionsFile`] holds.
#[verifier::ext_equal]
pub struct FileView {
    /// How the key is protected.
    pub crypto: Option<crypto::HeaderView>,
    /// The sessions.
    pub sessions: Seq<session::SessionView>,
}

impl View for SessionsFile {
    type V = FileView;

    open spec fn view(&self) -> FileView {
        FileView {
            crypto: match self.crypto {
                Some(h) => Some(h@),
                None => None,
            },
            sessions: session::views(self.sessions@),
        }
    }
}

/// The file of the sessions, or why there is no place for it.
pub open spec fn store_at(roots: paths::RootsView) -> Result<LocationView, ConfigErrorView> {
    match paths::config_dir_of(roots) {
        Some(dir) => Ok(paths::down(dir, "sessions.toml"@)),
        None => Err(ConfigErrorView::ConfigDir("无法定位 XDG 配置目录"@)),
    }
}

/// The header of a file, or that it has none.
pub open spec fn header_in(file: FileView) -> Result<crypto::HeaderView, ConfigErrorView> {
    match file.crypto {
        Some(h) => Ok(h),
        None => Err(ConfigErrorView::Store("会话文件不含加密头（可能为仅连接配置的导出文件）"@)),
    }
}

/// The sessions of a file; none where there is no file yet.
pub open spec fn sessions_in(file: Option<FileView>) -> Seq<session::SessionView> {
    match file {
        Some(file) => file.sessions,
        None => Seq::empty(),
    }
}

/// What is written for sessions and the header of their key.
pub open spec fn saved(
    sessions: Seq<session::SessionView>,
    header: crypto::HeaderView,
) -> FileView {
    FileView { crypto: Some(header), sessions }
}

/// What is written to share sessions: neither secrets nor a header.
pub open spec fn exported(sessions: Seq<session::SessionView>) -> FileView {
    FileView { crypto: None, sessions: session::all_bare(sessions) }
}

impl SessionStore {
    /// The store in the directory of the preferences. The directory is not created.
    pub fn new(roots: &Roots) -> (r: Result<SessionStore, ConfigError>)
        ensures
            match r {
                Ok(store) => store_at(roots@) == Ok::<LocationView, ConfigErrorView>(store@),
                Err(e) => store_at(roots@) == Err::<LocationView, ConfigErrorView>(e@),
            },
    {
        match paths::config_dir(roots) {
            Some(dir) => Ok(SessionStore { path: dir.down("sessions.toml") }),
            None => Err(ConfigError::ConfigDir("无法定位 XDG 配置目录".to_owned())),
        }
    }

    /// The file.
    pub fn path(&self) -> (r: &Location)
        ensures
            r@ == self@,
    {
        &self.path
    }

    /// The header of the key, from what the file holds. A file to share has none.
    pub fn load_crypto_header(file: SessionsFile) -> (r: Result<CryptoHeader, ConfigError>)
        ensures
            match r {
                Ok(h) => header_in(file@) == Ok::<crypto::HeaderView, ConfigErrorView>(h@),
                Err(e) => header_in(file@) == Err::<crypto::HeaderView, ConfigErrorView>(e@),
            },
    {
        match file.crypto {
            Some(h) => Ok(h),
            None => Err(
                ConfigError::Store(
                    "会话文件不含加密头（可能为仅连接配置的导出文件）".to_owned(),
                ),
            ),
        }
    }

    /// The sessions, from what the file holds; none where there is no file yet.
    pub fn load(file: Option<SessionsFile>) -> (r: Vec<SessionConfig>)
        ensures
            session::views(r@) == sessions_in(
                match file {
                    Some(f) => Some(f@),
                    None => None,
                },
            ),
    {
        match file {
            Some(file) => file.sessions,
            None => {
                let none: Vec<SessionConfig> = Vec::new();
                assert(session::views(none@) =~= Seq::empty());
                none
            },
        }
    }

    /// What is written for sessions and the header of the key that seals their secrets.
    pub fn save(sessions: &Vec<SessionConfig>, header: &CryptoHeader) -> (r: SessionsFile)
        ensures
            r@ == saved(session::views(sessions@), header@),
    {
        let r = SessionsFile {
            crypto: Some(header.copied()),
            sessions: session::copied_sessions(sessions),
        };
        assert(r@ =~= saved(session::views(sessions@), header@));
        r
    }
}

/// What is written to share sessions: their secrets are left out, and so is the header.
pub fn export_sessions(sessions: &Vec<SessionConfig>) -> (r: SessionsFile)
    ensures
        r@ == exported(session::views(sessions@)),
{
    let mut out: Vec<SessionConfig> = Vec::new();
    let mut i: usize = 0;
    while i < sessions.len()
        invariant
            i <= sessions@.len(),
            out@.len() == i,
            forall|k: int| 0 <= k < i ==> (#[trigger] out@[k])@ == session::bare(sessions@[k]@),
        decreases sessions@.len() - i,
    {
        out.push(sessions[i].without_secrets());
        i += 1;
    }
    let r = SessionsFile { crypto: None, sessions: out };
    assert(r@ =~= exported(session::views(sessions@)));
    r
}

/// The sessions of a file that was shared.
pub fn import_sessions(file: SessionsFile) -> (r: Vec<SessionConfig>)
    ensures
        session::views(r@) == file@.sessions,
{
    file.sessions
}

/// What is read of a file is what was written: the same sessions, and the same header.
pub proof fn law_saved_sessions_are_read_back(
    sessions: Seq<session::SessionView>,
    header: crypto::HeaderView,
)
    ensures
        sessions_in(Some(saved(sessions, header))) == sessions,
        header_in(saved(sessions, header)) == Ok::<crypto::HeaderView, ConfigErrorView>(header),
{
}

/// Whether a way to log in carries no secret.
pub open spec fn without_secret(auth: session::AuthView) -> bool {
    match auth {
        session::AuthView::Password { password } => password is None,
        session::AuthView::PublicKey { passphrase, .. } => passphrase is None,
        session::AuthView::Agent => true,
    }
}

/// A file to share carries no secret and no header, and every session is in it, in its place,
/// unchanged but for the secret.
pub proof fn law_shared_files_carry_no_secret(sessions: Seq<session::SessionView>)
    ensures
        exported(sessions).crypto is None,
        exported(sessions).sessions.len() == sessions.len(),
        forall|i: int|
            0 <= i < sessions.len() ==> {
                let shared = #[trigger] exported(sessions).sessions[i];
                &&& without_secret(shared.auth)
                &&& shared == (session::SessionView { auth: shared.auth, ..sessions[i] })
            },
        forall|i: int|
            0 <= i < sessions.len() && without_secret(sessions[i].auth)
                ==> #[trigger] exported(sessions).sessions[i] == sessions[i],
        forall|i: int|
            0 <= i < sessions.len() ==> {
                let shared = (#[trigger] exported(sessions).sessions[i]).auth;
                match sessions[i].auth {
                    session::AuthView::Password { .. } => shared is Password,
                    session::AuthView::PublicKey { key_path, .. } => shared is PublicKey
                        && shared->key_path == key_path,
                    session::AuthView::Agent => shared is Agent,
                }
            },
{
}

/// What is written of sessions is all of them, and the header that tells how to open their secrets;
/// a file that is not there yet holds none, and one that was shared tells no header.
pub proof fn law_files_hold_what_is_there(
    sessions: Seq<session::SessionView>,
    header: crypto::HeaderView,
)
    ensures
        saved(sessions, header).sessions == sessions,
        saved(sessions, header).crypto == Some(header),
        sessions_in(None) == Seq::<session::SessionView>::empty(),
        header_in(exported(sessions)) is Err,
{
}

} // verus!
