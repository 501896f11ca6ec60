//! Where the files of the program are.
//!
//! Preferences, sessions, known hosts and the log are all found through here, so that all of them
//! can be moved together: a test has them under a directory of its own, a development build under
//! `.dev` of its source tree, and any other build under the system's directories.

use crate::local_path::{self, LocalPath};
use crate::text;
use vstd::prelude::*;
use vstd::utf8;

verus! {

/// A place: a directory and the names to go down from it, one after the other.
pub struct Location {
    /// The directory.
    pub base: LocalPath,
    /// The names.
    pub names: Vec<String>,
}

/// What a [`Location`] holds.
#[verifier::ext_equal]
pub struct LocationView {
    /// The directory.
    pub base: Seq<u8>,
    /// The names.
    pub names: Seq<Seq<char>>,
}

impl View for Location {
    type V = LocationView;

    open spec fn view(&self) -> LocationView {
        LocationView { base: self.base@, names: text::strings(self.names@) }
    }
}

/// One name further down.
pub open spec fn down(at: LocationView, name: Seq<char>) -> LocationView {
    LocationView { base: at.base, names: at.names.push(name) }
}

/// A directory itself.
pub open spec fn at(base: Seq<u8>) -> LocationView {
    LocationView { base, names: Seq::empty() }
}

impl Location {
    /// A directory itself.
    pub fn at(base: LocalPath) -> (r: Location)
        ensures
            r@ == at(base@),
    {
        let r = Location { base, names: Vec::new() };
        assert(r@ =~= at(base@));
        r
    }

    /// One name further down.
    pub fn down(self, name: &str) -> (r: Location)
        ensures
            r@ == down(self@, name@),
    {
        let mut names = self.names;
        names.push(name.to_owned());
        let r = Location { base: self.base, names };
        assert(r@ =~= down(self@, name@));
        r
    }

    /// A copy.
    pub fn copied(&self) -> (r: Location)
        ensures
            r@ == self@,
    {
        Location { base: self.base.copied(), names: text::copied(&self.names) }
    }
}

/// What the places are found from.
pub struct Roots {
    /// The directory that a test has its files under.
    pub test: Option<LocalPath>,
    /// The source tree of a development build, where it is still there.
    pub workspace: Option<LocalPath>,
    /// The system's directory for preferences, where there is one.
    pub config: Option<LocalPath>,
    /// The system's directory for caches, where there is one.
    pub cache: Option<LocalPath>,
}

/// What [`Roots`] holds.
#[verifier::ext_equal]
pub struct RootsView {
    /// The directory that a test has its files under.
    pub test: Option<Seq<u8>>,
    /// The source tree of a development build.
    pub workspace: Option<Seq<u8>>,
    /// The system's directory for preferences.
    pub config: Option<Seq<u8>>,
    /// The system's directory for caches.
    pub cache: Option<Seq<u8>>,
}

impl View for Roots {
    type V = RootsView;

    open spec fn view(&self) -> RootsView {
        RootsView {
            test: local_path::opt(self.test),
            workspace: local_path::opt(self.workspace),
            config: local_path::opt(self.config),
            cache: local_path::opt(self.cache),
        }
    }
}

/// `dirs::config_dir`, and its bytes by `OsString::into_encoded_bytes`: the system's directory for
/// preferences. Nothing is said of which it is: it depends on the system and the user.
#[verifier::external_body]
fn system_config_dir() -> (r: Option<Vec<u8>>) {
    dirs::config_dir().map(|p| p.into_os_string().into_encoded_bytes())
}

/// `dirs::cache_dir`, and its bytes by `OsString::into_encoded_bytes`: the system's directory for
/// caches. Nothing is said of which it is: it depends on the system and the user.
#[verifier::external_body]
fn system_cache_dir() -> (r: Option<Vec<u8>>) {
    dirs::cache_dir().map(|p| p.into_os_string().into_encoded_bytes())
}

/// The path of some bytes, where there are any.
fn path_from(bytes: Option<Vec<u8>>) -> (r: Option<LocalPath>)
    ensures
        match bytes {
            Some(b) => local_path::opt(r) == Some(b@),
            None => r is None,
        },
{
    match bytes {
        Some(bytes) => Some(LocalPath::from_bytes(bytes)),
        None => None,
    }
}

impl Roots {
    /// The roots of this process: the system's directories, and the source tree of a development
    /// build where it is still there.
    pub fn of_system(workspace: Option<LocalPath>) -> (r: Roots)
        ensures
            r@.test is None,
            r@.workspace == local_path::opt(workspace),
    {
        Roots {
            test: None,
            workspace,
            config: path_from(system_config_dir()),
            cache: path_from(system_cache_dir()),
        }
    }
}

/// The directory that all files are under, where it is not the system's.
pub open spec fn state_root_of(r: RootsView) -> Option<LocationView> {
    match (r.test, r.workspace) {
        (Some(dir), _) => Some(at(dir)),
        (None, Some(dir)) => Some(down(at(dir), ".dev"@)),
        (None, None) => None,
    }
}

/// The directory of the preferences.
pub open spec fn config_dir_of(r: RootsView) -> Option<LocationView> {
    match (state_root_of(r), r.config) {
        (Some(root), _) => Some(down(root, "config"@)),
        (None, Some(dir)) => Some(down(at(dir), "rterm"@)),
        (None, None) => None,
    }
}

/// The directory of the caches.
pub open spec fn cache_dir_of(r: RootsView) -> Option<LocationView> {
    match (state_root_of(r), r.cache) {
        (Some(root), _) => Some(down(root, "cache"@)),
        (None, Some(dir)) => Some(down(at(dir), "rterm"@)),
        (None, None) => None,
    }
}

/// The directory of the log.
pub open spec fn log_dir_of(r: RootsView) -> LocationView {
    match cache_dir_of(r) {
        Some(dir) => down(dir, "logs"@),
        None => down(at(utf8::encode_utf8("."@)), "logs"@),
    }
}

/// A place or none.
pub open spec fn opt_location(l: Option<Location>) -> Option<LocationView> {
    match l {
        Some(l) => Some(l@),
        None => None,
    }
}

/// The directory that all files are under, where it is not the system's: that of a test first,
/// then that of a development build.
fn state_root(roots: &Roots) -> (r: Option<Location>)
    ensures
        opt_location(r) == state_root_of(roots@),
{
    match (&roots.test, &roots.workspace) {
        (Some(dir), _) => Some(Location::at(dir.copied())),
        (None, Some(dir)) => Some(Location::at(dir.copied()).down(".dev")),
        (None, None) => None,
    }
}

/// Whether the files are kept apart from those of the installed program. What cannot be moved to
/// another directory, such as an entry of the keyring, is then kept under another name.
pub fn is_sandboxed(roots: &Roots) -> (r: bool)
    ensures
        r == (roots@.test is Some || roots@.workspace is Some),
{
    state_root(roots).is_some()
}

/// The directory of the preferences. It is not created.
pub fn config_dir(roots: &Roots) -> (r: Option<Location>)
    ensures
        opt_location(r) == config_dir_of(roots@),
{
    match state_root(roots) {
        Some(root) => Some(root.down("config")),
        None => match &roots.config {
            Some(dir) => Some(Location::at(dir.copied()).down("rterm")),
            None => None,
        },
    }
}

/// The directory of the caches. It is not created.
pub fn cache_dir(roots: &Roots) -> (r: Option<Location>)
    ensures
        opt_location(r) == cache_dir_of(roots@),
{
    match state_root(roots) {
        Some(root) => Some(root.down("cache")),
        None => match &roots.cache {
            Some(dir) => Some(Location::at(dir.copied()).down("rterm")),
            None => None,
        },
    }
}

/// The directory of the log: under that of the caches, or under the current directory where
/// there is none.
pub fn log_dir(roots: &Roots) -> (r: Location)
    ensures
        r@ == log_dir_of(roots@),
{
    match cache_dir(roots) {
        Some(dir) => dir.down("logs"),
        None => Location::at(LocalPath::of(".")).down("logs"),
    }
}

/// All files are moved under a directory, or back to where they are by default.
pub fn set_test_root(roots: &mut Roots, root: Option<LocalPath>)
    ensures
        final(roots)@ == (RootsView { test: local_path::opt(root), ..old(roots)@ }),
{
    roots.test = root;
}

/// Preferences and caches are moved together: with a directory of a test both are under it, and
/// without one, and without a source tree, each is under the system's.
pub proof fn law_all_files_move_together(r: RootsView, dir: Seq<u8>)
    ensures
        config_dir_of(RootsView { test: Some(dir), ..r }) == Some(down(at(dir), "config"@)),
        cache_dir_of(RootsView { test: Some(dir), ..r }) == Some(down(at(dir), "cache"@)),
        log_dir_of(RootsView { test: Some(dir), ..r }) == down(down(at(dir), "cache"@), "logs"@),
        r.workspace is None && r.config is Some ==> config_dir_of(RootsView { test: None, ..r })
            == Some(down(at(r.config->0), "rterm"@)),
        r.workspace is None && r.cache is Some ==> cache_dir_of(RootsView { test: None, ..r })
            == Some(down(at(r.cache->0), "rterm"@)),
{
}

/// A development build keeps its files under its source tree, a test under its own directory even
/// then; without either, and without a directory of the system, there is no place for preferences or
/// caches, and the log goes under the current directory.
pub proof fn law_each_build_has_its_own_place(r: RootsView, tree: Seq<u8>)
    ensures
        ({
            let dev = RootsView { test: None, workspace: Some(tree), ..r };
            &&& config_dir_of(dev) == Some(down(down(at(tree), ".dev"@), "config"@))
            &&& cache_dir_of(dev) == Some(down(down(at(tree), ".dev"@), "cache"@))
        }),
        ({
            let bare = RootsView { test: None, workspace: None, config: None, cache: None };
            &&& config_dir_of(bare) is None
            &&& cache_dir_of(bare) is None
            &&& log_dir_of(bare) == down(at(utf8::encode_utf8("."@)), "logs"@)
        }),
        at(tree).base == tree,
        at(tree).names.len() == 0,
        forall|l: LocationView, name: Seq<char>| #[trigger]
            down(l, name).base == l.base && down(l, name).names == l.names.push(name),
{
}

} // verus!
