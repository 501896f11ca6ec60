//! What is shown of a connection and of a remote directory.

use crate::text;
use vstd::prelude::*;

verus! {

/// How a connection stands.
#[derive(Debug, Clone, Copy, PartialEq, Eq, Structural)]
pub enum ConnectionStatus {
    /// It is not open, or no longer.
    Disconnected,
    /// It is being opened.
    Connecting,
    /// It is open.
    Connected,
    /// It could not be opened, or it broke.
    Error,
}

/// What stands in a remote directory.
#[derive(Debug)]
pub struct FileEntry {
    /// Its name.
    pub name: String,
    /// Whether it is a directory.
    pub is_dir: bool,
    /// Its size in bytes.
    pub size: u64,
    /// When it was last changed, in words.
    pub modified: Option<String>,
    /// Its permissions, as the server tells them.
    pub permissions: Option<u32>,
    /// Whose it is.
    pub user: Option<String>,
    /// Whose group it belongs to.
    pub group: Option<String>,
}

/// What a [`FileEntry`] holds.
#[verifier::ext_equal]
pub struct EntryView {
    /// Its name.
    pub name: Seq<char>,
    /// Whether it is a directory.
    pub is_dir: bool,
    /// Its size in bytes.
    pub size: u64,
    /// When it was last changed, in words.
    pub modified: Option<Seq<char>>,
    /// Its permissions.
    pub permissions: Option<u32>,
    /// Whose it is.
    pub user: Option<Seq<char>>,
    /// Whose group it belongs to.
    pub group: Option<Seq<char>>,
}

impl View for FileEntry {
    type V = EntryView;

    open spec fn view(&self) -> EntryView {
        EntryView {
            name: self.name@,
            is_dir: self.is_dir,
            size: self.size,
            modified: text::opt(self.modified),
            permissions: self.permissions,
            user: text::opt(self.user),
            group: text::opt(self.group),
        }
    }
}

/// What a list of entries holds.
pub open spec fn entries(list: Seq<FileEntry>) -> Seq<EntryView> {
    Seq::new(list.len(), |i: int| list[i]@)
}

impl FileEntry {
    /// A copy.
    pub fn copied(&self) -> (r: FileEntry)
        ensures
            r@ == self@,
    {
        FileEntry {
            name: self.name.clone(),
            is_dir: self.is_dir,
            size: self.size,
            modified: text::copied_opt(&self.modified),
            permissions: self.permissions,
            user: text::copied_opt(&self.user),
            group: text::copied_opt(&self.group),
        }
    }
}

} // verus!
