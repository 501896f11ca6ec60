//! The icons.

use vstd::prelude::*;

verus! {

/// An icon.
#[derive(Debug, Clone, Copy, PartialEq, Eq, Structural)]
pub enum Icon {
    /// The sessions.
    ListBar,
    /// The files.
    FolderMultiple,
    /// The files, where there are none to be shown.
    FolderJunk,
    /// A directory.
    Folder,
    /// A file.
    Document,
    /// Something new.
    Add,
    /// Uploading.
    CloudArrowUp,
    /// Downloading.
    CloudArrowDown,
    /// A new directory.
    FolderAdd,
    /// The directory above.
    ArrowReply,
    /// Reading a directory again.
    ArrowClockwise,
    /// Giving up.
    Dismiss,
    /// The settings.
    Settings,
    /// A folded group.
    ChevronCircleRight,
    /// An unfolded group.
    ChevronCircleDown,
    /// The folded list of tabs.
    ChevronDown,
    /// The unfolded list of tabs.
    ChevronUp,
    /// Sharing the sessions.
    ArrowExport,
    /// Taking in shared sessions.
    ArrowImport,
    /// The transfers.
    ArrowSort,
    /// A transfer that is done.
    Checkmark,
    /// A transfer that failed.
    Warning,
}

/// The name of an icon's drawing.
pub open spec fn drawing(icon: Icon) -> Seq<char> {
    match icon {
        Icon::ListBar => "list-bar-16-filled"@,
        Icon::FolderMultiple => "folder-multiple-16-filled"@,
        Icon::FolderJunk => "folder-junk-24-filled"@,
        Icon::Folder => "folder-16-filled"@,
        Icon::Document => "document-16-filled"@,
        Icon::Add => "add-16-filled"@,
        Icon::CloudArrowUp => "cloud-arrow-up-16-filled"@,
        Icon::CloudArrowDown => "cloud-arrow-down-16-filled"@,
        Icon::FolderAdd => "folder-add-16-filled"@,
        Icon::ArrowReply => "arrow-reply-16-filled"@,
        Icon::ArrowClockwise => "arrow-clockwise-16-filled"@,
        Icon::Dismiss => "dismiss-16-filled"@,
        Icon::Settings => "settings-16-filled"@,
        Icon::ChevronCircleRight => "chevron-circle-right-16-filled"@,
        Icon::ChevronCircleDown => "chevron-circle-down-16-filled"@,
        Icon::ChevronDown => "chevron-down-16-filled"@,
        Icon::ChevronUp => "chevron-up-16-filled"@,
        Icon::ArrowExport => "arrow-export-16-filled"@,
        Icon::ArrowImport => "arrow-import-16-filled"@,
        Icon::ArrowSort => "arrow-sort-16-filled"@,
        Icon::Checkmark => "checkmark-16-filled"@,
        Icon::Warning => "warning-16-filled"@,
    }
}

impl Icon {
    /// The name of the icon's drawing, which stands in the file of that name.
    pub fn file_name(&self) -> (r: &'static str)
        ensures
            r@ == drawing(*self),
    {
        match self {
            Icon::ListBar => "list-bar-16-filled",
            Icon::FolderMultiple => "folder-multiple-16-filled",
            Icon::FolderJunk => "folder-junk-24-filled",
            Icon::Folder => "folder-16-filled",
            Icon::Document => "document-16-filled",
            Icon::Add => "add-16-filled",
            Icon::CloudArrowUp => "cloud-arrow-up-16-filled",
            Icon::CloudArrowDown => "cloud-arrow-down-16-filled",
            Icon::FolderAdd => "folder-add-16-filled",
            Icon::ArrowReply => "arrow-reply-16-filled",
            Icon::ArrowClockwise => "arrow-clockwise-16-filled",
            Icon::Dismiss => "dismiss-16-filled",
            Icon::Settings => "settings-16-filled",
            Icon::ChevronCircleRight => "chevron-circle-right-16-filled",
            Icon::ChevronCircleDown => "chevron-circle-down-16-filled",
            Icon::ChevronDown => "chevron-down-16-filled",
            Icon::ChevronUp => "chevron-up-16-filled",
            Icon::ArrowExport => "arrow-export-16-filled",
            Icon::ArrowImport => "arrow-import-16-filled",
            Icon::ArrowSort => "arrow-sort-16-filled",
            Icon::Checkmark => "checkmark-16-filled",
            Icon::Warning => "warning-16-filled",
        }
    }
}

} // verus!
