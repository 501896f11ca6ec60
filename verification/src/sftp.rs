//! Remote files.

use vstd::prelude::*;

pub mod copy;
pub mod listing;

verus! {

/// What tells one version of a file from another: its length, and when it was last changed, in
/// nanoseconds since the Unix epoch, where the file system says so.
#[derive(Debug, Clone, Copy, PartialEq, Eq, Structural)]
pub struct Fingerprint {
    /// Length in bytes; 0 where it is unknown.
    pub len: u64,
    /// When the file was last changed.
    pub modified: Option<i128>,
}

/// Where an attempt starts.
#[derive(Debug, Clone, Copy, PartialEq, Eq, Structural)]
pub enum ResumeAt {
    /// At the beginning: the file written is emptied first.
    Start,
    /// At this byte: what is there is kept.
    Offset(u64),
}

impl Default for ResumeAt {
    fn default() -> (r: ResumeAt)
        ensures
            r == ResumeAt::Start,
    {
        ResumeAt::Start
    }
}

impl ResumeAt {
    /// The first byte.
    pub open spec fn first(self) -> u64 {
        match self {
            ResumeAt::Start => 0,
            ResumeAt::Offset(n) => n,
        }
    }

    /// The first byte.
    pub fn offset(self) -> (r: u64)
        ensures
            r == self.first(),
    {
        match self {
            ResumeAt::Start => 0,
            ResumeAt::Offset(n) => n,
        }
    }
}

} // verus!
