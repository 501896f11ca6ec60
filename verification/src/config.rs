//! Preferences and sessions, as they are kept on disk.

use vstd::prelude::*;

pub mod app_config;
pub mod error;
pub mod load;
pub mod paths;
pub mod session;
pub mod store;

verus! {

/// The port of a session that names none.
pub const DEFAULT_SSH_PORT: u16 = 22;

} // verus!
