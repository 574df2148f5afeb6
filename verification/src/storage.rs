//! What the settings page shows of the store.
use vstd::prelude::*;

verus! {

/// The on-disk size of the database file and the number of recorded
/// sessions.
#[derive(Debug, Clone, Copy, PartialEq, Eq, Structural)]
pub struct StorageInfo {
    pub db_size_bytes: u64,
    pub session_count: i64,
}

} // verus!
