use vstd::prelude::*;

pub mod text;
pub mod time;
pub mod session_store;
pub mod attribution;
pub mod git_probe;
pub mod choice;
pub mod platform;
pub mod project_registry;
pub mod activity_monitor;
pub mod jira_client;
pub mod settings_manager;
pub mod recorder;
pub mod huddle_monitor;
pub mod update;
pub mod db;
pub mod storage;

verus! {

/// Sessions shorter than this many seconds are discarded as accidental noise.
pub const MIN_SESSION_SECS: i64 = 30;

/// The key of a (project, branch) pair: `"{project_id}::{branch}"`, with an
/// empty branch when there is none.
pub open spec fn spec_session_key(project_id: Seq<char>, branch: Option<Seq<char>>) -> Seq<char> {
    project_id + "::"@ + match branch {
        Some(b) => b,
        None => Seq::<char>::empty(),
    }
}

/// Stable identifier for a (project, branch) pair, used to key the open
/// sessions and the snoozed pairs.
pub fn session_key(project_id: &str, branch: Option<&str>) -> (key: String)
    ensures
        key@ == spec_session_key(project_id@, match branch {
            Some(b) => Some(b@),
            None => None,
        }),
{
    let key = String::from_str(project_id).concat("::");
    match branch {
        Some(b) => key.concat(b),
        None => key,
    }
}

} // verus!
