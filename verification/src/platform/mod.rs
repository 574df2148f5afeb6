//! Window tracking and idle detection.  This build has no window system to
//! ask: the focused window, the idle time and the huddle window read as none.
use vstd::prelude::*;

pub mod types;
pub mod stub;
pub mod linux;
pub mod window_rules;

use types::{ActiveWindowInfo, HuddleInfo};

verus! {

/// Get the currently focused window.
pub fn get_active_window() -> (w: Option<ActiveWindowInfo>)
    ensures
        w is None,
{
    stub::get_active_window()
}

/// Get seconds since last user input (keyboard/mouse).
pub fn get_idle_seconds() -> (s: u64)
    ensures
        s == 0,
{
    stub::get_idle_seconds()
}

/// Return all visible windows owned by known IDE processes (VS Code, Rider, etc.).
/// Used to detect active project context even when the IDE is not focused.
pub fn list_ide_windows() -> (ws: Vec<ActiveWindowInfo>)
    ensures
        ws@.len() == 0,
{
    stub::list_ide_windows()
}

/// Scan all visible windows for an active Slack Huddle.
pub fn get_huddle_window() -> (h: Option<HuddleInfo>)
    ensures
        h is None,
{
    stub::get_huddle_window()
}

} // verus!
