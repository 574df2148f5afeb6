//! Stub implementations for platforms without window tracking.
use vstd::prelude::*;
use super::types::{ActiveWindowInfo, HuddleInfo};

verus! {

pub fn get_active_window() -> (w: Option<ActiveWindowInfo>)
    ensures
        w is None,
{
    None
}

pub fn get_idle_seconds() -> (s: u64)
    ensures
        s == 0,
{
    0
}

pub fn get_huddle_window() -> (h: Option<HuddleInfo>)
    ensures
        h is None,
{
    None
}

pub fn list_ide_windows() -> (ws: Vec<ActiveWindowInfo>)
    ensures
        ws@.len() == 0,
{
    Vec::new()
}

} // verus!
