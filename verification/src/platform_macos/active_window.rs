//! The foreground application.

use vstd::prelude::*;

verus! {

pub struct ActiveWindowInfo {
    pub process_id: u32,
    pub exe_name: String,
}

/// The foreground application. Not implemented on macOS yet: the answer is
/// always "unknown".
pub fn get_active_window_info() -> (r: Option<ActiveWindowInfo>)
    ensures
        r is None,
{
    None
}

/// Replace the macOS block list. The block list is not kept on macOS yet, so
/// this changes nothing (and the backend treats every application as blocked).
pub fn update_blacklist(blacklist: Vec<String>) {
}

} // verus!
