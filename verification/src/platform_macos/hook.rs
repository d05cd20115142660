//! The macOS keyboard hook's state that is not a system call.

use vstd::prelude::*;

verus! {

/// Called before a correction is typed.
pub fn acquire_injection_lock(lock: &mut bool)
    ensures
        *final(lock),
{
    *lock = true;
}

/// Called after a correction is typed. Keys pressed meanwhile are passed
/// through on macOS rather than held, so there is nothing to replay.
pub fn release_injection_lock_and_flush(lock: &mut bool)
    ensures
        !*final(lock),
{
    *lock = false;
}

/// The event-tap loop away from macOS, where it cannot run.
pub fn run_hook_loop() -> (r: Result<(), String>)
    ensures
        r matches Err(e) && e@ == "macOS hook cannot run on this platform"@,
{
    Err(String::from_str("macOS hook cannot run on this platform"))
}

} // verus!
