//! Password-field detection on macOS.

use vstd::prelude::*;

verus! {

/// Whether the focused field is a password field. The accessibility query is
/// not implemented yet, so the answer is always "unknown", which the guards
/// treat as a password field.
pub fn is_focused_field_password() -> (r: Option<bool>)
    ensures
        r is None,
{
    None
}

} // verus!
