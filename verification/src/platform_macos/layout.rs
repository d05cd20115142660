//! Keyboard layouts on macOS.

use vstd::prelude::*;

use crate::layout::LayoutId;

verus! {

/// The installed layouts. Not read from the system yet: US and Russian are
/// assumed.
pub fn get_installed_layouts() -> (r: Vec<LayoutId>)
    ensures
        r@ == seq![LayoutId::UsQwerty, LayoutId::RuYcuken],
{
    let mut r = Vec::new();
    r.push(LayoutId::UsQwerty);
    r.push(LayoutId::RuYcuken);
    r
}

/// Switch the focused window to `target`. Selecting the input source is not
/// implemented yet, so the request succeeds without effect.
pub fn switch_layout(target: LayoutId) -> (r: Result<(), String>)
    ensures
        r is Ok,
{
    Ok(())
}

} // verus!
