//! Per-application layout memory: which layout the user types in inside each
//! application, keyed by executable name without regard to case.

use vstd::prelude::*;

use crate::keyed::KeyedList;
use crate::layout::LayoutId;
use crate::text::{lowercase, to_lowercase};

verus! {

/// The learned layouts, by lowercased executable name.
pub struct AppMemory {
    layouts: KeyedList<LayoutId>,
}

/// What the memory answers for `exe`: nothing for a name that lowercases to
/// nothing (only the empty name does), otherwise the layout learned under its
/// lowercased form, if any.
pub open spec fn recalled(memory: Map<Seq<char>, LayoutId>, exe: Seq<char>) -> Option<LayoutId> {
    if lowercase(exe).len() == 0 {
        None
    } else if memory.contains_key(lowercase(exe)) {
        Some(memory[lowercase(exe)])
    } else {
        None
    }
}

/// The memory after learning `layout` for `exe`; a name that lowercases to
/// nothing (only the empty name does) is ignored.
pub open spec fn learned(memory: Map<Seq<char>, LayoutId>, exe: Seq<char>, layout: LayoutId) -> Map<
    Seq<char>,
    LayoutId,
> {
    if lowercase(exe).len() == 0 {
        memory
    } else {
        memory.insert(lowercase(exe), layout)
    }
}

impl View for AppMemory {
    type V = Map<Seq<char>, LayoutId>;

    closed spec fn view(&self) -> Map<Seq<char>, LayoutId> {
        self.layouts@
    }
}

impl AppMemory {
    pub fn new() -> (m: Self)
        ensures
            m@ == Map::<Seq<char>, LayoutId>::empty(),
    {
        AppMemory { layouts: KeyedList::new() }
    }
}

/// Remember that `layout` is the one used in application `exe_name`; called
/// when the engine corrects a word or the user switches layout by hand there.
pub fn learn_app_layout(memory: &mut AppMemory, exe_name: &str, layout: LayoutId)
    ensures
        final(memory)@ == learned(old(memory)@, exe_name@, layout),
        exe_name@.len() == 0 <==> lowercase(exe_name@).len() == 0,
        exe_name@.len() == 0 ==> final(memory)@ == old(memory)@,
{
    let key = to_lowercase(exe_name);
    if key.as_str().is_empty() {
        return;
    }
    memory.layouts.insert(key, layout);
}

/// The layout learned for application `exe_name`, if any; asked when focus
/// moves to a new window, so the hook can switch to it.
pub fn get_learned_layout(memory: &AppMemory, exe_name: &str) -> (r: Option<LayoutId>)
    ensures
        r == recalled(memory@, exe_name@),
        exe_name@.len() == 0 <==> lowercase(exe_name@).len() == 0,
        exe_name@.len() == 0 ==> r is None,
{
    let key = to_lowercase(exe_name);
    if key.as_str().is_empty() {
        return None;
    }
    memory.layouts.get(&key)
}

/// Forget every learned layout (the reset in the settings).
pub fn clear_memory(memory: &mut AppMemory)
    ensures
        final(memory)@ == Map::<Seq<char>, LayoutId>::empty(),
{
    memory.layouts.clear();
}

/// What is learned for an application is recalled for it, under any spelling
/// of its name that lowercases the same way. The premise on `exe` holds of
/// every non-empty name: `learn_app_layout` and `get_learned_layout` state
/// that a name lowercases to nothing exactly when it is empty.
pub proof fn law_learned_layout_is_recalled(
    memory: Map<Seq<char>, LayoutId>,
    exe: Seq<char>,
    asked: Seq<char>,
    layout: LayoutId,
)
    requires
        lowercase(exe).len() > 0,
        lowercase(asked) == lowercase(exe),
    ensures
        recalled(learned(memory, exe, layout), asked) == Some(layout),
{
}

/// Learning a layout for one application leaves what is recalled for every
/// other application unchanged.
pub proof fn law_learning_leaves_other_apps_alone(
    memory: Map<Seq<char>, LayoutId>,
    exe: Seq<char>,
    other: Seq<char>,
    layout: LayoutId,
)
    requires
        lowercase(other) != lowercase(exe),
    ensures
        recalled(learned(memory, exe, layout), other) == recalled(memory, other),
{
}

/// A name that lowercases to nothing (the empty name) neither teaches nor
/// recalls anything.
pub proof fn law_empty_name_is_ignored(memory: Map<Seq<char>, LayoutId>, exe: Seq<char>, layout: LayoutId)
    requires
        lowercase(exe).len() == 0,
    ensures
        learned(memory, exe, layout) == memory,
        recalled(memory, exe) is None,
{
}

/// After the memory is cleared, nothing is recalled.
pub proof fn law_cleared_memory_recalls_nothing(exe: Seq<char>)
    ensures
        recalled(Map::<Seq<char>, LayoutId>::empty(), exe) is None,
{
}

} // verus!
