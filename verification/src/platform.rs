//! The contract every platform backend implements.
//!
//! Only the shape the operating-system layer must take lives here: each method
//! acts on whatever the user is currently typing into, and the backend decides
//! what that means. A window handle in a signature would be a Windows detail
//! leaking into a contract macOS and Linux also have to satisfy.

use vstd::prelude::*;

use crate::layout::LayoutId;

verus! {

/// Rewrites text in the focused field.
pub trait TextInjector {
    /// Delete `backspaces` characters, then type `replacement` as literal
    /// Unicode, so the text does not depend on the layout active meanwhile.
    /// Failures are reported as text.
    fn replace_text(&self, backspaces: usize, replacement: &str) -> Result<(), String>;
}

/// Reads and changes the active keyboard layout.
pub trait LayoutController {
    /// Layouts the user actually has installed.
    fn installed_layouts(&self) -> Vec<LayoutId>;

    /// Switch the focused window to `target`.
    fn switch_to(&self, target: LayoutId) -> Result<(), String>;
}

/// What the backend managed to learn about where the user is typing.
pub trait FocusContext {
    /// Executable name of the foreground application, when it can be read.
    fn active_process_name(&self) -> Option<String>;

    /// Whether the focused field is a password field: `Some(false)` only when
    /// the backend positively established it is ordinary text; `None` when it
    /// could not tell, which callers treat exactly like `Some(true)`.
    fn is_password_field(&self) -> Option<bool>;

    /// Whether the foreground application is on the user's block list.
    fn is_blocked(&self) -> bool;
}

/// Watches the keyboard and drives the correction loop until the process exits.
pub trait KeyHook {
    fn run(&self) -> Result<(), String>;
}

} // verus!
