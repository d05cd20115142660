//! The macOS backend's decisions and state, apart from the calls into the
//! system frameworks. Much of it is still placeholder, and it is deliberately
//! inert rather than optimistic.

pub mod active_window;
pub mod hook;
pub mod layout;
pub mod password;
