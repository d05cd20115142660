//! The Windows backend's decisions and state, apart from the calls into Win32.

pub mod app_memory;
pub mod active_window;
pub mod layout;
pub mod injector;
pub mod password;
pub mod undo;
pub mod hook;
