//! Correcting text typed with the wrong keyboard layout.

use vstd::prelude::*;

pub mod key;
pub mod text;
pub mod keyed;
pub mod layout;
pub mod buffer;
pub mod guards;
pub mod lang;
pub mod decide;
pub mod platform;
pub mod platform_windows;
pub mod platform_macos;
pub mod ui;
pub mod accuracy;
