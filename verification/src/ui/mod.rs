//! What the lock screen and the greeter share.

pub mod config;
pub mod desktop_entry;
pub mod frame;
pub mod painter;
pub mod theme;
