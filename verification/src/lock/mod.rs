//! The lock screen.

pub mod auth;
pub mod background;
pub mod bread_events;
pub mod config;
pub mod gpu;
pub mod keyboard;
pub mod mode;
pub mod palettes;
pub mod png;
pub mod render;
pub mod session;
pub mod state;
pub mod status;
pub mod surface;
pub mod theme_watch;
