//! The logic of a Wayland lock screen and of a greetd login greeter: what they
//! parse, decide and draw, each function with a contract that is proved.
//!
//! `ui` holds what both programs share, `lock` the lock screen, `greet` the
//! greeter. Opening files and sockets, talking to the compositor, to PAM and to
//! D-Bus, and drawing glyphs is left to the program around this library.

pub mod greet;
pub mod lock;
pub mod sort;
pub mod text;
pub mod ui;
