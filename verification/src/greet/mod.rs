//! The login greeter.

pub mod users;
pub mod sessions;
pub mod config;
pub mod theme;
pub mod greetd;
pub mod login;
