//! The lock screen's settings.

use crate::ui::config::Appearance;
use vstd::prelude::*;

verus! {

/// What `breadlock.toml` holds.
#[derive(Debug, Clone)]
pub struct Config {
    pub appearance: Appearance,
    pub input: Input,
    pub animation: Animation,
    pub status: Status,
}

/// The `[input]` table.
#[derive(Debug, Clone, Copy, PartialEq, Eq, Structural)]
pub struct Input {
    /// How long a failed attempt shows, in milliseconds.
    pub fail_timeout_ms: u64,
    /// Show the typed password while `Tab` is held.
    pub reveal_hold: bool,
}

/// The `[animation]` table.
#[derive(Debug, Clone, Copy, PartialEq, Eq, Structural)]
pub struct Animation {
    /// A glow on the password pill every few seconds, as a sign of life.
    pub breathe: bool,
    /// Darken the screen after that many seconds without a key; never for 0.
    pub idle_dim_after_secs: u64,
}

/// The `[status]` table: what the line under the clock shows.
#[derive(Debug, Clone, Copy, PartialEq, Eq, Structural)]
pub struct Status {
    pub now_playing: bool,
    pub battery: bool,
}

impl Default for Input {
    fn default() -> (r: Self)
        ensures
            r == (Input { fail_timeout_ms: 800, reveal_hold: true }),
    {
        Input { fail_timeout_ms: 800, reveal_hold: true }
    }
}

impl Default for Animation {
    fn default() -> (r: Self)
        ensures
            r == (Animation { breathe: true, idle_dim_after_secs: 0 }),
    {
        Animation { breathe: true, idle_dim_after_secs: 0 }
    }
}

impl Default for Status {
    fn default() -> (r: Self)
        ensures
            r == (Status { now_playing: true, battery: true }),
    {
        Status { now_playing: true, battery: true }
    }
}

impl Default for Config {
    fn default() -> (r: Self)
        ensures
            r.appearance.is_default(),
            r.input == (Input { fail_timeout_ms: 800, reveal_hold: true }),
            r.animation == (Animation { breathe: true, idle_dim_after_secs: 0 }),
            r.status == (Status { now_playing: true, battery: true }),
    {
        Config {
            appearance: Appearance::default(),
            input: Input::default(),
            animation: Animation::default(),
            status: Status::default(),
        }
    }
}

} // verus!
