//! The state of the lock screen: what was typed, how the attempt stands, and
//! which motions are under way. Times are in nanoseconds since the program
//! started.

use crate::lock::auth::{AuthError, AuthResult};
use crate::lock::config::Config;
use crate::lock::keyboard;
use crate::lock::render;
use crate::lock::render::{FrameInputs, Progress};
use crate::lock::status::StatusInfo;
use crate::text;
use vstd::prelude::*;

verus! {

/// How the attempt to unlock stands.
#[derive(Debug, Clone, Copy, PartialEq, Eq, Structural)]
pub enum AuthState {
    /// Nothing was submitted.
    Idle,
    /// A password is being checked. Keys are ignored, but for Escape, which
    /// gives the attempt up.
    Checking,
    /// The password was wrong.
    Failed,
    /// The account is locked or expired.
    AccountInvalid,
    /// PAM is not set up, or there is no name to authenticate: no password can
    /// help.
    ConfigError,
}

/// A key, as far as it matters here.
#[derive(Debug, Clone, Copy, PartialEq, Eq, Structural)]
pub enum Key {
    Enter,
    Backspace,
    Escape,
    Tab,
    Other,
}

/// A password to be checked, and the number that its outcome is known by.
pub struct Check {
    pub username: String,
    pub password: String,
    pub generation: u64,
}

/// What a key led to.
pub struct KeyOutcome {
    pub redraw: bool,
    pub check: Option<Check>,
}

/// When the next frame of a motion is due.
#[derive(Debug, Clone, Copy, PartialEq, Eq, Structural)]
pub enum Tick {
    /// Nothing moves any more.
    Stop,
    /// After that many milliseconds.
    After(u64),
}

/// The state of the lock screen.
pub struct AppState {
    pub config: Config,
    /// The background moves.
    pub moving: bool,
    /// The name to authenticate.
    pub username: String,
    pub password: String,
    /// How many dots stand for a password that was submitted.
    pub password_display_len: usize,
    pub auth_state: AuthState,
    /// Counts the attempts, those given up too. An outcome that comes with
    /// another number is not for the attempt at hand.
    pub auth_generation: u64,
    /// Counts the failures, so that the timer of one does not clear another.
    pub failed_generation: u64,
    pub checking_started: Option<u64>,
    pub started: u64,
    /// When the first frame was drawn.
    pub appear_started: Option<u64>,
    /// When the attempt succeeded. The screen stays locked until it has faded.
    pub unlocking: Option<u64>,
    /// When the password last grew.
    pub last_keystroke: Option<u64>,
    pub failed_at: Option<u64>,
    /// The clock of the last frame.
    pub last_clock_text: String,
    /// The clock that is fading out, and since when.
    pub clock_from: Option<(String, u64)>,
    pub status_anim_started: Option<u64>,
    /// The attempt's state in the last frame.
    pub last_auth_state: AuthState,
    pub breathe_started: Option<u64>,
    pub breathe_next_at: Option<u64>,
    pub anim_timer_armed: bool,
    pub caps_lock: bool,
    pub layout_index: u32,
    /// The password shows in place of the dots.
    pub reveal_held: bool,
    pub last_activity: u64,
    /// Wrong passwords since the last right one.
    pub failed_attempts: u32,
    pub status_info: StatusInfo,
    /// The compositor's lock is held.
    pub session_lock: bool,
    pub exit: bool,
}

/// What an [`AppState`] stands for.
#[verifier::ext_equal]
pub struct LockView {
    pub config: Config,
    pub moving: bool,
    pub username: Seq<char>,
    pub password: Seq<char>,
    pub password_display_len: usize,
    pub auth_state: AuthState,
    pub auth_generation: u64,
    pub failed_generation: u64,
    pub checking_started: Option<u64>,
    pub started: u64,
    pub appear_started: Option<u64>,
    pub unlocking: Option<u64>,
    pub last_keystroke: Option<u64>,
    pub failed_at: Option<u64>,
    pub last_clock_text: Seq<char>,
    pub clock_from: Option<(Seq<char>, u64)>,
    pub status_anim_started: Option<u64>,
    pub last_auth_state: AuthState,
    pub breathe_started: Option<u64>,
    pub breathe_next_at: Option<u64>,
    pub anim_timer_armed: bool,
    pub caps_lock: bool,
    pub layout_index: u32,
    pub reveal_held: bool,
    pub last_activity: u64,
    pub failed_attempts: u32,
    pub now_playing: Seq<char>,
    pub battery: Seq<char>,
    pub session_lock: bool,
    pub exit: bool,
}

impl View for AppState {
    type V = LockView;

    open spec fn view(&self) -> LockView {
        LockView {
            config: self.config,
            moving: self.moving,
            username: self.username@,
            password: self.password@,
            password_display_len: self.password_display_len,
            auth_state: self.auth_state,
            auth_generation: self.auth_generation,
            failed_generation: self.failed_generation,
            checking_started: self.checking_started,
            started: self.started,
            appear_started: self.appear_started,
            unlocking: self.unlocking,
            last_keystroke: self.last_keystroke,
            failed_at: self.failed_at,
            last_clock_text: self.last_clock_text@,
            clock_from: match self.clock_from {
                Some((t, at)) => Some((t@, at)),
                None => None,
            },
            status_anim_started: self.status_anim_started,
            last_auth_state: self.last_auth_state,
            breathe_started: self.breathe_started,
            breathe_next_at: self.breathe_next_at,
            anim_timer_armed: self.anim_timer_armed,
            caps_lock: self.caps_lock,
            layout_index: self.layout_index,
            reveal_held: self.reveal_held,
            last_activity: self.last_activity,
            failed_attempts: self.failed_attempts,
            now_playing: self.status_info.now_playing@,
            battery: self.status_info.battery@,
            session_lock: self.session_lock,
            exit: self.exit,
        }
    }
}

// ---------------------------------------------------------------------------
// Attempts
// ---------------------------------------------------------------------------

/// The number after `g`, with zero after the last.
pub open spec fn next_number(g: u64) -> u64 {
    if g == u64::MAX {
        0
    } else {
        (g + 1) as u64
    }
}

fn number_after(g: u64) -> (r: u64)
    ensures
        r == next_number(g),
{
    if g == u64::MAX {
        0
    } else {
        g + 1
    }
}

/// Whether a failed attempt shows.
pub open spec fn is_failure(a: AuthState) -> bool {
    a == AuthState::Failed || a == AuthState::AccountInvalid || a == AuthState::ConfigError
}

/// Whether a failed attempt shows.
pub fn shows_failure(a: AuthState) -> (r: bool)
    ensures
        r == is_failure(a),
{
    match a {
        AuthState::Failed | AuthState::AccountInvalid | AuthState::ConfigError => true,
        AuthState::Idle | AuthState::Checking => false,
    }
}

/// Whether the timer of the failure `timer_gen` clears what shows: it is still
/// that failure.
pub fn fail_timer_applies(timer_gen: u64, current_gen: u64, auth: AuthState) -> (r: bool)
    ensures
        r == (timer_gen == current_gen && is_failure(auth)),
{
    timer_gen == current_gen && shows_failure(auth)
}

/// The dots after "Checking", which tick twice a second. `time` is how long the
/// check has taken.
pub open spec fn dots(time: int) -> Seq<char> {
    let tick = time / 500_000_000 % 4;
    if tick == 0 {
        ""@
    } else if tick == 1 {
        "."@
    } else if tick == 2 {
        ".."@
    } else {
        "…"@
    }
}

/// The dots after "Checking", which tick twice a second while a check runs.
pub fn checking_dots(time: u64) -> (r: &'static str)
    ensures
        r@ == dots(time as int),
{
    match time / 500_000_000 % 4 {
        0 => "",
        1 => ".",
        2 => "..",
        _ => "…",
    }
}

// ---------------------------------------------------------------------------
// What happens
// ---------------------------------------------------------------------------

impl LockView {
    /// No failure shows any more.
    pub open spec fn cleared(self) -> LockView {
        if is_failure(self.auth_state) {
            LockView { auth_state: AuthState::Idle, failed_at: None, password_display_len: 0, ..self
            }
        } else {
            self
        }
    }

    /// An attempt failed.
    pub open spec fn failed(self, next: AuthState, now: u64) -> LockView {
        LockView {
            auth_state: next,
            failed_at: Some(now),
            checking_started: None,
            failed_generation: next_number(self.failed_generation),
            ..self
        }
    }

    /// Whether submitting leads to a check: there is a password, and someone to
    /// authenticate.
    pub open spec fn can_submit(self) -> bool {
        self.password.len() > 0 && self.username.len() > 0
    }

    /// The password was submitted. It leaves the state, and as many dots as it
    /// had characters stay.
    pub open spec fn submitted(self, now: u64) -> LockView {
        if self.password.len() == 0 {
            self
        } else if self.username.len() == 0 {
            self.failed(AuthState::ConfigError, now)
        } else {
            LockView {
                password: seq![],
                password_display_len: self.password.len() as usize,
                auth_state: AuthState::Checking,
                checking_started: Some(now),
                auth_generation: next_number(self.auth_generation),
                ..self
            }
        }
    }

    /// The attempt at hand is given up: whatever comes of it is not for this
    /// state any more.
    pub open spec fn cancelled(self, now: u64) -> LockView {
        LockView {
            auth_generation: next_number(self.auth_generation),
            auth_state: AuthState::Idle,
            checking_started: None,
            password_display_len: 0,
            last_activity: now,
            ..self
        }
    }

    /// `input` was typed, into a buffer of `room` bytes.
    pub open spec fn typed(self, input: Seq<char>, now: u64, room: int) -> LockView {
        let password = keyboard::typed(self.password, input, room);
        if password.len() > self.password.len() {
            LockView { password, last_keystroke: Some(now), ..self }.cleared()
        } else {
            self
        }
    }

    /// A key was pressed while nothing is being checked and the screen is not
    /// fading.
    pub open spec fn edited(self, key: Key, input: Option<Seq<char>>, now: u64, room: int) -> LockView {
        let s = LockView { last_activity: now, ..self };
        if key == Key::Tab && self.config.input.reveal_hold {
            LockView { reveal_held: true, ..s }
        } else {
            match key {
                Key::Enter => s.submitted(now),
                Key::Backspace => LockView {
                    password: keyboard::backspaced(s.password),
                    ..s
                }.cleared(),
                Key::Escape => LockView {
                    password: seq![],
                    password_display_len: 0,
                    ..s
                }.cleared(),
                _ => match input {
                    Some(t) => s.typed(t, now, room),
                    None => s,
                },
            }
        }
    }

    /// A key was pressed, which types `input` where it types anything.
    pub open spec fn key_pressed(
        self,
        key: Key,
        input: Option<Seq<char>>,
        now: u64,
        room: int,
    ) -> LockView {
        if self.unlocking is Some {
            self
        } else if self.auth_state == AuthState::Checking {
            if key == Key::Escape {
                self.cancelled(now)
            } else {
                self
            }
        } else {
            self.edited(key, input, now, room)
        }
    }

    /// Whether a key changes what shows.
    pub open spec fn key_redraws(self, key: Key) -> bool {
        self.unlocking is None && (self.auth_state == AuthState::Checking ==> key == Key::Escape)
    }

    /// Whether a key's text goes into the password: nothing is being checked,
    /// the screen is not fading, and the key means nothing else.
    pub open spec fn key_types(self, key: Key) -> bool {
        &&& self.unlocking is None
        &&& self.auth_state != AuthState::Checking
        &&& key == Key::Other || (key == Key::Tab && !self.config.input.reveal_hold)
    }

    /// Whether a key hands the password over to be checked.
    pub open spec fn key_checks(self, key: Key) -> bool {
        &&& self.unlocking is None
        &&& self.auth_state != AuthState::Checking
        &&& key == Key::Enter
        &&& self.can_submit()
    }

    /// The outcome of attempt `generation` came in.
    pub open spec fn answered(self, generation: u64, result: AuthResult, now: u64) -> LockView {
        if generation != self.auth_generation {
            self
        } else {
            match result {
                Ok(_) => LockView {
                    unlocking: if self.unlocking is None {
                        Some(now)
                    } else {
                        self.unlocking
                    },
                    failed_attempts: 0,
                    ..self
                },
                Err(AuthError::ContextInit) => self.failed(AuthState::ConfigError, now),
                Err(AuthError::AccountInvalid) => self.failed(AuthState::AccountInvalid, now),
                Err(AuthError::Authenticate) => LockView {
                    failed_attempts: if self.failed_attempts == u32::MAX {
                        u32::MAX
                    } else {
                        (self.failed_attempts + 1) as u32
                    },
                    ..self
                }.failed(AuthState::Failed, now),
            }
        }
    }

    /// The timer of failure `generation` ran out.
    pub open spec fn fail_timed_out(self, generation: u64) -> LockView {
        if generation == self.failed_generation && is_failure(self.auth_state) {
            LockView { auth_state: AuthState::Idle, failed_at: None, password_display_len: 0, ..self
            }
        } else {
            self
        }
    }

    /// How many dots stand in the pill.
    pub open spec fn shown_len(self) -> int {
        if self.password.len() == 0 {
            self.password_display_len as int
        } else {
            self.password.len() as int
        }
    }
}

// ---------------------------------------------------------------------------
// Motions
// ---------------------------------------------------------------------------

/// Whether a motion that began at `since` and takes `ms` is under way.
pub open spec fn runs(since: Option<u64>, now: u64, ms: u64) -> bool {
    since matches Some(t) && render::elapsed(now, t) < ms * render::NS_PER_MS
}

fn is_running(since: Option<u64>, now: u64, ms: u64) -> (r: bool)
    requires
        ms <= u64::MAX / render::NS_PER_MS,
    ensures
        r == runs(since, now, ms),
{
    match since {
        Some(t) => render::time_since(now, t) < ms * render::NS_PER_MS,
        None => false,
    }
}

/// How far a motion has come, and `rest` where there is none.
pub open spec fn motion(since: Option<u64>, now: u64, ms: u64, rest: Progress) -> Progress {
    match since {
        Some(t) => render::progress(render::elapsed(now, t), ms * render::NS_PER_MS),
        None => rest,
    }
}

fn motion_of(since: Option<u64>, now: u64, ms: u64, rest: Progress) -> (r: Progress)
    requires
        ms <= u64::MAX / render::NS_PER_MS,
        rest.wf(),
    ensures
        r == motion(since, now, ms, rest),
        r.wf(),
{
    match since {
        Some(t) => render::unit_progress(now, t, ms),
        None => rest,
    }
}

impl LockView {
    /// The screen is appearing, or has not begun to.
    pub open spec fn appears(self, now: u64) -> bool {
        self.appear_started is None || runs(self.appear_started, now, render::APPEAR_MS)
    }

    /// A breath of the pill is due.
    pub open spec fn breath_due(self, now: u64) -> bool {
        self.config.animation.breathe && self.breathe_started is None && (
        self.breathe_next_at matches Some(t) && now >= t)
    }

    /// By how much the time without a key exceeds the time after which the
    /// screen darkens.
    pub open spec fn idle_beyond(self, now: u64) -> int {
        render::elapsed(now, self.last_activity) - self.config.animation.idle_dim_after_secs
            * 1_000_000_000
    }

    /// The screen is darkening.
    pub open spec fn dims(self, now: u64) -> bool {
        self.config.animation.idle_dim_after_secs > 0 && 0 < self.idle_beyond(now)
            < render::IDLE_DIM_RAMP_MS * render::NS_PER_MS
    }

    /// How far the screen has darkened.
    pub open spec fn idle_dim(self, now: u64) -> Progress {
        if self.config.animation.idle_dim_after_secs > 0 && self.idle_beyond(now) > 0 {
            render::progress(self.idle_beyond(now), render::IDLE_DIM_RAMP_MS * render::NS_PER_MS)
        } else {
            Progress { done: 0, of: 1 }
        }
    }

    /// A clock is fading into the next.
    pub open spec fn clock_fades(self, now: u64) -> bool {
        self.clock_from matches Some((_, t)) && render::elapsed(now, t)
            < render::CLOCK_CROSSFADE_MS * render::NS_PER_MS
    }

    /// Something moves fast.
    pub open spec fn moves_fast(self, now: u64) -> bool {
        ||| self.appears(now)
        ||| runs(self.unlocking, now, render::UNLOCK_MS)
        ||| runs(self.failed_at, now, render::SHAKE_MS)
        ||| runs(self.last_keystroke, now, render::DOT_POP_MS)
        ||| self.clock_fades(now)
        ||| runs(self.status_anim_started, now, render::STATUS_SLIDE_MS)
        ||| self.auth_state == AuthState::Checking
    }

    /// Something moves, fast or slowly.
    pub open spec fn moves(self, now: u64) -> bool {
        ||| self.moves_fast(now)
        ||| self.unlocking is Some
        ||| self.breathe_started is Some
        ||| self.breath_due(now)
        ||| self.moving
        ||| self.dims(now)
        ||| self.unlocking is None && self.shown_len() > 0
    }

    /// The unlocking has faded.
    pub open spec fn has_faded(self, now: u64) -> bool {
        self.unlocking is Some && !runs(self.unlocking, now, render::UNLOCK_MS)
    }

    /// A key was let go.
    pub open spec fn released(self, key: Key) -> LockView {
        LockView { reveal_held: self.reveal_held && key != Key::Tab, ..self }
    }

    /// The keyboard was taken away.
    pub open spec fn left(self) -> LockView {
        LockView { reveal_held: false, ..self }
    }

    /// The modifiers or the layout changed, or were told again.
    pub open spec fn modified(self, caps_lock: bool, layout: u32, now: u64) -> LockView {
        LockView { caps_lock, layout_index: layout, last_activity: now, ..self }
    }

    /// There is news for the line under the clock.
    pub open spec fn told(self, now_playing: Seq<char>, battery: Seq<char>) -> LockView {
        LockView { now_playing, battery, ..self }
    }

    /// A timer for the next frame is set, where something moves and none is set
    /// yet. A breath that is due begins with it.
    pub open spec fn armed(self, now: u64) -> LockView {
        if !self.anim_timer_armed && self.moves(now) {
            LockView {
                anim_timer_armed: true,
                breathe_started: if self.breath_due(now) {
                    Some(now)
                } else {
                    self.breathe_started
                },
                ..self
            }
        } else {
            self
        }
    }

    /// When the frame after this one is due.
    pub open spec fn next_tick(self, now: u64) -> Tick {
        if self.has_faded(now) || !self.moves(now) {
            Tick::Stop
        } else if self.moves_fast(now) {
            Tick::After(render::ANIM_FRAME_MS)
        } else {
            Tick::After(render::SLOW_FRAME_MS)
        }
    }

    /// The timer for the next frame ran out.
    pub open spec fn ticked(self, now: u64) -> LockView {
        LockView {
            anim_timer_armed: self.anim_timer_armed && self.next_tick(now) != Tick::Stop,
            ..self
        }
    }

    /// No timer for the next frame is set.
    pub open spec fn disarmed(self) -> LockView {
        LockView { anim_timer_armed: false, ..self }
    }

    /// Nothing of what was typed is left.
    pub open spec fn wiped(self) -> LockView {
        LockView { password: seq![], ..self }
    }

    /// The compositor's lock is held.
    pub open spec fn taken(self) -> LockView {
        LockView { session_lock: true, ..self }
    }

    /// The lock is given up, and the program ends.
    pub open spec fn ended(self) -> LockView {
        LockView { session_lock: false, exit: true, ..self }
    }

    /// It was tried whether the screen can be unlocked.
    pub open spec fn completed(self, now: u64) -> LockView {
        if self.has_faded(now) {
            self.ended()
        } else {
            self
        }
    }
}

// ---------------------------------------------------------------------------
// A frame
// ---------------------------------------------------------------------------

/// The sum of two times, kept within what can be told.
pub open spec fn later(t: u64, by: int) -> u64 {
    if t + by > u64::MAX {
        u64::MAX
    } else {
        (t + by) as u64
    }
}

impl LockView {
    /// The state once a frame was drawn in which the clock shows `clock`.
    pub open spec fn drawn(self, clock: Seq<char>, now: u64) -> LockView {
        let breath_over = self.breathe_started matches Some(t) && render::elapsed(now, t)
            >= render::BREATHE_ACTIVE_MS * render::NS_PER_MS;
        let fading = if self.clock_fades(now) {
            self.clock_from
        } else {
            None
        };
        LockView {
            appear_started: if self.appear_started is None {
                Some(now)
            } else {
                self.appear_started
            },
            status_anim_started: if self.auth_state != self.last_auth_state {
                Some(now)
            } else {
                self.status_anim_started
            },
            last_auth_state: self.auth_state,
            breathe_started: if breath_over {
                None
            } else {
                self.breathe_started
            },
            breathe_next_at: if breath_over {
                Some(later(self.breathe_started->0, render::BREATHE_PERIOD_MS * render::NS_PER_MS))
            } else {
                self.breathe_next_at
            },
            clock_from: if fading is None && self.last_clock_text.len() > 0 && clock
                != self.last_clock_text {
                Some((self.last_clock_text, now))
            } else {
                fading
            },
            last_clock_text: clock,
            ..self
        }
    }

    /// The status under the pill.
    pub open spec fn status(self, now: u64) -> Option<Seq<char>> {
        match self.auth_state {
            AuthState::Idle => None,
            AuthState::Checking => Some(
                "Checking"@ + dots(
                    match self.checking_started {
                        Some(t) => render::elapsed(now, t),
                        None => 0,
                    },
                ),
            ),
            AuthState::Failed => Some(
                if self.failed_attempts > 1 {
                    "Wrong password — "@ + text::numeral(self.failed_attempts as nat)
                        + " failed attempts"@
                } else {
                    "Wrong password"@
                },
            ),
            AuthState::AccountInvalid => Some("Account locked or expired"@),
            AuthState::ConfigError => Some(
                "PAM config error — check logs (breadlock service not set up correctly)"@,
            ),
        }
    }

    /// The line under the clock.
    pub open spec fn info(self) -> Seq<char> {
        let playing = if self.config.status.now_playing {
            self.now_playing
        } else {
            seq![]
        };
        let battery = if self.config.status.battery {
            self.battery
        } else {
            seq![]
        };
        if playing.len() == 0 {
            battery
        } else if battery.len() == 0 {
            playing
        } else {
            playing + "  ·  "@ + battery
        }
    }

    /// Whether `f` is the frame of this state, which is the one after drawing.
    pub open spec fn is_shown_by(self, f: FrameInputs, date: Seq<char>, now: u64) -> bool {
        let zero = Progress { done: 0, of: 1 };
        let full = Progress { done: 1, of: 1 };
        &&& f.clock_text@ == self.last_clock_text
        &&& f.date_text@ == date
        &&& match self.clock_from {
            Some((t, at)) => f.clock_old matches Some((old, p)) && old@ == t && p
                == render::progress(
                render::elapsed(now, at),
                render::CLOCK_CROSSFADE_MS * render::NS_PER_MS,
            ),
            None => f.clock_old is None,
        }
        &&& f.password_len == self.shown_len()
        &&& f.reveal == self.reveal_held
        &&& f.caps_lock == self.caps_lock
        &&& f.layout_index == self.layout_index
        &&& f.idle_dim == self.idle_dim(now)
        &&& f.failed == is_failure(self.auth_state)
        &&& f.failed_t == motion(self.failed_at, now, render::SHAKE_MS, zero)
        &&& f.dot_pop_t == motion(self.last_keystroke, now, render::DOT_POP_MS, full)
        &&& f.keystroke_age == (match self.last_keystroke {
            Some(t) => Some(render::elapsed(now, t) as u64),
            None => None,
        })
        &&& f.time == render::elapsed(now, self.started)
        &&& f.breathe == (match self.breathe_started {
            Some(t) => Some(
                render::progress(
                    render::elapsed(now, t),
                    render::BREATHE_ACTIVE_MS * render::NS_PER_MS,
                ),
            ),
            None => None,
        })
        &&& f.status_t == motion(self.status_anim_started, now, render::STATUS_SLIDE_MS, full)
        &&& match self.status(now) {
            Some(t) => f.status_text matches Some(s) && s@ == t,
            None => f.status_text is None,
        }
        &&& f.info_text@ == self.info()
        &&& f.appear_t == motion(self.appear_started, now, render::APPEAR_MS, zero)
        &&& f.unlock_t == motion(self.unlocking, now, render::UNLOCK_MS, zero)
        &&& f.smooth_pan == !self.moves_fast(now)
    }
}

/// The state of a lock screen that nothing was typed into yet.
pub open spec fn fresh(config: Config, username: Seq<char>, moving: bool, now: u64) -> LockView {
    LockView {
        config,
        moving,
        username,
        password: seq![],
        password_display_len: 0,
        auth_state: AuthState::Idle,
        auth_generation: 0,
        failed_generation: 0,
        checking_started: None,
        started: now,
        appear_started: None,
        unlocking: None,
        last_keystroke: None,
        failed_at: None,
        last_clock_text: seq![],
        clock_from: None,
        status_anim_started: None,
        last_auth_state: AuthState::Idle,
        breathe_started: None,
        breathe_next_at: Some(
            later(now, render::BREATHE_INITIAL_DELAY_MS * render::NS_PER_MS),
        ),
        anim_timer_armed: false,
        caps_lock: false,
        layout_index: 0,
        reveal_held: false,
        last_activity: now,
        failed_attempts: 0,
        now_playing: seq![],
        battery: seq![],
        session_lock: false,
        exit: false,
    }
}

impl AppState {
    /// The state of a lock screen that nothing was typed into yet.
    pub fn new(config: Config, username: String, moving: bool, now: u64) -> (r: AppState)
        ensures
            r@ == fresh(config, username@, moving, now),
    {
        AppState {
            config,
            moving,
            username,
            password: String::with_capacity(keyboard::PASSWORD_CAP),
            password_display_len: 0,
            auth_state: AuthState::Idle,
            auth_generation: 0,
            failed_generation: 0,
            checking_started: None,
            started: now,
            appear_started: None,
            unlocking: None,
            last_keystroke: None,
            failed_at: None,
            last_clock_text: String::new(),
            clock_from: None,
            status_anim_started: None,
            last_auth_state: AuthState::Idle,
            breathe_started: None,
            breathe_next_at: Some(
                add_time(now, render::BREATHE_INITIAL_DELAY_MS * render::NS_PER_MS),
            ),
            anim_timer_armed: false,
            caps_lock: false,
            layout_index: 0,
            reveal_held: false,
            last_activity: now,
            failed_attempts: 0,
            status_info: StatusInfo::default(),
            session_lock: false,
            exit: false,
        }
    }

    fn clear_failed_state(&mut self)
        ensures
            final(self)@ == old(self)@.cleared(),
    {
        if shows_failure(self.auth_state) {
            self.auth_state = AuthState::Idle;
            self.failed_at = None;
            self.password_display_len = 0;
        }
    }

    /// Records that an attempt failed, and how.
    pub fn enter_fail(&mut self, next: AuthState, now: u64)
        ensures
            final(self)@ == old(self)@.failed(next, now),
    {
        self.auth_state = next;
        self.failed_at = Some(now);
        self.checking_started = None;
        self.failed_generation = number_after(self.failed_generation);
    }

    /// Submits the password. An empty one is not submitted, and without a name
    /// to authenticate the attempt fails at once.
    pub fn submit(&mut self, now: u64) -> (r: Option<Check>)
        ensures
            final(self)@ == old(self)@.submitted(now),
            r is Some <==> old(self)@.can_submit(),
            r matches Some(c) ==> {
                &&& c.username@ == old(self)@.username
                &&& c.password@ == old(self)@.password
                &&& c.generation == final(self)@.auth_generation
            },
    {
        if self.password.as_str().is_empty() {
            return None;
        }
        if self.username.as_str().is_empty() {
            self.enter_fail(AuthState::ConfigError, now);
            return None;
        }
        self.password_display_len = keyboard::password_char_count(self.password.as_str());
        self.auth_state = AuthState::Checking;
        self.checking_started = Some(now);
        self.auth_generation = number_after(self.auth_generation);
        let mut password = String::with_capacity(keyboard::PASSWORD_CAP);
        core::mem::swap(&mut self.password, &mut password);
        Some(
            Check { username: self.username.clone(), password, generation: self.auth_generation },
        )
    }

    /// A key was pressed, or repeated itself. `input` is what it types.
    ///
    /// What is typed is taken until [`keyboard::PASSWORD_CAP`] bytes are used up:
    /// a password in a smaller buffer is first moved to one of that size, and the
    /// smaller one overwritten. How much more room there is, the allocator
    /// decides.
    pub fn handle_key(&mut self, key: Key, input: Option<&str>, now: u64) -> (r: KeyOutcome)
        ensures
            exists|room: usize|
                #![trigger old(self)@.key_pressed(key, input_view(input), now, room as int)]
                keyboard::PASSWORD_CAP <= room && text::byte_len(old(self)@.password) <= room
                    && final(self)@ == old(self)@.key_pressed(
                    key,
                    input_view(input),
                    now,
                    room as int,
                ),
            old(self)@.key_types(key) && input is Some && text::byte_len(
                old(self)@.password + keyboard::printable(input->0@),
            ) <= keyboard::PASSWORD_CAP ==> final(self)@.password == old(self)@.password
                + keyboard::printable(input->0@),
            r.redraw == old(self)@.key_redraws(key),
            r.check is Some <==> old(self)@.key_checks(key),
            r.check matches Some(c) ==> {
                &&& c.username@ == old(self)@.username
                &&& c.password@ == old(self)@.password
                &&& c.generation == final(self)@.auth_generation
            },
    {
        if self.password.capacity() < keyboard::PASSWORD_CAP {
            let count: usize = keyboard::password_char_count(self.password.as_str());
            keyboard::move_to_fresh(&mut self.password, count, keyboard::PASSWORD_CAP);
            assert(self.password@ =~= old(self).password@);
        }
        assert(self@ == old(self)@);
        let held: usize = self.password.capacity();
        let room: usize = if held < keyboard::PASSWORD_CAP {
            keyboard::PASSWORD_CAP
        } else {
            held
        };
        let r = self.handle_key_within(key, input, now, room);
        assert(self@ == old(self)@.key_pressed(key, input_view(input), now, room as int));
        proof {
            if old(self)@.key_types(key) && input is Some && text::byte_len(
                old(self)@.password + keyboard::printable(input->0@),
            ) <= keyboard::PASSWORD_CAP {
                law_typed_text_is_taken(old(self)@, key, input->0@, now, room as int);
            }
        }
        r
    }

    /// [`AppState::handle_key`] with a password buffer of `room` bytes.
    pub fn handle_key_within(&mut self, key: Key, input: Option<&str>, now: u64, room: usize) -> (r:
        KeyOutcome)
        ensures
            final(self)@ == old(self)@.key_pressed(key, input_view(input), now, room as int),
            r.redraw == old(self)@.key_redraws(key),
            r.check is Some <==> old(self)@.key_checks(key),
            r.check matches Some(c) ==> {
                &&& c.username@ == old(self)@.username
                &&& c.password@ == old(self)@.password
                &&& c.generation == final(self)@.auth_generation
            },
    {
        if self.unlocking.is_some() {
            return KeyOutcome { redraw: false, check: None };
        }
        if self.auth_state == AuthState::Checking {
            if key == Key::Escape {
                self.auth_generation = number_after(self.auth_generation);
                self.auth_state = AuthState::Idle;
                self.checking_started = None;
                self.password_display_len = 0;
                self.last_activity = now;
                return KeyOutcome { redraw: true, check: None };
            }
            return KeyOutcome { redraw: false, check: None };
        }
        let check = self.edit(key, input, now, room);
        KeyOutcome { redraw: true, check }
    }

    fn erase(&mut self)
        ensures
            final(self)@ == (LockView {
                password: keyboard::backspaced(old(self)@.password),
                ..old(self)@
            }).cleared(),
    {
        keyboard::backspace(&mut self.password);
        self.clear_failed_state();
    }

    fn discard(&mut self)
        ensures
            final(self)@ == (LockView {
                password: seq![],
                password_display_len: 0,
                ..old(self)@
            }).cleared(),
    {
        keyboard::wipe(&mut self.password);
        self.password_display_len = 0;
        assert(self@ == (LockView { password: seq![], password_display_len: 0, ..old(self)@ }));
        self.clear_failed_state();
    }

    fn type_text(&mut self, input: &str, now: u64, room: usize)
        ensures
            final(self)@ == old(self)@.typed(input@, now, room as int),
    {
        if keyboard::type_within(&mut self.password, input, room) {
            self.last_keystroke = Some(now);
            self.clear_failed_state();
        } else {
            proof {
                lemma_typed_grows(old(self)@.password, input@, room as int);
            }
        }
    }

    fn edit(&mut self, key: Key, input: Option<&str>, now: u64, room: usize) -> (r: Option<Check>)
        ensures
            final(self)@ == old(self)@.edited(key, input_view(input), now, room as int),
            r is Some <==> key == Key::Enter && old(self)@.can_submit(),
            r matches Some(c) ==> {
                &&& c.username@ == old(self)@.username
                &&& c.password@ == old(self)@.password
                &&& c.generation == final(self)@.auth_generation
            },
    {
        self.last_activity = now;
        if key == Key::Tab && self.config.input.reveal_hold {
            self.reveal_held = true;
            return None;
        }
        match key {
            Key::Enter => {
                return self.submit(now);
            },
            Key::Backspace => {
                self.erase();
            },
            Key::Escape => {
                self.discard();
            },
            Key::Tab | Key::Other => {
                match input {
                    Some(t) => {
                        self.type_text(t, now, room);
                    },
                    None => {},
                }
            },
        }
        None
    }

    /// The keyboard was taken away. Whether the frame has to be drawn anew: the
    /// password must not stay in sight.
    pub fn keyboard_left(&mut self) -> (redraw: bool)
        ensures
            redraw == old(self)@.reveal_held,
            final(self)@ == old(self)@.left(),
            redraw == (old(self)@.reveal_held != final(self)@.reveal_held),
    {
        let redraw: bool = self.reveal_held;
        self.reveal_held = false;
        redraw
    }

    /// A key was let go.
    pub fn key_released(&mut self, key: Key) -> (redraw: bool)
        ensures
            redraw == (key == Key::Tab && old(self)@.reveal_held),
            final(self)@ == old(self)@.released(key),
            redraw == (old(self)@.reveal_held != final(self)@.reveal_held),
    {
        if key == Key::Tab && self.reveal_held {
            self.reveal_held = false;
            true
        } else {
            false
        }
    }

    /// The modifiers or the layout changed, or were told again.
    pub fn modifiers_changed(&mut self, caps_lock: bool, layout: u32, now: u64) -> (redraw: bool)
        ensures
            redraw == (old(self)@.caps_lock != caps_lock || old(self)@.layout_index != layout),
            final(self)@ == old(self)@.modified(caps_lock, layout, now),
            final(self)@.caps_lock == caps_lock,
            final(self)@.layout_index == layout,
    {
        let changed: bool = self.caps_lock != caps_lock || self.layout_index != layout;
        self.caps_lock = caps_lock;
        self.layout_index = layout;
        self.last_activity = now;
        changed
    }

    /// The outcome of an attempt came in. Returned is the failure's number where
    /// it has to be cleared after a while.
    pub fn auth_finished(&mut self, generation: u64, result: AuthResult, now: u64) -> (clear: Option<
        u64,
    >)
        ensures
            final(self)@ == old(self)@.answered(generation, result, now),
            clear == (if generation == old(self)@.auth_generation && result is Err {
                Some(final(self)@.failed_generation)
            } else {
                None
            }),
            clear is Some <==> final(self)@.failed_generation != old(self)@.failed_generation,
    {
        if generation != self.auth_generation {
            return None;
        }
        match result {
            Ok(_) => {
                if self.unlocking.is_none() {
                    self.unlocking = Some(now);
                }
                self.failed_attempts = 0;
                return None;
            },
            Err(AuthError::ContextInit) => {
                self.enter_fail(AuthState::ConfigError, now);
            },
            Err(AuthError::AccountInvalid) => {
                self.enter_fail(AuthState::AccountInvalid, now);
            },
            Err(AuthError::Authenticate) => {
                if self.failed_attempts < u32::MAX {
                    self.failed_attempts = self.failed_attempts + 1;
                }
                self.enter_fail(AuthState::Failed, now);
            },
        }
        Some(self.failed_generation)
    }

    /// After how many milliseconds a failure that shows now is cleared, and the
    /// failure's number.
    pub fn schedule_clear_failed(&self) -> (r: (u64, u64))
        ensures
            r.0 == self@.config.input.fail_timeout_ms,
            r.1 == self@.failed_generation,
    {
        (self.config.input.fail_timeout_ms, self.failed_generation)
    }

    /// The timer of a failure ran out.
    pub fn clear_failed(&mut self, generation: u64) -> (redraw: bool)
        ensures
            final(self)@ == old(self)@.fail_timed_out(generation),
            redraw == (generation == old(self)@.failed_generation && is_failure(
                old(self)@.auth_state,
            )),
            redraw == (old(self)@.auth_state != final(self)@.auth_state),
    {
        if fail_timer_applies(generation, self.failed_generation, self.auth_state) {
            self.auth_state = AuthState::Idle;
            self.failed_at = None;
            self.password_display_len = 0;
            true
        } else {
            false
        }
    }

    /// There is news for the line under the clock.
    pub fn status_changed(&mut self, info: StatusInfo)
        ensures
            final(self)@ == old(self)@.told(info.now_playing@, info.battery@),
    {
        self.status_info = info;
    }

    /// Overwrites what was typed.
    pub fn wipe(&mut self)
        ensures
            final(self)@ == old(self)@.wiped(),
    {
        keyboard::wipe(&mut self.password);
    }
}

/// What a key types.
pub open spec fn input_view(input: Option<&str>) -> Option<Seq<char>> {
    match input {
        Some(t) => Some(t@),
        None => None,
    }
}

proof fn lemma_typed_grows(password: Seq<char>, input: Seq<char>, room: int)
    ensures
        keyboard::typed(password, input, room).len() >= password.len(),
        keyboard::typed(password, input, room).len() == password.len() ==> keyboard::typed(
            password,
            input,
            room,
        ) == password,
    decreases input.len(),
{
    if input.len() > 0 {
        if text::is_control(input[0]) {
            lemma_typed_grows(password, input.skip(1), room);
        } else if keyboard::fits(password, input[0], room) {
            lemma_typed_grows(password.push(input[0]), input.skip(1), room);
        }
    }
}

fn add_time(t: u64, by: u64) -> (r: u64)
    ensures
        r == later(t, by as int),
{
    if t > u64::MAX - by {
        u64::MAX
    } else {
        t + by
    }
}

// ---------------------------------------------------------------------------
// Drawing
// ---------------------------------------------------------------------------

impl AppState {
    fn appear_in_progress(&self, now: u64) -> (r: bool)
        ensures
            r == self@.appears(now),
    {
        self.appear_started.is_none() || is_running(self.appear_started, now, render::APPEAR_MS)
    }

    fn clock_fade_in_progress(&self, now: u64) -> (r: bool)
        ensures
            r == self@.clock_fades(now),
    {
        match &self.clock_from {
            Some((_, t)) => render::time_since(now, *t) < render::CLOCK_CROSSFADE_MS
                * render::NS_PER_MS,
            None => false,
        }
    }

    fn breathe_due(&self, now: u64) -> (r: bool)
        ensures
            r == self@.breath_due(now),
    {
        if !self.config.animation.breathe || self.breathe_started.is_some() {
            return false;
        }
        match self.breathe_next_at {
            Some(t) => now >= t,
            None => false,
        }
    }

    /// How far the screen has darkened, and whether it still does.
    fn idle_dim(&self, now: u64) -> (r: (Progress, bool))
        ensures
            r.0 == self@.idle_dim(now),
            r.0.wf(),
            r.1 == self@.dims(now),
    {
        let after: u64 = self.config.animation.idle_dim_after_secs;
        if after == 0 {
            return (Progress::none(), false);
        }
        let idle: u128 = render::time_since(now, self.last_activity) as u128;
        let threshold: u128 = after as u128 * 1_000_000_000;
        if idle <= threshold {
            return (Progress::none(), false);
        }
        let beyond: u64 = (idle - threshold) as u64;
        let ramp: u64 = render::IDLE_DIM_RAMP_MS * render::NS_PER_MS;
        if beyond < ramp {
            (Progress { done: beyond, of: ramp }, true)
        } else {
            (Progress { done: ramp, of: ramp }, false)
        }
    }

    fn shown_len(&self) -> (r: usize)
        ensures
            r == self@.shown_len(),
    {
        if self.password.as_str().is_empty() {
            self.password_display_len
        } else {
            keyboard::password_char_count(self.password.as_str())
        }
    }

    /// Whether something moves fast: everything but the breath of the pill, the
    /// drift of the background, the darkening and the caret.
    pub fn fast_anim_in_progress(&self, now: u64) -> (r: bool)
        ensures
            r == self@.moves_fast(now),
    {
        self.appear_in_progress(now) || is_running(self.unlocking, now, render::UNLOCK_MS)
            || is_running(self.failed_at, now, render::SHAKE_MS) || is_running(
            self.last_keystroke,
            now,
            render::DOT_POP_MS,
        ) || self.clock_fade_in_progress(now) || is_running(
            self.status_anim_started,
            now,
            render::STATUS_SLIDE_MS,
        ) || self.auth_state == AuthState::Checking
    }

    /// Whether something moves, so that another frame has to follow.
    pub fn anim_in_progress(&self, now: u64) -> (r: bool)
        ensures
            r == self@.moves(now),
    {
        self.fast_anim_in_progress(now) || self.unlocking.is_some()
            || self.breathe_started.is_some() || self.breathe_due(now) || self.moving
            || self.idle_dim(now).1 || (self.unlocking.is_none() && self.shown_len() > 0)
    }

    fn note_breath(&mut self, now: u64)
        ensures
            ({
                let s = old(self)@;
                let over = s.breathe_started matches Some(t) && render::elapsed(now, t)
                    >= render::BREATHE_ACTIVE_MS * render::NS_PER_MS;
                final(self)@ == (if over {
                    LockView {
                        breathe_started: None,
                        breathe_next_at: Some(
                            later(
                                s.breathe_started->0,
                                render::BREATHE_PERIOD_MS * render::NS_PER_MS,
                            ),
                        ),
                        ..s
                    }
                } else {
                    s
                })
            }),
    {
        match self.breathe_started {
            Some(t) => {
                if render::time_since(now, t) >= render::BREATHE_ACTIVE_MS * render::NS_PER_MS {
                    self.breathe_started = None;
                    self.breathe_next_at = Some(
                        add_time(t, render::BREATHE_PERIOD_MS * render::NS_PER_MS),
                    );
                }
            },
            None => {},
        }
    }

    fn note_clock(&mut self, clock: &str, now: u64)
        ensures
            ({
                let s = old(self)@;
                let fading = if s.clock_fades(now) {
                    s.clock_from
                } else {
                    None
                };
                final(self)@ == (LockView {
                    clock_from: if fading is None && s.last_clock_text.len() > 0 && clock@
                        != s.last_clock_text {
                        Some((s.last_clock_text, now))
                    } else {
                        fading
                    },
                    last_clock_text: clock@,
                    ..s
                })
            }),
    {
        if !self.clock_fade_in_progress(now) {
            self.clock_from = None;
        }
        let changed: bool = !self.last_clock_text.as_str().is_empty() && !text::same(
            clock,
            self.last_clock_text.as_str(),
        );
        if self.clock_from.is_none() && changed {
            self.clock_from = Some((self.last_clock_text.clone(), now));
        }
        self.last_clock_text = clock.to_owned();
    }

    /// Notes that a frame is drawn now, in which the clock shows `clock`.
    fn note_frame(&mut self, clock: &str, now: u64)
        ensures
            final(self)@ == old(self)@.drawn(clock@, now),
    {
        if self.appear_started.is_none() {
            self.appear_started = Some(now);
        }
        if self.auth_state != self.last_auth_state {
            self.status_anim_started = Some(now);
            self.last_auth_state = self.auth_state;
        }
        self.note_breath(now);
        self.note_clock(clock, now);
    }

    fn status_text(&self, now: u64) -> (r: Option<String>)
        ensures
            match self@.status(now) {
                Some(t) => r matches Some(s) && s@ == t,
                None => r is None,
            },
    {
        match self.auth_state {
            AuthState::Idle => None,
            AuthState::Checking => {
                let time: u64 = match self.checking_started {
                    Some(t) => render::time_since(now, t),
                    None => 0,
                };
                Some(text::joined("Checking", checking_dots(time)))
            },
            AuthState::Failed => {
                if self.failed_attempts > 1 {
                    let count = text::number_text(self.failed_attempts);
                    let head = text::joined("Wrong password — ", count.as_str());
                    Some(text::joined(head.as_str(), " failed attempts"))
                } else {
                    Some("Wrong password".to_owned())
                }
            },
            AuthState::AccountInvalid => Some("Account locked or expired".to_owned()),
            AuthState::ConfigError => Some(
                "PAM config error — check logs (breadlock service not set up correctly)".to_owned(),
            ),
        }
    }

    fn info_text(&self) -> (r: String)
        ensures
            r@ == self@.info(),
    {
        let playing: bool = self.config.status.now_playing
            && !self.status_info.now_playing.as_str().is_empty();
        let battery: bool = self.config.status.battery
            && !self.status_info.battery.as_str().is_empty();
        if playing && battery {
            let head = text::joined(self.status_info.now_playing.as_str(), "  ·  ");
            text::joined(head.as_str(), self.status_info.battery.as_str())
        } else if playing {
            self.status_info.now_playing.clone()
        } else if battery {
            self.status_info.battery.clone()
        } else {
            let empty = String::new();
            assert(empty@ =~= self@.info());
            empty
        }
    }

    /// The frame to draw now for a surface of that size, with the clock and the
    /// date as they read. None for a surface that has no size yet: then nothing
    /// changes.
    pub fn redraw_surface(
        &mut self,
        width: u32,
        height: u32,
        clock: &str,
        date: &str,
        now: u64,
    ) -> (r: Option<FrameInputs>)
        ensures
            r is Some <==> width > 0 && height > 0,
            r is None ==> final(self)@ == old(self)@,
            r matches Some(f) ==> {
                &&& final(self)@ == old(self)@.drawn(clock@, now)
                &&& f.width == width
                &&& f.height == height
                &&& final(self)@.is_shown_by(f, date@, now)
            },
    {
        if width == 0 || height == 0 {
            return None;
        }
        self.note_frame(clock, now);
        Some(self.frame_inputs(width, height, date, now))
    }

    fn frame_inputs(&self, width: u32, height: u32, date: &str, now: u64) -> (f: FrameInputs)
        ensures
            f.width == width,
            f.height == height,
            self@.is_shown_by(f, date@, now),
    {
        let clock_old = match &self.clock_from {
            Some((t, at)) => Some(
                (t.clone(), render::unit_progress(now, *at, render::CLOCK_CROSSFADE_MS)),
            ),
            None => None,
        };
        let breathe = match self.breathe_started {
            Some(t) => Some(render::unit_progress(now, t, render::BREATHE_ACTIVE_MS)),
            None => None,
        };
        let keystroke_age: Option<u64> = match self.last_keystroke {
            Some(t) => Some(render::time_since(now, t)),
            None => None,
        };
        FrameInputs {
            width,
            height,
            clock_text: self.last_clock_text.clone(),
            date_text: date.to_owned(),
            clock_old,
            password_len: self.shown_len(),
            reveal: self.reveal_held,
            caps_lock: self.caps_lock,
            layout_index: self.layout_index,
            idle_dim: self.idle_dim(now).0,
            failed: shows_failure(self.auth_state),
            failed_t: motion_of(self.failed_at, now, render::SHAKE_MS, Progress::none()),
            dot_pop_t: motion_of(self.last_keystroke, now, render::DOT_POP_MS, Progress::full()),
            keystroke_age,
            time: render::time_since(now, self.started),
            breathe,
            status_t: motion_of(
                self.status_anim_started,
                now,
                render::STATUS_SLIDE_MS,
                Progress::full(),
            ),
            status_text: self.status_text(now),
            info_text: self.info_text(),
            appear_t: motion_of(self.appear_started, now, render::APPEAR_MS, Progress::none()),
            unlock_t: motion_of(self.unlocking, now, render::UNLOCK_MS, Progress::none()),
            smooth_pan: !self.fast_anim_in_progress(now),
        }
    }

    /// Whether a timer for the next frame has to be set. A breath that is due
    /// begins with it.
    pub fn arm_anim_if_needed(&mut self, now: u64) -> (arm: bool)
        ensures
            arm == (!old(self)@.anim_timer_armed && old(self)@.moves(now)),
            final(self)@ == old(self)@.armed(now),
            arm == (!old(self)@.anim_timer_armed && final(self)@.anim_timer_armed),
    {
        if self.anim_timer_armed || !self.anim_in_progress(now) {
            return false;
        }
        if self.breathe_due(now) {
            self.breathe_started = Some(now);
        }
        self.anim_timer_armed = true;
        true
    }

    /// The timer for the next frame could not be set.
    pub fn anim_timer_failed(&mut self)
        ensures
            final(self)@ == old(self)@.disarmed(),
    {
        self.anim_timer_armed = false;
    }

    /// The timer for the next frame ran out, and the frame was drawn. When the
    /// one after it is due: soon while something moves fast, later while all
    /// motions are slow, and not at all once nothing moves or the screen has
    /// faded.
    pub fn tick_animation(&mut self, now: u64) -> (r: Tick)
        ensures
            r == old(self)@.next_tick(now),
            final(self)@ == old(self)@.ticked(now),
    {
        if (self.unlocking.is_some() && !is_running(self.unlocking, now, render::UNLOCK_MS))
            || !self.anim_in_progress(now) {
            self.anim_timer_armed = false;
            return Tick::Stop;
        }
        if self.fast_anim_in_progress(now) {
            Tick::After(render::ANIM_FRAME_MS)
        } else {
            Tick::After(render::SLOW_FRAME_MS)
        }
    }

    /// Whether the compositor has to be told to unlock now: the attempt has
    /// succeeded, the screen has faded, and the lock is held. Once the screen has
    /// faded the program ends.
    pub fn complete_unlock_if_ready(&mut self, now: u64) -> (unlock: bool)
        ensures
            unlock == (old(self)@.has_faded(now) && old(self)@.session_lock),
            final(self)@ == old(self)@.completed(now),
            unlock == (old(self)@.session_lock && !final(self)@.session_lock),
    {
        if self.unlocking.is_none() || is_running(self.unlocking, now, render::UNLOCK_MS) {
            return false;
        }
        let unlock: bool = self.session_lock;
        self.session_lock = false;
        self.exit = true;
        unlock
    }

    /// The compositor has locked the session, or was asked to.
    pub fn locked(&mut self)
        ensures
            final(self)@ == old(self)@.taken(),
    {
        self.session_lock = true;
    }

    /// The compositor refused the lock, or ended it. Whether it has to be told
    /// to unlock: only where the lock is held and was granted.
    pub fn finished(&mut self, was_locked: bool) -> (unlock: bool)
        ensures
            unlock == (old(self)@.session_lock && was_locked),
            final(self)@ == old(self)@.ended(),
    {
        let unlock: bool = self.session_lock && was_locked;
        self.session_lock = false;
        self.exit = true;
        unlock
    }
}

// ---------------------------------------------------------------------------
// What holds of every run
// ---------------------------------------------------------------------------

/// Everything that happens to a lock screen.
pub enum Event {
    Key { key: Key, input: Option<Seq<char>>, room: int },
    KeyReleased { key: Key },
    KeyboardLeft,
    Modifiers { caps_lock: bool, layout: u32 },
    Answer { generation: u64, result: AuthResult },
    FailTimer { generation: u64 },
    Frame { clock: Seq<char> },
    Arm,
    Tick,
    Status { now_playing: Seq<char>, battery: Seq<char> },
    /// The screen was locked, or asked to be.
    Locked,
    /// It was tried whether the screen can be unlocked.
    Complete,
    /// The compositor refused the lock or ended it.
    Finished,
    /// The password was submitted.
    Submit,
    /// An attempt was found to have failed, in that way.
    Fail { next: AuthState },
    /// The timer for the next frame could not be set.
    TimerFailed,
    /// What was typed was overwritten.
    Wiped,
}

/// The state after an event.
pub open spec fn step(s: LockView, e: Event, now: u64) -> LockView {
    match e {
        Event::Key { key, input, room } => s.key_pressed(key, input, now, room),
        Event::KeyReleased { key } => s.released(key),
        Event::KeyboardLeft => s.left(),
        Event::Modifiers { caps_lock, layout } => s.modified(caps_lock, layout, now),
        Event::Answer { generation, result } => s.answered(generation, result, now),
        Event::FailTimer { generation } => s.fail_timed_out(generation),
        Event::Frame { clock } => s.drawn(clock, now),
        Event::Arm => s.armed(now),
        Event::Tick => s.ticked(now),
        Event::Status { now_playing, battery } => s.told(now_playing, battery),
        Event::Locked => s.taken(),
        Event::Complete => s.completed(now),
        Event::Finished => s.ended(),
        Event::Submit => s.submitted(now),
        Event::Fail { next } => s.failed(next, now),
        Event::TimerFailed => s.disarmed(),
        Event::Wiped => s.wiped(),
    }
}

/// Nothing but the success of the attempt at hand begins to unlock the screen,
/// and nothing takes it back.
pub proof fn law_only_success_unlocks(s: LockView, e: Event, now: u64)
    ensures
        s.unlocking is None && step(s, e, now).unlocking is Some ==> (
        e matches Event::Answer { generation, result } && generation == s.auth_generation
            && result is Ok),
        s.unlocking is Some ==> step(s, e, now).unlocking == s.unlocking,
{
    match e {
        Event::Key { key, input, room } => {
            lemma_keys_do_not_unlock(s, key, input, now, room);
        },
        Event::Answer { generation, result } => {
            lemma_answers_keep_unlocking(s, generation, result, now);
        },
        Event::Frame { clock } => {
            assert(s.drawn(clock, now).unlocking == s.unlocking);
        },
        Event::Complete => {
            assert(s.completed(now).unlocking == s.unlocking);
        },
        _ => {
            assert(step(s, e, now).unlocking == s.unlocking);
        },
    }
}

proof fn lemma_answers_keep_unlocking(s: LockView, generation: u64, result: AuthResult, now: u64)
    ensures
        s.answered(generation, result, now).unlocking == s.unlocking || (generation
            == s.auth_generation && result is Ok && s.unlocking is None),
{
}

proof fn lemma_keys_do_not_unlock(
    s: LockView,
    key: Key,
    input: Option<Seq<char>>,
    now: u64,
    room: int,
)
    ensures
        s.key_pressed(key, input, now, room).unlocking == s.unlocking,
        s.key_pressed(key, input, now, room).session_lock == s.session_lock,
        s.key_pressed(key, input, now, room).exit == s.exit,
{
}

/// The lock is given up, and the program ended, by two events alone: the
/// compositor ends the lock, or the screen has faded.
pub proof fn law_events_keep_the_lock(s: LockView, e: Event, now: u64)
    ensures
        (s.session_lock && !step(s, e, now).session_lock) || (!s.exit && step(s, e, now).exit)
            ==> e is Finished || (e is Complete && s.has_faded(now)),
{
    if let Event::Key { key, input, room } = e {
        lemma_keys_do_not_unlock(s, key, input, now, room);
    }
}

/// An attempt that was given up cannot unlock any more, whatever comes of it.
pub proof fn law_cancelled_attempt_is_ignored(
    s: LockView,
    input: Option<Seq<char>>,
    pressed: u64,
    room: int,
    result: AuthResult,
    now: u64,
)
    requires
        s.unlocking is None,
        s.auth_state == AuthState::Checking,
    ensures
        ({
            let cancelled = s.key_pressed(Key::Escape, input, pressed, room);
            &&& cancelled.auth_state == AuthState::Idle
            &&& cancelled.answered(s.auth_generation, result, now) == cancelled
        }),
{
}

/// While a password is being checked, no key but Escape changes anything.
pub proof fn law_checking_ignores_keys(
    s: LockView,
    key: Key,
    input: Option<Seq<char>>,
    now: u64,
    room: int,
)
    requires
        s.auth_state == AuthState::Checking,
        key != Key::Escape,
    ensures
        s.key_pressed(key, input, now, room) == s,
{
}

/// While the screen fades, keys change nothing.
pub proof fn law_unlocking_ignores_keys(
    s: LockView,
    key: Key,
    input: Option<Seq<char>>,
    now: u64,
    room: int,
)
    requires
        s.unlocking is Some,
    ensures
        s.key_pressed(key, input, now, room) == s,
{
}

/// What is typed is appended to the password, but for control characters, as
/// long as it fits into the buffer.
pub proof fn law_typed_text_is_taken(s: LockView, key: Key, input: Seq<char>, now: u64, room: int)
    requires
        s.key_types(key),
        text::byte_len(s.password + keyboard::printable(input)) <= room,
    ensures
        s.key_pressed(key, Some(input), now, room).password == s.password + keyboard::printable(
            input,
        ),
{
    keyboard::law_password_takes_what_fits(s.password, input, room);
    assert(s.password + keyboard::printable(input) == s.password || (s.password
        + keyboard::printable(input)).len() > s.password.len()) by {
        if keyboard::printable(input).len() == 0 {
            assert(s.password + keyboard::printable(input) =~= s.password);
        }
    }
}

/// The timer of one failure does not clear the next one.
pub proof fn law_stale_timer_clears_nothing(s: LockView, next: AuthState, now: u64)
    ensures
        s.failed(next, now).fail_timed_out(s.failed_generation) == s.failed(next, now),
{
}

/// A failure clears itself when its own timer runs out.
pub proof fn law_own_timer_clears(s: LockView, next: AuthState, now: u64)
    requires
        is_failure(next),
    ensures
        ({
            let f = s.failed(next, now);
            let c = f.fail_timed_out(f.failed_generation);
            c.auth_state == AuthState::Idle && c.failed_at is None
        }),
{
}

/// A submitted password leaves the state, and the state's number is the one that
/// the outcome is known by.
pub proof fn law_submitting_hands_the_password_over(s: LockView, now: u64)
    requires
        s.can_submit(),
    ensures
        s.submitted(now).password.len() == 0,
        s.submitted(now).auth_state == AuthState::Checking,
        s.submitted(now).auth_generation != s.auth_generation,
{
}

/// Only Tab shows the password, and neither letting go of it nor the loss of the
/// keyboard leaves it in sight.
pub proof fn law_password_is_revealed_by_tab_alone(s: LockView, e: Event, now: u64)
    ensures
        !s.reveal_held && step(s, e, now).reveal_held ==> (e matches Event::Key { key, .. } && key
            == Key::Tab && s.config.input.reveal_hold),
        !step(s, Event::KeyReleased { key: Key::Tab }, now).reveal_held,
        !step(s, Event::KeyboardLeft, now).reveal_held,
{
}

/// The state after several events, each with its time.
pub open spec fn run(s: LockView, events: Seq<(Event, u64)>) -> LockView
    decreases events.len(),
{
    if events.len() == 0 {
        s
    } else {
        step(run(s, events.drop_last()), events.last().0, events.last().1)
    }
}

/// Whether the `i`th event is the success of the attempt that was then at hand.
pub open spec fn succeeds_at(s: LockView, events: Seq<(Event, u64)>, i: int) -> bool {
    events[i].0 matches Event::Answer { generation, result } && result is Ok && generation == run(
        s,
        events.take(i),
    ).auth_generation
}

/// However a run goes, a screen that is unlocking at its end was unlocked by a
/// success on the way, by that of the attempt that was then at hand, and has been
/// unlocking since.
pub proof fn law_unlocking_needs_a_success(s: LockView, events: Seq<(Event, u64)>)
    requires
        s.unlocking is None,
        run(s, events).unlocking is Some,
    ensures
        exists|i: int|
            0 <= i < events.len() && #[trigger] succeeds_at(s, events, i) && run(s, events).unlocking
                == Some(events[i].1),
    decreases events.len(),
{
    if events.len() > 0 {
        let head = events.drop_last();
        let n = events.len() - 1;
        law_only_success_unlocks(run(s, head), events.last().0, events.last().1);
        if run(s, head).unlocking is Some {
            law_unlocking_needs_a_success(s, head);
            let i = choose|i: int|
                0 <= i < head.len() && #[trigger] succeeds_at(s, head, i) && run(s, head).unlocking
                    == Some(head[i].1);
            assert(events[i] == head[i]);
            assert(events.take(i) =~= head.take(i));
            assert(succeeds_at(s, events, i));
        } else {
            assert(events.take(n) =~= head);
            assert(succeeds_at(s, events, n));
        }
    }
}

/// Whether the lock is given up with the `j`th event because of the success with
/// the `i`th, once the screen has faded.
pub open spec fn unlocks_at(s: LockView, events: Seq<(Event, u64)>, i: int, j: int) -> bool {
    &&& 0 <= i < j < events.len()
    &&& succeeds_at(s, events, i)
    &&& events[j].0 is Complete
    &&& render::elapsed(events[j].1, events[i].1) >= render::UNLOCK_MS * render::NS_PER_MS
}

/// However a run goes, the session stays locked until an attempt has succeeded
/// and the screen has faded since, unless the compositor itself ends the lock.
pub proof fn law_session_stays_locked(s: LockView, events: Seq<(Event, u64)>)
    requires
        s.unlocking is None,
        s.session_lock,
        forall|i: int| 0 <= i < events.len() ==> !((#[trigger] events[i]).0 is Finished),
        !run(s, events).session_lock,
    ensures
        exists|i: int, j: int| unlocks_at(s, events, i, j),
    decreases events.len(),
{
    if events.len() > 0 {
        let head = events.drop_last();
        let n = events.len() - 1;
        assert forall|i: int| 0 <= i < head.len() implies !((#[trigger] head[i]).0 is Finished) by {
            assert(head[i] == events[i]);
        }
        if !run(s, head).session_lock {
            law_session_stays_locked(s, head);
            let (i, j) = choose|i: int, j: int| unlocks_at(s, head, i, j);
            assert(events.take(i) =~= head.take(i));
            assert(events[i] == head[i] && events[j] == head[j]);
            assert(unlocks_at(s, events, i, j));
        } else {
            assert(!(events[n].0 is Finished));
            law_events_keep_the_lock(run(s, head), events[n].0, events[n].1);
            law_unlocking_needs_a_success(s, head);
            let i = choose|i: int|
                0 <= i < head.len() && #[trigger] succeeds_at(s, head, i) && run(s, head).unlocking
                    == Some(head[i].1);
            assert(events.take(i) =~= head.take(i));
            assert(events[i] == head[i]);
            assert(unlocks_at(s, events, i, n));
        }
    }
}

// ---------------------------------------------------------------------------
// What each event does
// ---------------------------------------------------------------------------

/// The right password always begins to unlock the screen, whatever was typed or
/// went wrong before, and the count of wrong ones begins anew. Nothing else
/// changes.
pub proof fn law_right_password_unlocks(s: LockView, now: u64)
    requires
        s.unlocking is None,
    ensures
        s.answered(s.auth_generation, Ok(()), now) == (LockView {
            unlocking: Some(now),
            failed_attempts: 0,
            ..s
        }),
{
}

/// A screen that unlocks gives the lock up with the first try that comes 650
/// milliseconds later or more, and with none before.
pub proof fn law_unlocked_screen_opens(s: LockView, answered: u64, now: u64)
    requires
        s.unlocking is None,
        answered <= now,
    ensures
        ({
            let u = s.answered(s.auth_generation, Ok(()), answered);
            if now - answered >= 650_000_000 {
                u.has_faded(now) && u.completed(now) == (LockView {
                    session_lock: false,
                    exit: true,
                    ..u
                })
            } else {
                !u.has_faded(now) && u.completed(now) == u
            }
        }),
{
}

/// A screen that does not unlock does not open, however often that is tried.
pub proof fn law_locked_screen_stays(s: LockView, now: u64)
    requires
        s.unlocking is None,
    ensures
        !s.has_faded(now),
        s.completed(now) == s,
{
}

/// Enter, the right password and the fade open the session: from every state in
/// which something was typed and nothing is being checked, after however many
/// failures, and whatever happens at the keyboard until the answer comes.
pub proof fn law_right_password_opens_the_session(
    s: LockView,
    room: int,
    entered: u64,
    key: Key,
    pressed: u64,
    answered: u64,
    now: u64,
)
    requires
        s.unlocking is None,
        s.auth_state != AuthState::Checking,
        s.password.len() > 0,
        s.username.len() > 0,
        key != Key::Escape,
        answered + 650_000_000 <= now,
    ensures
        ({
            let checking = s.key_pressed(Key::Enter, None, entered, room);
            let waiting = checking.key_pressed(key, None, pressed, room);
            let open = waiting.answered(checking.auth_generation, Ok(()), answered).completed(now);
            &&& s.key_checks(Key::Enter)
            &&& checking.auth_state == AuthState::Checking
            &&& open.exit
            &&& !open.session_lock
        }),
{
}

/// Each failure shows as what it is, and a wrong password alone is counted.
/// Nothing else changes: the screen stays locked.
pub proof fn law_failures_show_as_what_they_are(s: LockView, now: u64)
    ensures
        ({
            let failed = |next: AuthState, attempts: u32|
                LockView {
                    auth_state: next,
                    failed_at: Some(now),
                    checking_started: None,
                    failed_generation: if s.failed_generation == u64::MAX {
                        0
                    } else {
                        (s.failed_generation + 1) as u64
                    },
                    failed_attempts: attempts,
                    ..s
                };
            let g = s.auth_generation;
            &&& s.answered(g, Err(AuthError::Authenticate), now) == failed(
                AuthState::Failed,
                if s.failed_attempts < u32::MAX {
                    (s.failed_attempts + 1) as u32
                } else {
                    u32::MAX
                },
            )
            &&& s.answered(g, Err(AuthError::AccountInvalid), now) == failed(
                AuthState::AccountInvalid,
                s.failed_attempts,
            )
            &&& s.answered(g, Err(AuthError::ContextInit), now) == failed(
                AuthState::ConfigError,
                s.failed_attempts,
            )
        }),
{
}

/// An answer to another attempt than the one at hand changes nothing.
pub proof fn law_other_answers_change_nothing(
    s: LockView,
    generation: u64,
    result: AuthResult,
    now: u64,
)
    requires
        generation != s.auth_generation,
    ensures
        s.answered(generation, result, now) == s,
{
}

/// After a failure of whatever kind one can go on at once: the next character is
/// typed, the failure goes out of sight with it, and Enter submits what was
/// typed as an attempt of its own.
pub proof fn law_failure_can_be_tried_again(
    s: LockView,
    error: AuthError,
    answered: u64,
    c: char,
    typed: u64,
    entered: u64,
    room: int,
)
    requires
        s.unlocking is None,
        s.username.len() > 0,
        !text::is_control(c),
        keyboard::fits(s.password, c, room),
    ensures
        ({
            let failed = s.answered(s.auth_generation, Err(error), answered);
            let more = failed.key_pressed(Key::Other, Some(seq![c]), typed, room);
            let again = more.key_pressed(Key::Enter, None, entered, room);
            &&& failed.key_types(Key::Other)
            &&& more.password == s.password.push(c)
            &&& more.auth_state == AuthState::Idle
            &&& more.failed_at is None
            &&& more.key_checks(Key::Enter)
            &&& again.auth_state == AuthState::Checking
            &&& again.auth_generation != s.auth_generation
            &&& again.password_display_len == (s.password.len() + 1) as usize
        }),
{
    let failed = s.answered(s.auth_generation, Err(error), answered);
    lemma_typed_one(s.password, c, room);
    assert(failed.key_pressed(Key::Other, Some(seq![c]), typed, room).password == s.password.push(c));
}

proof fn lemma_typed_one(password: Seq<char>, c: char, room: int)
    requires
        !text::is_control(c),
        keyboard::fits(password, c, room),
    ensures
        keyboard::typed(password, seq![c], room) == password.push(c),
{
    assert(seq![c].skip(1) =~= seq![]);
    assert(keyboard::typed(password.push(c), seq![c].skip(1), room) == password.push(c));
}

/// What a key types goes into the password as far as it fits. Where that is
/// anything, it sets the newest dot off, and what shows of a failure goes; where
/// it is nothing, the key is noted and no more.
pub proof fn law_typed_text_is_appended(s: LockView, input: Seq<char>, now: u64, room: int)
    requires
        s.unlocking is None,
        s.auth_state != AuthState::Checking,
    ensures
        ({
            let t = s.key_pressed(Key::Other, Some(input), now, room);
            let shown = s.auth_state != AuthState::Idle;
            let password = keyboard::typed(s.password, input, room);
            if password.len() > s.password.len() {
                t == (LockView {
                    password,
                    last_keystroke: Some(now),
                    last_activity: now,
                    auth_state: AuthState::Idle,
                    failed_at: if shown {
                        None
                    } else {
                        s.failed_at
                    },
                    password_display_len: if shown {
                        0
                    } else {
                        s.password_display_len
                    },
                    ..s
                })
            } else {
                t == (LockView { last_activity: now, ..s })
            }
        }),
{
}

/// A character that can be typed and fits is appended to the password.
pub proof fn law_typed_character_is_appended(s: LockView, c: char, now: u64, room: int)
    requires
        s.unlocking is None,
        s.auth_state != AuthState::Checking,
        !text::is_control(c),
        keyboard::fits(s.password, c, room),
    ensures
        s.key_pressed(Key::Other, Some(seq![c]), now, room).password == s.password.push(c),
        s.key_pressed(Key::Other, Some(seq![c]), now, room).auth_state == AuthState::Idle,
        s.key_pressed(Key::Other, Some(seq![c]), now, room).last_keystroke == Some(now),
{
    lemma_typed_one(s.password, c, room);
}

/// A key that types nothing, or nothing that can be typed, or nothing that fits,
/// is noted as one and changes nothing else.
pub proof fn law_other_keys_type_nothing(s: LockView, c: char, now: u64, room: int)
    requires
        s.unlocking is None,
        s.auth_state != AuthState::Checking,
        text::is_control(c) || !keyboard::fits(s.password, c, room),
    ensures
        s.key_pressed(Key::Other, None, now, room) == (LockView { last_activity: now, ..s }),
        s.key_pressed(Key::Other, Some(seq![c]), now, room) == (LockView {
            last_activity: now,
            ..s
        }),
{
    assert(seq![c].skip(1) =~= seq![]);
    assert(keyboard::typed(s.password, seq![c].skip(1), room) == s.password);
    assert(keyboard::typed(s.password, seq![c], room) == s.password);
}

/// Enter hands a password over to be checked: it leaves the state, as many dots
/// stay as it had characters, and the attempt gets the next number. Without a
/// name nothing can be checked, and without a password nothing happens.
pub proof fn law_enter_submits(s: LockView, input: Option<Seq<char>>, now: u64, room: int)
    requires
        s.unlocking is None,
        s.auth_state != AuthState::Checking,
    ensures
        ({
            let e = s.key_pressed(Key::Enter, input, now, room);
            &&& s.key_checks(Key::Enter) == (s.password.len() > 0 && s.username.len() > 0)
            &&& s.password.len() == 0 ==> e == (LockView { last_activity: now, ..s })
            &&& s.password.len() > 0 && s.username.len() == 0 ==> e.auth_state
                == AuthState::ConfigError && e.password == s.password && e.failed_at == Some(now)
                && e.unlocking is None
            &&& s.password.len() > 0 && s.username.len() > 0 ==> e == (LockView {
                password: Seq::empty(),
                password_display_len: s.password.len() as usize,
                auth_state: AuthState::Checking,
                checking_started: Some(now),
                auth_generation: if s.auth_generation == u64::MAX {
                    0
                } else {
                    (s.auth_generation + 1) as u64
                },
                last_activity: now,
                ..s
            })
        }),
{
}

/// Backspace takes the last character away, Escape takes all of them, and either
/// takes what shows of a failure out of sight.
pub proof fn law_typed_text_can_be_taken_back(
    s: LockView,
    input: Option<Seq<char>>,
    now: u64,
    room: int,
)
    requires
        s.unlocking is None,
        s.auth_state != AuthState::Checking,
    ensures
        ({
            let b = s.key_pressed(Key::Backspace, input, now, room);
            let e = s.key_pressed(Key::Escape, input, now, room);
            let failed_at = if s.auth_state == AuthState::Idle {
                s.failed_at
            } else {
                None
            };
            &&& s.password.len() > 0 ==> b.password == s.password.drop_last()
            &&& s.password.len() == 0 ==> b.password.len() == 0
            &&& b == (LockView {
                password: b.password,
                auth_state: AuthState::Idle,
                failed_at,
                password_display_len: if s.auth_state == AuthState::Idle {
                    s.password_display_len
                } else {
                    0
                },
                last_activity: now,
                ..s
            })
            &&& e == (LockView {
                password: Seq::empty(),
                auth_state: AuthState::Idle,
                failed_at,
                password_display_len: 0,
                last_activity: now,
                ..s
            })
        }),
{
}

/// Escape gives an attempt up that is being checked: another can be made at
/// once, and no dots stay.
pub proof fn law_escape_gives_the_attempt_up(
    s: LockView,
    input: Option<Seq<char>>,
    now: u64,
    room: int,
)
    requires
        s.unlocking is None,
        s.auth_state == AuthState::Checking,
    ensures
        s.key_pressed(Key::Escape, input, now, room) == (LockView {
            auth_state: AuthState::Idle,
            auth_generation: if s.auth_generation == u64::MAX {
                0
            } else {
                (s.auth_generation + 1) as u64
            },
            checking_started: None,
            password_display_len: 0,
            last_activity: now,
            ..s
        }),
{
}

/// Where the settings allow it, holding Tab shows what was typed and letting go
/// hides it; where they do not, Tab is a key like any other.
pub proof fn law_tab_shows_the_password_while_held(
    s: LockView,
    input: Option<Seq<char>>,
    now: u64,
    room: int,
)
    requires
        s.unlocking is None,
        s.auth_state != AuthState::Checking,
    ensures
        s.config.input.reveal_hold ==> s.key_pressed(Key::Tab, input, now, room) == (LockView {
            reveal_held: true,
            last_activity: now,
            ..s
        }),
        !s.config.input.reveal_hold ==> s.key_pressed(Key::Tab, input, now, room) == s.key_pressed(
            Key::Other,
            input,
            now,
            room,
        ),
        s.released(Key::Tab) == (LockView { reveal_held: false, ..s }),
        s.left() == (LockView { reveal_held: false, ..s }),
        forall|key: Key| key != Key::Tab ==> #[trigger] s.released(key) == s,
{
}

/// Which keys draw the screen anew, type, or submit: none while it fades, none
/// but Escape while a password is checked.
pub proof fn law_keys_are_told_apart(s: LockView, key: Key)
    ensures
        s.unlocking is Some ==> !s.key_redraws(key) && !s.key_types(key) && !s.key_checks(key),
        s.unlocking is None && s.auth_state == AuthState::Checking ==> s.key_redraws(key) == (key
            == Key::Escape) && !s.key_types(key) && !s.key_checks(key),
        s.unlocking is None && s.auth_state != AuthState::Checking ==> {
            &&& s.key_redraws(key)
            &&& s.key_types(key) == (key == Key::Other || (key == Key::Tab
                && !s.config.input.reveal_hold))
            &&& s.key_checks(key) == (key == Key::Enter && s.password.len() > 0 && s.username.len()
                > 0)
        },
{
}

/// News of the modifiers and of the line under the clock are noted as they are,
/// and so is that the lock is held, given up, or the timer not set; nothing else
/// changes.
pub proof fn law_news_is_noted(
    s: LockView,
    caps_lock: bool,
    layout: u32,
    now: u64,
    now_playing: Seq<char>,
    battery: Seq<char>,
)
    ensures
        s.modified(caps_lock, layout, now) == (LockView {
            caps_lock,
            layout_index: layout,
            last_activity: now,
            ..s
        }),
        s.told(now_playing, battery) == (LockView { now_playing, battery, ..s }),
        s.taken() == (LockView { session_lock: true, ..s }),
        s.ended() == (LockView { session_lock: false, exit: true, ..s }),
        s.disarmed() == (LockView { anim_timer_armed: false, ..s }),
        s.wiped() == (LockView { password: Seq::empty(), ..s }),
{
}

/// The timer of a failure clears that failure, of whatever kind, and nothing
/// where none shows or another does.
pub proof fn law_failure_timer_clears_its_failure(s: LockView, generation: u64)
    ensures
        s.fail_timed_out(generation) == (if generation == s.failed_generation && s.auth_state
            != AuthState::Idle && s.auth_state != AuthState::Checking {
            LockView { auth_state: AuthState::Idle, failed_at: None, password_display_len: 0, ..s }
        } else {
            s
        }),
{
}

/// A screen begins locked to nobody and with nothing typed: it can be typed
/// into, no failure shows, and the first breath is due after a second and a
/// half.
pub proof fn law_fresh_screen_is_ready(config: Config, username: Seq<char>, moving: bool, now: u64)
    ensures
        ({
            let s = fresh(config, username, moving, now);
            &&& s.config == config && s.moving == moving && s.username == username
            &&& s.password.len() == 0 && s.password_display_len == 0
            &&& s.auth_state == AuthState::Idle && s.last_auth_state == AuthState::Idle
            &&& s.auth_generation == 0 && s.failed_generation == 0 && s.failed_attempts == 0
            &&& s.unlocking is None && s.failed_at is None && s.checking_started is None
            &&& s.last_keystroke is None && s.status_anim_started is None
            &&& s.appear_started is None && s.clock_from is None && s.last_clock_text.len() == 0
            &&& s.started == now && s.last_activity == now
            &&& s.breathe_started is None
            &&& now <= u64::MAX - 1_500_000_000 ==> s.breathe_next_at == Some(
                (now + 1_500_000_000) as u64,
            )
            &&& now > u64::MAX - 1_500_000_000 ==> s.breathe_next_at == Some(u64::MAX)
            &&& !s.anim_timer_armed && !s.caps_lock && s.layout_index == 0 && !s.reveal_held
            &&& s.now_playing.len() == 0 && s.battery.len() == 0
            &&& !s.session_lock && !s.exit
            &&& s.key_types(Key::Other)
        }),
{
}

// ---------------------------------------------------------------------------
// What shows
// ---------------------------------------------------------------------------

/// The status tells how the attempt stands: nothing before it, dots that tick
/// while it is checked, and after it what went wrong, with the count of wrong
/// passwords from the second on.
pub proof fn law_status_tells_how_the_attempt_stands(s: LockView, now: u64)
    ensures
        s.auth_state == AuthState::Idle ==> s.status(now) is None,
        s.auth_state == AuthState::Checking ==> s.status(now) is Some && text::begins_with(
            s.status(now)->0,
            "Checking"@,
        ),
        s.auth_state == AuthState::Checking && s.checking_started is None ==> s.status(now) == Some(
            "Checking"@,
        ),
        s.auth_state == AuthState::Failed && s.failed_attempts <= 1 ==> s.status(now) == Some(
            "Wrong password"@,
        ),
        s.auth_state == AuthState::Failed && s.failed_attempts >= 2 ==> s.status(now) == Some(
            "Wrong password — "@ + text::numeral(s.failed_attempts as nat) + " failed attempts"@,
        ),
        s.auth_state == AuthState::AccountInvalid ==> s.status(now) == Some(
            "Account locked or expired"@,
        ),
        s.auth_state == AuthState::ConfigError ==> s.status(now) == Some(
            "PAM config error — check logs (breadlock service not set up correctly)"@,
        ),
{
    if s.auth_state == AuthState::Checking {
        let since = match s.checking_started {
            Some(t) => render::elapsed(now, t),
            None => 0,
        };
        assert(("Checking"@ + dots(since)).take("Checking"@.len() as int) =~= "Checking"@);
        reveal_strlit("");
        assert("Checking"@ + ""@ =~= "Checking"@);
    }
}

/// While a password is checked one dot more shows with every half second, up to
/// three in one character, and after two seconds it begins anew.
pub proof fn law_checking_ticks(s: LockView, started: u64, now: u64, turns: nat)
    requires
        s.auth_state == AuthState::Checking,
        s.checking_started == Some(started),
        started + turns * 2_000_000_000 <= now,
    ensures
        ({
            let t = now - started - turns * 2_000_000_000;
            &&& t < 500_000_000 ==> s.status(now) == Some("Checking"@)
            &&& 500_000_000 <= t < 1_000_000_000 ==> s.status(now) == Some("Checking."@)
            &&& 1_000_000_000 <= t < 1_500_000_000 ==> s.status(now) == Some("Checking.."@)
            &&& 1_500_000_000 <= t < 2_000_000_000 ==> s.status(now) == Some("Checking…"@)
        }),
{
    reveal_strlit("Checking");
    reveal_strlit("Checking.");
    reveal_strlit("Checking..");
    reveal_strlit("Checking…");
    reveal_strlit("");
    reveal_strlit(".");
    reveal_strlit("..");
    reveal_strlit("…");
    let time = now - started;
    assert("Checking"@ + ""@ =~= "Checking"@);
    assert("Checking"@ + "."@ =~= "Checking."@);
    assert("Checking"@ + ".."@ =~= "Checking.."@);
    assert("Checking"@ + "…"@ =~= "Checking…"@);
    let t = time - turns * 2_000_000_000;
    assert(time / 500_000_000 == t / 500_000_000 + turns * 4);
}

/// The line under the clock shows what is playing and the battery, each where
/// the settings want it and it has something to show.
pub proof fn law_info_shows_what_is_wanted(s: LockView)
    ensures
        ({
            let playing = s.config.status.now_playing && s.now_playing.len() > 0;
            let battery = s.config.status.battery && s.battery.len() > 0;
            &&& playing && battery ==> s.info() == s.now_playing + "  ·  "@ + s.battery
            &&& playing && !battery ==> s.info() == s.now_playing
            &&& !playing && battery ==> s.info() == s.battery
            &&& !playing && !battery ==> s.info().len() == 0
        }),
{
}

/// As many dots show as characters were typed, and where none are typed as many
/// as were submitted.
pub proof fn law_dots_count_the_password(s: LockView)
    ensures
        s.password.len() > 0 ==> s.shown_len() == s.password.len(),
        s.password.len() == 0 ==> s.shown_len() == s.password_display_len,
{
}

/// The frame shows the state: the clock, as many dots as there are, whether a
/// failure shows, and each motion as far as it has come, in nanoseconds of its
/// own time.
pub proof fn law_frame_shows_the_state(s: LockView, f: FrameInputs, date: Seq<char>, now: u64)
    requires
        s.is_shown_by(f, date, now),
    ensures
        f.clock_text@ == s.last_clock_text,
        f.date_text@ == date,
        f.clock_old is Some <==> s.clock_from is Some,
        s.clock_from matches Some((t, _)) ==> (f.clock_old->0).0@ == t,
        s.clock_from matches Some((_, at)) ==> at <= now ==> (f.clock_old->0).1 == (if now - at
            < 300_000_000 {
            Progress { done: (now - at) as u64, of: 300_000_000 }
        } else {
            Progress { done: 300_000_000, of: 300_000_000 }
        }),
        f.password_len == (if s.password.len() > 0 {
            s.password.len() as int
        } else {
            s.password_display_len as int
        }),
        f.reveal == s.reveal_held,
        f.caps_lock == s.caps_lock,
        f.layout_index == s.layout_index,
        f.failed == (s.auth_state != AuthState::Idle && s.auth_state != AuthState::Checking),
        s.started <= now ==> f.time == now - s.started,
        s.last_keystroke is None ==> f.keystroke_age is None && f.dot_pop_t.done
            == f.dot_pop_t.of,
        s.last_keystroke matches Some(t) ==> t <= now ==> f.keystroke_age == Some((now - t) as u64)
            && f.dot_pop_t == (if now - t < 200_000_000 {
            Progress { done: (now - t) as u64, of: 200_000_000 }
        } else {
            Progress { done: 200_000_000, of: 200_000_000 }
        }),
        s.failed_at is None ==> f.failed_t.done == 0,
        s.failed_at matches Some(t) ==> t <= now ==> f.failed_t == (if now - t < 380_000_000 {
            Progress { done: (now - t) as u64, of: 380_000_000 }
        } else {
            Progress { done: 380_000_000, of: 380_000_000 }
        }),
        s.unlocking is None ==> f.unlock_t.done == 0 && f.unlock_t.of > 0,
        s.unlocking matches Some(t) ==> t <= now ==> f.unlock_t == (if now - t < 650_000_000 {
            Progress { done: (now - t) as u64, of: 650_000_000 }
        } else {
            Progress { done: 650_000_000, of: 650_000_000 }
        }),
        s.appear_started matches Some(t) ==> t <= now ==> f.appear_t == (if now - t < 450_000_000 {
            Progress { done: (now - t) as u64, of: 450_000_000 }
        } else {
            Progress { done: 450_000_000, of: 450_000_000 }
        }),
        s.status_anim_started is None ==> f.status_t.done == f.status_t.of,
        s.status_anim_started matches Some(t) ==> t <= now ==> f.status_t == (if now - t
            < 200_000_000 {
            Progress { done: (now - t) as u64, of: 200_000_000 }
        } else {
            Progress { done: 200_000_000, of: 200_000_000 }
        }),
        f.breathe is Some <==> s.breathe_started is Some,
        s.breathe_started matches Some(t) ==> t <= now ==> f.breathe == Some(
            if now - t < 1_200_000_000 {
                Progress { done: (now - t) as u64, of: 1_200_000_000 }
            } else {
                Progress { done: 1_200_000_000, of: 1_200_000_000 }
            },
        ),
        s.auth_state == AuthState::Idle <==> f.status_text is None,
        f.status_text matches Some(t) ==> s.status(now) == Some(t@),
        f.info_text@ == s.info(),
        f.smooth_pan == !s.moves_fast(now),
{
}

/// The screen darkens over four seconds once no key was pressed for as long as
/// the settings say, and stays dark; where they say zero it never does.
pub proof fn law_idle_screen_darkens(s: LockView, now: u64)
    requires
        s.last_activity <= now,
    ensures
        ({
            let after = s.config.animation.idle_dim_after_secs * 1_000_000_000;
            let idle = now - s.last_activity;
            let d = s.idle_dim(now);
            &&& after == 0 || idle <= after ==> d.done == 0 && d.of > 0 && !s.dims(now)
            &&& after > 0 && after < idle < after + 4_000_000_000 ==> d.done == idle - after && d.of
                == 4_000_000_000 && s.dims(now)
            &&& after > 0 && idle >= after + 4_000_000_000 ==> d.done == d.of && !s.dims(now)
        }),
{
}

// ---------------------------------------------------------------------------
// What moves
// ---------------------------------------------------------------------------

/// The screen moves fast as long as any of its motions takes: the appearance 450
/// milliseconds, unlocking 650, the shake 380, the newest dot 200, the clock 300
/// and the status 200; and while a password is checked.
pub proof fn law_motions_take_their_time(s: LockView, t: u64, now: u64)
    requires
        t <= now,
    ensures
        s.appear_started is None ==> s.moves_fast(now),
        s.appear_started == Some(t) && now - t < 450_000_000 ==> s.moves_fast(now),
        s.unlocking == Some(t) && now - t < 650_000_000 ==> s.moves_fast(now),
        s.failed_at == Some(t) && now - t < 380_000_000 ==> s.moves_fast(now),
        s.last_keystroke == Some(t) && now - t < 200_000_000 ==> s.moves_fast(now),
        s.clock_from is Some && (s.clock_from->0).1 == t && now - t < 300_000_000 ==> s.moves_fast(
            now,
        ),
        s.status_anim_started == Some(t) && now - t < 200_000_000 ==> s.moves_fast(now),
        s.auth_state == AuthState::Checking ==> s.moves_fast(now),
        s.moves_fast(now) ==> s.moves(now),
{
}

/// Once a motion has had its time, it does not move the screen any more: when
/// all have, nothing moves fast; and with nothing typed, no breath, no drift and
/// no darkening nothing moves at all.
pub proof fn law_screen_comes_to_rest(s: LockView, now: u64)
    requires
        s.appear_started matches Some(t) && t + 450_000_000 <= now,
        s.unlocking matches Some(t) ==> t + 650_000_000 <= now,
        s.failed_at matches Some(t) ==> t + 380_000_000 <= now,
        s.last_keystroke matches Some(t) ==> t + 200_000_000 <= now,
        s.clock_from matches Some((_, t)) ==> t + 300_000_000 <= now,
        s.status_anim_started matches Some(t) ==> t + 200_000_000 <= now,
        s.auth_state != AuthState::Checking,
    ensures
        !s.moves_fast(now),
        s.unlocking is None && s.password.len() == 0 && s.password_display_len == 0
            && s.breathe_started is None && !s.moving && !s.dims(now) && (!s.config.animation.breathe || s.breathe_next_at is None || s.breathe_next_at->0
            > now) ==> !s.moves(now),
        s.password.len() > 0 || s.password_display_len > 0 || s.breathe_started is Some || s.moving
            || s.unlocking is Some ==> s.moves(now),
        s.config.animation.breathe && s.breathe_next_at is Some && s.breathe_next_at->0 <= now
            ==> s.moves(now),
        s.dims(now) ==> s.moves(now),
{
}

/// The next frame comes after 16 milliseconds while something moves fast, after
/// 62 while all that moves is slow, and not at all once nothing moves or the
/// screen has faded. The timer is kept exactly as long.
pub proof fn law_frames_follow_the_motions(s: LockView, now: u64)
    ensures
        s.moves_fast(now) && s.unlocking is None ==> s.next_tick(now) == Tick::After(16),
        s.moves(now) && !s.moves_fast(now) && s.unlocking is None ==> s.next_tick(now)
            == Tick::After(62),
        !s.moves(now) ==> s.next_tick(now) == Tick::Stop,
        s.unlocking matches Some(t) ==> t <= now ==> s.next_tick(now) == (if now - t < 650_000_000 {
            Tick::After(16)
        } else {
            Tick::Stop
        }),
        s.next_tick(now) == Tick::Stop ==> s.ticked(now) == (LockView {
            anim_timer_armed: false,
            ..s
        }),
        s.next_tick(now) != Tick::Stop ==> s.ticked(now) == s,
{
}

/// A timer is set where something moves and none is set, and a breath that is
/// due begins then; otherwise nothing changes.
pub proof fn law_timer_is_set_while_something_moves(s: LockView, now: u64)
    ensures
        s.anim_timer_armed || !s.moves(now) ==> s.armed(now) == s,
        !s.anim_timer_armed && s.moves(now) ==> s.armed(now) == (LockView {
            anim_timer_armed: true,
            breathe_started: s.armed(now).breathe_started,
            ..s
        }),
        !s.anim_timer_armed && s.config.animation.breathe && s.breathe_started is None
            && s.breathe_next_at is Some && s.breathe_next_at->0 <= now ==> s.armed(
            now,
        ).breathe_started == Some(now),
        s.breathe_started is Some || !s.config.animation.breathe || s.breathe_next_at is None
            || s.breathe_next_at->0 > now ==> s.armed(now).breathe_started == s.breathe_started,
{
}

/// Drawing starts the appearance once, slides the status whenever the attempt
/// stands otherwise than in the frame before, and changes neither the attempt nor
/// what was typed.
pub proof fn law_drawing_starts_the_motions(s: LockView, clock: Seq<char>, now: u64)
    ensures
        ({
            let d = s.drawn(clock, now);
            &&& s.appear_started is None ==> d.appear_started == Some(now)
            &&& s.appear_started is Some ==> d.appear_started == s.appear_started
            &&& s.auth_state != s.last_auth_state ==> d.status_anim_started == Some(now)
            &&& s.auth_state == s.last_auth_state ==> d.status_anim_started == s.status_anim_started
            &&& d.last_auth_state == s.auth_state
            &&& d.last_clock_text == clock
            &&& d == (LockView {
                appear_started: d.appear_started,
                status_anim_started: d.status_anim_started,
                last_auth_state: d.last_auth_state,
                breathe_started: d.breathe_started,
                breathe_next_at: d.breathe_next_at,
                clock_from: d.clock_from,
                last_clock_text: d.last_clock_text,
                ..s
            })
        }),
{
}

/// A clock that reads otherwise than in the frame before fades out, for 300
/// milliseconds from then on. The first clock does not fade in, and none fades
/// while another still does.
pub proof fn law_clock_fades_when_it_changes(s: LockView, clock: Seq<char>, now: u64)
    ensures
        s.clock_from is None && s.last_clock_text.len() > 0 && clock != s.last_clock_text
            ==> s.drawn(clock, now).clock_from == Some((s.last_clock_text, now)),
        s.clock_from is None && (s.last_clock_text.len() == 0 || clock == s.last_clock_text)
            ==> s.drawn(clock, now).clock_from is None,
        s.clock_from matches Some((_, t)) ==> t <= now < t + 300_000_000 ==> s.drawn(
            clock,
            now,
        ).clock_from == s.clock_from,
        s.clock_from matches Some((_, t)) ==> t + 300_000_000 <= now ==> s.drawn(clock, now).clock_from
            == (if s.last_clock_text.len() > 0 && clock != s.last_clock_text {
            Some((s.last_clock_text, now))
        } else {
            None
        }),
{
}

/// A breath takes 1200 milliseconds, and the next is due four seconds after it
/// began.
pub proof fn law_breaths_come_every_four_seconds(s: LockView, clock: Seq<char>, t: u64, now: u64)
    requires
        s.breathe_started == Some(t),
        t <= now,
        t <= u64::MAX - 4_000_000_000,
    ensures
        now - t < 1_200_000_000 ==> s.drawn(clock, now).breathe_started == Some(t) && s.drawn(
            clock,
            now,
        ).breathe_next_at == s.breathe_next_at,
        now - t >= 1_200_000_000 ==> s.drawn(clock, now).breathe_started is None && s.drawn(
            clock,
            now,
        ).breathe_next_at == Some((t + 4_000_000_000) as u64),
{
}

} // verus!
