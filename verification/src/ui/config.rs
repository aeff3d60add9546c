//! The settings that the lock screen and the greeter have in common.

use vstd::prelude::*;

verus! {

/// How both programs look: the `[background]`, `[clock]` and `[font]` tables.
#[derive(Debug, Clone)]
pub struct Appearance {
    pub background: Background,
    pub clock: Clock,
    pub font: Font,
}

/// What is drawn behind everything else.
#[derive(Debug, Clone, Copy, PartialEq, Eq, Structural)]
pub enum BackgroundMode {
    /// The palette's background colour.
    Color,
    /// A picture.
    Image,
}

/// The `[background]` table.
#[derive(Debug, Clone)]
pub struct Background {
    pub mode: BackgroundMode,
    /// The picture's file, for [`BackgroundMode::Image`].
    pub path: String,
    /// Accepted, and without effect: the background is shown unblurred.
    pub blur: bool,
    /// Let a picture drift slowly. This keeps the background redrawing while
    /// the screen is locked, so it is off unless asked for.
    pub ken_burns: bool,
}

/// The `[clock]` table, in `strftime` formats.
#[derive(Debug, Clone)]
pub struct Clock {
    pub format: String,
    /// The line under the clock; an empty format hides it.
    pub date_format: String,
}

/// The `[font]` table.
#[derive(Debug, Clone)]
pub struct Font {
    pub family: String,
}

impl Background {
    /// A plain palette colour, with nothing moving.
    pub open spec fn is_default(self) -> bool {
        &&& self.mode == BackgroundMode::Color
        &&& self.path@.len() == 0
        &&& !self.blur
        &&& !self.ken_burns
    }
}

impl Clock {
    /// Hours and minutes, over the weekday, month and day.
    pub open spec fn is_default(self) -> bool {
        &&& self.format@ == "%H:%M"@
        &&& self.date_format@ == "%A · %b %d"@
    }
}

impl Font {
    /// The family of the design system.
    pub open spec fn is_default(self) -> bool {
        self.family@ == "Varela Round"@
    }
}

impl Appearance {
    /// Every table is the default one.
    pub open spec fn is_default(self) -> bool {
        &&& self.background.is_default()
        &&& self.clock.is_default()
        &&& self.font.is_default()
    }
}

impl Default for Background {
    fn default() -> (r: Self)
        ensures
            r.is_default(),
    {
        Background {
            mode: BackgroundMode::Color,
            path: String::new(),
            blur: false,
            ken_burns: false,
        }
    }
}

impl Default for Clock {
    fn default() -> (r: Self)
        ensures
            r.is_default(),
    {
        Clock { format: "%H:%M".to_owned(), date_format: "%A · %b %d".to_owned() }
    }
}

impl Default for Font {
    fn default() -> (r: Self)
        ensures
            r.is_default(),
    {
        Font { family: "Varela Round".to_owned() }
    }
}

impl Default for Appearance {
    fn default() -> (r: Self)
        ensures
            r.is_default(),
    {
        Appearance {
            background: Background::default(),
            clock: Clock::default(),
            font: Font::default(),
        }
    }
}

/// The directory that the user's settings are looked for in.
#[derive(Debug, Clone, Copy, PartialEq, Eq, Structural)]
pub enum ConfigRoot {
    /// `$XDG_CONFIG_HOME`.
    Xdg,
    /// `.config` in `$HOME`.
    Home,
    /// The directory that the program was started in.
    Current,
}

/// Where the user's settings are looked for, by which of `$XDG_CONFIG_HOME` and
/// `$HOME` are set.
pub fn config_root(xdg_config_home: bool, home: bool) -> (r: ConfigRoot)
    ensures
        r == (if xdg_config_home {
            ConfigRoot::Xdg
        } else if home {
            ConfigRoot::Home
        } else {
            ConfigRoot::Current
        }),
{
    if xdg_config_home {
        ConfigRoot::Xdg
    } else if home {
        ConfigRoot::Home
    } else {
        ConfigRoot::Current
    }
}

/// Unless told otherwise the background is a plain colour, the clock shows hours
/// and minutes over weekday, month and day, and the font is the design system's.
pub proof fn law_default_look(a: Appearance)
    requires
        a.is_default(),
    ensures
        a.background.mode == BackgroundMode::Color,
        a.background.path@.len() == 0,
        !a.background.blur && !a.background.ken_burns,
        a.clock.format@ == "%H:%M"@,
        a.clock.date_format@ == "%A · %b %d"@,
        a.font.family@ == "Varela Round"@,
{
}

} // verus!
