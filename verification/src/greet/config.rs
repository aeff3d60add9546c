//! The greeter's settings.

use crate::text;
use crate::ui::config::Appearance;
use vstd::prelude::*;

verus! {

/// What `breadgreet.toml` holds.
#[derive(Debug, Clone)]
pub struct Config {
    pub appearance: Appearance,
    pub sessions: Sessions,
    pub user: User,
}

/// The `[user]` table: who logs in. Unless told otherwise, the greeter offers
/// the people that have an account.
#[derive(Debug, Clone)]
pub struct User {
    /// Log in as this one. Empty to offer everyone.
    pub name: String,
    /// Ask for the name.
    pub prompt: bool,
}

/// The `[sessions]` table.
#[derive(Debug, Clone)]
pub struct Sessions {
    pub wayland_dirs: Vec<String>,
    pub xsessions_dirs: Vec<String>,
    /// The stem of the session to select to begin with.
    pub default: String,
}

impl Sessions {
    /// The directories that greeters have agreed on, and the session `bos`.
    pub open spec fn is_default(self) -> bool {
        &&& text::views(self.wayland_dirs@) == seq!["/usr/share/wayland-sessions"@]
        &&& text::views(self.xsessions_dirs@) == seq!["/usr/share/xsessions"@]
        &&& self.default@ == "bos"@
    }
}

impl User {
    /// Nobody in particular.
    pub open spec fn is_default(self) -> bool {
        self.name@.len() == 0 && !self.prompt
    }
}

impl Default for User {
    fn default() -> (r: Self)
        ensures
            r.is_default(),
    {
        User { name: String::new(), prompt: false }
    }
}

fn just(s: &str) -> (r: Vec<String>)
    ensures
        text::views(r@) == seq![s@],
{
    let mut r: Vec<String> = Vec::new();
    r.push(s.to_owned());
    assert(text::views(r@) =~= seq![s@]);
    r
}

impl Default for Sessions {
    fn default() -> (r: Self)
        ensures
            r.is_default(),
    {
        Sessions {
            wayland_dirs: just("/usr/share/wayland-sessions"),
            xsessions_dirs: just("/usr/share/xsessions"),
            default: "bos".to_owned(),
        }
    }
}

impl Default for Config {
    fn default() -> (r: Self)
        ensures
            r.appearance.is_default(),
            r.sessions.is_default(),
            r.user.is_default(),
    {
        Config {
            appearance: Appearance::default(),
            sessions: Sessions::default(),
            user: User::default(),
        }
    }
}

/// Which file the settings are read from.
#[derive(Debug, Clone, Copy, PartialEq, Eq, Structural)]
pub enum ConfigSource {
    /// The one that `$BREADGREET_CONFIG` names.
    Explicit,
    /// `/etc/greetd/breadgreet.toml`.
    System,
    /// The one in the user's own directory.
    User,
}

/// Which file the settings are read from: one that is named explicitly before
/// the system's, and that before the user's.
pub fn config_source(explicit: bool, system_exists: bool) -> (r: ConfigSource)
    ensures
        r == (if explicit {
            ConfigSource::Explicit
        } else if system_exists {
            ConfigSource::System
        } else {
            ConfigSource::User
        }),
{
    if explicit {
        ConfigSource::Explicit
    } else if system_exists {
        ConfigSource::System
    } else {
        ConfigSource::User
    }
}

/// Unless told otherwise the sessions are those of the directories that greeters
/// have agreed on, `bos` first, and everyone is offered.
pub proof fn law_default_choices(s: Sessions, u: User)
    requires
        s.is_default(),
        u.is_default(),
    ensures
        s.wayland_dirs@.len() == 1 && s.wayland_dirs@[0]@ == "/usr/share/wayland-sessions"@,
        s.xsessions_dirs@.len() == 1 && s.xsessions_dirs@[0]@ == "/usr/share/xsessions"@,
        s.default@ == "bos"@,
        u.name@.len() == 0 && !u.prompt,
{
    let w = text::views(s.wayland_dirs@);
    let x = text::views(s.xsessions_dirs@);
    assert(w.len() == s.wayland_dirs@.len() && x.len() == s.xsessions_dirs@.len());
    assert(w[0] == s.wayland_dirs@[0]@ && x[0] == s.xsessions_dirs@[0]@);
}

} // verus!
