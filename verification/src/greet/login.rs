//! The login: who logs in, which question is being answered, and what the
//! greeter's window shows of it.

use crate::greet::config;
use crate::greet::greetd::{AuthPrompt, Command, CommandView, MessageKind, Outcome};
use crate::greet::sessions;
use crate::greet::sessions::Session;
use crate::greet::users::{User, UserView};
use crate::sort;
use crate::text;
use vstd::prelude::*;

verus! {

/// Where the login stands.
#[derive(Debug, Clone, Copy, PartialEq, Eq, Structural)]
pub enum Stage {
    /// The name is being typed.
    Username,
    /// A question is being answered.
    Prompt,
    /// greetd was asked, and has not answered. Nothing can be submitted.
    Working,
    /// greetd was asked to start the session. This cannot be taken back.
    Starting,
}

/// The picture in front of the entry.
#[derive(Debug, Clone, Copy, PartialEq, Eq, Structural)]
pub enum Icon {
    Person,
    Key,
}

/// What the window shows.
#[derive(Debug, Clone)]
pub struct Screen {
    /// The line under the entry.
    pub status: String,
    /// The line is an error.
    pub error: bool,
    /// Something can be typed into the entry.
    pub sensitive: bool,
    /// What is typed can be seen.
    pub visible: bool,
    pub placeholder: String,
    pub icon: Icon,
}

/// The state of the login.
#[derive(Debug)]
pub struct Login {
    pub stage: Stage,
    /// Who is logging in.
    pub username: String,
    /// Who can be chosen. With nobody to choose from the name is typed.
    pub users: Vec<User>,
    pub user_idx: usize,
    pub sessions: Vec<Session>,
    pub selected: usize,
    /// The line under the entry is a message that outlives the next question.
    pub pam_status_held: bool,
    pub screen: Screen,
}

/// What has to be done besides showing the screen.
#[derive(Debug)]
pub struct Effects {
    /// What greetd is asked, in this order.
    pub commands: Vec<Command>,
    pub clear_entry: bool,
    pub grab_focus: bool,
    /// The card shakes.
    pub shake: bool,
    /// The greeter ends.
    pub quit: bool,
}

/// What a [`Screen`] holds.
#[verifier::ext_equal]
pub struct ScreenView {
    pub status: Seq<char>,
    pub error: bool,
    pub sensitive: bool,
    pub visible: bool,
    pub placeholder: Seq<char>,
    pub icon: Icon,
}

/// What a [`Login`] and its [`Effects`] hold.
#[verifier::ext_equal]
pub struct Turn {
    pub stage: Stage,
    pub username: Seq<char>,
    pub users: Seq<UserView>,
    pub user_idx: usize,
    pub sessions: Seq<Session>,
    pub selected: usize,
    pub pam_status_held: bool,
    pub screen: ScreenView,
    pub commands: Seq<CommandView>,
    pub clear_entry: bool,
    pub grab_focus: bool,
    pub shake: bool,
    pub quit: bool,
}

impl View for Screen {
    type V = ScreenView;

    open spec fn view(&self) -> ScreenView {
        ScreenView {
            status: self.status@,
            error: self.error,
            sensitive: self.sensitive,
            visible: self.visible,
            placeholder: self.placeholder@,
            icon: self.icon,
        }
    }
}

/// What a login and the effects of what happened to it hold.
pub open spec fn turn(l: Login, fx: Effects) -> Turn {
    Turn {
        stage: l.stage,
        username: l.username@,
        users: sort::views(l.users@),
        user_idx: l.user_idx,
        sessions: l.sessions@,
        selected: l.selected,
        pam_status_held: l.pam_status_held,
        screen: l.screen@,
        commands: sort::views(fx.commands@),
        clear_entry: fx.clear_entry,
        grab_focus: fx.grab_focus,
        shake: fx.shake,
        quit: fx.quit,
    }
}

/// What a login holds before anything happens to it.
pub open spec fn at_rest(l: Login) -> Turn {
    Turn {
        stage: l.stage,
        username: l.username@,
        users: sort::views(l.users@),
        user_idx: l.user_idx,
        sessions: l.sessions@,
        selected: l.selected,
        pam_status_held: l.pam_status_held,
        screen: l.screen@,
        commands: seq![],
        clear_entry: false,
        grab_focus: false,
        shake: false,
        quit: false,
    }
}

// ---------------------------------------------------------------------------
// What happens
// ---------------------------------------------------------------------------

impl Turn {
    /// The line under the entry.
    pub open spec fn says(self, status: Seq<char>, error: bool) -> Turn {
        Turn { screen: ScreenView { status, error, ..self.screen }, ..self }
    }

    /// One more thing is asked of greetd.
    pub open spec fn asks(self, cmd: CommandView) -> Turn {
        Turn { commands: self.commands.push(cmd), ..self }
    }

    /// The login begins anew: with the name where it is typed, else with the
    /// password of the same person. A conversation that was under way is
    /// cancelled first. `open` tells whether greetd can be asked at all.
    pub open spec fn reset(self, open: bool) -> Turn {
        let s = Turn { clear_entry: true, pam_status_held: false, ..self };
        let s = if open {
            s.asks(CommandView::CancelSession)
        } else {
            s.says("Cannot reach greetd"@, true)
        };
        if s.users.len() == 0 {
            Turn {
                stage: Stage::Username,
                username: seq![],
                screen: ScreenView {
                    visible: true,
                    placeholder: "Username"@,
                    icon: Icon::Person,
                    sensitive: s.sessions.len() > 0,
                    ..s.screen
                },
                grab_focus: s.grab_focus || s.sessions.len() > 0,
                ..s
            }
        } else {
            let s = Turn {
                stage: Stage::Working,
                screen: ScreenView {
                    visible: false,
                    placeholder: "Password"@,
                    icon: Icon::Key,
                    sensitive: false,
                    ..s.screen
                },
                ..s
            };
            if open && s.sessions.len() > 0 {
                s.asks(CommandView::CreateSession(s.username))
            } else {
                s
            }
        }
    }

    /// Something went wrong: the login begins anew.
    pub open spec fn fails(self, description: Seq<char>, open: bool) -> Turn {
        let s = self.says(description, description.len() > 0);
        Turn { shake: s.shake || description.len() > 0, ..s }.reset(open)
    }

    /// Something is asked of greetd; where it cannot be, that is what went
    /// wrong.
    pub open spec fn dispatches(self, cmd: CommandView, open: bool) -> Turn {
        if open {
            self.asks(cmd)
        } else {
            self.fails("Cannot reach greetd"@, open)
        }
    }

    /// Whether greetd was asked and has not answered.
    pub open spec fn is_busy(self) -> bool {
        self.stage == Stage::Working || self.stage == Stage::Starting
    }

    /// The entry was submitted with `input` in it.
    pub open spec fn submits(self, input: Seq<char>, open: bool) -> Turn {
        match self.stage {
            Stage::Working | Stage::Starting => self,
            Stage::Username => if self.sessions.len() == 0 {
                self.fails("No session found — cannot log in"@, open)
            } else if input.len() == 0 {
                self
            } else {
                Turn {
                    username: input,
                    clear_entry: true,
                    stage: Stage::Working,
                    pam_status_held: false,
                    screen: ScreenView {
                        sensitive: false,
                        status: seq![],
                        error: false,
                        ..self.screen
                    },
                    ..self
                }.dispatches(CommandView::CreateSession(input), open)
            },
            Stage::Prompt => Turn {
                clear_entry: true,
                stage: Stage::Working,
                screen: ScreenView { sensitive: false, ..self.screen },
                ..self
            }.dispatches(CommandView::Respond(Some(input)), open),
        }
    }

    /// A question has to be answered.
    pub open spec fn questions(self, message: Seq<char>, visible: bool) -> Turn {
        let s = if self.pam_status_held {
            self
        } else {
            self.says(seq![], false)
        };
        Turn {
            pam_status_held: false,
            screen: ScreenView {
                visible,
                placeholder: message,
                icon: Icon::Key,
                sensitive: true,
                ..s.screen
            },
            grab_focus: true,
            stage: Stage::Prompt,
            ..s
        }
    }

    /// greetd relayed a question or a message. A message is shown and answered
    /// with nothing.
    pub open spec fn prompts(self, kind: MessageKind, message: Seq<char>, open: bool) -> Turn {
        match kind {
            MessageKind::Visible => self.questions(message, true),
            MessageKind::Secret => self.questions(message, false),
            MessageKind::Info => Turn {
                pam_status_held: true,
                ..self.says(message, false)
            }.dispatches(CommandView::Respond(None), open),
            MessageKind::Error => Turn {
                pam_status_held: true,
                shake: true,
                ..self.says(message, true)
            }.dispatches(CommandView::Respond(None), open),
        }
    }

    /// The login is complete: the selected session is started.
    pub open spec fn starts(self, open: bool) -> Turn {
        if self.selected < self.sessions.len() {
            let session = self.sessions[self.selected as int];
            Turn {
                stage: Stage::Starting,
                screen: ScreenView {
                    sensitive: false,
                    status: "Starting session…"@,
                    error: false,
                    ..self.screen
                },
                ..self
            }.dispatches(
                CommandView::StartSession { cmd: session@.command, env: session.env() },
                open,
            )
        } else {
            self.dispatches(CommandView::CancelSession, open).fails(
                "No session available to start"@,
                open,
            )
        }
    }

    /// The session was started: the greeter ends.
    pub open spec fn ends(self) -> Turn {
        Turn {
            screen: ScreenView { status: "Starting session…"@, ..self.screen },
            quit: true,
            ..self
        }
    }

    /// A session was picked; a number that is none of theirs is ignored.
    pub open spec fn picks(self, idx: usize) -> Turn {
        Turn {
            selected: if idx < self.sessions.len() {
                idx
            } else {
                self.selected
            },
            ..self
        }
    }

    /// Whether the same people and sessions can be chosen as in `t`, the same
    /// session is, and the greeter ends where it does there.
    pub open spec fn chooses_like(self, t: Turn) -> bool {
        &&& self.users == t.users
        &&& self.sessions == t.sessions
        &&& self.selected == t.selected
        &&& self.quit == t.quit
    }

    /// Somebody else was chosen: their login begins.
    pub open spec fn switches_user(self, idx: int, open: bool) -> Turn {
        if self.stage == Stage::Starting || idx >= self.users.len() || idx == self.user_idx {
            self
        } else {
            let name = self.users[idx].name;
            let s = Turn {
                user_idx: idx as usize,
                username: name,
                pam_status_held: false,
                clear_entry: true,
                stage: Stage::Working,
                screen: ScreenView {
                    status: seq![],
                    error: false,
                    sensitive: false,
                    placeholder: "Password"@,
                    ..self.screen
                },
                ..self
            };
            let s = if open {
                s.asks(CommandView::CancelSession)
            } else {
                s
            };
            s.dispatches(CommandView::CreateSession(name), open)
        }
    }

    /// Escape was pressed.
    pub open spec fn cancels(self, open: bool) -> Turn {
        match self.stage {
            Stage::Starting => self,
            Stage::Username => Turn { clear_entry: true, ..self },
            Stage::Prompt | Stage::Working => self.says(seq![], false).reset(open),
        }
    }

    /// The login of the person who is the only one, or the first, begins by
    /// itself.
    pub open spec fn auto_starts(self, open: bool) -> Turn {
        if self.sessions.len() == 0 {
            Turn { stage: Stage::Username, ..self }
        } else {
            let s = Turn { screen: ScreenView { status: seq![], ..self.screen }, ..self };
            s.dispatches(CommandView::CreateSession(s.username), open)
        }
    }
}

// ---------------------------------------------------------------------------
// Doing it
// ---------------------------------------------------------------------------

impl Effects {
    fn none() -> (r: Effects)
        ensures
            r.commands@.len() == 0,
            !r.clear_entry,
            !r.grab_focus,
            !r.shake,
            !r.quit,
    {
        Effects {
            commands: Vec::new(),
            clear_entry: false,
            grab_focus: false,
            shake: false,
            quit: false,
        }
    }

    fn ask(&mut self, cmd: Command)
        ensures
            sort::views(final(self).commands@) == sort::views(old(self).commands@).push(cmd@),
            final(self).clear_entry == old(self).clear_entry,
            final(self).grab_focus == old(self).grab_focus,
            final(self).shake == old(self).shake,
            final(self).quit == old(self).quit,
    {
        let ghost before = self.commands@;
        self.commands.push(cmd);
        assert(sort::views(self.commands@) =~= sort::views(before).push(cmd@));
    }
}

/// The answer to a question. An empty answer is one: leaving it out would cancel
/// the conversation.
pub fn prompt_answer(text: String) -> (r: Option<String>)
    ensures
        r == Some(text),
{
    Some(text)
}

/// Who can be chosen: nobody where the name is asked for, the one of the
/// settings where one is named, else everyone who has an account.
pub open spec fn candidates(cfg: config::User, accounts: Seq<UserView>) -> Seq<UserView> {
    let name = text::trim(cfg.name@);
    if cfg.prompt {
        seq![]
    } else if name.len() > 0 {
        seq![UserView { name, display: name, uid: 0 }]
    } else {
        accounts
    }
}

/// Who can be chosen.
pub fn login_users(cfg: &config::User, accounts: Vec<User>) -> (r: Vec<User>)
    ensures
        sort::views(r@) == candidates(*cfg, sort::views(accounts@)),
{
    let mut r: Vec<User> = Vec::new();
    if cfg.prompt {
        assert(sort::views(r@) =~= seq![]);
        return r;
    }
    let name = text::trimmed(cfg.name.as_str());
    if !name.as_str().is_empty() {
        let user = User { display: name.clone(), name, uid: 0 };
        r.push(user);
        assert(sort::views(r@) =~= seq![user@]);
        return r;
    }
    accounts
}

/// A login before anything happened to it.
pub open spec fn begun(users: Seq<UserView>, sessions: Seq<Session>, default: Seq<char>) -> Turn {
    let chosen = users.len() > 0;
    Turn {
        stage: if chosen {
            Stage::Working
        } else {
            Stage::Username
        },
        username: if chosen {
            users[0].name
        } else {
            seq![]
        },
        users,
        user_idx: 0,
        sessions,
        selected: sessions::default_place(sort::views(sessions), default) as usize,
        pam_status_held: false,
        screen: ScreenView {
            status: if sessions.len() == 0 {
                "No session found — cannot log in"@
            } else {
                seq![]
            },
            error: sessions.len() == 0,
            sensitive: !chosen && sessions.len() > 0,
            visible: !chosen,
            placeholder: if chosen {
                "Password"@
            } else {
                "Username"@
            },
            icon: if chosen {
                Icon::Key
            } else {
                Icon::Person
            },
        },
        commands: seq![],
        clear_entry: false,
        grab_focus: false,
        shake: false,
        quit: false,
    }
}

impl Login {
    /// The login before anything happened: with somebody to choose from it waits
    /// for greetd's first question, otherwise for a name.
    pub fn new(users: Vec<User>, sessions: Vec<Session>, default_session: &str) -> (r: Login)
        ensures
            at_rest(r) == begun(sort::views(users@), sessions@, default_session@),
            r.users == users,
            r.sessions == sessions,
            r.user_idx == 0,
            r.selected == sessions::default_place(sort::views(sessions@), default_session@),
            !r.pam_status_held,
            r.username@ == (if users@.len() > 0 {
                users@[0]@.name
            } else {
                seq![]
            }),
            r.stage == (if users@.len() > 0 {
                Stage::Working
            } else {
                Stage::Username
            }),
            r.screen@ == (ScreenView {
                status: if sessions@.len() == 0 {
                    "No session found — cannot log in"@
                } else {
                    seq![]
                },
                error: sessions@.len() == 0,
                sensitive: users@.len() == 0 && sessions@.len() > 0,
                visible: users@.len() == 0,
                placeholder: if users@.len() > 0 {
                    "Password"@
                } else {
                    "Username"@
                },
                icon: if users@.len() > 0 {
                    Icon::Key
                } else {
                    Icon::Person
                },
            }),
    {
        let auto_user: bool = users.len() > 0;
        let empty: bool = sessions.len() == 0;
        let selected: usize = sessions::default_index(&sessions, default_session);
        let username = if auto_user {
            users[0].name.clone()
        } else {
            String::new()
        };
        let screen = Screen {
            status: if empty {
                "No session found — cannot log in".to_owned()
            } else {
                String::new()
            },
            error: empty,
            sensitive: !auto_user && !empty,
            visible: !auto_user,
            placeholder: if auto_user {
                "Password".to_owned()
            } else {
                "Username".to_owned()
            },
            icon: if auto_user {
                Icon::Key
            } else {
                Icon::Person
            },
        };
        Login {
            stage: if auto_user {
                Stage::Working
            } else {
                Stage::Username
            },
            username,
            users,
            user_idx: 0,
            sessions,
            selected,
            pam_status_held: false,
            screen,
        }
    }

    /// Whether the spinner turns: greetd was asked and has not answered.
    pub fn is_busy(&self) -> (r: bool)
        ensures
            r == (self.stage == Stage::Working || self.stage == Stage::Starting),
    {
        match self.stage {
            Stage::Working | Stage::Starting => true,
            Stage::Username | Stage::Prompt => false,
        }
    }

    fn reset_auth(&mut self, fx: &mut Effects, open: bool)
        ensures
            turn(*final(self), *final(fx)) == turn(*old(self), *old(fx)).reset(open),
    {
        fx.clear_entry = true;
        self.pam_status_held = false;
        if open {
            fx.ask(Command::CancelSession);
        } else {
            self.screen.status = "Cannot reach greetd".to_owned();
            self.screen.error = true;
        }
        assert(sort::views(self.users@).len() == self.users@.len());
        if self.users.len() == 0 {
            self.screen.visible = true;
            self.screen.placeholder = "Username".to_owned();
            self.screen.icon = Icon::Person;
            self.screen.sensitive = self.sessions.len() > 0;
            self.stage = Stage::Username;
            self.username = String::new();
            if self.sessions.len() > 0 {
                fx.grab_focus = true;
            }
        } else {
            self.screen.visible = false;
            self.screen.placeholder = "Password".to_owned();
            self.screen.icon = Icon::Key;
            self.screen.sensitive = false;
            self.stage = Stage::Working;
            if open && self.sessions.len() > 0 {
                fx.ask(Command::CreateSession(self.username.clone()));
            }
        }
    }

    fn show_error(&mut self, fx: &mut Effects, description: &str, open: bool)
        ensures
            turn(*final(self), *final(fx)) == turn(*old(self), *old(fx)).fails(description@, open),
    {
        self.screen.status = description.to_owned();
        self.screen.error = !description.is_empty();
        if !description.is_empty() {
            fx.shake = true;
        }
        self.reset_auth(fx, open);
    }

    fn dispatch(&mut self, fx: &mut Effects, cmd: Command, open: bool)
        ensures
            turn(*final(self), *final(fx)) == turn(*old(self), *old(fx)).dispatches(cmd@, open),
    {
        if open {
            fx.ask(cmd);
        } else {
            self.show_error(fx, "Cannot reach greetd", open);
        }
    }

    /// The entry was submitted. `open` tells whether greetd can be asked.
    pub fn handle_submit(&mut self, input: String, open: bool) -> (fx: Effects)
        ensures
            turn(*final(self), fx) == at_rest(*old(self)).submits(input@, open),
    {
        let mut fx = Effects::none();
        assert(turn(*self, fx) == at_rest(*old(self)));
        match self.stage {
            Stage::Working | Stage::Starting => {},
            Stage::Username => {
                if self.sessions.len() == 0 {
                    self.show_error(&mut fx, "No session found — cannot log in", open);
                } else if !input.as_str().is_empty() {
                    self.username = input.clone();
                    fx.clear_entry = true;
                    self.screen.sensitive = false;
                    self.stage = Stage::Working;
                    self.screen.status = String::new();
                    self.screen.error = false;
                    self.pam_status_held = false;
                    self.dispatch(&mut fx, Command::CreateSession(input), open);
                }
            },
            Stage::Prompt => {
                fx.clear_entry = true;
                self.screen.sensitive = false;
                self.stage = Stage::Working;
                self.dispatch(&mut fx, Command::Respond(prompt_answer(input)), open);
            },
        }
        fx
    }

    fn show_auth_entry(&mut self, fx: &mut Effects, message: String, visible: bool)
        ensures
            turn(*final(self), *final(fx)) == turn(*old(self), *old(fx)).questions(
                message@,
                visible,
            ),
    {
        if !self.pam_status_held {
            self.screen.error = false;
            self.screen.status = String::new();
        }
        self.pam_status_held = false;
        self.screen.visible = visible;
        self.screen.placeholder = message;
        self.screen.icon = Icon::Key;
        self.screen.sensitive = true;
        fx.grab_focus = true;
        self.stage = Stage::Prompt;
    }

    fn handle_prompt(&mut self, fx: &mut Effects, prompt: AuthPrompt, open: bool)
        ensures
            turn(*final(self), *final(fx)) == turn(*old(self), *old(fx)).prompts(
                prompt@.0,
                prompt@.1,
                open,
            ),
    {
        match prompt {
            AuthPrompt::Info(message) => {
                self.screen.error = false;
                self.screen.status = message;
                self.pam_status_held = true;
                self.dispatch(fx, Command::Respond(None), open);
            },
            AuthPrompt::Error(message) => {
                self.screen.error = true;
                self.screen.status = message;
                fx.shake = true;
                self.pam_status_held = true;
                self.dispatch(fx, Command::Respond(None), open);
            },
            AuthPrompt::Visible(message) => {
                self.show_auth_entry(fx, message, true);
            },
            AuthPrompt::Secret(message) => {
                self.show_auth_entry(fx, message, false);
            },
        }
    }

    fn start_session(&mut self, fx: &mut Effects, open: bool)
        ensures
            turn(*final(self), *final(fx)) == turn(*old(self), *old(fx)).starts(open),
    {
        if self.selected < self.sessions.len() {
            let cmd = copy_of(&self.sessions[self.selected].command);
            let env = self.sessions[self.selected].start_env();
            self.screen.error = false;
            self.screen.status = "Starting session…".to_owned();
            self.screen.sensitive = false;
            self.stage = Stage::Starting;
            self.dispatch(fx, Command::StartSession { cmd, env }, open);
        } else {
            self.dispatch(fx, Command::CancelSession, open);
            self.show_error(fx, "No session available to start", open);
        }
    }

    /// greetd answered a request that is part of the login.
    pub fn handle_outcome(&mut self, outcome: Outcome, open: bool) -> (fx: Effects)
        ensures
            turn(*final(self), fx) == (match outcome@ {
                None => at_rest(*old(self)).starts(open),
                Some((kind, message)) => at_rest(*old(self)).prompts(kind, message, open),
            }),
    {
        let mut fx = Effects::none();
        assert(turn(*self, fx) == at_rest(*old(self)));
        match outcome {
            Outcome::Success => {
                self.start_session(&mut fx, open);
            },
            Outcome::Prompt(prompt) => {
                self.handle_prompt(&mut fx, prompt, open);
            },
        }
        fx
    }

    /// greetd, or the way to it, failed.
    pub fn handle_error(&mut self, description: &str, open: bool) -> (fx: Effects)
        ensures
            turn(*final(self), fx) == at_rest(*old(self)).fails(description@, open),
    {
        let mut fx = Effects::none();
        assert(turn(*self, fx) == at_rest(*old(self)));
        self.show_error(&mut fx, description, open);
        fx
    }

    /// The session was started. greetd waits for the greeter to end.
    pub fn session_started(&mut self) -> (fx: Effects)
        ensures
            turn(*final(self), fx) == at_rest(*old(self)).ends(),
            final(self).stage == old(self).stage,
            fx.quit,
    {
        let mut fx = Effects::none();
        self.screen.status = "Starting session…".to_owned();
        fx.quit = true;
        assert(sort::views(fx.commands@) =~= seq![]);
        fx
    }

    /// A session was picked; a number that is none of theirs is ignored.
    pub fn select_session(&mut self, idx: usize)
        ensures
            at_rest(*final(self)) == at_rest(*old(self)).picks(idx),
            idx < old(self).sessions@.len() ==> final(self).selected == idx,
    {
        if idx < self.sessions.len() {
            self.selected = idx;
        }
    }

    /// Somebody was picked.
    pub fn switch_user(&mut self, idx: usize, open: bool) -> (fx: Effects)
        ensures
            turn(*final(self), fx) == at_rest(*old(self)).switches_user(idx as int, open),
    {
        let mut fx = Effects::none();
        assert(turn(*self, fx) == at_rest(*old(self)));
        assert(sort::views(self.users@).len() == self.users@.len());
        if self.stage == Stage::Starting || idx >= self.users.len() || idx == self.user_idx {
            return fx;
        }
        assert(sort::views(self.users@)[idx as int] == self.users@[idx as int]@);
        let name = self.users[idx].name.clone();
        self.user_idx = idx;
        self.username = name.clone();
        self.screen.status = String::new();
        self.screen.error = false;
        self.pam_status_held = false;
        fx.clear_entry = true;
        self.screen.sensitive = false;
        self.screen.placeholder = "Password".to_owned();
        self.stage = Stage::Working;
        if open {
            fx.ask(Command::CancelSession);
        }
        self.dispatch(&mut fx, Command::CreateSession(name), open);
        fx
    }

    /// Escape was pressed.
    pub fn cancel_auth(&mut self, open: bool) -> (fx: Effects)
        ensures
            turn(*final(self), fx) == at_rest(*old(self)).cancels(open),
    {
        let mut fx = Effects::none();
        assert(turn(*self, fx) == at_rest(*old(self)));
        match self.stage {
            Stage::Starting => {},
            Stage::Username => {
                fx.clear_entry = true;
            },
            Stage::Prompt | Stage::Working => {
                self.screen.status = String::new();
                self.screen.error = false;
                self.reset_auth(&mut fx, open);
            },
        }
        fx
    }

    /// The login of somebody who need not be asked for a name begins.
    pub fn auto_start(&mut self, open: bool) -> (fx: Effects)
        ensures
            turn(*final(self), fx) == at_rest(*old(self)).auto_starts(open),
    {
        let mut fx = Effects::none();
        assert(turn(*self, fx) == at_rest(*old(self)));
        if self.sessions.len() == 0 {
            self.stage = Stage::Username;
        } else {
            self.screen.status = String::new();
            let name = self.username.clone();
            self.dispatch(&mut fx, Command::CreateSession(name), open);
        }
        fx
    }
}

fn copy_of(list: &Vec<String>) -> (r: Vec<String>)
    ensures
        text::views(r@) == text::views(list@),
{
    let mut r: Vec<String> = Vec::new();
    for i in 0..list.len()
        invariant
            r@.len() == i,
            forall|j: int| 0 <= j < i ==> (#[trigger] r@[j])@ == list@[j]@,
    {
        r.push(list[i].clone());
    }
    assert(text::views(r@) =~= text::views(list@));
    r
}

// ---------------------------------------------------------------------------
// What holds of every login
// ---------------------------------------------------------------------------

/// Whether none of the commands starts a session.
pub open spec fn starts_nothing(commands: Seq<CommandView>) -> bool {
    forall|i: int| 0 <= i < commands.len() ==> !((#[trigger] commands[i]) is StartSession)
}

proof fn lemma_fails_starts_nothing(t: Turn, description: Seq<char>, open: bool)
    requires
        starts_nothing(t.commands),
    ensures
        starts_nothing(t.fails(description, open).commands),
        starts_nothing(t.reset(open).commands),
{
}

/// No session is started but after greetd reported that the login is complete:
/// neither what is typed, nor a question, an error, Escape or another choice
/// starts one.
pub proof fn law_only_success_starts_a_session(
    t: Turn,
    input: Seq<char>,
    kind: MessageKind,
    idx: int,
    open: bool,
)
    requires
        starts_nothing(t.commands),
    ensures
        starts_nothing(t.submits(input, open).commands),
        starts_nothing(t.prompts(kind, input, open).commands),
        starts_nothing(t.fails(input, open).commands),
        starts_nothing(t.cancels(open).commands),
        starts_nothing(t.switches_user(idx, open).commands),
        starts_nothing(t.auto_starts(open).commands),
{
    lemma_fails_starts_nothing(t, input, open);
}

/// While greetd has not answered, be it to a question or to the start of the
/// session, nothing can be submitted.
pub proof fn law_busy_ignores_submit(t: Turn, input: Seq<char>, open: bool)
    ensures
        t.is_busy() <==> t.stage == Stage::Working || t.stage == Stage::Starting,
        t.is_busy() ==> t.submits(input, open) == t,
{
}

/// Once greetd was asked to start the session, neither Escape nor another choice
/// changes anything.
pub proof fn law_starting_cannot_be_cancelled(t: Turn, idx: int, open: bool)
    requires
        t.stage == Stage::Starting,
    ensures
        t.cancels(open) == t,
        t.switches_user(idx, open) == t,
{
}

/// A question is always answered, and an empty answer is one.
pub proof fn law_questions_are_answered(t: Turn, input: Seq<char>)
    requires
        t.stage == Stage::Prompt,
    ensures
        t.submits(input, true).commands == t.commands.push(CommandView::Respond(Some(input))),
        t.submits(input, true).stage == Stage::Working,
{
}

/// A login that begins anew is cancelled first, and nothing is asked of greetd
/// that cannot be reached.
pub proof fn law_reset_cancels_first(t: Turn, open: bool)
    ensures
        t.reset(open).commands == (if !open {
            t.commands
        } else if t.users.len() > 0 && t.sessions.len() > 0 {
            t.commands.push(CommandView::CancelSession).push(
                CommandView::CreateSession(t.username),
            )
        } else {
            t.commands.push(CommandView::CancelSession)
        }),
{
}

/// The answer to a secret question is never seen, nor is a password that is
/// asked for without a name.
pub proof fn law_secrets_are_hidden(t: Turn, message: Seq<char>, open: bool)
    ensures
        !t.prompts(MessageKind::Secret, message, open).screen.visible,
        t.users.len() > 0 ==> !t.reset(open).screen.visible,
{
}

/// A message is kept until the next question was shown with it.
pub proof fn law_messages_outlive_the_next_question(
    t: Turn,
    message: Seq<char>,
    question: Seq<char>,
)
    ensures
        t.prompts(MessageKind::Info, message, true).prompts(
            MessageKind::Secret,
            question,
            true,
        ).screen.status == message,
        t.prompts(MessageKind::Error, message, true).prompts(
            MessageKind::Secret,
            question,
            true,
        ).screen.status == message,
{
}

// ---------------------------------------------------------------------------
// What each event does
// ---------------------------------------------------------------------------

/// A login that is complete starts the session that is selected, whichever that
/// is and whoever logs in: its command, with its environment, and nothing else.
pub proof fn law_success_starts_the_selected_session(t: Turn)
    requires
        t.selected < t.sessions.len(),
    ensures
        t.starts(true) == (Turn {
            stage: Stage::Starting,
            screen: ScreenView {
                status: "Starting session…"@,
                error: false,
                sensitive: false,
                ..t.screen
            },
            commands: t.commands.push(
                CommandView::StartSession {
                    cmd: t.sessions[t.selected as int]@.command,
                    env: t.sessions[t.selected as int].env(),
                },
            ),
            ..t
        }),
{
}

/// Picking a session and then logging in starts the session that was picked. A
/// number that is none of theirs changes nothing.
pub proof fn law_picked_session_is_started(t: Turn, idx: usize)
    ensures
        idx < t.sessions.len() ==> t.picks(idx).starts(true).commands == t.commands.push(
            CommandView::StartSession {
                cmd: t.sessions[idx as int]@.command,
                env: t.sessions[idx as int].env(),
            },
        ),
        idx < t.sessions.len() ==> t.picks(idx) == (Turn { selected: idx, ..t }),
        idx >= t.sessions.len() ==> t.picks(idx) == t,
{
}

/// Where there is no session to start, the login is cancelled, and begins anew
/// with an error: nothing is started.
pub proof fn law_missing_session_is_an_error(t: Turn)
    requires
        t.selected >= t.sessions.len(),
    ensures
        ({
            let s = t.starts(true);
            let cancelled = t.commands.push(CommandView::CancelSession).push(
                CommandView::CancelSession,
            );
            &&& s.stage != Stage::Starting
            &&& s.screen.status == "No session available to start"@
            &&& s.screen.error
            &&& s.shake
            &&& s.commands == (if t.users.len() > 0 && t.sessions.len() > 0 {
                cancelled.push(CommandView::CreateSession(t.username))
            } else {
                cancelled
            })
        }),
{
    reveal_strlit("No session available to start");
}

/// The session was started: the greeter ends, and asks nothing more.
pub proof fn law_started_session_ends_the_greeter(t: Turn)
    ensures
        t.ends().quit,
        t.ends().commands == t.commands,
        t.ends().stage == t.stage,
        t.ends().screen.status == "Starting session…"@,
        t.ends().screen.error == t.screen.error,
{
}

/// A name that is submitted is whose login begins. It leaves the entry, which
/// takes nothing until greetd has answered. An empty name is none.
pub proof fn law_submitted_name_logs_in(t: Turn, name: Seq<char>)
    requires
        t.stage == Stage::Username,
        t.sessions.len() > 0,
    ensures
        name.len() > 0 ==> t.submits(name, true) == (Turn {
            stage: Stage::Working,
            username: name,
            pam_status_held: false,
            clear_entry: true,
            screen: ScreenView {
                sensitive: false,
                status: Seq::empty(),
                error: false,
                ..t.screen
            },
            commands: t.commands.push(CommandView::CreateSession(name)),
            ..t
        }),
        name.len() == 0 ==> t.submits(name, true) == t && t.submits(name, false) == t,
{
}

/// An answer that is submitted goes to greetd as it was typed, leaves the entry,
/// and the entry takes nothing until greetd has answered.
pub proof fn law_submitted_answer_is_sent(t: Turn, input: Seq<char>)
    requires
        t.stage == Stage::Prompt,
    ensures
        t.submits(input, true) == (Turn {
            stage: Stage::Working,
            clear_entry: true,
            screen: ScreenView { sensitive: false, ..t.screen },
            commands: t.commands.push(CommandView::Respond(Some(input))),
            ..t
        }),
{
}

/// Without a session nobody can log in: a name is refused with an error.
pub proof fn law_nobody_logs_in_without_a_session(t: Turn, name: Seq<char>)
    requires
        t.stage == Stage::Username,
        t.sessions.len() == 0,
    ensures
        t.submits(name, true).screen.status == "No session found — cannot log in"@,
        t.submits(name, true).screen.error,
        t.submits(name, true).shake,
        t.submits(name, true).commands == t.commands.push(CommandView::CancelSession),
{
    reveal_strlit("No session found — cannot log in");
}

/// A question is shown as it was asked, its answer in sight where it may be and
/// hidden where it is a secret; the entry takes the answer, and greetd is asked
/// nothing. What stood under the entry goes, unless it is a message.
pub proof fn law_questions_are_shown(t: Turn, message: Seq<char>, open: bool)
    ensures
        ({
            let seen = t.prompts(MessageKind::Visible, message, open);
            let hidden = t.prompts(MessageKind::Secret, message, open);
            let status = if t.pam_status_held {
                t.screen.status
            } else {
                Seq::empty()
            };
            let shown = Turn {
                stage: Stage::Prompt,
                pam_status_held: false,
                grab_focus: true,
                screen: ScreenView {
                    status,
                    error: t.pam_status_held && t.screen.error,
                    sensitive: true,
                    visible: true,
                    placeholder: message,
                    icon: Icon::Key,
                },
                ..t
            };
            &&& seen == shown
            &&& hidden == (Turn { screen: ScreenView { visible: false, ..shown.screen }, ..shown })
        }),
{
}

/// A message is shown as it came, an error as one, and answered with nothing, so
/// that the login goes on.
pub proof fn law_messages_are_shown_and_answered(t: Turn, message: Seq<char>)
    ensures
        ({
            let shown = Turn {
                pam_status_held: true,
                screen: ScreenView { status: message, error: false, ..t.screen },
                commands: t.commands.push(CommandView::Respond(None)),
                ..t
            };
            &&& t.prompts(MessageKind::Info, message, true) == shown
            &&& t.prompts(MessageKind::Error, message, true) == (Turn {
                shake: true,
                screen: ScreenView { error: true, ..shown.screen },
                ..shown
            })
        }),
{
}

/// What went wrong is shown as it was told, with a shake, and the login of the
/// same person begins anew; where the name is typed, it is asked for again. No
/// answer stays in the entry.
pub proof fn law_errors_are_shown(t: Turn, description: Seq<char>)
    requires
        description.len() > 0,
    ensures
        ({
            let s = t.fails(description, true);
            &&& s.screen.status == description
            &&& s.screen.error
            &&& s.shake
            &&& s.clear_entry
            &&& !s.pam_status_held
            &&& t.users.len() > 0 ==> s.stage == Stage::Working && s.username == t.username
                && s.screen.placeholder == "Password"@ && s.screen.icon == Icon::Key
                && !s.screen.visible && !s.screen.sensitive
            &&& t.users.len() == 0 ==> s.stage == Stage::Username && s.username.len() == 0
                && s.screen.placeholder == "Username"@ && s.screen.icon == Icon::Person
                && s.screen.visible && s.screen.sensitive == (t.sessions.len() > 0)
            &&& t.users.len() == 0 && t.sessions.len() > 0 ==> s.grab_focus
            &&& t.users.len() > 0 || t.sessions.len() == 0 ==> s.grab_focus == t.grab_focus
            &&& s.quit == t.quit
        }),
{
}

/// A failure without a description begins the login anew in silence.
pub proof fn law_failure_without_words_is_silent(t: Turn)
    ensures
        t.fails(seq![], true).screen.status.len() == 0,
        !t.fails(seq![], true).screen.error,
        t.fails(seq![], true).shake == t.shake,
        t.fails(seq![], true).commands == t.reset(true).commands,
{
}

/// Where greetd cannot be reached, nothing is asked of it, and whatever needed it
/// says so.
pub proof fn law_unreachable_greetd_is_told(t: Turn, input: Seq<char>, idx: int)
    ensures
        t.reset(false).commands == t.commands,
        t.reset(false).screen.status == "Cannot reach greetd"@ && t.reset(false).screen.error,
        t.fails(input, false).commands == t.commands,
        t.fails(input, false).screen.status == "Cannot reach greetd"@,
        t.starts(false).commands == t.commands,
        t.starts(false).screen.status == "Cannot reach greetd"@ && t.starts(false).screen.error,
        t.starts(false).stage != Stage::Starting,
        t.prompts(MessageKind::Info, input, false).commands == t.commands,
        t.prompts(MessageKind::Info, input, false).screen.status == "Cannot reach greetd"@,
        t.prompts(MessageKind::Error, input, false).commands == t.commands,
        t.prompts(MessageKind::Error, input, false).screen.status == "Cannot reach greetd"@,
        t.submits(input, false).commands == t.commands,
        t.stage == Stage::Prompt ==> t.submits(input, false).screen.status
            == "Cannot reach greetd"@ && t.submits(input, false).shake,
        t.stage == Stage::Username && input.len() > 0 ==> t.submits(input, false).screen.status
            == "Cannot reach greetd"@,
        t.switches_user(idx, false).commands == t.commands,
        t.stage != Stage::Starting && 0 <= idx < t.users.len() && idx != t.user_idx
            ==> t.switches_user(idx, false).screen.status == "Cannot reach greetd"@
            && t.switches_user(idx, false).username == t.users[idx].name,
        t.cancels(false).commands == t.commands,
        t.auto_starts(false).commands == t.commands,
        t.sessions.len() > 0 ==> t.auto_starts(false).screen.status == "Cannot reach greetd"@,
{
    reveal_strlit("Cannot reach greetd");
}

/// Choosing somebody else cancels the login at hand and begins theirs: they are
/// the one who is chosen, and the entry waits empty for greetd's question. The
/// one who is chosen already, and a number that is nobody's, change nothing.
pub proof fn law_chosen_person_logs_in(t: Turn, idx: usize)
    requires
        t.stage != Stage::Starting,
    ensures
        idx < t.users.len() && idx != t.user_idx ==> t.switches_user(idx as int, true) == (Turn {
            stage: Stage::Working,
            user_idx: idx,
            username: t.users[idx as int].name,
            pam_status_held: false,
            clear_entry: true,
            screen: ScreenView {
                status: Seq::empty(),
                error: false,
                sensitive: false,
                placeholder: "Password"@,
                ..t.screen
            },
            commands: t.commands.push(CommandView::CancelSession).push(
                CommandView::CreateSession(t.users[idx as int].name),
            ),
            ..t
        }),
        idx >= t.users.len() || idx == t.user_idx ==> t.switches_user(idx as int, true) == t,
{
}

/// Escape empties the entry. While a question is answered, or greetd is waited
/// for, it also gives the login up and begins it anew, with nothing said.
pub proof fn law_escape_begins_anew(t: Turn)
    requires
        t.stage != Stage::Starting,
    ensures
        t.cancels(true).clear_entry,
        t.stage == Stage::Username ==> t.cancels(true) == (Turn { clear_entry: true, ..t }),
        t.stage != Stage::Username ==> {
            let s = t.cancels(true);
            &&& s.screen.status.len() == 0
            &&& !s.screen.error
            &&& s.shake == t.shake
            &&& t.users.len() > 0 && t.sessions.len() > 0 ==> s.commands == t.commands.push(
                CommandView::CancelSession,
            ).push(CommandView::CreateSession(t.username)) && s.stage == Stage::Working
            &&& t.users.len() > 0 ==> s.stage == Stage::Working && s.username == t.username
                && !s.screen.visible && !s.screen.sensitive
            &&& t.users.len() > 0 && t.sessions.len() == 0 ==> s.commands == t.commands.push(
                CommandView::CancelSession,
            )
            &&& t.users.len() == 0 ==> s.commands == t.commands.push(CommandView::CancelSession)
                && s.stage == Stage::Username && s.username.len() == 0 && s.screen.visible
        },
{
}

/// The login of somebody who need not be asked begins with their name; without
/// a session it does not begin.
pub proof fn law_auto_login_asks_for_the_person(t: Turn)
    ensures
        t.sessions.len() > 0 ==> t.auto_starts(true) == (Turn {
            screen: ScreenView { status: Seq::empty(), ..t.screen },
            commands: t.commands.push(CommandView::CreateSession(t.username)),
            ..t
        }),
        t.sessions.len() == 0 ==> t.auto_starts(true) == (Turn { stage: Stage::Username, ..t })
            && t.auto_starts(false) == (Turn { stage: Stage::Username, ..t }),
{
}

/// Nothing that happens changes who and what can be chosen, nor which session
/// is, but picking one; and nothing but the start of one ends the greeter.
pub proof fn law_choices_stay(
    t: Turn,
    input: Seq<char>,
    kind: MessageKind,
    idx: int,
    pick: usize,
    open: bool,
)
    ensures
        t.submits(input, open).chooses_like(t),
        t.prompts(kind, input, open).chooses_like(t),
        t.starts(open).chooses_like(t),
        t.fails(input, open).chooses_like(t),
        t.cancels(open).chooses_like(t),
        t.switches_user(idx, open).chooses_like(t),
        t.auto_starts(open).chooses_like(t),
        t.picks(pick).users == t.users,
        t.picks(pick).sessions == t.sessions,
        t.picks(pick).quit == t.quit,
{
    lemma_submit_keeps_choices(t, input, open);
    lemma_prompt_keeps_choices(t, kind, input, open);
    lemma_start_keeps_choices(t, open);
    lemma_failure_keeps_choices(t, input, open);
    lemma_cancel_keeps_choices(t, open);
    lemma_switch_keeps_choices(t, idx, open);
    lemma_auto_start_keeps_choices(t, open);
}

proof fn lemma_submit_keeps_choices(t: Turn, input: Seq<char>, open: bool)
    ensures
        t.submits(input, open).chooses_like(t),
{
}

proof fn lemma_prompt_keeps_choices(t: Turn, kind: MessageKind, input: Seq<char>, open: bool)
    ensures
        t.prompts(kind, input, open).chooses_like(t),
{
}

proof fn lemma_start_keeps_choices(t: Turn, open: bool)
    ensures
        t.starts(open).chooses_like(t),
{
}

proof fn lemma_failure_keeps_choices(t: Turn, input: Seq<char>, open: bool)
    ensures
        t.fails(input, open).chooses_like(t),
{
}

proof fn lemma_cancel_keeps_choices(t: Turn, open: bool)
    ensures
        t.cancels(open).chooses_like(t),
{
}

proof fn lemma_switch_keeps_choices(t: Turn, idx: int, open: bool)
    ensures
        t.switches_user(idx, open).chooses_like(t),
{
}

proof fn lemma_auto_start_keeps_choices(t: Turn, open: bool)
    ensures
        t.auto_starts(open).chooses_like(t),
{
}

/// A login begins with the first who can be chosen and the default session. With
/// somebody to choose from it waits for greetd, without it for a name; without a
/// session it says that nobody can log in.
pub proof fn law_login_begins_with_the_first(
    users: Seq<UserView>,
    sessions: Seq<Session>,
    default: Seq<char>,
)
    ensures
        ({
            let t = begun(users, sessions, default);
            &&& t.users == users && t.sessions == sessions && t.user_idx == 0
            &&& t.selected == sessions::default_place(sort::views(sessions), default) as usize
            &&& users.len() > 0 ==> t.username == users[0].name && t.stage == Stage::Working
                && !t.screen.visible && !t.screen.sensitive && t.screen.placeholder == "Password"@
                && t.screen.icon == Icon::Key
            &&& users.len() == 0 ==> t.username.len() == 0 && t.stage == Stage::Username
                && t.screen.visible && t.screen.sensitive == (sessions.len() > 0)
                && t.screen.placeholder == "Username"@ && t.screen.icon == Icon::Person
            &&& sessions.len() > 0 ==> t.screen.status.len() == 0 && !t.screen.error
            &&& sessions.len() == 0 ==> t.screen.status == "No session found — cannot log in"@
                && t.screen.error
            &&& t.commands.len() == 0 && !t.pam_status_held && !t.quit && !t.shake
                && !t.clear_entry && !t.grab_focus
        }),
{
}

/// The settings decide who can be chosen: nobody where the name is asked for,
/// the one they name where they name one, and everyone otherwise.
pub proof fn law_settings_decide_who_can_be_chosen(cfg: config::User, accounts: Seq<UserView>)
    ensures
        cfg.prompt ==> candidates(cfg, accounts).len() == 0,
        !cfg.prompt && text::trim(cfg.name@).len() == 0 ==> candidates(cfg, accounts) == accounts,
        !cfg.prompt && text::trim(cfg.name@).len() > 0 ==> candidates(cfg, accounts).len() == 1
            && candidates(cfg, accounts)[0].name == text::trim(cfg.name@) && candidates(
            cfg,
            accounts,
        )[0].display == text::trim(cfg.name@) && candidates(cfg, accounts)[0].uid == 0,
{
}

} // verus!
