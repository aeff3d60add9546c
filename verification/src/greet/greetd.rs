//! The conversation with greetd: what its answers mean, and when to connect,
//! cancel and give up.

use crate::text;
use vstd::prelude::*;

verus! {

/// How long greetd may take for an answer, in seconds.
pub const ROUNDTRIP_TIMEOUT_SECS: u64 = 30;

/// A step of the login that greetd relays.
#[derive(Debug, Clone)]
pub enum AuthPrompt {
    /// A question whose answer may be seen.
    Visible(String),
    /// A question whose answer is a secret.
    Secret(String),
    /// A message, without a question.
    Info(String),
    /// A message that something went wrong, without a question.
    Error(String),
}

/// What came of a request.
#[derive(Debug, Clone)]
pub enum Outcome {
    /// The login is complete.
    Success,
    /// There is something to answer or to show.
    Prompt(AuthPrompt),
}

/// What is asked of greetd.
#[derive(Debug, Clone)]
pub enum Command {
    CreateSession(String),
    Respond(Option<String>),
    StartSession { cmd: Vec<String>, env: Vec<String> },
    CancelSession,
}

/// What greetd told.
#[derive(Debug, Clone)]
pub enum Event {
    Outcome(Outcome),
    Error(String),
    SessionStarted,
}

/// What can go wrong. The causes of the outer layers come as text.
#[derive(Debug, Clone)]
pub enum GreetdError {
    NoSocketEnv,
    Connect(String),
    Codec(String),
    Greetd { description: String, is_auth_error: bool },
}

/// The kind of a message from greetd.
#[derive(Debug, Clone, Copy, PartialEq, Eq, Structural)]
pub enum MessageKind {
    Visible,
    Secret,
    Info,
    Error,
}

/// An answer from greetd.
#[derive(Debug, Clone)]
pub enum Response {
    Success,
    AuthMessage { kind: MessageKind, message: String },
    Error { is_auth_error: bool, description: String },
}

// ---------------------------------------------------------------------------
// What they hold
// ---------------------------------------------------------------------------

/// What a [`Command`] holds.
#[verifier::ext_equal]
pub enum CommandView {
    CreateSession(Seq<char>),
    Respond(Option<Seq<char>>),
    StartSession { cmd: Seq<Seq<char>>, env: Seq<Seq<char>> },
    CancelSession,
}

impl View for Command {
    type V = CommandView;

    open spec fn view(&self) -> CommandView {
        match *self {
            Command::CreateSession(name) => CommandView::CreateSession(name@),
            Command::Respond(answer) => CommandView::Respond(
                match answer {
                    Some(a) => Some(a@),
                    None => None,
                },
            ),
            Command::StartSession { cmd, env } => CommandView::StartSession {
                cmd: text::views(cmd@),
                env: text::views(env@),
            },
            Command::CancelSession => CommandView::CancelSession,
        }
    }
}

/// What an [`AuthPrompt`] holds: its kind and its text.
impl View for AuthPrompt {
    type V = (MessageKind, Seq<char>);

    open spec fn view(&self) -> (MessageKind, Seq<char>) {
        match *self {
            AuthPrompt::Visible(m) => (MessageKind::Visible, m@),
            AuthPrompt::Secret(m) => (MessageKind::Secret, m@),
            AuthPrompt::Info(m) => (MessageKind::Info, m@),
            AuthPrompt::Error(m) => (MessageKind::Error, m@),
        }
    }
}

/// What an [`Outcome`] holds: the prompt, where there is one.
impl View for Outcome {
    type V = Option<(MessageKind, Seq<char>)>;

    open spec fn view(&self) -> Option<(MessageKind, Seq<char>)> {
        match *self {
            Outcome::Success => None,
            Outcome::Prompt(p) => Some(p@),
        }
    }
}

/// What an [`Event`] holds.
pub enum EventView {
    Outcome(Option<(MessageKind, Seq<char>)>),
    Error(Seq<char>),
    SessionStarted,
}

impl View for Event {
    type V = EventView;

    open spec fn view(&self) -> EventView {
        match *self {
            Event::Outcome(o) => EventView::Outcome(o@),
            Event::Error(m) => EventView::Error(m@),
            Event::SessionStarted => EventView::SessionStarted,
        }
    }
}

/// What an event holds, where there is one.
pub open spec fn event_view(e: Option<Event>) -> Option<EventView> {
    match e {
        Some(e) => Some(e@),
        None => None,
    }
}

impl GreetdError {
    /// The error in words.
    pub open spec fn words(self) -> Seq<char> {
        match self {
            GreetdError::NoSocketEnv =>
                "$GREETD_SOCK is not set — breadgreet must be launched by greetd"@,
            GreetdError::Connect(cause) => "failed to connect to greetd socket: "@ + cause@,
            GreetdError::Codec(cause) => "greetd IPC error: "@ + cause@,
            GreetdError::Greetd { description, is_auth_error } => description@,
        }
    }

    /// The error in words.
    pub fn message(&self) -> (r: String)
        ensures
            r@ == self.words(),
    {
        match self {
            GreetdError::NoSocketEnv =>
                "$GREETD_SOCK is not set — breadgreet must be launched by greetd".to_owned(),
            GreetdError::Connect(cause) => text::joined(
                "failed to connect to greetd socket: ",
                cause.as_str(),
            ),
            GreetdError::Codec(cause) => text::joined("greetd IPC error: ", cause.as_str()),
            GreetdError::Greetd { description, is_auth_error: _ } => description.clone(),
        }
    }

    /// Whether the connection is of no use any more: greetd itself did not
    /// answer.
    pub open spec fn breaks_connection(self) -> bool {
        !(self is Greetd)
    }
}

/// Whether the connection is of no use any more after that error.
pub fn is_connection_error(err: &GreetdError) -> (r: bool)
    ensures
        r == err.breaks_connection(),
{
    match err {
        GreetdError::Connect(_) | GreetdError::Codec(_) | GreetdError::NoSocketEnv => true,
        GreetdError::Greetd { .. } => false,
    }
}

// ---------------------------------------------------------------------------
// Answers
// ---------------------------------------------------------------------------

/// What an answer means to a request that is part of the login.
pub fn login_outcome(response: Response) -> (r: Result<Outcome, GreetdError>)
    ensures
        match response {
            Response::Success => r matches Ok(o) && o@ is None,
            Response::AuthMessage { kind, message } => r matches Ok(o) && o@ == Some(
                (kind, message@),
            ),
            Response::Error { is_auth_error, description } => r == Err::<Outcome, GreetdError>(
                GreetdError::Greetd { description, is_auth_error },
            ),
        },
{
    match response {
        Response::Success => Ok(Outcome::Success),
        Response::AuthMessage { kind, message } => Ok(
            Outcome::Prompt(
                match kind {
                    MessageKind::Visible => AuthPrompt::Visible(message),
                    MessageKind::Secret => AuthPrompt::Secret(message),
                    MessageKind::Info => AuthPrompt::Info(message),
                    MessageKind::Error => AuthPrompt::Error(message),
                },
            ),
        ),
        Response::Error { is_auth_error, description } => Err(
            GreetdError::Greetd { description, is_auth_error },
        ),
    }
}

/// What an answer means to the request to start the session.
pub fn start_outcome(response: Response) -> (r: Result<(), GreetdError>)
    ensures
        match response {
            Response::Success => r is Ok,
            Response::AuthMessage { kind, message } => r matches Err(e) && (
            e matches GreetdError::Greetd { description, is_auth_error } && description@
                == "greetd sent an unexpected auth message after StartSession"@ && !is_auth_error),
            Response::Error { is_auth_error, description } => r == Err::<(), GreetdError>(
                GreetdError::Greetd { description, is_auth_error },
            ),
        },
{
    match response {
        Response::Success => Ok(()),
        Response::Error { is_auth_error, description } => Err(
            GreetdError::Greetd { description, is_auth_error },
        ),
        Response::AuthMessage { .. } => Err(
            GreetdError::Greetd {
                description: "greetd sent an unexpected auth message after StartSession".to_owned(),
                is_auth_error: false,
            },
        ),
    }
}

/// What came of a command that was sent.
#[derive(Debug)]
pub enum CmdResult {
    Started,
    Roundtrip(Result<Outcome, GreetdError>),
}

/// What is told of a command's outcome.
pub open spec fn told(result: CmdResult) -> EventView {
    match result {
        CmdResult::Started => EventView::SessionStarted,
        CmdResult::Roundtrip(Ok(o)) => EventView::Outcome(o@),
        CmdResult::Roundtrip(Err(e)) => EventView::Error(e.words()),
    }
}

/// What an answer of greetd means to the request to start the session, or to one
/// that is part of the login.
pub open spec fn meaning(starts_session: bool, response: Response) -> EventView {
    match response {
        Response::Success => if starts_session {
            EventView::SessionStarted
        } else {
            EventView::Outcome(None)
        },
        Response::AuthMessage { kind, message } => if starts_session {
            EventView::Error("greetd sent an unexpected auth message after StartSession"@)
        } else {
            EventView::Outcome(Some((kind, message@)))
        },
        Response::Error { is_auth_error, description } => EventView::Error(description@),
    }
}

/// What came of a command, by greetd's answer or the failure to get one.
pub fn command_result(starts_session: bool, answer: Result<Response, GreetdError>) -> (r: CmdResult)
    ensures
        answer matches Err(e) ==> r == CmdResult::Roundtrip(Err(e)),
        answer matches Ok(a) ==> told(r) == meaning(starts_session, a),
        answer matches Ok(a) ==> if starts_session {
            match a {
                Response::Success => r == CmdResult::Started,
                Response::AuthMessage { kind, message } => r matches CmdResult::Roundtrip(
                    Err(e),
                ) && !e.breaks_connection() && e.words()
                    == "greetd sent an unexpected auth message after StartSession"@,
                Response::Error { is_auth_error, description } => r == CmdResult::Roundtrip(
                    Err(GreetdError::Greetd { description, is_auth_error }),
                ),
            }
        } else {
            match a {
                Response::Success => r matches CmdResult::Roundtrip(Ok(o)) && o@ is None,
                Response::AuthMessage { kind, message } => r matches CmdResult::Roundtrip(Ok(o))
                    && o@ == Some((kind, message@)),
                Response::Error { is_auth_error, description } => r == CmdResult::Roundtrip(
                    Err(GreetdError::Greetd { description, is_auth_error }),
                ),
            }
        },
{
    match answer {
        Err(e) => CmdResult::Roundtrip(Err(e)),
        Ok(a) => if starts_session {
            match start_outcome(a) {
                Ok(_) => CmdResult::Started,
                Err(e) => CmdResult::Roundtrip(Err(e)),
            }
        } else {
            CmdResult::Roundtrip(login_outcome(a))
        },
    }
}

// ---------------------------------------------------------------------------
// The connection
// ---------------------------------------------------------------------------

/// What the one who owns the connection does next.
#[derive(Debug)]
pub enum Step {
    /// Wait for the next command.
    Wait,
    /// Tell greetd to cancel, whatever it says to that. It may take as long for
    /// its answer as for any other.
    Cancel,
    /// Connect, and report how that went.
    Connect,
    /// Send the command, and report what came of it.
    Send(Command),
    /// Tell what happened.
    Tell(Event),
}

/// The one who owns the connection to greetd. A failure to connect, or a
/// connection that broke, ends nothing: the next command connects anew.
#[derive(Debug)]
pub struct Actor {
    pub connected: bool,
    /// The command that waits for a connection.
    pub pending: Option<Command>,
}

/// What is done with a command, with or without a connection: it is sent over
/// the one that there is, or over a new one, and without one there is nothing
/// to cancel.
pub open spec fn next_step(connected: bool, cmd: Command) -> Step {
    match cmd {
        Command::CancelSession => if connected {
            Step::Cancel
        } else {
            Step::Wait
        },
        _ => if connected {
            Step::Send(cmd)
        } else {
            Step::Connect
        },
    }
}

/// What is done once connecting succeeded; where it failed, the failure is told.
pub open spec fn after_connecting(result: Result<(), GreetdError>, pending: Option<Command>) -> Option<
    Step,
> {
    match (result, pending) {
        (Ok(_), Some(cmd)) => Some(Step::Send(cmd)),
        (Ok(_), None) => Some(Step::Wait),
        (Err(_), _) => None,
    }
}

/// Whether there is a connection after a command led to `result`.
pub open spec fn connected_after(connected: bool, result: CmdResult) -> bool {
    match result {
        CmdResult::Roundtrip(Err(e)) => connected && !e.breaks_connection(),
        _ => connected,
    }
}

/// What is told when greetd cannot be reached.
pub open spec fn unreachable_text(err: GreetdError) -> Seq<char> {
    "Cannot reach greetd: "@ + err.words()
}

fn cannot_reach(err: &GreetdError) -> (r: Event)
    ensures
        r@ == EventView::Error(unreachable_text(*err)),
{
    let message = err.message();
    Event::Error(text::joined("Cannot reach greetd: ", message.as_str()))
}

impl Actor {
    /// The state after the first attempt to connect, and what to tell of it.
    pub fn new(first: Result<(), GreetdError>) -> (r: (Actor, Option<Event>))
        ensures
            r.0.connected == first is Ok,
            r.0.pending is None,
            event_view(r.1) == (match first {
                Ok(_) => None,
                Err(e) => Some(EventView::Error(unreachable_text(e))),
            }),
    {
        match first {
            Ok(_) => (Actor { connected: true, pending: None }, None),
            Err(e) => (Actor { connected: false, pending: None }, Some(cannot_reach(&e))),
        }
    }

    /// A command came in. It is sent over the connection that there is, or over
    /// a new one; there is nothing to cancel without a connection.
    pub fn command(&mut self, cmd: Command) -> (r: Step)
        ensures
            final(self).connected == old(self).connected,
            r == next_step(old(self).connected, cmd),
            final(self).pending == (if r == Step::Connect {
                Some(cmd)
            } else {
                old(self).pending
            }),
    {
        match cmd {
            Command::CancelSession => if self.connected {
                Step::Cancel
            } else {
                Step::Wait
            },
            _ => if self.connected {
                Step::Send(cmd)
            } else {
                self.pending = Some(cmd);
                Step::Connect
            },
        }
    }

    /// The attempt to connect that a command asked for succeeded or failed. The
    /// command is sent, or given up with the reason.
    pub fn connected(&mut self, result: Result<(), GreetdError>) -> (r: Step)
        ensures
            final(self).connected == (result is Ok),
            final(self).pending is None,
            match after_connecting(result, old(self).pending) {
                Some(step) => r == step,
                None => r matches Step::Tell(event) && event@ == EventView::Error(
                    unreachable_text(result->Err_0),
                ),
            },
    {
        let pending = self.pending.take();
        match result {
            Ok(_) => {
                self.connected = true;
                match pending {
                    Some(cmd) => Step::Send(cmd),
                    None => Step::Wait,
                }
            },
            Err(e) => {
                self.connected = false;
                Step::Tell(cannot_reach(&e))
            },
        }
    }

    /// A command that was sent led to this. Returned is what to tell, and
    /// whether to cancel before telling it: an error that greetd answered with
    /// leaves a login half done, any other one ends the connection.
    pub fn replied(&mut self, result: CmdResult) -> (r: (bool, Event))
        ensures
            final(self).pending == old(self).pending,
            final(self).connected == connected_after(old(self).connected, result),
            r.1@ == told(result),
            r.0 ==> final(self).connected,
            match result {
                CmdResult::Started => r.1@ == EventView::SessionStarted && !r.0,
                CmdResult::Roundtrip(Ok(o)) => r.1@ == EventView::Outcome(o@) && !r.0,
                CmdResult::Roundtrip(Err(e)) => r.1@ == EventView::Error(e.words()) && r.0 == (
                !e.breaks_connection() && old(self).connected),
            },
    {
        match result {
            CmdResult::Started => (false, Event::SessionStarted),
            CmdResult::Roundtrip(Ok(o)) => (false, Event::Outcome(o)),
            CmdResult::Roundtrip(Err(e)) => {
                let event = Event::Error(e.message());
                if is_connection_error(&e) {
                    self.connected = false;
                    (false, event)
                } else {
                    (self.connected, event)
                }
            },
        }
    }

    /// greetd took longer than `timeout` for an answer. The connection is given
    /// up without cancelling, which would wait for another answer.
    pub fn timed_out(&mut self, timeout: &str) -> (r: Event)
        ensures
            !final(self).connected,
            final(self).pending == old(self).pending,
            r@ == EventView::Error("greetd did not respond within "@ + timeout@),
    {
        self.connected = false;
        Event::Error(text::joined("greetd did not respond within ", timeout))
    }

    /// greetd took too long to answer a cancel. The connection is given up;
    /// there is nothing to tell.
    pub fn cancel_timed_out(&mut self)
        ensures
            !final(self).connected,
            final(self).pending == old(self).pending,
    {
        self.connected = false;
    }
}

// ---------------------------------------------------------------------------
// What holds of every run
// ---------------------------------------------------------------------------

/// A connection that broke is replaced: the next command that needs one connects
/// anew, and is then sent.
pub proof fn law_broken_connection_is_replaced(connected: bool, err: GreetdError, cmd: Command)
    requires
        err.breaks_connection(),
        !(cmd is CancelSession),
    ensures
        next_step(connected_after(connected, CmdResult::Roundtrip(Err(err))), cmd)
            == Step::Connect,
        after_connecting(Ok(()), Some(cmd)) == Some(Step::Send(cmd)),
{
}

/// A connection that was given up because greetd was silent, to a command or to
/// a cancel, holds nothing up: the next command connects anew, and another cancel
/// waits for nobody.
pub proof fn law_silent_greetd_is_left(cmd: Command)
    ensures
        next_step(false, cmd) == (if cmd is CancelSession {
            Step::Wait
        } else {
            Step::Connect
        }),
        after_connecting(Ok(()), Some(cmd)) == Some(Step::Send(cmd)),
{
}

/// An error that greetd answered with keeps the connection: the next command is
/// sent over it.
pub proof fn law_answered_error_keeps_the_connection(
    description: String,
    is_auth_error: bool,
    cmd: Command,
)
    requires
        !(cmd is CancelSession),
    ensures
        next_step(
            connected_after(
                true,
                CmdResult::Roundtrip(Err(GreetdError::Greetd { description, is_auth_error })),
            ),
            cmd,
        ) == Step::Send(cmd),
{
}

/// Each answer is told as what it is: success completes the login, or starts the
/// session where that was asked; a message of greetd is passed on with its kind;
/// and an error with its own words. A message where the session should start is
/// an error.
pub proof fn law_answers_are_told_as_they_are(
    answer: Response,
    starts_session: bool,
)
    ensures
        answer is Success && !starts_session ==> meaning(starts_session, answer)
            == EventView::Outcome(None),
        answer is Success && starts_session ==> meaning(starts_session, answer)
            == EventView::SessionStarted,
        answer matches Response::AuthMessage { kind, message } ==> meaning(false, answer)
            == EventView::Outcome(Some((kind, message@))),
        answer is AuthMessage && starts_session ==> meaning(starts_session, answer)
            == EventView::Error("greetd sent an unexpected auth message after StartSession"@),
        answer matches Response::Error { description, .. } ==> meaning(starts_session, answer)
            == EventView::Error(description@),
{
}

/// An error of greetd is told in its own words; other errors say what failed,
/// and why. Where greetd cannot be reached, that is said before the error.
pub proof fn law_errors_say_why(err: GreetdError, cause: Seq<char>)
    ensures
        err matches GreetdError::Greetd { description, .. } && description@ == cause ==> err.words()
            == cause,
        err matches GreetdError::Connect(c) && c@ == cause ==> err.words()
            == "failed to connect to greetd socket: "@ + cause,
        err matches GreetdError::Codec(c) && c@ == cause ==> err.words() == "greetd IPC error: "@
            + cause,
        err is NoSocketEnv ==> err.words()
            == "$GREETD_SOCK is not set — breadgreet must be launched by greetd"@,
        unreachable_text(err) == "Cannot reach greetd: "@ + err.words(),
{
}

/// With a connection every command is sent over it, but for a cancel, which
/// waits for no answer that matters; without one every command but a cancel
/// connects first. Connecting sends the command that waited, and no other.
pub proof fn law_commands_are_sent(cmd: Command, err: GreetdError)
    ensures
        cmd is CreateSession || cmd is Respond || cmd is StartSession ==> {
            &&& next_step(true, cmd) == Step::Send(cmd)
            &&& next_step(false, cmd) == Step::Connect
        },
        cmd is CancelSession ==> next_step(true, cmd) == Step::Cancel && next_step(false, cmd)
            == Step::Wait,
        after_connecting(Ok(()), Some(cmd)) == Some(Step::Send(cmd)),
        after_connecting(Ok(()), None) == Some(Step::Wait),
        after_connecting(Err(err), Some(cmd)) is None,
{
}

/// A connection lasts through every answer of greetd, an error too, and ends
/// with every other error.
pub proof fn law_connection_lasts_while_greetd_answers(
    connected: bool,
    outcome: Outcome,
    err: GreetdError,
)
    ensures
        connected_after(connected, CmdResult::Started) == connected,
        connected_after(connected, CmdResult::Roundtrip(Ok(outcome))) == connected,
        err is Greetd ==> connected_after(connected, CmdResult::Roundtrip(Err(err))) == connected,
        err is Connect || err is Codec || err is NoSocketEnv ==> !connected_after(
            connected,
            CmdResult::Roundtrip(Err(err)),
        ),
        err.breaks_connection() == (err is Connect || err is Codec || err is NoSocketEnv),
{
}

} // verus!
