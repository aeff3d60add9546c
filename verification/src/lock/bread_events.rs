//! The lock screen on the event bus: which commands it honours, and what it
//! announces. A command on the bus can lock the session, never unlock it.

use crate::text;
use vstd::prelude::*;

verus! {

/// The name under which the locker is known: events are `bread.lock.*`, commands
/// `bread.command.lock.*`.
pub const APP_ID: &'static str = "lock";

/// The name of the process that listens for commands while nothing is locked.
pub const LISTEN_APP: &'static str = "lock-listen";

/// Why a command to unlock is refused while the screen is locked.
pub const UNLOCK_REFUSED_WHILE_LOCKED: &'static str =
    "bus unlock cannot bypass PAM; authenticate at the lock screen";

/// An announcement on the bus.
#[derive(Debug, Clone, PartialEq, Eq)]
pub enum Notice {
    /// The compositor has locked the session.
    Locked,
    /// The session was unlocked.
    Unlocked,
    /// The command to lock was followed.
    LockDone,
    /// The command to lock could not be followed, for that reason.
    LockFailed(String),
    /// The command to unlock was followed: nothing is locked.
    UnlockDone,
    /// The command to unlock was refused, for that reason.
    UnlockFailed(String),
}

/// What a [`Notice`] is on the bus: the event's name, and the error that it
/// carries, where it carries one.
pub open spec fn on_bus(n: Notice) -> (Seq<char>, Option<Seq<char>>) {
    match n {
        Notice::Locked => ("bread.lock.locked"@, None),
        Notice::Unlocked => ("bread.lock.unlocked"@, None),
        Notice::LockDone => ("bread.lock.lock.done"@, None),
        Notice::LockFailed(e) => ("bread.lock.lock.failed"@, Some(e@)),
        Notice::UnlockDone => ("bread.lock.unlock.done"@, None),
        Notice::UnlockFailed(e) => ("bread.lock.unlock.failed"@, Some(e@)),
    }
}

impl Notice {
    /// The event's name.
    pub fn event(&self) -> (r: String)
        ensures
            r@ == on_bus(*self).0,
    {
        match self {
            Notice::Locked => "bread.lock.locked".to_owned(),
            Notice::Unlocked => "bread.lock.unlocked".to_owned(),
            Notice::LockDone => "bread.lock.lock.done".to_owned(),
            Notice::LockFailed(_) => "bread.lock.lock.failed".to_owned(),
            Notice::UnlockDone => "bread.lock.unlock.done".to_owned(),
            Notice::UnlockFailed(_) => "bread.lock.unlock.failed".to_owned(),
        }
    }

    /// The error that the event carries.
    pub fn error(&self) -> (r: Option<String>)
        ensures
            (match r {
                Some(e) => Some(e@),
                None => None,
            }) == on_bus(*self).1,
    {
        match self {
            Notice::LockFailed(e) => Some(e.clone()),
            Notice::UnlockFailed(e) => Some(e.clone()),
            _ => None,
        }
    }
}

// ---------------------------------------------------------------------------
// Whether a locker is running
// ---------------------------------------------------------------------------

/// What came of the attempt to be the only process of a name.
#[derive(Debug, Clone, Copy, PartialEq, Eq, Structural)]
pub enum Acquire {
    Acquired,
    HeldByOther,
    /// It could not be found out.
    Failed,
}

/// Whether another process holds the name. Where that could not be found out,
/// none does.
pub fn singleton_held(acquire: Acquire) -> (r: bool)
    ensures
        r == (acquire == Acquire::HeldByOther),
{
    match acquire {
        Acquire::HeldByOther => true,
        Acquire::Acquired | Acquire::Failed => false,
    }
}

/// Proof that this process is the locker, until it is given back.
#[derive(Debug)]
pub struct LockerRunningGuard;

impl LockerRunningGuard {
    /// This process stops being the locker.
    pub fn leave(self, running: &mut bool)
        ensures
            !*final(running),
    {
        *running = false;
    }
}

/// Makes this process the locker.
pub fn enter_lock_process(running: &mut bool) -> (r: LockerRunningGuard)
    ensures
        *final(running),
{
    *running = true;
    LockerRunningGuard
}

/// Whether the session is being locked: by this process, or by another that
/// holds the locker's name.
pub fn locker_is_running(running: bool, elsewhere: Acquire) -> (r: bool)
    ensures
        r == (running || elsewhere == Acquire::HeldByOther),
{
    running || singleton_held(elsewhere)
}

// ---------------------------------------------------------------------------
// Commands
// ---------------------------------------------------------------------------

/// What a command asks for.
#[derive(Debug, Clone, Copy, PartialEq, Eq, Structural)]
pub enum Verb {
    Lock,
    Unlock,
    /// Nothing that is honoured here.
    Unknown,
}

/// What the event of that name asks for.
pub open spec fn verb(event: Seq<char>) -> Verb {
    let prefix = "bread.command.lock."@;
    let rest = event.skip(prefix.len() as int);
    if !text::begins_with(event, prefix) {
        Verb::Unknown
    } else if rest == "lock"@ {
        Verb::Lock
    } else if rest == "unlock"@ {
        Verb::Unlock
    } else {
        Verb::Unknown
    }
}

/// What the event of that name asks for. Everything but the two commands is
/// ignored.
pub fn handle_command(event: &str) -> (r: Verb)
    ensures
        r == verb(event@),
{
    match text::strip_front(event, "bread.command.lock.") {
        Some(rest) => if text::same(rest.as_str(), "lock") {
            Verb::Lock
        } else if text::same(rest.as_str(), "unlock") {
            Verb::Unlock
        } else {
            Verb::Unknown
        },
        None => Verb::Unknown,
    }
}

/// What follows from a command to lock.
#[derive(Debug, Clone, PartialEq, Eq)]
pub enum LockStep {
    /// Start the locker, and hand what came of it to [`lock_started`].
    Start,
    Announce(Notice),
}

/// What follows from a command to lock: where a locker is running the command is
/// followed already, otherwise one is started.
pub fn honor_lock_command(locked: bool) -> (r: LockStep)
    ensures
        r == (if locked {
            LockStep::Announce(Notice::LockDone)
        } else {
            LockStep::Start
        }),
{
    if locked {
        LockStep::Announce(Notice::LockDone)
    } else {
        LockStep::Start
    }
}

/// What is announced once a locker was started, or could not be. That it was
/// started does not yet mean that the session is locked.
pub fn lock_started(result: Result<(), String>) -> (r: Notice)
    ensures
        r == (match result {
            Ok(_) => Notice::LockDone,
            Err(e) => Notice::LockFailed(e),
        }),
{
    match result {
        Ok(_) => Notice::LockDone,
        Err(e) => Notice::LockFailed(e),
    }
}

/// Follows a command to lock. `start` starts a locker, and is called only where
/// none is running.
pub fn honor_lock_command_with<F: FnOnce() -> Result<(), String>>(locked: bool, start: F) -> (r:
    Notice)
    requires
        !locked ==> start.requires(()),
    ensures
        locked ==> r == Notice::LockDone,
        !locked ==> exists|result: Result<(), String>| #[trigger]
            start.ensures((), result) && r == (match result {
                Ok(_) => Notice::LockDone,
                Err(e) => Notice::LockFailed(e),
            }),
{
    match honor_lock_command(locked) {
        LockStep::Announce(notice) => notice,
        LockStep::Start => lock_started(start()),
    }
}

/// What is announced after a command to unlock. With nothing locked there is
/// nothing to do; a screen that is locked stays so.
pub fn honor_unlock_command(locked: bool) -> (r: Notice)
    ensures
        !locked ==> r == Notice::UnlockDone,
        locked ==> (r matches Notice::UnlockFailed(e) && e@ == UNLOCK_REFUSED_WHILE_LOCKED@),
{
    if !locked {
        Notice::UnlockDone
    } else {
        Notice::UnlockFailed(UNLOCK_REFUSED_WHILE_LOCKED.to_owned())
    }
}

/// Two names on the bus are the same only where the announcements are of the
/// same kind: who waits for one does not mistake another for it.
pub proof fn law_notices_have_names_of_their_own(a: Notice, b: Notice)
    requires
        on_bus(a).0 == on_bus(b).0,
    ensures
        a is Locked == b is Locked,
        a is Unlocked == b is Unlocked,
        a is LockDone == b is LockDone,
        a is LockFailed == b is LockFailed,
        a is UnlockDone == b is UnlockDone,
        a is UnlockFailed == b is UnlockFailed,
{
    reveal_strlit("bread.lock.locked");
    reveal_strlit("bread.lock.unlocked");
    reveal_strlit("bread.lock.lock.done");
    reveal_strlit("bread.lock.lock.failed");
    reveal_strlit("bread.lock.unlock.done");
    reveal_strlit("bread.lock.unlock.failed");
    assert("bread.lock.locked"@.len() == 17);
    assert("bread.lock.unlocked"@.len() == 19);
    assert("bread.lock.lock.done"@.len() == 20);
    assert("bread.lock.lock.failed"@.len() == 22);
    assert("bread.lock.unlock.done"@.len() == 22);
    assert("bread.lock.unlock.failed"@.len() == 24);
    assert("bread.lock.lock.failed"@[11] == 'l');
    assert("bread.lock.unlock.done"@[11] == 'u');
}

/// Two names on the bus are commands: one locks, one asks to unlock, and
/// everything else is ignored.
pub proof fn law_two_commands_are_honoured(event: Seq<char>)
    ensures
        verb(event) == Verb::Lock <==> event == "bread.command.lock.lock"@,
        verb(event) == Verb::Unlock <==> event == "bread.command.lock.unlock"@,
{
    let prefix = "bread.command.lock."@;
    let n = prefix.len() as int;
    reveal_strlit("bread.command.lock.");
    reveal_strlit("lock");
    reveal_strlit("unlock");
    reveal_strlit("bread.command.lock.lock");
    reveal_strlit("bread.command.lock.unlock");
    let lock = "bread.command.lock.lock"@;
    let unlock = "bread.command.lock.unlock"@;
    assert(lock =~= prefix + "lock"@);
    assert(unlock =~= prefix + "unlock"@);
    assert(lock.take(n) =~= prefix && lock.skip(n) =~= "lock"@);
    assert(unlock.take(n) =~= prefix && unlock.skip(n) =~= "unlock"@);
    assert("lock"@.len() != "unlock"@.len());
    if text::begins_with(event, prefix) {
        assert(event =~= event.take(n) + event.skip(n));
    }
}

/// Each announcement has its name on the bus, and the two failures carry their
/// reason.
pub proof fn law_notices_are_announced(n: Notice)
    ensures
        n is Locked ==> on_bus(n) == ("bread.lock.locked"@, None::<Seq<char>>),
        n is Unlocked ==> on_bus(n) == ("bread.lock.unlocked"@, None::<Seq<char>>),
        n is LockDone ==> on_bus(n) == ("bread.lock.lock.done"@, None::<Seq<char>>),
        n is UnlockDone ==> on_bus(n) == ("bread.lock.unlock.done"@, None::<Seq<char>>),
        n matches Notice::LockFailed(e) ==> on_bus(n) == ("bread.lock.lock.failed"@, Some(e@)),
        n matches Notice::UnlockFailed(e) ==> on_bus(n) == ("bread.lock.unlock.failed"@, Some(e@)),
{
}

} // verus!
