//! What the program was started for.

use crate::lock::bread_events::Acquire;
use crate::text;
use vstd::prelude::*;

verus! {

/// What the program was started for.
#[derive(Debug, Clone, Copy, PartialEq, Eq, Structural)]
pub enum Mode {
    /// Lock the session.
    Lock,
    /// Listen for commands.
    Listen,
    /// Say how it is used.
    Help,
}

/// What the arguments ask for, or what is wrong with them.
pub open spec fn mode(args: Seq<Seq<char>>) -> Result<Mode, Seq<char>> {
    if args.len() == 0 {
        Ok(Mode::Lock)
    } else if args[0] == "listen"@ {
        if args.len() == 1 {
            Ok(Mode::Listen)
        } else {
            Err("listen takes no arguments"@)
        }
    } else if args[0] == "-h"@ || args[0] == "--help"@ || args[0] == "help"@ {
        Ok(Mode::Help)
    } else {
        Err("unknown argument '"@ + args[0] + "'"@)
    }
}

/// What the arguments ask for. Without any, the session is locked.
pub fn parse_mode(args: &Vec<String>) -> (r: Result<Mode, String>)
    ensures
        match mode(text::views(args@)) {
            Ok(m) => r == Ok::<Mode, String>(m),
            Err(e) => r matches Err(s) && s@ == e,
        },
{
    assert(text::views(args@).len() == args@.len());
    if args.len() == 0 {
        return Ok(Mode::Lock);
    }
    assert(text::views(args@)[0] == args@[0]@);
    let first = args[0].as_str();
    if text::same(first, "listen") {
        if args.len() == 1 {
            Ok(Mode::Listen)
        } else {
            Err("listen takes no arguments".to_owned())
        }
    } else if text::same(first, "-h") || text::same(first, "--help") || text::same(first, "help") {
        Ok(Mode::Help)
    } else {
        let head = text::joined("unknown argument '", first);
        Err(text::joined(head.as_str(), "'"))
    }
}

/// What to do after the attempt to be the only one.
#[derive(Debug, Clone, Copy, PartialEq, Eq, Structural)]
pub enum Start {
    Run,
    /// There is another: nothing is left to do.
    Leave,
    Fail,
}

/// Whether the locker runs. Not to lock would be worse than to lock without
/// knowing of others, so it does where that could not be found out.
pub fn locker_start(acquire: Acquire) -> (r: Start)
    ensures
        r == (if acquire == Acquire::HeldByOther {
            Start::Leave
        } else {
            Start::Run
        }),
{
    match acquire {
        Acquire::HeldByOther => Start::Leave,
        Acquire::Acquired | Acquire::Failed => Start::Run,
    }
}

/// Whether the process that listens for commands runs.
pub fn listener_start(acquire: Acquire) -> (r: Start)
    ensures
        r == (match acquire {
            Acquire::Acquired => Start::Run,
            Acquire::HeldByOther => Start::Leave,
            Acquire::Failed => Start::Fail,
        }),
{
    match acquire {
        Acquire::Acquired => Start::Run,
        Acquire::HeldByOther => Start::Leave,
        Acquire::Failed => Start::Fail,
    }
}

/// How often the display is waited for.
pub const DISPLAY_TRIES: u32 = 20;

/// The time between two looks for the display, in milliseconds.
pub const DISPLAY_WAIT_MS: u64 = 500;

/// What the process that listens does before it has a display.
#[derive(Debug, Clone, Copy, PartialEq, Eq, Structural)]
pub enum Wait {
    /// There is a display: go on.
    Go,
    /// Look again after that many milliseconds.
    Sleep(u64),
    /// Go on without one.
    GiveUp,
}

/// Whether to wait for the display that the lockers need, after as many tries.
/// A listener that starts early in the session comes before it.
pub fn display_wait(tries: u32, is_set: bool) -> (r: Wait)
    ensures
        r == (if is_set {
            Wait::Go
        } else if tries < DISPLAY_TRIES {
            Wait::Sleep(DISPLAY_WAIT_MS)
        } else {
            Wait::GiveUp
        }),
{
    if is_set {
        Wait::Go
    } else if tries < DISPLAY_TRIES {
        Wait::Sleep(DISPLAY_WAIT_MS)
    } else {
        Wait::GiveUp
    }
}

/// Without arguments the session is locked; the one argument `listen` listens,
/// one of three asks for help, whatever follows it, and everything else is
/// refused with the argument's name.
pub proof fn law_arguments_are_understood(args: Seq<Seq<char>>)
    ensures
        mode(args) == Ok::<Mode, Seq<char>>(Mode::Lock) <==> args.len() == 0,
        mode(args) == Ok::<Mode, Seq<char>>(Mode::Listen) <==> args.len() == 1 && args[0]
            == "listen"@,
        mode(args) == Ok::<Mode, Seq<char>>(Mode::Help) <==> args.len() > 0 && (args[0] == "-h"@
            || args[0] == "--help"@ || args[0] == "help"@),
        args.len() > 1 && args[0] == "listen"@ ==> mode(args) == Err::<Mode, Seq<char>>(
            "listen takes no arguments"@,
        ),
        args.len() > 0 && args[0] != "listen"@ && args[0] != "-h"@ && args[0] != "--help"@
            && args[0] != "help"@ ==> mode(args) == Err::<Mode, Seq<char>>(
            "unknown argument '"@ + args[0] + "'"@,
        ),
{
    reveal_strlit("listen");
    reveal_strlit("-h");
    reveal_strlit("--help");
    reveal_strlit("help");
    if args.len() > 0 && args[0] == "listen"@ {
        assert(args[0].len() == 6);
        assert(args[0][0] == 'l');
        assert("--help"@[0] == '-');
    }
}

} // verus!
