//! Who is authenticated, and what the outcome of an attempt is.

use crate::lock::keyboard::wipe;
use vstd::prelude::*;

verus! {

/// The PAM service that the password is checked against.
pub const SERVICE: &'static str = "breadlock";

/// How long an attempt may take, in seconds, before it counts as failed.
pub const PAM_TIMEOUT_SECS: u64 = 30;

/// Why an attempt failed.
#[derive(Debug, Clone, Copy, PartialEq, Eq, Structural)]
pub enum AuthError {
    /// The password was not accepted.
    Authenticate,
    /// The account is locked, expired or otherwise not valid.
    AccountInvalid,
    /// PAM could not be set up.
    ContextInit,
}

/// The outcome of an attempt.
pub type AuthResult = Result<(), AuthError>;

impl AuthError {
    /// The error in words.
    pub open spec fn words(self) -> Seq<char> {
        match self {
            AuthError::Authenticate => "PAM authentication failed"@,
            AuthError::AccountInvalid => "PAM account validation failed (expired, locked, etc.)"@,
            AuthError::ContextInit => "failed to initialize PAM context"@,
        }
    }

    /// The error in words.
    pub fn message(&self) -> (r: String)
        ensures
            r@ == self.words(),
    {
        match self {
            AuthError::Authenticate => "PAM authentication failed".to_owned(),
            AuthError::AccountInvalid =>
                "PAM account validation failed (expired, locked, etc.)".to_owned(),
            AuthError::ContextInit => "failed to initialize PAM context".to_owned(),
        }
    }
}

// ---------------------------------------------------------------------------
// An attempt
// ---------------------------------------------------------------------------

/// Where an attempt stands.
#[derive(Debug, Clone, Copy, PartialEq, Eq)]
pub enum Attempt {
    /// PAM is being set up.
    Starting,
    /// The password is being checked.
    Authenticating,
    /// The account is being checked.
    CheckingAccount,
    /// The attempt is over.
    Done(AuthResult),
}

/// What the attempt is after a step of it succeeded or failed.
pub open spec fn advanced(a: Attempt, ok: bool) -> Attempt {
    match a {
        Attempt::Starting => if ok {
            Attempt::Authenticating
        } else {
            Attempt::Done(Err(AuthError::ContextInit))
        },
        Attempt::Authenticating => if ok {
            Attempt::CheckingAccount
        } else {
            Attempt::Done(Err(AuthError::Authenticate))
        },
        Attempt::CheckingAccount => if ok {
            Attempt::Done(Ok(()))
        } else {
            Attempt::Done(Err(AuthError::AccountInvalid))
        },
        Attempt::Done(_) => a,
    }
}

impl Attempt {
    /// A step of the attempt succeeded or failed.
    pub fn advance(self, ok: bool) -> (r: Attempt)
        ensures
            r == advanced(self, ok),
    {
        match self {
            Attempt::Starting => if ok {
                Attempt::Authenticating
            } else {
                Attempt::Done(Err(AuthError::ContextInit))
            },
            Attempt::Authenticating => if ok {
                Attempt::CheckingAccount
            } else {
                Attempt::Done(Err(AuthError::Authenticate))
            },
            Attempt::CheckingAccount => if ok {
                Attempt::Done(Ok(()))
            } else {
                Attempt::Done(Err(AuthError::AccountInvalid))
            },
            Attempt::Done(_) => self,
        }
    }
}

/// An attempt succeeds only where PAM was set up, the password was accepted and
/// the account is valid.
pub proof fn law_success_needs_every_step(context: bool, password: bool, account: bool)
    ensures
        advanced(advanced(advanced(Attempt::Starting, context), password), account)
            == Attempt::Done(Ok(())) <==> context && password && account,
        advanced(advanced(advanced(Attempt::Starting, context), password), account) is Done,
{
}

/// The outcome of an attempt that answered in time, or did not.
pub fn timed_outcome(answer: Option<AuthResult>) -> (r: AuthResult)
    ensures
        r == (match answer {
            Some(a) => a,
            None => Err(AuthError::Authenticate),
        }),
{
    match answer {
        Some(a) => a,
        None => Err(AuthError::Authenticate),
    }
}

// ---------------------------------------------------------------------------
// Who
// ---------------------------------------------------------------------------

/// A name, where there is one and it is not empty.
pub open spec fn name_in(s: Option<&str>) -> Option<Seq<char>> {
    match s {
        Some(t) => if t@.len() > 0 {
            Some(t@)
        } else {
            None
        },
        None => None,
    }
}

/// The first of three names that is not empty: the one of the account database,
/// `$USER`, `$LOGNAME`.
pub open spec fn picked(
    passwd: Option<&str>,
    user: Option<&str>,
    logname: Option<&str>,
) -> Option<Seq<char>> {
    if name_in(passwd) is Some {
        name_in(passwd)
    } else if name_in(user) is Some {
        name_in(user)
    } else {
        name_in(logname)
    }
}

fn named(s: Option<&str>) -> (r: Option<String>)
    ensures
        (match r {
            Some(t) => Some(t@),
            None => None,
        }) == name_in(s),
{
    match s {
        Some(t) => if t.is_empty() {
            None
        } else {
            Some(t.to_owned())
        },
        None => None,
    }
}

/// The name to authenticate: the first that is not empty of the account
/// database's, `$USER` and `$LOGNAME`.
pub fn pick_username(passwd: Option<&str>, user: Option<&str>, logname: Option<&str>) -> (r: Option<
    String,
>)
    ensures
        (match r {
            Some(t) => Some(t@),
            None => None,
        }) == picked(passwd, user, logname),
{
    let first = named(passwd);
    if first.is_some() {
        return first;
    }
    let second = named(user);
    if second.is_some() {
        return second;
    }
    named(logname)
}

/// The bytes before the first that is zero.
pub open spec fn before_nul(bytes: Seq<u8>) -> Seq<u8>
    decreases bytes.len(),
{
    if bytes.len() == 0 || bytes[0] == 0 {
        seq![]
    } else {
        seq![bytes[0]] + before_nul(bytes.skip(1))
    }
}

/// `core::str::from_utf8` takes bytes for text exactly where they are valid
/// UTF-8, and the text is what they encode.
#[verifier::external_body]
fn utf8_text(bytes: &[u8]) -> (r: Option<String>)
    ensures
        r is Some <==> vstd::utf8::valid_utf8(bytes@),
        r matches Some(s) ==> s@ == vstd::utf8::decode_utf8(bytes@),
{
    match core::str::from_utf8(bytes) {
        Ok(s) => Some(String::from(s)),
        Err(_) => None,
    }
}

/// The login name that the account database holds as bytes up to a zero byte.
/// None where there are no bytes, where they are not UTF-8, and where the name
/// is empty.
pub fn cstr_to_username(raw: Option<&[u8]>) -> (r: Option<String>)
    ensures
        r is Some <==> (raw matches Some(b) && before_nul(b@).len() > 0 && vstd::utf8::valid_utf8(
            before_nul(b@),
        )),
        r matches Some(s) ==> s@ == vstd::utf8::decode_utf8(before_nul(raw->0@)),
{
    let bytes = match raw {
        Some(b) => b,
        None => {
            return None;
        },
    };
    let mut name: Vec<u8> = Vec::new();
    let mut i: usize = 0;
    assert(bytes@.skip(0) =~= bytes@);
    while i < bytes.len() && bytes[i] != 0
        invariant
            i <= bytes@.len(),
            name@ + before_nul(bytes@.skip(i as int)) == before_nul(bytes@),
        decreases bytes@.len() - i,
    {
        proof {
            let rest = bytes@.skip(i as int);
            assert(rest.skip(1) =~= bytes@.skip(i + 1));
            assert(name@.push(bytes@[i as int]) + before_nul(rest.skip(1)) =~= name@ + (seq![
                rest[0],
            ] + before_nul(rest.skip(1))));
        }
        name.push(bytes[i]);
        i += 1;
    }
    assert(name@ =~= before_nul(bytes@));
    if name.len() == 0 {
        return None;
    }
    utf8_text(name.as_slice())
}

/// How large the buffer for a look-up begins, by what the system suggests.
pub fn first_buffer(suggested: i64) -> (r: usize)
    ensures
        r == (if suggested <= 0 || suggested > usize::MAX {
            1024int
        } else {
            suggested as int
        }),
{
    if suggested <= 0 || suggested as u64 > usize::MAX as u64 {
        1024
    } else {
        suggested as usize
    }
}

/// How large the buffer becomes after one of `len` bytes was too small: twice
/// as large, and 1024 bytes larger at least. None once it cannot grow.
pub fn next_buffer(len: usize) -> (r: Option<usize>)
    ensures
        r is None <==> len > usize::MAX - 1024,
        r matches Some(n) ==> n == (if len < 1024 {
            len + 1024
        } else if len * 2 <= usize::MAX {
            len * 2
        } else {
            usize::MAX as int
        }),
        r matches Some(n) ==> n > len,
{
    if len > usize::MAX - 1024 {
        return None;
    }
    let doubled: usize = if len > usize::MAX / 2 {
        usize::MAX
    } else {
        len * 2
    };
    Some(
        if doubled > len + 1024 {
            doubled
        } else {
            len + 1024
        },
    )
}

// ---------------------------------------------------------------------------
// A password that was typed as a line
// ---------------------------------------------------------------------------

/// Whether `c` is one of the two characters that a line ends with.
pub open spec fn is_line_end(c: char) -> bool {
    c == '\n' || c == '\r'
}

/// `line` without the characters that end it.
pub open spec fn without_line_end(line: Seq<char>) -> Seq<char>
    decreases line.len(),
{
    if line.len() > 0 && is_line_end(line.last()) {
        without_line_end(line.drop_last())
    } else {
        line
    }
}

/// The password on a line that was typed, without what ends the line. The line
/// is overwritten.
pub fn typed_password(line: &mut String) -> (r: String)
    ensures
        r@ == without_line_end(old(line)@),
        final(line)@.len() == 0,
{
    let len: usize = line.as_str().unicode_len();
    let mut count: usize = 0;
    let mut i: usize = 0;
    assert(line@.take(0) =~= seq![]);
    for c in it: line.as_str().chars()
        invariant
            it.seq() == line@,
            line@ == old(line)@,
            line@.len() == len,
            i == it.index(),
            count <= i,
            line@.take(count as int) == without_line_end(line@.take(i as int)),
    {
        assert(line@.take(i + 1).drop_last() =~= line@.take(i as int));
        i += 1;
        if c != '\n' && c != '\r' {
            count = i;
        }
    }
    assert(line@.take(i as int) =~= line@);
    let room: usize = line.capacity();
    let mut password = String::with_capacity(
        if room <= isize::MAX as usize {
            room
        } else {
            0
        },
    );
    let mut k: usize = 0;
    for c in it: line.as_str().chars()
        invariant
            it.seq() == line@,
            line@ == old(line)@,
            count <= line@.len() == len,
            k == it.index(),
            password@ == line@.take(if k < count {
                k as int
            } else {
                count as int
            }),
    {
        if k < count {
            password.push(c);
            assert(line@.take(k as int).push(c) =~= line@.take(k + 1));
        }
        k += 1;
    }
    wipe(line);
    password
}

// ---------------------------------------------------------------------------
// What holds of all of it
// ---------------------------------------------------------------------------

/// The first step that fails is why the attempt failed, and an attempt that is
/// over stays what it is.
pub proof fn law_first_failed_step_decides(later: bool, last: bool, result: AuthResult)
    ensures
        ({
            let three = |a: bool, b: bool, c: bool|
                advanced(advanced(advanced(Attempt::Starting, a), b), c);
            &&& three(false, later, last) == Attempt::Done(Err(AuthError::ContextInit))
            &&& three(true, false, last) == Attempt::Done(Err(AuthError::Authenticate))
            &&& three(true, true, false) == Attempt::Done(Err(AuthError::AccountInvalid))
            &&& three(true, true, true) == Attempt::Done(Ok(()))
        }),
        advanced(Attempt::Done(result), later) == Attempt::Done(result),
{
}

/// The account database's name comes before `$USER`, and that before `$LOGNAME`;
/// an empty one is none.
pub proof fn law_first_name_is_picked(
    passwd: Option<&str>,
    user: Option<&str>,
    logname: Option<&str>,
)
    ensures
        passwd matches Some(p) ==> p@.len() > 0 ==> picked(passwd, user, logname) == Some(p@),
        (passwd is None || (passwd->0)@.len() == 0) && (user matches Some(u) && u@.len() > 0)
            ==> picked(passwd, user, logname) == Some((user->0)@),
        (passwd is None || (passwd->0)@.len() == 0) && (user is None || (user->0)@.len() == 0) && (
        logname matches Some(l) && l@.len() > 0) ==> picked(passwd, user, logname) == Some(
            (logname->0)@,
        ),
        (passwd is None || (passwd->0)@.len() == 0) && (user is None || (user->0)@.len() == 0) && (
        logname is None || (logname->0)@.len() == 0) ==> picked(passwd, user, logname) is None,
{
}

/// A name reaches to the first zero byte, or to the end where there is none.
pub proof fn law_name_ends_at_the_zero(name: Seq<u8>, rest: Seq<u8>)
    requires
        !name.contains(0u8),
    ensures
        before_nul(name) == name,
        before_nul(name + seq![0u8] + rest) == name,
    decreases name.len(),
{
    let all = name + seq![0u8] + rest;
    if name.len() == 0 {
        assert(before_nul(name) =~= name);
        assert(all[0] == 0);
        assert(before_nul(all) =~= name);
    } else {
        let tail = name.skip(1);
        assert(name.contains(name[0]));
        assert forall|i: int| 0 <= i < tail.len() implies tail[i] != 0 by {
            assert(tail[i] == name[i + 1]);
            assert(name.contains(name[i + 1]));
        }
        law_name_ends_at_the_zero(tail, rest);
        assert(all[0] == name[0]);
        assert(all.skip(1) =~= tail + seq![0u8] + rest);
        assert(seq![name[0]] + tail =~= name);
    }
}

/// What ends a line is not part of the password: line feeds and carriage returns
/// at its end are dropped, however many, and nothing else is.
pub proof fn law_line_end_is_dropped(password: Seq<char>, end: Seq<char>)
    requires
        password.len() > 0 ==> password.last() != '\n' && password.last() != '\r',
        forall|i: int| 0 <= i < end.len() ==> #[trigger] end[i] == '\n' || end[i] == '\r',
    ensures
        without_line_end(password + end) == password,
    decreases end.len(),
{
    let all = password + end;
    if end.len() == 0 {
        assert(all =~= password);
    } else {
        let shorter = end.drop_last();
        assert forall|i: int| 0 <= i < shorter.len() implies #[trigger] shorter[i] == '\n'
            || shorter[i] == '\r' by {
            assert(shorter[i] == end[i]);
        }
        law_line_end_is_dropped(password, shorter);
        assert(all.last() == end[end.len() - 1]);
        assert(all.drop_last() =~= password + shorter);
    }
}

/// Each error says in words what failed.
pub proof fn law_errors_say_what_failed(e: AuthError)
    ensures
        e == AuthError::Authenticate ==> e.words() == "PAM authentication failed"@,
        e == AuthError::AccountInvalid ==> e.words()
            == "PAM account validation failed (expired, locked, etc.)"@,
        e == AuthError::ContextInit ==> e.words() == "failed to initialize PAM context"@,
{
}

} // verus!
