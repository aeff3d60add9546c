//! The password buffer, and which seat's keyboard fills it.

use crate::text;
use vstd::prelude::*;

verus! {

/// How many bytes are reserved for the password. What does not fit into the
/// reserved buffer is not typed, so that the buffer never moves and leaves a
/// copy behind.
pub const PASSWORD_CAP: usize = 256;

/// `zeroize::Zeroize::zeroize` on a string overwrites all bytes of its buffer
/// and leaves it empty. That the bytes are overwritten is left unsaid: what a
/// buffer holds beyond the string is not part of the string.
#[verifier::external_body]
pub(crate) fn wipe(s: &mut String)
    ensures
        final(s)@.len() == 0,
{
    zeroize::Zeroize::zeroize(s)
}

// ---------------------------------------------------------------------------
// Typing
// ---------------------------------------------------------------------------

/// Whether the password still fits into `room` bytes with `c` appended.
pub open spec fn fits(password: Seq<char>, c: char, room: int) -> bool {
    text::byte_len(password) + text::width(c) <= room
}

/// The password after `text` was typed into a buffer of `room` bytes: its
/// characters are appended, but for control characters, up to the first that
/// does not fit.
pub open spec fn typed(password: Seq<char>, text: Seq<char>, room: int) -> Seq<char>
    decreases text.len(),
{
    if text.len() == 0 {
        password
    } else if text::is_control(text[0]) {
        typed(password, text.skip(1), room)
    } else if fits(password, text[0], room) {
        typed(password.push(text[0]), text.skip(1), room)
    } else {
        password
    }
}

/// `text` without its control characters.
pub open spec fn printable(text: Seq<char>) -> Seq<char> {
    text.filter(|c: char| !text::is_control(c))
}

/// The password without its last character.
pub open spec fn backspaced(password: Seq<char>) -> Seq<char> {
    if password.len() == 0 {
        password
    } else {
        password.drop_last()
    }
}

/// Typing only ever appends, and never goes beyond the buffer.
pub proof fn law_typing_stays_in_buffer(password: Seq<char>, text: Seq<char>, room: int)
    requires
        text::byte_len(password) <= room,
    ensures
        text::byte_len(typed(password, text, room)) <= room,
        password.len() <= typed(password, text, room).len(),
        typed(password, text, room).take(password.len() as int) == password,
    decreases text.len(),
{
    if text.len() > 0 {
        if text::is_control(text[0]) {
            law_typing_stays_in_buffer(password, text.skip(1), room);
        } else if fits(password, text[0], room) {
            text::lemma_byte_len_push(password, text[0]);
            law_typing_stays_in_buffer(password.push(text[0]), text.skip(1), room);
            let out = typed(password.push(text[0]), text.skip(1), room);
            assert(out.take(password.len() as int) =~= out.take(
                (password.len() + 1) as int,
            ).drop_last());
            assert(password.push(text[0]).drop_last() =~= password);
        } else {
            assert(password.take(password.len() as int) =~= password);
        }
    } else {
        assert(password.take(password.len() as int) =~= password);
    }
}

proof fn lemma_byte_len_append(a: Seq<char>, b: Seq<char>)
    ensures
        text::byte_len(a + b) == text::byte_len(a) + text::byte_len(b),
    decreases b.len(),
{
    if b.len() == 0 {
        assert(a + b =~= a);
    } else {
        lemma_byte_len_append(a, b.drop_last());
        assert((a + b.drop_last()).push(b.last()) =~= a + b);
        assert(b.drop_last().push(b.last()) =~= b);
        text::lemma_byte_len_push(a + b.drop_last(), b.last());
        text::lemma_byte_len_push(b.drop_last(), b.last());
    }
}

proof fn lemma_printable_first(text: Seq<char>)
    requires
        text.len() > 0,
    ensures
        printable(text) == (if text::is_control(text[0]) {
            printable(text.skip(1))
        } else {
            seq![text[0]] + printable(text.skip(1))
        }),
{
    let keep = |c: char| !text::is_control(c);
    assert(text =~= seq![text[0]] + text.skip(1));
    Seq::filter_distributes_over_add(seq![text[0]], text.skip(1), keep);
    let one = seq![text[0]];
    reveal_with_fuel(Seq::filter, 2);
    assert(one.drop_last() =~= seq![]);
    assert(one.last() == text[0]);
    if keep(text[0]) {
        assert(one.filter(keep) =~= one);
    } else {
        assert(one.filter(keep) =~= seq![]);
        assert(one.filter(keep) + text.skip(1).filter(keep) =~= text.skip(1).filter(keep));
    }
}

/// Everything printable that fits is typed.
pub proof fn law_password_takes_what_fits(password: Seq<char>, text: Seq<char>, room: int)
    requires
        text::byte_len(password + printable(text)) <= room,
    ensures
        typed(password, text, room) == password + printable(text),
    decreases text.len(),
{
    if text.len() == 0 {
        assert(printable(text) =~= seq![]) by {
            reveal(Seq::filter);
        }
        assert(password + printable(text) =~= password);
    } else {
        lemma_printable_first(text);
        let rest = text.skip(1);
        if text::is_control(text[0]) {
            law_password_takes_what_fits(password, rest, room);
        } else {
            assert(password.push(text[0]) + printable(rest) =~= password + printable(text));
            lemma_byte_len_append(password.push(text[0]), printable(rest));
            text::lemma_byte_len_push(password, text[0]);
            law_password_takes_what_fits(password.push(text[0]), rest, room);
        }
    }
}

/// Appends `ch` where the password then still fits into `room` bytes.
pub fn push_within(password: &mut String, ch: char, room: usize) -> (pushed: bool)
    ensures
        pushed == fits(old(password)@, ch, room as int),
        final(password)@ == (if pushed {
            old(password)@.push(ch)
        } else {
            old(password)@
        }),
{
    let extra: usize = text::char_width(ch);
    let used: usize = text::str_bytes(password.as_str());
    if used > room || room - used < extra {
        return false;
    }
    password.push(ch);
    true
}

/// Appends `ch` where it fits into the buffer that the password already has.
/// How large that buffer is, the allocator decides; it is large enough for what
/// the password holds.
pub fn try_push_password(password: &mut String, ch: char) -> (pushed: bool)
    ensures
        exists|room: usize|
            text::byte_len(old(password)@) <= room && pushed == #[trigger] fits(
                old(password)@,
                ch,
                room as int,
            ),
        final(password)@ == (if pushed {
            old(password)@.push(ch)
        } else {
            old(password)@
        }),
{
    let room: usize = password.capacity();
    assert(fits(old(password)@, ch, room as int) == fits(password@, ch, room as int));
    push_within(password, ch, room)
}

/// How many characters the password has, which is not how many bytes.
pub fn password_char_count(password: &str) -> (r: usize)
    ensures
        r == password@.len(),
{
    password.unicode_len()
}

/// Types `input` into a password buffer of `room` bytes.
pub fn type_within(password: &mut String, input: &str, room: usize) -> (grew: bool)
    ensures
        final(password)@ == typed(old(password)@, input@, room as int),
        grew == (final(password)@.len() > old(password)@.len()),
{
    let mut grew = false;
    assert(input@.skip(0) =~= input@);
    for c in it: input.chars()
        invariant
            it.seq() == input@,
            typed(old(password)@, input@, room as int) == typed(
                password@,
                input@.skip(it.index()),
                room as int,
            ),
            grew == (password@.len() > old(password)@.len()),
            password@.len() >= old(password)@.len(),
    {
        assert(input@.skip(it.index())[0] == c);
        assert(input@.skip(it.index()).skip(1) =~= input@.skip(it.index() + 1));
        if !text::char_is_control(c) {
            if push_within(password, c, room) {
                grew = true;
            } else {
                return grew;
            }
        }
    }
    grew
}

/// Keeps the first `count` characters of the password. They move to a fresh
/// buffer of `room` bytes, and the old one is overwritten.
pub(crate) fn move_to_fresh(password: &mut String, count: usize, room: usize)
    requires
        count <= old(password)@.len(),
        room <= isize::MAX,
    ensures
        final(password)@ == old(password)@.take(count as int),
{
    let mut kept = String::with_capacity(room);
    let mut i: usize = 0;
    for c in it: password.as_str().chars()
        invariant
            it.seq() == old(password)@,
            password@ == old(password)@,
            count <= old(password)@.len(),
            i <= count,
            i == (if it.index() < count {
                it.index()
            } else {
                count as int
            }),
            kept@ == old(password)@.take(i as int),
    {
        if i < count {
            kept.push(c);
            assert(old(password)@.take(i as int).push(c) =~= old(password)@.take(i + 1));
            i += 1;
        }
    }
    wipe(password);
    *password = kept;
}

/// Takes the last character away. What was typed before moves to a fresh
/// buffer of the same size, and the old one is overwritten.
pub fn backspace(password: &mut String)
    ensures
        final(password)@ == backspaced(old(password)@),
{
    let count: usize = password_char_count(password.as_str());
    if count == 0 {
        return;
    }
    let held: usize = password.capacity();
    let room: usize = if held <= isize::MAX as usize {
        held
    } else {
        PASSWORD_CAP
    };
    move_to_fresh(password, count - 1, room);
    assert(password@ =~= old(password)@.drop_last());
}

/// Typing a character that fits and taking it back leaves the password as it
/// was.
pub proof fn law_backspace_undoes_typing(password: Seq<char>, c: char, room: int)
    requires
        !text::is_control(c),
        fits(password, c, room),
    ensures
        backspaced(typed(password, seq![c], room)) == password,
{
    assert(seq![c].skip(1) =~= seq![]);
    assert(typed(password.push(c), seq![c].skip(1), room) == password.push(c));
    assert(password.push(c).drop_last() =~= password);
}

// ---------------------------------------------------------------------------
// Seats
// ---------------------------------------------------------------------------

/// Whose keyboard is bound: the seat's number.
#[derive(Debug, Clone, Copy, PartialEq, Eq, Structural)]
pub struct KeyboardSeat {
    pub seat: Option<u32>,
}

impl KeyboardSeat {
    /// Whether a seat that gained a capability should have its keyboard bound:
    /// it is the keyboard, and none is bound yet.
    pub fn wants(&self, is_keyboard: bool) -> (r: bool)
        ensures
            r == (is_keyboard && self.seat is None),
    {
        is_keyboard && self.seat.is_none()
    }

    /// The keyboard of `seat` was bound.
    pub fn bound(&mut self, seat: u32)
        ensures
            final(self).seat == (if old(self).seat is None {
                Some(seat)
            } else {
                old(self).seat
            }),
    {
        if self.seat.is_none() {
            self.seat = Some(seat);
        }
    }

    /// `seat` went away, or lost its keyboard. Whether the bound keyboard has to
    /// be released: only where it was that seat's.
    pub fn lost(&mut self, seat: u32) -> (release: bool)
        ensures
            release == (old(self).seat == Some(seat)),
            final(self).seat == (if release {
                None
            } else {
                old(self).seat
            }),
    {
        match self.seat {
            Some(s) => if s == seat {
                self.seat = None;
                true
            } else {
                false
            },
            None => false,
        }
    }

    /// The next seat, from the place `from` on, whose keyboard to try: the first
    /// that has one, and none once a keyboard is bound. `seats` tells of each
    /// seat whether it has a keyboard.
    pub fn next_candidate(&self, seats: &Vec<bool>, from: usize) -> (r: Option<usize>)
        ensures
            self.seat is Some ==> r is None,
            self.seat is None && r is None ==> forall|i: int|
                from <= i < seats@.len() ==> !#[trigger] seats@[i],
            r matches Some(i) ==> {
                &&& from <= i < seats@.len()
                &&& seats@[i as int]
                &&& forall|j: int| from <= j < i ==> !#[trigger] seats@[j]
            },
    {
        if self.seat.is_some() {
            return None;
        }
        let mut i: usize = from;
        while i < seats.len()
            invariant
                self.seat is None,
                from <= i,
                forall|j: int| from <= j < i ==> !#[trigger] seats@[j],
            decreases seats@.len() - i,
        {
            if seats[i] {
                return Some(i);
            }
            i += 1;
        }
        None
    }
}

/// A character fits where the password with it takes no more bytes than there is
/// room for. One that does not is not typed, nor is anything behind it; a control
/// character is passed over.
pub proof fn law_typing_ends_where_it_does_not_fit(
    password: Seq<char>,
    c: char,
    rest: Seq<char>,
    room: int,
)
    ensures
        fits(password, c, room) <==> text::byte_len(password.push(c)) <= room,
        text::is_control(c) ==> typed(password, seq![c] + rest, room) == typed(
            password,
            rest,
            room,
        ),
        !text::is_control(c) && fits(password, c, room) ==> typed(password, seq![c] + rest, room)
            == typed(password.push(c), rest, room),
        !text::is_control(c) && !fits(password, c, room) ==> typed(password, seq![c] + rest, room)
            == password,
        typed(password, seq![], room) == password,
{
    text::lemma_byte_len_push(password, c);
    assert((seq![c] + rest).skip(1) =~= rest);
}

} // verus!
