//! Colours, as the palette writes them.

use vstd::prelude::*;

verus! {

/// The value of a hexadecimal digit.
pub open spec fn digit(b: u8) -> Option<int> {
    if 0x30 <= b <= 0x39 {
        Some(b - 0x30)
    } else if 0x41 <= b <= 0x46 {
        Some(b - 0x41 + 10)
    } else if 0x61 <= b <= 0x66 {
        Some(b - 0x61 + 10)
    } else {
        None
    }
}

/// Whether `h` writes a colour: six hexadecimal digits.
pub open spec fn is_color(h: Seq<u8>) -> bool {
    h.len() == 6 && forall|i: int| 0 <= i < 6 ==> digit(#[trigger] h[i]) is Some
}

/// The number that the digits at `i` and `i + 1` of `h` write.
pub open spec fn channel(h: Seq<u8>, i: int) -> int {
    digit(h[i])->0 * 16 + digit(h[i + 1])->0
}

/// `h` without the number signs at its front.
pub open spec fn after_hashes(h: Seq<u8>) -> Seq<u8>
    decreases h.len(),
{
    if h.len() > 0 && h[0] == 0x23 {
        after_hashes(h.skip(1))
    } else {
        h
    }
}

/// The colour that `hex` writes: red, green, blue. Black where it writes none.
pub open spec fn color_of(hex: Seq<char>) -> (int, int, int) {
    let h = after_hashes(vstd::utf8::encode_utf8(hex));
    if is_color(h) {
        (channel(h, 0), channel(h, 2), channel(h, 4))
    } else {
        (0, 0, 0)
    }
}

/// The value of a hexadecimal digit.
fn digit_of(b: u8) -> (r: Option<u8>)
    ensures
        r is Some <==> digit(b) is Some,
        r matches Some(v) ==> Some(v as int) == digit(b) && v < 16,
{
    if 0x30 <= b && b <= 0x39 {
        Some(b - 0x30)
    } else if 0x41 <= b && b <= 0x46 {
        Some(b - 0x41 + 10)
    } else if 0x61 <= b && b <= 0x66 {
        Some(b - 0x61 + 10)
    } else {
        None
    }
}

/// The number that two digits write, where they are digits.
fn channel_of(high: u8, low: u8) -> (r: Option<u8>)
    ensures
        r is Some <==> digit(high) is Some && digit(low) is Some,
        r matches Some(v) ==> v == digit(high)->0 * 16 + digit(low)->0,
{
    match (digit_of(high), digit_of(low)) {
        (Some(h), Some(l)) => Some(h * 16 + l),
        _ => None,
    }
}

/// Reads a colour written `#rrggbb`. The number sign may be missing; anything
/// else that is not six hexadecimal digits gives black.
pub fn parse_hex(hex: &str) -> (r: (u8, u8, u8))
    ensures
        (r.0 as int, r.1 as int, r.2 as int) == color_of(hex@),
{
    let bytes = hex.as_bytes();
    let mut start: usize = 0;
    assert(bytes@.skip(0) =~= bytes@);
    while start < bytes.len() && bytes[start] == 0x23
        invariant
            start <= bytes@.len(),
            after_hashes(bytes@.skip(start as int)) == after_hashes(bytes@),
        decreases bytes@.len() - start,
    {
        assert(bytes@.skip(start as int).skip(1) =~= bytes@.skip(start + 1));
        start += 1;
    }
    let ghost h = bytes@.skip(start as int);
    if bytes.len() - start != 6 {
        return (0, 0, 0);
    }
    let red = channel_of(bytes[start], bytes[start + 1]);
    let green = channel_of(bytes[start + 2], bytes[start + 3]);
    let blue = channel_of(bytes[start + 4], bytes[start + 5]);
    assert(h[0] == bytes@[start as int] && h[1] == bytes@[start + 1] && h[2] == bytes@[start + 2]
        && h[3] == bytes@[start + 3] && h[4] == bytes@[start + 4] && h[5] == bytes@[start + 5]);
    match (red, green, blue) {
        (Some(r), Some(g), Some(b)) => (r, g, b),
        _ => (0, 0, 0),
    }
}

// ---------------------------------------------------------------------------
// What is read
// ---------------------------------------------------------------------------

/// The number that a hexadecimal digit stands for, in either case; -1 for what
/// is none.
pub open spec fn hex_value(c: char) -> int {
    if '0' <= c <= '9' {
        c as int - '0' as int
    } else if 'a' <= c <= 'f' {
        c as int - 'a' as int + 10
    } else if 'A' <= c <= 'F' {
        c as int - 'A' as int + 10
    } else {
        -1
    }
}

proof fn lemma_char_is_not_negative(c: char)
    ensures
        '\0' <= c,
{
}

proof fn lemma_ascii_bytes(s: Seq<char>)
    requires
        forall|i: int| 0 <= i < s.len() ==> (#[trigger] s[i]) <= '\u{7f}',
    ensures
        vstd::utf8::encode_utf8(s).len() == s.len(),
        forall|i: int|
            0 <= i < s.len() ==> (#[trigger] vstd::utf8::encode_utf8(s)[i]) as int == s[i] as int,
{
    assert forall|i: int| 0 <= i < s.len() implies '\0' <= #[trigger] s[i] <= '\u{7f}' by {
        lemma_char_is_not_negative(s[i]);
    }
    assert(vstd::utf8::is_ascii_chars(s));
    vstd::utf8::is_ascii_chars_encode_utf8(s);
}

/// Six hexadecimal digits are read as red, green and blue, two digits each, in
/// either case.
pub proof fn law_six_digits_are_a_colour(s: Seq<char>)
    requires
        s.len() == 6,
        forall|i: int| 0 <= i < 6 ==> hex_value(#[trigger] s[i]) >= 0,
    ensures
        color_of(s) == (
            hex_value(s[0]) * 16 + hex_value(s[1]),
            hex_value(s[2]) * 16 + hex_value(s[3]),
            hex_value(s[4]) * 16 + hex_value(s[5]),
        ),
{
    assert forall|i: int| 0 <= i < s.len() implies (#[trigger] s[i]) <= '\u{7f}' by {
        assert(hex_value(s[i]) >= 0);
    }
    lemma_ascii_bytes(s);
    let h = vstd::utf8::encode_utf8(s);
    assert forall|i: int| 0 <= i < 6 implies digit(#[trigger] h[i]) == Some(hex_value(s[i])) by {
        assert(h[i] as int == s[i] as int);
        assert(hex_value(s[i]) >= 0);
    }
    assert(h[0] as int == s[0] as int);
    assert(after_hashes(h) == h);
    assert(digit(h[0]) is Some && digit(h[1]) is Some && digit(h[2]) is Some);
    assert(digit(h[3]) is Some && digit(h[4]) is Some && digit(h[5]) is Some);
}

/// Number signs at the front make no difference, however many.
pub proof fn law_number_signs_make_no_difference(s: Seq<char>)
    ensures
        color_of(seq!['#'] + s) == color_of(s),
{
    let t = seq!['#'] + s;
    let g = vstd::utf8::encode_utf8(t);
    let h = vstd::utf8::encode_utf8(s);
    assert(t.drop_first() =~= s);
    assert(0x23u32 & 0x7f == 0x23u32) by (bit_vector);
    assert(t[0] as u32 == 0x23u32);
    assert(vstd::utf8::encode_scalar(0x23u32) =~= seq![0x23u8]);
    assert(g =~= seq![0x23u8] + h);
    assert(g.skip(1) =~= h);
}

/// What is not six hexadecimal digits is black: what is longer or shorter, and
/// what holds another character.
pub proof fn law_everything_else_is_black(s: Seq<char>, i: int)
    requires
        forall|i: int| 0 <= i < s.len() ==> (#[trigger] s[i]) <= '\u{7f}' && s[i] != '#',
        s.len() != 6 || (0 <= i < 6 && hex_value(s[i]) < 0),
    ensures
        color_of(s) == (0int, 0int, 0int),
{
    lemma_ascii_bytes(s);
    let h = vstd::utf8::encode_utf8(s);
    if s.len() > 0 {
        assert(h[0] as int == s[0] as int);
        assert(s[0] != '#');
    }
    assert(after_hashes(h) == h);
    if s.len() == 6 {
        assert(h[i] as int == s[i] as int);
        assert(digit(h[i]) is None);
    }
}

} // verus!
