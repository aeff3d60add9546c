//! Text as the rest of the crate needs it: the `str` operations that the
//! parsers and formatters are built from, each stated over the sequence of
//! characters of its argument.

use vstd::prelude::*;

verus! {

/// `String::with_capacity` makes an empty string. That it has room for at least
/// `capacity` bytes is left unsaid: how much room a string has is not part of
/// what it holds, and beyond that bound the allocator decides.
pub assume_specification[ String::with_capacity ](capacity: usize) -> (s: String)
    requires
        capacity <= isize::MAX,
    ensures
        s@.len() == 0,
;

/// `String::capacity` gives the number of bytes that the string's buffer holds,
/// which is no less than the string has. More cannot be said: it depends on the
/// allocator.
pub assume_specification[ String::capacity ](s: &String) -> (n: usize)
    ensures
        n >= vstd::utf8::encode_utf8(s@).len(),
;

/// `String::push` appends one character to the end of the string.
pub assume_specification[ String::push ](s: &mut String, c: char)
    ensures
        final(s)@ == old(s)@.push(c),
;

// ---------------------------------------------------------------------------
// Characters
// ---------------------------------------------------------------------------

/// The Unicode `White_Space` property.
pub open spec fn is_space(c: char) -> bool {
    let n = c as u32;
    ||| 0x09 <= n <= 0x0d
    ||| n == 0x20
    ||| n == 0x85
    ||| n == 0xa0
    ||| n == 0x1680
    ||| 0x2000 <= n <= 0x200a
    ||| n == 0x2028
    ||| n == 0x2029
    ||| n == 0x202f
    ||| n == 0x205f
    ||| n == 0x3000
}

/// Whether `c` has the Unicode `White_Space` property.
pub fn char_is_space(c: char) -> (r: bool)
    ensures
        r == is_space(c),
{
    let n = c as u32;
    (0x09 <= n && n <= 0x0d) || n == 0x20 || n == 0x85 || n == 0xa0 || n == 0x1680 || (0x2000 <= n
        && n <= 0x200a) || n == 0x2028 || n == 0x2029 || n == 0x202f || n == 0x205f || n == 0x3000
}

/// The Unicode general category `Cc`.
pub open spec fn is_control(c: char) -> bool {
    let n = c as u32;
    n <= 0x1f || 0x7f <= n <= 0x9f
}

/// Whether `c` is a control character.
pub fn char_is_control(c: char) -> (r: bool)
    ensures
        r == is_control(c),
{
    let n = c as u32;
    n <= 0x1f || (0x7f <= n && n <= 0x9f)
}

/// `c` with the letters `A` to `Z` made small.
pub open spec fn ascii_lower(c: char) -> char {
    if 'A' <= c <= 'Z' {
        ((c as u32) + 32) as char
    } else {
        c
    }
}

/// The small ASCII letter for a capital one, any other character unchanged.
pub fn char_ascii_lower(c: char) -> (r: char)
    ensures
        r == ascii_lower(c),
{
    if 'A' <= c && c <= 'Z' {
        let n: u8 = (c as u8) + 32u8;
        n as char
    } else {
        c
    }
}

/// A test on characters that holds of `c` alone.
pub open spec fn equals(c: char) -> spec_fn(char) -> bool {
    |x: char| x == c
}

/// The test on characters for white space.
pub open spec fn space() -> spec_fn(char) -> bool {
    |x: char| is_space(x)
}

/// The test on characters for anything but white space.
pub open spec fn nonspace() -> spec_fn(char) -> bool {
    |x: char| !is_space(x)
}

// ---------------------------------------------------------------------------
// Strings as character vectors
// ---------------------------------------------------------------------------

/// What each string of a list holds.
pub open spec fn views(v: Seq<String>) -> Seq<Seq<char>> {
    v.map_values(|s: String| s@)
}

/// The characters of `s`, in order.
pub fn chars_of(s: &str) -> (out: Vec<char>)
    ensures
        out@ == s@,
{
    let mut out: Vec<char> = Vec::new();
    for c in it: s.chars()
        invariant
            out@ == s@.take(it.index()),
            it.seq() == s@,
    {
        out.push(c);
    }
    out
}

/// The string made of `cs[from..to]`.
pub fn string_of(cs: &Vec<char>, from: usize, to: usize) -> (out: String)
    requires
        from <= to <= cs@.len(),
    ensures
        out@ == cs@.subrange(from as int, to as int),
{
    let mut out = String::new();
    for i in from..to
        invariant
            from <= to <= cs@.len(),
            out@ == cs@.subrange(from as int, i as int),
    {
        out.push(cs[i]);
        assert(cs@.subrange(from as int, i as int).push(cs@[i as int]) =~= cs@.subrange(
            from as int,
            i + 1,
        ));
    }
    out
}

/// Whether two strings hold the same characters.
pub fn same(a: &str, b: &str) -> (r: bool)
    ensures
        r == (a@ == b@),
{
    let x = chars_of(a);
    let y = chars_of(b);
    if x.len() != y.len() {
        return false;
    }
    for i in 0..x.len()
        invariant
            x@ == a@,
            y@ == b@,
            x@.len() == y@.len(),
            forall|j: int| 0 <= j < i ==> x@[j] == y@[j],
    {
        if x[i] != y[i] {
            return false;
        }
    }
    assert(a@ =~= b@);
    true
}

/// `a` followed by `b`.
pub fn joined(a: &str, b: &str) -> (out: String)
    ensures
        out@ == a@ + b@,
{
    let mut out = a.to_owned();
    out.append(b);
    out
}

// ---------------------------------------------------------------------------
// Searching
// ---------------------------------------------------------------------------

/// The place of the first character of `s` that passes `p`, or the length of
/// `s` where none does.
pub open spec fn find(s: Seq<char>, p: spec_fn(char) -> bool) -> int
    decreases s.len(),
{
    if s.len() == 0 {
        0
    } else if p(s[0]) {
        0
    } else {
        1 + find(s.skip(1), p)
    }
}

/// `find` gives the first place that passes, and no other.
pub proof fn lemma_find(s: Seq<char>, p: spec_fn(char) -> bool)
    ensures
        0 <= find(s, p) <= s.len(),
        find(s, p) < s.len() ==> p(s[find(s, p)]),
        forall|j: int| 0 <= j < find(s, p) ==> !p(#[trigger] s[j]),
    decreases s.len(),
{
    if s.len() > 0 && !p(s[0]) {
        lemma_find(s.skip(1), p);
        let k = find(s.skip(1), p);
        assert forall|j: int| 0 <= j < find(s, p) implies !p(#[trigger] s[j]) by {
            if j > 0 {
                assert(s.skip(1)[j - 1] == s[j]);
            }
        }
        if k < s.skip(1).len() {
            assert(s.skip(1)[k] == s[k + 1]);
        }
    }
}

/// A place that passes, with none before it that does, is what `find` gives;
/// so is the length of `s` where no place passes.
pub proof fn lemma_find_is(s: Seq<char>, p: spec_fn(char) -> bool, i: int)
    requires
        0 <= i <= s.len(),
        i < s.len() ==> p(s[i]),
        forall|j: int| 0 <= j < i ==> !p(#[trigger] s[j]),
    ensures
        find(s, p) == i,
{
    lemma_find(s, p);
    let k = find(s, p);
    if k < i {
        assert(!p(s[k]));
    } else if i < k {
        assert(!p(s[i]));
    }
}

/// The first place at or after `from` that holds `c`, or the length of `cs`.
pub fn find_char(cs: &Vec<char>, from: usize, c: char) -> (r: usize)
    requires
        from <= cs@.len(),
    ensures
        from <= r <= cs@.len(),
        r == from + find(cs@.skip(from as int), equals(c)),
{
    let mut i = from;
    while i < cs.len() && cs[i] != c
        invariant
            from <= i <= cs@.len(),
            forall|j: int| from <= j < i ==> cs@[j] != c,
        decreases cs@.len() - i,
    {
        i += 1;
    }
    proof {
        lemma_find_is(cs@.skip(from as int), equals(c), i - from);
    }
    i
}

/// The first place at or after `from` that holds white space, or the length
/// of `cs`.
pub fn find_space(cs: &Vec<char>, from: usize) -> (r: usize)
    requires
        from <= cs@.len(),
    ensures
        from <= r <= cs@.len(),
        r == from + find(cs@.skip(from as int), space()),
{
    let mut i = from;
    while i < cs.len() && !char_is_space(cs[i])
        invariant
            from <= i <= cs@.len(),
            forall|j: int| from <= j < i ==> !is_space(cs@[j]),
        decreases cs@.len() - i,
    {
        i += 1;
    }
    proof {
        lemma_find_is(cs@.skip(from as int), space(), i - from);
    }
    i
}

/// The first place at or after `from` that holds anything but white space, or
/// the length of `cs`.
pub fn find_nonspace(cs: &Vec<char>, from: usize) -> (r: usize)
    requires
        from <= cs@.len(),
    ensures
        from <= r <= cs@.len(),
        r == from + find(cs@.skip(from as int), nonspace()),
{
    let mut i = from;
    while i < cs.len() && char_is_space(cs[i])
        invariant
            from <= i <= cs@.len(),
            forall|j: int| from <= j < i ==> is_space(cs@[j]),
        decreases cs@.len() - i,
    {
        i += 1;
    }
    proof {
        lemma_find_is(cs@.skip(from as int), nonspace(), i - from);
    }
    i
}

/// Whether `s` holds `c`.
pub fn has_char(s: &str, c: char) -> (r: bool)
    ensures
        r == s@.contains(c),
{
    let cs = chars_of(s);
    let i = find_char(&cs, 0, c);
    proof {
        assert(cs@.skip(0) =~= cs@);
        lemma_find(cs@, equals(c));
        if i < cs@.len() {
            assert(s@[i as int] == c);
        }
    }
    i < cs.len()
}

/// Whether `s` begins with `p`.
pub open spec fn begins_with(s: Seq<char>, p: Seq<char>) -> bool {
    p.len() <= s.len() && s.take(p.len() as int) == p
}

/// Whether `s` ends with `p`.
pub open spec fn finishes_with(s: Seq<char>, p: Seq<char>) -> bool {
    p.len() <= s.len() && s.skip(s.len() - p.len()) == p
}

/// What follows `p` in `s`, where `s` begins with `p`.
pub fn strip_front(s: &str, p: &str) -> (r: Option<String>)
    ensures
        r is Some <==> begins_with(s@, p@),
        r matches Some(t) ==> t@ == s@.skip(p@.len() as int),
{
    let a = chars_of(s);
    let b = chars_of(p);
    if b.len() > a.len() {
        return None;
    }
    for i in 0..b.len()
        invariant
            a@ == s@,
            b@ == p@,
            b@.len() <= a@.len(),
            forall|j: int| 0 <= j < i ==> a@[j] == b@[j],
    {
        if a[i] != b[i] {
            assert(s@.take(p@.len() as int)[i as int] == s@[i as int]);
            return None;
        }
    }
    assert(s@.take(p@.len() as int) =~= p@);
    Some(string_of(&a, b.len(), a.len()))
}

/// Whether `s` ends with `p`.
pub fn has_ending(s: &str, p: &str) -> (r: bool)
    ensures
        r == finishes_with(s@, p@),
{
    let a = chars_of(s);
    let b = chars_of(p);
    if b.len() > a.len() {
        return false;
    }
    let off = a.len() - b.len();
    for i in 0..b.len()
        invariant
            a@ == s@,
            b@ == p@,
            off + b.len() == a.len(),
            forall|j: int| 0 <= j < i ==> a@[off + j] == b@[j],
    {
        if a[off + i] != b[i] {
            assert(s@.skip(off as int)[i as int] == s@[off + i]);
            return false;
        }
    }
    assert(s@.skip(off as int) =~= p@);
    true
}

/// Whether the characters of `a` and `b` are the same but for the case of the
/// ASCII letters.
pub open spec fn same_but_case(a: Seq<char>, b: Seq<char>) -> bool {
    a.map_values(|c: char| ascii_lower(c)) == b.map_values(|c: char| ascii_lower(c))
}

/// Whether two strings differ in nothing but the case of ASCII letters.
pub fn same_ignoring_case(a: &str, b: &str) -> (r: bool)
    ensures
        r == same_but_case(a@, b@),
{
    let x = chars_of(a);
    let y = chars_of(b);
    let ghost la = a@.map_values(|c: char| ascii_lower(c));
    let ghost lb = b@.map_values(|c: char| ascii_lower(c));
    if x.len() != y.len() {
        assert(la.len() != lb.len());
        return false;
    }
    for i in 0..x.len()
        invariant
            x@ == a@,
            y@ == b@,
            x@.len() == y@.len(),
            la == a@.map_values(|c: char| ascii_lower(c)),
            lb == b@.map_values(|c: char| ascii_lower(c)),
            forall|j: int| 0 <= j < i ==> la[j] == lb[j],
    {
        if char_ascii_lower(x[i]) != char_ascii_lower(y[i]) {
            assert(la[i as int] != lb[i as int]);
            return false;
        }
    }
    assert(la =~= lb);
    true
}

// ---------------------------------------------------------------------------
// Trimming
// ---------------------------------------------------------------------------

/// `s` without the white space at its front.
pub open spec fn trim_start(s: Seq<char>) -> Seq<char> {
    s.skip(find(s, nonspace()))
}

/// `s` without the white space at its end.
pub open spec fn trim_end(s: Seq<char>) -> Seq<char>
    decreases s.len(),
{
    if s.len() > 0 && is_space(s.last()) {
        trim_end(s.drop_last())
    } else {
        s
    }
}

/// `s` without the white space at both ends.
pub open spec fn trim(s: Seq<char>) -> Seq<char> {
    trim_end(trim_start(s))
}

/// `s` without the white space around it.
pub fn trimmed(s: &str) -> (out: String)
    ensures
        out@ == trim(s@),
{
    let cs = chars_of(s);
    let from = find_nonspace(&cs, 0);
    let mut to = cs.len();
    proof {
        assert(cs@.skip(0) =~= cs@);
        assert(cs@.subrange(from as int, to as int) =~= trim_start(s@));
    }
    while to > from && char_is_space(cs[to - 1])
        invariant
            from <= to <= cs@.len(),
            cs@ == s@,
            trim_end(cs@.subrange(from as int, to as int)) == trim(s@),
        decreases to,
    {
        assert(cs@.subrange(from as int, to as int).drop_last() =~= cs@.subrange(
            from as int,
            to - 1,
        ));
        to -= 1;
    }
    string_of(&cs, from, to)
}

// ---------------------------------------------------------------------------
// Splitting
// ---------------------------------------------------------------------------

/// The pieces of `s` between the places that hold `c`; one piece more than
/// there are such places.
pub open spec fn split(s: Seq<char>, c: char) -> Seq<Seq<char>>
    decreases s.len(),
    via split_shrinks
{
    let i = find(s, equals(c));
    if i < s.len() {
        seq![s.take(i)] + split(s.skip(i + 1), c)
    } else {
        seq![s]
    }
}

#[via_fn]
proof fn split_shrinks(s: Seq<char>, c: char) {
    lemma_find(s, equals(c));
}

/// The pieces of `s` between the places that hold `c`.
pub fn split_at_char(s: &str, c: char) -> (out: Vec<String>)
    ensures
        views(out@) == split(s@, c),
        out@.len() > 0,
{
    let cs = chars_of(s);
    let mut out: Vec<String> = Vec::new();
    let mut start: usize = 0;
    assert(cs@.skip(0) =~= s@);
    assert(views(out@) + split(s@, c) =~= split(s@, c));
    loop
        invariant_except_break
            cs@ == s@,
            start <= cs@.len(),
            views(out@) + split(cs@.skip(start as int), c) == split(s@, c),
        ensures
            views(out@) == split(s@, c),
            out@.len() > 0,
        decreases cs@.len() - start,
    {
        let i = find_char(&cs, start, c);
        let piece = string_of(&cs, start, i);
        let ghost before = out@;
        let ghost rest = cs@.skip(start as int);
        out.push(piece);
        proof {
            lemma_find(rest, equals(c));
            assert(views(out@) =~= views(before).push(piece@));
        }
        if i == cs.len() {
            proof {
                assert(piece@ =~= rest);
                assert(views(out@) =~= split(s@, c));
            }
            break;
        }
        proof {
            assert(rest.take(i - start) =~= piece@);
            assert(rest.skip(i - start + 1) =~= cs@.skip(i + 1));
            assert(views(out@) + split(cs@.skip(i + 1), c) =~= views(before) + split(rest, c));
        }
        start = i + 1;
    }
    out
}

/// `s` without a carriage return at its end.
pub open spec fn without_cr(s: Seq<char>) -> Seq<char> {
    if s.len() > 0 && s.last() == '\r' {
        s.drop_last()
    } else {
        s
    }
}

/// The lines of `s`: a line ends with a line feed, with a carriage return
/// before it counted as part of the ending, or with the end of `s`. What
/// follows the last line feed is a line only where it is not empty.
pub open spec fn lines(s: Seq<char>) -> Seq<Seq<char>>
    decreases s.len(),
    via lines_shrinks
{
    let i = find(s, equals('\n'));
    if s.len() == 0 {
        seq![]
    } else if i < s.len() {
        seq![without_cr(s.take(i))] + lines(s.skip(i + 1))
    } else {
        seq![s]
    }
}

#[via_fn]
proof fn lines_shrinks(s: Seq<char>) {
    lemma_find(s, equals('\n'));
}

/// The lines of `s`.
pub fn lines_of(s: &str) -> (out: Vec<String>)
    ensures
        views(out@) == lines(s@),
{
    let cs = chars_of(s);
    let mut out: Vec<String> = Vec::new();
    let mut start: usize = 0;
    assert(cs@.skip(0) =~= s@);
    assert(views(out@) + lines(s@) =~= lines(s@));
    while start < cs.len()
        invariant
            cs@ == s@,
            start <= cs@.len(),
            views(out@) + lines(cs@.skip(start as int)) == lines(s@),
        decreases cs@.len() - start,
    {
        let i = find_char(&cs, start, '\n');
        let ghost before = out@;
        let ghost rest = cs@.skip(start as int);
        proof {
            lemma_find(rest, equals('\n'));
        }
        if i == cs.len() {
            let piece = string_of(&cs, start, i);
            out.push(piece);
            proof {
                assert(piece@ =~= rest);
                assert(views(out@) =~= views(before).push(piece@));
                assert(cs@.skip(i as int) =~= seq![]);
                assert(views(out@) + lines(cs@.skip(i as int)) =~= views(before) + lines(rest));
            }
            start = i;
        } else {
            let end = if i > start && cs[i - 1] == '\r' {
                i - 1
            } else {
                i
            };
            let piece = string_of(&cs, start, end);
            out.push(piece);
            proof {
                assert(rest.take(i - start) =~= cs@.subrange(start as int, i as int));
                assert(without_cr(rest.take(i - start)) =~= piece@);
                assert(views(out@) =~= views(before).push(piece@));
                assert(rest.skip(i - start + 1) =~= cs@.skip(i + 1));
                assert(views(out@) + lines(cs@.skip(i + 1)) =~= views(before) + lines(rest));
            }
            start = i + 1;
        }
    }
    proof {
        assert(cs@.skip(start as int) =~= seq![]);
        assert(views(out@) =~= lines(s@));
    }
    out
}

/// After a line feed, the lines are those of what follows.
pub proof fn lemma_lines_after_feed(a: Seq<char>, b: Seq<char>)
    ensures
        lines(a + seq!['\n'] + b) == lines(a + seq!['\n']) + lines(b),
    decreases a.len(),
{
    let fed = a + seq!['\n'];
    let all = fed + b;
    let i = find(a, equals('\n'));
    lemma_find(a, equals('\n'));
    assert(fed[i] == '\n' && all[i] == '\n');
    assert forall|j: int| 0 <= j < i implies fed[j] != '\n' && #[trigger] all[j] != '\n' by {
        assert(all[j] == a[j] && fed[j] == a[j]);
        assert(!equals('\n')(a[j]));
    }
    lemma_find_is(fed, equals('\n'), i);
    lemma_find_is(all, equals('\n'), i);
    assert(fed.take(i) =~= a.take(i));
    assert(all.take(i) =~= a.take(i));
    if i < a.len() {
        let rest = a.skip(i + 1);
        lemma_lines_after_feed(rest, b);
        assert(fed.skip(i + 1) =~= rest + seq!['\n']);
        assert(all.skip(i + 1) =~= rest + seq!['\n'] + b);
        let first = seq![without_cr(a.take(i))];
        assert(first + (lines(rest + seq!['\n']) + lines(b)) =~= (first + lines(
            rest + seq!['\n'],
        )) + lines(b));
    } else {
        assert(fed.skip(i + 1) =~= seq![]);
        assert(all.skip(i + 1) =~= b);
        let first = seq![without_cr(a.take(i))];
        assert(first + lines(fed.skip(i + 1)) =~= first);
    }
}

/// White space at the end makes no difference to what is left without it.
pub proof fn lemma_trim_drops_last(s: Seq<char>)
    requires
        s.len() > 0,
        is_space(s.last()),
    ensures
        trim(s.drop_last()) == trim(s),
{
    let d = s.drop_last();
    let i = find(s, nonspace());
    lemma_find(s, nonspace());
    if i < s.len() {
        assert(nonspace()(s[i]));
        assert(i < d.len());
        assert forall|j: int| 0 <= j < i implies !nonspace()(#[trigger] d[j]) by {
            assert(d[j] == s[j]);
            assert(!nonspace()(s[j]));
        }
        assert(d[i] == s[i]);
        lemma_find_is(d, nonspace(), i);
        assert(s.skip(i).drop_last() =~= d.skip(i));
        assert(s.skip(i).last() == s.last());
    } else {
        assert forall|j: int| 0 <= j < d.len() implies !nonspace()(#[trigger] d[j]) by {
            assert(d[j] == s[j]);
            assert(!nonspace()(s[j]));
        }
        lemma_find_is(d, nonspace(), d.len() as int);
        assert(s.skip(i) =~= seq![]);
        assert(d.skip(d.len() as int) =~= seq![]);
    }
}

/// The longest stretches of `s` without white space.
pub open spec fn words(s: Seq<char>) -> Seq<Seq<char>>
    decreases s.len(),
    via words_shrinks
{
    let t = trim_start(s);
    let i = find(t, space());
    if t.len() == 0 {
        seq![]
    } else {
        seq![t.take(i)] + words(t.skip(i))
    }
}

#[via_fn]
proof fn words_shrinks(s: Seq<char>) {
    let t = trim_start(s);
    lemma_find(s, nonspace());
    lemma_find(t, space());
    if t.len() > 0 {
        assert(t[0] == s[find(s, nonspace())]);
    }
}

/// The words of `s`.
pub fn words_of(s: &str) -> (out: Vec<String>)
    ensures
        views(out@) == words(s@),
{
    let cs = chars_of(s);
    let mut out: Vec<String> = Vec::new();
    let mut start: usize = 0;
    assert(cs@.skip(0) =~= s@);
    assert(views(out@) + words(s@) =~= words(s@));
    loop
        invariant_except_break
            cs@ == s@,
            start <= cs@.len(),
            views(out@) + words(cs@.skip(start as int)) == words(s@),
        ensures
            views(out@) == words(s@),
        decreases cs@.len() - start,
    {
        let from = find_nonspace(&cs, start);
        let ghost before = out@;
        let ghost rest = cs@.skip(start as int);
        let ghost t = trim_start(rest);
        proof {
            lemma_find(rest, nonspace());
            assert(t =~= cs@.skip(from as int));
        }
        if from == cs.len() {
            proof {
                assert(views(out@) =~= words(s@));
            }
            break;
        }
        let to = find_space(&cs, from);
        let piece = string_of(&cs, from, to);
        out.push(piece);
        proof {
            lemma_find(t, space());
            assert(t[0] == rest[from - start]);
            assert(t.take(to - from) =~= piece@);
            assert(t.skip(to - from) =~= cs@.skip(to as int));
            assert(views(out@) =~= views(before).push(piece@));
            assert(views(out@) + words(cs@.skip(to as int)) =~= views(before) + words(rest));
        }
        start = to;
    }
    out
}

/// The pieces of `parts` one after another, with `sep` between two of them.
pub open spec fn join(parts: Seq<Seq<char>>, sep: Seq<char>) -> Seq<char>
    decreases parts.len(),
{
    if parts.len() == 0 {
        seq![]
    } else if parts.len() == 1 {
        parts[0]
    } else {
        join(parts.drop_last(), sep) + sep + parts.last()
    }
}

/// The strings of `parts` one after another, with `sep` between two of them.
pub fn join_with(parts: &Vec<String>, sep: &str) -> (out: String)
    ensures
        out@ == join(views(parts@), sep@),
{
    let mut out = String::new();
    let ghost all = views(parts@);
    assert(out@ =~= join(all.take(0), sep@));
    for i in 0..parts.len()
        invariant
            all == views(parts@),
            out@ == join(all.take(i as int), sep@),
    {
        assert(all.take(i + 1).drop_last() =~= all.take(i as int));
        if i > 0 {
            out.append(sep);
        }
        out.append(parts[i].as_str());
        proof {
            if i == 0 {
                assert(out@ =~= all.take(1)[0]);
            }
        }
    }
    assert(all.take(parts@.len() as int) =~= all);
    out
}

// ---------------------------------------------------------------------------
// Quoting
// ---------------------------------------------------------------------------

/// `s` as it stands within double quotation marks: a backslash before each
/// quotation mark and each backslash.
pub open spec fn escaped(s: Seq<char>) -> Seq<char>
    decreases s.len(),
{
    if s.len() == 0 {
        seq![]
    } else if s[0] == '"' || s[0] == '\\' {
        seq!['\\', s[0]] + escaped(s.skip(1))
    } else {
        seq![s[0]] + escaped(s.skip(1))
    }
}

/// `s` as it stands within double quotation marks.
pub fn escape(s: &str) -> (out: String)
    ensures
        out@ == escaped(s@),
{
    let cs = chars_of(s);
    let mut out = String::new();
    let mut i: usize = 0;
    proof {
        assert(cs@.skip(0) =~= cs@);
        assert(out@ + escaped(s@) =~= escaped(s@));
    }
    while i < cs.len()
        invariant
            i <= cs@.len(),
            cs@ == s@,
            out@ + escaped(cs@.skip(i as int)) == escaped(s@),
        decreases cs@.len() - i,
    {
        let c = cs[i];
        let ghost before = out@;
        if c == '"' || c == '\\' {
            out.push('\\');
        }
        out.push(c);
        proof {
            let rest = cs@.skip(i as int);
            assert(rest.skip(1) =~= cs@.skip(i + 1));
            assert(out@ + escaped(rest.skip(1)) =~= before + escaped(rest));
        }
        i += 1;
    }
    proof {
        assert(cs@.skip(i as int) =~= seq![]);
        assert(out@ =~= escaped(s@));
    }
    out
}

// ---------------------------------------------------------------------------
// Order
// ---------------------------------------------------------------------------

/// Whether `a` comes before `b` or equals it in the order of the code points,
/// which is the order of `str`.
pub open spec fn ordered(a: Seq<char>, b: Seq<char>) -> bool
    decreases a.len(),
{
    if a.len() == 0 {
        true
    } else if b.len() == 0 {
        false
    } else if a[0] != b[0] {
        a[0] < b[0]
    } else {
        ordered(a.skip(1), b.skip(1))
    }
}

/// Whether `a` comes before `b` or equals it.
pub fn str_ordered(a: &str, b: &str) -> (r: bool)
    ensures
        r == ordered(a@, b@),
{
    let x = chars_of(a);
    let y = chars_of(b);
    let mut i: usize = 0;
    assert(x@.skip(0) =~= x@);
    assert(y@.skip(0) =~= y@);
    while i < x.len() && i < y.len() && x[i] == y[i]
        invariant
            x@ == a@,
            y@ == b@,
            i <= x@.len(),
            i <= y@.len(),
            ordered(a@, b@) == ordered(x@.skip(i as int), y@.skip(i as int)),
        decreases x@.len() - i,
    {
        assert(x@.skip(i as int).skip(1) =~= x@.skip(i + 1));
        assert(y@.skip(i as int).skip(1) =~= y@.skip(i + 1));
        i += 1;
    }
    if i == x.len() {
        true
    } else if i == y.len() {
        false
    } else {
        x[i] < y[i]
    }
}

/// The order of strings is total.
pub proof fn lemma_ordered_total(a: Seq<char>, b: Seq<char>)
    ensures
        ordered(a, b) || ordered(b, a),
    decreases a.len(),
{
    if a.len() > 0 && b.len() > 0 && a[0] == b[0] {
        lemma_ordered_total(a.skip(1), b.skip(1));
    }
}

/// The order of strings is transitive.
pub proof fn lemma_ordered_transitive(a: Seq<char>, b: Seq<char>, c: Seq<char>)
    requires
        ordered(a, b),
        ordered(b, c),
    ensures
        ordered(a, c),
    decreases a.len(),
{
    if a.len() > 0 && b.len() > 0 && c.len() > 0 && a[0] == b[0] && b[0] == c[0] {
        lemma_ordered_transitive(a.skip(1), b.skip(1), c.skip(1));
    }
}

// ---------------------------------------------------------------------------
// Numbers
// ---------------------------------------------------------------------------

/// Whether `c` is one of the ten ASCII digits.
pub open spec fn is_digit(c: char) -> bool {
    '0' <= c <= '9'
}

/// The number that the decimal digits of `s` write.
pub open spec fn decimal(s: Seq<char>) -> nat
    decreases s.len(),
{
    if s.len() == 0 {
        0
    } else {
        decimal(s.drop_last()) * 10 + (s.last() as u32 - '0' as u32) as nat
    }
}

/// The digits of a number: `s` without one plus sign at its front.
pub open spec fn unsigned_digits(s: Seq<char>) -> Seq<char> {
    if s.len() > 0 && s[0] == '+' {
        s.skip(1)
    } else {
        s
    }
}

/// The `u32` that `s` writes: at least one digit, nothing but digits after an
/// optional plus sign, and no more than the type holds.
pub open spec fn number(s: Seq<char>) -> Option<u32> {
    let d = unsigned_digits(s);
    if d.len() > 0 && (forall|i: int| 0 <= i < d.len() ==> is_digit(#[trigger] d[i])) && decimal(d)
        <= u32::MAX {
        Some(decimal(d) as u32)
    } else {
        None
    }
}

proof fn lemma_decimal_prefix(s: Seq<char>, n: int)
    requires
        0 <= n <= s.len(),
    ensures
        decimal(s.take(n)) <= decimal(s),
    decreases s.len(),
{
    if n == s.len() {
        assert(s.take(n) =~= s);
    } else {
        lemma_decimal_prefix(s.drop_last(), n);
        assert(s.drop_last().take(n) =~= s.take(n));
    }
}

/// Reads a `u32` in decimal.
pub fn parse_number(s: &str) -> (r: Option<u32>)
    ensures
        r == number(s@),
{
    let cs = chars_of(s);
    let start: usize = if cs.len() > 0 && cs[0] == '+' {
        1
    } else {
        0
    };
    let ghost d = unsigned_digits(s@);
    assert(d =~= cs@.skip(start as int));
    if start == cs.len() {
        return None;
    }
    let mut n: u32 = 0;
    assert(decimal(d.take(0)) == 0);
    for i in start..cs.len()
        invariant
            cs@ == s@,
            start <= cs@.len(),
            d == unsigned_digits(s@),
            d == cs@.skip(start as int),
            n == decimal(d.take(i - start)),
            forall|j: int| 0 <= j < i - start ==> is_digit(#[trigger] d[j]),
    {
        let c = cs[i];
        assert(c == d[i - start]);
        if !('0' <= c && c <= '9') {
            return None;
        }
        let v: u32 = c as u32 - '0' as u32;
        let wide: u64 = n as u64 * 10 + v as u64;
        proof {
            assert(d.take(i - start + 1).drop_last() =~= d.take(i - start));
            assert(wide == decimal(d.take(i - start + 1)));
            lemma_decimal_prefix(d, i - start + 1);
        }
        if wide > u32::MAX as u64 {
            return None;
        }
        n = wide as u32;
    }
    assert(d.take(cs@.len() - start) =~= d);
    Some(n)
}


/// The digit character for `d`, below ten.
pub open spec fn digit_char(d: nat) -> char {
    ('0' as u32 + d) as char
}

/// `n` in decimal, without leading zeros.
pub open spec fn numeral(n: nat) -> Seq<char>
    decreases n,
{
    if n < 10 {
        seq![digit_char(n)]
    } else {
        numeral(n / 10).push(digit_char(n % 10))
    }
}

/// Writes `n` in decimal.
pub fn number_text(n: u32) -> (out: String)
    ensures
        out@ == numeral(n as nat),
    decreases n,
{
    let d: u8 = 48u8 + (n % 10) as u8;
    if n < 10 {
        let mut out = String::new();
        out.push(d as char);
        assert(out@ =~= numeral(n as nat));
        out
    } else {
        let mut out = number_text(n / 10);
        out.push(d as char);
        out
    }
}

proof fn lemma_numeral_digits(n: nat)
    ensures
        numeral(n).len() > 0,
        forall|i: int| 0 <= i < numeral(n).len() ==> is_digit(#[trigger] numeral(n)[i]),
        decimal(numeral(n)) == n,
    decreases n,
{
    if n >= 10 {
        lemma_numeral_digits(n / 10);
        assert(numeral(n).drop_last() =~= numeral(n / 10));
    } else {
        assert(numeral(n).drop_last() =~= seq![]);
        assert(decimal(numeral(n).drop_last()) == 0);
    }
}

/// A number that was written is read back.
pub proof fn law_number_round_trip(n: u32)
    ensures
        number(numeral(n as nat)) == Some(n),
{
    lemma_numeral_digits(n as nat);
    assert(is_digit(numeral(n as nat)[0]));
    assert(unsigned_digits(numeral(n as nat)) == numeral(n as nat));
}

// ---------------------------------------------------------------------------
// UTF-8
// ---------------------------------------------------------------------------

/// How many bytes the string takes in UTF-8.
pub open spec fn byte_len(s: Seq<char>) -> nat {
    vstd::utf8::encode_utf8(s).len()
}

/// How many bytes the character takes in UTF-8.
pub open spec fn width(c: char) -> nat {
    vstd::utf8::encode_scalar(c as u32).len()
}

/// How many bytes the character takes in UTF-8.
pub fn char_width(c: char) -> (r: usize)
    ensures
        r == width(c),
        1 <= r <= 4,
{
    let n = c as u32;
    if n <= 0x7f {
        1
    } else if n <= 0x7ff {
        2
    } else if n <= 0xffff {
        3
    } else {
        4
    }
}

/// How many bytes the string takes in UTF-8.
pub fn str_bytes(s: &str) -> (r: usize)
    ensures
        r == byte_len(s@),
{
    s.as_bytes().len()
}

/// Each character adds its own bytes.
pub proof fn lemma_byte_len_push(s: Seq<char>, c: char)
    ensures
        byte_len(s.push(c)) == byte_len(s) + width(c),
    decreases s.len(),
{
    if s.len() == 0 {
        assert(s.push(c).drop_first() =~= seq![]);
        reveal_with_fuel(vstd::utf8::encode_utf8, 2);
    } else {
        assert(s.push(c).drop_first() =~= s.drop_first().push(c));
        lemma_byte_len_push(s.drop_first(), c);
    }
}

// ---------------------------------------------------------------------------
// What the operations are
// ---------------------------------------------------------------------------

/// Of the ASCII characters, white space is the blank and the characters from the
/// tabulator to the carriage return, and control characters are those below the
/// blank and the last. Letters, digits and punctuation are neither.
pub proof fn law_ascii_classes(c: char)
    requires
        c as u32 <= 0x7f,
    ensures
        is_space(c) <==> c == ' ' || c == '\t' || c == '\n' || c as u32 == 0x0b || c as u32 == 0x0c
            || c == '\r',
        is_control(c) <==> (c as u32) < 0x20 || c as u32 == 0x7f,
{
}

/// Beyond ASCII, the thirty-two characters from 0x80 on are control characters,
/// and white space is the next line, the separators of lines and paragraphs, and
/// the blanks of various widths.
pub proof fn law_classes_beyond_ascii(c: char)
    requires
        c as u32 >= 0x80,
    ensures
        is_control(c) <==> c as u32 - 0x80 < 32,
        is_space(c) <==> c as u32 == 0x85 || c as u32 == 0xa0 || c as u32 == 0x1680 || 0x2000
            <= c as u32 <= 0x200a || c as u32 == 0x2028 || c as u32 == 0x2029 || c as u32 == 0x202f
            || c as u32 == 0x205f || c as u32 == 0x3000,
{
}

/// What begins with a prefix is the prefix and something after it, and what ends
/// with an ending is something and the ending after it.
pub proof fn law_prefixes_and_endings(s: Seq<char>, p: Seq<char>, rest: Seq<char>)
    ensures
        begins_with(p + rest, p),
        finishes_with(rest + p, p),
        begins_with(s, p) ==> s == p + s.skip(p.len() as int),
        finishes_with(s, p) ==> s == s.take(s.len() - p.len()) + p,
{
    assert((p + rest).take(p.len() as int) =~= p);
    assert((rest + p).skip(rest.len() as int) =~= p);
    if begins_with(s, p) {
        assert(s =~= s.take(p.len() as int) + s.skip(p.len() as int));
    }
    if finishes_with(s, p) {
        assert(s =~= s.take(s.len() - p.len()) + s.skip(s.len() - p.len()));
    }
}

/// Two strings are the same but for case where they are as long as each other
/// and each character equals its counterpart, or is the capital of it, or has it
/// for a capital.
pub proof fn law_case_makes_no_difference(a: Seq<char>, b: Seq<char>)
    ensures
        same_but_case(a, b) <==> a.len() == b.len() && forall|i: int|
            #![trigger a[i]]
            0 <= i < a.len() ==> {
                ||| a[i] == b[i]
                ||| 'A' <= a[i] <= 'Z' && b[i] as u32 == a[i] as u32 + 32
                ||| 'A' <= b[i] <= 'Z' && a[i] as u32 == b[i] as u32 + 32
            },
{
    let la = a.map_values(|c: char| ascii_lower(c));
    let lb = b.map_values(|c: char| ascii_lower(c));
    if same_but_case(a, b) {
        assert(la.len() == a.len() && lb.len() == b.len());
        assert forall|i: int| #![trigger a[i]] 0 <= i < a.len() implies ({
            ||| a[i] == b[i]
            ||| 'A' <= a[i] <= 'Z' && b[i] as u32 == a[i] as u32 + 32
            ||| 'A' <= b[i] <= 'Z' && a[i] as u32 == b[i] as u32 + 32
        }) by {
            assert(la[i] == lb[i]);
        }
    }
    if a.len() == b.len() && forall|i: int|
        #![trigger a[i]]
        0 <= i < a.len() ==> {
            ||| a[i] == b[i]
            ||| 'A' <= a[i] <= 'Z' && b[i] as u32 == a[i] as u32 + 32
            ||| 'A' <= b[i] <= 'Z' && a[i] as u32 == b[i] as u32 + 32
        } {
        assert forall|i: int| 0 <= i < la.len() implies la[i] == lb[i] by {
            assert(a[i] == a[i]);
        }
        assert(la =~= lb);
    }
}

/// Trimming takes away the white space before and behind, and nothing else.
pub proof fn law_trim_takes_the_space_around(before: Seq<char>, s: Seq<char>, behind: Seq<char>)
    requires
        forall|i: int| 0 <= i < before.len() ==> is_space(#[trigger] before[i]),
        forall|i: int| 0 <= i < behind.len() ==> is_space(#[trigger] behind[i]),
        s.len() > 0 ==> !is_space(s[0]) && !is_space(s.last()),
    ensures
        trim(before + s + behind) == s,
    decreases behind.len(),
{
    let all = before + s + behind;
    if behind.len() > 0 {
        let shorter = behind.drop_last();
        assert forall|i: int| 0 <= i < shorter.len() implies is_space(#[trigger] shorter[i]) by {
            assert(shorter[i] == behind[i]);
        }
        law_trim_takes_the_space_around(before, s, shorter);
        assert(all.drop_last() =~= before + s + shorter);
        assert(all.last() == behind[behind.len() - 1]);
        lemma_trim_drops_last(all);
    } else {
        let n = before.len() as int;
        assert forall|j: int| 0 <= j < n implies !nonspace()(#[trigger] all[j]) by {
            assert(all[j] == before[j]);
        }
        if s.len() > 0 {
            assert(all[n] == s[0]);
        }
        lemma_find_is(all, nonspace(), n);
        assert(all.skip(n) =~= s);
    }
}

/// The pieces that a string is split into hold no separator, and joined with it
/// again they are the string.
pub proof fn law_split_joins_back(s: Seq<char>, c: char)
    ensures
        split(s, c).len() > 0,
        forall|i: int| 0 <= i < split(s, c).len() ==> !(#[trigger] split(s, c)[i]).contains(c),
        join(split(s, c), seq![c]) == s,
    decreases s.len(),
{
    let i = find(s, equals(c));
    lemma_find(s, equals(c));
    if i < s.len() {
        let rest = s.skip(i + 1);
        law_split_joins_back(rest, c);
        let tail = split(rest, c);
        let all = split(s, c);
        assert forall|k: int| 0 <= k < all.len() implies !(#[trigger] all[k]).contains(c) by {
            if k == 0 {
                assert forall|j: int| 0 <= j < i implies s.take(i)[j] != c by {
                    assert(!equals(c)(s[j]));
                }
            } else {
                assert(all[k] == tail[k - 1]);
            }
        }
        lemma_join_front(s.take(i), tail, seq![c]);
        assert(s[i] == c);
        assert(s.take(i) + seq![c] + rest =~= s);
    } else {
        assert forall|j: int| 0 <= j < s.len() implies s[j] != c by {
            assert(!equals(c)(s[j]));
        }
    }
}

proof fn lemma_join_front(first: Seq<char>, parts: Seq<Seq<char>>, sep: Seq<char>)
    requires
        parts.len() > 0,
    ensures
        join(seq![first] + parts, sep) == first + sep + join(parts, sep),
    decreases parts.len(),
{
    let all = seq![first] + parts;
    assert(all.last() == parts.last());
    assert(all.drop_last() =~= seq![first] + parts.drop_last());
    if parts.len() == 1 {
        assert(all.drop_last() =~= seq![first]);
        assert(join(seq![first], sep) == first);
    } else {
        lemma_join_front(first, parts.drop_last(), sep);
        assert(first + sep + join(parts.drop_last(), sep) + sep + parts.last() =~= first + sep + (
        join(parts.drop_last(), sep) + sep + parts.last()));
    }
}

/// A first piece without the separator is what is split off first.
pub proof fn law_split_takes_the_first_piece(first: Seq<char>, c: char, rest: Seq<char>)
    requires
        !first.contains(c),
    ensures
        split(first, c) == seq![first],
        split(first + seq![c] + rest, c) == seq![first] + split(rest, c),
{
    let all = first + seq![c] + rest;
    let n = first.len() as int;
    assert forall|j: int| 0 <= j < n implies !equals(c)(#[trigger] first[j]) by {
        assert(first.contains(first[j]));
    }
    lemma_find_is(first, equals(c), n);
    assert forall|j: int| 0 <= j < n implies !equals(c)(#[trigger] all[j]) by {
        assert(all[j] == first[j]);
    }
    assert(all[n] == c);
    lemma_find_is(all, equals(c), n);
    assert(all.take(n) =~= first);
    assert(all.skip(n + 1) =~= rest);
}

/// Pieces without the separator that were joined with it are what the whole is
/// split into.
pub proof fn law_joined_pieces_split_again(parts: Seq<Seq<char>>, c: char)
    requires
        parts.len() > 0,
        forall|i: int| 0 <= i < parts.len() ==> !(#[trigger] parts[i]).contains(c),
    ensures
        split(join(parts, seq![c]), c) == parts,
    decreases parts.len(),
{
    let first = parts[0];
    let rest = parts.skip(1);
    assert(parts =~= seq![first] + rest);
    if rest.len() == 0 {
        assert(parts =~= seq![first]);
        law_split_takes_the_first_piece(first, c, seq![]);
    } else {
        assert forall|i: int| 0 <= i < rest.len() implies !(#[trigger] rest[i]).contains(c) by {
            assert(rest[i] == parts[i + 1]);
        }
        law_joined_pieces_split_again(rest, c);
        lemma_join_front(first, rest, seq![c]);
        law_split_takes_the_first_piece(first, c, join(rest, seq![c]));
    }
}

/// Parts are joined one after the other, with the separator between two of them
/// and nowhere else.
pub proof fn law_join_appends(parts: Seq<Seq<char>>, last: Seq<char>, sep: Seq<char>)
    ensures
        join(seq![], sep).len() == 0,
        join(seq![last], sep) == last,
        parts.len() > 0 ==> join(parts.push(last), sep) == join(parts, sep) + sep + last,
{
    assert(parts.push(last).drop_last() =~= parts);
}

/// A line ends with a line feed, or with a carriage return and a line feed, or
/// with the end of the text.
pub proof fn law_lines_end_with_a_feed(line: Seq<char>, rest: Seq<char>)
    requires
        !line.contains('\n'),
    ensures
        lines(seq![]).len() == 0,
        line.len() > 0 ==> lines(line) == seq![line],
        !(line.len() > 0 && line.last() == '\r') ==> lines(line + seq!['\n'] + rest) == seq![line]
            + lines(rest),
        lines(line + seq!['\r', '\n'] + rest) == seq![line] + lines(rest),
{
    let n = line.len() as int;
    let p = equals('\n');
    assert forall|j: int| 0 <= j < n implies !p(#[trigger] line[j]) by {
        assert(line.contains(line[j]));
    }
    lemma_find_is(line, p, n);
    let fed = line + seq!['\n'] + rest;
    assert forall|j: int| 0 <= j < n implies !p(#[trigger] fed[j]) by {
        assert(fed[j] == line[j]);
    }
    assert(fed[n] == '\n');
    lemma_find_is(fed, p, n);
    assert(fed.take(n) =~= line);
    assert(fed.skip(n + 1) =~= rest);
    let both = line + seq!['\r', '\n'] + rest;
    assert forall|j: int| 0 <= j < n + 1 implies !p(#[trigger] both[j]) by {
        if j < n {
            assert(both[j] == line[j]);
        } else {
            assert(both[j] == '\r');
        }
    }
    assert(both[n + 1] == '\n');
    lemma_find_is(both, p, n + 1);
    assert(both.take(n + 1).last() == '\r');
    assert(both.take(n + 1).drop_last() =~= line);
    assert(both.skip(n + 2) =~= rest);
}

/// The first word reaches from the first character that is not white space to
/// the next that is; white space alone holds no word.
pub proof fn law_words_are_between_spaces(before: Seq<char>, word: Seq<char>, rest: Seq<char>)
    requires
        forall|i: int| 0 <= i < before.len() ==> is_space(#[trigger] before[i]),
        forall|i: int| 0 <= i < word.len() ==> !is_space(#[trigger] word[i]),
        rest.len() > 0 ==> is_space(rest[0]),
    ensures
        words(before).len() == 0,
        word.len() > 0 ==> words(before + word + rest) == seq![word] + words(rest),
{
    let n = before.len() as int;
    assert forall|j: int| 0 <= j < n implies !nonspace()(#[trigger] before[j]) by {
        assert(is_space(before[j]));
    }
    lemma_find_is(before, nonspace(), n);
    if word.len() > 0 {
        let all = before + word + rest;
        assert forall|j: int| 0 <= j < n implies !nonspace()(#[trigger] all[j]) by {
            assert(all[j] == before[j]);
        }
        assert(all[n] == word[0]);
        lemma_find_is(all, nonspace(), n);
        let t = trim_start(all);
        assert(t =~= word + rest);
        let m = word.len() as int;
        assert forall|j: int| 0 <= j < m implies !space()(#[trigger] t[j]) by {
            assert(t[j] == word[j]);
        }
        if rest.len() > 0 {
            assert(t[m] == rest[0]);
        }
        lemma_find_is(t, space(), m);
        assert(t.take(m) =~= word);
        assert(t.skip(m) =~= rest);
    }
}

/// Strings are ordered by the first characters in which they differ; one that is
/// a beginning of another comes first.
pub proof fn law_order_is_by_first_difference(
    common: Seq<char>,
    x: char,
    y: char,
    a: Seq<char>,
    b: Seq<char>,
)
    requires
        x != y,
    ensures
        ordered(common + seq![x] + a, common + seq![y] + b) <==> x < y,
        ordered(common, common + a),
        a.len() > 0 ==> !ordered(common + a, common),
    decreases common.len(),
{
    let s = common + seq![x] + a;
    let t = common + seq![y] + b;
    if common.len() > 0 {
        let rest = common.skip(1);
        law_order_is_by_first_difference(rest, x, y, a, b);
        assert(s.skip(1) =~= rest + seq![x] + a);
        assert(t.skip(1) =~= rest + seq![y] + b);
        assert((common + a).skip(1) =~= rest + a);
    }
}

/// One more digit at its end makes a number ten times as large and adds the
/// digit, as long as the type holds that; and a number is nothing but digits,
/// with a plus sign before them at most.
pub proof fn law_number_grows_by_digits(s: Seq<char>, n: u32, d: char)
    requires
        '0' <= d <= '9',
    ensures
        number(seq![d]) == Some((d as u32 - '0' as u32) as u32),
        number(s) == Some(n) && n * 10 + (d as u32 - '0' as u32) <= u32::MAX ==> number(s.push(d))
            == Some((n * 10 + (d as u32 - '0' as u32)) as u32),
        number(s) == Some(n) && n * 10 + (d as u32 - '0' as u32) > u32::MAX ==> number(s.push(d))
            is None,
        s.len() > 0 && s[0] != '+' ==> number(seq!['+'] + s) == number(s),
        number(seq![]) is None,
        number(seq!['+']) is None,
{
    let one = seq![d];
    assert(one.drop_last() =~= seq![]);
    assert(decimal(seq![]) == 0);
    assert(unsigned_digits(one) == one);
    assert(decimal(one) == d as u32 - '0' as u32);
    if number(s) == Some(n) {
        let u = unsigned_digits(s);
        assert(unsigned_digits(s.push(d)) =~= u.push(d));
        assert(u.push(d).drop_last() =~= u);
        assert(decimal(u.push(d)) == n * 10 + (d as u32 - '0' as u32));
        assert forall|i: int| 0 <= i < u.push(d).len() implies is_digit(#[trigger] u.push(d)[i]) by {
            if i < u.len() {
                assert(u.push(d)[i] == u[i]);
            }
        }
    }
    if s.len() > 0 && s[0] != '+' {
        assert((seq!['+'] + s).skip(1) =~= s);
    }
    assert(seq!['+'].skip(1) =~= seq![]);
}

/// What holds anything but digits, behind a plus sign at its front, is no
/// number.
pub proof fn law_numbers_are_digits(s: Seq<char>, i: int)
    requires
        0 <= i < s.len(),
        !('0' <= s[i] <= '9'),
        i > 0 || s[0] != '+',
    ensures
        number(s) is None,
{
    let u = unsigned_digits(s);
    if s[0] == '+' {
        assert(u[i - 1] == s[i]);
    } else {
        assert(u[i] == s[i]);
    }
}

/// Written within double quotation marks, a quotation mark or backslash has a
/// backslash before it, and every other character stands for itself.
pub proof fn law_escaping_is_by_character(a: Seq<char>, c: char)
    ensures
        escaped(a.push(c)) == escaped(a) + (if c == '"' {
            seq!['\\', '"']
        } else if c == '\\' {
            seq!['\\', '\\']
        } else {
            seq![c]
        }),
        escaped(seq![]).len() == 0,
    decreases a.len(),
{
    let more = a.push(c);
    let one = if c == '"' {
        seq!['\\', '"']
    } else if c == '\\' {
        seq!['\\', '\\']
    } else {
        seq![c]
    };
    if a.len() == 0 {
        assert(more.skip(1) =~= seq![]);
        assert(escaped(more.skip(1)) =~= seq![]);
        assert(more[0] == c);
        assert(escaped(more) =~= escaped(a) + one);
    } else {
        law_escaping_is_by_character(a.skip(1), c);
        assert(more.skip(1) =~= a.skip(1).push(c));
        assert(more[0] == a[0]);
        assert(escaped(more) =~= escaped(a) + one);
    }
}

/// A number is written with nothing but digits, and without a zero at its front
/// unless it is zero.
pub proof fn law_numerals_have_no_leading_zero(n: nat)
    ensures
        forall|i: int| 0 <= i < numeral(n).len() ==> '0' <= #[trigger] numeral(n)[i] <= '9',
        n > 0 ==> numeral(n)[0] != '0',
        n == 0 ==> numeral(n) == seq!['0'],
    decreases n,
{
    lemma_numeral_digits(n);
    assert forall|i: int| 0 <= i < numeral(n).len() implies '0' <= #[trigger] numeral(n)[i]
        <= '9' by {
        assert(is_digit(numeral(n)[i]));
    }
    if n >= 10 {
        law_numerals_have_no_leading_zero(n / 10);
        lemma_numeral_digits(n / 10);
        assert(numeral(n)[0] == numeral(n / 10)[0]);
    }
}

} // verus!
