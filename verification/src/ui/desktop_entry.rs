//! Freedesktop `.desktop` entries, as far as session launchers need them: the
//! `Name`, `Exec`, `Type` and `TryExec` of the `[Desktop Entry]` section, and
//! whether the entry is to be shown. Localised names and actions are not read.

use crate::sort;
use crate::sort::Ranked;
use crate::text;
use vstd::prelude::*;

verus! {

/// A session launcher.
#[derive(Debug, Clone, PartialEq, Eq)]
pub struct DesktopEntry {
    pub name: String,
    /// The value of `Exec`.
    pub command: String,
    pub entry_type: String,
    /// The entry is of no use where this command cannot be run.
    pub try_exec: Option<String>,
}

/// What a [`DesktopEntry`] holds.
pub struct EntryView {
    pub name: Seq<char>,
    pub command: Seq<char>,
    pub entry_type: Seq<char>,
    pub try_exec: Option<Seq<char>>,
}

impl View for DesktopEntry {
    type V = EntryView;

    open spec fn view(&self) -> EntryView {
        EntryView {
            name: self.name@,
            command: self.command@,
            entry_type: self.entry_type@,
            try_exec: held(self.try_exec),
        }
    }
}

/// What a string holds, where there is one.
pub open spec fn held(s: Option<String>) -> Option<Seq<char>> {
    match s {
        Some(t) => Some(t@),
        None => None,
    }
}

// ---------------------------------------------------------------------------
// Lines
// ---------------------------------------------------------------------------

/// Whether a line begins a section.
pub open spec fn is_header(line: Seq<char>) -> bool {
    let l = text::trim(line);
    l.len() >= 2 && l[0] == '[' && l.last() == ']'
}

/// The name of the section that a line begins.
pub open spec fn section(line: Seq<char>) -> Seq<char> {
    let l = text::trim(line);
    l.subrange(1, l.len() - 1)
}

/// Whether a line gives a value to a key: it is neither empty nor a comment nor
/// the beginning of a section, and holds an equals sign.
pub open spec fn is_pair(line: Seq<char>) -> bool {
    let l = text::trim(line);
    l.len() > 0 && l[0] != '#' && !is_header(line) && text::find(l, text::equals('=')) < l.len()
}

/// The key that a line gives a value to.
pub open spec fn key_of(line: Seq<char>) -> Seq<char> {
    let l = text::trim(line);
    text::trim(l.take(text::find(l, text::equals('='))))
}

/// The value that a line gives to its key.
pub open spec fn value_of(line: Seq<char>) -> Seq<char> {
    let l = text::trim(line);
    text::trim(l.skip(text::find(l, text::equals('=')) + 1))
}

/// Whether what follows these lines lies in the `[Desktop Entry]` section.
pub open spec fn is_inside(lines: Seq<Seq<char>>) -> bool
    decreases lines.len(),
{
    if lines.len() == 0 {
        false
    } else if is_header(lines.last()) {
        section(lines.last()) == "Desktop Entry"@
    } else {
        is_inside(lines.drop_last())
    }
}

/// The last value that the key gets in the `[Desktop Entry]` section.
pub open spec fn value(lines: Seq<Seq<char>>, key: Seq<char>) -> Option<Seq<char>>
    decreases lines.len(),
{
    if lines.len() == 0 {
        None
    } else if is_inside(lines.drop_last()) && is_pair(lines.last()) && key_of(lines.last()) == key {
        Some(value_of(lines.last()))
    } else {
        value(lines.drop_last(), key)
    }
}

/// The last value that the key gets there and that is not empty.
pub open spec fn filled_value(lines: Seq<Seq<char>>, key: Seq<char>) -> Option<Seq<char>>
    decreases lines.len(),
{
    if lines.len() == 0 {
        None
    } else if is_inside(lines.drop_last()) && is_pair(lines.last()) && key_of(lines.last()) == key
        && value_of(lines.last()).len() > 0 {
        Some(value_of(lines.last()))
    } else {
        filled_value(lines.drop_last(), key)
    }
}

/// Whether a value says yes.
pub open spec fn is_true(v: Option<Seq<char>>) -> bool {
    v matches Some(s) && text::same_but_case(text::trim(s), "true"@)
}

/// The entry that a file holds. None where it is hidden, and where it has no
/// name or no command.
pub open spec fn entry(contents: Seq<char>) -> Option<EntryView> {
    let l = text::lines(contents);
    if is_true(value(l, "Hidden"@)) || is_true(value(l, "NoDisplay"@)) {
        None
    } else if value(l, "Name"@) is None || value(l, "Exec"@) is None {
        None
    } else {
        Some(
            EntryView {
                name: value(l, "Name"@)->0,
                command: value(l, "Exec"@)->0,
                entry_type: match value(l, "Type"@) {
                    Some(t) => t,
                    None => "Application"@,
                },
                try_exec: filled_value(l, "TryExec"@),
            },
        )
    }
}

/// A line, as far as it was understood.
enum Line {
    Skip,
    Header(bool),
    Pair(String, String),
}

fn read_line(line: &str) -> (r: Line)
    ensures
        r is Header <==> is_header(line@),
        r matches Line::Header(inside) ==> inside == (section(line@) == "Desktop Entry"@),
        r is Pair <==> is_pair(line@),
        r matches Line::Pair(k, v) ==> k@ == key_of(line@) && v@ == value_of(line@),
{
    let trimmed = text::trimmed(line);
    let cs = text::chars_of(trimmed.as_str());
    let n: usize = cs.len();
    if n == 0 || cs[0] == '#' {
        return Line::Skip;
    }
    if n >= 2 && cs[0] == '[' && cs[n - 1] == ']' {
        let name = text::string_of(&cs, 1, n - 1);
        return Line::Header(text::same(name.as_str(), "Desktop Entry"));
    }
    let at: usize = text::find_char(&cs, 0, '=');
    assert(cs@.skip(0) =~= cs@);
    if at == n {
        return Line::Skip;
    }
    let key = text::string_of(&cs, 0, at);
    let val = text::string_of(&cs, at + 1, n);
    proof {
        assert(key@ =~= cs@.take(at as int));
        assert(val@ =~= cs@.skip(at + 1));
    }
    Line::Pair(text::trimmed(key.as_str()), text::trimmed(val.as_str()))
}

fn is_desktop_true(value: &str) -> (r: bool)
    ensures
        r == is_true(Some(value@)),
{
    let v = text::trimmed(value);
    text::same_ignoring_case(v.as_str(), "true")
}

/// The values of one key, while the lines are read.
fn update(slot: &mut Option<String>, found: bool, v: &String)
    ensures
        held(*final(slot)) == (if found {
            Some(v@)
        } else {
            held(*old(slot))
        }),
{
    if found {
        *slot = Some(v.clone());
    }
}

/// Reads the `[Desktop Entry]` section of a `.desktop` file. None where the name
/// or the command is missing, and where the entry is not to be shown.
pub fn parse(contents: &str) -> (r: Option<DesktopEntry>)
    ensures
        (match r {
            Some(e) => Some(e@),
            None => None,
        }) == entry(contents@),
{
    let lines = text::lines_of(contents);
    let ghost all = text::lines(contents@);
    let mut name: Option<String> = None;
    let mut command: Option<String> = None;
    let mut entry_type: Option<String> = None;
    let mut try_exec: Option<String> = None;
    let mut hidden = false;
    let mut no_display = false;
    let mut inside = false;
    for i in 0..lines.len()
        invariant
            text::views(lines@) == all,
            inside == is_inside(all.take(i as int)),
            held(name) == value(all.take(i as int), "Name"@),
            held(command) == value(all.take(i as int), "Exec"@),
            held(entry_type) == value(all.take(i as int), "Type"@),
            held(try_exec) == filled_value(all.take(i as int), "TryExec"@),
            hidden == is_true(value(all.take(i as int), "Hidden"@)),
            no_display == is_true(value(all.take(i as int), "NoDisplay"@)),
    {
        let ghost next = all.take(i + 1);
        proof {
            assert(next.drop_last() =~= all.take(i as int));
            assert(next.last() == lines@[i as int]@);
        }
        match read_line(lines[i].as_str()) {
            Line::Skip => {},
            Line::Header(entered) => {
                inside = entered;
            },
            Line::Pair(k, v) => {
                if inside {
                    let key = k.as_str();
                    update(&mut name, text::same(key, "Name"), &v);
                    update(&mut command, text::same(key, "Exec"), &v);
                    update(&mut entry_type, text::same(key, "Type"), &v);
                    update(
                        &mut try_exec,
                        text::same(key, "TryExec") && !v.as_str().is_empty(),
                        &v,
                    );
                    if text::same(key, "Hidden") {
                        hidden = is_desktop_true(v.as_str());
                    }
                    if text::same(key, "NoDisplay") {
                        no_display = is_desktop_true(v.as_str());
                    }
                }
            },
        }
    }
    proof {
        assert(all.take(all.len() as int) =~= all);
    }
    if hidden || no_display {
        return None;
    }
    match (name, command) {
        (Some(name), Some(command)) => {
            let entry_type = match entry_type {
                Some(t) => t,
                None => "Application".to_owned(),
            };
            Some(DesktopEntry { name, command, entry_type, try_exec })
        },
        _ => None,
    }
}

// ---------------------------------------------------------------------------
// What makes no difference
// ---------------------------------------------------------------------------

/// Whether a key is one of those that are read.
pub open spec fn is_read(key: Seq<char>) -> bool {
    ||| key == "Name"@
    ||| key == "Exec"@
    ||| key == "Type"@
    ||| key == "TryExec"@
    ||| key == "Hidden"@
    ||| key == "NoDisplay"@
}

/// Whether a line neither begins a section nor gives a value to a key that is
/// read.
pub open spec fn is_ignored(line: Seq<char>) -> bool {
    !is_header(line) && (is_pair(line) ==> !is_read(key_of(line)))
}

/// Whether two lines are the same but for the white space around them.
pub open spec fn alike(a: Seq<char>, b: Seq<char>) -> bool {
    text::trim(a) == text::trim(b)
}

/// Whether two lists have the same values for every key that is read, and end in
/// the same section as far as that matters.
pub open spec fn agree(a: Seq<Seq<char>>, b: Seq<Seq<char>>) -> bool {
    &&& is_inside(a) == is_inside(b)
    &&& forall|key: Seq<char>|
        is_read(key) ==> #[trigger] value(a, key) == value(b, key) && filled_value(a, key)
            == filled_value(b, key)
}

proof fn lemma_ignored_line(lines: Seq<Seq<char>>, line: Seq<char>)
    requires
        is_ignored(line),
    ensures
        agree(lines.push(line), lines),
{
    let all = lines.push(line);
    assert(all.drop_last() =~= lines);
    assert(all.last() == line);
}

proof fn lemma_agreeing_lines(a: Seq<Seq<char>>, b: Seq<Seq<char>>, x: Seq<char>, y: Seq<char>)
    requires
        agree(a, b),
        alike(x, y),
    ensures
        agree(a.push(x), b.push(y)),
{
    assert(a.push(x).drop_last() =~= a);
    assert(b.push(y).drop_last() =~= b);
    assert forall|key: Seq<char>| is_read(key) implies #[trigger] value(a.push(x), key) == value(
        b.push(y),
        key,
    ) && filled_value(a.push(x), key) == filled_value(b.push(y), key) by {
        assert(value(a, key) == value(b, key));
    }
}

/// With a line feed at its end a file holds the lines that it held, or an empty
/// one more.
proof fn lemma_line_feed(contents: Seq<char>)
    ensures
        ({
            let l = text::lines(contents);
            let fed = text::lines(contents + seq!['\n']);
            ||| fed == l.push(seq![])
            ||| l.len() > 0 && fed == l.drop_last().push(fed.last()) && fed.len() == l.len() && alike(
                fed.last(),
                l.last(),
            )
        }),
    decreases contents.len(),
{
    let fed = contents + seq!['\n'];
    let p = text::equals('\n');
    let i = text::find(contents, p);
    text::lemma_find(contents, p);
    assert(fed[i] == '\n');
    assert forall|j: int| 0 <= j < i implies !p(#[trigger] fed[j]) by {
        assert(fed[j] == contents[j]);
        assert(!p(contents[j]));
    }
    text::lemma_find_is(fed, p, i);
    assert(fed.take(i) =~= contents.take(i));
    let l = text::lines(contents);
    let first = seq![text::without_cr(contents.take(i))];
    if i < contents.len() {
        let rest = contents.skip(i + 1);
        lemma_line_feed(rest);
        assert(fed.skip(i + 1) =~= rest + seq!['\n']);
        let r = text::lines(rest);
        let f = text::lines(rest + seq!['\n']);
        assert(l == first + r);
        assert(text::lines(fed) == first + f);
        if f == r.push(seq![]) {
            assert(first + f =~= l.push(seq![]));
        } else {
            assert(l.drop_last() =~= first + r.drop_last());
            assert((first + f).last() == f.last());
            assert(l.last() == r.last());
            assert(first + f =~= l.drop_last().push(f.last()));
        }
    } else {
        let none = Seq::<char>::empty();
        assert(fed.skip(i + 1) =~= none);
        assert(contents.take(i) =~= contents);
        assert(first + text::lines(none) =~= first);
        assert(text::lines(fed) == first);
        if contents.len() == 0 {
            assert(l =~= seq![]);
            assert(first[0] =~= seq![]);
            assert(text::lines(fed) =~= l.push(seq![]));
        } else {
            assert(l == seq![contents]);
            assert(l.drop_last() =~= seq![]);
            assert(text::lines(fed) =~= l.drop_last().push(first[0]));
            if contents.last() == '\r' {
                text::lemma_trim_drops_last(contents);
            }
        }
    }
}

proof fn lemma_fed_lines_agree(contents: Seq<char>)
    ensures
        agree(text::lines(contents + seq!['\n']), text::lines(contents)),
{
    let l = text::lines(contents);
    let fed = text::lines(contents + seq!['\n']);
    lemma_line_feed(contents);
    if fed == l.push(seq![]) {
        let empty = Seq::<char>::empty();
        assert(text::trim(empty) =~= empty) by {
            assert(empty.skip(0) =~= empty);
        }
        lemma_ignored_line(l, empty);
    } else {
        assert(agree(l.drop_last(), l.drop_last()));
        lemma_agreeing_lines(l.drop_last(), l.drop_last(), fed.last(), l.last());
        assert(l.drop_last().push(l.last()) =~= l);
    }
}

proof fn lemma_ignored_lines(lines: Seq<Seq<char>>, extra: Seq<Seq<char>>)
    requires
        forall|i: int| 0 <= i < extra.len() ==> is_ignored(#[trigger] extra[i]),
    ensures
        agree(lines + extra, lines),
    decreases extra.len(),
{
    if extra.len() == 0 {
        assert(lines + extra =~= lines);
    } else {
        let head = extra.drop_last();
        assert forall|i: int| 0 <= i < head.len() implies is_ignored(#[trigger] head[i]) by {
            assert(head[i] == extra[i]);
        }
        lemma_ignored_lines(lines, head);
        assert(is_ignored(extra[extra.len() - 1]));
        lemma_ignored_line(lines + head, extra.last());
        assert((lines + head).push(extra.last()) =~= lines + extra);
    }
}

proof fn lemma_other_section(lines: Seq<Seq<char>>, extra: Seq<Seq<char>>)
    requires
        extra.len() > 0,
        is_header(extra[0]),
        section(extra[0]) != "Desktop Entry"@,
        forall|i: int| 1 <= i < extra.len() ==> !is_header(#[trigger] extra[i]),
    ensures
        !is_inside(lines + extra),
        forall|key: Seq<char>| #[trigger]
            value(lines + extra, key) == value(lines, key) && filled_value(lines + extra, key)
                == filled_value(lines, key),
    decreases extra.len(),
{
    let all = lines + extra;
    assert(all.last() == extra.last());
    if extra.len() == 1 {
        assert(all.drop_last() =~= lines);
    } else {
        let head = extra.drop_last();
        assert forall|i: int| 1 <= i < head.len() implies !is_header(#[trigger] head[i]) by {
            assert(head[i] == extra[i]);
        }
        lemma_other_section(lines, head);
        assert(all.drop_last() =~= lines + head);
        assert(!is_header(extra[extra.len() - 1]));
        assert forall|key: Seq<char>| #[trigger]
            value(all, key) == value(lines, key) && filled_value(all, key) == filled_value(
                lines,
                key,
            ) by {
            assert(value(lines + head, key) == value(lines, key));
        }
    }
}

proof fn lemma_same_entry(a: Seq<char>, b: Seq<char>)
    requires
        forall|key: Seq<char>|
            is_read(key) ==> #[trigger] value(text::lines(a), key) == value(text::lines(b), key)
                && filled_value(text::lines(a), key) == filled_value(text::lines(b), key),
    ensures
        entry(a) == entry(b),
{
    let l = text::lines(a);
    assert(value(l, "Name"@) == value(text::lines(b), "Name"@));
    assert(value(l, "Exec"@) == value(text::lines(b), "Exec"@));
    assert(value(l, "Type"@) == value(text::lines(b), "Type"@));
    assert(value(l, "TryExec"@) == value(text::lines(b), "TryExec"@));
    assert(value(l, "Hidden"@) == value(text::lines(b), "Hidden"@));
    assert(value(l, "NoDisplay"@) == value(text::lines(b), "NoDisplay"@));
}

/// Blank lines, comments, names in other languages and actions are ignored.
pub proof fn law_unread_lines_are_ignored(line: Seq<char>)
    requires
        ({
            ||| text::trim(line).len() == 0
            ||| text::trim(line)[0] == '#'
            ||| !is_header(line) && text::begins_with(key_of(line), "Name["@)
            ||| !is_header(line) && key_of(line) == "Actions"@
        }),
    ensures
        is_ignored(line),
{
    reveal_strlit("Name[");
    reveal_strlit("Actions");
    reveal_strlit("Name");
    reveal_strlit("Exec");
    reveal_strlit("Type");
    reveal_strlit("TryExec");
    reveal_strlit("Hidden");
    reveal_strlit("NoDisplay");
    let key = key_of(line);
    if text::begins_with(key, "Name["@) {
        assert(key.len() >= 5);
        assert(key[0] == key.take(5)[0] && key[1] == key.take(5)[1]);
    }
    if key == "Actions"@ {
        assert(key[0] == 'A');
    }
}

/// Lines that are ignored can be appended to a file: its entry stays the same.
pub proof fn law_ignored_lines_change_nothing(contents: Seq<char>, extra: Seq<char>)
    requires
        forall|i: int|
            0 <= i < text::lines(extra).len() ==> is_ignored(#[trigger] text::lines(extra)[i]),
    ensures
        entry(contents + seq!['\n'] + extra) == entry(contents),
{
    let all = contents + seq!['\n'] + extra;
    let fed = text::lines(contents + seq!['\n']);
    text::lemma_lines_after_feed(contents, extra);
    lemma_fed_lines_agree(contents);
    lemma_ignored_lines(fed, text::lines(extra));
    assert forall|key: Seq<char>| is_read(key) implies #[trigger] value(text::lines(all), key)
        == value(text::lines(contents), key) && filled_value(text::lines(all), key)
        == filled_value(text::lines(contents), key) by {
        assert(value(fed, key) == value(text::lines(contents), key));
    }
    lemma_same_entry(all, contents);
}

/// Another section can be appended to a file, with whatever lines: its entry
/// stays the same.
pub proof fn law_other_sections_change_nothing(contents: Seq<char>, extra: Seq<char>)
    requires
        text::lines(extra).len() > 0,
        is_header(text::lines(extra)[0]),
        section(text::lines(extra)[0]) != "Desktop Entry"@,
        forall|i: int|
            1 <= i < text::lines(extra).len() ==> !is_header(#[trigger] text::lines(extra)[i]),
    ensures
        entry(contents + seq!['\n'] + extra) == entry(contents),
{
    let all = contents + seq!['\n'] + extra;
    let fed = text::lines(contents + seq!['\n']);
    text::lemma_lines_after_feed(contents, extra);
    lemma_fed_lines_agree(contents);
    lemma_other_section(fed, text::lines(extra));
    assert forall|key: Seq<char>| is_read(key) implies #[trigger] value(text::lines(all), key)
        == value(text::lines(contents), key) && filled_value(text::lines(all), key)
        == filled_value(text::lines(contents), key) by {
        assert(value(fed, key) == value(text::lines(contents), key));
    }
    lemma_same_entry(all, contents);
}

// ---------------------------------------------------------------------------
// What is read
// ---------------------------------------------------------------------------

/// Whether `s` holds nothing but white space.
pub open spec fn is_blank(s: Seq<char>) -> bool {
    forall|i: int| 0 <= i < s.len() ==> text::is_space(#[trigger] s[i])
}

/// Whether no white space stands around `s`.
pub open spec fn is_bare(s: Seq<char>) -> bool {
    s.len() > 0 ==> !text::is_space(s[0]) && !text::is_space(s.last())
}

/// Whether `s` can be a key: it is one word or more without an equals sign, and
/// begins neither a comment nor a section.
pub open spec fn can_be_key(s: Seq<char>) -> bool {
    &&& s.len() > 0
    &&& is_bare(s)
    &&& !s.contains('=')
    &&& s[0] != '#'
    &&& s[0] != '['
}

/// A key, an equals sign and a value on one line are read as such, with any
/// white space around each of them.
pub proof fn law_pair_is_read(
    a: Seq<char>,
    key: Seq<char>,
    b: Seq<char>,
    c: Seq<char>,
    v: Seq<char>,
    d: Seq<char>,
)
    requires
        is_blank(a),
        is_blank(b),
        is_blank(c),
        is_blank(d),
        can_be_key(key),
        is_bare(v),
    ensures
        ({
            let line = a + key + b + seq!['='] + c + v + d;
            is_pair(line) && !is_header(line) && key_of(line) == key && value_of(line) == v
        }),
{
    let line = a + key + b + seq!['='] + c + v + d;
    let at = (key.len() + b.len()) as int;
    let l = if v.len() > 0 {
        key + b + seq!['='] + c + v
    } else {
        key + b + seq!['=']
    };
    let behind = if v.len() > 0 {
        d
    } else {
        c + d
    };
    assert(line =~= a + l + behind);
    assert(l[0] == key[0]);
    if v.len() > 0 {
        assert(l.last() == v.last());
    } else {
        assert(l.last() == '=');
    }
    text::law_trim_takes_the_space_around(a, l, behind);
    assert(text::trim(line) == l);
    assert forall|j: int| 0 <= j < at implies !text::equals('=')(#[trigger] l[j]) by {
        if j < key.len() {
            assert(l[j] == key[j]);
            assert(key.contains(key[j]));
        } else {
            assert(l[j] == b[j - key.len()]);
        }
    }
    assert(l[at] == '=');
    text::lemma_find_is(l, text::equals('='), at);
    let none = Seq::<char>::empty();
    assert(l.take(at) =~= none + key + b);
    text::law_trim_takes_the_space_around(none, key, b);
    if v.len() > 0 {
        assert(l.skip(at + 1) =~= c + v + none);
        text::law_trim_takes_the_space_around(c, v, none);
    } else {
        assert(l.skip(at + 1) =~= none + v + none);
        text::law_trim_takes_the_space_around(none, v, none);
    }
}

/// A name in square brackets on a line begins the section of that name, with any
/// white space around it; and the lines that follow lie in `[Desktop Entry]`
/// where that is the name, and outside of it otherwise.
pub proof fn law_header_begins_its_section(
    lines: Seq<Seq<char>>,
    a: Seq<char>,
    name: Seq<char>,
    b: Seq<char>,
)
    requires
        is_blank(a),
        is_blank(b),
    ensures
        ({
            let line = a + seq!['['] + name + seq![']'] + b;
            &&& is_header(line)
            &&& section(line) == name
            &&& is_inside(lines.push(line)) <==> name == "Desktop Entry"@
        }),
{
    let l = seq!['['] + name + seq![']'];
    let line = a + seq!['['] + name + seq![']'] + b;
    assert(line =~= a + l + b);
    assert(l[0] == '[' && l.last() == ']');
    text::law_trim_takes_the_space_around(a, l, b);
    assert(l.subrange(1, l.len() - 1) =~= name);
    assert(lines.push(line).drop_last() =~= lines);
}

proof fn lemma_appended_line(contents: Seq<char>, line: Seq<char>)
    requires
        line.len() > 0,
        !line.contains('\n'),
    ensures
        agree(
            text::lines(contents + seq!['\n'] + line),
            text::lines(contents).push(line),
        ),
{
    let fed = text::lines(contents + seq!['\n']);
    text::lemma_lines_after_feed(contents, line);
    text::law_lines_end_with_a_feed(line, seq![]);
    assert(text::lines(line) == seq![line]);
    assert(fed + seq![line] =~= fed.push(line));
    lemma_fed_lines_agree(contents);
    lemma_agreeing_lines(fed, text::lines(contents), line, line);
}

proof fn lemma_pushed_pair(lines: Seq<Seq<char>>, key: Seq<char>, v: Seq<char>)
    requires
        can_be_key(key),
        is_bare(v),
    ensures
        ({
            let all = lines.push(key + seq!['='] + v);
            &&& is_inside(all) == is_inside(lines)
            &&& is_inside(lines) ==> value(all, key) == Some(v)
            &&& is_inside(lines) && v.len() > 0 ==> filled_value(all, key) == Some(v)
            &&& v.len() == 0 ==> filled_value(all, key) == filled_value(lines, key)
            &&& forall|k: Seq<char>|
                k != key || !is_inside(lines) ==> #[trigger] value(all, k) == value(lines, k)
                    && filled_value(all, k) == filled_value(lines, k)
        }),
{
    let line = key + seq!['='] + v;
    let none = Seq::<char>::empty();
    law_pair_is_read(none, key, none, none, v, none);
    assert(none + key + none + seq!['='] + none + v + none =~= line);
    assert(lines.push(line).drop_last() =~= lines);
    assert(lines.push(line).last() == line);
}

/// The last value counts. Within `[Desktop Entry]`, a line for one of the keys
/// that is appended to a file replaces the name, the command, the type or the
/// command that is tried, and leaves the others; and one that says that the entry
/// is hidden leaves no entry.
pub proof fn law_last_value_counts(contents: Seq<char>, v: Seq<char>)
    requires
        is_inside(text::lines(contents)),
        entry(contents) is Some,
        is_bare(v),
        !v.contains('\n'),
    ensures
        ({
            let e = entry(contents)->0;
            let more = contents + seq!['\n'];
            &&& entry(more + ("Name="@ + v)) == Some(EntryView { name: v, ..e })
            &&& entry(more + ("Exec="@ + v)) == Some(EntryView { command: v, ..e })
            &&& entry(more + ("Type="@ + v)) == Some(EntryView { entry_type: v, ..e })
            &&& v.len() > 0 ==> entry(more + ("TryExec="@ + v)) == Some(
                EntryView { try_exec: Some(v), ..e },
            )
            &&& v.len() == 0 ==> entry(more + ("TryExec="@ + v)) == Some(e)
            &&& text::same_but_case(v, "true"@) ==> entry(more + ("Hidden="@ + v)) is None
                && entry(more + ("NoDisplay="@ + v)) is None
            &&& !text::same_but_case(v, "true"@) ==> entry(more + ("Hidden="@ + v)) == Some(e)
                && entry(more + ("NoDisplay="@ + v)) == Some(e)
        }),
{
    lemma_keys_differ();
    text::law_trim_takes_the_space_around(seq![], v, seq![]);
    assert(Seq::<char>::empty() + v + Seq::<char>::empty() =~= v);
    lemma_appended_key(contents, "Name"@, v);
    lemma_appended_key(contents, "Exec"@, v);
    lemma_appended_key(contents, "Type"@, v);
    lemma_appended_key(contents, "TryExec"@, v);
    lemma_appended_key(contents, "Hidden"@, v);
    lemma_appended_key(contents, "NoDisplay"@, v);
    assert("Name="@ + v =~= "Name"@ + seq!['='] + v);
    assert("Exec="@ + v =~= "Exec"@ + seq!['='] + v);
    assert("Type="@ + v =~= "Type"@ + seq!['='] + v);
    assert("TryExec="@ + v =~= "TryExec"@ + seq!['='] + v);
    assert("Hidden="@ + v =~= "Hidden"@ + seq!['='] + v);
    assert("NoDisplay="@ + v =~= "NoDisplay"@ + seq!['='] + v);
}

proof fn lemma_keys_differ()
    ensures
        can_be_key("Name"@),
        can_be_key("Exec"@),
        can_be_key("Type"@),
        can_be_key("TryExec"@),
        can_be_key("Hidden"@),
        can_be_key("NoDisplay"@),
        "Name="@ == "Name"@ + seq!['='],
        "Exec="@ == "Exec"@ + seq!['='],
        "Type="@ == "Type"@ + seq!['='],
        "TryExec="@ == "TryExec"@ + seq!['='],
        "Hidden="@ == "Hidden"@ + seq!['='],
        "NoDisplay="@ == "NoDisplay"@ + seq!['='],
        forall|i: int| 0 <= i < "Name"@.len() ==> "Name"@[i] != '\n',
        forall|i: int| 0 <= i < "Exec"@.len() ==> "Exec"@[i] != '\n',
        forall|i: int| 0 <= i < "Type"@.len() ==> "Type"@[i] != '\n',
        forall|i: int| 0 <= i < "TryExec"@.len() ==> "TryExec"@[i] != '\n',
        forall|i: int| 0 <= i < "Hidden"@.len() ==> "Hidden"@[i] != '\n',
        forall|i: int| 0 <= i < "NoDisplay"@.len() ==> "NoDisplay"@[i] != '\n',
        "Name"@[0] == 'N' && "Name"@.len() == 4 && "Name"@[1] == 'a',
        "Exec"@[0] == 'E' && "Exec"@.len() == 4,
        "Type"@[0] == 'T' && "Type"@.len() == 4,
        "TryExec"@[0] == 'T' && "TryExec"@.len() == 7,
        "Hidden"@[0] == 'H',
        "NoDisplay"@[0] == 'N' && "NoDisplay"@.len() == 9,
{
    reveal_strlit("Name");
    reveal_strlit("Exec");
    reveal_strlit("Type");
    reveal_strlit("TryExec");
    reveal_strlit("Hidden");
    reveal_strlit("NoDisplay");
    reveal_strlit("Name=");
    reveal_strlit("Exec=");
    reveal_strlit("Type=");
    reveal_strlit("TryExec=");
    reveal_strlit("Hidden=");
    reveal_strlit("NoDisplay=");
    assert("Name="@ =~= "Name"@ + seq!['=']);
    assert("Exec="@ =~= "Exec"@ + seq!['=']);
    assert("Type="@ =~= "Type"@ + seq!['=']);
    assert("TryExec="@ =~= "TryExec"@ + seq!['=']);
    assert("Hidden="@ =~= "Hidden"@ + seq!['=']);
    assert("NoDisplay="@ =~= "NoDisplay"@ + seq!['=']);
}

proof fn lemma_appended_key(contents: Seq<char>, key: Seq<char>, v: Seq<char>)
    requires
        is_inside(text::lines(contents)),
        is_read(key),
        can_be_key(key),
        forall|i: int| 0 <= i < key.len() ==> key[i] != '\n',
        is_bare(v),
        !v.contains('\n'),
    ensures
        ({
            let l = text::lines(contents);
            let all = text::lines(contents + seq!['\n'] + (key + seq!['='] + v));
            &&& is_inside(all)
            &&& value(all, key) == Some(v)
            &&& filled_value(all, key) == (if v.len() > 0 {
                Some(v)
            } else {
                filled_value(l, key)
            })
            &&& key != "TryExec"@ ==> filled_value(all, "TryExec"@) == filled_value(l, "TryExec"@)
            &&& forall|k: Seq<char>|
                is_read(k) && k != key ==> #[trigger] value(all, k) == value(l, k) && filled_value(
                    all,
                    k,
                ) == filled_value(l, k)
        }),
{
    let line = key + seq!['='] + v;
    assert forall|i: int| 0 <= i < line.len() implies line[i] != '\n' by {
        if i < key.len() {
            assert(line[i] == key[i]);
        } else if i > key.len() {
            assert(line[i] == v[i - key.len() - 1]);
            assert(v.contains(v[i - key.len() - 1]));
        }
    }
    lemma_appended_line(contents, line);
    let l = text::lines(contents);
    let all = text::lines(contents + seq!['\n'] + line);
    lemma_pushed_pair(l, key, v);
    assert(value(all, key) == value(l.push(line), key));
    assert forall|k: Seq<char>| is_read(k) && k != key implies #[trigger] value(all, k) == value(l, k)
        && filled_value(all, k) == filled_value(l, k) by {
        assert(value(all, k) == value(l.push(line), k));
    }
    assert(key != "TryExec"@ ==> value(all, "TryExec"@) == value(l, "TryExec"@));
}

/// A file that gives a name and a command, and nothing else, is the entry of an
/// application of that name and with that command.
pub proof fn law_name_and_command_make_an_entry(name: Seq<char>, command: Seq<char>)
    requires
        is_bare(name),
        is_bare(command),
        !name.contains('\n'),
        !command.contains('\n'),
    ensures
        ({
            let contents = "[Desktop Entry]"@ + seq!['\n'] + ("Name="@ + name) + seq!['\n'] + (
            "Exec="@ + command);
            &&& entry(contents) == Some(
                EntryView { name, command, entry_type: "Application"@, try_exec: None },
            )
            &&& is_inside(text::lines(contents))
        }),
{
    let head = "[Desktop Entry]"@;
    reveal_strlit("[Desktop Entry]");
    reveal_strlit("Desktop Entry");
    lemma_keys_differ();
    text::law_lines_end_with_a_feed(head, seq![]);
    let none = Seq::<Seq<char>>::empty();
    let blank = Seq::<char>::empty();
    law_header_begins_its_section(none, blank, "Desktop Entry"@, blank);
    assert(blank + seq!['['] + "Desktop Entry"@ + seq![']'] + blank =~= head);
    assert(none.push(head) =~= seq![head]);
    let l0 = text::lines(head);
    assert(l0 == none.push(head));
    assert(l0.drop_last() =~= none);
    assert(!is_pair(head));
    assert(forall|k: Seq<char>| #[trigger] value(l0, k) == value(none, k));
    assert(filled_value(l0, "TryExec"@) == filled_value(none, "TryExec"@));
    let named = head + seq!['\n'] + ("Name="@ + name);
    lemma_appended_key(head, "Name"@, name);
    assert("Name="@ + name =~= "Name"@ + seq!['='] + name);
    lemma_appended_key(named, "Exec"@, command);
    assert("Exec="@ + command =~= "Exec"@ + seq!['='] + command);
    let l1 = text::lines(named);
    let l2 = text::lines(named + seq!['\n'] + ("Exec="@ + command));
    assert(value(l2, "Name"@) == value(l1, "Name"@));
    assert(value(l2, "Type"@) == value(l1, "Type"@) && value(l1, "Type"@) == value(l0, "Type"@));
    assert(value(l2, "TryExec"@) == value(l1, "TryExec"@) && value(l1, "TryExec"@) == value(l0, "TryExec"@));
    assert(value(l2, "Hidden"@) == value(l1, "Hidden"@) && value(l1, "Hidden"@) == value(l0, "Hidden"@));
    assert(value(l2, "NoDisplay"@) == value(l1, "NoDisplay"@) && value(l1, "NoDisplay"@) == value(l0, "NoDisplay"@));
}

/// A line for a key that is read is read wherever the lines before it end in
/// `[Desktop Entry]`, and nowhere else: its value is then the key's, and the
/// other keys keep theirs.
pub proof fn law_appended_pair_is_read(
    lines: Seq<Seq<char>>,
    key: Seq<char>,
    v: Seq<char>,
    other: Seq<char>,
)
    requires
        can_be_key(key),
        is_bare(v),
        other != key,
    ensures
        ({
            let all = lines.push(key + seq!['='] + v);
            &&& is_inside(all) == is_inside(lines)
            &&& is_inside(lines) ==> value(all, key) == Some(v)
            &&& is_inside(lines) && v.len() > 0 ==> filled_value(all, key) == Some(v)
            &&& is_inside(lines) && v.len() == 0 ==> filled_value(all, key) == filled_value(
                lines,
                key,
            )
            &&& !is_inside(lines) ==> value(all, key) == value(lines, key)
            &&& value(all, other) == value(lines, other)
            &&& filled_value(all, other) == filled_value(lines, other)
        }),
{
    lemma_pushed_pair(lines, key, v);
}

/// An entry is what the file's last values say: hidden where one of two keys
/// says so, else there where it has a name and a command, of the type
/// `Application` where it names none.
pub proof fn law_entry_holds_the_last_values(contents: Seq<char>, name: Seq<char>, command: Seq<char>)
    requires
        value(text::lines(contents), "Name"@) == Some(name),
        value(text::lines(contents), "Exec"@) == Some(command),
        value(text::lines(contents), "Hidden"@) is None,
        value(text::lines(contents), "NoDisplay"@) is None,
    ensures
        entry(contents) is Some,
        (entry(contents)->0).name == name,
        (entry(contents)->0).command == command,
        (entry(contents)->0).try_exec == filled_value(text::lines(contents), "TryExec"@),
        value(text::lines(contents), "Type"@) matches Some(t) ==> (entry(contents)->0).entry_type
            == t,
        value(text::lines(contents), "Type"@) is None ==> (entry(contents)->0).entry_type
            == "Application"@,
{
}

/// What hides an entry can be taken back by a later line.
pub proof fn law_hiding_can_be_taken_back(contents: Seq<char>)
    requires
        is_inside(text::lines(contents)),
        entry(contents) is Some,
    ensures
        entry(contents + seq!['\n'] + "Hidden=true"@) is None,
        entry(contents + seq!['\n'] + "Hidden=true"@ + seq!['\n'] + "Hidden=false"@) == entry(
            contents,
        ),
        entry(contents + seq!['\n'] + "NoDisplay=true"@) is None,
        entry(contents + seq!['\n'] + "NoDisplay=true"@ + seq!['\n'] + "NoDisplay=false"@)
            == entry(contents),
{
    reveal_strlit("Hidden=true");
    reveal_strlit("Hidden=false");
    reveal_strlit("NoDisplay=true");
    reveal_strlit("NoDisplay=false");
    reveal_strlit("true");
    reveal_strlit("false");
    lemma_keys_differ();
    reveal_strlit("Hidden");
    reveal_strlit("NoDisplay");
    assert("Hidden=true"@ =~= "Hidden"@ + seq!['='] + "true"@);
    assert("Hidden=false"@ =~= "Hidden"@ + seq!['='] + "false"@);
    assert("NoDisplay=true"@ =~= "NoDisplay"@ + seq!['='] + "true"@);
    assert("NoDisplay=false"@ =~= "NoDisplay"@ + seq!['='] + "false"@);
    lemma_taken_back(contents, "Hidden"@);
    lemma_taken_back(contents, "NoDisplay"@);
}

proof fn lemma_taken_back(contents: Seq<char>, key: Seq<char>)
    requires
        is_inside(text::lines(contents)),
        entry(contents) is Some,
        key == "Hidden"@ || key == "NoDisplay"@,
    ensures
        ({
            let hidden = contents + seq!['\n'] + (key + seq!['='] + "true"@);
            let back = hidden + seq!['\n'] + (key + seq!['='] + "false"@);
            entry(hidden) is None && entry(back) == entry(contents)
        }),
{
    reveal_strlit("true");
    reveal_strlit("false");
    lemma_keys_differ();
    let yes = "true"@;
    let no = "false"@;
    let none = Seq::<char>::empty();
    text::law_trim_takes_the_space_around(none, yes, none);
    text::law_trim_takes_the_space_around(none, no, none);
    assert(none + yes + none =~= yes);
    assert(none + no + none =~= no);
    lemma_appended_key(contents, key, yes);
    let hidden = contents + seq!['\n'] + (key + seq!['='] + yes);
    lemma_appended_key(hidden, key, no);
    let back = hidden + seq!['\n'] + (key + seq!['='] + no);
    let l = text::lines(contents);
    let h = text::lines(hidden);
    let b = text::lines(back);
    assert(yes.len() == 4 && no.len() == 5);
    assert(!text::same_but_case(no, yes)) by {
        text::law_case_makes_no_difference(no, yes);
    }
    assert(value(b, "Name"@) == value(h, "Name"@) && value(h, "Name"@) == value(l, "Name"@));
    assert(value(b, "Exec"@) == value(h, "Exec"@) && value(h, "Exec"@) == value(l, "Exec"@));
    assert(value(b, "Type"@) == value(h, "Type"@) && value(h, "Type"@) == value(l, "Type"@));
    if key == "Hidden"@ {
        assert(value(b, "NoDisplay"@) == value(h, "NoDisplay"@));
        assert(value(h, "NoDisplay"@) == value(l, "NoDisplay"@));
    } else {
        assert(value(b, "Hidden"@) == value(h, "Hidden"@));
        assert(value(h, "Hidden"@) == value(l, "Hidden"@));
    }
}

/// Without the section there is no entry, whatever the lines say; and a line
/// without an equals sign gives no value.
pub proof fn law_nothing_is_read_outside_the_section(contents: Seq<char>, line: Seq<char>)
    requires
        forall|i: int|
            0 <= i < text::lines(contents).len() ==> !is_header(
                #[trigger] text::lines(contents)[i],
            ),
    ensures
        entry(contents) is None,
        !text::trim(line).contains('=') ==> !is_pair(line),
{
    lemma_no_section(text::lines(contents), "Name"@);
    let l = text::trim(line);
    text::lemma_find(l, text::equals('='));
    if text::find(l, text::equals('=')) < l.len() {
        assert(l[text::find(l, text::equals('='))] == '=');
    }
}

proof fn lemma_no_section(lines: Seq<Seq<char>>, key: Seq<char>)
    requires
        forall|i: int| 0 <= i < lines.len() ==> !is_header(#[trigger] lines[i]),
    ensures
        !is_inside(lines),
        value(lines, key) is None,
    decreases lines.len(),
{
    if lines.len() > 0 {
        let head = lines.drop_last();
        assert forall|i: int| 0 <= i < head.len() implies !is_header(#[trigger] head[i]) by {
            assert(head[i] == lines[i]);
        }
        lemma_no_section(head, key);
        assert(!is_header(lines[lines.len() - 1]));
    }
}

proof fn lemma_no_such_key(lines: Seq<Seq<char>>, key: Seq<char>)
    requires
        forall|i: int|
            0 <= i < lines.len() ==> !(is_pair(#[trigger] lines[i]) && key_of(lines[i]) == key),
    ensures
        value(lines, key) is None,
        filled_value(lines, key) is None,
    decreases lines.len(),
{
    if lines.len() > 0 {
        let head = lines.drop_last();
        assert forall|i: int| 0 <= i < head.len() implies !(is_pair(#[trigger] head[i]) && key_of(
            head[i],
        ) == key) by {
            assert(head[i] == lines[i]);
        }
        lemma_no_such_key(head, key);
        assert(!(is_pair(lines[lines.len() - 1]) && key_of(lines[lines.len() - 1]) == key));
    }
}

/// A file that gives no name, or no command, holds no entry; one that names no
/// command to try needs none.
pub proof fn law_entry_needs_name_and_command(contents: Seq<char>, key: Seq<char>)
    requires
        forall|i: int|
            0 <= i < text::lines(contents).len() ==> !(is_pair(#[trigger] text::lines(contents)[i])
                && key_of(text::lines(contents)[i]) == key),
    ensures
        key == "Name"@ || key == "Exec"@ ==> entry(contents) is None,
        key == "TryExec"@ && entry(contents) is Some ==> (entry(contents)->0).try_exec is None,
        key == "Type"@ && entry(contents) is Some ==> (entry(contents)->0).entry_type
            == "Application"@,
{
    lemma_no_such_key(text::lines(contents), key);
}

// ---------------------------------------------------------------------------
// Directories
// ---------------------------------------------------------------------------

/// A file of a directory that may hold an entry.
#[derive(Debug, Clone)]
pub struct DesktopFile {
    /// The file's name up to its extension, where it is text.
    pub stem: Option<String>,
    pub extension: Option<String>,
    /// What the file holds, where it could be read as text.
    pub contents: Option<String>,
    /// The command that the entry's `TryExec` names cannot be run.
    pub command_missing: bool,
}

/// What a [`DesktopFile`] stands for: its name's stem and the entry in it. None
/// for a file with another extension, one that cannot be read, one without an
/// entry, and one whose `TryExec` is missing.
pub open spec fn found(f: DesktopFile) -> Option<(Seq<char>, EntryView)> {
    match (held(f.extension), held(f.stem), held(f.contents)) {
        (Some(ext), Some(stem), Some(contents)) => match entry(contents) {
            Some(e) => if ext == "desktop"@ && !(e.try_exec is Some && f.command_missing) {
                Some((stem, e))
            } else {
                None
            },
            None => None,
        },
        _ => None,
    }
}

/// The entries of several files, in the files' order.
pub open spec fn all_found(files: Seq<DesktopFile>) -> Seq<(Seq<char>, EntryView)>
    decreases files.len(),
{
    if files.len() == 0 {
        seq![]
    } else {
        match found(files.last()) {
            Some(e) => all_found(files.drop_last()).push(e),
            None => all_found(files.drop_last()),
        }
    }
}

/// The order of entries by the stems of their files.
pub open spec fn by_stem() -> sort::Order<(Seq<char>, EntryView)> {
    |a: (Seq<char>, EntryView), b: (Seq<char>, EntryView)| text::ordered(a.0, b.0)
}

impl Ranked for (String, DesktopEntry) {
    open spec fn order() -> sort::Order<(Seq<char>, EntryView)> {
        by_stem()
    }

    fn precedes(&self, other: &Self) -> (r: bool) {
        text::str_ordered(self.0.as_str(), other.0.as_str())
    }
}

/// The order of entries is one: of two stems one may stand before the other, and
/// so on.
pub proof fn lemma_by_stem_is_order()
    ensures
        sort::is_order(by_stem()),
{
    assert forall|a: (Seq<char>, EntryView), b: (Seq<char>, EntryView)| #[trigger]
        by_stem()(a, b) || by_stem()(b, a) by {
        text::lemma_ordered_total(a.0, b.0);
    }
    assert forall|
        a: (Seq<char>, EntryView),
        b: (Seq<char>, EntryView),
        c: (Seq<char>, EntryView),
    | #[trigger]
        by_stem()(a, b) && #[trigger] by_stem()(b, c) implies by_stem()(a, c) by {
        text::lemma_ordered_transitive(a.0, b.0, c.0);
    }
}

/// The entries of a directory, sorted by stem. `files` is None for a directory
/// that cannot be read, which holds none.
pub open spec fn scanned(files: Option<Seq<DesktopFile>>) -> Seq<(Seq<char>, EntryView)> {
    match files {
        Some(f) => sort::sorted(all_found(f), by_stem()),
        None => seq![],
    }
}

/// The entries of a directory come sorted by stem, and are those of its files.
pub proof fn law_scan_is_sorted(files: Seq<DesktopFile>)
    ensures
        sort::in_order(scanned(Some(files)), by_stem()),
        scanned(Some(files)).to_multiset() == all_found(files).to_multiset(),
{
    lemma_by_stem_is_order();
    sort::law_sorted_is_in_order(all_found(files), by_stem());
}

/// Every `.desktop` file with a stem that can be read and holds an entry is
/// found with that entry, unless the entry names a command to try and that is
/// missing.
pub proof fn law_useful_file_is_found(f: DesktopFile, stem: Seq<char>, contents: Seq<char>, e: EntryView)
    requires
        f.extension is Some && (f.extension->0)@ == "desktop"@,
        f.stem is Some && (f.stem->0)@ == stem,
        f.contents is Some && (f.contents->0)@ == contents,
        entry(contents) == Some(e),
    ensures
        !f.command_missing ==> found(f) == Some((stem, e)),
        e.try_exec is None ==> found(f) == Some((stem, e)),
        e.try_exec is Some && f.command_missing ==> found(f) is None,
{
}

/// A file of another kind, without a name that is text, that cannot be read or
/// holds no entry is not found.
pub proof fn law_other_files_are_not_found(f: DesktopFile)
    requires
        f.extension is None || (f.extension->0)@ != "desktop"@ || f.stem is None || f.contents
            is None || entry((f.contents->0)@) is None,
    ensures
        found(f) is None,
{
}

proof fn lemma_all_found_holds(files: Seq<DesktopFile>, i: int)
    requires
        0 <= i < files.len(),
        found(files[i]) is Some,
    ensures
        all_found(files).contains(found(files[i])->0),
    decreases files.len(),
{
    let e = found(files[i])->0;
    let all = all_found(files);
    let head = all_found(files.drop_last());
    if i < files.len() - 1 {
        lemma_all_found_holds(files.drop_last(), i);
        assert(files.drop_last()[i] == files[i]);
        let k = choose|k: int| 0 <= k < head.len() && head[k] == e;
        assert(all[k] == e);
    } else {
        assert(all[all.len() - 1] == e);
    }
}

proof fn lemma_all_found_is_found(files: Seq<DesktopFile>, k: int)
    requires
        0 <= k < all_found(files).len(),
    ensures
        exists|i: int|
            0 <= i < files.len() && found(#[trigger] files[i]) == Some(all_found(files)[k]),
    decreases files.len(),
{
    if files.len() > 0 {
        let d = files.drop_last();
        let head = all_found(d);
        if k < head.len() {
            lemma_all_found_is_found(d, k);
            let i = choose|i: int|
                0 <= i < d.len() && found(#[trigger] d[i]) == Some(all_found(d)[k]);
            assert(files[i] == d[i]);
            assert(all_found(files)[k] == head[k]);
        } else {
            assert(found(files[files.len() - 1]) == Some(all_found(files)[k]));
        }
    }
}

proof fn lemma_same_members(files: Seq<DesktopFile>, x: (Seq<char>, EntryView))
    ensures
        scanned(Some(files)).contains(x) <==> all_found(files).contains(x),
{
    law_scan_is_sorted(files);
    broadcast use vstd::seq_lib::group_to_multiset_ensures;

    assert(scanned(Some(files)).to_multiset().count(x) == all_found(files).to_multiset().count(x));
}

/// The entry of every useful file is among those of the directory, whichever
/// other files it holds.
pub proof fn law_scan_misses_nothing(
    files: Seq<DesktopFile>,
    i: int,
    stem: Seq<char>,
    contents: Seq<char>,
    e: EntryView,
)
    requires
        0 <= i < files.len(),
        files[i].extension is Some && (files[i].extension->0)@ == "desktop"@,
        files[i].stem is Some && (files[i].stem->0)@ == stem,
        files[i].contents is Some && (files[i].contents->0)@ == contents,
        entry(contents) == Some(e),
        e.try_exec is None || !files[i].command_missing,
    ensures
        scanned(Some(files)).contains((stem, e)),
{
    law_useful_file_is_found(files[i], stem, contents, e);
    lemma_all_found_holds(files, i);
    lemma_same_members(files, (stem, e));
}

/// Each entry of a directory is that of one of its useful files, under that
/// file's stem, and there are no more entries than files. A directory that
/// cannot be read has none.
pub proof fn law_scan_adds_nothing(files: Seq<DesktopFile>, k: int)
    requires
        0 <= k < scanned(Some(files)).len(),
    ensures
        exists|i: int|
            #![trigger files[i]]
            {
                let f = files[i];
                let (stem, e) = scanned(Some(files))[k];
                &&& 0 <= i < files.len()
                &&& f.extension is Some && (f.extension->0)@ == "desktop"@
                &&& f.stem is Some && (f.stem->0)@ == stem
                &&& f.contents is Some && entry((f.contents->0)@) == Some(e)
                &&& e.try_exec is None || !f.command_missing
            },
        scanned(None).len() == 0,
{
    let x = scanned(Some(files))[k];
    lemma_same_members(files, x);
    assert(scanned(Some(files)).contains(x));
    let j = choose|j: int| 0 <= j < all_found(files).len() && all_found(files)[j] == x;
    lemma_all_found_is_found(files, j);
    let i = choose|i: int|
        0 <= i < files.len() && found(#[trigger] files[i]) == Some(all_found(files)[j]);
    let f = files[i];
    assert(found(f) == Some(x));
}

/// The entries of a directory come in the order of their stems, and there are as
/// many as files that are found.
pub proof fn law_scan_is_in_order_of_stems(files: Seq<DesktopFile>)
    ensures
        forall|i: int, j: int|
            0 <= i < j < scanned(Some(files)).len() ==> text::ordered(
                (#[trigger] scanned(Some(files))[i]).0,
                (#[trigger] scanned(Some(files))[j]).0,
            ),
        scanned(Some(files)).len() == files.filter(|f: DesktopFile| found(f) is Some).len(),
{
    law_scan_is_sorted(files);
    let s = scanned(Some(files));
    assert forall|i: int, j: int| 0 <= i < j < s.len() implies text::ordered(
        (#[trigger] s[i]).0,
        (#[trigger] s[j]).0,
    ) by {
        assert(by_stem()(s[i], s[j]));
    }
    lemma_by_stem_is_order();
    sort::law_sorted_is_in_order(all_found(files), by_stem());
    lemma_as_many_as_found(files);
}

proof fn lemma_as_many_as_found(files: Seq<DesktopFile>)
    ensures
        all_found(files).len() == files.filter(|f: DesktopFile| found(f) is Some).len(),
    decreases files.len(),
{
    reveal(Seq::filter);
    if files.len() > 0 {
        lemma_as_many_as_found(files.drop_last());
    }
}

/// The command whose absence makes an entry useless, for a file that holds
/// `contents`.
pub fn required_command(contents: &str) -> (r: Option<String>)
    ensures
        held(r) == (match entry(contents@) {
            Some(e) => e.try_exec,
            None => None,
        }),
{
    match parse(contents) {
        Some(e) => e.try_exec,
        None => None,
    }
}

/// Whether a command is looked for in the directories of `$PATH`: it is not a
/// path itself.
pub fn is_searched(command: &str) -> (r: bool)
    ensures
        r == !command@.contains('/'),
{
    !text::has_char(command, '/')
}

/// Whether a file can be run: it is a regular file, and someone may execute it.
pub fn is_runnable(is_file: bool, mode: u32) -> (r: bool)
    ensures
        r == (is_file && mode & 0o111 != 0),
{
    is_file && mode & 0o111 != 0
}

fn read_file(f: &DesktopFile) -> (r: Option<(String, DesktopEntry)>)
    ensures
        (match r {
            Some((stem, e)) => Some((stem@, e@)),
            None => None,
        }) == found(*f),
{
    match (&f.extension, &f.stem, &f.contents) {
        (Some(ext), Some(stem), Some(contents)) => match parse(contents.as_str()) {
            Some(e) => if text::same(ext.as_str(), "desktop") && !(e.try_exec.is_some()
                && f.command_missing) {
                Some((stem.clone(), e))
            } else {
                None
            },
            None => None,
        },
        _ => None,
    }
}

/// The entries of a directory with their stems, sorted by stem. `files` is None
/// for a directory that cannot be read: that is no error, it is just empty.
pub fn scan_dir(files: &Option<Vec<DesktopFile>>) -> (out: Vec<(String, DesktopEntry)>)
    ensures
        sort::views(out@) == scanned(match *files {
            Some(f) => Some(f@),
            None => None,
        }),
{
    let mut entries: Vec<(String, DesktopEntry)> = Vec::new();
    match files {
        Some(list) => {
            assert(sort::views(entries@) =~= all_found(list@.take(0)));
            for i in 0..list.len()
                invariant
                    sort::views(entries@) == all_found(list@.take(i as int)),
            {
                proof {
                    assert(list@.take(i + 1).drop_last() =~= list@.take(i as int));
                }
                let ghost before = entries@;
                match read_file(&list[i]) {
                    Some(e) => {
                        entries.push(e);
                        assert(sort::views(entries@) =~= sort::views(before).push(e@));
                    },
                    None => {},
                }
            }
            assert(list@.take(list@.len() as int) =~= list@);
            sort::sort(entries)
        },
        None => {
            assert(sort::views(entries@) =~= seq![]);
            entries
        },
    }
}

} // verus!
