//! The sessions that can be started: the entries of the session directories,
//! and the command line that each of them stands for.

use crate::sort;
use crate::text;
use crate::ui::desktop_entry;
use crate::ui::desktop_entry::{DesktopFile, EntryView};
use vstd::prelude::*;

verus! {

/// What a session runs on.
#[derive(Debug, Clone, Copy, PartialEq, Eq, Structural)]
pub enum SessionKind {
    Wayland,
    X11,
}

/// A session that can be started.
#[derive(Debug, Clone, PartialEq, Eq)]
pub struct Session {
    /// The stem of the entry's file, by which the default session is named.
    pub stem: String,
    pub name: String,
    /// The command and its arguments.
    pub command: Vec<String>,
    pub kind: SessionKind,
}

/// What a [`Session`] holds.
#[verifier::ext_equal]
pub struct SessionView {
    pub stem: Seq<char>,
    pub name: Seq<char>,
    pub command: Seq<Seq<char>>,
    pub kind: SessionKind,
}

impl View for Session {
    type V = SessionView;

    open spec fn view(&self) -> SessionView {
        SessionView {
            stem: self.stem@,
            name: self.name@,
            command: text::views(self.command@),
            kind: self.kind,
        }
    }
}

// ---------------------------------------------------------------------------
// Command lines
// ---------------------------------------------------------------------------

/// The arguments of a command line, when `cur` was read of the first of them
/// and `quote` is the quotation mark that is open.
///
/// White space outside of quotation marks separates arguments. Within double
/// quotation marks and outside of any, a backslash takes the next character as
/// it is; within single ones it stands for itself. A quotation mark may open
/// and close within an argument, and one that is never closed reaches to the
/// end. There are no empty arguments.
pub open spec fn tokens(s: Seq<char>, cur: Seq<char>, quote: Option<char>) -> Seq<Seq<char>>
    decreases s.len(),
{
    if s.len() == 0 {
        finished(cur)
    } else {
        let c = s[0];
        let rest = s.skip(1);
        if quote == Some(c) {
            tokens(rest, cur, None)
        } else if c == '\\' && quote != Some('\'') {
            if rest.len() == 0 {
                tokens(rest, cur.push(c), quote)
            } else {
                tokens(rest.skip(1), cur.push(rest[0]), quote)
            }
        } else if quote is Some {
            tokens(rest, cur.push(c), quote)
        } else if c == '"' || c == '\'' {
            tokens(rest, cur, Some(c))
        } else if text::is_space(c) {
            finished(cur) + tokens(rest, seq![], None)
        } else {
            tokens(rest, cur.push(c), None)
        }
    }
}

/// An argument that was read to its end, and nothing where there is none.
pub open spec fn finished(cur: Seq<char>) -> Seq<Seq<char>> {
    if cur.len() > 0 {
        seq![cur]
    } else {
        seq![]
    }
}

/// Whether an argument is one that the launcher would replace, such as the file
/// to open.
pub open spec fn is_code(arg: Seq<char>) -> bool {
    ||| arg == "%f"@
    ||| arg == "%F"@
    ||| arg == "%u"@
    ||| arg == "%U"@
    ||| arg == "%d"@
    ||| arg == "%D"@
    ||| arg == "%n"@
    ||| arg == "%N"@
    ||| arg == "%i"@
    ||| arg == "%c"@
    ||| arg == "%k"@
    ||| arg == "%v"@
    ||| arg == "%m"@
}

/// `arg` with each doubled percent sign made one.
pub open spec fn unescaped(arg: Seq<char>) -> Seq<char>
    decreases arg.len(),
{
    if arg.len() == 0 {
        seq![]
    } else if arg.len() > 1 && arg[0] == '%' && arg[1] == '%' {
        seq!['%'] + unescaped(arg.skip(2))
    } else {
        seq![arg[0]] + unescaped(arg.skip(1))
    }
}

/// The arguments that are handed on: those that the launcher would replace are
/// left out.
pub open spec fn arguments(tokens: Seq<Seq<char>>) -> Seq<Seq<char>>
    decreases tokens.len(),
{
    if tokens.len() == 0 {
        seq![]
    } else {
        let head = arguments(tokens.drop_last());
        if is_code(tokens.last()) || unescaped(tokens.last()).len() == 0 {
            head
        } else {
            head.push(unescaped(tokens.last()))
        }
    }
}

/// The command and its arguments that an entry's `Exec` stands for.
pub open spec fn command_of(line: Seq<char>) -> Seq<Seq<char>> {
    arguments(tokens(line, seq![], None))
}

fn flush(args: &mut Vec<String>, cur: String)
    ensures
        text::views(final(args)@) == text::views(old(args)@) + finished(cur@),
{
    let ghost before = args@;
    if !cur.as_str().is_empty() {
        args.push(cur);
        assert(text::views(args@) =~= text::views(before) + finished(cur@));
    } else {
        assert(text::views(args@) =~= text::views(before) + finished(cur@));
    }
}

/// The arguments of a command line.
pub fn tokenize_exec(line: &str) -> (r: Vec<String>)
    ensures
        text::views(r@) == tokens(line@, seq![], None),
{
    let cs = text::chars_of(line);
    let mut args: Vec<String> = Vec::new();
    let mut cur = String::new();
    let mut quote: Option<char> = None;
    let mut i: usize = 0;
    proof {
        assert(cs@.skip(0) =~= cs@);
        assert(cur@ =~= seq![]);
        assert(text::views(args@) + tokens(line@, seq![], None) =~= tokens(line@, seq![], None));
    }
    while i < cs.len()
        invariant
            i <= cs@.len(),
            cs@ == line@,
            text::views(args@) + tokens(cs@.skip(i as int), cur@, quote) == tokens(
                line@,
                seq![],
                None,
            ),
        decreases cs@.len() - i,
    {
        let c = cs[i];
        let ghost rest = cs@.skip(i as int);
        proof {
            assert(rest.skip(1) =~= cs@.skip(i + 1));
            if i + 1 < cs@.len() {
                assert(rest.skip(1).skip(1) =~= cs@.skip(i + 2));
            }
        }
        let in_single: bool = match quote {
            Some(q) => q == '\'',
            None => false,
        };
        let closes: bool = match quote {
            Some(q) => q == c,
            None => false,
        };
        if closes {
            quote = None;
        } else if c == '\\' && !in_single {
            if i + 1 < cs.len() {
                cur.push(cs[i + 1]);
                i += 1;
            } else {
                cur.push(c);
            }
        } else if quote.is_some() {
            cur.push(c);
        } else if c == '"' || c == '\'' {
            quote = Some(c);
        } else if text::char_is_space(c) {
            let ghost before = text::views(args@);
            let ghost word = cur@;
            flush(&mut args, cur);
            cur = String::new();
            proof {
                assert(cur@ =~= seq![]);
                assert(text::views(args@) + tokens(rest.skip(1), seq![], None) =~= before + (
                finished(word) + tokens(rest.skip(1), seq![], None)));
            }
        } else {
            cur.push(c);
        }
        i += 1;
    }
    proof {
        assert(cs@.skip(i as int) =~= seq![]);
    }
    flush(&mut args, cur);
    args
}

fn is_field_code(arg: &str) -> (r: bool)
    ensures
        r == is_code(arg@),
{
    text::same(arg, "%f") || text::same(arg, "%F") || text::same(arg, "%u") || text::same(
        arg,
        "%U",
    ) || text::same(arg, "%d") || text::same(arg, "%D") || text::same(arg, "%n") || text::same(
        arg,
        "%N",
    ) || text::same(arg, "%i") || text::same(arg, "%c") || text::same(arg, "%k") || text::same(
        arg,
        "%v",
    ) || text::same(arg, "%m")
}

/// The argument with each doubled percent sign made one.
pub fn unescape_percent(arg: &str) -> (r: String)
    ensures
        r@ == unescaped(arg@),
{
    let cs = text::chars_of(arg);
    let mut out = String::new();
    let mut i: usize = 0;
    proof {
        assert(cs@.skip(0) =~= cs@);
        assert(out@ + unescaped(arg@) =~= unescaped(arg@));
    }
    while i < cs.len()
        invariant
            i <= cs@.len(),
            cs@ == arg@,
            out@ + unescaped(cs@.skip(i as int)) == unescaped(arg@),
        decreases cs@.len() - i,
    {
        let c = cs[i];
        let ghost rest = cs@.skip(i as int);
        let ghost before = out@;
        if c == '%' && i + 1 < cs.len() && cs[i + 1] == '%' {
            proof {
                assert(rest.skip(2) =~= cs@.skip(i + 2));
                assert(before.push('%') + unescaped(rest.skip(2)) =~= before + (seq!['%']
                    + unescaped(rest.skip(2))));
            }
            i += 2;
        } else {
            proof {
                assert(rest.skip(1) =~= cs@.skip(i + 1));
                assert(before.push(c) + unescaped(rest.skip(1)) =~= before + (seq![c] + unescaped(
                    rest.skip(1),
                )));
            }
            i += 1;
        }
        out.push(c);
    }
    proof {
        assert(cs@.skip(i as int) =~= seq![]);
        assert(out@ =~= unescaped(arg@));
    }
    out
}

/// The command and its arguments that an entry's `Exec` stands for: quoted
/// arguments are one, arguments that the launcher would replace are dropped,
/// and a doubled percent sign is one percent sign.
pub fn split_exec(line: &str) -> (r: Vec<String>)
    ensures
        text::views(r@) == command_of(line@),
{
    let args = tokenize_exec(line);
    let ghost all = tokens(line@, seq![], None);
    let mut out: Vec<String> = Vec::new();
    assert(text::views(out@) =~= arguments(all.take(0)));
    for i in 0..args.len()
        invariant
            text::views(args@) == all,
            text::views(out@) == arguments(all.take(i as int)),
    {
        proof {
            assert(all.take(i + 1).drop_last() =~= all.take(i as int));
            assert(all.take(i + 1).last() == args@[i as int]@);
        }
        if !is_field_code(args[i].as_str()) {
            let arg = unescape_percent(args[i].as_str());
            let ghost before = text::views(out@);
            if !arg.as_str().is_empty() {
                out.push(arg);
                assert(text::views(out@) =~= before.push(arg@));
            }
        }
    }
    assert(all.take(all.len() as int) =~= all);
    out
}

// ---------------------------------------------------------------------------
// What holds of every command line
// ---------------------------------------------------------------------------

/// No argument of a command line is empty.
pub proof fn law_tokens_are_not_empty(s: Seq<char>, cur: Seq<char>, quote: Option<char>)
    ensures
        forall|i: int|
            0 <= i < tokens(s, cur, quote).len() ==> (#[trigger] tokens(s, cur, quote)[i]).len()
                > 0,
    decreases s.len(),
{
    if s.len() > 0 {
        let c = s[0];
        let rest = s.skip(1);
        if quote == Some(c) {
            law_tokens_are_not_empty(rest, cur, None);
            assert(tokens(s, cur, quote) == tokens(rest, cur, None));
        } else if c == '\\' && quote != Some('\'') {
            if rest.len() == 0 {
                law_tokens_are_not_empty(rest, cur.push(c), quote);
                assert(tokens(s, cur, quote) == tokens(rest, cur.push(c), quote));
            } else {
                law_tokens_are_not_empty(rest.skip(1), cur.push(rest[0]), quote);
                assert(tokens(s, cur, quote) == tokens(rest.skip(1), cur.push(rest[0]), quote));
            }
        } else if quote is Some {
            law_tokens_are_not_empty(rest, cur.push(c), quote);
            assert(tokens(s, cur, quote) == tokens(rest, cur.push(c), quote));
        } else if c == '"' || c == '\'' {
            law_tokens_are_not_empty(rest, cur, Some(c));
            assert(tokens(s, cur, quote) == tokens(rest, cur, Some(c)));
        } else if text::is_space(c) {
            law_tokens_are_not_empty(rest, seq![], None);
            let tail = tokens(rest, seq![], None);
            assert forall|i: int| 0 <= i < tokens(s, cur, quote).len() implies (#[trigger] tokens(
                s,
                cur,
                quote,
            )[i]).len() > 0 by {
                if i >= finished(cur).len() {
                    assert(tokens(s, cur, quote)[i] == tail[i - finished(cur).len()]);
                }
            }
        } else {
            law_tokens_are_not_empty(rest, cur.push(c), None);
            assert(tokens(s, cur, quote) == tokens(rest, cur.push(c), None));
        }
    }
}

/// White space alone holds no argument.
pub proof fn law_blank_line_has_no_tokens(s: Seq<char>)
    requires
        forall|i: int| 0 <= i < s.len() ==> text::is_space(#[trigger] s[i]),
    ensures
        tokens(s, seq![], None).len() == 0,
    decreases s.len(),
{
    if s.len() > 0 {
        let rest = s.skip(1);
        assert(text::is_space(s[0]));
        assert forall|i: int| 0 <= i < rest.len() implies text::is_space(#[trigger] rest[i]) by {
            assert(rest[i] == s[i + 1]);
        }
        law_blank_line_has_no_tokens(rest);
    }
}

/// `arg` in double quotation marks.
pub open spec fn quoted(arg: Seq<char>) -> Seq<char> {
    seq!['"'] + text::escaped(arg) + seq!['"']
}

/// Several arguments, each in double quotation marks and followed by a blank.
pub open spec fn quoted_line(args: Seq<Seq<char>>) -> Seq<char>
    decreases args.len(),
{
    if args.len() == 0 {
        seq![]
    } else {
        quoted(args[0]) + seq![' '] + quoted_line(args.skip(1))
    }
}

proof fn lemma_escaped_reads_back(arg: Seq<char>, cur: Seq<char>, rest: Seq<char>)
    ensures
        tokens(text::escaped(arg) + rest, cur, Some('"')) == tokens(rest, cur + arg, Some('"')),
    decreases arg.len(),
{
    let s = text::escaped(arg) + rest;
    if arg.len() == 0 {
        assert(s =~= rest);
        assert(cur + arg =~= cur);
    } else {
        let tail = arg.skip(1);
        lemma_escaped_reads_back(tail, cur.push(arg[0]), rest);
        assert(cur.push(arg[0]) + tail =~= cur + arg);
        if arg[0] == '"' || arg[0] == '\\' {
            assert(s =~= seq!['\\', arg[0]] + (text::escaped(tail) + rest));
            assert(s[0] == '\\');
            assert(s.skip(1)[0] == arg[0]);
            assert(s.skip(1).skip(1) =~= text::escaped(tail) + rest);
        } else {
            assert(s =~= seq![arg[0]] + (text::escaped(tail) + rest));
            assert(s[0] == arg[0]);
            assert(s.skip(1) =~= text::escaped(tail) + rest);
        }
    }
}

proof fn lemma_quoted_reads_back(arg: Seq<char>, rest: Seq<char>)
    requires
        arg.len() > 0,
    ensures
        tokens(quoted(arg) + seq![' '] + rest, seq![], None) == seq![arg] + tokens(
            rest,
            seq![],
            None,
        ),
{
    let after = seq!['"'] + (seq![' '] + rest);
    let s = quoted(arg) + seq![' '] + rest;
    assert(s =~= seq!['"'] + (text::escaped(arg) + after));
    assert(s[0] == '"');
    assert(s.skip(1) =~= text::escaped(arg) + after);
    assert(tokens(s, seq![], None) == tokens(s.skip(1), seq![], Some('"')));
    lemma_escaped_reads_back(arg, seq![], after);
    assert(Seq::<char>::empty() + arg =~= arg);
    assert(after[0] == '"');
    let blank = seq![' '] + rest;
    assert(after.skip(1) =~= blank);
    assert(tokens(after, arg, Some('"')) == tokens(blank, arg, None));
    assert(blank[0] == ' ');
    assert(blank.skip(1) =~= rest);
    assert(tokens(blank, arg, None) == finished(arg) + tokens(rest, seq![], None));
}

/// Arguments that were put in double quotation marks are read back as they were.
pub proof fn law_quoted_arguments_read_back(args: Seq<Seq<char>>)
    requires
        forall|i: int| 0 <= i < args.len() ==> (#[trigger] args[i]).len() > 0,
    ensures
        tokens(quoted_line(args), seq![], None) == args,
    decreases args.len(),
{
    if args.len() == 0 {
        assert(tokens(quoted_line(args), seq![], None) =~= args);
    } else {
        let tail = args.skip(1);
        assert forall|i: int| 0 <= i < tail.len() implies (#[trigger] tail[i]).len() > 0 by {
            assert(tail[i] == args[i + 1]);
        }
        law_quoted_arguments_read_back(tail);
        lemma_quoted_reads_back(args[0], quoted_line(tail));
        assert(seq![args[0]] + tail =~= args);
    }
}

/// No argument that is handed on is empty.
pub proof fn law_arguments_are_not_empty(tokens: Seq<Seq<char>>)
    ensures
        forall|i: int|
            0 <= i < arguments(tokens).len() ==> (#[trigger] arguments(tokens)[i]).len() > 0,
        arguments(tokens).len() <= tokens.len(),
    decreases tokens.len(),
{
    if tokens.len() > 0 {
        law_arguments_are_not_empty(tokens.drop_last());
    }
}

/// `s` with each percent sign doubled.
pub open spec fn percent_doubled(s: Seq<char>) -> Seq<char>
    decreases s.len(),
{
    if s.len() == 0 {
        seq![]
    } else if s[0] == '%' {
        seq!['%', '%'] + percent_doubled(s.skip(1))
    } else {
        seq![s[0]] + percent_doubled(s.skip(1))
    }
}

/// Doubled percent signs are read as the percent signs that were doubled.
pub proof fn law_doubled_percent_reads_back(s: Seq<char>)
    ensures
        unescaped(percent_doubled(s)) == s,
    decreases s.len(),
{
    let d = percent_doubled(s);
    if s.len() == 0 {
        assert(unescaped(d) =~= s);
    } else {
        let rest = s.skip(1);
        law_doubled_percent_reads_back(rest);
        if s[0] == '%' {
            assert(d[0] == '%' && d[1] == '%');
            assert(d.skip(2) =~= percent_doubled(rest));
        } else {
            assert(d[0] == s[0]);
            assert(d.skip(1) =~= percent_doubled(rest));
        }
        assert(seq![s[0]] + rest =~= s);
    }
}

/// Text without a doubled percent sign is read as it stands.
pub proof fn law_single_percent_stays(s: Seq<char>)
    requires
        forall|i: int| 0 <= i < s.len() - 1 ==> !(#[trigger] s[i] == '%' && s[i + 1] == '%'),
    ensures
        unescaped(s) == s,
    decreases s.len(),
{
    if s.len() == 0 {
        assert(unescaped(s) =~= s);
    } else {
        let rest = s.skip(1);
        assert forall|i: int| 0 <= i < rest.len() - 1 implies !(#[trigger] rest[i] == '%' && rest[i
            + 1] == '%') by {
            assert(rest[i] == s[i + 1]);
            assert(rest[i + 1] == s[i + 2]);
        }
        law_single_percent_stays(rest);
        assert(!(s.len() > 1 && s[0] == '%' && s[1] == '%'));
        assert(seq![s[0]] + rest =~= s);
    }
}

proof fn lemma_doubled_is_no_code(s: Seq<char>)
    requires
        s.len() > 0,
    ensures
        percent_doubled(s).len() > 0,
        !is_code(percent_doubled(s)),
{
    let d = percent_doubled(s);
    reveal_strlit("%f");
    reveal_strlit("%F");
    reveal_strlit("%u");
    reveal_strlit("%U");
    reveal_strlit("%d");
    reveal_strlit("%D");
    reveal_strlit("%n");
    reveal_strlit("%N");
    reveal_strlit("%i");
    reveal_strlit("%c");
    reveal_strlit("%k");
    reveal_strlit("%v");
    reveal_strlit("%m");
    if s[0] == '%' {
        assert(d[0] == '%' && d[1] == '%');
    } else {
        assert(d[0] == s[0]);
    }
    if is_code(d) {
        assert(d[0] == '%' && d[1] != '%');
    }
}

proof fn lemma_doubled_arguments(args: Seq<Seq<char>>)
    requires
        forall|i: int| 0 <= i < args.len() ==> (#[trigger] args[i]).len() > 0,
    ensures
        arguments(args.map_values(|a: Seq<char>| percent_doubled(a))) == args,
    decreases args.len(),
{
    let doubled = args.map_values(|a: Seq<char>| percent_doubled(a));
    if args.len() == 0 {
        assert(arguments(doubled) =~= args);
    } else {
        let head = args.drop_last();
        lemma_doubled_arguments(head);
        assert(doubled.drop_last() =~= head.map_values(|a: Seq<char>| percent_doubled(a)));
        assert(doubled.last() == percent_doubled(args.last()));
        lemma_doubled_is_no_code(args.last());
        law_doubled_percent_reads_back(args.last());
        assert(head.push(args.last()) =~= args);
    }
}

/// A command survives being written down: with the percent signs of its
/// arguments doubled and each argument in double quotation marks, it is read
/// back as it was.
pub proof fn law_written_command_reads_back(args: Seq<Seq<char>>)
    requires
        forall|i: int| 0 <= i < args.len() ==> (#[trigger] args[i]).len() > 0,
    ensures
        command_of(quoted_line(args.map_values(|a: Seq<char>| percent_doubled(a)))) == args,
{
    let doubled = args.map_values(|a: Seq<char>| percent_doubled(a));
    assert forall|i: int| 0 <= i < doubled.len() implies (#[trigger] doubled[i]).len() > 0 by {
        assert(doubled[i] == percent_doubled(args[i]));
        lemma_doubled_is_no_code(args[i]);
    }
    law_quoted_arguments_read_back(doubled);
    lemma_doubled_arguments(args);
}

// ---------------------------------------------------------------------------
// How a command line is read
// ---------------------------------------------------------------------------

/// Whether a character means something on a command line besides itself.
pub open spec fn is_special(c: char) -> bool {
    c == '"' || c == '\'' || c == '\\'
}

proof fn lemma_plain_run(run: Seq<char>, cur: Seq<char>, rest: Seq<char>, quote: Option<char>)
    requires
        forall|i: int|
            0 <= i < run.len() ==> match quote {
                None => !is_special(#[trigger] run[i]) && !text::is_space(run[i]),
                Some(q) => run[i] != q && (run[i] != '\\' || q == '\''),
            },
    ensures
        tokens(run + rest, cur, quote) == tokens(rest, cur + run, quote),
    decreases run.len(),
{
    let s = run + rest;
    if run.len() == 0 {
        assert(s =~= rest);
        assert(cur + run =~= cur);
    } else {
        let tail = run.skip(1);
        assert(s[0] == run[0]);
        assert(s.skip(1) =~= tail + rest);
        assert forall|i: int| 0 <= i < tail.len() implies match quote {
            None => !is_special(#[trigger] tail[i]) && !text::is_space(tail[i]),
            Some(q) => tail[i] != q && (tail[i] != '\\' || q == '\''),
        } by {
            assert(tail[i] == run[i + 1]);
        }
        lemma_plain_run(tail, cur.push(run[0]), rest, quote);
        assert(cur.push(run[0]) + tail =~= cur + run);
    }
}

/// A command line without quotation marks and backslashes is split at its white
/// space, and nowhere else.
pub proof fn law_plain_line_is_split_at_space(s: Seq<char>)
    requires
        forall|i: int| 0 <= i < s.len() ==> !is_special(#[trigger] s[i]),
    ensures
        tokens(s, seq![], None) == text::words(s),
    decreases s.len(),
{
    let a = text::find(s, text::nonspace());
    text::lemma_find(s, text::nonspace());
    let before = s.take(a);
    let t = s.skip(a);
    lemma_leading_space(before, t);
    assert(before + t =~= s);
    if t.len() == 0 {
        assert(tokens(t, seq![], None) =~= seq![]);
        text::law_words_are_between_spaces(s, seq![], seq![]);
        assert(text::words(s) =~= seq![]);
    } else {
        let n = text::find(t, text::space());
        text::lemma_find(t, text::space());
        let word = t.take(n);
        let rest = t.skip(n);
        assert(t[0] == s[a]);
        assert forall|i: int| 0 <= i < word.len() implies !is_special(#[trigger] word[i])
            && !text::is_space(word[i]) by {
            assert(word[i] == t[i] && t[i] == s[a + i]);
            assert(!text::space()(t[i]));
        }
        lemma_plain_run(word, seq![], rest, None);
        assert(word + rest =~= t);
        assert(Seq::<char>::empty() + word =~= word);
        assert(before + word + rest =~= s);
        assert forall|i: int| 0 <= i < before.len() implies text::is_space(#[trigger] before[i]) by {
            assert(!text::nonspace()(s[i]));
        }
        text::law_words_are_between_spaces(before, word, rest);
        assert forall|i: int| 0 <= i < rest.len() implies !is_special(#[trigger] rest[i]) by {
            assert(rest[i] == s[a + n + i]);
        }
        if rest.len() == 0 {
            assert(tokens(rest, word, None) == finished(word));
            text::law_words_are_between_spaces(rest, seq![], seq![]);
            assert(text::words(s) =~= seq![word]);
        } else {
            assert(rest[0] == t[n]);
            let more = rest.skip(1);
            assert forall|i: int| 0 <= i < more.len() implies !is_special(#[trigger] more[i]) by {
                assert(more[i] == rest[i + 1]);
            }
            law_plain_line_is_split_at_space(rest);
            assert(finished(Seq::<char>::empty()) =~= seq![]);
            assert(tokens(rest, seq![], None) =~= tokens(more, seq![], None));
            assert(tokens(rest, word, None) == finished(word) + tokens(more, seq![], None));
        }
    }
}

proof fn lemma_leading_space(before: Seq<char>, t: Seq<char>)
    requires
        forall|i: int| 0 <= i < before.len() ==> text::is_space(#[trigger] before[i]),
    ensures
        tokens(before + t, seq![], None) == tokens(t, seq![], None),
    decreases before.len(),
{
    let s = before + t;
    if before.len() == 0 {
        assert(s =~= t);
    } else {
        let tail = before.skip(1);
        assert(s[0] == before[0]);
        assert(s.skip(1) =~= tail + t);
        assert forall|i: int| 0 <= i < tail.len() implies text::is_space(#[trigger] tail[i]) by {
            assert(tail[i] == before[i + 1]);
        }
        lemma_leading_space(tail, t);
        assert(finished(Seq::<char>::empty()) =~= seq![]);
        assert(tokens(s, seq![], None) =~= tokens(tail + t, seq![], None));
    }
}

/// Within single quotation marks every character stands for itself, white space,
/// double quotation marks and backslashes too; what is quoted belongs to the
/// argument that it stands in.
pub proof fn law_single_quotes_keep_everything(cur: Seq<char>, inside: Seq<char>, rest: Seq<char>)
    requires
        !inside.contains('\''),
    ensures
        tokens(seq!['\''] + inside + seq!['\''] + rest, cur, None) == tokens(
            rest,
            cur + inside,
            None,
        ),
{
    let s = seq!['\''] + inside + seq!['\''] + rest;
    let after = seq!['\''] + rest;
    assert(s[0] == '\'');
    assert(s.skip(1) =~= inside + after);
    assert(tokens(s, cur, None) == tokens(s.skip(1), cur, Some('\'')));
    assert forall|i: int| 0 <= i < inside.len() implies inside[i] != '\'' by {
        assert(inside.contains(inside[i]));
    }
    lemma_plain_run(inside, cur, after, Some('\''));
    assert(after[0] == '\'');
    assert(after.skip(1) =~= rest);
}

/// Within double quotation marks every character but the quotation mark and the
/// backslash stands for itself, and what is quoted belongs to the argument that
/// it stands in.
pub proof fn law_double_quotes_keep_together(cur: Seq<char>, inside: Seq<char>, rest: Seq<char>)
    requires
        !inside.contains('"'),
        !inside.contains('\\'),
    ensures
        tokens(seq!['"'] + inside + seq!['"'] + rest, cur, None) == tokens(
            rest,
            cur + inside,
            None,
        ),
{
    let s = seq!['"'] + inside + seq!['"'] + rest;
    let after = seq!['"'] + rest;
    assert(s[0] == '"');
    assert(s.skip(1) =~= inside + after);
    assert(tokens(s, cur, None) == tokens(s.skip(1), cur, Some('"')));
    assert forall|i: int| 0 <= i < inside.len() implies inside[i] != '"' && inside[i] != '\\' by {
        assert(inside.contains(inside[i]));
    }
    lemma_plain_run(inside, cur, after, Some('"'));
    assert(after[0] == '"');
    assert(after.skip(1) =~= rest);
}

/// White space ends an argument, and the next begins behind it; what is neither
/// white space nor special belongs to the argument.
pub proof fn law_space_ends_an_argument(cur: Seq<char>, c: char, rest: Seq<char>)
    requires
        cur.len() > 0,
        !is_special(c),
    ensures
        text::is_space(c) ==> tokens(seq![c] + rest, cur, None) == seq![cur] + tokens(
            rest,
            seq![],
            None,
        ),
        !text::is_space(c) ==> tokens(seq![c] + rest, cur, None) == tokens(rest, cur.push(c), None),
        tokens(seq![], cur, None) == seq![cur],
{
    let s = seq![c] + rest;
    assert(s[0] == c);
    assert(s.skip(1) =~= rest);
}

/// Of two percent signs in a row one is left, from the front on; every other
/// character stays.
pub proof fn law_percent_signs_are_read_in_pairs(c: char, rest: Seq<char>)
    ensures
        unescaped(seq!['%', '%'] + rest) == seq!['%'] + unescaped(rest),
        c != '%' || rest.len() == 0 || rest[0] != '%' ==> unescaped(seq![c] + rest) == seq![c]
            + unescaped(rest),
        unescaped(seq![]).len() == 0,
{
    let two = seq!['%', '%'] + rest;
    assert(two.skip(2) =~= rest);
    let one = seq![c] + rest;
    assert(one.skip(1) =~= rest);
    assert(rest.len() > 0 ==> one[1] == rest[0]);
}

/// A backslash outside of single quotation marks takes the next character as it
/// is, whatever that is; at the end of the line it stands for itself.
pub proof fn law_backslash_takes_the_next(cur: Seq<char>, c: char, rest: Seq<char>)
    ensures
        tokens(seq!['\\', c] + rest, cur, None) == tokens(rest, cur.push(c), None),
        tokens(seq!['\\', c] + rest, cur, Some('"')) == tokens(rest, cur.push(c), Some('"')),
        tokens(seq!['\\'], cur, None) == seq![cur.push('\\')],
{
    let s = seq!['\\', c] + rest;
    assert(s[0] == '\\');
    assert(s.skip(1)[0] == c);
    assert(s.skip(1).skip(1) =~= rest);
    let one = seq!['\\'];
    assert(one.skip(1) =~= seq![]);
    assert(tokens(one.skip(1), cur.push('\\'), None) == finished(cur.push('\\')));
}

/// A quotation mark that is never closed reaches to the end of the line, and one
/// that quotes nothing makes no argument.
pub proof fn law_open_quote_reaches_the_end(inside: Seq<char>)
    requires
        inside.len() > 0,
        !inside.contains('"'),
        !inside.contains('\\'),
    ensures
        tokens(seq!['"'] + inside, seq![], None) == seq![inside],
        !inside.contains('\'') ==> tokens(seq!['\''] + inside, seq![], None) == seq![inside],
        tokens(seq!['"', '"'], seq![], None).len() == 0,
{
    let s = seq!['"'] + inside;
    let none = Seq::<char>::empty();
    assert(s[0] == '"');
    assert(s.skip(1) =~= inside + none);
    assert forall|i: int| 0 <= i < inside.len() implies inside[i] != '"' && inside[i] != '\\' by {
        assert(inside.contains(inside[i]));
    }
    lemma_plain_run(inside, none, none, Some('"'));
    assert(none + inside =~= inside);
    assert(tokens(none, inside, Some('"')) == finished(inside));
    if !inside.contains('\'') {
        let single = seq!['\''] + inside;
        assert(single.skip(1) =~= inside + none);
        assert forall|i: int| 0 <= i < inside.len() implies inside[i] != '\'' by {
            assert(inside.contains(inside[i]));
        }
        lemma_plain_run(inside, none, none, Some('\''));
        assert(tokens(none, inside, Some('\'')) == finished(inside));
    }
    let pair = seq!['"', '"'];
    let half = seq!['"'];
    assert(pair.skip(1) =~= half);
    assert(half.skip(1) =~= none);
    assert(tokens(none, none, None) == finished(none));
    assert(tokens(half, none, Some('"')) == tokens(half.skip(1), none, None));
}

/// The arguments that are handed on are those that were read, in their order:
/// those that the launcher would replace are dropped, and nothing else is but
/// doubled percent signs.
pub proof fn law_arguments_are_handed_on(args: Seq<Seq<char>>, last: Seq<char>, code: char)
    requires
        last.len() > 0,
    ensures
        arguments(seq![]).len() == 0,
        code == 'f' || code == 'F' || code == 'u' || code == 'U' || code == 'd' || code == 'D'
            || code == 'n' || code == 'N' || code == 'i' || code == 'c' || code == 'k' || code
            == 'v' || code == 'm' ==> arguments(args.push(seq!['%', code])) == arguments(args),
        !(last.len() == 2 && last[0] == '%' && last[1] != '%') ==> arguments(args.push(last))
            == arguments(args).push(unescaped(last)),
        last.len() == 2 && last[0] == '%' && !(last[1] == 'f' || last[1] == 'F' || last[1] == 'u'
            || last[1] == 'U' || last[1] == 'd' || last[1] == 'D' || last[1] == 'n' || last[1]
            == 'N' || last[1] == 'i' || last[1] == 'c' || last[1] == 'k' || last[1] == 'v'
            || last[1] == 'm') ==> arguments(args.push(last)) == arguments(args).push(
            unescaped(last),
        ),
{
    reveal_strlit("%f");
    reveal_strlit("%F");
    reveal_strlit("%u");
    reveal_strlit("%U");
    reveal_strlit("%d");
    reveal_strlit("%D");
    reveal_strlit("%n");
    reveal_strlit("%N");
    reveal_strlit("%i");
    reveal_strlit("%c");
    reveal_strlit("%k");
    reveal_strlit("%v");
    reveal_strlit("%m");
    let one = seq!['%', code];
    assert(args.push(one).drop_last() =~= args);
    assert(args.push(last).drop_last() =~= args);
    assert(unescaped(last).len() > 0);
    if code == 'f' {
        assert(one =~= "%f"@);
    } else if code == 'F' {
        assert(one =~= "%F"@);
    } else if code == 'u' {
        assert(one =~= "%u"@);
    } else if code == 'U' {
        assert(one =~= "%U"@);
    } else if code == 'd' {
        assert(one =~= "%d"@);
    } else if code == 'D' {
        assert(one =~= "%D"@);
    } else if code == 'n' {
        assert(one =~= "%n"@);
    } else if code == 'N' {
        assert(one =~= "%N"@);
    } else if code == 'i' {
        assert(one =~= "%i"@);
    } else if code == 'c' {
        assert(one =~= "%c"@);
    } else if code == 'k' {
        assert(one =~= "%k"@);
    } else if code == 'v' {
        assert(one =~= "%v"@);
    } else if code == 'm' {
        assert(one =~= "%m"@);
    }
}

/// A plain command line, with neither quotation marks nor percent signs, is its
/// words.
pub proof fn law_plain_command_is_its_words(s: Seq<char>)
    requires
        forall|i: int| 0 <= i < s.len() ==> !is_special(#[trigger] s[i]) && s[i] != '%',
    ensures
        command_of(s) == text::words(s),
{
    law_plain_line_is_split_at_space(s);
    law_tokens_are_not_empty(s, seq![], None);
    let w = text::words(s);
    lemma_words_come_from_text(s);
    lemma_plain_arguments(w);
}

proof fn lemma_words_come_from_text(s: Seq<char>)
    requires
        forall|i: int| 0 <= i < s.len() ==> s[i] != '%',
    ensures
        forall|i: int, j: int|
            0 <= i < text::words(s).len() && 0 <= j < text::words(s)[i].len()
                ==> #[trigger] text::words(s)[i][j] != '%',
    decreases s.len(),
{
    let t = text::trim_start(s);
    let a = text::find(s, text::nonspace());
    text::lemma_find(s, text::nonspace());
    if t.len() > 0 {
        let n = text::find(t, text::space());
        text::lemma_find(t, text::space());
        assert(t[0] == s[a]);
        let rest = t.skip(n);
        assert forall|i: int| 0 <= i < rest.len() implies rest[i] != '%' by {
            assert(rest[i] == s[a + n + i]);
        }
        lemma_words_come_from_text(rest);
        assert forall|i: int, j: int|
            0 <= i < text::words(s).len() && 0 <= j
                < text::words(s)[i].len() implies #[trigger] text::words(s)[i][j] != '%' by {
            if i == 0 {
                assert(text::words(s)[0] == t.take(n));
                assert(t.take(n)[j] == s[a + j]);
            } else {
                assert(text::words(s)[i] == text::words(rest)[i - 1]);
                assert(text::words(rest)[i - 1][j] != '%');
            }
        }
    }
}

proof fn lemma_plain_arguments(args: Seq<Seq<char>>)
    requires
        forall|i: int| 0 <= i < args.len() ==> (#[trigger] args[i]).len() > 0,
        forall|i: int, j: int|
            0 <= i < args.len() && 0 <= j < args[i].len() ==> #[trigger] args[i][j] != '%',
    ensures
        arguments(args) == args,
    decreases args.len(),
{
    if args.len() == 0 {
        assert(arguments(args) =~= args);
    } else {
        let head = args.drop_last();
        let last = args.last();
        assert forall|i: int| 0 <= i < head.len() implies (#[trigger] head[i]).len() > 0 by {
            assert(head[i] == args[i]);
        }
        assert forall|i: int, j: int|
            0 <= i < head.len() && 0 <= j < head[i].len() implies #[trigger] head[i][j] != '%' by {
            assert(head[i][j] == args[i][j]);
        }
        lemma_plain_arguments(head);
        assert(args[args.len() - 1][0] != '%');
        assert forall|i: int| 0 <= i < last.len() - 1 implies !(#[trigger] last[i] == '%' && last[i
            + 1] == '%') by {
            assert(args[args.len() - 1][i] != '%');
        }
        law_single_percent_stays(last);
        law_arguments_are_handed_on(head, last, 'f');
        assert(head.push(last) =~= args);
    }
}

// ---------------------------------------------------------------------------
// Sessions
// ---------------------------------------------------------------------------

/// A session directory: its files, where it could be read.
#[derive(Debug, Clone)]
pub struct Directory {
    pub path: String,
    pub files: Option<Vec<DesktopFile>>,
}

/// The session of an entry.
pub open spec fn session_of(e: (Seq<char>, EntryView), kind: SessionKind) -> SessionView {
    SessionView { stem: e.0, name: e.1.name, command: command_of(e.1.command), kind }
}

/// The entries of a directory.
pub open spec fn entries_of(dir: Directory) -> Seq<(Seq<char>, EntryView)> {
    desktop_entry::scanned(
        match dir.files {
            Some(f) => Some(f@),
            None => None,
        },
    )
}

/// The sessions of a list of entries.
pub open spec fn sessions_in(entries: Seq<(Seq<char>, EntryView)>, kind: SessionKind) -> Seq<
    SessionView,
> {
    entries.map_values(|e: (Seq<char>, EntryView)| session_of(e, kind))
}

/// The sessions of several directories, one directory after the other.
pub open spec fn collected(dirs: Seq<Directory>, kind: SessionKind) -> Seq<SessionView>
    decreases dirs.len(),
{
    if dirs.len() == 0 {
        seq![]
    } else {
        collected(dirs.drop_last(), kind) + sessions_in(entries_of(dirs.last()), kind)
    }
}

/// All sessions: those on Wayland first, then those on X11.
pub open spec fn listed(wayland: Seq<Directory>, x11: Seq<Directory>) -> Seq<SessionView> {
    collected(wayland, SessionKind::Wayland) + collected(x11, SessionKind::X11)
}

/// The place of the first session with that stem, or the number of sessions
/// where there is none.
pub open spec fn place(sessions: Seq<SessionView>, stem: Seq<char>) -> int
    decreases sessions.len(),
{
    if sessions.len() == 0 || sessions[0].stem == stem {
        0
    } else {
        1 + place(sessions.skip(1), stem)
    }
}

/// The place of the session that is selected to begin with: the first with the
/// default's stem, else the first.
pub open spec fn default_place(sessions: Seq<SessionView>, default: Seq<char>) -> int {
    if place(sessions, default) < sessions.len() {
        place(sessions, default)
    } else {
        0
    }
}

/// `place` is the place of a session with that stem, and none before it has it.
pub proof fn lemma_place(sessions: Seq<SessionView>, stem: Seq<char>)
    ensures
        0 <= place(sessions, stem) <= sessions.len(),
        place(sessions, stem) < sessions.len() ==> sessions[place(sessions, stem)].stem == stem,
        forall|i: int|
            0 <= i < place(sessions, stem) ==> (#[trigger] sessions[i]).stem != stem,
    decreases sessions.len(),
{
    if sessions.len() > 0 && sessions[0].stem != stem {
        let rest = sessions.skip(1);
        lemma_place(rest, stem);
        assert forall|i: int| 0 <= i < place(sessions, stem) implies (#[trigger] sessions[i]).stem
            != stem by {
            if i > 0 {
                assert(rest[i - 1] == sessions[i]);
            }
        }
        if place(rest, stem) < rest.len() {
            assert(rest[place(rest, stem)] == sessions[place(sessions, stem)]);
        }
    }
}

/// The session that is selected to begin with has the default's stem wherever
/// one has, and there is one wherever there is a session at all.
pub proof fn law_default_is_preferred(sessions: Seq<SessionView>, default: Seq<char>)
    ensures
        sessions.len() > 0 ==> 0 <= default_place(sessions, default) < sessions.len(),
        (exists|i: int| 0 <= i < sessions.len() && (#[trigger] sessions[i]).stem == default)
            ==> sessions[default_place(sessions, default)].stem == default,
{
    lemma_place(sessions, default);
}

impl Session {
    /// The variables that the started session is told about itself with.
    pub open spec fn env(self) -> Seq<Seq<char>> {
        let kind = match self.kind {
            SessionKind::Wayland => "wayland"@,
            SessionKind::X11 => "x11"@,
        };
        let desktop = if self.stem@.len() == 0 {
            self.name@
        } else {
            self.stem@
        };
        seq![
            "XDG_SESSION_TYPE="@ + kind,
            "XDG_SESSION_DESKTOP="@ + desktop,
            "XDG_CURRENT_DESKTOP="@ + desktop,
        ]
    }

    /// The environment that the session is started with.
    pub fn start_env(&self) -> (r: Vec<String>)
        ensures
            text::views(r@) == self.env(),
    {
        let kind = match self.kind {
            SessionKind::Wayland => "wayland",
            SessionKind::X11 => "x11",
        };
        let desktop = if self.stem.as_str().is_empty() {
            self.name.as_str()
        } else {
            self.stem.as_str()
        };
        let mut out: Vec<String> = Vec::new();
        out.push(text::joined("XDG_SESSION_TYPE=", kind));
        out.push(text::joined("XDG_SESSION_DESKTOP=", desktop));
        out.push(text::joined("XDG_CURRENT_DESKTOP=", desktop));
        assert(text::views(out@) =~= self.env());
        out
    }
}

proof fn lemma_collected_holds(dirs: Seq<Directory>, kind: SessionKind, d: int, k: int)
    requires
        0 <= d < dirs.len(),
        0 <= k < entries_of(dirs[d]).len(),
    ensures
        collected(dirs, kind).contains(session_of(entries_of(dirs[d])[k], kind)),
    decreases dirs.len(),
{
    let s = session_of(entries_of(dirs[d])[k], kind);
    let head = collected(dirs.drop_last(), kind);
    let tail = sessions_in(entries_of(dirs.last()), kind);
    let all = collected(dirs, kind);
    if d < dirs.len() - 1 {
        lemma_collected_holds(dirs.drop_last(), kind, d, k);
        let j = choose|j: int| 0 <= j < head.len() && head[j] == s;
        assert(all[j] == s);
    } else {
        assert(tail[k] == s);
        assert(all[head.len() + k] == s);
    }
}

/// Every entry of every directory can be chosen as a session: with its stem, its
/// name and the command that it stands for, on what the directory is for.
pub proof fn law_every_entry_is_a_session(
    wayland: Seq<Directory>,
    x11: Seq<Directory>,
    d: int,
    stem: Seq<char>,
    e: EntryView,
)
    ensures
        0 <= d < wayland.len() && entries_of(wayland[d]).contains((stem, e)) ==> listed(
            wayland,
            x11,
        ).contains(
            SessionView {
                stem,
                name: e.name,
                command: command_of(e.command),
                kind: SessionKind::Wayland,
            },
        ),
        0 <= d < x11.len() && entries_of(x11[d]).contains((stem, e)) ==> listed(
            wayland,
            x11,
        ).contains(
            SessionView {
                stem,
                name: e.name,
                command: command_of(e.command),
                kind: SessionKind::X11,
            },
        ),
{
    let w = collected(wayland, SessionKind::Wayland);
    let x = collected(x11, SessionKind::X11);
    if 0 <= d < wayland.len() && entries_of(wayland[d]).contains((stem, e)) {
        let f = entries_of(wayland[d]);
        let k = choose|k: int| 0 <= k < f.len() && f[k] == (stem, e);
        lemma_collected_holds(wayland, SessionKind::Wayland, d, k);
        let s = session_of((stem, e), SessionKind::Wayland);
        let j = choose|j: int| 0 <= j < w.len() && w[j] == s;
        assert((w + x)[j] == s);
    }
    if 0 <= d < x11.len() && entries_of(x11[d]).contains((stem, e)) {
        let f = entries_of(x11[d]);
        let k = choose|k: int| 0 <= k < f.len() && f[k] == (stem, e);
        lemma_collected_holds(x11, SessionKind::X11, d, k);
        let s = session_of((stem, e), SessionKind::X11);
        let j = choose|j: int| 0 <= j < x.len() && x[j] == s;
        assert((w + x)[w.len() + j] == s);
    }
}

/// The entries of one more directory come behind those of the directories
/// before it, as many as it has and in its order; those on Wayland come before
/// all on X11.
pub proof fn law_directories_come_one_after_the_other(
    wayland: Seq<Directory>,
    x11: Seq<Directory>,
    dir: Directory,
    k: int,
)
    requires
        0 <= k < entries_of(dir).len(),
    ensures
        listed(seq![], seq![]).len() == 0,
        listed(wayland, x11) == listed(wayland, seq![]) + listed(seq![], x11),
        ({
            let before = listed(wayland, seq![]);
            let all = listed(wayland.push(dir), seq![]);
            &&& all.len() == before.len() + entries_of(dir).len()
            &&& all.take(before.len() as int) == before
            &&& all[before.len() + k].stem == entries_of(dir)[k].0
            &&& all[before.len() + k].kind == SessionKind::Wayland
        }),
        ({
            let before = listed(wayland, x11);
            let all = listed(wayland, x11.push(dir));
            &&& all.len() == before.len() + entries_of(dir).len()
            &&& all.take(before.len() as int) == before
            &&& all[before.len() + k].stem == entries_of(dir)[k].0
            &&& all[before.len() + k].kind == SessionKind::X11
        }),
{
    let none = Seq::<Directory>::empty();
    assert(collected(none, SessionKind::Wayland) =~= seq![]);
    assert(collected(none, SessionKind::X11) =~= seq![]);
    assert(listed(wayland, x11) =~= listed(wayland, none) + listed(none, x11));
    assert(wayland.push(dir).drop_last() =~= wayland);
    assert(x11.push(dir).drop_last() =~= x11);
    let before = listed(wayland, none);
    assert(listed(wayland.push(dir), none).take(before.len() as int) =~= before);
    let all = listed(wayland, x11);
    assert(listed(wayland, x11.push(dir)).take(all.len() as int) =~= all);
}

/// A useful file of a Wayland directory can be chosen, and starts the command
/// that its entry gives.
pub proof fn law_useful_file_is_a_session(
    wayland: Seq<Directory>,
    x11: Seq<Directory>,
    d: int,
    i: int,
    stem: Seq<char>,
    contents: Seq<char>,
    e: EntryView,
)
    requires
        0 <= d < wayland.len(),
        wayland[d].files is Some,
        0 <= i < (wayland[d].files->0)@.len(),
        ({
            let f = (wayland[d].files->0)@[i];
            &&& f.extension is Some && (f.extension->0)@ == "desktop"@
            &&& f.stem is Some && (f.stem->0)@ == stem
            &&& f.contents is Some && (f.contents->0)@ == contents
            &&& desktop_entry::entry(contents) == Some(e)
            &&& e.try_exec is None || !f.command_missing
        }),
    ensures
        listed(wayland, x11).contains(
            SessionView {
                stem,
                name: e.name,
                command: command_of(e.command),
                kind: SessionKind::Wayland,
            },
        ),
{
    desktop_entry::law_scan_misses_nothing((wayland[d].files->0)@, i, stem, contents, e);
    law_every_entry_is_a_session(wayland, x11, d, stem, e);
}

/// Of several sessions with the default's stem the first is selected, and where
/// none has it, the first of all.
pub proof fn law_first_default_is_selected(sessions: Seq<SessionView>, default: Seq<char>, i: int)
    requires
        0 <= i < sessions.len(),
    ensures
        sessions[i].stem == default && (forall|j: int|
            0 <= j < i ==> (#[trigger] sessions[j]).stem != default) ==> default_place(
            sessions,
            default,
        ) == i,
        (forall|j: int| 0 <= j < sessions.len() ==> (#[trigger] sessions[j]).stem != default)
            ==> default_place(sessions, default) == 0,
{
    lemma_place(sessions, default);
    let p = place(sessions, default);
    if p < sessions.len() {
        assert(sessions[p].stem == default);
    }
}

/// A session is told what it runs on, and its desktop: the stem of its file, or
/// its name where it has none.
pub proof fn law_session_is_told_about_itself(s: Session)
    ensures
        s.env().len() == 3,
        s.kind == SessionKind::Wayland ==> s.env()[0] == "XDG_SESSION_TYPE=wayland"@,
        s.kind == SessionKind::X11 ==> s.env()[0] == "XDG_SESSION_TYPE=x11"@,
        s.stem@.len() > 0 ==> s.env()[1] == "XDG_SESSION_DESKTOP="@ + s.stem@ && s.env()[2]
            == "XDG_CURRENT_DESKTOP="@ + s.stem@,
        s.stem@.len() == 0 ==> s.env()[1] == "XDG_SESSION_DESKTOP="@ + s.name@ && s.env()[2]
            == "XDG_CURRENT_DESKTOP="@ + s.name@,
{
    reveal_strlit("XDG_SESSION_TYPE=");
    reveal_strlit("wayland");
    reveal_strlit("x11");
    reveal_strlit("XDG_SESSION_TYPE=wayland");
    reveal_strlit("XDG_SESSION_TYPE=x11");
    assert("XDG_SESSION_TYPE="@ + "wayland"@ =~= "XDG_SESSION_TYPE=wayland"@);
    assert("XDG_SESSION_TYPE="@ + "x11"@ =~= "XDG_SESSION_TYPE=x11"@);
}

fn collect_into(all: &mut Vec<Session>, dirs: &Vec<Directory>, kind: SessionKind)
    ensures
        sort::views(final(all)@) == sort::views(old(all)@) + collected(dirs@, kind),
{
    assert(sort::views(all@) =~= sort::views(old(all)@) + collected(dirs@.take(0), kind));
    for i in 0..dirs.len()
        invariant
            sort::views(all@) == sort::views(old(all)@) + collected(dirs@.take(i as int), kind),
    {
        let entries = desktop_entry::scan_dir(&dirs[i].files);
        let ghost found = entries_of(dirs@[i as int]);
        let ghost base = sort::views(all@);
        assert(base =~= base + sessions_in(found.take(0), kind));
        for j in 0..entries.len()
            invariant
                sort::views(entries@) == found,
                sort::views(all@) == base + sessions_in(found.take(j as int), kind),
        {
            let session = Session {
                stem: entries[j].0.clone(),
                name: entries[j].1.name.clone(),
                command: split_exec(entries[j].1.command.as_str()),
                kind,
            };
            let ghost before = sort::views(all@);
            all.push(session);
            proof {
                assert(found[j as int] == entries@[j as int]@);
                assert(session@ =~= session_of(found[j as int], kind));
                assert(sort::views(all@) =~= before.push(session@));
                assert(sessions_in(found.take(j + 1), kind) =~= sessions_in(
                    found.take(j as int),
                    kind,
                ).push(session@));
                assert(sort::views(all@) =~= base + sessions_in(found.take(j + 1), kind));
            }
        }
        proof {
            assert(found.take(found.len() as int) =~= found);
            assert(dirs@.take(i + 1).drop_last() =~= dirs@.take(i as int));
            assert(sort::views(all@) =~= sort::views(old(all)@) + collected(
                dirs@.take(i + 1),
                kind,
            ));
        }
    }
    assert(dirs@.take(dirs@.len() as int) =~= dirs@);
}

/// All sessions: those of the Wayland directories first, then those of the X11
/// directories, each directory sorted by stem.
pub fn list(wayland: &Vec<Directory>, x11: &Vec<Directory>) -> (r: Vec<Session>)
    ensures
        sort::views(r@) == listed(wayland@, x11@),
{
    let mut all: Vec<Session> = Vec::new();
    collect_into(&mut all, wayland, SessionKind::Wayland);
    collect_into(&mut all, x11, SessionKind::X11);
    assert(sort::views(all@) =~= listed(wayland@, x11@));
    all
}

/// The place of the session with the default's stem, zero where there is none.
/// There need not be a session at that place, where the list is empty.
pub fn default_index(sessions: &Vec<Session>, default: &str) -> (r: usize)
    ensures
        r == default_place(sort::views(sessions@), default@),
{
    let ghost all = sort::views(sessions@);
    let mut i: usize = 0;
    assert(all.skip(0) =~= all);
    while i < sessions.len()
        invariant
            i <= sessions@.len(),
            all == sort::views(sessions@),
            place(all, default@) == i + place(all.skip(i as int), default@),
        decreases sessions@.len() - i,
    {
        assert(all.skip(i as int)[0] == sessions@[i as int]@);
        if text::same(sessions[i].stem.as_str(), default) {
            return i;
        }
        assert(all.skip(i as int).skip(1) =~= all.skip(i + 1));
        i += 1;
    }
    0
}

/// The session to start where nobody chooses: the one with the default's stem,
/// else the first. None where there is no session at all.
pub fn discover(wayland: &Vec<Directory>, x11: &Vec<Directory>, default: &str) -> (r: Option<
    Session,
>)
    ensures
        r is Some <==> listed(wayland@, x11@).len() > 0,
        r matches Some(s) ==> s@ == listed(wayland@, x11@)[default_place(
            listed(wayland@, x11@),
            default@,
        )],
{
    let mut all = list(wayland, x11);
    assert(sort::views(all@).len() == all@.len());
    if all.len() == 0 {
        return None;
    }
    let i: usize = default_index(&all, default);
    proof {
        law_default_is_preferred(sort::views(all@), default@);
        assert(sort::views(all@)[i as int] == all@[i as int]@);
    }
    Some(all.remove(i))
}

} // verus!
