//! The people who can log in: the accounts of `/etc/passwd` with a login shell
//! and a user number in the range of `/etc/login.defs`.

use crate::sort;
use crate::sort::Ranked;
use crate::text;
use vstd::prelude::*;

verus! {

/// An account that can be offered for login.
#[derive(Debug, Clone, PartialEq, Eq)]
pub struct User {
    /// The login name.
    pub name: String,
    /// The full name where the account has one, else the login name.
    pub display: String,
    pub uid: u32,
}

/// What a [`User`] holds.
pub struct UserView {
    pub name: Seq<char>,
    pub display: Seq<char>,
    pub uid: u32,
}

impl View for User {
    type V = UserView;

    open spec fn view(&self) -> UserView {
        UserView { name: self.name@, display: self.display@, uid: self.uid }
    }
}

/// The order of accounts: by number, and by name where the number is the same.
pub open spec fn by_uid() -> sort::Order<UserView> {
    |a: UserView, b: UserView|
        a.uid < b.uid || (a.uid == b.uid && text::ordered(a.name, b.name))
}

impl Ranked for User {
    open spec fn order() -> sort::Order<UserView> {
        by_uid()
    }

    fn precedes(&self, other: &Self) -> (r: bool) {
        self.uid < other.uid || (self.uid == other.uid && text::str_ordered(
            self.name.as_str(),
            other.name.as_str(),
        ))
    }
}

/// The order of accounts is one.
pub proof fn lemma_by_uid_is_order()
    ensures
        sort::is_order(by_uid()),
{
    assert forall|a: UserView, b: UserView| #[trigger] by_uid()(a, b) || by_uid()(b, a) by {
        text::lemma_ordered_total(a.name, b.name);
    }
    assert forall|a: UserView, b: UserView, c: UserView| #[trigger]
        by_uid()(a, b) && #[trigger] by_uid()(b, c) implies by_uid()(a, c) by {
        if a.uid == b.uid && b.uid == c.uid {
            text::lemma_ordered_transitive(a.name, b.name, c.name);
        }
    }
}

// ---------------------------------------------------------------------------
// login.defs
// ---------------------------------------------------------------------------

/// The number that a line of `login.defs` sets `key` to.
pub open spec fn setting(line: Seq<char>, key: Seq<char>) -> Option<u32> {
    let w = text::words(line);
    if w.len() >= 2 && w[0] == key {
        text::number(w[1])
    } else {
        None
    }
}

/// The number that `key` is last set to, and `default` where it is not set.
pub open spec fn bound(lines: Seq<Seq<char>>, key: Seq<char>, default: u32) -> u32
    decreases lines.len(),
{
    if lines.len() == 0 {
        default
    } else {
        match setting(lines.last(), key) {
            Some(n) => n,
            None => bound(lines.drop_last(), key, default),
        }
    }
}

/// The text of a file, empty where there is none.
pub open spec fn text_of(file: Option<&str>) -> Seq<char> {
    match file {
        Some(s) => s@,
        None => seq![],
    }
}

/// The least and the greatest number of a person's account.
pub open spec fn bounds(login_defs: Option<&str>) -> (u32, u32) {
    let l = text::lines(text_of(login_defs));
    (bound(l, "UID_MIN"@, 1000), bound(l, "UID_MAX"@, 60000))
}

fn read_setting(line: &str, key: &str) -> (r: Option<u32>)
    ensures
        r == setting(line@, key@),
{
    let w = text::words_of(line);
    let ghost all = text::words(line@);
    assert(all.len() == w@.len());
    if w.len() >= 2 {
        assert(all[0] == w@[0]@);
        assert(all[1] == w@[1]@);
        if text::same(w[0].as_str(), key) {
            return text::parse_number(w[1].as_str());
        }
    }
    None
}

/// The least and the greatest number of a person's account, from
/// `/etc/login.defs` where that can be read. 1000 and 60000 are the numbers of
/// a system that does not say otherwise.
pub fn uid_bounds(login_defs: Option<&str>) -> (r: (u32, u32))
    ensures
        r == bounds(login_defs),
{
    let mut min: u32 = 1000;
    let mut max: u32 = 60000;
    let lines = match login_defs {
        Some(s) => text::lines_of(s),
        None => text::lines_of(""),
    };
    let ghost all = text::lines(text_of(login_defs));
    proof {
        reveal_strlit("");
        assert(""@ =~= seq![]);
    }
    for i in 0..lines.len()
        invariant
            text::views(lines@) == all,
            min == bound(all.take(i as int), "UID_MIN"@, 1000),
            max == bound(all.take(i as int), "UID_MAX"@, 60000),
    {
        proof {
            assert(all.take(i + 1).drop_last() =~= all.take(i as int));
            assert(all.take(i + 1).last() == lines@[i as int]@);
        }
        match read_setting(lines[i].as_str(), "UID_MIN") {
            Some(n) => {
                min = n;
            },
            None => {},
        }
        match read_setting(lines[i].as_str(), "UID_MAX") {
            Some(n) => {
                max = n;
            },
            None => {},
        }
    }
    assert(all.take(all.len() as int) =~= all);
    (min, max)
}

// ---------------------------------------------------------------------------
// passwd
// ---------------------------------------------------------------------------

/// Whether someone can log in with that shell: it is not one of the stand-ins
/// that system accounts have.
pub open spec fn lets_in(shell: Seq<char>) -> bool {
    shell.len() > 0 && !text::finishes_with(shell, "nologin"@) && !text::finishes_with(
        shell,
        "/false"@,
    )
}

/// The full name in an account's comment: what comes before the first comma.
pub open spec fn full_name(comment: Seq<char>) -> Seq<char> {
    text::trim(text::split(comment, ',')[0])
}

/// The person that a line of `passwd` describes, which is
/// `name:password:uid:gid:comment:home:shell`. None for an account whose number
/// lies outside of `min` to `max`, that is named `nobody`, or has no login
/// shell.
pub open spec fn account(line: Seq<char>, min: u32, max: u32) -> Option<UserView> {
    let f = text::split(line, ':');
    if f.len() < 6 || text::number(f[2]) is None {
        None
    } else {
        let uid = text::number(f[2])->0;
        let shell = if f.len() > 6 {
            f[6]
        } else {
            seq![]
        };
        if uid < min || uid > max || f[0] == "nobody"@ || !lets_in(shell) {
            None
        } else {
            Some(
                UserView {
                    name: f[0],
                    display: if full_name(f[4]).len() == 0 {
                        f[0]
                    } else {
                        full_name(f[4])
                    },
                    uid,
                },
            )
        }
    }
}

/// The people that the lines describe, in the lines' order.
pub open spec fn accounts(lines: Seq<Seq<char>>, min: u32, max: u32) -> Seq<UserView>
    decreases lines.len(),
{
    if lines.len() == 0 {
        seq![]
    } else {
        match account(lines.last(), min, max) {
            Some(u) => accounts(lines.drop_last(), min, max).push(u),
            None => accounts(lines.drop_last(), min, max),
        }
    }
}

/// `s` without those that have the name of the one before them.
pub open spec fn without_repeats(s: Seq<UserView>) -> Seq<UserView>
    decreases s.len(),
{
    if s.len() == 0 {
        seq![]
    } else {
        let d = without_repeats(s.drop_last());
        if d.len() > 0 && d.last().name == s.last().name {
            d
        } else {
            d.push(s.last())
        }
    }
}

/// The people of a `passwd` file, sorted by number.
pub open spec fn people(passwd: Seq<char>, login_defs: Option<&str>) -> Seq<UserView> {
    let (min, max) = bounds(login_defs);
    without_repeats(sort::sorted(accounts(text::lines(passwd), min, max), by_uid()))
}

fn is_login_shell(shell: &str) -> (r: bool)
    ensures
        r == lets_in(shell@),
{
    !shell.is_empty() && !text::has_ending(shell, "nologin") && !text::has_ending(shell, "/false")
}

fn read_account(line: &str, min: u32, max: u32) -> (r: Option<User>)
    ensures
        (match r {
            Some(u) => Some(u@),
            None => None,
        }) == account(line@, min, max),
{
    let f = text::split_at_char(line, ':');
    let ghost all = text::split(line@, ':');
    assert(all.len() == f@.len());
    if f.len() < 6 {
        return None;
    }
    assert(all[0] == f@[0]@ && all[2] == f@[2]@ && all[4] == f@[4]@);
    let uid: u32 = match text::parse_number(f[2].as_str()) {
        Some(n) => n,
        None => {
            return None;
        },
    };
    let login: bool = if f.len() > 6 {
        assert(all[6] == f@[6]@);
        is_login_shell(f[6].as_str())
    } else {
        false
    };
    if uid < min || uid > max || text::same(f[0].as_str(), "nobody") || !login {
        return None;
    }
    let comment = text::split_at_char(f[4].as_str(), ',');
    assert(text::split(all[4], ',')[0] == comment@[0]@);
    let full = text::trimmed(comment[0].as_str());
    let display = if full.as_str().is_empty() {
        f[0].clone()
    } else {
        full
    };
    Some(User { name: f[0].clone(), display, uid })
}

fn dedup(users: Vec<User>) -> (out: Vec<User>)
    ensures
        sort::views(out@) == without_repeats(sort::views(users@)),
{
    let mut out: Vec<User> = Vec::new();
    let mut rest: Vec<User> = users;
    let ghost all = sort::views(users@);
    let ghost mut n: int = 0;
    assert(sort::views(out@) =~= without_repeats(all.take(0)));
    while rest.len() > 0
        invariant
            0 <= n <= all.len(),
            sort::views(rest@) == all.skip(n),
            sort::views(out@) == without_repeats(all.take(n)),
        decreases rest@.len(),
    {
        let ghost was = rest@;
        proof {
            assert(sort::views(was).len() == was.len());
            assert(all.skip(n)[0] == was[0]@);
        }
        let u = rest.remove(0);
        let last: usize = out.len();
        let repeats: bool = last > 0 && text::same(out[last - 1].name.as_str(), u.name.as_str());
        proof {
            assert(all[n] == u@);
            assert(all.take(n + 1).drop_last() =~= all.take(n));
            assert forall|k: int| 0 <= k < rest@.len() implies #[trigger] rest@[k]@ == all.skip(
                n + 1,
            )[k] by {
                assert(rest@[k] == was[k + 1]);
                assert(sort::views(was)[k + 1] == all.skip(n)[k + 1]);
            }
            assert(sort::views(rest@) =~= all.skip(n + 1));
            if last > 0 {
                assert(sort::views(out@).last() == out@[last - 1]@);
            }
            assert(sort::views(out@.push(u)) =~= sort::views(out@).push(u@));
            n = n + 1;
        }
        if !repeats {
            out.push(u);
        }
    }
    assert(all.take(n) =~= all);
    out
}

/// The people of a `passwd` file who can log in, sorted by number, each name
/// only once where it stands in neighbouring places.
pub fn parse(passwd: &str, login_defs: Option<&str>) -> (r: Vec<User>)
    ensures
        sort::views(r@) == people(passwd@, login_defs),
{
    let (min, max) = uid_bounds(login_defs);
    let lines = text::lines_of(passwd);
    let ghost all = text::lines(passwd@);
    let mut users: Vec<User> = Vec::new();
    assert(sort::views(users@) =~= accounts(all.take(0), min, max));
    for i in 0..lines.len()
        invariant
            text::views(lines@) == all,
            sort::views(users@) == accounts(all.take(i as int), min, max),
    {
        proof {
            assert(all.take(i + 1).drop_last() =~= all.take(i as int));
            assert(all.take(i + 1).last() == lines@[i as int]@);
        }
        let ghost before = users@;
        match read_account(lines[i].as_str(), min, max) {
            Some(u) => {
                users.push(u);
                assert(sort::views(users@) =~= sort::views(before).push(u@));
            },
            None => {},
        }
    }
    assert(all.take(all.len() as int) =~= all);
    dedup(sort::sort(users))
}

/// The people who can log in, from `/etc/passwd` and `/etc/login.defs` as far as
/// they could be read.
pub fn list(passwd: Option<&str>, login_defs: Option<&str>) -> (r: Vec<User>)
    ensures
        sort::views(r@) == people(text_of(passwd), login_defs),
{
    match passwd {
        Some(s) => parse(s, login_defs),
        None => {
            proof {
                reveal_strlit("");
                assert(""@ =~= seq![]);
            }
            parse("", login_defs)
        },
    }
}

// ---------------------------------------------------------------------------
// What holds of every list
// ---------------------------------------------------------------------------

proof fn lemma_accounts_are_people(lines: Seq<Seq<char>>, min: u32, max: u32)
    ensures
        forall|i: int|
            0 <= i < accounts(lines, min, max).len() ==> {
                let u = #[trigger] accounts(lines, min, max)[i];
                min <= u.uid <= max && u.name != "nobody"@
            },
    decreases lines.len(),
{
    if lines.len() > 0 {
        lemma_accounts_are_people(lines.drop_last(), min, max);
        let head = accounts(lines.drop_last(), min, max);
        let all = accounts(lines, min, max);
        assert forall|i: int| 0 <= i < all.len() implies ({
            let u = #[trigger] all[i];
            min <= u.uid <= max && u.name != "nobody"@
        }) by {
            if i < head.len() {
                assert(all[i] == head[i]);
            }
        }
    }
}

proof fn lemma_without_repeats(s: Seq<UserView>)
    requires
        sort::in_order(s, by_uid()),
    ensures
        sort::in_order(without_repeats(s), by_uid()),
        forall|i: int|
            0 <= i < without_repeats(s).len() ==> s.contains(#[trigger] without_repeats(s)[i]),
        forall|i: int|
            0 <= i < without_repeats(s).len() - 1 ==> (#[trigger] without_repeats(s)[i]).name
                != without_repeats(s)[i + 1].name,
    decreases s.len(),
{
    if s.len() > 0 {
        let d = s.drop_last();
        assert forall|i: int, j: int| 0 <= i < j < d.len() implies by_uid()(
            #[trigger] d[i],
            #[trigger] d[j],
        ) by {
            assert(s[i] == d[i] && s[j] == d[j]);
        }
        lemma_without_repeats(d);
        let w = without_repeats(d);
        let out = without_repeats(s);
        assert forall|i: int| 0 <= i < out.len() implies s.contains(#[trigger] out[i]) by {
            if i < w.len() {
                assert(out[i] == w[i]);
                let k = choose|k: int| 0 <= k < d.len() && d[k] == w[i];
                assert(s[k] == w[i]);
            } else {
                assert(s[s.len() - 1] == out[i]);
            }
        }
        assert forall|i: int, j: int| 0 <= i < j < out.len() implies by_uid()(
            #[trigger] out[i],
            #[trigger] out[j],
        ) by {
            assert(out[i] == w[i]);
            if j < w.len() {
                assert(out[j] == w[j]);
            } else {
                assert(d.contains(w[i]));
                let k = choose|k: int| 0 <= k < d.len() && d[k] == w[i];
                assert(by_uid()(s[k], s[s.len() - 1]));
            }
        }
        assert forall|i: int| 0 <= i < out.len() - 1 implies (#[trigger] out[i]).name != out[i
            + 1].name by {
            assert(out[i] == w[i]);
            if i + 1 < w.len() {
                assert(out[i + 1] == w[i + 1]);
            }
        }
    }
}

/// The list is sorted by number, holds only numbers within the bounds, never
/// `nobody`, and no name twice in a row.
pub proof fn law_people_are_sorted_accounts(passwd: Seq<char>, login_defs: Option<&str>)
    ensures
        ({
            let p = people(passwd, login_defs);
            let (min, max) = bounds(login_defs);
            &&& forall|i: int, j: int|
                0 <= i < j < p.len() ==> (#[trigger] p[i]).uid <= (#[trigger] p[j]).uid
            &&& forall|i: int|
                0 <= i < p.len() ==> min <= (#[trigger] p[i]).uid <= max && p[i].name != "nobody"@
            &&& forall|i: int| 0 <= i < p.len() - 1 ==> (#[trigger] p[i]).name != p[i + 1].name
        }),
{
    let (min, max) = bounds(login_defs);
    let a = accounts(text::lines(passwd), min, max);
    let s = sort::sorted(a, by_uid());
    lemma_by_uid_is_order();
    sort::law_sorted_is_in_order(a, by_uid());
    lemma_accounts_are_people(text::lines(passwd), min, max);
    lemma_without_repeats(s);
    let p = people(passwd, login_defs);
    assert forall|i: int, j: int| 0 <= i < j < p.len() implies (#[trigger] p[i]).uid <= (
    #[trigger] p[j]).uid by {
        assert(by_uid()(p[i], p[j]));
    }
    assert forall|i: int| 0 <= i < p.len() implies min <= (#[trigger] p[i]).uid <= max && p[i].name
        != "nobody"@ by {
        assert(s.contains(p[i]));
        broadcast use vstd::seq_lib::group_to_multiset_ensures;

        assert(s.to_multiset().count(p[i]) > 0);
        assert(a.to_multiset().count(p[i]) > 0);
        assert(a.contains(p[i]));
        let k = choose|k: int| 0 <= k < a.len() && a[k] == p[i];
        assert(min <= a[k].uid <= max);
    }
}

/// An empty file describes nobody.
pub proof fn law_empty_passwd_has_no_people(login_defs: Option<&str>)
    ensures
        people(seq![], login_defs).len() == 0,
{
    let (min, max) = bounds(login_defs);
    assert(text::lines(Seq::<char>::empty()) =~= seq![]);
    assert(accounts(text::lines(seq![]), min, max) =~= seq![]);
    assert(sort::sorted(accounts(text::lines(seq![]), min, max), by_uid()) =~= seq![]);
}

// ---------------------------------------------------------------------------
// Who is offered
// ---------------------------------------------------------------------------

/// Whether a shell ends with `ending`.
pub open spec fn ends_with(shell: Seq<char>, ending: Seq<char>) -> bool {
    exists|front: Seq<char>| shell == #[trigger] (front + ending)
}

/// A shell lets in unless it is none, or ends with one of the stand-ins.
pub proof fn law_shells_let_in(shell: Seq<char>)
    ensures
        lets_in(shell) <==> shell.len() > 0 && !ends_with(shell, "nologin"@) && !ends_with(
            shell,
            "/false"@,
        ),
{
    let a = "nologin"@;
    let b = "/false"@;
    text::law_prefixes_and_endings(shell, a, seq![]);
    text::law_prefixes_and_endings(shell, b, seq![]);
    if text::finishes_with(shell, a) {
        assert(shell == shell.take(shell.len() - a.len()) + a);
    }
    if text::finishes_with(shell, b) {
        assert(shell == shell.take(shell.len() - b.len()) + b);
    }
    if ends_with(shell, a) {
        let front = choose|front: Seq<char>| shell == #[trigger] (front + a);
        text::law_prefixes_and_endings(shell, a, front);
    }
    if ends_with(shell, b) {
        let front = choose|front: Seq<char>| shell == #[trigger] (front + b);
        text::law_prefixes_and_endings(shell, b, front);
    }
}

/// The full name is what comes before the first comma of the comment, without
/// the white space around it.
pub proof fn law_full_name_ends_at_the_comma(full: Seq<char>, rest: Seq<char>)
    requires
        !full.contains(','),
    ensures
        full_name(full) == text::trim(full),
        full_name(full + seq![','] + rest) == text::trim(full),
{
    text::law_split_takes_the_first_piece(full, ',', rest);
}

/// Whether the fields are those of somebody who can log in: the number lies
/// within the bounds, the name is not `nobody`, and the shell is one, and not
/// one of the stand-ins.
pub open spec fn can_log_in(fields: Seq<Seq<char>>, uid: u32, min: u32, max: u32) -> bool {
    &&& fields.len() >= 7
    &&& forall|i: int| 0 <= i < fields.len() ==> !(#[trigger] fields[i]).contains(':')
    &&& text::number(fields[2]) == Some(uid)
    &&& min <= uid <= max
    &&& fields[0] != "nobody"@
    &&& fields[6].len() > 0
    &&& !ends_with(fields[6], "nologin"@)
    &&& !ends_with(fields[6], "/false"@)
}

/// The line of somebody who can log in is read as them: their name, their
/// number, and for show the full name where there is one, else the name.
pub proof fn law_account_is_read(fields: Seq<Seq<char>>, uid: u32, min: u32, max: u32)
    requires
        can_log_in(fields, uid, min, max),
    ensures
        ({
            let full = text::trim(text::split(fields[4], ',')[0]);
            account(text::join(fields, seq![':']), min, max) == Some(
                UserView {
                    name: fields[0],
                    display: if full.len() > 0 {
                        full
                    } else {
                        fields[0]
                    },
                    uid,
                },
            )
        }),
{
    text::law_joined_pieces_split_again(fields, ':');
    law_shells_let_in(fields[6]);
}

/// A line with too few fields, without a number or with one beyond the bounds,
/// of `nobody`, or of somebody without a shell that lets in is nobody's.
pub proof fn law_others_cannot_log_in(fields: Seq<Seq<char>>, min: u32, max: u32)
    requires
        fields.len() > 0,
        forall|i: int| 0 <= i < fields.len() ==> !(#[trigger] fields[i]).contains(':'),
        fields.len() < 7 || text::number(fields[2]) is None || text::number(fields[2])->0 < min
            || text::number(fields[2])->0 > max || fields[0] == "nobody"@ || fields[6].len() == 0
            || ends_with(fields[6], "nologin"@) || ends_with(fields[6], "/false"@),
    ensures
        account(text::join(fields, seq![':']), min, max) is None,
{
    text::law_joined_pieces_split_again(fields, ':');
    if fields.len() >= 7 {
        law_shells_let_in(fields[6]);
    }
}

proof fn lemma_accounts_hold(lines: Seq<Seq<char>>, min: u32, max: u32, i: int)
    requires
        0 <= i < lines.len(),
        account(lines[i], min, max) is Some,
    ensures
        accounts(lines, min, max).contains(account(lines[i], min, max)->0),
    decreases lines.len(),
{
    let u = account(lines[i], min, max)->0;
    let all = accounts(lines, min, max);
    let head = accounts(lines.drop_last(), min, max);
    if i < lines.len() - 1 {
        lemma_accounts_hold(lines.drop_last(), min, max, i);
        let k = choose|k: int| 0 <= k < head.len() && head[k] == u;
        assert(all[k] == u);
    } else {
        assert(all[all.len() - 1] == u);
    }
}

proof fn lemma_accounts_are_read(lines: Seq<Seq<char>>, min: u32, max: u32, k: int)
    requires
        0 <= k < accounts(lines, min, max).len(),
    ensures
        exists|i: int|
            0 <= i < lines.len() && account(#[trigger] lines[i], min, max) == Some(
                accounts(lines, min, max)[k],
            ),
    decreases lines.len(),
{
    if lines.len() > 0 {
        let d = lines.drop_last();
        let head = accounts(d, min, max);
        if k < head.len() {
            lemma_accounts_are_read(d, min, max, k);
            let i = choose|i: int|
                0 <= i < d.len() && account(#[trigger] d[i], min, max) == Some(head[k]);
            assert(lines[i] == d[i]);
            assert(accounts(lines, min, max)[k] == head[k]);
        } else {
            assert(account(lines[lines.len() - 1], min, max) == Some(accounts(lines, min, max)[k]));
        }
    }
}

proof fn lemma_names_are_kept(s: Seq<UserView>, k: int)
    requires
        0 <= k < s.len(),
    ensures
        exists|m: int|
            0 <= m < without_repeats(s).len() && (#[trigger] without_repeats(s)[m]).name
                == s[k].name,
    decreases s.len(),
{
    let d = without_repeats(s.drop_last());
    let out = without_repeats(s);
    if k < s.len() - 1 {
        lemma_names_are_kept(s.drop_last(), k);
        let m = choose|m: int| 0 <= m < d.len() && (#[trigger] d[m]).name == s.drop_last()[k].name;
        assert(out[m] == d[m]);
    } else {
        assert(out[out.len() - 1].name == s[k].name);
    }
}

proof fn lemma_kept_are_members(s: Seq<UserView>)
    ensures
        forall|i: int|
            0 <= i < without_repeats(s).len() ==> s.contains(#[trigger] without_repeats(s)[i]),
    decreases s.len(),
{
    if s.len() > 0 {
        let d = s.drop_last();
        lemma_kept_are_members(d);
        let w = without_repeats(d);
        let out = without_repeats(s);
        assert forall|i: int| 0 <= i < out.len() implies s.contains(#[trigger] out[i]) by {
            if i < w.len() {
                assert(out[i] == w[i]);
                let k = choose|k: int| 0 <= k < d.len() && d[k] == w[i];
                assert(s[k] == w[i]);
            } else {
                assert(s[s.len() - 1] == out[i]);
            }
        }
    }
}

proof fn lemma_only_repeats_go(s: Seq<UserView>, u: UserView)
    requires
        s.contains(u),
        forall|i: int| 0 <= i < s.len() && (#[trigger] s[i]).name == u.name ==> s[i] == u,
    ensures
        without_repeats(s).contains(u),
    decreases s.len(),
{
    let d = s.drop_last();
    let w = without_repeats(d);
    let out = without_repeats(s);
    if s.last() == u {
        if w.len() > 0 && w.last().name == u.name {
            lemma_kept_are_members(d);
            assert(d.contains(w[w.len() - 1]));
            let k = choose|k: int| 0 <= k < d.len() && d[k] == w.last();
            assert(s[k] == w.last());
            assert(out[out.len() - 1] == u);
        } else {
            assert(out[out.len() - 1] == u);
        }
    } else {
        let k = choose|k: int| 0 <= k < s.len() && s[k] == u;
        assert(d[k] == u);
        assert forall|i: int| 0 <= i < d.len() && (#[trigger] d[i]).name == u.name implies d[i]
            == u by {
            assert(s[i] == d[i]);
        }
        lemma_only_repeats_go(d, u);
        let m = choose|m: int| 0 <= m < w.len() && w[m] == u;
        assert(out[m] == u);
    }
}

proof fn lemma_sorted_members(a: Seq<UserView>, u: UserView)
    ensures
        sort::sorted(a, by_uid()).contains(u) <==> a.contains(u),
{
    lemma_by_uid_is_order();
    sort::law_sorted_is_in_order(a, by_uid());
    broadcast use vstd::seq_lib::group_to_multiset_ensures;

    assert(sort::sorted(a, by_uid()).to_multiset().count(u) == a.to_multiset().count(u));
}

/// Everyone who can log in is offered: for the line of each there is somebody of
/// that name, and it is they themselves unless another line gives somebody else
/// the same name.
pub proof fn law_everyone_is_offered(
    passwd: Seq<char>,
    login_defs: Option<&str>,
    i: int,
    fields: Seq<Seq<char>>,
    uid: u32,
)
    requires
        0 <= i < text::lines(passwd).len(),
        text::lines(passwd)[i] == text::join(fields, seq![':']),
        can_log_in(fields, uid, bounds(login_defs).0, bounds(login_defs).1),
    ensures
        exists|k: int|
            0 <= k < people(passwd, login_defs).len() && (#[trigger] people(
                passwd,
                login_defs,
            )[k]).name == fields[0],
        ({
            let full = text::trim(text::split(fields[4], ',')[0]);
            let u = UserView {
                name: fields[0],
                display: if full.len() > 0 {
                    full
                } else {
                    fields[0]
                },
                uid,
            };
            let (min, max) = bounds(login_defs);
            (forall|j: int|
                0 <= j < text::lines(passwd).len() ==> match account(
                    #[trigger] text::lines(passwd)[j],
                    min,
                    max,
                ) {
                    Some(w) => w.name == u.name ==> w == u,
                    None => true,
                }) ==> people(passwd, login_defs).contains(u)
        }),
{
    let (min, max) = bounds(login_defs);
    let l = text::lines(passwd);
    let a = accounts(l, min, max);
    let s = sort::sorted(a, by_uid());
    law_account_is_read(fields, uid, min, max);
    let u = account(l[i], min, max)->0;
    lemma_accounts_hold(l, min, max, i);
    lemma_sorted_members(a, u);
    let k = choose|k: int| 0 <= k < s.len() && s[k] == u;
    lemma_names_are_kept(s, k);
    let p = people(passwd, login_defs);
    assert(p == without_repeats(s));
    let kept = choose|m: int|
        0 <= m < without_repeats(s).len() && (#[trigger] without_repeats(s)[m]).name == s[k].name;
    assert(p[kept].name == fields[0]);
    if forall|j: int|
        0 <= j < l.len() ==> match account(#[trigger] l[j], min, max) {
            Some(w) => w.name == u.name ==> w == u,
            None => true,
        } {
        assert forall|n: int| 0 <= n < s.len() && (#[trigger] s[n]).name == u.name implies s[n]
            == u by {
            lemma_sorted_members(a, s[n]);
            assert(s.contains(s[n]));
            let m = choose|m: int| 0 <= m < a.len() && a[m] == s[n];
            lemma_accounts_are_read(l, min, max, m);
            let j = choose|j: int|
                0 <= j < l.len() && account(#[trigger] l[j], min, max) == Some(a[m]);
            assert(account(l[j], min, max) == Some(s[n]));
        }
        lemma_only_repeats_go(s, u);
    }
}

/// Nobody is offered but those whose line says that they can log in.
pub proof fn law_nobody_else_is_offered(passwd: Seq<char>, login_defs: Option<&str>, k: int)
    requires
        0 <= k < people(passwd, login_defs).len(),
    ensures
        exists|i: int|
            0 <= i < text::lines(passwd).len() && account(
                #[trigger] text::lines(passwd)[i],
                bounds(login_defs).0,
                bounds(login_defs).1,
            ) == Some(people(passwd, login_defs)[k]),
{
    let (min, max) = bounds(login_defs);
    let l = text::lines(passwd);
    let a = accounts(l, min, max);
    let s = sort::sorted(a, by_uid());
    let p = people(passwd, login_defs);
    lemma_kept_are_members(s);
    assert(s.contains(p[k]));
    lemma_sorted_members(a, p[k]);
    let m = choose|m: int| 0 <= m < a.len() && a[m] == p[k];
    lemma_accounts_are_read(l, min, max, m);
}

/// People come in the order of their numbers, and of their names where the
/// number is the same.
pub proof fn law_people_come_in_order(passwd: Seq<char>, login_defs: Option<&str>, i: int, j: int)
    requires
        0 <= i < j < people(passwd, login_defs).len(),
    ensures
        ({
            let a = people(passwd, login_defs)[i];
            let b = people(passwd, login_defs)[j];
            a.uid < b.uid || (a.uid == b.uid && text::ordered(a.name, b.name))
        }),
{
    let (min, max) = bounds(login_defs);
    let all = accounts(text::lines(passwd), min, max);
    lemma_by_uid_is_order();
    sort::law_sorted_is_in_order(all, by_uid());
    lemma_without_repeats(sort::sorted(all, by_uid()));
    let p = people(passwd, login_defs);
    assert(by_uid()(p[i], p[j]));
}

/// A setting is a line with the key and a number, with white space between them
/// and around, and whatever behind; the last one counts, other lines change
/// nothing, and without one the default stands.
pub proof fn law_last_setting_counts(
    lines: Seq<Seq<char>>,
    key: Seq<char>,
    other: Seq<char>,
    blank: Seq<char>,
    digits: Seq<char>,
    rest: Seq<char>,
    default: u32,
)
    requires
        key.len() > 0,
        digits.len() > 0,
        blank.len() > 0,
        forall|i: int| 0 <= i < blank.len() ==> text::is_space(#[trigger] blank[i]),
        forall|i: int| 0 <= i < key.len() ==> !text::is_space(#[trigger] key[i]),
        forall|i: int| 0 <= i < digits.len() ==> !text::is_space(#[trigger] digits[i]),
        rest.len() > 0 ==> text::is_space(rest[0]),
        other.len() > 0,
        forall|i: int| 0 <= i < other.len() ==> !text::is_space(#[trigger] other[i]),
        other != key,
    ensures
        bound(seq![], key, default) == default,
        text::number(digits) matches Some(n) ==> bound(
            lines.push(key + blank + digits + rest),
            key,
            default,
        ) == n,
        text::number(digits) is None ==> bound(
            lines.push(key + blank + digits + rest),
            key,
            default,
        ) == bound(lines, key, default),
        bound(lines.push(other + blank + digits + rest), key, default) == bound(
            lines,
            key,
            default,
        ),
        bound(lines.push(key), key, default) == bound(lines, key, default),
{
    let none = Seq::<char>::empty();
    let tail = blank + digits + rest;
    text::law_words_are_between_spaces(none, key, tail);
    text::law_words_are_between_spaces(none, other, tail);
    text::law_words_are_between_spaces(blank, digits, rest);
    text::law_words_are_between_spaces(none, key, none);
    let set = key + blank + digits + rest;
    let foreign = other + blank + digits + rest;
    assert(none + key + tail =~= set);
    assert(none + other + tail =~= foreign);
    assert(none + key + none =~= key);
    assert(text::words(set)[0] == key);
    assert(text::words(set)[1] == digits);
    assert(text::words(foreign)[0] == other);
    assert(lines.push(set).drop_last() =~= lines);
    assert(lines.push(foreign).drop_last() =~= lines);
    assert(lines.push(key).drop_last() =~= lines);
}

/// The bounds are the settings `UID_MIN` and `UID_MAX`, and without them 1000
/// and 60000.
pub proof fn law_bounds_are_set(login_defs: &str)
    ensures
        bounds(None) == (1000u32, 60000u32),
        login_defs@.len() == 0 ==> bounds(Some(login_defs)) == (1000u32, 60000u32),
        bounds(Some(login_defs)).0 == bound(text::lines(login_defs@), "UID_MIN"@, 1000),
        bounds(Some(login_defs)).1 == bound(text::lines(login_defs@), "UID_MAX"@, 60000),
{
    text::law_lines_end_with_a_feed(seq![], seq![]);
    assert(text::lines(Seq::<char>::empty()) =~= seq![]);
    if login_defs@.len() == 0 {
        assert(login_defs@ =~= seq![]);
    }
}

} // verus!
