//! The line under the clock: what is playing, and how full the battery is.

use crate::text;
use vstd::prelude::*;

verus! {

/// What the line under the clock shows; an empty part is left out.
#[derive(Debug, Clone, PartialEq)]
pub struct StatusInfo {
    /// Title and artist of what is playing.
    pub now_playing: String,
    /// The battery's charge.
    pub battery: String,
}

impl Default for StatusInfo {
    fn default() -> (r: Self)
        ensures
            r.now_playing@.len() == 0,
            r.battery@.len() == 0,
    {
        StatusInfo { now_playing: String::new(), battery: String::new() }
    }
}

/// How many seconds pass between two looks at the media players and the battery.
pub const POLL_SECS: u64 = 3;

/// The most characters that are shown of a title or of an artist.
pub const MPRIS_FIELD_MAX: usize = 80;

/// The most characters that are shown of what is playing.
pub const MPRIS_LINE_MAX: usize = 120;

/// The device type by which a battery is known.
pub const UPOWER_TYPE_BATTERY: u32 = 2;

/// Whether there is anything to look at.
pub fn wants_poller(now_playing: bool, battery: bool) -> (r: bool)
    ensures
        r == (now_playing || battery),
{
    now_playing || battery
}

/// What one look gave, by what each of the two parts gave: a part that is
/// switched off is empty.
pub fn snapshot(now_playing: Option<String>, battery: Option<String>) -> (r: StatusInfo)
    ensures
        r.now_playing@ == (match now_playing {
            Some(s) => s@,
            None => seq![],
        }),
        r.battery@ == (match battery {
            Some(s) => s@,
            None => seq![],
        }),
{
    StatusInfo {
        now_playing: match now_playing {
            Some(s) => s,
            None => String::new(),
        },
        battery: match battery {
            Some(s) => s,
            None => String::new(),
        },
    }
}

/// The text of an answer from the bus, and whether the connection has to go.
/// `None` stands for a bus that could not be reached, `Err` for a call that
/// failed, after which the connection is made anew.
pub fn settle(answer: Option<Result<String, ()>>) -> (r: (String, bool))
    ensures
        r.0@ == (match answer {
            Some(Ok(line)) => line@,
            _ => seq![],
        }),
        r.1 == (answer matches Some(Err(_))),
{
    match answer {
        Some(Ok(line)) => (line, false),
        Some(Err(_)) => (String::new(), true),
        None => (String::new(), false),
    }
}

// ---------------------------------------------------------------------------
// What is playing
// ---------------------------------------------------------------------------

/// The first `max` characters of `s`.
pub open spec fn truncated(s: Seq<char>, max: int) -> Seq<char> {
    if s.len() <= max {
        s
    } else {
        s.take(max)
    }
}

/// A title or artist on one line: its words with one blank between two, and no
/// more than fits.
pub open spec fn sanitized(s: Seq<char>) -> Seq<char> {
    truncated(text::join(text::words(s), " "@), MPRIS_FIELD_MAX as int)
}

/// The name that a media player goes by, from its name on the bus.
pub open spec fn player_name(bus: Seq<char>) -> Seq<char> {
    let prefix = "org.mpris.MediaPlayer2."@;
    let first = text::split(bus.skip(prefix.len() as int), '.')[0];
    if text::begins_with(bus, prefix) && first.len() > 0 {
        first
    } else {
        "Playing"@
    }
}

/// A title or artist to show; none where there is nothing to see.
pub open spec fn field(s: Option<Seq<char>>) -> Option<Seq<char>> {
    match s {
        Some(t) => if sanitized(t).len() > 0 {
            Some(sanitized(t))
        } else {
            None
        },
        None => None,
    }
}

/// What is shown of a player: title and artist, one of the two, or the player's
/// name.
pub open spec fn playing(title: Option<Seq<char>>, artist: Option<Seq<char>>, bus: Seq<char>) -> Seq<
    char,
> {
    truncated(
        match (field(title), field(artist)) {
            (Some(t), Some(a)) => t + " — "@ + a,
            (Some(t), None) => t,
            (None, Some(a)) => a,
            (None, None) => player_name(bus),
        },
        MPRIS_LINE_MAX as int,
    )
}

/// What a string holds, where there is one.
pub open spec fn view_of(s: Option<&str>) -> Option<Seq<char>> {
    match s {
        Some(t) => Some(t@),
        None => None,
    }
}

/// What a string holds, where there is one.
pub open spec fn held(s: Option<String>) -> Option<Seq<char>> {
    match s {
        Some(t) => Some(t@),
        None => None,
    }
}

/// The first `max` characters, and all where there are no more.
pub fn truncate_chars(s: &str, max: usize) -> (r: String)
    ensures
        r@ == truncated(s@, max as int),
{
    let chars = text::chars_of(s);
    if chars.len() <= max {
        s.to_owned()
    } else {
        text::string_of(&chars, 0, max)
    }
}

fn sanitize_mpris_field(s: &str) -> (r: String)
    ensures
        r@ == sanitized(s@),
{
    let collapsed = text::join_with(&text::words_of(s), " ");
    truncate_chars(collapsed.as_str(), MPRIS_FIELD_MAX)
}

fn mpris_player_fallback(bus_name: &str) -> (r: String)
    ensures
        r@ == player_name(bus_name@),
{
    match text::strip_front(bus_name, "org.mpris.MediaPlayer2.") {
        Some(rest) => {
            let parts = text::split_at_char(rest.as_str(), '.');
            assert(text::views(parts@)[0] == parts@[0]@);
            if parts[0].as_str().is_empty() {
                "Playing".to_owned()
            } else {
                parts[0].clone()
            }
        },
        None => "Playing".to_owned(),
    }
}

fn shown_field(s: Option<&str>) -> (r: Option<String>)
    ensures
        held(r) == field(view_of(s)),
{
    match s {
        Some(t) => {
            let out = sanitize_mpris_field(t);
            if out.as_str().is_empty() {
                None
            } else {
                Some(out)
            }
        },
        None => None,
    }
}

/// What is shown of a player, by its title, its artist and its name on the bus.
/// A player with neither title nor artist still shows its name, so that one
/// that is playing comes before one that is paused.
pub fn format_now_playing(title: Option<&str>, artist: Option<&str>, player: &str) -> (r: String)
    ensures
        r@ == playing(view_of(title), view_of(artist), player@),
{
    let line = match (shown_field(title), shown_field(artist)) {
        (Some(t), Some(a)) => {
            let head = text::joined(t.as_str(), " — ");
            text::joined(head.as_str(), a.as_str())
        },
        (Some(t), None) => t,
        (None, Some(a)) => a,
        (None, None) => mpris_player_fallback(player),
    };
    truncate_chars(line.as_str(), MPRIS_LINE_MAX)
}

proof fn lemma_words_hold_no_space(s: Seq<char>)
    ensures
        forall|i: int, j: int|
            0 <= i < text::words(s).len() && 0 <= j < text::words(s)[i].len() ==> !text::is_space(
                #[trigger] text::words(s)[i][j],
            ),
    decreases s.len(),
{
    let t = text::trim_start(s);
    let k = text::find(t, text::space());
    text::lemma_find(s, text::nonspace());
    text::lemma_find(t, text::space());
    if t.len() > 0 {
        assert(t[0] == s[text::find(s, text::nonspace())]);
        lemma_words_hold_no_space(t.skip(k));
        assert forall|i: int, j: int|
            0 <= i < text::words(s).len() && 0 <= j
                < text::words(s)[i].len() implies !text::is_space(
            #[trigger] text::words(s)[i][j],
        ) by {
            if i == 0 {
                assert(text::words(s)[0] == t.take(k));
                assert(t.take(k)[j] == t[j]);
            } else {
                assert(text::words(s)[i] == text::words(t.skip(k))[i - 1]);
                assert(!text::is_space(text::words(t.skip(k))[i - 1][j]));
            }
        }
    }
}

proof fn lemma_join_holds_no_space(parts: Seq<Seq<char>>, sep: Seq<char>)
    requires
        forall|i: int, j: int|
            0 <= i < parts.len() && 0 <= j < parts[i].len() ==> !text::is_space(
                #[trigger] parts[i][j],
            ),
        sep == seq![' '],
    ensures
        forall|i: int|
            0 <= i < text::join(parts, sep).len() ==> (!text::is_space(
                #[trigger] text::join(parts, sep)[i],
            ) || text::join(parts, sep)[i] == ' '),
    decreases parts.len(),
{
    if parts.len() == 1 {
        assert forall|i: int| 0 <= i < text::join(parts, sep).len() implies !text::is_space(
            #[trigger] text::join(parts, sep)[i],
        ) by {
            assert(!text::is_space(parts[0][i]));
        }
    } else if parts.len() > 1 {
        let head = parts.drop_last();
        assert forall|i: int, j: int|
            0 <= i < head.len() && 0 <= j < head[i].len() implies !text::is_space(
            #[trigger] head[i][j],
        ) by {
            assert(head[i][j] == parts[i][j]);
        }
        lemma_join_holds_no_space(head, sep);
        let h = text::join(head, sep);
        assert forall|i: int| 0 <= i < text::join(parts, sep).len() implies (!text::is_space(
            #[trigger] text::join(parts, sep)[i],
        ) || text::join(parts, sep)[i] == ' ') by {
            if i < h.len() {
                assert(text::join(parts, sep)[i] == h[i]);
            } else if i == h.len() {
                assert(text::join(parts, sep)[i] == ' ');
            } else {
                assert(text::join(parts, sep)[i] == parts[parts.len() - 1][i - h.len() - 1]);
            }
        }
    }
}

/// What is cut off is the end: what stays is a beginning of the text, as long as
/// there is room and text for, and is not cut again.
pub proof fn law_truncating_keeps_the_beginning(s: Seq<char>, max: usize)
    ensures
        ({
            let r = truncated(s, max as int);
            &&& r.len() == (if s.len() <= max {
                s.len()
            } else {
                max as nat
            })
            &&& r == s.take(r.len() as int)
            &&& truncated(r, max as int) == r
        }),
{
    assert(s.take(s.len() as int) =~= s);
}

/// A title or artist is shown on one line: it holds no white space but blanks,
/// and no more characters than are shown of one.
pub proof fn law_fields_are_one_line(s: Seq<char>)
    ensures
        sanitized(s).len() <= MPRIS_FIELD_MAX,
        forall|i: int|
            0 <= i < sanitized(s).len() ==> (!text::is_space(#[trigger] sanitized(s)[i])
                || sanitized(s)[i] == ' '),
{
    lemma_words_hold_no_space(s);
    reveal_strlit(" ");
    assert(" "@ =~= seq![' ']);
    lemma_join_holds_no_space(text::words(s), " "@);
}

/// What is shown of a player is no longer than the line, and never empty.
pub proof fn law_line_is_bounded(title: Option<Seq<char>>, artist: Option<Seq<char>>, bus: Seq<char>)
    ensures
        0 < playing(title, artist, bus).len() <= MPRIS_LINE_MAX,
{
    reveal_strlit("Playing");
}

/// The names of several artists as one, none where there is no name to show.
pub open spec fn artists(names: Seq<Seq<char>>) -> Option<Seq<char>> {
    let all = text::join(names, ", "@);
    if all.len() > 0 {
        Some(all)
    } else {
        None
    }
}

/// The names of several artists as one, none where there is no name to show.
pub fn join_artists(names: &Vec<String>) -> (r: Option<String>)
    ensures
        held(r) == artists(text::views(names@)),
{
    let all = text::join_with(names, ", ");
    if all.as_str().is_empty() {
        None
    } else {
        Some(all)
    }
}

/// What a media player says of itself: its name on the bus, and, where it
/// answered, its playback status, title and artist.
#[derive(Debug, Clone)]
pub struct Player {
    pub bus_name: String,
    pub answer: Option<Playback>,
}

/// A media player's answer.
#[derive(Debug, Clone)]
pub struct Playback {
    pub status: String,
    pub title: Option<String>,
    pub artist: Option<String>,
}

impl Player {
    /// Whether this is a media player that answered with that status.
    pub open spec fn is(self, status: Seq<char>) -> bool {
        self.answer matches Some(p) && p.status@ == status && text::begins_with(
            self.bus_name@,
            "org.mpris.MediaPlayer2."@,
        )
    }

    /// What is shown of the player.
    pub open spec fn line(self) -> Seq<char> {
        match self.answer {
            Some(p) => playing(held(p.title), held(p.artist), self.bus_name@),
            None => seq![],
        }
    }
}

/// Whether a name on the bus is a media player's.
pub fn is_player(bus_name: &str) -> (r: bool)
    ensures
        r == text::begins_with(bus_name@, "org.mpris.MediaPlayer2."@),
{
    text::strip_front(bus_name, "org.mpris.MediaPlayer2.").is_some()
}

/// What is shown of all players: the first that is playing, else the first that
/// is paused, else nothing. `paused` is what a player that came before would
/// show.
pub open spec fn shown(players: Seq<Player>, paused: Option<Seq<char>>) -> Seq<char>
    decreases players.len(),
{
    if players.len() == 0 {
        match paused {
            Some(line) => line,
            None => seq![],
        }
    } else if players[0].is("Playing"@) {
        players[0].line()
    } else if players[0].is("Paused"@) && paused is None {
        shown(players.skip(1), Some(players[0].line()))
    } else {
        shown(players.skip(1), paused)
    }
}

/// The players that were asked so far, none of them playing.
#[derive(Debug, Clone)]
pub struct Scan {
    /// What the first paused player shows.
    pub paused: Option<String>,
}

impl Scan {
    /// Nobody was asked yet.
    pub fn new() -> (r: Scan)
        ensures
            r.paused is None,
    {
        Scan { paused: None }
    }

    /// One more player answered, or did not. Its line comes back where it is
    /// playing: then no other has to be asked.
    pub fn ask(&mut self, player: &Player) -> (r: Option<String>)
        ensures
            held(r) == (if player.is("Playing"@) {
                Some(player.line())
            } else {
                None
            }),
            held(final(self).paused) == (if player.is("Paused"@) && !player.is("Playing"@) && old(
                self,
            ).paused is None {
                Some(player.line())
            } else {
                held(old(self).paused)
            }),
            player.answer matches Some(p) ==> text::begins_with(
                player.bus_name@,
                "org.mpris.MediaPlayer2."@,
            ) && p.status@ == "Playing"@ ==> {
                let title = words_of(p.title);
                let artist = words_of(p.artist);
                &&& r is Some
                &&& title.len() > 0 && artist.len() > 0 ==> is_beginning(
                    (r->0)@,
                    truncated(text::join(title, seq![' ']), 80) + " — "@ + truncated(
                        text::join(artist, seq![' ']),
                        80,
                    ),
                    120,
                )
                &&& title.len() > 0 && artist.len() == 0 ==> is_beginning(
                    (r->0)@,
                    text::join(title, seq![' ']),
                    80,
                )
                &&& title.len() == 0 && artist.len() > 0 ==> is_beginning(
                    (r->0)@,
                    text::join(artist, seq![' ']),
                    80,
                )
            },
            player.answer is None || !text::begins_with(
                player.bus_name@,
                "org.mpris.MediaPlayer2."@,
            ) ==> r is None && final(self).paused == old(self).paused,
    {
        let bus = player.bus_name.as_str();
        if !is_player(bus) {
            return None;
        }
        match &player.answer {
            Some(p) => {
                let title = match &p.title {
                    Some(t) => Some(t.as_str()),
                    None => None,
                };
                let artist = match &p.artist {
                    Some(a) => Some(a.as_str()),
                    None => None,
                };
                let line = format_now_playing(title, artist, bus);
                proof {
                    lemma_line_of_fields(held(p.title), held(p.artist), bus@);
                }
                if text::same(p.status.as_str(), "Playing") {
                    return Some(line);
                }
                if text::same(p.status.as_str(), "Paused") && self.paused.is_none() {
                    self.paused = Some(line);
                }
                None
            },
            None => None,
        }
    }

    /// What is shown where no player is playing.
    pub fn finish(self) -> (r: String)
        ensures
            r@ == shown(seq![], held(self.paused)),
    {
        match self.paused {
            Some(line) => line,
            None => String::new(),
        }
    }
}

/// The words of a title or artist, none where there is none.
pub open spec fn words_of(s: Option<String>) -> Seq<Seq<char>> {
    match s {
        Some(t) => text::words(t@),
        None => seq![],
    }
}

proof fn lemma_line_of_fields(title: Option<Seq<char>>, artist: Option<Seq<char>>, bus: Seq<char>)
    ensures
        ({
            let t = match title {
                Some(s) => text::words(s),
                None => seq![],
            };
            let a = match artist {
                Some(s) => text::words(s),
                None => seq![],
            };
            let line = playing(title, artist, bus);
            &&& t.len() > 0 && a.len() > 0 ==> is_beginning(
                line,
                truncated(text::join(t, seq![' ']), 80) + " — "@ + truncated(
                    text::join(a, seq![' ']),
                    80,
                ),
                120,
            )
            &&& t.len() > 0 && a.len() == 0 ==> is_beginning(line, text::join(t, seq![' ']), 80)
            &&& t.len() == 0 && a.len() > 0 ==> is_beginning(line, text::join(a, seq![' ']), 80)
        }),
{
    let nothing = Seq::<char>::empty();
    let t = match title {
        Some(s) => s,
        None => nothing,
    };
    let a = match artist {
        Some(s) => s,
        None => nothing,
    };
    law_fields_are_their_words(t);
    law_fields_are_their_words(a);
    law_player_shows_title_and_artist(t, a, bus);
    reveal_strlit(" ");
    assert(" "@ =~= seq![' ']);
}

/// Asking the players one by one, up to the first that is playing, shows what
/// the whole list shows.
pub proof fn law_scan_shows_the_list(players: Seq<Player>, paused: Option<Seq<char>>)
    requires
        players.len() > 0,
    ensures
        players[0].is("Playing"@) ==> shown(players, paused) == players[0].line(),
        !players[0].is("Playing"@) ==> shown(players, paused) == shown(
            players.skip(1),
            if players[0].is("Paused"@) && paused is None {
                Some(players[0].line())
            } else {
                paused
            },
        ),
{
}

/// A player that is playing is shown before every one that is paused, wherever
/// in the list it stands; of several, the first.
pub proof fn law_playing_comes_first(players: Seq<Player>, paused: Option<Seq<char>>, i: int)
    requires
        0 <= i < players.len(),
        players[i].is("Playing"@),
        forall|j: int| 0 <= j < i ==> !(#[trigger] players[j]).is("Playing"@),
    ensures
        shown(players, paused) == players[i].line(),
    decreases i,
{
    if i > 0 {
        assert(!players[0].is("Playing"@));
        let rest = players.skip(1);
        assert forall|j: int| 0 <= j < i - 1 implies !(#[trigger] rest[j]).is("Playing"@) by {
            assert(rest[j] == players[j + 1]);
        }
        let next = if players[0].is("Paused"@) && paused is None {
            Some(players[0].line())
        } else {
            paused
        };
        law_playing_comes_first(rest, next, i - 1);
    }
}

// ---------------------------------------------------------------------------
// The battery
// ---------------------------------------------------------------------------

/// What is shown of a battery: its charge in percent, and whether it is
/// charging or full. Nothing for a machine without one.
pub open spec fn battery(present: bool, percent: Seq<char>, state: u32) -> Seq<char> {
    if !present {
        seq![]
    } else if state == 1 {
        percent + "%"@ + " · charging"@
    } else if state == 4 {
        percent + "%"@ + " · full"@
    } else {
        percent + "%"@
    }
}

/// What is shown of a battery. `percent` is its charge, rounded, in decimal;
/// `state` is 1 while it charges and 4 when it is full.
pub fn format_battery(present: bool, percent: &str, state: u32) -> (r: String)
    ensures
        r@ == battery(present, percent@, state),
{
    if !present {
        return String::new();
    }
    let charge = text::joined(percent, "%");
    match state {
        1 => text::joined(charge.as_str(), " · charging"),
        4 => text::joined(charge.as_str(), " · full"),
        _ => charge,
    }
}

/// What is shown of the power supply, by those of its properties that it has.
pub open spec fn supply(
    present: Option<bool>,
    kind: Option<u32>,
    percent: Option<Seq<char>>,
    state: Option<u32>,
) -> Seq<char> {
    if (kind matches Some(k) && k != UPOWER_TYPE_BATTERY) || percent is None {
        seq![]
    } else {
        battery(
            present == Some(true),
            percent->0,
            match state {
                Some(s) => s,
                None => 0u32,
            },
        )
    }
}

/// What is shown of the power supply, by those of its properties that it has:
/// whether a battery is present, the kind of device, the charge and the state.
/// A supply of another kind, or without a charge, shows nothing.
pub fn battery_line(
    present: Option<bool>,
    kind: Option<u32>,
    percent: Option<String>,
    state: Option<u32>,
) -> (r: String)
    ensures
        r@ == supply(present, kind, held(percent), state),
{
    let here = match present {
        Some(p) => p,
        None => false,
    };
    let state: u32 = match state {
        Some(s) => s,
        None => 0,
    };
    match kind {
        Some(k) => {
            if k != UPOWER_TYPE_BATTERY {
                return String::new();
            }
        },
        None => {},
    }
    match percent {
        Some(p) => format_battery(here, p.as_str(), state),
        None => String::new(),
    }
}

// ---------------------------------------------------------------------------
// What is shown of what
// ---------------------------------------------------------------------------

/// Whether `line` is as much of the beginning of `full` as fits into `max`
/// characters.
pub open spec fn is_beginning(line: Seq<char>, full: Seq<char>, max: nat) -> bool {
    &&& line.len() == (if full.len() <= max {
        full.len()
    } else {
        max
    })
    &&& line == full.take(line.len() as int)
}

/// A title or artist is shown as its words with one blank between two, up to
/// eighty characters; text without a word shows nothing.
pub proof fn law_fields_are_their_words(s: Seq<char>)
    ensures
        is_beginning(sanitized(s), text::join(text::words(s), seq![' ']), 80),
        text::words(s).len() == 0 ==> field(Some(s)) is None,
        text::words(s).len() > 0 ==> field(Some(s)) == Some(sanitized(s)),
        field(None) is None,
{
    reveal_strlit(" ");
    assert(" "@ =~= seq![' ']);
    let full = text::join(text::words(s), " "@);
    assert(full.take(full.len() as int) =~= full);
    if text::words(s).len() > 0 {
        lemma_words_are_not_empty(s);
        lemma_join_is_not_empty(text::words(s), " "@);
    } else {
        assert(text::join(text::words(s), " "@).len() == 0);
    }
}

proof fn lemma_words_are_not_empty(s: Seq<char>)
    ensures
        text::words(s).len() > 0 ==> text::words(s)[0].len() > 0,
{
    let t = text::trim_start(s);
    text::lemma_find(s, text::nonspace());
    if t.len() > 0 {
        assert(t[0] == s[text::find(s, text::nonspace())]);
        text::lemma_find(t, text::space());
    }
}

proof fn lemma_join_is_not_empty(parts: Seq<Seq<char>>, sep: Seq<char>)
    requires
        parts.len() > 0,
        parts[0].len() > 0,
    ensures
        text::join(parts, sep).len() > 0,
    decreases parts.len(),
{
    if parts.len() > 1 {
        lemma_join_is_not_empty(parts.drop_last(), sep);
    }
}

/// A player shows its title and its artist with a dash between them, one of the
/// two where the other has nothing to show, and else its own name: as much of
/// it as fits into a hundred and twenty characters.
pub proof fn law_player_shows_title_and_artist(title: Seq<char>, artist: Seq<char>, bus: Seq<char>)
    ensures
        ({
            let t = text::words(title).len() > 0;
            let a = text::words(artist).len() > 0;
            let both = playing(Some(title), Some(artist), bus);
            &&& t && a ==> is_beginning(both, sanitized(title) + " — "@ + sanitized(artist), 120)
            &&& t && !a ==> both == sanitized(title)
            &&& !t && a ==> both == sanitized(artist)
            &&& !t && !a ==> is_beginning(both, player_name(bus), 120)
            &&& t ==> playing(Some(title), None, bus) == sanitized(title)
            &&& !t ==> is_beginning(playing(Some(title), None, bus), player_name(bus), 120)
            &&& a ==> playing(None, Some(artist), bus) == sanitized(artist)
            &&& !a ==> is_beginning(playing(None, Some(artist), bus), player_name(bus), 120)
            &&& is_beginning(playing(None, None, bus), player_name(bus), 120)
        }),
{
    law_fields_are_their_words(title);
    law_fields_are_their_words(artist);
    let full = sanitized(title) + " — "@ + sanitized(artist);
    assert(full.take(full.len() as int) =~= full);
    let name = player_name(bus);
    assert(name.take(name.len() as int) =~= name);
}

/// A player goes by what follows the common beginning of the players' names on
/// the bus, up to the next dot.
pub proof fn law_player_goes_by_its_name(name: Seq<char>, rest: Seq<char>, bus: Seq<char>)
    requires
        name.len() > 0,
        !name.contains('.'),
    ensures
        player_name("org.mpris.MediaPlayer2."@ + name) == name,
        player_name("org.mpris.MediaPlayer2."@ + name + seq!['.'] + rest) == name,
        !text::begins_with(bus, "org.mpris.MediaPlayer2."@) ==> player_name(bus) == "Playing"@,
        player_name("org.mpris.MediaPlayer2."@) == "Playing"@,
{
    let prefix = "org.mpris.MediaPlayer2."@;
    let n = prefix.len() as int;
    text::law_split_takes_the_first_piece(name, '.', rest);
    let short = prefix + name;
    let long = prefix + name + seq!['.'] + rest;
    assert(short.skip(n) =~= name);
    assert(short.take(n) =~= prefix);
    assert(long.skip(n) =~= name + seq!['.'] + rest);
    assert(long.take(n) =~= prefix);
    let none = Seq::<char>::empty();
    assert(prefix.skip(n) =~= none);
    text::law_split_takes_the_first_piece(none, '.', none);
}

/// The first player that is playing is what shows, whichever are paused before
/// it: its title and its artist, as it gave them.
pub proof fn law_first_playing_player_shows(
    players: Seq<Player>,
    paused: Option<Seq<char>>,
    i: int,
    title: Seq<char>,
    artist: Seq<char>,
)
    requires
        0 <= i < players.len(),
        forall|j: int| 0 <= j < i ==> !(#[trigger] players[j]).is("Playing"@),
        text::begins_with(players[i].bus_name@, "org.mpris.MediaPlayer2."@),
        players[i].answer is Some,
        (players[i].answer->0).status@ == "Playing"@,
        (players[i].answer->0).title is Some && ((players[i].answer->0).title->0)@ == title,
        (players[i].answer->0).artist is Some && ((players[i].answer->0).artist->0)@ == artist,
        text::words(title).len() > 0,
        text::words(artist).len() > 0,
    ensures
        is_beginning(
            shown(players, paused),
            sanitized(title) + " — "@ + sanitized(artist),
            120,
        ),
{
    law_playing_comes_first(players, paused, i);
    law_player_shows_title_and_artist(title, artist, players[i].bus_name@);
}

/// Where no player is playing, the first that is paused is what shows, and where
/// none is either, nothing.
pub proof fn law_first_paused_player_shows(players: Seq<Player>, i: int)
    requires
        0 <= i <= players.len(),
        forall|j: int| 0 <= j < players.len() ==> !(#[trigger] players[j]).is("Playing"@),
        forall|j: int| 0 <= j < i ==> !(#[trigger] players[j]).is("Paused"@),
        i < players.len() ==> {
            &&& text::begins_with(players[i].bus_name@, "org.mpris.MediaPlayer2."@)
            &&& players[i].answer is Some
            &&& (players[i].answer->0).status@ == "Paused"@
        },
    ensures
        i == players.len() ==> shown(players, None).len() == 0,
        i < players.len() ==> shown(players, None) == playing(
            held((players[i].answer->0).title),
            held((players[i].answer->0).artist),
            players[i].bus_name@,
        ),
    decreases players.len(),
{
    if players.len() > 0 {
        let rest = players.skip(1);
        assert(!players[0].is("Playing"@));
        assert forall|j: int| 0 <= j < rest.len() implies !(#[trigger] rest[j]).is("Playing"@) by {
            assert(rest[j] == players[j + 1]);
        }
        if i == 0 {
            lemma_paused_stays(rest, players[0].line());
        } else {
            assert(!players[0].is("Paused"@));
            assert forall|j: int| 0 <= j < i - 1 implies !(#[trigger] rest[j]).is("Paused"@) by {
                assert(rest[j] == players[j + 1]);
            }
            if i < players.len() {
                assert(rest[i - 1] == players[i]);
            }
            law_first_paused_player_shows(rest, i - 1);
        }
    }
}

proof fn lemma_paused_stays(players: Seq<Player>, line: Seq<char>)
    requires
        forall|j: int| 0 <= j < players.len() ==> !(#[trigger] players[j]).is("Playing"@),
    ensures
        shown(players, Some(line)) == line,
    decreases players.len(),
{
    if players.len() > 0 {
        let rest = players.skip(1);
        assert(!players[0].is("Playing"@));
        assert forall|j: int| 0 <= j < rest.len() implies !(#[trigger] rest[j]).is("Playing"@) by {
            assert(rest[j] == players[j + 1]);
        }
        lemma_paused_stays(rest, line);
    }
}

/// A player that did not answer, that answers neither of the two, or that has
/// another name on the bus, is neither playing nor paused; the others are what
/// they say.
pub proof fn law_players_are_what_they_say(p: Player, status: Seq<char>)
    ensures
        p.answer is None ==> !p.is(status),
        !text::begins_with(p.bus_name@, "org.mpris.MediaPlayer2."@) ==> !p.is(status),
        p.answer is Some && text::begins_with(p.bus_name@, "org.mpris.MediaPlayer2."@) ==> p.is(
            status,
        ) == ((p.answer->0).status@ == status),
{
}

/// A player's line is made of the title and the artist that it answered with,
/// and of its own name.
pub proof fn law_line_is_made_of_the_answer(p: Player)
    ensures
        p.answer matches Some(a) ==> p.line() == playing(
            match a.title {
                Some(t) => Some(t@),
                None => None,
            },
            match a.artist {
                Some(t) => Some(t@),
                None => None,
            },
            p.bus_name@,
        ),
        p.answer is None ==> p.line().len() == 0,
{
}

/// Several artists are shown with a comma and a blank between two.
pub proof fn law_artists_are_listed(names: Seq<Seq<char>>, last: Seq<char>)
    requires
        last.len() > 0,
    ensures
        artists(seq![]) is None,
        artists(seq![last]) == Some(last),
        names.len() > 0 ==> artists(names.push(last)) == Some(
            text::join(names, ", "@) + ", "@ + last,
        ),
{
    text::law_join_appends(names, last, ", "@);
    assert(text::join(Seq::<Seq<char>>::empty(), ", "@).len() == 0);
}

/// A battery shows its charge, and that it is charging or full; without one
/// nothing shows.
pub proof fn law_battery_shows_its_charge(percent: Seq<char>, state: u32)
    ensures
        battery(true, percent, 1) == percent + "% · charging"@,
        battery(true, percent, 4) == percent + "% · full"@,
        state != 1 && state != 4 ==> battery(true, percent, state) == percent + "%"@,
        battery(false, percent, state).len() == 0,
{
    reveal_strlit("%");
    reveal_strlit(" · charging");
    reveal_strlit(" · full");
    reveal_strlit("% · charging");
    reveal_strlit("% · full");
    assert(percent + "%"@ + " · charging"@ =~= percent + "% · charging"@);
    assert(percent + "%"@ + " · full"@ =~= percent + "% · full"@);
}

/// A power supply shows the battery that it says is present; a device of another
/// kind than the second, or one without a charge, shows nothing, and one that
/// does not say its kind is taken for a battery.
pub proof fn law_supply_shows_its_battery(
    present: Option<bool>,
    kind: Option<u32>,
    percent: Seq<char>,
    state: u32,
)
    ensures
        supply(present, kind, None, Some(state)).len() == 0,
        present != Some(true) ==> supply(present, kind, Some(percent), Some(state)).len() == 0,
        kind matches Some(k) && k != 2 ==> supply(present, kind, Some(percent), Some(state)).len()
            == 0,
        kind is None || kind == Some(2u32) ==> supply(Some(true), kind, Some(percent), Some(state))
            == battery(true, percent, state),
        kind is None || kind == Some(2u32) ==> supply(Some(true), kind, Some(percent), None)
            == percent + "%"@,
{
}

} // verus!
