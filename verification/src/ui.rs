//! The terminal player's state and decisions: what each key does to the
//! search box, the results list and the selection, what it asks of the
//! player, and the text of each part of the screen.
use vstd::prelude::*;

use crate::decimal::{all_digits, decimal_02, digits_value, law_two_digit_numeral, push_decimal_02};
use crate::models::{copy_opt, opt_view, Track};
use crate::text::{chars_of, push_char, push_chars, push_str, strip_both_bounds, string_of, trim, Strip};

verus! {

/// A key the player reacts to.
#[derive(Debug, Clone, Copy, PartialEq, Eq)]
pub enum Key {
    Esc,
    Enter,
    Backspace,
    Left,
    Right,
    Up,
    Down,
    Char(char),
    Other,
}

/// What the player is asked to do after a key.
#[derive(Debug, Clone, PartialEq, Eq)]
pub enum Action {
    /// Nothing beyond the change of state.
    Nothing,
    /// Search the catalogue for the text.
    Search(String),
    /// Stop playback and leave.
    Quit,
    /// Pause, or resume, playback.
    TogglePause,
    /// Move playback by this many seconds.
    Seek(i64),
    /// Look up and play a track.
    Play(PlayRequest),
}

/// The lookup of a track to play: the artist and title that its stream is
/// searched by, and its artwork.
#[derive(Debug, Clone, PartialEq, Eq)]
pub struct PlayRequest {
    pub artist: String,
    pub title: String,
    pub artwork: Option<String>,
}

/// What the screen shows besides playback: the search box, the results, the
/// selected result and the track that is playing.
#[derive(Debug)]
pub struct AppState {
    pub query: String,
    pub results: Vec<Track>,
    pub selected: usize,
    pub search_active: bool,
    pub now_playing: Option<Track>,
}

/// Removes the last character of a string (`String::pop`).
#[verifier::external_body]
fn pop_char(s: &mut String) -> (c: Option<char>)
    ensures
        old(s)@.len() == 0 ==> c is None && final(s)@ == old(s)@,
        old(s)@.len() > 0 ==> c == Some(old(s)@.last()) && final(s)@ == old(s)@.drop_last(),
{
    s.pop()
}

/// The artist a track is looked up by: its artist, else `Unknown Artist`.
pub open spec fn lookup_artist(t: Track) -> Seq<char> {
    match t.artist {
        Some(a) => a@,
        None => "Unknown Artist"@,
    }
}

/// Whether `s2` is `s1` with only the query changed, to `q`.
pub open spec fn only_query(s1: AppState, s2: AppState, q: Seq<char>) -> bool {
    &&& s2.query@ == q
    &&& s2.results == s1.results
    &&& s2.selected == s1.selected
    &&& s2.search_active == s1.search_active
    &&& s2.now_playing == s1.now_playing
}

/// Whether `s2` is `s1` unchanged.
pub open spec fn unchanged(s1: AppState, s2: AppState) -> bool {
    only_query(s1, s2, s1.query@)
}

/// What a key does while the search box is being edited: `Esc` leaves the
/// box; `Enter` leaves it and searches for the trimmed text; `Backspace`
/// removes the last character and other characters are typed.
pub open spec fn search_key_step(s1: AppState, key: Key, s2: AppState, a: Action) -> bool {
    match key {
        Key::Esc => {
            &&& s2.query@ == s1.query@ && s2.results == s1.results && s2.selected == s1.selected
            &&& !s2.search_active && s2.now_playing == s1.now_playing
            &&& a is Nothing
        },
        Key::Enter => {
            &&& s2.query@ == s1.query@ && s2.results == s1.results && s2.selected == s1.selected
            &&& !s2.search_active && s2.now_playing == s1.now_playing
            &&& a matches Action::Search(q) && q@ == trim(s1.query@)
        },
        Key::Backspace => only_query(s1, s2, if s1.query@.len() > 0 {
            s1.query@.drop_last()
        } else {
            s1.query@
        }) && a is Nothing,
        Key::Char(c) => only_query(s1, s2, s1.query@.push(c)) && a is Nothing,
        _ => unchanged(s1, s2) && a is Nothing,
    }
}

/// What a key does otherwise: `q` quits, `/` empties and opens the search
/// box, space pauses, the left and right arrows seek five seconds back and
/// forward, `Enter` plays the selected result, the up and down arrows move
/// the selection within the results, `Backspace` and other characters edit
/// the query.
pub open spec fn browse_key_step(s1: AppState, key: Key, s2: AppState, a: Action) -> bool {
    match key {
        Key::Char('q') => unchanged(s1, s2) && a is Quit,
        Key::Char('/') => {
            &&& s2.query@.len() == 0 && s2.results == s1.results && s2.selected == s1.selected
            &&& s2.search_active && s2.now_playing == s1.now_playing
            &&& a is Nothing
        },
        Key::Char(' ') => unchanged(s1, s2) && a is TogglePause,
        Key::Left => unchanged(s1, s2) && a == Action::Seek(-5i64),
        Key::Right => unchanged(s1, s2) && a == Action::Seek(5i64),
        Key::Enter => if s1.selected < s1.results@.len() {
            let t = s1.results@[s1.selected as int];
            &&& s2.query@ == s1.query@ && s2.results == s1.results && s2.selected == s1.selected
            &&& s2.search_active == s1.search_active
            &&& s2.now_playing == Some(t)
            &&& a matches Action::Play(p) && p.artist@ == lookup_artist(t) && p.title@ == t.title@
                && p.artwork == t.artwork
        } else {
            unchanged(s1, s2) && a is Nothing
        },
        Key::Down => {
            &&& s2.query@ == s1.query@ && s2.results == s1.results
            &&& s2.search_active == s1.search_active && s2.now_playing == s1.now_playing
            &&& s2.selected == (if s1.selected + 1 < s1.results@.len() {
                s1.selected + 1
            } else {
                s1.selected as int
            })
            &&& a is Nothing
        },
        Key::Up => {
            &&& s2.query@ == s1.query@ && s2.results == s1.results
            &&& s2.search_active == s1.search_active && s2.now_playing == s1.now_playing
            &&& s2.selected == (if s1.selected > 0 {
                s1.selected - 1
            } else {
                0
            })
            &&& a is Nothing
        },
        Key::Backspace => only_query(s1, s2, if s1.query@.len() > 0 {
            s1.query@.drop_last()
        } else {
            s1.query@
        }) && a is Nothing,
        Key::Char(c) => only_query(s1, s2, s1.query@.push(c)) && a is Nothing,
        _ => unchanged(s1, s2) && a is Nothing,
    }
}

/// What a key does in a state.
pub open spec fn key_step(s1: AppState, key: Key, s2: AppState, a: Action) -> bool {
    if s1.search_active {
        search_key_step(s1, key, s2, a)
    } else {
        browse_key_step(s1, key, s2, a)
    }
}

/// The selection names a result, or is the first place of an empty list.
pub open spec fn selection_valid(s: AppState) -> bool {
    s.selected == 0 || s.selected < s.results@.len()
}

impl AppState {
    /// The state at start: no query, no results, nothing playing.
    pub fn new() -> (s: AppState)
        ensures
            s.query@.len() == 0,
            s.results@.len() == 0,
            s.selected == 0,
            !s.search_active,
            s.now_playing is None,
            selection_valid(s),
    {
        AppState {
            query: String::new(),
            results: Vec::new(),
            selected: 0,
            search_active: false,
            now_playing: None,
        }
    }

    /// Shows the results of a search, with the first one selected.
    pub fn receive_results(&mut self, results: Vec<Track>)
        ensures
            final(self).results == results,
            final(self).selected == 0,
            final(self).query == old(self).query,
            final(self).search_active == old(self).search_active,
            final(self).now_playing == old(self).now_playing,
            selection_valid(*final(self)),
    {
        self.results = results;
        self.selected = 0;
    }

    /// Reacts to a key: changes the state and says what the player is to do.
    pub fn handle_key(&mut self, key: Key) -> (a: Action)
        ensures
            key_step(*old(self), key, *final(self), a),
    {
        if self.search_active {
            match key {
                Key::Esc => {
                    self.search_active = false;
                    Action::Nothing
                },
                Key::Enter => {
                    let v = chars_of(self.query.as_str());
                    let (lo, hi) = strip_both_bounds(&v, 0, v.len(), Strip::WhiteSpace);
                    assert(v@.subrange(0, v@.len() as int) =~= v@);
                    let q = string_of(&v, lo, hi);
                    self.search_active = false;
                    Action::Search(q)
                },
                Key::Backspace => {
                    pop_char(&mut self.query);
                    Action::Nothing
                },
                Key::Char(c) => {
                    push_char(&mut self.query, c);
                    Action::Nothing
                },
                _ => Action::Nothing,
            }
        } else {
            match key {
                Key::Char('q') => Action::Quit,
                Key::Char('/') => {
                    self.query = String::new();
                    self.search_active = true;
                    Action::Nothing
                },
                Key::Char(' ') => Action::TogglePause,
                Key::Left => Action::Seek(-5),
                Key::Right => Action::Seek(5),
                Key::Enter => {
                    if self.selected < self.results.len() {
                        let t = self.results[self.selected].copy();
                        let artist = match &t.artist {
                            Some(a) => a.clone(),
                            None => {
                                let mut a = String::new();
                                push_str(&mut a, "Unknown Artist");
                                a
                            },
                        };
                        let request = PlayRequest {
                            artist,
                            title: t.title.clone(),
                            artwork: copy_opt(&t.artwork),
                        };
                        self.now_playing = Some(t);
                        Action::Play(request)
                    } else {
                        Action::Nothing
                    }
                },
                Key::Down => {
                    if self.results.len() > 0 && self.selected < self.results.len() - 1 {
                        self.selected += 1;
                    }
                    Action::Nothing
                },
                Key::Up => {
                    if self.selected > 0 {
                        self.selected -= 1;
                    }
                    Action::Nothing
                },
                Key::Backspace => {
                    pop_char(&mut self.query);
                    Action::Nothing
                },
                Key::Char(c) => {
                    push_char(&mut self.query, c);
                    Action::Nothing
                },
                _ => Action::Nothing,
            }
        }
    }
}

/// A colour of the results text.
#[derive(Debug, Clone, Copy, PartialEq, Eq)]
pub enum Colour {
    White,
    DarkGray,
}

/// How a line of text is drawn.
#[derive(Debug, Clone, Copy, PartialEq, Eq)]
pub struct TextStyle {
    pub colour: Colour,
    pub bold: bool,
    pub italic: bool,
}

/// The style of a result: white and bold when selected, dark gray and
/// italic otherwise.
pub open spec fn result_style_of(selected: bool) -> TextStyle {
    if selected {
        TextStyle { colour: Colour::White, bold: true, italic: false }
    } else {
        TextStyle { colour: Colour::DarkGray, bold: false, italic: true }
    }
}

/// The style of a result.
pub fn result_style(selected: bool) -> (st: TextStyle)
    ensures
        st == result_style_of(selected),
{
    if selected {
        TextStyle { colour: Colour::White, bold: true, italic: false }
    } else {
        TextStyle { colour: Colour::DarkGray, bold: false, italic: true }
    }
}

/// A line of the results list: its text, and its style where it has one.
#[derive(Debug, Clone, PartialEq, Eq)]
pub struct StyledLine {
    pub text: String,
    pub style: Option<TextStyle>,
}

/// How a result reads in the list: `artist - title`, with `unknown artist`
/// for a track without artist.
pub open spec fn result_label(t: Track) -> Seq<char> {
    let artist = match t.artist {
        Some(a) => a@,
        None => "unknown artist"@,
    };
    artist + " - "@ + t.title@
}

/// Whether `lines` is the results list for `results` with `selected`
/// selected: three lines with `no results` in the middle when there are
/// none; otherwise the results, each padded with two spaces on either side
/// and styled by whether it is selected, with a blank line before, between
/// and after them.
pub open spec fn is_results_list(results: Seq<Track>, selected: int, lines: Seq<StyledLine>) -> bool {
    if results.len() == 0 {
        &&& lines.len() == 3
        &&& lines[0].text@.len() == 0 && lines[0].style is None
        &&& lines[1].text@ == "no results"@ && lines[1].style == Some(result_style_of(false))
        &&& lines[2].text@.len() == 0 && lines[2].style is None
    } else {
        &&& lines.len() == 2 * results.len() + 1
        &&& forall|k: int|
            0 <= k < lines.len() && k % 2 == 0 ==> (#[trigger] lines[k]).text@.len() == 0
                && lines[k].style is None
        &&& forall|i: int|
            0 <= i < results.len() ==> {
                let line = #[trigger] lines[2 * i + 1];
                &&& line.text@ == "  "@ + result_label(results[i]) + "  "@
                &&& line.style == Some(result_style_of(i == selected))
            }
    }
}

/// A line with no text and no style.
fn blank_line() -> (l: StyledLine)
    ensures
        l.text@.len() == 0,
        l.style is None,
{
    StyledLine { text: String::new(), style: None }
}

/// The text of a result in the list, padded.
fn result_line_text(t: &Track) -> (s: String)
    ensures
        s@ == "  "@ + result_label(*t) + "  "@,
{
    let mut s = String::new();
    push_str(&mut s, "  ");
    match &t.artist {
        Some(a) => push_str(&mut s, a.as_str()),
        None => push_str(&mut s, "unknown artist"),
    }
    push_str(&mut s, " - ");
    push_str(&mut s, t.title.as_str());
    push_str(&mut s, "  ");
    s
}

impl AppState {
    /// The lines of the results list.
    pub fn result_lines(&self) -> (lines: Vec<StyledLine>)
        ensures
            is_results_list(self.results@, self.selected as int, lines@),
    {
        let mut lines: Vec<StyledLine> = Vec::new();
        if self.results.len() == 0 {
            lines.push(blank_line());
            let mut t = String::new();
            push_str(&mut t, "no results");
            lines.push(StyledLine { text: t, style: Some(result_style(false)) });
            lines.push(blank_line());
            return lines;
        }
        lines.push(blank_line());
        let mut i: usize = 0;
        while i < self.results.len()
            invariant
                0 <= i <= self.results@.len(),
                lines@.len() == 2 * i + 1,
                forall|k: int|
                    0 <= k < lines@.len() && k % 2 == 0 ==> (#[trigger] lines@[k]).text@.len() == 0
                        && lines@[k].style is None,
                forall|j: int|
                    0 <= j < i ==> {
                        let line = #[trigger] lines@[2 * j + 1];
                        &&& line.text@ == "  "@ + result_label(self.results@[j]) + "  "@
                        &&& line.style == Some(result_style_of(j == self.selected))
                    },
            decreases self.results@.len() - i,
        {
            let text = result_line_text(&self.results[i]);
            lines.push(StyledLine { text, style: Some(result_style(i == self.selected)) });
            lines.push(blank_line());
            assert(lines@[2 * i + 1].text@ == "  "@ + result_label(self.results@[i as int]) + "  "@);
            i += 1;
        }
        lines
    }

    /// The text of the search box: the query, followed by a cursor `|` while
    /// it is being edited.
    pub fn search_box_text(&self) -> (s: String)
        ensures
            s@ == (if self.search_active {
                self.query@.push('|')
            } else {
                self.query@
            }),
    {
        let mut s = self.query.clone();
        if self.search_active {
            push_char(&mut s, '|');
        }
        s
    }

    /// The title of the track playing, or `nothing playing`.
    pub fn now_playing_title(&self) -> (s: String)
        ensures
            s@ == playing_title(*self),
    {
        match &self.now_playing {
            Some(t) => t.title.clone(),
            None => {
                let mut s = String::new();
                push_str(&mut s, "nothing playing");
                s
            },
        }
    }

    /// The artist of the track playing, or `-`.
    pub fn now_playing_artist(&self) -> (s: String)
        ensures
            s@ == playing_artist(*self),
    {
        let mut s = String::new();
        match &self.now_playing {
            Some(t) => match &t.artist {
                Some(a) => {
                    s = a.clone();
                },
                None => push_str(&mut s, "-"),
            },
            None => push_str(&mut s, "-"),
        }
        s
    }
}

/// The title shown for the track playing, or `nothing playing`.
pub open spec fn playing_title(s: AppState) -> Seq<char> {
    match s.now_playing {
        Some(t) => t.title@,
        None => "nothing playing"@,
    }
}

/// The artist shown for the track playing, or `-`.
pub open spec fn playing_artist(s: AppState) -> Seq<char> {
    match s.now_playing {
        Some(t) => match t.artist {
            Some(a) => a@,
            None => "-"@,
        },
        None => "-"@,
    }
}

/// The number of characters of the progress bar.
pub const BAR_WIDTH: usize = 24;

/// The progress bar with `filled` of its `BAR_WIDTH` places filled.
pub open spec fn bar_of(filled: int) -> Seq<char> {
    Seq::new(BAR_WIDTH as nat, |i: int| if i < filled { '█' } else { '─' })
}

/// Draws the progress bar with `filled` places filled.
pub fn progress_bar(filled: usize) -> (s: String)
    ensures
        s@ == bar_of(filled as int),
{
    let mut s = String::new();
    let mut i: usize = 0;
    while i < BAR_WIDTH
        invariant
            i <= BAR_WIDTH,
            s@ == bar_of(filled as int).take(i as int),
        decreases BAR_WIDTH - i,
    {
        if i < filled {
            push_char(&mut s, '█');
        } else {
            push_char(&mut s, '─');
        }
        assert(bar_of(filled as int).take(i + 1) =~= bar_of(filled as int).take(i as int).push(
            bar_of(filled as int)[i as int],
        ));
        i += 1;
    }
    assert(bar_of(filled as int).take(BAR_WIDTH as int) =~= bar_of(filled as int));
    s
}

/// A duration in whole seconds as `MM:SS`: minutes and seconds, each with at
/// least two digits.
pub open spec fn clock_of(secs: nat) -> Seq<char> {
    decimal_02(secs / 60) + ":"@ + decimal_02(secs % 60)
}

/// Writes a duration in whole seconds as `MM:SS`.
pub fn clock(secs: u64) -> (s: String)
    ensures
        s@ == clock_of(secs as nat),
{
    let mut s = String::new();
    push_decimal_02(&mut s, secs / 60);
    push_str(&mut s, ":");
    push_decimal_02(&mut s, secs % 60);
    s
}

/// The lines under the cover art: title, artist, a blank line, the progress
/// bar in brackets and `elapsed / total`, preceded by `paused` and a blank
/// line while playback is paused.
pub open spec fn info_lines_of(
    title: Seq<char>,
    artist: Seq<char>,
    filled: int,
    elapsed: nat,
    total: nat,
    paused: bool,
) -> Seq<Seq<char>> {
    let body = seq![
        title,
        artist,
        Seq::<char>::empty(),
        "["@ + bar_of(filled) + "]"@,
        clock_of(elapsed) + " / "@ + clock_of(total),
    ];
    if paused {
        seq!["paused"@, Seq::<char>::empty()] + body
    } else {
        body
    }
}

impl AppState {
    /// The lines under the cover art, for `filled` places of the progress
    /// bar, `elapsed` of `total` seconds, and whether playback is paused.
    pub fn info_lines(&self, filled: usize, elapsed: u64, total: u64, paused: bool) -> (lines: Vec<
        String,
    >)
        ensures
            lines@.map_values(|l: String| l@) == info_lines_of(
                playing_title(*self),
                playing_artist(*self),
                filled as int,
                elapsed as nat,
                total as nat,
                paused,
            ),
    {
        let mut lines: Vec<String> = Vec::new();
        if paused {
            let mut p = String::new();
            push_str(&mut p, "paused");
            lines.push(p);
            lines.push(String::new());
        }
        lines.push(self.now_playing_title());
        lines.push(self.now_playing_artist());
        lines.push(String::new());
        let mut bar = String::new();
        push_str(&mut bar, "[");
        let b = progress_bar(filled);
        let bv = chars_of(b.as_str());
        push_chars(&mut bar, &bv, 0, bv.len());
        assert(bv@.subrange(0, bv@.len() as int) =~= b@);
        push_str(&mut bar, "]");
        lines.push(bar);
        let mut time = clock(elapsed);
        push_str(&mut time, " / ");
        let t = clock(total);
        let tv = chars_of(t.as_str());
        push_chars(&mut time, &tv, 0, tv.len());
        assert(tv@.subrange(0, tv@.len() as int) =~= t@);
        lines.push(time);
        proof {
            let expect = info_lines_of(
                playing_title(*self),
                playing_artist(*self),
                filled as int,
                elapsed as nat,
                total as nat,
                paused,
            );
            assert(lines@.map_values(|l: String| l@) =~= expect);
        }
        lines
    }
}

/// Every key keeps the selection on a result, or on the first place of an
/// empty list.
pub proof fn law_key_keeps_selection_valid(s1: AppState, key: Key, s2: AppState, a: Action)
    requires
        selection_valid(s1),
        key_step(s1, key, s2, a),
    ensures
        selection_valid(s2),
{
}

/// `Backspace` undoes typing a character into the query: wherever a
/// character is typed (in the search box, or outside it where the character
/// is not one of the commands `q`, `/` and space), the state after
/// `Backspace` is the state before the character, and neither key asks
/// anything of the player.
pub proof fn law_backspace_undoes_typing(
    s1: AppState,
    c: char,
    s2: AppState,
    a1: Action,
    s3: AppState,
    a2: Action,
)
    requires
        s1.search_active || (c != 'q' && c != '/' && c != ' '),
        key_step(s1, Key::Char(c), s2, a1),
        key_step(s2, Key::Backspace, s3, a2),
    ensures
        s3.query@ == s1.query@,
        s3.results == s1.results,
        s3.selected == s1.selected,
        s3.search_active == s1.search_active,
        s3.now_playing == s1.now_playing,
        a1 is Nothing,
        a2 is Nothing,
{
    assert(s2.query@.drop_last() =~= s1.query@);
}

/// Moving the selection down and then up again comes back to the same
/// result, wherever there is a result below it.
pub proof fn law_up_undoes_down(s1: AppState, s2: AppState, a1: Action, s3: AppState, a2: Action)
    requires
        !s1.search_active,
        s1.selected + 1 < s1.results@.len(),
        key_step(s1, Key::Down, s2, a1),
        key_step(s2, Key::Up, s3, a2),
    ensures
        s3.selected == s1.selected,
        s3.query@ == s1.query@,
        s3.results == s1.results,
        s3.now_playing == s1.now_playing,
{
}

/// Entering a search asks for exactly the trimmed query and closes the
/// search box without changing the results or the selection.
pub proof fn law_enter_searches_trimmed_query(s1: AppState, s2: AppState, a: Action)
    requires
        s1.search_active,
        key_step(s1, Key::Enter, s2, a),
    ensures
        a matches Action::Search(q) && q@ == trim(s1.query@) && trim(q@) == q@,
        !s2.search_active,
        s2.results == s1.results,
        s2.selected == s1.selected,
{
    crate::text::law_trim_idempotent(s1.query@);
}

/// A duration is written as its whole minutes, in at least two digits, a
/// colon, and its remaining seconds in exactly two digits.
pub proof fn law_clock_minutes_and_seconds(secs: nat)
    ensures
        ({
            let c = clock_of(secs);
            let minutes = c.take(c.len() - 3);
            let seconds = c.skip(c.len() - 2);
            &&& c.len() >= 5
            &&& c[c.len() - 3] == ':'
            &&& minutes.len() >= 2 && all_digits(minutes) && digits_value(minutes) == secs / 60
            &&& seconds.len() == 2 && all_digits(seconds) && digits_value(seconds) == secs % 60
        }),
{
    reveal_strlit(":");
    law_two_digit_numeral(secs / 60);
    law_two_digit_numeral(secs % 60);
    let m = decimal_02(secs / 60);
    let t = decimal_02(secs % 60);
    let c = clock_of(secs);
    assert(c =~= m + ":"@ + t);
    assert(c.take(c.len() - 3) =~= m);
    assert(c.skip(c.len() - 2) =~= t);
}

/// Only the selected result is drawn as selected: a line of the results list
/// is bold exactly where it is the line of the selected result.
pub proof fn law_only_selected_result_highlighted(
    results: Seq<Track>,
    selected: int,
    lines: Seq<StyledLine>,
)
    requires
        is_results_list(results, selected, lines),
    ensures
        forall|k: int|
            0 <= k < lines.len() ==> (((#[trigger] lines[k]).style matches Some(st) && st.bold) <==> (0
                <= selected < results.len() && k == 2 * selected + 1)),
{
    if results.len() > 0 {
        assert forall|k: int|
            0 <= k < lines.len() implies (((#[trigger] lines[k]).style matches Some(st) && st.bold)
                <==> (0 <= selected < results.len() && k == 2 * selected + 1)) by {
            if k % 2 == 1 {
                let i = (k - 1) / 2;
                assert(lines[2 * i + 1] == lines[k]);
            }
        }
    }
}

/// While the search box is open, only typing, `Backspace`, `Esc` and `Enter`
/// do anything, and no key there pauses, seeks, plays or quits: the arrows
/// and every other key leave the state unchanged and ask nothing.
pub proof fn law_search_box_keys(s1: AppState, key: Key, s2: AppState, a: Action)
    requires
        s1.search_active,
        key_step(s1, key, s2, a),
    ensures
        a is Nothing || a is Search,
        (key is Left || key is Right || key is Up || key is Down || key is Other) ==> unchanged(s1, s2)
            && a is Nothing,
{
}

} // verus!
