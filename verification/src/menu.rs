use vstd::prelude::*;

use crate::game::{Snake, SnakeId};
use crate::ranking::{first_alive, kill_total, ranked, rank_order};
use crate::text::{color_name, push_char};
use crate::tick::views;

verus! {

// ---------------------------------------------------------------------------
// Strings from std
// ---------------------------------------------------------------------------

/// Unicode's White_Space property (the 25 code points that `char::is_whitespace`
/// of std, and so `str::trim`, treats as white space).
pub open spec fn white_space(c: char) -> bool {
    let u = c as u32;
    ||| 0x9 <= u <= 0xd
    ||| u == 0x20
    ||| u == 0x85
    ||| u == 0xa0
    ||| u == 0x1680
    ||| 0x2000 <= u <= 0x200a
    ||| u == 0x2028
    ||| u == 0x2029
    ||| u == 0x202f
    ||| u == 0x205f
    ||| u == 0x3000
}

/// `s` without its leading white space.
pub open spec fn trim_start(s: Seq<char>) -> Seq<char>
    decreases s.len(),
{
    if s.len() > 0 && white_space(s[0]) {
        trim_start(s.drop_first())
    } else {
        s
    }
}

/// `s` without its trailing white space.
pub open spec fn trim_end(s: Seq<char>) -> Seq<char>
    decreases s.len(),
{
    if s.len() > 0 && white_space(s.last()) {
        trim_end(s.drop_last())
    } else {
        s
    }
}

/// `s` without leading and trailing white space.
pub open spec fn trimmed(s: Seq<char>) -> Seq<char> {
    trim_end(trim_start(s))
}

/// `str::trim` of std: the slice of `s` without leading and trailing white
/// space (Unicode's White_Space, as std documents).
#[verifier::external_body]
fn trim(s: &str) -> (r: &str)
    ensures
        r@ == trimmed(s@),
{
    s.trim()
}

/// Trimming never lengthens a string.
pub proof fn lemma_trimmed_len(s: Seq<char>)
    ensures
        trimmed(s).len() <= s.len(),
{
    lemma_trim_start_len(s);
    lemma_trim_end_len(trim_start(s));
}

proof fn lemma_trim_start_len(s: Seq<char>)
    ensures
        trim_start(s).len() <= s.len(),
    decreases s.len(),
{
    if s.len() > 0 && white_space(s[0]) {
        lemma_trim_start_len(s.drop_first());
    }
}

proof fn lemma_trim_end_len(s: Seq<char>)
    ensures
        trim_end(s).len() <= s.len(),
    decreases s.len(),
{
    if s.len() > 0 && white_space(s.last()) {
        lemma_trim_end_len(s.drop_last());
    }
}

/// `String::pop` of std: removes and returns the last character, if any.
#[verifier::external_body]
fn pop_char(s: &mut String) -> (r: Option<char>)
    ensures
        old(s)@.len() == 0 ==> r is None && final(s)@ == old(s)@,
        old(s)@.len() > 0 ==> r == Some(old(s)@.last()) && final(s)@ == old(s)@.drop_last(),
{
    s.pop()
}

/// What `char::is_alphanumeric` of std gives back for `c` (a Unicode
/// property).
pub uninterp spec fn alphanumeric(c: char) -> bool;

/// `char::is_alphanumeric` of std. Its result is named (`alphanumeric`), the
/// Unicode tables behind it are not restated here.
#[verifier::external_body]
fn is_alphanumeric(c: char) -> (r: bool)
    ensures
        r == alphanumeric(c),
{
    c.is_alphanumeric()
}

// ---------------------------------------------------------------------------
// The player's name
// ---------------------------------------------------------------------------

/// The name the player chose before the match.
#[derive(Clone)]
pub struct PlayerName {
    pub name: String,
}

impl Default for PlayerName {
    fn default() -> (r: Self)
        ensures
            r.name@ == Seq::<char>::empty(),
    {
        PlayerName { name: String::new() }
    }
}

/// The name as shown: trimmed, or "Player" when nothing is left.
pub open spec fn shown_name(name: Seq<char>) -> Seq<char> {
    if trimmed(name).len() == 0 {
        "Player"@
    } else {
        trimmed(name)
    }
}

impl PlayerName {
    /// Returns the display name — falls back to "Player" if empty.
    pub fn display(&self) -> (r: &str)
        ensures
            r@ == shown_name(self.name@),
    {
        let t = trim(self.name.as_str());
        if t.is_empty() {
            "Player"
        } else {
            t
        }
    }

    /// Finalise the name: it becomes its display form.
    pub fn confirm(&mut self)
        ensures
            final(self).name@ == shown_name(old(self).name@),
    {
        let t = trim(self.name.as_str());
        self.name = if t.is_empty() {
            "Player".to_owned()
        } else {
            t.to_owned()
        };
    }

    /// Open the name entry with the stored name, unless there is none or it
    /// is blank (white space only).
    pub fn prefill(&mut self, stored: Option<String>)
        ensures
            final(self).name@ == spec_prefill(old(self).name@, stored),
    {
        match stored {
            Some(s) => {
                if !trim(s.as_str()).is_empty() {
                    self.name = s;
                }
            },
            None => {},
        }
    }
}

/// The name after opening the entry screen with `stored`.
pub open spec fn spec_prefill(name: Seq<char>, stored: Option<String>) -> Seq<char> {
    match stored {
        Some(s) => if trimmed(s@).len() > 0 {
            s@
        } else {
            name
        },
        None => name,
    }
}

/// A character accepted in a name: printable, and a letter, a digit, `_`,
/// `-`, a space or `.`.
pub open spec fn name_char(c: char) -> bool {
    let is_control = (c as u32) < 0x20 || (c as u32) == 0x7f;
    !is_control && (alphanumeric(c) || c == '_' || c == '-' || c == ' ' || c == '.')
}

/// A key press on the name entry screen.
pub enum NameKey {
    Enter,
    Backspace,
    /// A press that types text.
    Text(String),
    /// Any other press.
    Other,
}

/// The longest name that can be typed (in characters).
pub const NAME_MAX_CHARS: usize = 16;

/// `name` after typing `text`: each accepted character is appended while the
/// name has fewer than `NAME_MAX_CHARS` characters; the others are dropped.
pub open spec fn typed(name: Seq<char>, text: Seq<char>) -> Seq<char>
    decreases text.len(),
{
    if text.len() == 0 {
        name
    } else {
        let next = if name_char(text[0]) && name.len() < NAME_MAX_CHARS {
            name.push(text[0])
        } else {
            name
        };
        typed(next, text.drop_first())
    }
}

/// Typing never takes a name past `NAME_MAX_CHARS` characters.
pub proof fn lemma_typed_bounded(name: Seq<char>, text: Seq<char>)
    requires
        name.len() <= NAME_MAX_CHARS,
    ensures
        typed(name, text).len() <= NAME_MAX_CHARS,
    decreases text.len(),
{
    if text.len() > 0 {
        let next = if name_char(text[0]) && name.len() < NAME_MAX_CHARS {
            name.push(text[0])
        } else {
            name
        };
        lemma_typed_bounded(next, text.drop_first());
    }
}

/// The name entry screen after the key presses `keys[k..]`, from the name
/// `name`: `(name, changed, confirmed)`. Enter confirms the name and ends
/// the input; Backspace removes the last character; text is typed (see
/// `typed`).
pub open spec fn after_keys(name: Seq<char>, keys: Seq<NameKey>, k: int) -> (Seq<char>, bool, bool)
    decreases keys.len() - k,
{
    if k >= keys.len() {
        (name, false, false)
    } else {
        match keys[k] {
            NameKey::Enter => (shown_name(name), false, true),
            NameKey::Backspace => {
                let rest = after_keys(if name.len() > 0 { name.drop_last() } else { name }, keys, k + 1);
                (rest.0, rest.1 || name.len() > 0, rest.2)
            },
            NameKey::Text(t) => {
                let typed_name = typed(name, t@);
                let rest = after_keys(typed_name, keys, k + 1);
                (rest.0, rest.1 || typed_name.len() > name.len(), rest.2)
            },
            NameKey::Other => after_keys(name, keys, k + 1),
        }
    }
}

/// What the key presses did.
pub struct NameInput {
    /// The name changed (and its text must be redrawn).
    pub changed: bool,
    /// Enter was pressed: the name is final.
    pub confirmed: bool,
}

/// Types `text` into `name` (see `typed`); whether any character was added.
fn type_text(name: &mut String, text: &String) -> (r: bool)
    ensures
        final(name)@ == typed(old(name)@, text@),
        r == (typed(old(name)@, text@).len() > old(name)@.len()),
{
    let ghost t = text@;
    let ghost start = name@;
    let chars: Vec<char> = string_chars(text);
    let mut count: usize = string_chars(name).len();
    let mut any = false;
    let mut i: usize = 0;
    let n = chars.len();
    assert(t.skip(0) =~= t);
    while i < n
        invariant
            chars@ == t,
            n == t.len(),
            i <= n,
            count == name@.len(),
            count <= start.len() + i,
            typed(name@, t.skip(i as int)) == typed(start, t),
            any == (name@.len() > start.len()),
            name@.len() >= start.len(),
        decreases n - i,
    {
        let c = chars[i];
        let is_control = (c as u32) < 0x20 || (c as u32) == 0x7f;
        let ok = !is_control && (is_alphanumeric(c) || c == '_' || c == '-' || c == ' ' || c == '.');
        proof {
            assert(t.skip(i as int)[0] == c);
            assert(t.skip(i as int).drop_first() =~= t.skip(i + 1));
        }
        if ok && count < NAME_MAX_CHARS {
            push_char(name, c);
            count = count + 1;
            any = true;
        }
        i = i + 1;
    }
    assert(t.skip(n as int) =~= Seq::<char>::empty());
    any
}

/// The characters of a string, in order.
pub(crate) fn string_chars(s: &String) -> (r: Vec<char>)
    ensures
        r@ == s@,
{
    let mut out: Vec<char> = Vec::new();
    for c in it: s.as_str().chars()
        invariant
            it.seq() == s@,
            out@ == it.seq().take(it.index() as int),
    {
        out.push(c);
    }
    assert(out@ =~= s@);
    out
}

/// Handle the key presses on the name entry screen, in order (see
/// `after_keys`).
pub fn name_entry_input(player_name: &mut PlayerName, keys: &Vec<NameKey>) -> (r: NameInput)
    ensures
        ({
            let a = after_keys(old(player_name).name@, keys@, 0);
            &&& final(player_name).name@ == a.0
            &&& r.changed == a.1
            &&& r.confirmed == a.2
        }),
{
    let n = keys.len();
    let mut changed = false;
    let mut k: usize = 0;
    while k < n
        invariant
            n == keys@.len(),
            k <= n,
            ({
                let a = after_keys(old(player_name).name@, keys@, 0);
                let b = after_keys(player_name.name@, keys@, k as int);
                &&& a.0 == b.0
                &&& a.1 == (changed || b.1)
                &&& a.2 == b.2
            }),
        decreases n - k,
    {
        match &keys[k] {
            NameKey::Enter => {
                player_name.confirm();
                return NameInput { changed, confirmed: true };
            },
            NameKey::Backspace => {
                if pop_char(&mut player_name.name).is_some() {
                    changed = true;
                }
            },
            NameKey::Text(text) => {
                if type_text(&mut player_name.name, text) {
                    changed = true;
                }
            },
            NameKey::Other => {},
        }
        k = k + 1;
    }
    NameInput { changed, confirmed: false }
}

/// The name being typed with a cursor: "_" when empty, else the name and "_".
pub open spec fn spec_cursor_text(name: Seq<char>) -> Seq<char> {
    if name.len() == 0 {
        "_"@
    } else {
        name + "_"@
    }
}

pub fn cursor_text(player_name: &PlayerName) -> (r: String)
    ensures
        r@ == spec_cursor_text(player_name.name@),
{
    if player_name.name.as_str().is_empty() {
        "_".to_owned()
    } else {
        let mut s = player_name.name.clone();
        s.append("_");
        s
    }
}

/// The character `c` inside a single-quoted JavaScript string: backslashes
/// and single quotes get a backslash.
pub open spec fn js_escaped_char(c: char) -> Seq<char> {
    if c == '\\' {
        seq!['\\', '\\']
    } else if c == '\'' {
        seq!['\\', '\'']
    } else {
        seq![c]
    }
}

/// `s` inside a single-quoted JavaScript string.
pub open spec fn js_escaped(s: Seq<char>) -> Seq<char>
    decreases s.len(),
{
    if s.len() == 0 {
        Seq::empty()
    } else {
        js_escaped(s.drop_last()) + js_escaped_char(s.last())
    }
}

/// The script that stores the player's name in the browser's local storage.
pub open spec fn spec_save_name_script(name: Seq<char>) -> Seq<char> {
    "window.localStorage.setItem('dogebread_player_name', '"@ + js_escaped(name) + "')"@
}

pub fn save_name_script(name: &String) -> (r: String)
    ensures
        r@ == spec_save_name_script(name@),
{
    let chars = string_chars(name);
    let mut s = "window.localStorage.setItem('dogebread_player_name', '".to_owned();
    let ghost prefix = s@;
    let n = chars.len();
    let mut i: usize = 0;
    while i < n
        invariant
            n == chars@.len(),
            chars@ == name@,
            i <= n,
            s@ == prefix + js_escaped(chars@.take(i as int)),
        decreases n - i,
    {
        let c = chars[i];
        if c == '\\' {
            push_char(&mut s, '\\');
            push_char(&mut s, '\\');
        } else if c == '\'' {
            push_char(&mut s, '\\');
            push_char(&mut s, '\'');
        } else {
            push_char(&mut s, c);
        }
        assert(chars@.take(i + 1).drop_last() =~= chars@.take(i as int));
        assert(s@ =~= prefix + js_escaped(chars@.take(i + 1)));
        i = i + 1;
    }
    assert(chars@.take(n as int) =~= name@);
    s.append("')");
    s
}

// ---------------------------------------------------------------------------
// Leaderboard
// ---------------------------------------------------------------------------

/// Matches kept on the leaderboard.
pub const LEADERBOARD_SIZE: usize = 20;

/// One finished match.
#[derive(Clone)]
pub struct LeaderboardEntry {
    pub winner_name: String,
    /// The winner's snake id (it gives the entry its colour); none for a draw.
    pub winner_id: Option<u32>,
    pub total_kills: u32,
    pub match_number: u32,
    pub player_rank: u32,
    pub player_score: u32,
    pub player_kills: u32,
}

/// The last matches played, oldest first, and how many were played.
pub struct LeaderboardData {
    pub entries: Vec<LeaderboardEntry>,
    pub match_counter: u32,
}

impl Default for LeaderboardData {
    fn default() -> (r: Self)
        ensures
            r.entries@.len() == 0,
            r.match_counter == 0,
    {
        LeaderboardData { entries: Vec::new(), match_counter: 0 }
    }
}

/// The entries after adding `e`: appended, the oldest dropped beyond
/// `LEADERBOARD_SIZE`.
pub open spec fn entries_after_add(entries: Seq<LeaderboardEntry>, e: LeaderboardEntry) -> Seq<LeaderboardEntry> {
    if entries.len() + 1 > LEADERBOARD_SIZE {
        entries.push(e).drop_first()
    } else {
        entries.push(e)
    }
}

impl LeaderboardData {
    pub fn add_entry(&mut self, entry: LeaderboardEntry)
        requires
            old(self).match_counter < u32::MAX,
        ensures
            final(self).match_counter == old(self).match_counter + 1,
            final(self).entries@ == entries_after_add(old(self).entries@, entry),
    {
        self.match_counter += 1;
        let ghost e = entry;
        self.entries.push(entry);
        // Keep last 20 entries
        if self.entries.len() > LEADERBOARD_SIZE {
            self.entries.remove(0);
        }
        assert(self.entries@ =~= entries_after_add(old(self).entries@, e));
    }
}

/// The winner's name on the leaderboard: the player's display name, a colour
/// name, or "Draw".
pub open spec fn spec_winner_name(winner: Option<u32>, player: Seq<char>) -> Seq<char> {
    match winner {
        Some(id) => if id == 0 {
            shown_name(player)
        } else {
            color_name(id % 8)
        },
        None => "Draw"@,
    }
}

/// Position (0-based), from `p` on, in `order` of the first snake with id 0.
pub open spec fn player_place_from(ids: Seq<SnakeId>, order: Seq<usize>, p: int) -> Option<int>
    decreases order.len() - p,
{
    if p >= order.len() || p < 0 {
        None
    } else if ids[order[p] as int].0 == 0 {
        Some(p)
    } else {
        player_place_from(ids, order, p + 1)
    }
}

/// Position (0-based) in `order` of the first snake with id 0, if any.
pub open spec fn player_place(ids: Seq<SnakeId>, order: Seq<usize>) -> Option<int> {
    player_place_from(ids, order, 0)
}

/// The first snake with id 0 (the player's), from `i` on.
pub open spec fn player_index_from(ids: Seq<SnakeId>, i: int) -> Option<int>
    decreases ids.len() - i,
{
    if i >= ids.len() || i < 0 {
        None
    } else if ids[i].0 == 0 {
        Some(i)
    } else {
        player_index_from(ids, i + 1)
    }
}

/// The first snake with id 0 (the player's), if any.
pub open spec fn player_index(ids: Seq<SnakeId>) -> Option<int> {
    player_index_from(ids, 0)
}

/// The leaderboard entry of the match that just ended.
pub open spec fn match_entry_ok(
    e: LeaderboardEntry,
    s: Seq<crate::game::SnakeView>,
    ids: Seq<SnakeId>,
    player: Seq<char>,
    counter: u32,
) -> bool {
    let winner = match first_alive(s) {
        Some(i) => Some(ids[i].0),
        None => None,
    };
    &&& e.winner_name@ == spec_winner_name(winner, player)
    &&& e.winner_id == winner
    &&& e.total_kills == kill_total(s, s.len() as int)
    &&& e.match_number == counter + 1
    &&& exists|order: Seq<usize>|
        ranked(s, order) && e.player_rank == match player_place(ids, order) {
            Some(p) => (p as u32 + 1) as u32,
            None => 0u32,
        }
    &&& (e.player_score, e.player_kills) == match player_index(ids) {
        Some(i) => (s[i].score, s[i].kills),
        None => (0u32, 0u32),
    }
}

/// Position in `order` of the first snake with id 0.
fn first_player_in(order: &Vec<usize>, ids: &Vec<SnakeId>) -> (r: Option<usize>)
    requires
        forall|p: int| 0 <= p < order@.len() ==> #[trigger] order@[p] < ids@.len(),
    ensures
        match r {
            Some(p) => player_place(ids@, order@) == Some(p as int) && p < order@.len(),
            None => player_place(ids@, order@) is None,
        },
{
    let n = order.len();
    let mut p: usize = 0;
    while p < n
        invariant
            n == order@.len(),
            forall|q: int| 0 <= q < order@.len() ==> #[trigger] order@[q] < ids@.len(),
            p <= n,
            player_place(ids@, order@) == player_place_from(ids@, order@, p as int),
        decreases n - p,
    {
        if ids[order[p]].0 == 0 {
            return Some(p);
        }
        p = p + 1;
    }
    None
}

/// The first snake with id 0.
fn first_player(ids: &Vec<SnakeId>) -> (r: Option<usize>)
    ensures
        match r {
            Some(i) => player_index(ids@) == Some(i as int) && i < ids@.len(),
            None => player_index(ids@) is None,
        },
{
    let n = ids.len();
    let mut i: usize = 0;
    while i < n
        invariant
            n == ids@.len(),
            i <= n,
            player_index(ids@) == player_index_from(ids@, i as int),
        decreases n - i,
    {
        if ids[i].0 == 0 {
            return Some(i);
        }
        i = i + 1;
    }
    None
}

/// Record the match that just ended on the leaderboard (on entering game over).
pub fn save_match_to_leaderboard(
    leaderboard: &mut LeaderboardData,
    snakes: &Vec<Snake>,
    ids: &Vec<SnakeId>,
    player_name: &PlayerName,
)
    requires
        ids@.len() == snakes@.len(),
        old(leaderboard).match_counter < u32::MAX,
        kill_total(views(snakes@), snakes@.len() as int) <= u32::MAX,
        snakes@.len() < u32::MAX,
    ensures
        final(leaderboard).match_counter == old(leaderboard).match_counter + 1,
        exists|e: LeaderboardEntry|
            match_entry_ok(e, views(snakes@), ids@, player_name.name@, old(leaderboard).match_counter)
                && final(leaderboard).entries@ == entries_after_add(old(leaderboard).entries@, e),
{
    let ghost s = views(snakes@);
    let first = crate::ranking::find_first_alive(snakes);
    let winner = match first {
        Some(i) => Some(ids[i].0),
        None => None,
    };
    let winner_name = match winner {
        Some(id) => {
            if id == 0 {
                player_name.display().to_owned()
            } else {
                crate::text::get_snake_color_name(id).to_owned()
            }
        },
        None => "Draw".to_owned(),
    };
    let total_kills = crate::ranking::sum_kills(snakes);
    let order = rank_order(snakes);
    let place = first_player_in(&order, ids);
    let player_rank: u32 = match place {
        Some(p) => p as u32 + 1,
        None => 0,
    };
    let idx = first_player(ids);
    let (player_score, player_kills) = match idx {
        Some(i) => {
            assert(snakes@[i as int]@ == s[i as int]);
            (snakes[i].score, snakes[i].kills)
        },
        None => (0, 0),
    };
    let match_number = leaderboard.match_counter + 1;
    let entry = LeaderboardEntry {
        winner_name,
        winner_id: winner,
        total_kills,
        match_number,
        player_rank,
        player_score,
        player_kills,
    };
    let ghost e = entry;
    assert(match_entry_ok(e, s, ids@, player_name.name@, old(leaderboard).match_counter));
    leaderboard.add_entry(entry);
}

} // verus!
