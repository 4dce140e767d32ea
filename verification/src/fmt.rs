use vstd::prelude::*;

use crate::game::{ArenaBounds, GameState};
use crate::menu::{LeaderboardData, LeaderboardEntry};
use crate::ranking::RankingEntry;
use crate::text::{push_char, spec_rank_label, spec_state_str};

verus! {

// ---------------------------------------------------------------------------
// Numbers as text
// ---------------------------------------------------------------------------

/// The decimal digit `d` (`d < 10`).
pub open spec fn digit_char(d: nat) -> char {
    seq!['0', '1', '2', '3', '4', '5', '6', '7', '8', '9'][d as int]
}

/// The decimal numeral of `n`, without leading zeros.
pub open spec fn decimal(n: nat) -> Seq<char>
    decreases n,
{
    if n < 10 {
        seq![digit_char(n)]
    } else {
        decimal(n / 10).push(digit_char(n % 10))
    }
}

/// The numeral of a signed value: a minus sign before negative ones.
pub open spec fn signed_decimal(v: int) -> Seq<char> {
    if v < 0 {
        seq!['-'] + decimal((-v) as nat)
    } else {
        decimal(v as nat)
    }
}

fn digit(d: u64) -> (r: char)
    requires
        d < 10,
    ensures
        r == digit_char(d as nat),
{
    match d {
        0 => '0',
        1 => '1',
        2 => '2',
        3 => '3',
        4 => '4',
        5 => '5',
        6 => '6',
        7 => '7',
        8 => '8',
        _ => '9',
    }
}

/// Appends the numeral of `n`.
fn push_decimal(s: &mut String, n: u64)
    ensures
        final(s)@ == old(s)@ + decimal(n as nat),
    decreases n,
{
    if n >= 10 {
        push_decimal(s, n / 10);
    }
    push_char(s, digit(n % 10));
    assert(s@ =~= old(s)@ + decimal(n as nat));
}

/// Appends the numeral of a signed value.
fn push_signed(s: &mut String, v: i32)
    ensures
        final(s)@ == old(s)@ + signed_decimal(v as int),
{
    if v < 0 {
        push_char(s, '-');
        push_decimal(s, (-(v as i64)) as u64);
        assert(s@ =~= old(s)@ + signed_decimal(v as int));
    } else {
        push_decimal(s, v as u64);
    }
}

/// `text` padded with spaces on the left to `width` characters.
pub open spec fn pad_left(text: Seq<char>, width: nat) -> Seq<char> {
    if text.len() < width {
        Seq::new((width - text.len()) as nat, |i: int| ' ') + text
    } else {
        text
    }
}

/// `text` padded with spaces on the right to `width` characters.
pub open spec fn pad_right(text: Seq<char>, width: nat) -> Seq<char> {
    if text.len() < width {
        text + Seq::new((width - text.len()) as nat, |i: int| ' ')
    } else {
        text
    }
}

/// Appends `count` spaces.
fn push_spaces(s: &mut String, count: usize)
    ensures
        final(s)@ == old(s)@ + Seq::new(count as nat, |i: int| ' '),
{
    let mut k: usize = 0;
    while k < count
        invariant
            k <= count,
            s@ == old(s)@ + Seq::new(k as nat, |i: int| ' '),
        decreases count - k,
    {
        push_char(s, ' ');
        k = k + 1;
        assert(s@ =~= old(s)@ + Seq::new(k as nat, |i: int| ' '));
    }
}

/// Number of characters of a string.
fn char_count(s: &String) -> (r: usize)
    ensures
        r == s@.len(),
{
    crate::menu::string_chars(s).len()
}

// ---------------------------------------------------------------------------
// HUD
// ---------------------------------------------------------------------------

/// The match clock: minutes, a colon, and seconds in two digits.
pub open spec fn spec_clock_text(secs: u32) -> Seq<char> {
    decimal((secs / 60) as nat) + seq![':'] + pad_zero2((secs % 60) as nat)
}

/// `n` (below 100) in two digits.
pub open spec fn pad_zero2(n: nat) -> Seq<char> {
    if n < 10 {
        seq!['0'] + decimal(n)
    } else {
        decimal(n)
    }
}

/// The match timer text, from the whole seconds elapsed.
pub fn clock_text(secs: u32) -> (r: String)
    ensures
        r@ == spec_clock_text(secs),
{
    let mins = secs / 60;
    let rest = secs % 60;
    let mut s = String::new();
    push_decimal(&mut s, mins as u64);
    push_char(&mut s, ':');
    if rest < 10 {
        push_char(&mut s, '0');
    }
    push_decimal(&mut s, rest as u64);
    assert(s@ =~= spec_clock_text(secs));
    s
}

/// The HUD line: alive count, and the player's score and kills.
pub open spec fn spec_hud_text(alive: u32, total: u32, score: u32, kills: u32) -> Seq<char> {
    "alive: "@ + decimal(alive as nat) + "/"@ + decimal(total as nat) + "   score: "@ + decimal(score as nat)
        + "   kills: "@ + decimal(kills as nat)
}

pub fn hud_text(alive: u32, total: u32, score: u32, kills: u32) -> (r: String)
    ensures
        r@ == spec_hud_text(alive, total, score, kills),
{
    let mut s = "alive: ".to_owned();
    push_decimal(&mut s, alive as u64);
    s.append("/");
    push_decimal(&mut s, total as u64);
    s.append("   score: ");
    push_decimal(&mut s, score as u64);
    s.append("   kills: ");
    push_decimal(&mut s, kills as u64);
    s
}

// ---------------------------------------------------------------------------
// Game over and leaderboard screens
// ---------------------------------------------------------------------------

/// The row of place `i` of the rankings: label, crown for a living winner,
/// name, a marker for the player, food and kills, a star for the living.
pub open spec fn spec_ranking_row(i: usize, e: RankingEntry) -> Seq<char> {
    spec_rank_label(i) + (if i == 0 && e.alive {
        " [W]"@
    } else {
        Seq::empty()
    }) + "  "@ + e.name@ + (if e.is_player {
        "  <- YOU"@
    } else {
        Seq::empty()
    }) + "   "@ + decimal(e.score as nat) + " noms   "@ + decimal(e.kills as nat) + " bonks"@ + (if e.alive {
        " *"@
    } else {
        Seq::empty()
    })
}

pub fn ranking_row(i: usize, e: &RankingEntry) -> (r: String)
    ensures
        r@ == spec_ranking_row(i, *e),
{
    let mut s = crate::text::rank_label(i).to_owned();
    if i == 0 && e.alive {
        s.append(" [W]");
    }
    s.append("  ");
    s.append(e.name.as_str());
    if e.is_player {
        s.append("  <- YOU");
    }
    s.append("   ");
    push_decimal(&mut s, e.score as u64);
    s.append(" noms   ");
    push_decimal(&mut s, e.kills as u64);
    s.append(" bonks");
    if e.alive {
        s.append(" *");
    }
    assert(s@ =~= spec_ranking_row(i, *e));
    s
}

/// The line under the rankings.
pub open spec fn spec_carnage_text(total: u32) -> Seq<char> {
    "total bonks: "@ + decimal(total as nat) + "   much carnage"@
}

pub fn carnage_text(total: u32) -> (r: String)
    ensures
        r@ == spec_carnage_text(total),
{
    let mut s = "total bonks: ".to_owned();
    push_decimal(&mut s, total as u64);
    s.append("   much carnage");
    s
}

/// A leaderboard row: match number right-aligned in 2, winner left-aligned
/// in 16, then the player's rank, points and kills, and the match's kills.
pub open spec fn spec_leaderboard_row(e: LeaderboardEntry) -> Seq<char> {
    " "@ + pad_left(decimal(e.match_number as nat), 2) + "   "@ + pad_right(e.winner_name@, 16) + " #"@ + decimal(
        e.player_rank as nat,
    ) + " ("@ + decimal(e.player_score as nat) + " pts, "@ + decimal(e.player_kills as nat) + " kills)   "@
        + decimal(e.total_kills as nat) + " bonks"@
}

pub fn leaderboard_row(e: &LeaderboardEntry) -> (r: String)
    ensures
        r@ == spec_leaderboard_row(*e),
{
    let mut num = String::new();
    push_decimal(&mut num, e.match_number as u64);
    let num_len = char_count(&num);
    let mut s = " ".to_owned();
    if num_len < 2 {
        push_spaces(&mut s, 2 - num_len);
    }
    s.append(num.as_str());
    s.append("   ");
    s.append(e.winner_name.as_str());
    let name_len = char_count(&e.winner_name);
    if name_len < 16 {
        push_spaces(&mut s, 16 - name_len);
    }
    s.append(" #");
    push_decimal(&mut s, e.player_rank as u64);
    s.append(" (");
    push_decimal(&mut s, e.player_score as u64);
    s.append(" pts, ");
    push_decimal(&mut s, e.player_kills as u64);
    s.append(" kills)   ");
    push_decimal(&mut s, e.total_kills as u64);
    s.append(" bonks");
    assert(s@ =~= spec_leaderboard_row(*e));
    s
}

/// The leaderboard rows shown: the ten most recent matches, newest first.
pub fn leaderboard_rows(board: &LeaderboardData) -> (r: Vec<String>)
    ensures
        r@.len() == if board.entries@.len() < 10 {
            board.entries@.len()
        } else {
            10
        },
        forall|k: int|
            0 <= k < r@.len() ==> (#[trigger] r@[k])@ == spec_leaderboard_row(
                board.entries@[board.entries@.len() - 1 - k],
            ),
{
    let n = board.entries.len();
    let shown = if n < 10 {
        n
    } else {
        10
    };
    let mut rows: Vec<String> = Vec::new();
    let mut k: usize = 0;
    while k < shown
        invariant
            n == board.entries@.len(),
            shown <= n,
            shown == if n < 10 {
                n
            } else {
                10
            },
            k <= shown,
            rows@.len() == k,
            forall|q: int|
                0 <= q < k ==> (#[trigger] rows@[q])@ == spec_leaderboard_row(board.entries@[n - 1 - q]),
        decreases shown - k,
    {
        rows.push(leaderboard_row(&board.entries[n - 1 - k]));
        k = k + 1;
    }
    rows
}

// ---------------------------------------------------------------------------
// Debug bridge
// ---------------------------------------------------------------------------

/// The JSON object the debug bridge hands to the page.
pub open spec fn spec_debug_json(
    state: GameState,
    alive: u32,
    total: u32,
    score: u32,
    kills: u32,
    tick: u32,
    b: ArenaBounds,
) -> Seq<char> {
    "{\"loaded\":true,\"gameState\":\""@ + spec_state_str(state) + "\",\"aliveCount\":"@ + decimal(alive as nat)
        + ",\"totalSnakes\":"@ + decimal(total as nat) + ",\"playerScore\":"@ + decimal(score as nat)
        + ",\"playerKills\":"@ + decimal(kills as nat) + ",\"tick\":"@ + decimal(tick as nat)
        + ",\"arenaBounds\":{\"min_x\":"@ + signed_decimal(b.min_x as int) + ",\"min_y\":"@ + signed_decimal(
        b.min_y as int,
    ) + ",\"max_x\":"@ + signed_decimal(b.max_x as int) + ",\"max_y\":"@ + signed_decimal(b.max_y as int) + "}}"@
}

pub fn debug_json(
    state: GameState,
    alive: u32,
    total: u32,
    score: u32,
    kills: u32,
    tick: u32,
    bounds: &ArenaBounds,
) -> (r: String)
    ensures
        r@ == spec_debug_json(state, alive, total, score, kills, tick, *bounds),
{
    let mut s = "{\"loaded\":true,\"gameState\":\"".to_owned();
    s.append(crate::text::state_str(state));
    s.append("\",\"aliveCount\":");
    push_decimal(&mut s, alive as u64);
    s.append(",\"totalSnakes\":");
    push_decimal(&mut s, total as u64);
    s.append(",\"playerScore\":");
    push_decimal(&mut s, score as u64);
    s.append(",\"playerKills\":");
    push_decimal(&mut s, kills as u64);
    s.append(",\"tick\":");
    push_decimal(&mut s, tick as u64);
    s.append(",\"arenaBounds\":{\"min_x\":");
    push_signed(&mut s, bounds.min_x);
    s.append(",\"min_y\":");
    push_signed(&mut s, bounds.min_y);
    s.append(",\"max_x\":");
    push_signed(&mut s, bounds.max_x);
    s.append(",\"max_y\":");
    push_signed(&mut s, bounds.max_y);
    s.append("}}");
    s
}

} // verus!
