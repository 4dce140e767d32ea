use vstd::prelude::*;

use crate::game::GameState;

verus! {

/// `String::push` of std: appends the character `c` to `s`.
#[verifier::external_body]
pub(crate) fn push_char(s: &mut String, c: char)
    ensures
        final(s)@ == old(s)@.push(c),
{
    s.push(c);
}

/// The name shown for snake colour `k` (`k` in `0..8`).
pub open spec fn color_name(k: u32) -> Seq<char> {
    if k == 0 {
        "Doge"@
    } else if k == 1 {
        "Cheems"@
    } else if k == 2 {
        "Bonk"@
    } else if k == 3 {
        "Shibe"@
    } else if k == 4 {
        "Floof"@
    } else if k == 5 {
        "Bork"@
    } else if k == 6 {
        "Snoot"@
    } else {
        "Woofer"@
    }
}

fn snake_color_name(id: u32) -> (r: &'static str)
    ensures
        r@ == color_name(id % 8),
{
    match id % 8 {
        0 => "Doge",
        1 => "Cheems",
        2 => "Bonk",
        3 => "Shibe",
        4 => "Floof",
        5 => "Bork",
        6 => "Snoot",
        _ => "Woofer",
    }
}

/// Get the color name for a snake ID (public for kill feed)
pub fn get_snake_color_name(id: u32) -> (r: &'static str)
    ensures
        r@ == color_name(id % 8),
{
    snake_color_name(id)
}

/// How a snake is called in messages: the player's (id 0) is "You".
pub open spec fn spec_display_name(id: u32) -> Seq<char> {
    if id == 0 {
        "You"@
    } else {
        color_name(id % 8)
    }
}

pub fn display_name(id: u32) -> (r: &'static str)
    ensures
        r@ == spec_display_name(id),
{
    if id == 0 {
        "You"
    } else {
        snake_color_name(id)
    }
}

/// The kill-feed line for a death: "`dead` bonked by `killer`! wow" when
/// someone is credited, "`dead` ded! much rip!" otherwise.
pub open spec fn spec_kill_message(dead: u32, killer: Option<u32>) -> Seq<char> {
    match killer {
        Some(k) => spec_display_name(dead) + " bonked by "@ + spec_display_name(k) + "! wow"@,
        None => spec_display_name(dead) + " ded! much rip!"@,
    }
}

pub fn kill_message(dead: u32, killer: Option<u32>) -> (r: String)
    ensures
        r@ == spec_kill_message(dead, killer),
{
    let mut s = display_name(dead).to_owned();
    match killer {
        Some(k) => {
            s.append(" bonked by ");
            s.append(display_name(k));
            s.append("! wow");
        },
        None => {
            s.append(" ded! much rip!");
        },
    }
    s
}

/// The kill-feed line for a snake crushed by the closing arena.
pub open spec fn spec_crush_message(dead: u32) -> Seq<char> {
    spec_display_name(dead) + " crushed! such squish!"@
}

pub fn crush_message(dead: u32) -> (r: String)
    ensures
        r@ == spec_crush_message(dead),
{
    let mut s = display_name(dead).to_owned();
    s.append(" crushed! such squish!");
    s
}

/// The headline of the game-over screen for the winner (the first snake still
/// alive), or for a draw.
pub open spec fn spec_winner_text(winner: Option<u32>) -> Seq<char> {
    match winner {
        Some(id) => if id == 0 {
            "VICTORY! very win! so champion! wow!"@
        } else {
            color_name(id % 8) + " wins! much skill! so impress!"@
        },
        None => "wow such draw! no survivors! very dead!"@,
    }
}

pub fn winner_text(winner: Option<u32>) -> (r: String)
    ensures
        r@ == spec_winner_text(winner),
{
    match winner {
        Some(id) => {
            if id == 0 {
                "VICTORY! very win! so champion! wow!".to_owned()
            } else {
                let mut s = snake_color_name(id).to_owned();
                s.append(" wins! much skill! so impress!");
                s
            }
        },
        None => "wow such draw! no survivors! very dead!".to_owned(),
    }
}

/// The spectating caption: the followed snake's colour name, if any.
pub open spec fn spec_spectating_message(target: Option<u32>) -> Seq<char> {
    match target {
        Some(id) => "spectating "@ + color_name(id % 8) + " doge"@,
        None => "spectating"@,
    }
}

pub fn spectating_message(target: Option<u32>) -> (r: String)
    ensures
        r@ == spec_spectating_message(target),
{
    match target {
        Some(id) => {
            let mut s = "spectating ".to_owned();
            s.append(snake_color_name(id));
            s.append(" doge");
            s
        },
        None => "spectating".to_owned(),
    }
}

/// The label of place `i` (0-based) in the rankings: "1st" to "10th", "??"
/// beyond.
pub open spec fn spec_rank_label(i: usize) -> Seq<char> {
    if i == 0 {
        "1st"@
    } else if i == 1 {
        "2nd"@
    } else if i == 2 {
        "3rd"@
    } else if i == 3 {
        "4th"@
    } else if i == 4 {
        "5th"@
    } else if i == 5 {
        "6th"@
    } else if i == 6 {
        "7th"@
    } else if i == 7 {
        "8th"@
    } else if i == 8 {
        "9th"@
    } else if i == 9 {
        "10th"@
    } else {
        "??"@
    }
}

pub fn rank_label(i: usize) -> (r: &'static str)
    ensures
        r@ == spec_rank_label(i),
{
    match i {
        0 => "1st",
        1 => "2nd",
        2 => "3rd",
        3 => "4th",
        4 => "5th",
        5 => "6th",
        6 => "7th",
        7 => "8th",
        8 => "9th",
        9 => "10th",
        _ => "??",
    }
}

/// The name of a game state, as the debug bridge reports it.
pub open spec fn spec_state_str(state: GameState) -> Seq<char> {
    match state {
        GameState::Home => "Home"@,
        GameState::NameEntry => "NameEntry"@,
        GameState::WaitingToStart => "WaitingToStart"@,
        GameState::Countdown => "Countdown"@,
        GameState::Playing => "Playing"@,
        GameState::GameOver => "GameOver"@,
        GameState::Leaderboard => "Leaderboard"@,
    }
}

pub fn state_str(state: GameState) -> (r: &'static str)
    ensures
        r@ == spec_state_str(state),
{
    match state {
        GameState::Home => "Home",
        GameState::NameEntry => "NameEntry",
        GameState::WaitingToStart => "WaitingToStart",
        GameState::Countdown => "Countdown",
        GameState::Playing => "Playing",
        GameState::GameOver => "GameOver",
        GameState::Leaderboard => "Leaderboard",
    }
}

} // verus!
