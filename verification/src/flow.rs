use vstd::prelude::*;

use crate::game::{Direction, GameState, Snake};

verus! {

// ---------------------------------------------------------------------------
// Screens and their transitions
// ---------------------------------------------------------------------------

/// Something that can move the game from one screen to another.
#[derive(Debug, Clone, Copy, PartialEq, Eq, Structural)]
pub enum FlowEvent {
    /// PLAY pressed on the home screen.
    PlayPressed,
    /// LEADERBOARD pressed on the home screen.
    LeaderboardPressed,
    /// HOME pressed (leaderboard or game-over screen).
    HomePressed,
    /// The player's name was confirmed (Enter or GO!).
    NameConfirmed,
    /// A direction key or a tap while waiting to start.
    StartPressed,
    /// The 3-2-1 countdown ran out.
    CountdownFinished,
    /// At most one snake is left.
    MatchOver,
    /// Space, R or a tap on the game-over screen.
    RestartPressed,
    /// PLAY AGAIN pressed on the game-over screen.
    PlayAgainPressed,
}

/// The screen `event` leads to from `state`, if it does anything there.
pub open spec fn spec_next_state(state: GameState, event: FlowEvent) -> Option<GameState> {
    match (state, event) {
        (GameState::Home, FlowEvent::PlayPressed) => Some(GameState::NameEntry),
        (GameState::Home, FlowEvent::LeaderboardPressed) => Some(GameState::Leaderboard),
        (GameState::Leaderboard, FlowEvent::HomePressed) => Some(GameState::Home),
        (GameState::NameEntry, FlowEvent::NameConfirmed) => Some(GameState::WaitingToStart),
        (GameState::WaitingToStart, FlowEvent::StartPressed) => Some(GameState::Countdown),
        (GameState::Countdown, FlowEvent::CountdownFinished) => Some(GameState::Playing),
        (GameState::Playing, FlowEvent::MatchOver) => Some(GameState::GameOver),
        (GameState::GameOver, FlowEvent::RestartPressed) => Some(GameState::WaitingToStart),
        (GameState::GameOver, FlowEvent::PlayAgainPressed) => Some(GameState::WaitingToStart),
        (GameState::GameOver, FlowEvent::HomePressed) => Some(GameState::Home),
        _ => None,
    }
}

pub fn next_state(state: GameState, event: FlowEvent) -> (r: Option<GameState>)
    ensures
        r == spec_next_state(state, event),
{
    match (state, event) {
        (GameState::Home, FlowEvent::PlayPressed) => Some(GameState::NameEntry),
        (GameState::Home, FlowEvent::LeaderboardPressed) => Some(GameState::Leaderboard),
        (GameState::Leaderboard, FlowEvent::HomePressed) => Some(GameState::Home),
        (GameState::NameEntry, FlowEvent::NameConfirmed) => Some(GameState::WaitingToStart),
        (GameState::WaitingToStart, FlowEvent::StartPressed) => Some(GameState::Countdown),
        (GameState::Countdown, FlowEvent::CountdownFinished) => Some(GameState::Playing),
        (GameState::Playing, FlowEvent::MatchOver) => Some(GameState::GameOver),
        (GameState::GameOver, FlowEvent::RestartPressed) => Some(GameState::WaitingToStart),
        (GameState::GameOver, FlowEvent::PlayAgainPressed) => Some(GameState::WaitingToStart),
        (GameState::GameOver, FlowEvent::HomePressed) => Some(GameState::Home),
        _ => None,
    }
}

// ---------------------------------------------------------------------------
// Keys and directions
// ---------------------------------------------------------------------------

/// Which direction keys were just pressed (an arrow or its WASD twin).
#[derive(Debug, Clone, Copy, PartialEq, Eq, Structural)]
pub struct DirectionKeys {
    pub up: bool,
    pub down: bool,
    pub left: bool,
    pub right: bool,
}

/// The direction asked for: up, then down, then left, then right wins.
pub open spec fn spec_direction_from_keys(k: DirectionKeys) -> Option<Direction> {
    if k.up {
        Some(Direction::Up)
    } else if k.down {
        Some(Direction::Down)
    } else if k.left {
        Some(Direction::Left)
    } else if k.right {
        Some(Direction::Right)
    } else {
        None
    }
}

pub fn direction_from_keys(k: DirectionKeys) -> (r: Option<Direction>)
    ensures
        r == spec_direction_from_keys(k),
{
    if k.up {
        Some(Direction::Up)
    } else if k.down {
        Some(Direction::Down)
    } else if k.left {
        Some(Direction::Left)
    } else if k.right {
        Some(Direction::Right)
    } else {
        None
    }
}

/// Read keyboard input and queue direction changes on the player's snake
pub fn handle_input(snake: &mut Snake, keys: DirectionKeys)
    ensures
        final(snake)@ == if old(snake)@.alive {
            match spec_direction_from_keys(keys) {
                Some(d) => old(snake)@.turned(d),
                None => old(snake)@,
            }
        } else {
            old(snake)@
        },
{
    if !snake.alive {
        return;
    }
    if let Some(dir) = direction_from_keys(keys) {
        snake.set_direction(dir);
    }
}

/// The direction a match starts with: right in the automatic test mode, else
/// the direction keys', else right on a tap; none while nothing is pressed.
pub open spec fn spec_start_direction(auto_test: bool, keys: DirectionKeys, tapped: bool) -> Option<Direction> {
    if auto_test {
        Some(Direction::Right)
    } else if spec_direction_from_keys(keys) is Some {
        spec_direction_from_keys(keys)
    } else if tapped {
        Some(Direction::Right)
    } else {
        None
    }
}

pub fn start_direction(auto_test: bool, keys: DirectionKeys, tapped: bool) -> (r: Option<Direction>)
    ensures
        r == spec_start_direction(auto_test, keys, tapped),
{
    if auto_test {
        Some(Direction::Right)
    } else {
        match direction_from_keys(keys) {
            Some(d) => Some(d),
            None => if tapped {
                Some(Direction::Right)
            } else {
                None
            },
        }
    }
}

// ---------------------------------------------------------------------------
// Countdown
// ---------------------------------------------------------------------------

/// Countdown phase after `elapsed_ms` milliseconds: 1 ("3") in the first
/// second, 2 and 3 in the next ones, 4 ("GO!") from the third second on.
pub open spec fn spec_countdown_phase(elapsed_ms: u32) -> u8 {
    if elapsed_ms < 1000 {
        1
    } else if elapsed_ms < 2000 {
        2
    } else if elapsed_ms < 3000 {
        3
    } else {
        4
    }
}

pub fn countdown_phase(elapsed_ms: u32) -> (r: u8)
    ensures
        r == spec_countdown_phase(elapsed_ms),
{
    if elapsed_ms < 1000 {
        1
    } else if elapsed_ms < 2000 {
        2
    } else if elapsed_ms < 3000 {
        3
    } else {
        4
    }
}

/// The countdown text of a phase.
pub open spec fn spec_countdown_label(phase: u8) -> Seq<char> {
    if phase == 1 {
        "such 3"@
    } else if phase == 2 {
        "very 2"@
    } else if phase == 3 {
        "much 1"@
    } else {
        "WOW GO!"@
    }
}

pub fn countdown_label(phase: u8) -> (r: &'static str)
    ensures
        r@ == spec_countdown_label(phase),
{
    if phase == 1 {
        "such 3"
    } else if phase == 2 {
        "very 2"
    } else if phase == 3 {
        "much 1"
    } else {
        "WOW GO!"
    }
}

/// The sound of a countdown phase change.
#[derive(Debug, Clone, Copy, PartialEq, Eq, Structural)]
pub enum CountdownSound {
    /// A beep, for "3", "2" and "1".
    Beep,
    /// The chord for "GO!".
    Go,
}

/// A sound plays only when the phase changes: a beep for phases 1 to 3, the
/// "GO!" chord for phase 4.
pub open spec fn spec_countdown_sound(last_phase: u8, phase: u8) -> Option<CountdownSound> {
    if phase == last_phase {
        None
    } else if phase <= 3 {
        Some(CountdownSound::Beep)
    } else {
        Some(CountdownSound::Go)
    }
}

pub fn countdown_sound(last_phase: u8, phase: u8) -> (r: Option<CountdownSound>)
    ensures
        r == spec_countdown_sound(last_phase, phase),
{
    if phase == last_phase {
        None
    } else if phase <= 3 {
        Some(CountdownSound::Beep)
    } else {
        Some(CountdownSound::Go)
    }
}

// ---------------------------------------------------------------------------
// Game-over reveal
// ---------------------------------------------------------------------------

/// How long the game-over screen fades in before its first phase, in ms.
pub const REVEAL_FADE_MS: u32 = 600;

/// The game-over screen is revealed in phases: the fade-in (0), the title
/// (1), the winner (2), the rankings (3), and the buttons (4), which stay.
/// When phase `phase` ends, the next phase and how long it lasts in ms.
pub open spec fn spec_reveal_next(phase: u8) -> Option<(u8, u32)> {
    if phase < 3 {
        Some(((phase + 1) as u8, 1000u32))
    } else if phase == 3 {
        Some((4u8, 999_000u32))
    } else {
        None
    }
}

pub fn reveal_next(phase: u8) -> (r: Option<(u8, u32)>)
    ensures
        r == spec_reveal_next(phase),
{
    if phase < 3 {
        Some((phase + 1, 1000))
    } else if phase == 3 {
        Some((4, 999_000))
    } else {
        None
    }
}

} // verus!
