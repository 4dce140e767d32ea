use vstd::prelude::*;

verus! {

/// Grid width in cells.
pub const GRID_WIDTH: i32 = 40;

/// Grid height in cells.
pub const GRID_HEIGHT: i32 = 40;

/// Number of segments a snake is born with.
pub const INITIAL_SNAKE_LENGTH: usize = 5;

/// Points per food eaten.
pub const POINTS_PER_FOOD: i32 = 1;

/// Points for killing another snake.
pub const POINTS_PER_KILL: i32 = 3;

/// Score to win.
pub const WINNING_SCORE: i32 = 20;

/// Snakes in a match (one player and nine computer snakes).
pub const NUM_SNAKES: u32 = 10;

/// Food items kept on the field during a match.
pub const NUM_FOOD: usize = 35;

} // verus!
