//! Game logic of a snake battle royale: grid geometry, snakes, the arena that
//! shrinks, the tick that moves every snake and settles collisions, the AI
//! that steers the computer snakes, and the bookkeeping around a match.

pub mod constants;
pub mod game;
pub mod rng;
pub mod tick;
pub mod ai;
pub mod shrink;
pub mod spawn;
pub mod text;
pub mod ranking;
pub mod menu;
pub mod flow;
pub mod grid;
pub mod wav;
pub mod spectate;
pub mod fmt;
pub mod autotest;
pub mod laws;
