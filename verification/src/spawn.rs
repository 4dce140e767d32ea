use vstd::prelude::*;

use crate::constants::{GRID_HEIGHT, GRID_WIDTH, INITIAL_SNAKE_LENGTH, NUM_FOOD, NUM_SNAKES};
use crate::game::{Direction, Food, GridPos, MatchState, Snake, SnakeId, SnakeView, initial_segments};
use crate::rng::SimpleRng;
use crate::tick::{draw_in, state_after};

verus! {

/// The starting cell and heading of each snake of a match.
pub open spec fn spec_spawn_positions() -> Seq<(i32, i32, Direction)> {
    seq![
        (10i32, 10i32, Direction::Right),
        ((GRID_WIDTH - 11) as i32, 10i32, Direction::Up),
        (10i32, (GRID_HEIGHT - 11) as i32, Direction::Right),
        ((GRID_WIDTH - 11) as i32, (GRID_HEIGHT - 11) as i32, Direction::Down),
        ((GRID_WIDTH / 2) as i32, 10i32, Direction::Up),
        (10i32, (GRID_HEIGHT / 2) as i32, Direction::Right),
        ((GRID_WIDTH - 11) as i32, (GRID_HEIGHT / 2) as i32, Direction::Left),
        ((GRID_WIDTH / 2) as i32, (GRID_HEIGHT - 11) as i32, Direction::Down),
        ((GRID_WIDTH / 3) as i32, (GRID_HEIGHT / 3) as i32, Direction::Right),
        ((2 * GRID_WIDTH / 3) as i32, (2 * GRID_HEIGHT / 3) as i32, Direction::Left),
    ]
}

pub fn spawn_positions() -> (r: Vec<(i32, i32, Direction)>)
    ensures
        r@ == spec_spawn_positions(),
{
    let r = vec![
        (10, 10, Direction::Right),
        (GRID_WIDTH - 11, 10, Direction::Up),
        (10, GRID_HEIGHT - 11, Direction::Right),
        (GRID_WIDTH - 11, GRID_HEIGHT - 11, Direction::Down),
        (GRID_WIDTH / 2, 10, Direction::Up),
        (10, GRID_HEIGHT / 2, Direction::Right),
        (GRID_WIDTH - 11, GRID_HEIGHT / 2, Direction::Left),
        (GRID_WIDTH / 2, GRID_HEIGHT - 11, Direction::Down),
        (GRID_WIDTH / 3, GRID_HEIGHT / 3, Direction::Right),
        (2 * GRID_WIDTH / 3, 2 * GRID_HEIGHT / 3, Direction::Left),
    ];
    assert(r@ =~= spec_spawn_positions());
    r
}

/// The `t`-th food of a new match: `x` then `y` drawn from `2..GRID - 2`.
pub open spec fn opening_food(s: u64, t: int) -> GridPos {
    GridPos {
        x: draw_in(state_after(s, (2 * t) as nat), 2, GRID_WIDTH - 2) as i32,
        y: draw_in(state_after(s, (2 * t + 1) as nat), 2, GRID_HEIGHT - 2) as i32,
    }
}

/// The pieces of a new match: snakes (snake 0 is the player's), their ids, the
/// food, and the counts.
pub struct MatchSetup {
    pub snakes: Vec<Snake>,
    pub ids: Vec<SnakeId>,
    pub foods: Vec<Food>,
    pub match_state: MatchState,
}

/// Spawn all pieces of a match: snake `i` gets id `i` and starts at spawn
/// position `i`; `NUM_FOOD` foods are placed at random.
pub fn spawn_match(rng: &mut SimpleRng) -> (r: MatchSetup)
    ensures
        r.snakes@.len() == NUM_SNAKES,
        r.ids@.len() == NUM_SNAKES,
        forall|i: int|
            0 <= i < NUM_SNAKES ==> {
                let (x, y, d) = spec_spawn_positions()[i];
                &&& (#[trigger] r.snakes@[i])@ == SnakeView {
                    segments: initial_segments(x, y, d),
                    direction: d,
                    next_direction: d,
                    alive: true,
                    grow_pending: 0,
                    score: 0,
                    kills: 0,
                }
                &&& r.ids@[i] == SnakeId(i as u32)
            },
        r.foods@.len() == NUM_FOOD,
        forall|t: int| 0 <= t < NUM_FOOD ==> (#[trigger] r.foods@[t]).pos == opening_food(old(rng).spec_state(), t),
        final(rng).spec_state() == state_after(old(rng).spec_state(), (2 * NUM_FOOD) as nat),
        r.match_state == (MatchState { alive_count: NUM_SNAKES, total_snakes: NUM_SNAKES }),
{
    let positions = spawn_positions();
    let mut snakes: Vec<Snake> = Vec::new();
    let mut ids: Vec<SnakeId> = Vec::new();
    let mut i: u32 = 0;
    while i < NUM_SNAKES
        invariant
            positions@ == spec_spawn_positions(),
            i <= NUM_SNAKES,
            snakes@.len() == i,
            ids@.len() == i,
            forall|q: int|
                0 <= q < i ==> {
                    let (x, y, d) = spec_spawn_positions()[q];
                    &&& (#[trigger] snakes@[q])@ == SnakeView {
                        segments: initial_segments(x, y, d),
                        direction: d,
                        next_direction: d,
                        alive: true,
                        grow_pending: 0,
                        score: 0,
                        kills: 0,
                    }
                    &&& ids@[q] == SnakeId(q as u32)
                },
        decreases NUM_SNAKES - i,
    {
        let (x, y, dir) = positions[i as usize];
        assert(INITIAL_SNAKE_LENGTH == 5);
        snakes.push(Snake::new(x, y, dir));
        ids.push(SnakeId(i));
        i = i + 1;
    }
    let ghost s0 = rng.spec_state();
    let mut foods: Vec<Food> = Vec::new();
    let mut t: usize = 0;
    while t < NUM_FOOD
        invariant
            t <= NUM_FOOD,
            foods@.len() == t,
            rng.spec_state() == state_after(s0, (2 * t) as nat),
            forall|q: int| 0 <= q < t ==> (#[trigger] foods@[q]).pos == opening_food(s0, q),
        decreases NUM_FOOD - t,
    {
        let x = rng.range(2, GRID_WIDTH - 2);
        assert(rng.spec_state() == state_after(s0, (2 * t + 1) as nat));
        let y = rng.range(2, GRID_HEIGHT - 2);
        assert(rng.spec_state() == state_after(s0, (2 * (t + 1)) as nat));
        foods.push(Food::new(x, y));
        t = t + 1;
    }
    MatchSetup {
        snakes,
        ids,
        foods,
        match_state: MatchState { alive_count: NUM_SNAKES, total_snakes: NUM_SNAKES },
    }
}

} // verus!
