//! Headless game simulation tests — full battle royale games as pure data operations.
//!
//! Tests the game logic end-to-end without any engine dependency.
//! Deterministic (seeded RNG), fast (no rendering).

#![allow(dead_code)]

use shared::constants::INITIAL_SNAKE_LENGTH;
use shared::game::{ArenaBounds, Direction, Food, GridPos, Snake};
use std::collections::VecDeque;

// ===========================================================================
// Simulation harness
// ===========================================================================


// ---------------------------------------------------------------------------
// Seeded RNG (PCG-style, deterministic across platforms)
// ---------------------------------------------------------------------------

pub struct TestRng {
    state: u64,
}

impl TestRng {
    pub fn new(seed: u64) -> Self {
        Self { state: seed }
    }

    pub fn next_u32(&mut self) -> u32 {
        self.state = self
            .state
            .wrapping_mul(6364136223846793005)
            .wrapping_add(1442695040888963407);
        (self.state >> 33) as u32
    }

    pub fn range(&mut self, min: i32, max: i32) -> i32 {
        assert!(max > min, "range: max must be > min");
        min + (self.next_u32() % (max - min) as u32) as i32
    }
}

// ---------------------------------------------------------------------------
// AI strategies
// ---------------------------------------------------------------------------

#[derive(Debug, Clone, Copy, PartialEq, Eq)]
#[allow(dead_code)]
pub enum AiStrategy {
    /// Pick a random non-opposite direction each tick.
    Random,
    /// Move toward the nearest food (greedy).
    SeekFood,
    /// Move toward the nearest wall (suicidal — useful for testing deaths).
    SeekWall,
    /// Never change direction.
    Stationary,
}

// ---------------------------------------------------------------------------
// Simulation config (builder pattern)
// ---------------------------------------------------------------------------

pub struct SimConfig {
    pub num_snakes: usize,
    pub num_food: usize,
    pub seed: u64,
    pub shrink_interval: u32,
    pub speed_increase_interval: Option<u32>,
    pub max_ticks: u32,
    pub ai_strategy: AiStrategy,
}

impl Default for SimConfig {
    fn default() -> Self {
        Self {
            num_snakes: 10,
            num_food: 15,
            seed: 42,
            shrink_interval: 30,
            speed_increase_interval: None,
            max_ticks: 2000,
            ai_strategy: AiStrategy::Random,
        }
    }
}

impl SimConfig {
    pub fn new() -> Self {
        Self::default()
    }

    pub fn snakes(mut self, n: usize) -> Self {
        self.num_snakes = n;
        self
    }

    pub fn food(mut self, n: usize) -> Self {
        self.num_food = n;
        self
    }

    pub fn seed(mut self, s: u64) -> Self {
        self.seed = s;
        self
    }

    pub fn shrink_interval(mut self, interval: u32) -> Self {
        self.shrink_interval = interval;
        self
    }

    pub fn speed_increase_interval(mut self, interval: u32) -> Self {
        self.speed_increase_interval = Some(interval);
        self
    }

    pub fn max_ticks(mut self, ticks: u32) -> Self {
        self.max_ticks = ticks;
        self
    }

    pub fn ai_strategy(mut self, strategy: AiStrategy) -> Self {
        self.ai_strategy = strategy;
        self
    }

    pub fn build(self) -> GameSim {
        GameSim::from_config(self)
    }
}

// ---------------------------------------------------------------------------
// Simulation engine
// ---------------------------------------------------------------------------

pub struct GameSim {
    pub snakes: Vec<Snake>,
    pub food: Vec<Food>,
    pub bounds: ArenaBounds,
    pub rng: TestRng,
    pub tick: u32,
    pub shrink_interval: u32,
    pub speed_increase_interval: Option<u32>,
    pub tick_interval_factor: f32,
    pub max_ticks: u32,
    pub winner: Option<usize>,
    pub death_log: Vec<DeathEvent>,
    ai_strategy: AiStrategy,
}

pub struct DeathEvent {
    pub tick: u32,
    pub snake_idx: usize,
    pub killer: Option<usize>,
}

impl GameSim {
    /// Convenience constructor.
    #[allow(dead_code)]
    pub fn new(num_snakes: usize, num_food: usize, seed: u64, shrink_interval: u32) -> Self {
        SimConfig::new()
            .snakes(num_snakes)
            .food(num_food)
            .seed(seed)
            .shrink_interval(shrink_interval)
            .build()
    }

    fn from_config(cfg: SimConfig) -> Self {
        let mut rng = TestRng::new(cfg.seed);
        let bounds = ArenaBounds::default();

        let cx = (bounds.min_x + bounds.max_x) / 2;
        let cy = (bounds.min_y + bounds.max_y) / 2;
        let radius = ((bounds.max_x - bounds.min_x) / 3).max(8);

        let mut snakes = Vec::with_capacity(cfg.num_snakes);
        for i in 0..cfg.num_snakes {
            let angle_steps = cfg.num_snakes.max(1);
            let angle_idx = i % angle_steps;
            let (dx, dy) = match angle_idx % 4 {
                0 => (radius, (i as i32 * 3) % radius),
                1 => (-(radius), (i as i32 * 3) % radius),
                2 => ((i as i32 * 3) % radius, radius),
                3 => ((i as i32 * 3) % radius, -(radius)),
                _ => unreachable!(),
            };
            let sx = (cx + dx).clamp(
                bounds.min_x + INITIAL_SNAKE_LENGTH as i32 + 1,
                bounds.max_x - INITIAL_SNAKE_LENGTH as i32 - 1,
            );
            let sy = (cy + dy).clamp(
                bounds.min_y + INITIAL_SNAKE_LENGTH as i32 + 1,
                bounds.max_y - INITIAL_SNAKE_LENGTH as i32 - 1,
            );

            let dir = Direction::ALL[rng.next_u32() as usize % 4];
            snakes.push(Snake::new(sx, sy, dir));
        }

        let mut sim = GameSim {
            snakes,
            food: Vec::new(),
            bounds,
            rng,
            tick: 0,
            shrink_interval: cfg.shrink_interval,
            speed_increase_interval: cfg.speed_increase_interval,
            tick_interval_factor: 1.0,
            max_ticks: cfg.max_ticks,
            winner: None,
            death_log: Vec::new(),
            ai_strategy: cfg.ai_strategy,
        };

        for _ in 0..cfg.num_food {
            sim.spawn_food();
        }

        sim
    }

    pub fn spawn_food(&mut self) {
        for _ in 0..100 {
            let x = self.rng.range(self.bounds.min_x, self.bounds.max_x);
            let y = self.rng.range(self.bounds.min_y, self.bounds.max_y);
            let pos = GridPos::new(x, y);

            let on_snake = self.snakes.iter().any(|s| s.occupies(pos));
            let on_food = self.food.iter().any(|f| f.pos == pos);
            if !on_snake && !on_food {
                self.food.push(Food::new(x, y));
                return;
            }
        }
    }

    pub fn alive_count(&self) -> usize {
        self.snakes.iter().filter(|s| s.alive).count()
    }

    pub fn is_over(&self) -> bool {
        self.alive_count() <= 1
    }

    /// Pick direction based on AI strategy.
    fn pick_direction(&mut self, snake_idx: usize) -> Direction {
        match self.ai_strategy {
            AiStrategy::Random => self.random_direction(snake_idx),
            AiStrategy::SeekFood => self.seek_food_direction(snake_idx),
            AiStrategy::SeekWall => self.seek_wall_direction(snake_idx),
            AiStrategy::Stationary => self.snakes[snake_idx].direction,
        }
    }

    fn random_direction(&mut self, snake_idx: usize) -> Direction {
        let current = self.snakes[snake_idx].direction;
        let choices: Vec<Direction> = Direction::ALL
            .iter()
            .copied()
            .filter(|&d| d != current.opposite())
            .collect();
        choices[self.rng.next_u32() as usize % choices.len()]
    }

    fn seek_food_direction(&mut self, snake_idx: usize) -> Direction {
        let head = self.snakes[snake_idx].head();
        let current = self.snakes[snake_idx].direction;

        if let Some(nearest) = self.food.iter().min_by_key(|f| f.pos.distance(head)) {
            let dx = nearest.pos.x - head.x;
            let dy = nearest.pos.y - head.y;

            let preferred = if dx.abs() > dy.abs() {
                if dx > 0 { Direction::Right } else { Direction::Left }
            } else {
                if dy > 0 { Direction::Up } else { Direction::Down }
            };

            if preferred != current.opposite() {
                return preferred;
            }
        }

        // Fallback to random
        self.random_direction(snake_idx)
    }

    fn seek_wall_direction(&mut self, snake_idx: usize) -> Direction {
        let head = self.snakes[snake_idx].head();
        let current = self.snakes[snake_idx].direction;

        let dist_left = head.x - self.bounds.min_x;
        let dist_right = self.bounds.max_x - 1 - head.x;
        let dist_down = head.y - self.bounds.min_y;
        let dist_up = self.bounds.max_y - 1 - head.y;

        let min_dist = dist_left.min(dist_right).min(dist_down).min(dist_up);
        let preferred = if min_dist == dist_left {
            Direction::Left
        } else if min_dist == dist_right {
            Direction::Right
        } else if min_dist == dist_down {
            Direction::Down
        } else {
            Direction::Up
        };

        if preferred != current.opposite() {
            preferred
        } else {
            self.random_direction(snake_idx)
        }
    }

    /// Run one simulation tick.
    pub fn step(&mut self) {
        self.tick += 1;

        // Arena shrink
        if self.shrink_interval > 0 && self.tick % self.shrink_interval == 0 {
            self.bounds.shrink();
        }

        // Speed increase (simulate: factor *= 0.85, floor at 0.06/0.125 ≈ 0.48)
        if let Some(interval) = self.speed_increase_interval {
            if interval > 0 && self.tick % interval == 0 {
                self.tick_interval_factor = (self.tick_interval_factor * 0.85).max(0.48);
            }
        }

        // Choose directions
        let n = self.snakes.len();
        let mut directions = Vec::with_capacity(n);
        for i in 0..n {
            if self.snakes[i].alive {
                let dir = self.pick_direction(i);
                directions.push(Some(dir));
            } else {
                directions.push(None);
            }
        }

        // Apply directions and move
        for i in 0..n {
            if let Some(dir) = directions[i] {
                self.snakes[i].set_direction(dir);
                self.snakes[i].step();
            }
        }

        // Collision detection
        let mut kills = vec![false; n];
        let mut killers = vec![None; n];

        for i in 0..n {
            if !self.snakes[i].alive {
                continue;
            }
            let head = self.snakes[i].head();

            // Out of bounds
            if !self.bounds.contains(head) {
                kills[i] = true;
                continue;
            }

            // Self-collision
            if self.snakes[i].self_collision() {
                kills[i] = true;
                continue;
            }

            // Body collision with others
            for j in 0..n {
                if i == j || !self.snakes[j].alive {
                    continue;
                }
                if self.snakes[j].body_collision(head) {
                    kills[i] = true;
                    killers[i] = Some(j);
                    self.snakes[j].kills += 1;
                    break;
                }
            }
        }

        // Head-to-head
        for i in 0..n {
            if !self.snakes[i].alive || kills[i] {
                continue;
            }
            for j in (i + 1)..n {
                if !self.snakes[j].alive || kills[j] {
                    continue;
                }
                if self.snakes[i].head() == self.snakes[j].head() {
                    kills[i] = true;
                    kills[j] = true;
                }
            }
        }

        // Process deaths
        for i in 0..n {
            if kills[i] {
                self.snakes[i].alive = false;
                self.death_log.push(DeathEvent {
                    tick: self.tick,
                    snake_idx: i,
                    killer: killers[i],
                });
            }
        }

        // Food eating
        let mut eaten_indices = Vec::new();
        for i in 0..n {
            if !self.snakes[i].alive {
                continue;
            }
            let head = self.snakes[i].head();
            for (fi, food) in self.food.iter().enumerate() {
                if food.pos == head {
                    self.snakes[i].grow_pending += 1;
                    self.snakes[i].score += 1;
                    eaten_indices.push(fi);
                    break;
                }
            }
        }
        eaten_indices.sort_unstable();
        eaten_indices.dedup();
        for &fi in eaten_indices.iter().rev() {
            self.food.swap_remove(fi);
        }
        for _ in 0..eaten_indices.len() {
            self.spawn_food();
        }

        // Win condition
        if self.alive_count() <= 1 {
            self.winner = self.snakes.iter().position(|s| s.alive);
        }
    }

    /// Run the full simulation until game over or max ticks (no invariant checks).
    #[allow(dead_code)]
    pub fn run(&mut self) -> u32 {
        while self.tick < self.max_ticks && !self.is_over() {
            self.step();
        }
        self.tick
    }

    /// Capture current state for invariant comparison.
    pub fn snapshot(&self) -> TickSnapshot {
        TickSnapshot::capture(&self.snakes, &self.bounds)
    }

    /// Run one tick with all 6 invariant checks.
    pub fn step_with_invariants(&mut self) {
        let before = self.snapshot();
        self.step();
        check_all(&before, &self.snakes, &self.bounds, self.tick);
    }

    /// Run the full simulation with per-tick invariant checks.
    pub fn run_with_invariants(&mut self) -> u32 {
        while self.tick < self.max_ticks && !self.is_over() {
            self.step_with_invariants();
        }
        self.tick
    }
}

// ===========================================================================
// Invariants checked on every tick
// ===========================================================================


/// Lightweight state snapshot captured before each tick for comparison.
#[derive(Clone)]
pub struct TickSnapshot {
    pub head_positions: Vec<Option<GridPos>>,
    pub scores: Vec<u32>,
    pub alive_states: Vec<bool>,
    pub bounds: ArenaBounds,
    pub dead_segments: Vec<Option<VecDeque<GridPos>>>,
}

impl TickSnapshot {
    pub fn capture(snakes: &[Snake], bounds: &ArenaBounds) -> Self {
        Self {
            head_positions: snakes
                .iter()
                .map(|s| if s.alive { Some(s.head()) } else { None })
                .collect(),
            scores: snakes.iter().map(|s| s.score).collect(),
            alive_states: snakes.iter().map(|s| s.alive).collect(),
            bounds: *bounds,
            dead_segments: snakes
                .iter()
                .map(|s| if !s.alive { Some(s.segments.clone()) } else { None })
                .collect(),
        }
    }
}

/// Check all 6 invariants. Panics with a descriptive message on violation.
pub fn check_all(before: &TickSnapshot, snakes: &[Snake], bounds: &ArenaBounds, tick: u32) {
    no_teleportation(before, snakes, tick);
    scores_monotonic(before, snakes, tick);
    dead_frozen(before, snakes, tick);
    arena_monotonic(before, bounds, tick);
    population_conservation(before, snakes, tick);
    heads_in_bounds(snakes, bounds, tick);
}

/// Invariant 1: Alive snake heads move exactly 1 cell (Manhattan distance).
fn no_teleportation(before: &TickSnapshot, snakes: &[Snake], tick: u32) {
    for (i, snake) in snakes.iter().enumerate() {
        // Only check snakes that were alive before AND are still alive
        if let Some(prev_head) = before.head_positions[i] {
            if snake.alive {
                let dist = prev_head.distance(snake.head());
                assert_eq!(
                    dist,
                    1,
                    "tick {}: snake {} teleported! head moved {} cells ({:?} -> {:?})",
                    tick,
                    i,
                    dist,
                    prev_head,
                    snake.head()
                );
            }
        }
    }
}

/// Invariant 2: No snake's score ever decreases.
fn scores_monotonic(before: &TickSnapshot, snakes: &[Snake], tick: u32) {
    for (i, snake) in snakes.iter().enumerate() {
        assert!(
            snake.score >= before.scores[i],
            "tick {}: snake {} score decreased ({} -> {})",
            tick,
            i,
            before.scores[i],
            snake.score
        );
    }
}

/// Invariant 3: Dead snake segments never change.
fn dead_frozen(before: &TickSnapshot, snakes: &[Snake], tick: u32) {
    for (i, snake) in snakes.iter().enumerate() {
        if let Some(ref prev_segments) = before.dead_segments[i] {
            assert_eq!(
                &snake.segments, prev_segments,
                "tick {}: dead snake {} segments changed",
                tick, i
            );
        }
    }
}

/// Invariant 4: Arena bounds only shrink or stay the same.
fn arena_monotonic(before: &TickSnapshot, bounds: &ArenaBounds, tick: u32) {
    assert!(
        bounds.min_x >= before.bounds.min_x
            && bounds.min_y >= before.bounds.min_y
            && bounds.max_x <= before.bounds.max_x
            && bounds.max_y <= before.bounds.max_y,
        "tick {}: arena grew! before={:?}, after={:?}",
        tick,
        (
            before.bounds.min_x,
            before.bounds.min_y,
            before.bounds.max_x,
            before.bounds.max_y
        ),
        (bounds.min_x, bounds.min_y, bounds.max_x, bounds.max_y)
    );
}

/// Invariant 5: alive + dead = total snake count, always.
fn population_conservation(before: &TickSnapshot, snakes: &[Snake], tick: u32) {
    let total = snakes.len();
    let alive = snakes.iter().filter(|s| s.alive).count();
    let dead = snakes.iter().filter(|s| !s.alive).count();
    assert_eq!(
        alive + dead,
        total,
        "tick {}: population mismatch: alive={}, dead={}, total={}",
        tick,
        alive,
        dead,
        total
    );

    // Also: no snake that was dead can come back alive
    for (i, snake) in snakes.iter().enumerate() {
        if !before.alive_states[i] {
            assert!(
                !snake.alive,
                "tick {}: snake {} resurrected (was dead, now alive)",
                tick, i
            );
        }
    }
}

/// Invariant 6: No alive snake head is outside arena bounds.
fn heads_in_bounds(snakes: &[Snake], bounds: &ArenaBounds, tick: u32) {
    for (i, snake) in snakes.iter().enumerate() {
        if snake.alive {
            assert!(
                bounds.contains(snake.head()),
                "tick {}: alive snake {} head at {:?} is outside bounds ({},{},{},{})",
                tick,
                i,
                snake.head(),
                bounds.min_x,
                bounds.min_y,
                bounds.max_x,
                bounds.max_y
            );
        }
    }
}


// ===========================================================================
// Whole games
// ===========================================================================

#[test]
fn test_game_always_terminates() {
    for seed in 0..50u64 {
        let mut sim = SimConfig::new().seed(seed).build();
        let ticks = sim.run_with_invariants();
        assert!(
            sim.alive_count() <= 1,
            "Game with seed {} did not terminate: {} alive after {} ticks",
            seed,
            sim.alive_count(),
            ticks
        );
    }
}

#[test]
fn test_scores_never_negative() {
    for seed in 0..20u64 {
        let mut sim = SimConfig::new().seed(seed + 1000).build();
        sim.run_with_invariants();
        for (i, snake) in sim.snakes.iter().enumerate() {
            assert!(
                snake.score < 10_000,
                "Snake {} in game seed {} has implausible score: {}",
                i,
                seed,
                snake.score
            );
            assert!(
                snake.kills < 10_000,
                "Snake {} in game seed {} has implausible kills: {}",
                i,
                seed,
                snake.kills
            );
        }
    }
}

#[test]
fn test_dead_snakes_dont_move() {
    let mut sim = SimConfig::new().seed(42).build();

    let mut dead_snapshots: Vec<(usize, VecDeque<GridPos>)> = Vec::new();

    for _ in 0..500 {
        sim.step_with_invariants();

        for i in 0..sim.snakes.len() {
            if !sim.snakes[i].alive && !dead_snapshots.iter().any(|(idx, _)| *idx == i) {
                dead_snapshots.push((i, sim.snakes[i].segments.clone()));
            }
        }

        for (idx, snapshot) in &dead_snapshots {
            assert_eq!(
                sim.snakes[*idx].segments, *snapshot,
                "Dead snake {} moved after death at tick {}",
                idx, sim.tick
            );
        }

        if sim.is_over() {
            break;
        }
    }

    assert!(
        !dead_snapshots.is_empty(),
        "No snake died during the simulation — test is vacuously true"
    );
}

#[test]
fn test_arena_shrink_kills_outside_snakes() {
    let bounds = ArenaBounds::default();
    let edge_x = bounds.max_x - 1;
    let mid_y = (bounds.min_y + bounds.max_y) / 2;

    let mut snake = Snake::new(edge_x, mid_y, Direction::Right);
    assert!(snake.alive);
    assert!(bounds.contains(snake.head()));

    let mut shrunk = bounds;
    shrunk.shrink();
    assert!(
        !shrunk.contains(snake.head()),
        "Snake at x={} should be outside arena with max_x={}",
        edge_x,
        shrunk.max_x
    );

    if !shrunk.contains(snake.head()) {
        snake.alive = false;
    }
    assert!(!snake.alive, "Snake should be dead after arena shrink");
}

#[test]
fn test_food_eating_grows_snake() {
    let mut snake = Snake::new(10, 10, Direction::Right);
    let food = Food::new(11, 10);

    let initial_score = snake.score;
    let initial_grow = snake.grow_pending;
    let initial_len = snake.segments.len();

    let new_head = snake.step();
    assert_eq!(new_head, food.pos, "Snake head should be on the food");

    if new_head == food.pos {
        snake.grow_pending += 1;
        snake.score += 1;
    }

    assert_eq!(snake.score, initial_score + 1, "Score should increase by 1");
    assert_eq!(
        snake.grow_pending,
        initial_grow + 1,
        "grow_pending should increase by 1"
    );

    snake.step();
    assert_eq!(
        snake.segments.len(),
        initial_len + 1,
        "Snake should have grown by 1 segment after eating"
    );
}

#[test]
fn test_self_collision_kills() {
    let mut snake = Snake::new(20, 20, Direction::Right);
    snake.grow_pending = 5;

    snake.step();
    snake.step();
    snake.step();

    snake.set_direction(Direction::Down);
    snake.step();

    snake.set_direction(Direction::Left);
    snake.step();

    snake.set_direction(Direction::Up);
    snake.step();

    assert!(
        snake.self_collision(),
        "Snake should detect self-collision after looping back"
    );
}

#[test]
fn test_head_to_head_collision() {
    let mut snake_a = Snake::new(15, 20, Direction::Right);
    let mut snake_b = Snake::new(17, 20, Direction::Left);

    let head_a = snake_a.step();
    let head_b = snake_b.step();

    assert_eq!(head_a, head_b, "Both heads should meet at the same cell");
    assert_eq!(head_a, GridPos::new(16, 20));

    let both_collide = head_a == head_b;
    assert!(both_collide, "Head-to-head collision should be detected");
}

#[test]
fn test_no_180_degree_turn() {
    let mut snake = Snake::new(20, 20, Direction::Right);

    snake.set_direction(Direction::Left);
    assert_eq!(
        snake.next_direction,
        Direction::Right,
        "180-degree turn should be rejected"
    );

    snake.set_direction(Direction::Up);
    assert_eq!(snake.next_direction, Direction::Up, "90-degree turn should be accepted");

    let head = snake.step();
    assert_eq!(snake.direction, Direction::Up);
    assert_eq!(head, GridPos::new(20, 21));
}

#[test]
fn test_arena_shrink_stops_at_minimum() {
    let mut bounds = ArenaBounds::default();
    let initial_width = bounds.max_x - bounds.min_x;

    let mut shrink_count = 0;
    while bounds.can_shrink() {
        bounds.shrink();
        shrink_count += 1;
    }

    let final_width = bounds.max_x - bounds.min_x;
    let final_height = bounds.max_y - bounds.min_y;

    assert_eq!(final_width, 6, "Arena should stop shrinking at width 6");
    assert_eq!(final_height, 6, "Arena should stop shrinking at height 6");
    assert!(!bounds.can_shrink(), "can_shrink() should return false at minimum size");

    let before = bounds;
    bounds.shrink();
    assert_eq!(bounds.min_x, before.min_x, "shrink() should be a no-op at minimum");
    assert_eq!(bounds.max_x, before.max_x, "shrink() should be a no-op at minimum");

    assert_eq!(
        shrink_count,
        (initial_width - 6) / 2,
        "Should take (initial_width - 6) / 2 shrinks to reach minimum"
    );
}

#[test]
fn test_statistical_fairness() {
    let num_games = 100;
    let num_snakes = 10;
    let mut win_counts = vec![0u32; num_snakes];

    for seed in 0..num_games as u64 {
        let mut sim = SimConfig::new().snakes(num_snakes).seed(seed + 5000).build();
        sim.run_with_invariants();

        if let Some(winner) = sim.winner {
            win_counts[winner] += 1;
        }
    }

    let max_wins = *win_counts.iter().max().unwrap();
    let threshold = (num_games as f64 * 0.40) as u32;

    assert!(
        max_wins <= threshold,
        "Spawn position bias detected: snake won {} out of {} games (>40%). Distribution: {:?}",
        max_wins,
        num_games,
        win_counts
    );
}

// ===========================================================================
// New scenarios
// ===========================================================================

#[test]
fn test_speed_increase_mechanics() {
    // Speed increase every 10 ticks, with 0.85x multiplier each time
    let mut sim = SimConfig::new()
        .snakes(2)
        .food(5)
        .seed(99)
        .speed_increase_interval(10)
        .max_ticks(100)
        .build();

    assert_eq!(sim.tick_interval_factor, 1.0, "initial factor should be 1.0");

    // Run 10 ticks — first speed increase
    for _ in 0..10 {
        sim.step_with_invariants();
    }
    let after_first = sim.tick_interval_factor;
    assert!(
        (after_first - 0.85).abs() < 0.001,
        "After first speed increase: expected ~0.85, got {}",
        after_first
    );

    // Run 10 more — second speed increase
    for _ in 0..10 {
        sim.step_with_invariants();
    }
    let after_second = sim.tick_interval_factor;
    assert!(
        (after_second - 0.85 * 0.85).abs() < 0.001,
        "After second speed increase: expected ~{}, got {}",
        0.85 * 0.85,
        after_second
    );

    // Floor at 0.48
    let mut sim = SimConfig::new()
        .snakes(2)
        .food(5)
        .seed(100)
        .speed_increase_interval(1)
        .max_ticks(200)
        .build();
    sim.run_with_invariants();
    assert!(
        sim.tick_interval_factor >= 0.48,
        "Speed factor should floor at 0.48, got {}",
        sim.tick_interval_factor
    );
}

#[test]
fn test_kill_attribution_correct() {
    // Run several games, verify every kill in death_log has a valid killer
    // when the death was caused by body collision (not wall/self)
    for seed in 0..20u64 {
        let mut sim = SimConfig::new().snakes(10).food(15).seed(seed + 2000).build();
        sim.run_with_invariants();

        for event in &sim.death_log {
            if let Some(killer_idx) = event.killer {
                assert!(
                    killer_idx < sim.snakes.len(),
                    "Killer index {} out of bounds (seed {})",
                    killer_idx,
                    seed
                );
                assert_ne!(
                    killer_idx, event.snake_idx,
                    "Snake {} credited as its own killer (seed {})",
                    killer_idx, seed
                );
            }
        }

        // Verify total kills across snakes matches death_log attributed kills
        let logged_kills = sim.death_log.iter().filter(|e| e.killer.is_some()).count() as u32;
        let snake_kills: u32 = sim.snakes.iter().map(|s| s.kills).sum();
        assert_eq!(
            logged_kills, snake_kills,
            "Kill count mismatch: death_log={}, snakes={} (seed {})",
            logged_kills, snake_kills, seed
        );
    }
}

#[test]
fn test_food_distribution_fairness() {
    // Over N games with SeekFood AI, no snake should get >2x average food
    let num_games = 50;
    let num_snakes = 10;
    let mut total_food_per_snake = vec![0u32; num_snakes];

    for seed in 0..num_games as u64 {
        let mut sim = SimConfig::new()
            .snakes(num_snakes)
            .food(20)
            .seed(seed + 3000)
            .ai_strategy(AiStrategy::SeekFood)
            .build();
        sim.run_with_invariants();

        for (i, snake) in sim.snakes.iter().enumerate() {
            total_food_per_snake[i] += snake.score;
        }
    }

    let total: u32 = total_food_per_snake.iter().sum();
    let avg = total as f64 / num_snakes as f64;
    let max_food = *total_food_per_snake.iter().max().unwrap();

    assert!(
        (max_food as f64) <= avg * 2.0,
        "Food distribution unfair: max={}, avg={:.1}. Distribution: {:?}",
        max_food,
        avg,
        total_food_per_snake
    );
}

#[test]
fn test_all_spawns_in_bounds() {
    for seed in 0..100u64 {
        let sim = SimConfig::new().snakes(10).seed(seed).build();

        for (i, snake) in sim.snakes.iter().enumerate() {
            for (seg_idx, seg) in snake.segments.iter().enumerate() {
                assert!(
                    sim.bounds.contains(*seg),
                    "Seed {}: snake {} segment {} at ({},{}) is out of bounds {:?}",
                    seed,
                    i,
                    seg_idx,
                    seg.x,
                    seg.y,
                    (sim.bounds.min_x, sim.bounds.min_y, sim.bounds.max_x, sim.bounds.max_y)
                );
            }
        }
    }
}

#[test]
fn test_arena_minimum_still_playable() {
    // Shrink arena to minimum, then verify snakes can still move
    let mut sim = SimConfig::new()
        .snakes(2)
        .food(3)
        .seed(77)
        .shrink_interval(1) // shrink every tick — aggressive
        .max_ticks(500)
        .build();

    // Run until arena is at minimum
    while sim.bounds.can_shrink() {
        sim.step_with_invariants();
    }

    let width = sim.bounds.max_x - sim.bounds.min_x;
    let height = sim.bounds.max_y - sim.bounds.min_y;
    assert_eq!(width, 6);
    assert_eq!(height, 6);

    // Keep going — game should still progress (snakes move, die, or win)
    let tick_at_min = sim.tick;
    for _ in 0..100 {
        if sim.is_over() {
            break;
        }
        sim.step_with_invariants();
    }

    // Either the game ended or snakes survived some ticks at minimum size
    assert!(
        sim.tick > tick_at_min || sim.is_over(),
        "Game stalled at minimum arena size"
    );
}

#[test]
fn test_simultaneous_multi_death() {
    // Run many games and check that multi-death (3+ same tick) can occur
    let mut multi_death_found = false;

    for seed in 0..200u64 {
        let mut sim = SimConfig::new()
            .snakes(10)
            .food(5)
            .seed(seed + 4000)
            .shrink_interval(10) // aggressive shrink to force crowding
            .build();
        sim.run_with_invariants();

        // Check death_log for 3+ deaths on same tick
        let mut deaths_per_tick: std::collections::HashMap<u32, u32> = std::collections::HashMap::new();
        for event in &sim.death_log {
            *deaths_per_tick.entry(event.tick).or_insert(0) += 1;
        }

        if deaths_per_tick.values().any(|&count| count >= 3) {
            multi_death_found = true;
            break;
        }
    }

    assert!(
        multi_death_found,
        "No simultaneous multi-death (3+) observed in 200 seeded games — simulation may be broken"
    );
}

// ===========================================================================
// Determinism
// ===========================================================================

#[test]
fn test_determinism_same_seed_same_result() {
    for seed in 0..20u64 {
        let mut sim_a = SimConfig::new().seed(seed).build();
        let mut sim_b = SimConfig::new().seed(seed).build();

        sim_a.run_with_invariants();
        sim_b.run_with_invariants();

        assert_eq!(
            sim_a.death_log.len(),
            sim_b.death_log.len(),
            "seed {}: death_log length differs ({} vs {})",
            seed,
            sim_a.death_log.len(),
            sim_b.death_log.len()
        );

        for (i, (a, b)) in sim_a.death_log.iter().zip(&sim_b.death_log).enumerate() {
            assert_eq!(
                a.tick, b.tick,
                "seed {}: death {} tick differs ({} vs {})",
                seed, i, a.tick, b.tick
            );
            assert_eq!(
                a.snake_idx, b.snake_idx,
                "seed {}: death {} snake differs ({} vs {})",
                seed, i, a.snake_idx, b.snake_idx
            );
            assert_eq!(
                a.killer, b.killer,
                "seed {}: death {} killer differs ({:?} vs {:?})",
                seed, i, a.killer, b.killer
            );
        }

        assert_eq!(
            sim_a.winner, sim_b.winner,
            "seed {}: winner differs ({:?} vs {:?})",
            seed, sim_a.winner, sim_b.winner
        );
    }
}
