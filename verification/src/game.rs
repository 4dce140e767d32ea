use std::collections::VecDeque;
use vstd::prelude::*;

use crate::constants::{GRID_HEIGHT, GRID_WIDTH, INITIAL_SNAKE_LENGTH};

verus! {

/// True when `v` is representable as an `i32`.
pub open spec fn fits_i32(v: int) -> bool {
    i32::MIN <= v <= i32::MAX
}

/// Absolute value of an integer.
pub open spec fn abs(v: int) -> int {
    if v < 0 {
        -v
    } else {
        v
    }
}

/// Cardinal direction for snake movement
#[derive(Debug, Clone, Copy, PartialEq, Eq, Hash, Structural)]
pub enum Direction {
    Up,
    Down,
    Left,
    Right,
}

impl Direction {
    /// The direction pointing the other way.
    pub open spec fn spec_opposite(self) -> Direction {
        match self {
            Direction::Up => Direction::Down,
            Direction::Down => Direction::Up,
            Direction::Left => Direction::Right,
            Direction::Right => Direction::Left,
        }
    }

    /// The unit offset `(dx, dy)` of one step in this direction; up is `+y`.
    pub open spec fn spec_delta(self) -> (i32, i32) {
        match self {
            Direction::Up => (0i32, 1i32),
            Direction::Down => (0i32, -1i32),
            Direction::Left => (-1i32, 0i32),
            Direction::Right => (1i32, 0i32),
        }
    }

    /// The four directions in the order `Up, Down, Left, Right`.
    pub open spec fn spec_all() -> Seq<Direction> {
        seq![Direction::Up, Direction::Down, Direction::Left, Direction::Right]
    }

    pub fn opposite(self) -> (r: Self)
        ensures
            r == self.spec_opposite(),
    {
        match self {
            Direction::Up => Direction::Down,
            Direction::Down => Direction::Up,
            Direction::Left => Direction::Right,
            Direction::Right => Direction::Left,
        }
    }

    pub fn delta(self) -> (r: (i32, i32))
        ensures
            r == self.spec_delta(),
    {
        match self {
            Direction::Up => (0, 1),
            Direction::Down => (0, -1),
            Direction::Left => (-1, 0),
            Direction::Right => (1, 0),
        }
    }

    pub const ALL: [Direction; 4] = [Direction::Up, Direction::Down, Direction::Left, Direction::Right];
}

/// Grid position (cell coordinates, not pixels)
#[derive(Debug, Clone, Copy, PartialEq, Eq, Hash, Structural)]
pub struct GridPos {
    pub x: i32,
    pub y: i32,
}

/// Manhattan distance between two positions.
pub open spec fn manhattan(a: GridPos, b: GridPos) -> int {
    abs(a.x - b.x) + abs(a.y - b.y)
}

/// The cell one step from `p` in direction `d` (as integers, no wrapping).
pub open spec fn spec_offset(p: GridPos, d: Direction) -> (int, int) {
    (p.x + d.spec_delta().0, p.y + d.spec_delta().1)
}

/// Whether the cell one step from `p` in direction `d` has `i32` coordinates.
pub open spec fn offset_fits(p: GridPos, d: Direction) -> bool {
    fits_i32(spec_offset(p, d).0) && fits_i32(spec_offset(p, d).1)
}

/// The cell one step from `p` in direction `d`.
pub open spec fn moved(p: GridPos, d: Direction) -> GridPos {
    GridPos { x: spec_offset(p, d).0 as i32, y: spec_offset(p, d).1 as i32 }
}

impl GridPos {
    /// Inside the playable area of the fixed grid (inside the border walls).
    pub open spec fn spec_in_bounds(self) -> bool {
        1 <= self.x < GRID_WIDTH - 1 && 1 <= self.y < GRID_HEIGHT - 1
    }

    pub fn new(x: i32, y: i32) -> (r: Self)
        ensures
            r == (GridPos { x, y }),
    {
        GridPos { x, y }
    }

    /// Check if position is within playable area (inside the border walls)
    pub fn in_bounds(self) -> (r: bool)
        ensures
            r == self.spec_in_bounds(),
    {
        self.x >= 1 && self.x < GRID_WIDTH - 1 && self.y >= 1 && self.y < GRID_HEIGHT - 1
    }

    /// Manhattan distance to another position
    pub fn distance(self, other: GridPos) -> (r: i32)
        requires
            manhattan(self, other) <= i32::MAX,
        ensures
            r == manhattan(self, other),
    {
        let dx = self.x as i64 - other.x as i64;
        let dy = self.y as i64 - other.y as i64;
        let ax: i64 = if dx < 0 { -dx } else { dx };
        let ay: i64 = if dy < 0 { -dy } else { dy };
        (ax + ay) as i32
    }

    /// The neighbouring cell in direction `d`.
    pub fn step_toward(self, d: Direction) -> (r: GridPos)
        requires
            offset_fits(self, d),
        ensures
            r == moved(self, d),
    {
        let (dx, dy) = d.delta();
        GridPos { x: self.x + dx, y: self.y + dy }
    }
}

/// Unique snake identifier
#[derive(Debug, Clone, Copy, PartialEq, Eq, Hash, Structural)]
pub struct SnakeId(pub u32);

/// What a snake is, as a value: its body (head first), heading, and counters.
pub struct SnakeView {
    pub segments: Seq<GridPos>,
    pub direction: Direction,
    pub next_direction: Direction,
    pub alive: bool,
    pub grow_pending: usize,
    pub score: u32,
    pub kills: u32,
}

impl SnakeView {
    /// A snake has a head.
    pub open spec fn wf(self) -> bool {
        self.segments.len() > 0
    }

    pub open spec fn head(self) -> GridPos {
        self.segments[0]
    }

    /// Whether `pos` is one of the body segments (the head excluded).
    pub open spec fn body_hits(self, pos: GridPos) -> bool {
        exists|i: int| 1 <= i < self.segments.len() && self.segments[i] == pos
    }

    /// Whether `pos` is any segment, the head included.
    pub open spec fn occupies(self, pos: GridPos) -> bool {
        exists|i: int| 0 <= i < self.segments.len() && self.segments[i] == pos
    }

    /// The head lies on one of its own body segments.
    pub open spec fn self_collides(self) -> bool {
        self.body_hits(self.head())
    }

    /// Whether one step in the queued direction stays in `i32` coordinates.
    pub open spec fn can_step(self) -> bool {
        self.wf() && offset_fits(self.head(), self.next_direction)
    }

    /// The head after one step in the queued direction.
    pub open spec fn next_head(self) -> GridPos {
        moved(self.head(), self.next_direction)
    }

    /// Body after one step: the new head in front; the tail cell is dropped
    /// unless growth is pending.
    pub open spec fn stepped_segments(self) -> Seq<GridPos> {
        if self.grow_pending > 0 {
            seq![self.next_head()] + self.segments
        } else {
            seq![self.next_head()] + self.segments.drop_last()
        }
    }

    /// The snake after one step.
    pub open spec fn stepped(self) -> SnakeView {
        SnakeView {
            segments: self.stepped_segments(),
            direction: self.next_direction,
            grow_pending: if self.grow_pending > 0 {
                (self.grow_pending - 1) as usize
            } else {
                0
            },
            ..self
        }
    }

    /// The snake after asking to turn to `dir`: a reversal is ignored.
    pub open spec fn turned(self, dir: Direction) -> SnakeView {
        if dir != self.direction.spec_opposite() {
            SnakeView { next_direction: dir, ..self }
        } else {
            self
        }
    }
}

/// The five cells of a newborn snake: the head, then the body trailing away
/// from the heading.
pub open spec fn initial_segments(head_x: i32, head_y: i32, direction: Direction) -> Seq<GridPos> {
    let d = direction.spec_opposite().spec_delta();
    Seq::new(
        INITIAL_SNAKE_LENGTH as nat,
        |i: int| GridPos { x: (head_x + d.0 * i) as i32, y: (head_y + d.1 * i) as i32 },
    )
}

/// A newborn snake's body has `i32` coordinates.
pub open spec fn initial_fits(head_x: i32, head_y: i32, direction: Direction) -> bool {
    let d = direction.spec_opposite().spec_delta();
    fits_i32(head_x + d.0 * (INITIAL_SNAKE_LENGTH - 1)) && fits_i32(
        head_y + d.1 * (INITIAL_SNAKE_LENGTH - 1),
    )
}

/// The snake: head position + body segments
#[derive(Debug, Clone)]
pub struct Snake {
    pub segments: VecDeque<GridPos>,
    pub direction: Direction,
    pub next_direction: Direction,
    pub alive: bool,
    pub grow_pending: usize,
    pub score: u32,
    pub kills: u32,
}

impl View for Snake {
    type V = SnakeView;

    open spec fn view(&self) -> SnakeView {
        SnakeView {
            segments: self.segments@,
            direction: self.direction,
            next_direction: self.next_direction,
            alive: self.alive,
            grow_pending: self.grow_pending,
            score: self.score,
            kills: self.kills,
        }
    }
}

impl Snake {
    pub fn new(head_x: i32, head_y: i32, direction: Direction) -> (r: Self)
        requires
            initial_fits(head_x, head_y, direction),
        ensures
            r@ == (SnakeView {
                segments: initial_segments(head_x, head_y, direction),
                direction,
                next_direction: direction,
                alive: true,
                grow_pending: 0,
                score: 0,
                kills: 0,
            }),
    {
        let delta = direction.opposite().delta();
        let mut segments: VecDeque<GridPos> = VecDeque::new();
        let mut i: usize = 0;
        while i < INITIAL_SNAKE_LENGTH
            invariant
                i <= INITIAL_SNAKE_LENGTH,
                delta == direction.spec_opposite().spec_delta(),
                initial_fits(head_x, head_y, direction),
                segments@ == initial_segments(head_x, head_y, direction).take(i as int),
            decreases INITIAL_SNAKE_LENGTH - i,
        {
            let k = i as i32;
            assert(-1 <= delta.0 <= 1 && -1 <= delta.1 <= 1);
            assert(-4 <= delta.0 * k <= 4 && -4 <= delta.1 * k <= 4 && fits_i32(head_x + delta.0 * k)
                && fits_i32(head_y + delta.1 * k)) by (nonlinear_arith)
                requires
                    -1 <= delta.0 <= 1,
                    -1 <= delta.1 <= 1,
                    0 <= k <= 4,
                    fits_i32(head_x + delta.0 * 4),
                    fits_i32(head_y + delta.1 * 4),
            ;
            let dx = delta.0 * k;
            let dy = delta.1 * k;
            segments.push_back(GridPos::new(head_x + dx, head_y + dy));
            assert(segments@ =~= initial_segments(head_x, head_y, direction).take(i + 1));
            i = i + 1;
        }
        assert(segments@ =~= initial_segments(head_x, head_y, direction));
        Snake {
            segments,
            direction,
            next_direction: direction,
            alive: true,
            grow_pending: 0,
            score: 0,
            kills: 0,
        }
    }

    pub fn head(&self) -> (r: GridPos)
        requires
            self@.wf(),
        ensures
            r == self@.head(),
    {
        self.segments[0]
    }

    /// Try to change direction (prevents 180-degree turns)
    pub fn set_direction(&mut self, dir: Direction)
        ensures
            final(self)@ == old(self)@.turned(dir),
    {
        if dir != self.direction.opposite() {
            self.next_direction = dir;
        }
    }

    /// Advance the snake one step. Returns the new head position.
    pub fn step(&mut self) -> (r: GridPos)
        requires
            old(self)@.can_step(),
        ensures
            final(self)@ == old(self)@.stepped(),
            r == old(self)@.next_head(),
    {
        self.direction = self.next_direction;
        let head = self.head();
        let new_head = head.step_toward(self.direction);
        self.segments.push_front(new_head);

        if self.grow_pending > 0 {
            self.grow_pending -= 1;
        } else {
            self.segments.pop_back();
        }
        proof {
            assert(self.segments@ =~= old(self)@.stepped_segments());
        }
        new_head
    }

    /// Whether any body segment at index `from` or later is `pos`.
    fn any_segment_from(&self, from: usize, pos: GridPos) -> (r: bool)
        ensures
            r == exists|i: int| from <= i < self@.segments.len() && self@.segments[i] == pos,
    {
        let n = self.segments.len();
        let mut i = from;
        while i < n
            invariant
                n == self.segments@.len(),
                from <= i || n <= i,
                forall|j: int| from <= j < i && j < n ==> self@.segments[j] != pos,
            decreases n - i,
        {
            if self.segments[i] == pos {
                assert(self@.segments[i as int] == pos);
                return true;
            }
            i = i + 1;
        }
        false
    }

    pub fn self_collision(&self) -> (r: bool)
        requires
            self@.wf(),
        ensures
            r == self@.self_collides(),
    {
        let head = self.head();
        self.any_segment_from(1, head)
    }

    /// Check if a position collides with any body segment (not head)
    pub fn body_collision(&self, pos: GridPos) -> (r: bool)
        ensures
            r == self@.body_hits(pos),
    {
        self.any_segment_from(1, pos)
    }

    pub fn occupies(&self, pos: GridPos) -> (r: bool)
        ensures
            r == self@.occupies(pos),
    {
        self.any_segment_from(0, pos)
    }
}

/// Food item on the grid
#[derive(Debug, Clone, Copy)]
pub struct Food {
    pub pos: GridPos,
}

impl Food {
    pub fn new(x: i32, y: i32) -> (r: Self)
        ensures
            r.pos == (GridPos { x, y }),
    {
        Food { pos: GridPos { x, y } }
    }
}

/// Game state
#[derive(Debug, Clone, Copy, PartialEq, Eq, Hash, Structural)]
pub enum GameState {
    Home,
    NameEntry,
    Leaderboard,
    WaitingToStart,
    Countdown,
    Playing,
    GameOver,
}

impl Default for GameState {
    fn default() -> (r: Self)
        ensures
            r == GameState::WaitingToStart,
    {
        GameState::WaitingToStart
    }
}

/// Track alive snake count and rankings
#[derive(Debug, Clone, Copy, PartialEq, Eq, Structural)]
pub struct MatchState {
    pub alive_count: u32,
    pub total_snakes: u32,
}

impl Default for MatchState {
    fn default() -> (r: Self)
        ensures
            r == (MatchState { alive_count: 0, total_snakes: 0 }),
    {
        MatchState { alive_count: 0, total_snakes: 0 }
    }
}

/// Dynamic arena bounds (shrinks over time in battle royale)
#[derive(Debug, Clone, Copy, PartialEq, Eq, Structural)]
pub struct ArenaBounds {
    pub min_x: i32,
    pub min_y: i32,
    pub max_x: i32,  // exclusive
    pub max_y: i32,  // exclusive
}

/// The arena a match starts with: the grid inside its border walls.
pub open spec fn full_arena() -> ArenaBounds {
    ArenaBounds { min_x: 1, min_y: 1, max_x: (GRID_WIDTH - 1) as i32, max_y: (GRID_HEIGHT - 1) as i32 }
}

impl Default for ArenaBounds {
    fn default() -> (r: Self)
        ensures
            r == full_arena(),
    {
        ArenaBounds { min_x: 1, min_y: 1, max_x: GRID_WIDTH - 1, max_y: GRID_HEIGHT - 1 }
    }
}

impl ArenaBounds {
    pub open spec fn spec_contains(self, pos: GridPos) -> bool {
        self.min_x <= pos.x < self.max_x && self.min_y <= pos.y < self.max_y
    }

    /// Width and height as integers.
    pub open spec fn width(self) -> int {
        self.max_x - self.min_x
    }

    pub open spec fn height(self) -> int {
        self.max_y - self.min_y
    }

    /// `can_shrink` computes the width, and the height only when the width
    /// exceeds the minimum; each must be an `i32`.
    pub open spec fn size_fits(self) -> bool {
        fits_i32(self.width()) && (self.width() > 6 ==> fits_i32(self.height()))
    }

    pub open spec fn spec_can_shrink(self) -> bool {
        self.width() > 6 && self.height() > 6
    }

    /// The arena one ring smaller on every side.
    pub open spec fn shrunk(self) -> ArenaBounds {
        ArenaBounds {
            min_x: (self.min_x + 1) as i32,
            min_y: (self.min_y + 1) as i32,
            max_x: (self.max_x - 1) as i32,
            max_y: (self.max_y - 1) as i32,
        }
    }

    /// The arena after `shrink`: one ring smaller while above the minimum size.
    pub open spec fn after_shrink(self) -> ArenaBounds {
        if self.spec_can_shrink() {
            self.shrunk()
        } else {
            self
        }
    }

    /// The four distances from `pos` to the arena's edge cells.
    pub open spec fn edge_gaps(self, pos: GridPos) -> (int, int, int, int) {
        (pos.x - self.min_x, self.max_x - 1 - pos.x, pos.y - self.min_y, self.max_y - 1 - pos.y)
    }

    /// Every intermediate value of `wall_distance` is an `i32`.
    pub open spec fn wall_distance_fits(self, pos: GridPos) -> bool {
        &&& fits_i32(self.edge_gaps(pos).0)
        &&& fits_i32(self.max_x - 1)
        &&& fits_i32(self.edge_gaps(pos).1)
        &&& fits_i32(self.edge_gaps(pos).2)
        &&& fits_i32(self.max_y - 1)
        &&& fits_i32(self.edge_gaps(pos).3)
    }

    /// Distance from `pos` to the nearest arena edge cell (0 = on the edge).
    pub open spec fn spec_wall_distance(self, pos: GridPos) -> int {
        let g = self.edge_gaps(pos);
        min_int(min_int(g.0, g.1), min_int(g.2, g.3))
    }

    pub fn contains(&self, pos: GridPos) -> (r: bool)
        ensures
            r == self.spec_contains(pos),
    {
        pos.x >= self.min_x && pos.x < self.max_x && pos.y >= self.min_y && pos.y < self.max_y
    }

    /// Minimum size the arena can shrink to
    pub fn can_shrink(&self) -> (r: bool)
        requires
            self.size_fits(),
        ensures
            r == self.spec_can_shrink(),
    {
        (self.max_x - self.min_x) > 6 && (self.max_y - self.min_y) > 6
    }

    pub fn shrink(&mut self)
        requires
            old(self).size_fits(),
        ensures
            *final(self) == old(self).after_shrink(),
    {
        if self.can_shrink() {
            self.min_x += 1;
            self.min_y += 1;
            self.max_x -= 1;
            self.max_y -= 1;
        }
    }

    /// Distance from position to nearest arena wall (0 = on the wall)
    pub fn wall_distance(&self, pos: GridPos) -> (r: i32)
        requires
            self.wall_distance_fits(pos),
        ensures
            r == self.spec_wall_distance(pos),
    {
        let dx = min_i32(pos.x - self.min_x, self.max_x - 1 - pos.x);
        let dy = min_i32(pos.y - self.min_y, self.max_y - 1 - pos.y);
        min_i32(dx, dy)
    }
}

pub open spec fn min_int(a: int, b: int) -> int {
    if a <= b {
        a
    } else {
        b
    }
}

/// The smaller of two integers.
pub fn min_i32(a: i32, b: i32) -> (r: i32)
    ensures
        r == min_int(a as int, b as int),
{
    if a <= b {
        a
    } else {
        b
    }
}

} // verus!
