use vstd::prelude::*;

use crate::game::{
    ArenaBounds, Direction, Food, GridPos, Snake, SnakeId, SnakeView, fits_i32, manhattan, moved,
    offset_fits,
};
use crate::tick::views;

verus! {

/// AI personality affects decision-making
#[derive(Debug, Clone, Copy, PartialEq, Eq, Structural)]
pub enum AiPersonality {
    /// Prioritizes food
    Hungry,
    /// Stays far from walls and snakes
    Cautious,
    /// Tries to get near other snake heads (cut them off)
    Aggressive,
}

pub open spec fn spec_personality(id: u32) -> AiPersonality {
    if id % 3 == 0 {
        AiPersonality::Hungry
    } else if id % 3 == 1 {
        AiPersonality::Cautious
    } else {
        AiPersonality::Aggressive
    }
}

pub fn personality_for(id: u32) -> (r: AiPersonality)
    ensures
        r == spec_personality(id),
{
    match id % 3 {
        0 => AiPersonality::Hungry,
        1 => AiPersonality::Cautious,
        _ => AiPersonality::Aggressive,
    }
}

// ---------------------------------------------------------------------------
// What the AI sees and how it rates a move, stated over values
// ---------------------------------------------------------------------------

/// The snakes the AI steers around: the other snakes first, then the AI
/// snakes, each with its id. Only living ones count.
pub open spec fn crowd(
    others: Seq<SnakeView>,
    other_ids: Seq<SnakeId>,
    ais: Seq<SnakeView>,
    ai_ids: Seq<SnakeId>,
) -> Seq<(SnakeId, SnakeView)> {
    Seq::new(others.len(), |k: int| (other_ids[k], others[k])) + Seq::new(
        ais.len(),
        |k: int| (ai_ids[k], ais[k]),
    )
}

/// `pos` is taken by a living snake: by any segment of another snake, or by
/// a body segment (not the head) of the snake with the mover's id.
pub open spec fn taken(c: Seq<(SnakeId, SnakeView)>, my_id: SnakeId, pos: GridPos) -> bool {
    exists|k: int|
        0 <= k < c.len() && (#[trigger] c[k]).1.alive && (if c[k].0 == my_id {
            c[k].1.body_hits(pos)
        } else {
            c[k].1.occupies(pos)
        })
}

/// A cell the snake could be in without dying: inside the arena and free.
pub open spec fn safe(c: Seq<(SnakeId, SnakeView)>, my_id: SnakeId, b: ArenaBounds, pos: GridPos) -> bool {
    b.spec_contains(pos) && !taken(c, my_id, pos)
}

/// The `k`-th direction in the order `Up, Down, Left, Right`.
pub open spec fn dir_at(k: int) -> Direction {
    Direction::spec_all()[k]
}

/// From `next`, having come in direction `dir`, some direction that does not
/// reverse leads to a safe cell.
pub open spec fn has_exit(c: Seq<(SnakeId, SnakeView)>, my_id: SnakeId, b: ArenaBounds, next: GridPos, dir: Direction) -> bool {
    exists|e: int|
        0 <= e < 4 && dir_at(e) != dir.spec_opposite() && #[trigger] safe(c, my_id, b, moved(next, dir_at(e)))
}

/// Direction `dir` is a move the AI weighs: not a reversal, onto a safe cell,
/// from which the snake could go on.
pub open spec fn weighed(me: SnakeView, c: Seq<(SnakeId, SnakeView)>, my_id: SnakeId, b: ArenaBounds, dir: Direction) -> bool {
    let next = moved(me.head(), dir);
    &&& dir != me.direction.spec_opposite()
    &&& safe(c, my_id, b, next)
    &&& has_exit(c, my_id, b, next, dir)
}

/// Distance from `p` to the nearest of `foods[0..n]` (`n >= 1`).
pub open spec fn nearest_food(foods: Seq<Food>, p: GridPos, n: int) -> int
    decreases n,
{
    if n <= 1 {
        manhattan(foods[0].pos, p)
    } else {
        let rest = nearest_food(foods, p, n - 1);
        let d = manhattan(foods[n - 1].pos, p);
        if d < rest {
            d
        } else {
            rest
        }
    }
}

/// Integer division by two rounding toward zero (as `i32` division does).
pub open spec fn half_toward_zero(v: int) -> int {
    if v >= 0 {
        v / 2
    } else {
        -((-v) / 2)
    }
}

/// The food part of a move's rating: `100 - distance to the nearest food`,
/// doubled for the hungry, halved for the aggressive; nothing without food.
pub open spec fn food_rating(foods: Seq<Food>, p: GridPos, who: AiPersonality) -> int {
    if foods.len() == 0 {
        0
    } else {
        let fs = 100 - nearest_food(foods, p, foods.len() as int);
        match who {
            AiPersonality::Hungry => fs * 2,
            AiPersonality::Cautious => fs,
            AiPersonality::Aggressive => half_toward_zero(fs),
        }
    }
}

/// The wall part of a move's rating: the distance to the arena edge, weighted
/// five times for the cautious and twice for the others.
pub open spec fn wall_rating(b: ArenaBounds, p: GridPos, who: AiPersonality) -> int {
    b.spec_wall_distance(p) * if who == AiPersonality::Cautious {
        5int
    } else {
        2int
    }
}

/// The pull (aggressive) or push (cautious) of one other snake's head at
/// distance `d`.
pub open spec fn head_pull(d: int, who: AiPersonality) -> int {
    match who {
        AiPersonality::Aggressive => if d < 8 {
            (8 - d) * 4
        } else {
            0
        },
        AiPersonality::Cautious => if d < 6 {
            -(6 - d) * 3
        } else {
            0
        },
        AiPersonality::Hungry => 0,
    }
}

/// The crowd part of a move's rating, over `c[0..n]`: the pull or push of
/// every other living snake's head.
pub open spec fn crowd_rating(c: Seq<(SnakeId, SnakeView)>, my_id: SnakeId, p: GridPos, who: AiPersonality, n: int) -> int
    decreases n,
{
    if n <= 0 {
        0
    } else {
        crowd_rating(c, my_id, p, who, n - 1) + if c[n - 1].1.alive && c[n - 1].0 != my_id {
            head_pull(manhattan(p, c[n - 1].1.head()), who)
        } else {
            0
        }
    }
}

/// The rating of moving `dir`: food, walls, crowd, and 3 for keeping the
/// heading.
pub open spec fn rating(
    me: SnakeView,
    c: Seq<(SnakeId, SnakeView)>,
    my_id: SnakeId,
    foods: Seq<Food>,
    b: ArenaBounds,
    dir: Direction,
) -> int {
    let who = spec_personality(my_id.0);
    let next = moved(me.head(), dir);
    food_rating(foods, next, who) + wall_rating(b, next, who) + crowd_rating(c, my_id, next, who, c.len() as int)
        + if dir == me.direction {
        3int
    } else {
        0int
    }
}

/// Direction number `k` is the AI's pick: weighed, rated above `i32::MIN`, no
/// weighed move rates higher, and no earlier weighed move rates as high.
pub open spec fn is_pick(
    me: SnakeView,
    c: Seq<(SnakeId, SnakeView)>,
    my_id: SnakeId,
    foods: Seq<Food>,
    b: ArenaBounds,
    k: int,
) -> bool {
    &&& 0 <= k < 4
    &&& weighed(me, c, my_id, b, dir_at(k))
    &&& rating(me, c, my_id, foods, b, dir_at(k)) > i32::MIN
    &&& forall|q: int|
        0 <= q < 4 && #[trigger] weighed(me, c, my_id, b, dir_at(q)) ==> rating(me, c, my_id, foods, b, dir_at(q))
            <= rating(me, c, my_id, foods, b, dir_at(k))
    &&& forall|q: int|
        0 <= q < k && #[trigger] weighed(me, c, my_id, b, dir_at(q)) ==> rating(me, c, my_id, foods, b, dir_at(q))
            < rating(me, c, my_id, foods, b, dir_at(k))
}

/// The direction the AI steers to: its pick, or its current heading when no
/// move qualifies.
pub open spec fn ai_choice(
    me: SnakeView,
    c: Seq<(SnakeId, SnakeView)>,
    my_id: SnakeId,
    foods: Seq<Food>,
    b: ArenaBounds,
) -> Direction {
    if exists|k: int| is_pick(me, c, my_id, foods, b, k) {
        dir_at(choose|k: int| is_pick(me, c, my_id, foods, b, k))
    } else {
        me.direction
    }
}

// ---------------------------------------------------------------------------
// When the rating stays in `i32`
// ---------------------------------------------------------------------------

/// Every living snake has a head.
pub open spec fn crowd_wf(c: Seq<(SnakeId, SnakeView)>) -> bool {
    forall|k: int| 0 <= k < c.len() && (#[trigger] c[k]).1.alive ==> c[k].1.wf()
}

/// Exit direction number `e` is tried from `next`: it does not reverse `dir`
/// and no earlier direction was a way out.
pub open spec fn exit_tried(c: Seq<(SnakeId, SnakeView)>, my_id: SnakeId, b: ArenaBounds, next: GridPos, dir: Direction, e: int) -> bool {
    &&& dir_at(e) != dir.spec_opposite()
    &&& forall|q: int|
        0 <= q < e && dir_at(q) != dir.spec_opposite() ==> !#[trigger] safe(c, my_id, b, moved(next, dir_at(q)))
}

/// Every value the rating of move `dir` computes is an `i32`.
pub open spec fn rating_fits(
    me: SnakeView,
    c: Seq<(SnakeId, SnakeView)>,
    my_id: SnakeId,
    foods: Seq<Food>,
    b: ArenaBounds,
    dir: Direction,
) -> bool {
    let who = spec_personality(my_id.0);
    let next = moved(me.head(), dir);
    let s1 = food_rating(foods, next, who);
    let s2 = s1 + wall_rating(b, next, who);
    let s3 = s2 + crowd_rating(c, my_id, next, who, c.len() as int);
    &&& forall|f: int| 0 <= f < foods.len() ==> #[trigger] manhattan(foods[f].pos, next) <= i32::MAX
    &&& fits_i32(s1)
    &&& b.wall_distance_fits(next)
    &&& fits_i32(wall_rating(b, next, who))
    &&& fits_i32(s2)
    &&& who != AiPersonality::Hungry ==> forall|k: int|
        0 <= k < c.len() && (#[trigger] c[k]).1.alive && c[k].0 != my_id ==> manhattan(next, c[k].1.head())
            <= i32::MAX
    &&& fits_i32(s3)
    &&& fits_i32(s3 + 3)
}

/// Every value the AI computes while choosing for snake `me` is an `i32`.
pub open spec fn choice_fits(
    me: SnakeView,
    c: Seq<(SnakeId, SnakeView)>,
    my_id: SnakeId,
    foods: Seq<Food>,
    b: ArenaBounds,
) -> bool {
    &&& me.wf()
    &&& crowd_wf(c)
    &&& forall|k: int|
        0 <= k < 4 && dir_at(k) != me.direction.spec_opposite() ==> {
            let next = moved(me.head(), dir_at(k));
            &&& offset_fits(me.head(), #[trigger] dir_at(k))
            &&& safe(c, my_id, b, next) ==> forall|e: int|
                0 <= e < 4 && #[trigger] exit_tried(c, my_id, b, next, dir_at(k), e) ==> offset_fits(next, dir_at(e))
            &&& weighed(me, c, my_id, b, dir_at(k)) ==> rating_fits(me, c, my_id, foods, b, dir_at(k))
        }
}

// ---------------------------------------------------------------------------
// The AI, step by step
// ---------------------------------------------------------------------------

/// Direction number `k` in the order `Up, Down, Left, Right`.
fn direction_at(k: usize) -> (r: Direction)
    requires
        k < 4,
    ensures
        r == dir_at(k as int),
{
    match k {
        0 => Direction::Up,
        1 => Direction::Down,
        2 => Direction::Left,
        _ => Direction::Right,
    }
}

/// Member `k` of the crowd: an other snake first, then an AI snake.
fn member<'a>(
    others: &'a Vec<Snake>,
    other_ids: &Vec<SnakeId>,
    ais: &'a Vec<Snake>,
    ai_ids: &Vec<SnakeId>,
    k: usize,
) -> (r: (SnakeId, &'a Snake))
    requires
        other_ids@.len() == others@.len(),
        ai_ids@.len() == ais@.len(),
        others@.len() + ais@.len() <= usize::MAX,
        k < others@.len() + ais@.len(),
    ensures
        ({
            let c = crowd(views(others@), other_ids@, views(ais@), ai_ids@);
            r.0 == c[k as int].0 && r.1@ == c[k as int].1
        }),
{
    if k < others.len() {
        (other_ids[k], &others[k])
    } else {
        (ai_ids[k - others.len()], &ais[k - others.len()])
    }
}

/// Whether a living snake of the crowd takes `pos` (see `taken`).
fn is_taken(
    others: &Vec<Snake>,
    other_ids: &Vec<SnakeId>,
    ais: &Vec<Snake>,
    ai_ids: &Vec<SnakeId>,
    my_id: SnakeId,
    pos: GridPos,
) -> (r: bool)
    requires
        other_ids@.len() == others@.len(),
        ai_ids@.len() == ais@.len(),
        others@.len() + ais@.len() <= usize::MAX,
    ensures
        r == taken(crowd(views(others@), other_ids@, views(ais@), ai_ids@), my_id, pos),
{
    let ghost c = crowd(views(others@), other_ids@, views(ais@), ai_ids@);
    let n = others.len() + ais.len();
    let mut k: usize = 0;
    while k < n
        invariant
            other_ids@.len() == others@.len(),
            ai_ids@.len() == ais@.len(),
            others@.len() + ais@.len() <= usize::MAX,
            n == others@.len() + ais@.len(),
            c == crowd(views(others@), other_ids@, views(ais@), ai_ids@),
            c.len() == n,
            k <= n,
            forall|q: int|
                0 <= q < k ==> !((#[trigger] c[q]).1.alive && (if c[q].0 == my_id {
                    c[q].1.body_hits(pos)
                } else {
                    c[q].1.occupies(pos)
                })),
        decreases n - k,
    {
        let (id, s) = member(others, other_ids, ais, ai_ids, k);
        if s.alive {
            let hit = if id == my_id {
                s.body_collision(pos)
            } else {
                s.occupies(pos)
            };
            if hit {
                assert(c[k as int].1.alive);
                return true;
            }
        }
        k = k + 1;
    }
    false
}

/// Whether `pos` is inside the arena and free.
fn is_safe(
    others: &Vec<Snake>,
    other_ids: &Vec<SnakeId>,
    ais: &Vec<Snake>,
    ai_ids: &Vec<SnakeId>,
    my_id: SnakeId,
    bounds: &ArenaBounds,
    pos: GridPos,
) -> (r: bool)
    requires
        other_ids@.len() == others@.len(),
        ai_ids@.len() == ais@.len(),
        others@.len() + ais@.len() <= usize::MAX,
    ensures
        r == safe(crowd(views(others@), other_ids@, views(ais@), ai_ids@), my_id, *bounds, pos),
{
    bounds.contains(pos) && !is_taken(others, other_ids, ais, ai_ids, my_id, pos)
}

/// Whether a move onto `next` in direction `dir` leaves a way out.
fn find_exit(
    others: &Vec<Snake>,
    other_ids: &Vec<SnakeId>,
    ais: &Vec<Snake>,
    ai_ids: &Vec<SnakeId>,
    my_id: SnakeId,
    bounds: &ArenaBounds,
    next: GridPos,
    dir: Direction,
) -> (r: bool)
    requires
        other_ids@.len() == others@.len(),
        ai_ids@.len() == ais@.len(),
        others@.len() + ais@.len() <= usize::MAX,
        forall|e: int|
            0 <= e < 4 && #[trigger] exit_tried(
                crowd(views(others@), other_ids@, views(ais@), ai_ids@),
                my_id,
                *bounds,
                next,
                dir,
                e,
            ) ==> offset_fits(next, dir_at(e)),
    ensures
        r == has_exit(crowd(views(others@), other_ids@, views(ais@), ai_ids@), my_id, *bounds, next, dir),
{
    let ghost c = crowd(views(others@), other_ids@, views(ais@), ai_ids@);
    let back = dir.opposite();
    let mut e: usize = 0;
    while e < 4
        invariant
            other_ids@.len() == others@.len(),
            ai_ids@.len() == ais@.len(),
            others@.len() + ais@.len() <= usize::MAX,
            c == crowd(views(others@), other_ids@, views(ais@), ai_ids@),
            back == dir.spec_opposite(),
            forall|q: int|
                0 <= q < 4 && #[trigger] exit_tried(c, my_id, *bounds, next, dir, q) ==> offset_fits(
                    next,
                    dir_at(q),
                ),
            e <= 4,
            forall|q: int|
                0 <= q < e && dir_at(q) != dir.spec_opposite() ==> !#[trigger] safe(
                    c,
                    my_id,
                    *bounds,
                    moved(next, dir_at(q)),
                ),
        decreases 4 - e,
    {
        let exit_dir = direction_at(e);
        if exit_dir != back {
            assert(exit_tried(c, my_id, *bounds, next, dir, e as int));
            let exit_pos = next.step_toward(exit_dir);
            if is_safe(others, other_ids, ais, ai_ids, my_id, bounds, exit_pos) {
                assert(safe(c, my_id, *bounds, moved(next, dir_at(e as int))));
                return true;
            }
        }
        e = e + 1;
    }
    false
}

/// Distance from `p` to the nearest food.
fn nearest_food_distance(foods: &Vec<Food>, p: GridPos) -> (r: i32)
    requires
        foods@.len() > 0,
        forall|f: int| 0 <= f < foods@.len() ==> #[trigger] manhattan(foods@[f].pos, p) <= i32::MAX,
    ensures
        r == nearest_food(foods@, p, foods@.len() as int),
        r >= 0,
{
    let n = foods.len();
    let mut best = foods[0].pos.distance(p);
    let mut f: usize = 1;
    while f < n
        invariant
            n == foods@.len(),
            1 <= f <= n,
            forall|q: int| 0 <= q < foods@.len() ==> #[trigger] manhattan(foods@[q].pos, p) <= i32::MAX,
            best == nearest_food(foods@, p, f as int),
            best >= 0,
        decreases n - f,
    {
        let d = foods[f].pos.distance(p);
        if d < best {
            best = d;
        }
        f = f + 1;
    }
    best
}

/// The aggressive pull only adds and the cautious push only subtracts, so
/// the partial crowd ratings lie between zero and the whole.
proof fn lemma_crowd_rating_monotone(
    c: Seq<(SnakeId, SnakeView)>,
    my_id: SnakeId,
    p: GridPos,
    who: AiPersonality,
    n: int,
    total: int,
)
    requires
        0 <= n <= total,
    ensures
        who == AiPersonality::Aggressive ==> 0 <= crowd_rating(c, my_id, p, who, n) <= crowd_rating(
            c,
            my_id,
            p,
            who,
            total,
        ),
        who == AiPersonality::Cautious ==> 0 >= crowd_rating(c, my_id, p, who, n) >= crowd_rating(
            c,
            my_id,
            p,
            who,
            total,
        ),
    decreases total,
{
    if total > 0 {
        if n < total {
            lemma_crowd_rating_monotone(c, my_id, p, who, n, total - 1);
        } else {
            lemma_crowd_rating_monotone(c, my_id, p, who, n - 1, total - 1);
        }
    }
}

/// The hungry pay no attention to other snakes.
proof fn lemma_crowd_rating_hungry(c: Seq<(SnakeId, SnakeView)>, my_id: SnakeId, p: GridPos, n: int)
    ensures
        crowd_rating(c, my_id, p, AiPersonality::Hungry, n) == 0,
    decreases n,
{
    if n > 0 {
        lemma_crowd_rating_hungry(c, my_id, p, n - 1);
    }
}

/// The crowd part of the rating of a move onto `next`.
fn rate_crowd(
    others: &Vec<Snake>,
    other_ids: &Vec<SnakeId>,
    ais: &Vec<Snake>,
    ai_ids: &Vec<SnakeId>,
    my_id: SnakeId,
    who: AiPersonality,
    next: GridPos,
    base: i32,
) -> (r: i32)
    requires
        other_ids@.len() == others@.len(),
        ai_ids@.len() == ais@.len(),
        others@.len() + ais@.len() <= usize::MAX,
        who != AiPersonality::Hungry,
        ({
            let c = crowd(views(others@), other_ids@, views(ais@), ai_ids@);
            &&& crowd_wf(c)
            &&& forall|k: int|
                0 <= k < c.len() && (#[trigger] c[k]).1.alive && c[k].0 != my_id ==> manhattan(
                    next,
                    c[k].1.head(),
                ) <= i32::MAX
            &&& fits_i32(base + crowd_rating(c, my_id, next, who, c.len() as int))
        }),
    ensures
        r == base + crowd_rating(
            crowd(views(others@), other_ids@, views(ais@), ai_ids@),
            my_id,
            next,
            who,
            (others@.len() + ais@.len()) as int,
        ),
{
    let ghost c = crowd(views(others@), other_ids@, views(ais@), ai_ids@);
    let n = others.len() + ais.len();
    let mut score = base;
    let mut k: usize = 0;
    while k < n
        invariant
            other_ids@.len() == others@.len(),
            ai_ids@.len() == ais@.len(),
            n == others@.len() + ais@.len(),
            c == crowd(views(others@), other_ids@, views(ais@), ai_ids@),
            c.len() == n,
            who != AiPersonality::Hungry,
            crowd_wf(c),
            forall|q: int|
                0 <= q < c.len() && (#[trigger] c[q]).1.alive && c[q].0 != my_id ==> manhattan(
                    next,
                    c[q].1.head(),
                ) <= i32::MAX,
            fits_i32(base + crowd_rating(c, my_id, next, who, n as int)),
            k <= n,
            score == base + crowd_rating(c, my_id, next, who, k as int),
        decreases n - k,
    {
        let (id, s) = member(others, other_ids, ais, ai_ids, k);
        if s.alive && id != my_id {
            assert(c[k as int].1.alive);
            let dist = next.distance(s.head());
            proof {
                lemma_crowd_rating_monotone(c, my_id, next, who, k + 1, n as int);
            }
            if who == AiPersonality::Aggressive {
                if dist < 8 {
                    score = score + (8 - dist) * 4;
                }
            } else {
                if dist < 6 {
                    score = score - (6 - dist) * 3;
                }
            }
        }
        k = k + 1;
    }
    score
}

/// The rating of a weighed move in direction `dir` onto `next`.
fn rate_move(
    me: &Snake,
    my_id: SnakeId,
    others: &Vec<Snake>,
    other_ids: &Vec<SnakeId>,
    ais: &Vec<Snake>,
    ai_ids: &Vec<SnakeId>,
    foods: &Vec<Food>,
    bounds: &ArenaBounds,
    dir: Direction,
    next: GridPos,
) -> (r: i32)
    requires
        other_ids@.len() == others@.len(),
        ai_ids@.len() == ais@.len(),
        others@.len() + ais@.len() <= usize::MAX,
        me@.wf(),
        crowd_wf(crowd(views(others@), other_ids@, views(ais@), ai_ids@)),
        next == moved(me@.head(), dir),
        rating_fits(me@, crowd(views(others@), other_ids@, views(ais@), ai_ids@), my_id, foods@, *bounds, dir),
    ensures
        r == rating(me@, crowd(views(others@), other_ids@, views(ais@), ai_ids@), my_id, foods@, *bounds, dir),
{
    let ghost c = crowd(views(others@), other_ids@, views(ais@), ai_ids@);
    let who = personality_for(my_id.0);
    let mut score: i32 = 0;
    if foods.len() > 0 {
        let d = nearest_food_distance(foods, next);
        let fs = 100 - d;
        let part = match who {
            AiPersonality::Hungry => fs * 2,
            AiPersonality::Cautious => fs,
            AiPersonality::Aggressive => fs / 2,
        };
        score = score + part;
    }
    assert(score == food_rating(foods@, next, who));
    let wall_dist = bounds.wall_distance(next);
    let wall_part = if who == AiPersonality::Cautious {
        wall_dist * 5
    } else {
        wall_dist * 2
    };
    score = score + wall_part;
    if who != AiPersonality::Hungry {
        score = rate_crowd(others, other_ids, ais, ai_ids, my_id, who, next, score);
    } else {
        proof {
            lemma_crowd_rating_hungry(c, my_id, next, c.len() as int);
        }
    }
    if dir == me.direction {
        score = score + 3;
    }
    score
}

/// At most one direction number is the pick.
proof fn lemma_pick_unique(
    me: SnakeView,
    c: Seq<(SnakeId, SnakeView)>,
    my_id: SnakeId,
    foods: Seq<Food>,
    b: ArenaBounds,
    k1: int,
    k2: int,
)
    requires
        is_pick(me, c, my_id, foods, b, k1),
        is_pick(me, c, my_id, foods, b, k2),
    ensures
        k1 == k2,
{
    if k1 < k2 {
        assert(weighed(me, c, my_id, b, dir_at(k1)));
    } else if k2 < k1 {
        assert(weighed(me, c, my_id, b, dir_at(k2)));
    }
}

/// The direction the AI steers snake `me` to (see `ai_choice`).
pub fn choose_direction(
    me: &Snake,
    my_id: SnakeId,
    others: &Vec<Snake>,
    other_ids: &Vec<SnakeId>,
    ais: &Vec<Snake>,
    ai_ids: &Vec<SnakeId>,
    foods: &Vec<Food>,
    bounds: &ArenaBounds,
) -> (r: Direction)
    requires
        other_ids@.len() == others@.len(),
        ai_ids@.len() == ais@.len(),
        others@.len() + ais@.len() <= usize::MAX,
        choice_fits(me@, crowd(views(others@), other_ids@, views(ais@), ai_ids@), my_id, foods@, *bounds),
    ensures
        r == ai_choice(me@, crowd(views(others@), other_ids@, views(ais@), ai_ids@), my_id, foods@, *bounds),
{
    let ghost c = crowd(views(others@), other_ids@, views(ais@), ai_ids@);
    let head = me.head();
    let back = me.direction.opposite();
    let mut best_dir = me.direction;
    let mut best_score = i32::MIN;
    let ghost mut best_k: int = -1;
    let mut k: usize = 0;
    while k < 4
        invariant
            other_ids@.len() == others@.len(),
            ai_ids@.len() == ais@.len(),
            others@.len() + ais@.len() <= usize::MAX,
            c == crowd(views(others@), other_ids@, views(ais@), ai_ids@),
            choice_fits(me@, c, my_id, foods@, *bounds),
            head == me@.head(),
            back == me@.direction.spec_opposite(),
            k <= 4,
            -1 <= best_k < k,
            forall|q: int|
                0 <= q < k && #[trigger] weighed(me@, c, my_id, *bounds, dir_at(q)) ==> rating(
                    me@,
                    c,
                    my_id,
                    foods@,
                    *bounds,
                    dir_at(q),
                ) <= best_score,
            best_k == -1 ==> best_score == i32::MIN && best_dir == me@.direction,
            best_k >= 0 ==> {
                &&& best_dir == dir_at(best_k)
                &&& weighed(me@, c, my_id, *bounds, dir_at(best_k))
                &&& rating(me@, c, my_id, foods@, *bounds, dir_at(best_k)) == best_score
                &&& best_score > i32::MIN
                &&& forall|q: int|
                    0 <= q < best_k && #[trigger] weighed(me@, c, my_id, *bounds, dir_at(q)) ==> rating(
                        me@,
                        c,
                        my_id,
                        foods@,
                        *bounds,
                        dir_at(q),
                    ) < best_score
            },
        decreases 4 - k,
    {
        let dir = direction_at(k);
        if dir != back {
            assert(offset_fits(head, dir_at(k as int)));
            let next = head.step_toward(dir);
            if is_safe(others, other_ids, ais, ai_ids, my_id, bounds, next) {
                let exits = find_exit(others, other_ids, ais, ai_ids, my_id, bounds, next, dir);
                if exits {
                    assert(weighed(me@, c, my_id, *bounds, dir_at(k as int)));
                    let score = rate_move(me, my_id, others, other_ids, ais, ai_ids, foods, bounds, dir, next);
                    if score > best_score {
                        best_score = score;
                        best_dir = dir;
                        proof {
                            best_k = k as int;
                        }
                    }
                }
            }
        }
        k = k + 1;
    }
    proof {
        if best_k >= 0 {
            assert(is_pick(me@, c, my_id, foods@, *bounds, best_k));
            let kk = choose|kk: int| is_pick(me@, c, my_id, foods@, *bounds, kk);
            lemma_pick_unique(me@, c, my_id, foods@, *bounds, best_k, kk);
        } else {
            assert forall|kk: int| !is_pick(me@, c, my_id, foods@, *bounds, kk) by {
                if 0 <= kk < 4 && weighed(me@, c, my_id, *bounds, dir_at(kk)) {
                    assert(rating(me@, c, my_id, foods@, *bounds, dir_at(kk)) <= best_score);
                }
            }
        }
    }
    best_dir
}

/// Every AI snake's choice stays in `i32` arithmetic.
pub open spec fn ai_tick_ready(
    ais: Seq<SnakeView>,
    ai_ids: Seq<SnakeId>,
    others: Seq<SnakeView>,
    other_ids: Seq<SnakeId>,
    foods: Seq<Food>,
    b: ArenaBounds,
) -> bool {
    &&& ai_ids.len() == ais.len()
    &&& other_ids.len() == others.len()
    &&& others.len() + ais.len() <= usize::MAX
    &&& forall|i: int|
        0 <= i < ais.len() && #[trigger] ais[i].alive ==> choice_fits(
            ais[i],
            crowd(others, other_ids, ais, ai_ids),
            ai_ids[i],
            foods,
            b,
        )
}

/// AI with varied personalities: each living AI snake turns toward its
/// choice (see `ai_choice`), every choice made on the positions before any
/// snake turns.
pub fn ai_tick(
    ais: &mut Vec<Snake>,
    ai_ids: &Vec<SnakeId>,
    others: &Vec<Snake>,
    other_ids: &Vec<SnakeId>,
    foods: &Vec<Food>,
    bounds: &ArenaBounds,
)
    requires
        ai_tick_ready(views(old(ais)@), ai_ids@, views(others@), other_ids@, foods@, *bounds),
    ensures
        final(ais)@.len() == old(ais)@.len(),
        forall|i: int|
            0 <= i < old(ais)@.len() ==> #[trigger] final(ais)@[i]@ == if old(ais)@[i]@.alive {
                old(ais)@[i]@.turned(
                    ai_choice(
                        old(ais)@[i]@,
                        crowd(views(others@), other_ids@, views(old(ais)@), ai_ids@),
                        ai_ids@[i],
                        foods@,
                        *bounds,
                    ),
                )
            } else {
                old(ais)@[i]@
            },
{
    let ghost pre = views(ais@);
    let ghost c = crowd(views(others@), other_ids@, pre, ai_ids@);
    let n = ais.len();
    let mut choices: Vec<Option<Direction>> = Vec::new();
    let mut i: usize = 0;
    while i < n
        invariant
            n == ais@.len(),
            pre == views(ais@),
            c == crowd(views(others@), other_ids@, views(ais@), ai_ids@),
            ai_tick_ready(pre, ai_ids@, views(others@), other_ids@, foods@, *bounds),
            i <= n,
            choices@.len() == i,
            forall|q: int|
                0 <= q < i ==> #[trigger] choices@[q] == if pre[q].alive {
                    Some(ai_choice(pre[q], c, ai_ids@[q], foods@, *bounds))
                } else {
                    None
                },
        decreases n - i,
    {
        assert(ais@[i as int]@ == pre[i as int]);
        if ais[i].alive {
            assert(pre[i as int].alive);
            assert(choice_fits(pre[i as int], c, ai_ids@[i as int], foods@, *bounds));
            let d = choose_direction(&ais[i], ai_ids[i], others, other_ids, ais, ai_ids, foods, bounds);
            choices.push(Some(d));
        } else {
            choices.push(None);
        }
        i = i + 1;
    }
    let mut j: usize = 0;
    while j < n
        invariant
            n == ais@.len(),
            pre.len() == n,
            ai_ids@.len() == n,
            choices@.len() == n,
            forall|q: int|
                0 <= q < n ==> #[trigger] choices@[q] == if pre[q].alive {
                    Some(ai_choice(pre[q], c, ai_ids@[q], foods@, *bounds))
                } else {
                    None
                },
            j <= n,
            forall|q: int|
                0 <= q < j ==> #[trigger] ais@[q]@ == if pre[q].alive {
                    pre[q].turned(ai_choice(pre[q], c, ai_ids@[q], foods@, *bounds))
                } else {
                    pre[q]
                },
            forall|q: int| j <= q < n ==> #[trigger] ais@[q]@ == pre[q],
        decreases n - j,
    {
        match choices[j] {
            Some(d) => {
                ais[j].set_direction(d);
            },
            None => {},
        }
        j = j + 1;
    }
}

} // verus!
