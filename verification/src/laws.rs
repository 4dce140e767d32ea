use vstd::prelude::*;

use crate::game::{ArenaBounds, Direction, GridPos, SnakeId, SnakeView, full_arena, manhattan, moved};
use crate::ai::{ai_choice, dir_at, is_pick, nearest_food, weighed};
use crate::flow::{FlowEvent, spec_next_state};
use crate::game::{Food, GameState, initial_segments};
use crate::menu::{
    LEADERBOARD_SIZE, LeaderboardEntry, NAME_MAX_CHARS, NameKey, after_keys, entries_after_add, lemma_trimmed_len,
    alphanumeric, lemma_typed_bounded, name_char, shown_name, typed,
};
use crate::ranking::{listed_before, outranks, ranked};
use crate::spawn::{opening_food, spec_spawn_positions};
use crate::wav::{pcm_data, wav_header};
use crate::autotest::{AutoTestMoment, AutoTestView, after_moment, countdown_shots, gameover_shots, play_shots, take};
use crate::tick::{
    after_tick, bites_body_of, credits, dies, eaten_count, interior_drawable, killer_of, moved_all, refill_count,
    refill_food, state_after,
};
use crate::rng::{lcg_next, lcg_output};
use crate::constants::{GRID_HEIGHT, GRID_WIDTH, NUM_FOOD};

verus! {

// ---------------------------------------------------------------------------
// The arena
// ---------------------------------------------------------------------------

/// Shrinking never grows the arena: every edge stays or moves inward.
pub proof fn law_shrink_never_grows(b: ArenaBounds)
    ensures
        b.after_shrink().min_x >= b.min_x,
        b.after_shrink().min_y >= b.min_y,
        b.after_shrink().max_x <= b.max_x,
        b.after_shrink().max_y <= b.max_y,
{
}

/// A cell inside the arena after a shrink was inside before it.
pub proof fn law_shrink_keeps_inside_inside(b: ArenaBounds, pos: GridPos)
    ensures
        b.after_shrink().spec_contains(pos) ==> b.spec_contains(pos),
{
}

/// Once the arena cannot shrink, shrinking leaves it as it is.
pub proof fn law_shrink_stops_at_minimum(b: ArenaBounds)
    requires
        !b.spec_can_shrink(),
    ensures
        b.after_shrink() == b,
{
}

/// A shrink takes exactly one cell off every side, so the width and height
/// each lose two.
pub proof fn law_shrink_removes_one_ring(b: ArenaBounds)
    requires
        b.spec_can_shrink(),
    ensures
        b.after_shrink().width() == b.width() - 2,
        b.after_shrink().height() == b.height() - 2,
{
}

/// The cells that a shrink removes are exactly those on the old arena's edge:
/// a cell of the old arena stays inside iff its wall distance was at least one.
pub proof fn law_shrink_removes_edge_cells(b: ArenaBounds, pos: GridPos)
    requires
        b.spec_can_shrink(),
        b.spec_contains(pos),
    ensures
        b.after_shrink().spec_contains(pos) <==> b.spec_wall_distance(pos) >= 1,
{
}

/// Shrinking from the full arena reaches the minimum size (6 by 6) after
/// `(width - 6) / 2` shrinks, and stops there.
pub proof fn law_full_arena_shrinks_to_six()
    ensures
        full_arena().width() == 38,
        shrink_times(full_arena(), 16).width() == 6,
        shrink_times(full_arena(), 16).height() == 6,
        !shrink_times(full_arena(), 16).spec_can_shrink(),
        forall|k: nat| k < 16 ==> #[trigger] shrink_times(full_arena(), k).spec_can_shrink(),
{
    assert forall|k: nat| k <= 16 implies #[trigger] shrink_times(full_arena(), k).width() == 38 - 2 * k
        && shrink_times(full_arena(), k).height() == 38 - 2 * k by {
        lemma_shrink_times_full(k);
    }
    assert forall|k: nat| k < 16 implies #[trigger] shrink_times(full_arena(), k).spec_can_shrink() by {
        lemma_shrink_times_full(k);
    }
    lemma_shrink_times_full(16);
}

/// The arena after `k` shrinks.
pub open spec fn shrink_times(b: ArenaBounds, k: nat) -> ArenaBounds
    decreases k,
{
    if k == 0 {
        b
    } else {
        shrink_times(b, (k - 1) as nat).after_shrink()
    }
}

proof fn lemma_shrink_times_full(k: nat)
    requires
        k <= 16,
    ensures
        shrink_times(full_arena(), k).width() == 38 - 2 * k,
        shrink_times(full_arena(), k).height() == 38 - 2 * k,
        shrink_times(full_arena(), k).min_x == 1 + k,
        shrink_times(full_arena(), k).min_y == 1 + k,
    decreases k,
{
    if k > 0 {
        lemma_shrink_times_full((k - 1) as nat);
    }
}

// ---------------------------------------------------------------------------
// A snake
// ---------------------------------------------------------------------------

/// A turn request never queues a reversal of the current heading, so a snake
/// whose queued direction is not a reversal keeps it so, whatever it is asked.
pub proof fn law_no_reversal(s: SnakeView, dir: Direction)
    requires
        s.next_direction != s.direction.spec_opposite(),
    ensures
        s.turned(dir).next_direction != s.turned(dir).direction.spec_opposite(),
{
}

/// After a step the snake heads where it had queued, and that direction is not
/// a reversal of the heading it had.
pub proof fn law_step_never_reverses(s: SnakeView)
    requires
        s.next_direction != s.direction.spec_opposite(),
    ensures
        s.stepped().direction != s.direction.spec_opposite(),
{
}

/// A step moves the head one cell, and the rest of the body follows: each
/// segment takes the place of the one before it.
pub proof fn law_step_body_follows(s: SnakeView)
    requires
        s.can_step(),
    ensures
        manhattan(s.head(), s.stepped().head()) == 1,
        forall|k: int| 0 <= k < s.segments.len() - 1 ==> #[trigger] s.stepped().segments[k + 1] == s.segments[k],
{
}

/// A step keeps the length while no growth is pending and adds one segment
/// (using up one unit of growth) otherwise.
pub proof fn law_step_growth(s: SnakeView)
    requires
        s.can_step(),
    ensures
        s.grow_pending == 0 ==> s.stepped().segments.len() == s.segments.len(),
        s.grow_pending > 0 ==> s.stepped().segments.len() == s.segments.len() + 1 && s.stepped().grow_pending
            == s.grow_pending - 1,
{
}

// ---------------------------------------------------------------------------
// A game tick
// ---------------------------------------------------------------------------

/// A dead snake stays dead and does not move: its body, heading and score are
/// as they were.
pub proof fn law_dead_snakes_dont_move(
    pre: Seq<SnakeView>,
    ids: Seq<SnakeId>,
    b: ArenaBounds,
    foods: Seq<Food>,
    j: int,
)
    requires
        0 <= j < pre.len(),
        !pre[j].alive,
    ensures
        !after_tick(moved_all(pre), ids, b, foods, j).alive,
        after_tick(moved_all(pre), ids, b, foods, j).segments == pre[j].segments,
        after_tick(moved_all(pre), ids, b, foods, j).direction == pre[j].direction,
        after_tick(moved_all(pre), ids, b, foods, j).score == pre[j].score,
        after_tick(moved_all(pre), ids, b, foods, j).grow_pending == pre[j].grow_pending,
{
}

/// Every snake alive after a tick was alive before it, has its head inside the
/// arena, and moved its head exactly one cell.
pub proof fn law_survivors_in_arena_one_step(
    pre: Seq<SnakeView>,
    ids: Seq<SnakeId>,
    b: ArenaBounds,
    foods: Seq<Food>,
    j: int,
)
    requires
        0 <= j < pre.len(),
        pre[j].can_step(),
        after_tick(moved_all(pre), ids, b, foods, j).alive,
    ensures
        pre[j].alive,
        b.spec_contains(after_tick(moved_all(pre), ids, b, foods, j).head()),
        after_tick(moved_all(pre), ids, b, foods, j).head() == moved(pre[j].head(), pre[j].next_direction),
        manhattan(pre[j].head(), after_tick(moved_all(pre), ids, b, foods, j).head()) == 1,
{
}

/// Scores and kill counts never decrease over a tick (when they stay in `u32`).
pub proof fn law_counters_never_decrease(
    pre: Seq<SnakeView>,
    ids: Seq<SnakeId>,
    b: ArenaBounds,
    foods: Seq<Food>,
    j: int,
)
    requires
        0 <= j < pre.len(),
        crate::tick::counters_fit(moved_all(pre), ids, b, foods),
    ensures
        after_tick(moved_all(pre), ids, b, foods, j).score >= pre[j].score,
        after_tick(moved_all(pre), ids, b, foods, j).kills >= pre[j].kills,
{
    assert(moved_all(pre)[j].score == pre[j].score);
    assert(moved_all(pre)[j].kills == pre[j].kills);
}

/// A snake is never credited with its own death: the killer of a snake is a
/// snake with another id, whose body the dead snake's head landed on.
pub proof fn law_no_self_credit(m: Seq<SnakeView>, ids: Seq<SnakeId>, b: ArenaBounds, i: int)
    requires
        ids.len() == m.len(),
        0 <= i < m.len(),
        killer_of(m, ids, b, i) is Some,
    ensures
        killer_of(m, ids, b, i)->0 != ids[i],
        exists|j: int|
            0 <= j < m.len() && ids[j] == killer_of(m, ids, b, i)->0 && #[trigger] bites_body_of(m, ids, i, j),
{
    crate::tick::lemma_first_biter_found(m, ids, i);
}

/// Number of deaths among snakes `0..n` with someone credited.
pub open spec fn credited_deaths(m: Seq<SnakeView>, ids: Seq<SnakeId>, b: ArenaBounds, n: int) -> nat
    decreases n,
{
    if n <= 0 {
        0
    } else {
        credited_deaths(m, ids, b, n - 1) + if dies(m, ids, b, n - 1) && killer_of(m, ids, b, n - 1) is Some {
            1nat
        } else {
            0nat
        }
    }
}

/// The kill credits of snakes `0..k`, each counted over the deaths `0..n`.
pub open spec fn credit_sum(m: Seq<SnakeView>, ids: Seq<SnakeId>, b: ArenaBounds, n: int, k: int) -> nat
    decreases k,
{
    if k <= 0 {
        0
    } else {
        credit_sum(m, ids, b, n, k - 1) + credits(m, ids, b, ids[k - 1], n)
    }
}

/// How many of `ids[0..k]` equal `id`.
pub open spec fn id_count(ids: Seq<SnakeId>, id: SnakeId, k: int) -> nat
    decreases k,
{
    if k <= 0 {
        0
    } else {
        id_count(ids, id, k - 1) + if ids[k - 1] == id {
            1nat
        } else {
            0nat
        }
    }
}

proof fn lemma_id_count_distinct(ids: Seq<SnakeId>, j: int, k: int)
    requires
        0 <= j < ids.len(),
        0 <= k <= ids.len(),
        forall|a: int, c: int| 0 <= a < c < ids.len() ==> ids[a] != ids[c],
    ensures
        id_count(ids, ids[j], k) == if j < k {
            1nat
        } else {
            0nat
        },
    decreases k,
{
    if k > 0 {
        lemma_id_count_distinct(ids, j, k - 1);
    }
}

/// Adding death `n` to the count adds, over snakes `0..k`, one credit per
/// snake carrying the killer's id.
proof fn lemma_credit_sum_step(m: Seq<SnakeView>, ids: Seq<SnakeId>, b: ArenaBounds, n: int, k: int)
    requires
        0 <= n,
        0 <= k <= ids.len(),
    ensures
        credit_sum(m, ids, b, n + 1, k) == credit_sum(m, ids, b, n, k) + if dies(m, ids, b, n) && killer_of(
            m,
            ids,
            b,
            n,
        ) is Some {
            id_count(ids, killer_of(m, ids, b, n)->0, k)
        } else {
            0nat
        },
    decreases k,
{
    if k > 0 {
        lemma_credit_sum_step(m, ids, b, n, k - 1);
    }
}

/// With distinct ids, the kills credited over a tick add up to the deaths
/// with a killer: each such death is credited to exactly one snake.
pub proof fn law_kill_credits_add_up(m: Seq<SnakeView>, ids: Seq<SnakeId>, b: ArenaBounds)
    requires
        ids.len() == m.len(),
        forall|a: int, c: int| 0 <= a < c < ids.len() ==> ids[a] != ids[c],
    ensures
        credit_sum(m, ids, b, m.len() as int, m.len() as int) == credited_deaths(m, ids, b, m.len() as int),
{
    lemma_credit_sum_upto(m, ids, b, m.len() as int);
}

proof fn lemma_credit_sum_upto(m: Seq<SnakeView>, ids: Seq<SnakeId>, b: ArenaBounds, n: int)
    requires
        ids.len() == m.len(),
        0 <= n <= m.len(),
        forall|a: int, c: int| 0 <= a < c < ids.len() ==> ids[a] != ids[c],
    ensures
        credit_sum(m, ids, b, n, m.len() as int) == credited_deaths(m, ids, b, n),
    decreases n,
{
    if n == 0 {
        lemma_credit_sum_zero(m, ids, b, m.len() as int);
    } else {
        lemma_credit_sum_upto(m, ids, b, n - 1);
        lemma_credit_sum_step(m, ids, b, n - 1, m.len() as int);
        if dies(m, ids, b, n - 1) && killer_of(m, ids, b, n - 1) is Some {
            law_no_self_credit(m, ids, b, n - 1);
            let j = choose|j: int|
                0 <= j < m.len() && ids[j] == killer_of(m, ids, b, n - 1)->0 && #[trigger] bites_body_of(
                    m,
                    ids,
                    n - 1,
                    j,
                );
            lemma_id_count_distinct(ids, j, m.len() as int);
        }
    }
}

proof fn lemma_credit_sum_zero(m: Seq<SnakeView>, ids: Seq<SnakeId>, b: ArenaBounds, k: int)
    requires
        0 <= k,
    ensures
        credit_sum(m, ids, b, 0, k) == 0,
    decreases k,
{
    if k > 0 {
        lemma_credit_sum_zero(m, ids, b, k - 1);
    }
}

/// At most `n` of the first `n` foods are eaten.
proof fn lemma_eaten_count_bounded(m: Seq<SnakeView>, ids: Seq<SnakeId>, b: ArenaBounds, foods: Seq<Food>, n: int)
    requires
        0 <= n,
    ensures
        eaten_count(m, ids, b, foods, n) <= n,
    decreases n,
{
    if n > 0 {
        lemma_eaten_count_bounded(m, ids, b, foods, n - 1);
    }
}

/// A tick tops the field up: the food left uneaten and the food placed
/// together make `NUM_FOOD`, or the food left if that is more.
pub proof fn law_food_refilled(m: Seq<SnakeView>, ids: Seq<SnakeId>, b: ArenaBounds, foods: Seq<Food>)
    ensures
        ({
            let left = foods.len() - eaten_count(m, ids, b, foods, foods.len() as int);
            &&& 0 <= left
            &&& left + refill_count(m, ids, b, foods) == if left < NUM_FOOD {
                NUM_FOOD as int
            } else {
                left
            }
        }),
{
    lemma_eaten_count_bounded(m, ids, b, foods, foods.len() as int);
}

/// Food placed by a tick lies inside the arena and off its edge cells.
pub proof fn law_refill_inside_arena(s: u64, b: ArenaBounds, t: int)
    requires
        interior_drawable(b),
    ensures
        b.min_x + 1 <= refill_food(s, b, t).x < b.max_x - 1,
        b.min_y + 1 <= refill_food(s, b, t).y < b.max_y - 1,
        b.spec_contains(refill_food(s, b, t)),
{
    let vx = lcg_output(lcg_next(state_after(s, (2 * t) as nat))) as int;
    let vy = lcg_output(lcg_next(state_after(s, (2 * t + 1) as nat))) as int;
    let dx = (b.max_x - 1) - (b.min_x + 1);
    let dy = (b.max_y - 1) - (b.min_y + 1);
    assert(0 <= vx % dx < dx) by (nonlinear_arith)
        requires
            dx > 0,
            vx >= 0,
    ;
    assert(0 <= vy % dy < dy) by (nonlinear_arith)
        requires
            dy > 0,
            vy >= 0,
    ;
}

/// A living snake whose new head is inside the arena, off its own body, and
/// off every segment of every other living snake survives the tick: a dead
/// snake's body (or anything else) does not kill it.
pub proof fn law_clear_head_survives(
    m: Seq<SnakeView>,
    ids: Seq<SnakeId>,
    b: ArenaBounds,
    foods: Seq<Food>,
    i: int,
)
    requires
        ids.len() == m.len(),
        0 <= i < m.len(),
        m[i].alive,
        m[i].segments.len() > 0,
        b.min_x <= m[i].segments[0].x < b.max_x,
        b.min_y <= m[i].segments[0].y < b.max_y,
        forall|k: int| 1 <= k < m[i].segments.len() ==> #[trigger] m[i].segments[k] != m[i].segments[0],
        forall|j: int, k: int|
            0 <= j < m.len() && m[j].alive && ids[j] != ids[i] && 0 <= k < m[j].segments.len() ==> #[trigger] m[j].segments[k]
                != m[i].segments[0],
        forall|j: int| 0 <= j < m.len() && m[j].alive ==> m[j].segments.len() > 0,
    ensures
        after_tick(m, ids, b, foods, i).alive,
{
    if dies(m, ids, b, i) {
        if crate::tick::bites_some_body(m, ids, i) {
            let j = choose|j: int| 0 <= j < m.len() && bites_body_of(m, ids, i, j);
            let k = choose|k: int| 1 <= k < m[j].segments.len() && m[j].segments[k] == m[i].head();
            assert(m[j].segments[k] != m[i].segments[0]);
        }
        if crate::tick::meets_some_head(m, ids, i) {
            let j = choose|j: int| 0 <= j < m.len() && crate::tick::heads_meet(m, ids, i, j);
            assert(m[j].segments[0] != m[i].segments[0]);
        }
    }
}

/// With no id used twice, nobody's death is credited to snake `j` when it
/// is dead: no owner of a body that kills is dead.
proof fn lemma_no_credit_to_dead(m: Seq<SnakeView>, ids: Seq<SnakeId>, b: ArenaBounds, j: int, n: int)
    requires
        ids.len() == m.len(),
        0 <= j < m.len(),
        !m[j].alive,
        forall|p: int, q: int| 0 <= p < q < ids.len() ==> ids[p] != ids[q],
        n <= m.len(),
    ensures
        credits(m, ids, b, ids[j], n) == 0,
    decreases n,
{
    if n > 0 {
        lemma_no_credit_to_dead(m, ids, b, j, n - 1);
        let i = n - 1;
        if dies(m, ids, b, i) && killer_of(m, ids, b, i) == Some(ids[j]) {
            crate::tick::lemma_first_biter_found(m, ids, i);
            let f = crate::tick::first_biter_from(m, ids, i, 0);
            assert(m[f].alive);
            assert(f != j);
            if f < j {
                assert(ids[f] != ids[j]);
            } else {
                assert(ids[j] != ids[f]);
            }
        }
    }
}

/// A dead snake is never credited a kill (with no id used twice): its kill
/// count is the same after the tick.
pub proof fn law_dead_never_credited(m: Seq<SnakeView>, ids: Seq<SnakeId>, b: ArenaBounds, foods: Seq<Food>, j: int)
    requires
        ids.len() == m.len(),
        0 <= j < m.len(),
        !m[j].alive,
        forall|p: int, q: int| 0 <= p < q < ids.len() ==> ids[p] != ids[q],
    ensures
        after_tick(m, ids, b, foods, j).kills == m[j].kills,
{
    lemma_no_credit_to_dead(m, ids, b, j, m.len() as int);
}

// ---------------------------------------------------------------------------
// A new match
// ---------------------------------------------------------------------------

/// Every snake of a new match starts wholly inside the arena.
pub proof fn law_spawns_inside_arena(i: int, k: int)
    requires
        0 <= i < 10,
        0 <= k < 5,
    ensures
        ({
            let (x, y, d) = spec_spawn_positions()[i];
            full_arena().spec_contains(initial_segments(x, y, d)[k])
        }),
{
    assert(spec_spawn_positions().len() == 10);
}

/// The food of a new match lies inside the arena, off its edge cells.
pub proof fn law_opening_food_inside_arena(s: u64, t: int)
    ensures
        2 <= opening_food(s, t).x < GRID_WIDTH - 2,
        2 <= opening_food(s, t).y < GRID_HEIGHT - 2,
        full_arena().spec_contains(opening_food(s, t)),
{
    let vx = lcg_output(lcg_next(state_after(s, (2 * t) as nat))) as int;
    let vy = lcg_output(lcg_next(state_after(s, (2 * t + 1) as nat))) as int;
    assert(0 <= vx % 36 < 36);
    assert(0 <= vy % 36 < 36);
}

/// No two snakes of a new match share a cell.
pub proof fn law_spawns_disjoint(i: int, j: int, k: int, l: int)
    requires
        0 <= i < j < 10,
        0 <= k < 5,
        0 <= l < 5,
    ensures
        ({
            let (xi, yi, di) = spec_spawn_positions()[i];
            let (xj, yj, dj) = spec_spawn_positions()[j];
            initial_segments(xi, yi, di)[k] != initial_segments(xj, yj, dj)[l]
        }),
{
    assert(spec_spawn_positions().len() == 10);
}

// ---------------------------------------------------------------------------
// Rankings, leaderboard, names
// ---------------------------------------------------------------------------

/// In the rankings every living snake comes before every dead one.
pub proof fn law_alive_ranked_first(s: Seq<SnakeView>, order: Seq<usize>, p: int, q: int)
    requires
        ranked(s, order),
        0 <= p < order.len(),
        0 <= q < order.len(),
        s[order[p] as int].alive,
        !s[order[q] as int].alive,
    ensures
        p < q,
{
    if q < p {
        assert(listed_before(s, order[q] as int, order[p] as int));
    }
}

/// The ranking of a set of snakes is unique: two rankings are the same list.
pub proof fn law_ranking_unique(s: Seq<SnakeView>, o1: Seq<usize>, o2: Seq<usize>)
    requires
        ranked(s, o1),
        ranked(s, o2),
    ensures
        o1 == o2,
{
    assert forall|p: int| 0 <= p < o1.len() implies o1[p] == o2[p] by {
        lemma_rank_position(s, o1, p);
        lemma_rank_position(s, o2, p);
        lemma_rank_count_unique(s, o1, o2, p);
    }
    assert(o1 =~= o2);
}

/// The snakes listed before place `p` are exactly those listed before the
/// snake at place `p` (so `p` counts them).
proof fn lemma_rank_position(s: Seq<SnakeView>, o: Seq<usize>, p: int)
    requires
        ranked(s, o),
        0 <= p < o.len(),
    ensures
        forall|i: int| 0 <= i < s.len() ==> (listed_before(s, i, o[p] as int) <==> exists|q: int| 0 <= q < p && o[q] == i),
{
    assert forall|i: int| 0 <= i < s.len() implies (listed_before(s, i, o[p] as int) <==> exists|q: int|
        0 <= q < p && o[q] == i) by {
        assert(o.contains(i as usize));
        let w = choose|w: int| 0 <= w < o.len() && o[w] == i as usize;
        assert(o[w] as int == i);
        if w < p {
            assert(listed_before(s, o[w] as int, o[p] as int));
            assert(0 <= w < p && o[w] == i);
        } else if w == p {
            crate::ranking::lemma_listed_before_order(s, i, i, i);
            assert forall|q: int| 0 <= q < p implies o[q] != i by {
                assert(listed_before(s, o[q] as int, o[p] as int));
            }
        } else {
            assert(listed_before(s, o[p] as int, o[w] as int));
            crate::ranking::lemma_listed_before_order(s, i, o[p] as int, o[p] as int);
            crate::ranking::lemma_listed_before_order(s, i, i, i);
            assert forall|q: int| 0 <= q < p implies o[q] != i by {
                assert(listed_before(s, o[q] as int, o[w] as int));
            }
        }
    }
}

proof fn lemma_rank_count_unique(s: Seq<SnakeView>, o1: Seq<usize>, o2: Seq<usize>, p: int)
    requires
        ranked(s, o1),
        ranked(s, o2),
        0 <= p < o1.len(),
        forall|i: int| 0 <= i < s.len() ==> (listed_before(s, i, o1[p] as int) <==> exists|q: int| 0 <= q < p && o1[q] == i),
        forall|i: int| 0 <= i < s.len() ==> (listed_before(s, i, o2[p] as int) <==> exists|q: int| 0 <= q < p && o2[q] == i),
    ensures
        o1[p] == o2[p],
{
    let a = o1[p] as int;
    let c = o2[p] as int;
    if a != c {
        crate::ranking::lemma_listed_before_order(s, a, c, c);
        lemma_prefix_sets(s, o1, o2, p, a, c);
        lemma_prefix_sets(s, o2, o1, p, c, a);
    }
}

/// The snake at place `p` of `o1` is not listed before the one at place `p`
/// of `o2`: otherwise the `p` snakes before the latter would include the
/// former and the `p` snakes before it.
proof fn lemma_prefix_sets(s: Seq<SnakeView>, o1: Seq<usize>, o2: Seq<usize>, p: int, a: int, c: int)
    requires
        ranked(s, o1),
        ranked(s, o2),
        0 <= p < o1.len(),
        a == o1[p] as int,
        c == o2[p] as int,
        a != c,
        forall|i: int| 0 <= i < s.len() ==> (listed_before(s, i, a) <==> exists|q: int| 0 <= q < p && o1[q] == i),
        forall|i: int| 0 <= i < s.len() ==> (listed_before(s, i, c) <==> exists|q: int| 0 <= q < p && o2[q] == i),
    ensures
        !listed_before(s, a, c),
{
    if listed_before(s, a, c) {
        let before_c = o2.take(p).to_set();
        let before_a = o1.take(p).to_set();
        assert forall|i: usize| before_a.contains(i) implies before_c.contains(i) by {
            let q = choose|q: int| 0 <= q < p && o1.take(p)[q] == i;
            assert(o1[q] == i);
            assert(listed_before(s, i as int, a));
            crate::ranking::lemma_listed_before_order(s, i as int, a, c);
            let r = choose|r: int| 0 <= r < p && o2[r] == i as int;
            assert(o2.take(p)[r] == i);
        }
        assert(before_c.contains(a as usize)) by {
            let r = choose|r: int| 0 <= r < p && o2[r] == a;
            assert(o2.take(p)[r] == a as usize);
        }
        assert(!before_a.contains(a as usize)) by {
            if before_a.contains(a as usize) {
                let q = choose|q: int| 0 <= q < p && o1.take(p)[q] == a as usize;
                assert(listed_before(s, o1[q] as int, o1[p] as int));
                crate::ranking::lemma_listed_before_order(s, a, a, a);
            }
        }
        crate::ranking::lemma_distinct_prefix_set_len(s, o1, p);
        crate::ranking::lemma_distinct_prefix_set_len(s, o2, p);
        vstd::set_lib::lemma_len_subset(before_a.insert(a as usize), before_c);
    }
}

/// The ranking compares, in order, being alive, then score, then kills:
/// a living snake outranks a dead one; between snakes both alive or both
/// dead, a higher score outranks whatever the kills; kills decide only
/// between equal scores; and equal snakes do not outrank each other.
pub proof fn law_rank_alive_then_score_then_kills(a: SnakeView, b: SnakeView)
    ensures
        a.alive && !b.alive ==> outranks(a, b) && !outranks(b, a),
        a.alive == b.alive && a.score > b.score ==> outranks(a, b) && !outranks(b, a),
        a.alive == b.alive && a.score == b.score ==> (outranks(a, b) <==> a.kills > b.kills),
        a.alive == b.alive && a.score == b.score && a.kills == b.kills ==> !outranks(a, b),
{
}

/// In the rankings, each snake is listed above every later one by the same
/// rule: alive before dead; then no lower score; then, on equal scores, no
/// fewer kills.
pub proof fn law_rankings_sorted(s: Seq<SnakeView>, order: Seq<usize>, p: int, q: int)
    requires
        ranked(s, order),
        0 <= p < q < order.len(),
    ensures
        ({
            let a = s[order[p] as int];
            let b = s[order[q] as int];
            &&& a.alive || !b.alive
            &&& a.alive == b.alive ==> a.score >= b.score
            &&& a.alive == b.alive && a.score == b.score ==> a.kills >= b.kills
        }),
{
    assert(listed_before(s, order[p] as int, order[q] as int));
}

/// The leaderboard never holds more than `LEADERBOARD_SIZE` matches, and the
/// match just added is the newest.
pub proof fn law_leaderboard_bounded(entries: Seq<LeaderboardEntry>, e: LeaderboardEntry)
    requires
        entries.len() <= LEADERBOARD_SIZE,
    ensures
        entries_after_add(entries, e).len() <= LEADERBOARD_SIZE,
        entries_after_add(entries, e).last() == e,
{
}

/// A confirmed name is never empty.
pub proof fn law_confirmed_name_nonempty(name: Seq<char>)
    ensures
        shown_name(name).len() > 0,
{
    reveal_strlit("Player");
}

/// Typing one character into a name under 16 characters appends it when it
/// is printable (not a control character) and alphanumeric (letters and
/// digits) or one of `_`, `-`, space and `.`; any other character leaves the
/// name as it was. At 16 characters nothing is appended.
pub proof fn law_typing_one_character(name: Seq<char>, c: char)
    ensures
        ({
            let printable = (c as u32) >= 0x20 && (c as u32) != 0x7f;
            let allowed = alphanumeric(c) || c == '_' || c == '-' || c == ' ' || c == '.';
            &&& name.len() < 16 && printable && allowed ==> typed(name, seq![c]) == name.push(c)
            &&& !(printable && allowed) ==> typed(name, seq![c]) == name
            &&& name.len() >= 16 ==> typed(name, seq![c]) == name
        }),
{
    reveal_with_fuel(typed, 2);
    assert(seq![c].drop_first() =~= Seq::<char>::empty());
}

/// Typing a text appends exactly its accepted characters, in order, as long
/// as the name stays within 16 characters.
pub proof fn law_typing_appends_in_order(name: Seq<char>, text: Seq<char>)
    requires
        name.len() + text.len() <= 16,
    ensures
        typed(name, text) == name + text.filter(|c: char| name_char(c)),
    decreases text.len(),
{
    if text.len() > 0 {
        let c = text[0];
        let rest = text.drop_first();
        let next = if name_char(c) { name.push(c) } else { name };
        law_typing_appends_in_order(next, rest);
        assert(text =~= seq![c] + rest);
        lemma_filter_cons(c, rest);
        if name_char(c) {
            assert(name + text.filter(|c: char| name_char(c)) =~= next + rest.filter(|c: char| name_char(c)));
        } else {
            assert(name + text.filter(|c: char| name_char(c)) =~= next + rest.filter(|c: char| name_char(c)));
        }
    } else {
        assert(text.filter(|c: char| name_char(c)) =~= Seq::<char>::empty());
    }
}

proof fn lemma_filter_cons(c: char, rest: Seq<char>)
    ensures
        (seq![c] + rest).filter(|x: char| name_char(x)) == if name_char(c) {
            seq![c] + rest.filter(|x: char| name_char(x))
        } else {
            rest.filter(|x: char| name_char(x))
        },
{
    rest.lemma_filter_prepend(c, |x: char| name_char(x));
    if name_char(c) {
    } else {
        assert(Seq::<char>::empty() + rest.filter(|x: char| name_char(x)) =~= rest.filter(|x: char| name_char(x)));
    }
}

/// Whatever keys are pressed on the name entry screen, a name of at most 16
/// characters stays at most 16 characters long (confirmed or not).
pub proof fn law_name_at_most_16(name: Seq<char>, keys: Seq<NameKey>)
    requires
        name.len() <= NAME_MAX_CHARS,
    ensures
        after_keys(name, keys, 0).0.len() <= NAME_MAX_CHARS,
{
    lemma_keys_keep_name_short(name, keys, 0);
}

proof fn lemma_keys_keep_name_short(name: Seq<char>, keys: Seq<NameKey>, k: int)
    requires
        name.len() <= NAME_MAX_CHARS,
    ensures
        after_keys(name, keys, k).0.len() <= NAME_MAX_CHARS,
    decreases keys.len() - k,
{
    if k < keys.len() {
        match keys[k] {
            NameKey::Enter => {
                reveal_strlit("Player");
                lemma_trimmed_len(name);
            },
            NameKey::Backspace => {
                lemma_keys_keep_name_short(if name.len() > 0 { name.drop_last() } else { name }, keys, k + 1);
            },
            NameKey::Text(t) => {
                lemma_typed_bounded(name, t@);
                lemma_keys_keep_name_short(typed(name, t@), keys, k + 1);
            },
            NameKey::Other => {
                lemma_keys_keep_name_short(name, keys, k + 1);
            },
        }
    }
}

// ---------------------------------------------------------------------------
// Screens
// ---------------------------------------------------------------------------

/// Play starts only after the countdown, the countdown only from waiting to
/// start, and the game-over screen only from play.
pub proof fn law_flow_order(state: GameState, event: FlowEvent)
    ensures
        spec_next_state(state, event) == Some(GameState::Playing) ==> state == GameState::Countdown,
        spec_next_state(state, event) == Some(GameState::Countdown) ==> state == GameState::WaitingToStart,
        spec_next_state(state, event) == Some(GameState::GameOver) ==> state == GameState::Playing,
        state == GameState::GameOver && spec_next_state(state, event) is Some ==> spec_next_state(state, event)
            == Some(GameState::WaitingToStart) || spec_next_state(state, event) == Some(GameState::Home),
{
}

/// The screen reached from `state` by the events `events` in turn, or
/// `None` when one of them does nothing there.
pub open spec fn run_flow(state: GameState, events: Seq<FlowEvent>) -> Option<GameState>
    decreases events.len(),
{
    if events.len() == 0 {
        Some(state)
    } else {
        match spec_next_state(state, events[0]) {
            Some(next) => run_flow(next, events.drop_first()),
            None => None,
        }
    }
}

/// No screen is a dead end: from every screen the home screen is reached
/// by at most five events, and from the leaderboard by its HOME button.
pub proof fn law_home_always_reachable(state: GameState)
    ensures
        exists|events: Seq<FlowEvent>| events.len() <= 5 && #[trigger] run_flow(state, events) == Some(GameState::Home),
        run_flow(GameState::Leaderboard, seq![FlowEvent::HomePressed]) == Some(GameState::Home),
{
    reveal_with_fuel(run_flow, 6);
    let over = seq![FlowEvent::HomePressed];
    let play = seq![FlowEvent::MatchOver, FlowEvent::HomePressed];
    let count = seq![FlowEvent::CountdownFinished] + play;
    let wait = seq![FlowEvent::StartPressed] + count;
    let entry = seq![FlowEvent::NameConfirmed] + wait;
    assert(run_flow(GameState::Leaderboard, over) == Some(GameState::Home));
    assert(run_flow(GameState::Home, Seq::empty()) == Some(GameState::Home));
    assert(over.drop_first() =~= Seq::<FlowEvent>::empty());
    assert(run_flow(GameState::GameOver, over) == Some(GameState::Home));
    assert(play.drop_first() =~= over);
    assert(run_flow(GameState::Playing, play) == Some(GameState::Home));
    assert(count.drop_first() =~= play);
    assert(run_flow(GameState::Countdown, count) == Some(GameState::Home));
    assert(wait.drop_first() =~= count);
    assert(run_flow(GameState::WaitingToStart, wait) == Some(GameState::Home));
    assert(entry.drop_first() =~= wait);
    assert(run_flow(GameState::NameEntry, entry) == Some(GameState::Home));
}

/// Every screen can be reached from the home screen.
pub proof fn law_every_screen_reachable(state: GameState)
    ensures
        exists|events: Seq<FlowEvent>| events.len() <= 5 && #[trigger] run_flow(GameState::Home, events) == Some(state),
{
    reveal_with_fuel(run_flow, 6);
    let e1 = seq![FlowEvent::PlayPressed];
    let e2 = e1.push(FlowEvent::NameConfirmed);
    let e3 = e2.push(FlowEvent::StartPressed);
    let e4 = e3.push(FlowEvent::CountdownFinished);
    let e5 = e4.push(FlowEvent::MatchOver);
    let l = seq![FlowEvent::LeaderboardPressed];
    assert(run_flow(GameState::Home, Seq::empty()) == Some(GameState::Home));
    assert(l.drop_first() =~= Seq::<FlowEvent>::empty());
    assert(run_flow(GameState::Home, l) == Some(GameState::Leaderboard));
    assert(e1.drop_first() =~= Seq::<FlowEvent>::empty());
    assert(run_flow(GameState::Home, e1) == Some(GameState::NameEntry));
    assert(e2.drop_first() =~= seq![FlowEvent::NameConfirmed]);
    assert(run_flow(GameState::Home, e2) == Some(GameState::WaitingToStart));
    assert(e3.drop_first() =~= seq![FlowEvent::NameConfirmed, FlowEvent::StartPressed]);
    assert(run_flow(GameState::Home, e3) == Some(GameState::Countdown));
    assert(e4.drop_first() =~= seq![FlowEvent::NameConfirmed, FlowEvent::StartPressed, FlowEvent::CountdownFinished]);
    assert(run_flow(GameState::Home, e4) == Some(GameState::Playing));
    assert(e5.drop_first() =~= seq![
        FlowEvent::NameConfirmed,
        FlowEvent::StartPressed,
        FlowEvent::CountdownFinished,
        FlowEvent::MatchOver,
    ]);
    assert(run_flow(GameState::Home, e5) == Some(GameState::GameOver));
}

// ---------------------------------------------------------------------------
// The AI
// ---------------------------------------------------------------------------

/// The AI's food distance is the distance to the nearest food: no food of
/// `foods[0..n]` is closer to `p`, and some food is exactly that far.
pub proof fn law_nearest_food_is_nearest(foods: Seq<Food>, p: GridPos, n: int)
    requires
        1 <= n <= foods.len(),
    ensures
        forall|k: int| 0 <= k < n ==> nearest_food(foods, p, n) <= #[trigger] manhattan(foods[k].pos, p),
        exists|k: int| 0 <= k < n && nearest_food(foods, p, n) == #[trigger] manhattan(foods[k].pos, p),
    decreases n,
{
    if n == 1 {
        assert(nearest_food(foods, p, n) == manhattan(foods[0].pos, p));
    } else {
        law_nearest_food_is_nearest(foods, p, n - 1);
        let k0 = choose|k: int| 0 <= k < n - 1 && nearest_food(foods, p, n - 1) == #[trigger] manhattan(
            foods[k].pos,
            p,
        );
        if manhattan(foods[n - 1].pos, p) < nearest_food(foods, p, n - 1) {
            assert(nearest_food(foods, p, n) == manhattan(foods[n - 1].pos, p));
        } else {
            assert(nearest_food(foods, p, n) == manhattan(foods[k0].pos, p));
        }
    }
}

/// The AI never turns a snake around, and when it picks a move, the cell it
/// moves to is inside the arena and free, with a way out.
pub proof fn law_ai_choice_safe(
    me: SnakeView,
    c: Seq<(SnakeId, SnakeView)>,
    my_id: SnakeId,
    foods: Seq<Food>,
    b: ArenaBounds,
)
    requires
        me.direction != me.direction.spec_opposite(),
    ensures
        ai_choice(me, c, my_id, foods, b) != me.direction.spec_opposite(),
        ai_choice(me, c, my_id, foods, b) != me.direction ==> weighed(
            me,
            c,
            my_id,
            b,
            ai_choice(me, c, my_id, foods, b),
        ),
{
    if exists|k: int| is_pick(me, c, my_id, foods, b, k) {
        let k = choose|k: int| is_pick(me, c, my_id, foods, b, k);
        assert(weighed(me, c, my_id, b, dir_at(k)));
    }
}

// ---------------------------------------------------------------------------
// Screenshot test mode
// ---------------------------------------------------------------------------

/// From the view `v0`, the view `v` was reached by taking the screenshots
/// `shots`: nothing taken is forgotten, each shot is a number 1 to 9 that
/// was not taken in `v0` and is taken in `v`, and no shot repeats.
pub open spec fn shots_fresh(v0: AutoTestView, v: AutoTestView, shots: Seq<usize>) -> bool {
    &&& v.captured.len() == 9
    &&& forall|k: int| 0 <= k < 9 && #[trigger] v0.captured[k] ==> v.captured[k]
    &&& forall|p: int|
        0 <= p < shots.len() ==> 1 <= #[trigger] shots[p] <= 9 && !v0.captured[shots[p] - 1]
            && v.captured[shots[p] - 1]
    &&& forall|p: int, q: int| 0 <= p < q < shots.len() ==> #[trigger] shots[p] != #[trigger] shots[q]
}

/// The views and screenshots over the frames `ms`, in order.
pub open spec fn run_moments(v: AutoTestView, ms: Seq<AutoTestMoment>) -> (AutoTestView, Seq<usize>)
    decreases ms.len(),
{
    if ms.len() == 0 {
        (v, Seq::empty())
    } else {
        let a = after_moment(v, ms[0]);
        let rest = run_moments(a.0, ms.drop_first());
        (rest.0, a.1 + rest.1)
    }
}

proof fn lemma_take_fresh(v0: AutoTestView, v: AutoTestView, shots: Seq<usize>, k: usize, when: bool)
    requires
        shots_fresh(v0, v, shots),
        1 <= k <= 9,
    ensures
        shots_fresh(v0, take(v, shots, k, when).0, take(v, shots, k, when).1),
        take(v, shots, k, when).0.prev_alive_count == v.prev_alive_count,
        take(v, shots, k, when).0.arena_shrunk == v.arena_shrunk,
{
    if when && !v.captured[k - 1] {
        let w = take(v, shots, k, when);
        assert forall|p: int| 0 <= p < shots.len() implies #[trigger] shots[p] != k by {
            assert(v.captured[shots[p] - 1]);
        }
        assert(w.1[shots.len() as int] == k);
        assert forall|p: int, q: int| 0 <= p < q < w.1.len() implies #[trigger] w.1[p] != #[trigger] w.1[q] by {
            if q == shots.len() {
                assert(w.1[p] == shots[p]);
            } else {
                assert(w.1[p] == shots[p] && w.1[q] == shots[q]);
            }
        }
        assert forall|p: int| 0 <= p < w.1.len() implies 1 <= #[trigger] w.1[p] <= 9 && !v0.captured[w.1[p] - 1]
            && w.0.captured[w.1[p] - 1] by {
            if p < shots.len() {
                assert(w.1[p] == shots[p]);
            }
        }
    }
}

proof fn lemma_fresh_compose(
    v0: AutoTestView,
    v1: AutoTestView,
    v2: AutoTestView,
    s1: Seq<usize>,
    s2: Seq<usize>,
)
    requires
        shots_fresh(v0, v1, s1),
        shots_fresh(v1, v2, s2),
    ensures
        shots_fresh(v0, v2, s1 + s2),
{
    let s = s1 + s2;
    assert forall|p: int| 0 <= p < s.len() implies 1 <= #[trigger] s[p] <= 9 && !v0.captured[s[p] - 1]
        && v2.captured[s[p] - 1] by {
        if p < s1.len() {
            assert(s[p] == s1[p]);
            assert(v1.captured[s1[p] - 1]);
        } else {
            assert(s[p] == s2[p - s1.len()]);
            if v0.captured[s[p] - 1] {
                assert(v1.captured[s[p] - 1]);
            }
        }
    }
    assert forall|p: int, q: int| 0 <= p < q < s.len() implies #[trigger] s[p] != #[trigger] s[q] by {
        if q < s1.len() {
            assert(s[p] == s1[p] && s[q] == s1[q]);
        } else if p >= s1.len() {
            assert(s[p] == s2[p - s1.len()] && s[q] == s2[q - s1.len()]);
        } else {
            assert(s[p] == s1[p] && s[q] == s2[q - s1.len()]);
            assert(v1.captured[s1[p] - 1]);
        }
    }
}

/// One frame takes only fresh screenshots; a frame that ends the run takes
/// screenshot 9, which had not been taken.
proof fn lemma_moment_fresh(v: AutoTestView, m: AutoTestMoment)
    requires
        v.captured.len() == 9,
    ensures
        shots_fresh(v, after_moment(v, m).0, after_moment(v, m).1),
        after_moment(v, m).2 ==> !v.captured[8] && after_moment(v, m).1.contains(9usize),
{
    let e: Seq<usize> = Seq::empty();
    assert(shots_fresh(v, v, e));
    // countdown
    let a = countdown_shots(v, m);
    match m.countdown {
        Some((three, go)) => {
            if m.state == GameState::Countdown {
                let a1 = take(v, e, 1, three);
                lemma_take_fresh(v, v, e, 1, three);
                lemma_take_fresh(v, a1.0, a1.1, 2, go);
            }
        },
        None => {},
    }
    assert(shots_fresh(v, a.0, a.1));
    // play
    let b = play_shots(a.0, a.1, m);
    if m.state == GameState::Playing {
        let x = a.0;
        let t3 = take(x, a.1, 3, true);
        lemma_take_fresh(v, x, a.1, 3, true);
        let p1 = if !x.captured[2] {
            (AutoTestView { captured: x.captured.update(2, true), prev_alive_count: m.alive_count, ..x }, a.1.push(3usize))
        } else {
            (x, a.1)
        };
        assert(p1.0.captured == t3.0.captured && p1.1 == t3.1);
        assert(shots_fresh(v, p1.0, p1.1));
        let p2 = take(p1.0, p1.1, 4, m.alive_count < p1.0.prev_alive_count);
        lemma_take_fresh(v, p1.0, p1.1, 4, m.alive_count < p1.0.prev_alive_count);
        let shrunk = p2.0.arena_shrunk || m.bounds.min_x > 1;
        let y = AutoTestView { arena_shrunk: shrunk, ..p2.0 };
        assert(shots_fresh(v, y, p2.1));
        let p3 = take(y, p2.1, 5, shrunk);
        lemma_take_fresh(v, y, p2.1, 5, shrunk);
        let p4 = take(p3.0, p3.1, 6, m.alive_count <= 3);
        lemma_take_fresh(v, p3.0, p3.1, 6, m.alive_count <= 3);
        assert(shots_fresh(v, AutoTestView { prev_alive_count: m.alive_count, ..p4.0 }, p4.1));
    }
    assert(shots_fresh(v, b.0, b.1));
    // game over
    match m.gameover_phase {
        Some(phase) => {
            if m.state == GameState::GameOver {
                let g1 = take(b.0, b.1, 7, phase >= 1);
                lemma_take_fresh(v, b.0, b.1, 7, phase >= 1);
                let g2 = take(g1.0, g1.1, 8, phase >= 3);
                lemma_take_fresh(v, g1.0, g1.1, 8, phase >= 3);
                let g3 = take(g2.0, g2.1, 9, phase >= 4);
                lemma_take_fresh(v, g2.0, g2.1, 9, phase >= 4);
                if phase >= 4 && !g2.0.captured[8] {
                    assert(g3.1[g2.1.len() as int] == 9usize);
                    if v.captured[8] {
                        assert(g2.0.captured[8]);
                    }
                }
            }
        },
        None => {},
    }
}

/// The screenshot test mode, frame by frame: nothing taken is ever
/// forgotten, each screenshot (1 to 9) is taken at most once over the whole
/// run, and only if it had not been taken before the run; a frame that ends
/// the run is the one that takes the last screenshot (9).
pub proof fn law_each_screenshot_once(v: AutoTestView, ms: Seq<AutoTestMoment>)
    requires
        v.captured.len() == 9,
    ensures
        shots_fresh(v, run_moments(v, ms).0, run_moments(v, ms).1),
        forall|m: AutoTestMoment|
            #[trigger] after_moment(v, m).2 ==> !v.captured[8] && after_moment(v, m).1.contains(9usize),
    decreases ms.len(),
{
    assert forall|m: AutoTestMoment| #[trigger] after_moment(v, m).2 implies !v.captured[8] && after_moment(
        v,
        m,
    ).1.contains(9usize) by {
        lemma_moment_fresh(v, m);
    }
    if ms.len() == 0 {
        assert(shots_fresh(v, v, Seq::<usize>::empty()));
    } else {
        let a = after_moment(v, ms[0]);
        lemma_moment_fresh(v, ms[0]);
        law_each_screenshot_once(a.0, ms.drop_first());
        let rest = run_moments(a.0, ms.drop_first());
        lemma_fresh_compose(v, a.0, rest.0, a.1, rest.1);
    }
}

// ---------------------------------------------------------------------------
// Sound
// ---------------------------------------------------------------------------

/// A WAV file of `n` samples is the 44-byte header and two bytes per sample.
pub proof fn law_wav_length(samples: Seq<i16>)
    ensures
        (wav_header(samples.len()) + pcm_data(samples)).len() == 44 + 2 * samples.len(),
{
}

} // verus!
