use vstd::prelude::*;

use crate::constants::NUM_FOOD;
use crate::game::{ArenaBounds, Food, GridPos, MatchState, Snake, SnakeId, SnakeView, fits_i32};
use crate::rng::{SimpleRng, lcg_next, lcg_output};

verus! {

// ---------------------------------------------------------------------------
// What one game tick does, stated over values
// ---------------------------------------------------------------------------

/// The snakes as values.
pub open spec fn views(snakes: Seq<Snake>) -> Seq<SnakeView> {
    snakes.map_values(|s: Snake| s@)
}

/// Every living snake steps once; dead snakes stay where they are.
pub open spec fn moved_all(pre: Seq<SnakeView>) -> Seq<SnakeView> {
    Seq::new(pre.len(), |i: int| if pre[i].alive { pre[i].stepped() } else { pre[i] })
}

/// Every living snake can take its step (it has a head and the new head has
/// `i32` coordinates).
pub open spec fn all_can_step(pre: Seq<SnakeView>) -> bool {
    forall|i: int| 0 <= i < pre.len() && pre[i].alive ==> #[trigger] pre[i].can_step()
}

/// After the move: snake `i`'s head left the arena.
pub open spec fn left_arena(m: Seq<SnakeView>, b: ArenaBounds, i: int) -> bool {
    !b.spec_contains(m[i].head())
}

/// After the move: snake `i` reaches the head-to-head check (it is inside the
/// arena and did not bite itself).
pub open spec fn reaches_heads(m: Seq<SnakeView>, b: ArenaBounds, i: int) -> bool {
    !left_arena(m, b, i) && !m[i].self_collides()
}

/// Living snake `j`, another snake than `i` by id, has a body segment at `i`'s head.
pub open spec fn bites_body_of(m: Seq<SnakeView>, ids: Seq<SnakeId>, i: int, j: int) -> bool {
    m[j].alive && ids[j] != ids[i] && m[j].body_hits(m[i].head())
}

/// Living snakes `i` and `j`, different by id, have their heads on one cell.
pub open spec fn heads_meet(m: Seq<SnakeView>, ids: Seq<SnakeId>, i: int, j: int) -> bool {
    m[i].alive && m[j].alive && ids[j] != ids[i] && m[j].head() == m[i].head()
}

pub open spec fn bites_some_body(m: Seq<SnakeView>, ids: Seq<SnakeId>, i: int) -> bool {
    exists|j: int| 0 <= j < m.len() && bites_body_of(m, ids, i, j)
}

pub open spec fn meets_some_head(m: Seq<SnakeView>, ids: Seq<SnakeId>, i: int) -> bool {
    exists|j: int| 0 <= j < m.len() && heads_meet(m, ids, i, j)
}

/// Snake `i` dies this tick: it was alive and its new head is outside the
/// arena, on its own body, on another snake's body, or on another snake's head.
pub open spec fn dies(m: Seq<SnakeView>, ids: Seq<SnakeId>, b: ArenaBounds, i: int) -> bool {
    &&& m[i].alive
    &&& {
        ||| left_arena(m, b, i)
        ||| m[i].self_collides()
        ||| bites_some_body(m, ids, i)
        ||| meets_some_head(m, ids, i)
    }
}

/// Snake `k` settles a head-on collision with `i` while its own collisions
/// are checked (which happens before `i`'s when `k < i`).
pub open spec fn reports_head_on(m: Seq<SnakeView>, ids: Seq<SnakeId>, b: ArenaBounds, k: int, i: int) -> bool {
    heads_meet(m, ids, i, k) && reaches_heads(m, b, k)
}

/// The first snake, scanning from `k`, whose collision checks report snake
/// `i`'s death: an earlier snake that met it head-on, else `i` itself.
pub open spec fn first_report_from(m: Seq<SnakeView>, ids: Seq<SnakeId>, b: ArenaBounds, i: int, k: int) -> int
    decreases i - k,
{
    if k >= i {
        i
    } else if reports_head_on(m, ids, b, k, i) {
        k
    } else {
        first_report_from(m, ids, b, i, k + 1)
    }
}

pub open spec fn first_report(m: Seq<SnakeView>, ids: Seq<SnakeId>, b: ArenaBounds, i: int) -> int {
    first_report_from(m, ids, b, i, 0)
}

/// The first snake, scanning from `j`, on whose body snake `i`'s head lies.
pub open spec fn first_biter_from(m: Seq<SnakeView>, ids: Seq<SnakeId>, i: int, j: int) -> int
    decreases m.len() - j,
{
    if j >= m.len() {
        m.len() as int
    } else if bites_body_of(m, ids, i, j) {
        j
    } else {
        first_biter_from(m, ids, i, j + 1)
    }
}

/// Who is credited with snake `i`'s death: the owner of the first body its
/// head landed on, unless the death was already reported by an earlier
/// head-on collision, or it left the arena or bit itself.
pub open spec fn killer_of(m: Seq<SnakeView>, ids: Seq<SnakeId>, b: ArenaBounds, i: int) -> Option<SnakeId> {
    if first_report(m, ids, b, i) < i || !reaches_heads(m, b, i) || !bites_some_body(m, ids, i) {
        None
    } else {
        Some(ids[first_biter_from(m, ids, i, 0)])
    }
}

/// Number of deaths among snakes `0..n` credited to `id`.
pub open spec fn credits(m: Seq<SnakeView>, ids: Seq<SnakeId>, b: ArenaBounds, id: SnakeId, n: int) -> nat
    decreases n,
{
    if n <= 0 {
        0
    } else {
        credits(m, ids, b, id, n - 1) + if dies(m, ids, b, n - 1) && killer_of(m, ids, b, n - 1)
            == Some(id) {
            1nat
        } else {
            0nat
        }
    }
}

/// Snake `j` is alive at the end of the tick.
pub open spec fn survives(m: Seq<SnakeView>, ids: Seq<SnakeId>, b: ArenaBounds, j: int) -> bool {
    m[j].alive && !dies(m, ids, b, j)
}

/// Number of foods among `foods[0..n]` lying at `pos`.
pub open spec fn food_count_at(foods: Seq<Food>, pos: GridPos, n: int) -> nat
    decreases n,
{
    if n <= 0 {
        0
    } else {
        food_count_at(foods, pos, n - 1) + if foods[n - 1].pos == pos {
            1nat
        } else {
            0nat
        }
    }
}

/// Foods eaten by snake `j`: those under its head, if it survived.
pub open spec fn meals(m: Seq<SnakeView>, ids: Seq<SnakeId>, b: ArenaBounds, foods: Seq<Food>, j: int) -> nat {
    if survives(m, ids, b, j) {
        food_count_at(foods, m[j].head(), foods.len() as int)
    } else {
        0
    }
}

/// Food `f` lies under the head of a surviving snake.
pub open spec fn eaten(m: Seq<SnakeView>, ids: Seq<SnakeId>, b: ArenaBounds, foods: Seq<Food>, f: int) -> bool {
    exists|j: int| 0 <= j < m.len() && survives(m, ids, b, j) && #[trigger] m[j].head() == foods[f].pos
}

/// Number of foods among `foods[0..n]` that are eaten.
pub open spec fn eaten_count(m: Seq<SnakeView>, ids: Seq<SnakeId>, b: ArenaBounds, foods: Seq<Food>, n: int) -> nat
    decreases n,
{
    if n <= 0 {
        0
    } else {
        eaten_count(m, ids, b, foods, n - 1) + if eaten(m, ids, b, foods, n - 1) {
            1nat
        } else {
            0nat
        }
    }
}

/// Number of snakes among `0..n` alive at the end of the tick.
pub open spec fn survivor_count(m: Seq<SnakeView>, ids: Seq<SnakeId>, b: ArenaBounds, n: int) -> nat
    decreases n,
{
    if n <= 0 {
        0
    } else {
        survivor_count(m, ids, b, n - 1) + if survives(m, ids, b, n - 1) {
            1nat
        } else {
            0nat
        }
    }
}

/// How many new foods are spawned: enough to bring the field back to `NUM_FOOD`.
pub open spec fn refill_count(m: Seq<SnakeView>, ids: Seq<SnakeId>, b: ArenaBounds, foods: Seq<Food>) -> nat {
    let remaining = foods.len() - eaten_count(m, ids, b, foods, foods.len() as int);
    if remaining < NUM_FOOD {
        (NUM_FOOD - remaining) as nat
    } else {
        0
    }
}

/// The generator state after `n` draws from `s`.
pub open spec fn state_after(s: u64, n: nat) -> u64
    decreases n,
{
    if n == 0 {
        s
    } else {
        lcg_next(state_after(s, (n - 1) as nat))
    }
}

/// The value `rng.range(lo, hi)` yields from state `s`.
pub open spec fn draw_in(s: u64, lo: int, hi: int) -> int {
    lo + lcg_output(lcg_next(s)) as int % (hi - lo)
}

/// The `t`-th refill food: `x` then `y` drawn from the interior of the arena
/// (one cell in from each edge).
pub open spec fn refill_food(s: u64, b: ArenaBounds, t: int) -> GridPos {
    GridPos {
        x: draw_in(state_after(s, (2 * t) as nat), b.min_x + 1, b.max_x - 1) as i32,
        y: draw_in(state_after(s, (2 * t + 1) as nat), b.min_y + 1, b.max_y - 1) as i32,
    }
}

/// The arena interior can be drawn from: `min + 1 .. max - 1` is a non-empty
/// `i32` range on both axes.
pub open spec fn interior_drawable(b: ArenaBounds) -> bool {
    &&& fits_i32(b.min_x + 1) && fits_i32(b.max_x - 1) && b.min_x + 1 < b.max_x - 1
    &&& (b.max_x - 1) - (b.min_x + 1) <= i32::MAX
    &&& fits_i32(b.min_y + 1) && fits_i32(b.max_y - 1) && b.min_y + 1 < b.max_y - 1
    &&& (b.max_y - 1) - (b.min_y + 1) <= i32::MAX
}

/// The tick's counters stay in their types: growth, score and kill credits.
pub open spec fn counters_fit(m: Seq<SnakeView>, ids: Seq<SnakeId>, b: ArenaBounds, foods: Seq<Food>) -> bool {
    forall|j: int|
        0 <= j < m.len() ==> {
            &&& #[trigger] m[j].kills + credits(m, ids, b, ids[j], m.len() as int) <= u32::MAX
            &&& m[j].score + meals(m, ids, b, foods, j) <= u32::MAX
            &&& m[j].grow_pending + 2 * meals(m, ids, b, foods, j) <= usize::MAX
        }
}

/// Everything `game_tick` needs of its inputs.
pub open spec fn tick_ready(pre: Seq<SnakeView>, ids: Seq<SnakeId>, b: ArenaBounds, foods: Seq<Food>) -> bool {
    let m = moved_all(pre);
    &&& ids.len() == pre.len()
    &&& all_can_step(pre)
    &&& counters_fit(m, ids, b, foods)
    &&& refill_count(m, ids, b, foods) > 0 ==> interior_drawable(b)
}

/// Snake `j` at the end of the tick.
pub open spec fn after_tick(m: Seq<SnakeView>, ids: Seq<SnakeId>, b: ArenaBounds, foods: Seq<Food>, j: int) -> SnakeView {
    let s = m[j];
    SnakeView {
        alive: survives(m, ids, b, j),
        kills: (s.kills + credits(m, ids, b, ids[j], m.len() as int)) as u32,
        score: (s.score + meals(m, ids, b, foods, j)) as u32,
        grow_pending: (s.grow_pending + 2 * meals(m, ids, b, foods, j)) as usize,
        ..s
    }
}

/// A death of this tick: which snake (its index) and who is credited.
#[derive(Debug, Clone, Copy, PartialEq, Eq, Structural)]
pub struct Death {
    pub victim: usize,
    pub killer: Option<SnakeId>,
}

/// The order in which deaths are announced: by the snake whose checks first
/// reported them, a snake's own death before the head-on partners it found.
pub open spec fn announced_before(m: Seq<SnakeView>, ids: Seq<SnakeId>, b: ArenaBounds, i: int, j: int) -> bool {
    let ri = first_report(m, ids, b, i);
    let rj = first_report(m, ids, b, j);
    ri < rj || (ri == rj && i < j)
}

/// `deaths` lists exactly the snakes that die, each once, with their killers,
/// in announcement order.
pub open spec fn deaths_listed(m: Seq<SnakeView>, ids: Seq<SnakeId>, b: ArenaBounds, deaths: Seq<Death>) -> bool {
    &&& forall|p: int|
        0 <= p < deaths.len() ==> {
            &&& 0 <= #[trigger] deaths[p].victim < m.len()
            &&& dies(m, ids, b, deaths[p].victim as int)
            &&& deaths[p].killer == killer_of(m, ids, b, deaths[p].victim as int)
        }
    &&& forall|p: int, q: int|
        0 <= p < q < deaths.len() ==> announced_before(
            m,
            ids,
            b,
            #[trigger] deaths[p].victim as int,
            #[trigger] deaths[q].victim as int,
        )
    &&& forall|i: int|
        0 <= i < m.len() && dies(m, ids, b, i) ==> exists|p: int|
            0 <= p < deaths.len() && #[trigger] deaths[p].victim == i
}

// ---------------------------------------------------------------------------
// The tick, step by step
// ---------------------------------------------------------------------------

/// Every living snake takes its step.
fn move_living(snakes: &mut Vec<Snake>)
    requires
        all_can_step(views(old(snakes)@)),
    ensures
        views(final(snakes)@) == moved_all(views(old(snakes)@)),
{
    let ghost pre = views(snakes@);
    let n = snakes.len();
    let mut i: usize = 0;
    while i < n
        invariant
            n == snakes@.len(),
            pre.len() == n,
            all_can_step(pre),
            i <= n,
            forall|j: int| 0 <= j < i ==> #[trigger] snakes@[j]@ == moved_all(pre)[j],
            forall|j: int| i <= j < n ==> #[trigger] snakes@[j]@ == pre[j],
        decreases n - i,
    {
        assert(snakes@[i as int]@ == pre[i as int]);
        if snakes[i].alive {
            assert(pre[i as int].can_step());
            snakes[i].step();
        }
        i = i + 1;
    }
    assert(views(snakes@) =~= moved_all(pre));
}

/// Every living snake has a head.
pub open spec fn living_wf(m: Seq<SnakeView>) -> bool {
    forall|j: int| 0 <= j < m.len() && m[j].alive ==> #[trigger] m[j].wf()
}

proof fn lemma_moved_living_wf(pre: Seq<SnakeView>)
    ensures
        living_wf(moved_all(pre)),
{
    assert forall|j: int| 0 <= j < moved_all(pre).len() && moved_all(pre)[j].alive implies #[trigger] moved_all(
        pre,
    )[j].wf() by {
        assert(pre[j].alive);
        assert(pre[j].stepped().segments.len() > 0);
    }
}

proof fn lemma_first_report_bounded(m: Seq<SnakeView>, ids: Seq<SnakeId>, b: ArenaBounds, i: int, k: int)
    requires
        0 <= k,
    ensures
        (k <= i ==> k <= first_report_from(m, ids, b, i, k) <= i),
        (k > i ==> first_report_from(m, ids, b, i, k) == i),
    decreases i - k,
{
    if k < i && !reports_head_on(m, ids, b, k, i) {
        lemma_first_report_bounded(m, ids, b, i, k + 1);
    }
}

proof fn lemma_first_biter(m: Seq<SnakeView>, ids: Seq<SnakeId>, i: int, j: int)
    requires
        0 <= j <= m.len(),
    ensures
        j <= first_biter_from(m, ids, i, j) <= m.len(),
        first_biter_from(m, ids, i, j) < m.len() ==> bites_body_of(
            m,
            ids,
            i,
            first_biter_from(m, ids, i, j),
        ),
        first_biter_from(m, ids, i, j) == m.len() ==> forall|q: int|
            j <= q < m.len() ==> !bites_body_of(m, ids, i, q),
    decreases m.len() - j,
{
    if j < m.len() && !bites_body_of(m, ids, i, j) {
        lemma_first_biter(m, ids, i, j + 1);
    }
}

/// When some body holds snake `i`'s head, the first such snake is found.
pub proof fn lemma_first_biter_found(m: Seq<SnakeView>, ids: Seq<SnakeId>, i: int)
    requires
        bites_some_body(m, ids, i),
    ensures
        0 <= first_biter_from(m, ids, i, 0) < m.len(),
        bites_body_of(m, ids, i, first_biter_from(m, ids, i, 0)),
{
    lemma_first_biter(m, ids, i, 0);
}

/// Index of the first living snake (by a different id) whose body holds snake
/// `i`'s head, or `snakes.len()` when there is none.
fn first_biter(snakes: &Vec<Snake>, ids: &Vec<SnakeId>, i: usize) -> (r: usize)
    requires
        ids@.len() == snakes@.len(),
        i < snakes@.len(),
        snakes@[i as int]@.wf(),
    ensures
        r == first_biter_from(views(snakes@), ids@, i as int, 0),
{
    let ghost m = views(snakes@);
    let n = snakes.len();
    let head = snakes[i].head();
    let mut j: usize = 0;
    while j < n
        invariant
            n == snakes@.len(),
            n == ids@.len(),
            m == views(snakes@),
            i < n,
            head == m[i as int].head(),
            j <= n,
            first_biter_from(m, ids@, i as int, 0) == first_biter_from(m, ids@, i as int, j as int),
        decreases n - j,
    {
        assert(snakes@[j as int]@ == m[j as int]);
        if snakes[j].alive && ids[j] != ids[i] && snakes[j].body_collision(head) {
            assert(bites_body_of(m, ids@, i as int, j as int));
            return j;
        }
        assert(!bites_body_of(m, ids@, i as int, j as int));
        j = j + 1;
    }
    n
}

/// Whether another living snake (by id) has its head on snake `i`'s head.
fn meets_head(snakes: &Vec<Snake>, ids: &Vec<SnakeId>, i: usize) -> (r: bool)
    requires
        ids@.len() == snakes@.len(),
        i < snakes@.len(),
        snakes@[i as int]@.alive,
        living_wf(views(snakes@)),
    ensures
        r == meets_some_head(views(snakes@), ids@, i as int),
{
    let ghost m = views(snakes@);
    let n = snakes.len();
    assert(snakes@[i as int]@ == m[i as int]);
    let head = snakes[i].head();
    let mut j: usize = 0;
    while j < n
        invariant
            n == snakes@.len(),
            n == ids@.len(),
            m == views(snakes@),
            i < n,
            m[i as int].alive,
            living_wf(m),
            head == m[i as int].head(),
            j <= n,
            forall|q: int| 0 <= q < j ==> !heads_meet(m, ids@, i as int, q),
        decreases n - j,
    {
        assert(snakes@[j as int]@ == m[j as int]);
        if snakes[j].alive && ids[j] != ids[i] {
            assert(m[j as int].wf());
            if snakes[j].head() == head {
                assert(heads_meet(m, ids@, i as int, j as int));
                return true;
            }
        }
        j = j + 1;
    }
    false
}

/// Whether snake `k` is inside the arena and clear of its own body.
fn reaches_head_check(snakes: &Vec<Snake>, bounds: &ArenaBounds, k: usize) -> (r: bool)
    requires
        k < snakes@.len(),
        snakes@[k as int]@.wf(),
    ensures
        r == reaches_heads(views(snakes@), *bounds, k as int),
{
    assert(snakes@[k as int]@ == views(snakes@)[k as int]);
    bounds.contains(snakes[k].head()) && !snakes[k].self_collision()
}

/// The snake whose collision checks first report snake `i`'s death.
fn first_reporter(snakes: &Vec<Snake>, ids: &Vec<SnakeId>, bounds: &ArenaBounds, i: usize) -> (r: usize)
    requires
        ids@.len() == snakes@.len(),
        i < snakes@.len(),
        living_wf(views(snakes@)),
    ensures
        r == first_report(views(snakes@), ids@, *bounds, i as int),
{
    let ghost m = views(snakes@);
    let mut k: usize = 0;
    while k < i
        invariant
            snakes@.len() == ids@.len(),
            m == views(snakes@),
            i < snakes@.len(),
            living_wf(m),
            k <= i,
            first_report(m, ids@, *bounds, i as int) == first_report_from(m, ids@, *bounds, i as int, k as int),
        decreases i - k,
    {
        assert(snakes@[k as int]@ == m[k as int]);
        assert(snakes@[i as int]@ == m[i as int]);
        if snakes[k].alive && snakes[i].alive && ids[k] != ids[i] {
            assert(m[k as int].wf() && m[i as int].wf());
            if snakes[k].head() == snakes[i].head() && reaches_head_check(snakes, bounds, k) {
                assert(reports_head_on(m, ids@, *bounds, k as int, i as int));
                return k;
            }
        }
        assert(!reports_head_on(m, ids@, *bounds, k as int, i as int));
        k = k + 1;
    }
    i
}

/// The collision checks' outcome for one snake.
struct Verdict {
    dies: bool,
    killer: Option<SnakeId>,
    reporter: usize,
}

/// `v` holds, for each snake, whether it dies, who is credited, and who
/// reported it first.
spec fn verdicts_ok(m: Seq<SnakeView>, ids: Seq<SnakeId>, b: ArenaBounds, v: Seq<Verdict>) -> bool {
    &&& v.len() == m.len()
    &&& forall|i: int|
        0 <= i < m.len() ==> {
            &&& (#[trigger] v[i]).dies == dies(m, ids, b, i)
            &&& v[i].dies ==> v[i].killer == killer_of(m, ids, b, i)
            &&& v[i].reporter == first_report(m, ids, b, i)
        }
}

fn verdict_for(snakes: &Vec<Snake>, ids: &Vec<SnakeId>, bounds: &ArenaBounds, i: usize) -> (r: Verdict)
    requires
        ids@.len() == snakes@.len(),
        i < snakes@.len(),
        living_wf(views(snakes@)),
    ensures
        r.dies == dies(views(snakes@), ids@, *bounds, i as int),
        r.dies ==> r.killer == killer_of(views(snakes@), ids@, *bounds, i as int),
        r.reporter == first_report(views(snakes@), ids@, *bounds, i as int),
{
    let ghost m = views(snakes@);
    let reporter = first_reporter(snakes, ids, bounds, i);
    assert(snakes@[i as int]@ == m[i as int]);
    if !snakes[i].alive {
        return Verdict { dies: false, killer: None, reporter };
    }
    assert(m[i as int].wf());
    let left = !bounds.contains(snakes[i].head());
    let bitten_self = snakes[i].self_collision();
    let biter = first_biter(snakes, ids, i);
    proof {
        lemma_first_biter(m, ids@, i as int, 0);
    }
    let bites = biter < snakes.len();
    assert(bites == bites_some_body(m, ids@, i as int));
    let meets = meets_head(snakes, ids, i);
    let killer = if reporter < i || left || bitten_self || !bites {
        None
    } else {
        Some(ids[biter])
    };
    Verdict { dies: left || bitten_self || bites || meets, killer, reporter }
}

fn all_verdicts(snakes: &Vec<Snake>, ids: &Vec<SnakeId>, bounds: &ArenaBounds) -> (r: Vec<Verdict>)
    requires
        ids@.len() == snakes@.len(),
        living_wf(views(snakes@)),
    ensures
        verdicts_ok(views(snakes@), ids@, *bounds, r@),
{
    let n = snakes.len();
    let mut v: Vec<Verdict> = Vec::new();
    let mut i: usize = 0;
    while i < n
        invariant
            n == snakes@.len(),
            ids@.len() == n,
            living_wf(views(snakes@)),
            i <= n,
            v@.len() == i,
            forall|q: int|
                0 <= q < i ==> {
                    &&& (#[trigger] v@[q]).dies == dies(views(snakes@), ids@, *bounds, q)
                    &&& v@[q].dies ==> v@[q].killer == killer_of(views(snakes@), ids@, *bounds, q)
                    &&& v@[q].reporter == first_report(views(snakes@), ids@, *bounds, q)
                },
        decreases n - i,
    {
        let verdict = verdict_for(snakes, ids, bounds, i);
        v.push(verdict);
        i = i + 1;
    }
    v
}

/// The deaths in announcement order.
fn list_deaths(v: &Vec<Verdict>, Ghost(m): Ghost<Seq<SnakeView>>, Ghost(ids): Ghost<Seq<SnakeId>>, Ghost(b): Ghost<ArenaBounds>) -> (r: Vec<Death>)
    requires
        verdicts_ok(m, ids, b, v@),
    ensures
        deaths_listed(m, ids, b, r@),
{
    let n = v.len();
    let mut deaths: Vec<Death> = Vec::new();
    proof {
        assert forall|q: int| 0 <= q < n implies 0 <= #[trigger] first_report(m, ids, b, q) <= q by {
            lemma_first_report_bounded(m, ids, b, q, 0);
        }
    }
    let mut k: usize = 0;
    while k < n
        invariant
            n == v@.len(),
            verdicts_ok(m, ids, b, v@),
            forall|q: int| 0 <= q < n ==> 0 <= #[trigger] first_report(m, ids, b, q) <= q,
            k <= n,
            forall|p: int|
                0 <= p < deaths@.len() ==> {
                    &&& 0 <= #[trigger] deaths@[p].victim < m.len()
                    &&& dies(m, ids, b, deaths@[p].victim as int)
                    &&& deaths@[p].killer == killer_of(m, ids, b, deaths@[p].victim as int)
                    &&& first_report(m, ids, b, deaths@[p].victim as int) < k
                },
            forall|p: int, q: int|
                0 <= p < q < deaths@.len() ==> announced_before(
                    m,
                    ids,
                    b,
                    #[trigger] deaths@[p].victim as int,
                    #[trigger] deaths@[q].victim as int,
                ),
            forall|i: int|
                0 <= i < n && dies(m, ids, b, i) && first_report(m, ids, b, i) < k ==> exists|p: int|
                    0 <= p < deaths@.len() && #[trigger] deaths@[p].victim == i,
        decreases n - k,
    {
        let mut i: usize = k;
        while i < n
            invariant
                n == v@.len(),
                verdicts_ok(m, ids, b, v@),
                forall|q: int| 0 <= q < n ==> 0 <= #[trigger] first_report(m, ids, b, q) <= q,
                k < n,
                k <= i <= n,
                forall|p: int|
                    0 <= p < deaths@.len() ==> {
                        &&& 0 <= #[trigger] deaths@[p].victim < m.len()
                        &&& dies(m, ids, b, deaths@[p].victim as int)
                        &&& deaths@[p].killer == killer_of(m, ids, b, deaths@[p].victim as int)
                        &&& (first_report(m, ids, b, deaths@[p].victim as int) < k || (first_report(
                            m,
                            ids,
                            b,
                            deaths@[p].victim as int,
                        ) == k && deaths@[p].victim < i))
                    },
                forall|p: int, q: int|
                    0 <= p < q < deaths@.len() ==> announced_before(
                        m,
                        ids,
                        b,
                        #[trigger] deaths@[p].victim as int,
                        #[trigger] deaths@[q].victim as int,
                    ),
                forall|q: int|
                    0 <= q < n && dies(m, ids, b, q) && (first_report(m, ids, b, q) < k || (
                    first_report(m, ids, b, q) == k && q < i)) ==> exists|p: int|
                        0 <= p < deaths@.len() && #[trigger] deaths@[p].victim == q,
            decreases n - i,
        {
            if v[i].dies && v[i].reporter == k {
                let ghost before = deaths@;
                deaths.push(Death { victim: i, killer: v[i].killer });
                proof {
                    assert(deaths@[before.len() as int].victim == i);
                    assert forall|q: int|
                        0 <= q < n && dies(m, ids, b, q) && (first_report(m, ids, b, q) < k || (
                        first_report(m, ids, b, q) == k && q < i + 1)) implies exists|p: int|
                        0 <= p < deaths@.len() && #[trigger] deaths@[p].victim == q by {
                        if q == i {
                            assert(deaths@[before.len() as int].victim == q);
                        } else {
                            let p = choose|p: int| 0 <= p < before.len() && #[trigger] before[p].victim == q;
                            assert(deaths@[p].victim == q);
                        }
                    }
                }
            }
            i = i + 1;
        }
        proof {
            assert forall|q: int|
                0 <= q < n && dies(m, ids, b, q) && first_report(m, ids, b, q) < k + 1 implies exists|p: int|
                0 <= p < deaths@.len() && #[trigger] deaths@[p].victim == q by {
                if first_report(m, ids, b, q) == k {
                    assert(q < n);
                }
            }
        }
        k = k + 1;
    }
    deaths
}

/// Number of deaths credited to `id`.
fn count_credits(v: &Vec<Verdict>, id: SnakeId, Ghost(m): Ghost<Seq<SnakeView>>, Ghost(ids): Ghost<Seq<SnakeId>>, Ghost(b): Ghost<ArenaBounds>) -> (r: usize)
    requires
        verdicts_ok(m, ids, b, v@),
    ensures
        r == credits(m, ids, b, id, m.len() as int),
{
    let n = v.len();
    let mut count: usize = 0;
    let mut i: usize = 0;
    while i < n
        invariant
            n == v@.len(),
            verdicts_ok(m, ids, b, v@),
            i <= n,
            count <= i,
            count == credits(m, ids, b, id, i as int),
        decreases n - i,
    {
        if v[i].dies {
            match v[i].killer {
                Some(k) => {
                    if k == id {
                        count = count + 1;
                    }
                },
                None => {},
            }
        }
        i = i + 1;
    }
    count
}

/// Snake `j` after its deaths and kill credits are settled.
pub open spec fn settled(m: Seq<SnakeView>, ids: Seq<SnakeId>, b: ArenaBounds, j: int) -> SnakeView {
    SnakeView {
        alive: survives(m, ids, b, j),
        kills: (m[j].kills + credits(m, ids, b, ids[j], m.len() as int)) as u32,
        ..m[j]
    }
}

/// Credits every kill to the killer and marks the dead.
fn settle_deaths(snakes: &mut Vec<Snake>, ids: &Vec<SnakeId>, v: &Vec<Verdict>, Ghost(b): Ghost<ArenaBounds>, Ghost(foods): Ghost<Seq<Food>>)
    requires
        old(snakes)@.len() == ids@.len(),
        verdicts_ok(views(old(snakes)@), ids@, b, v@),
        counters_fit(views(old(snakes)@), ids@, b, foods),
    ensures
        final(snakes)@.len() == old(snakes)@.len(),
        forall|j: int|
            0 <= j < old(snakes)@.len() ==> #[trigger] final(snakes)@[j]@ == settled(
                views(old(snakes)@),
                ids@,
                b,
                j,
            ),
{
    let ghost m = views(snakes@);
    let n = snakes.len();
    let mut j: usize = 0;
    while j < n
        invariant
            n == snakes@.len(),
            n == ids@.len(),
            m.len() == n,
            verdicts_ok(m, ids@, b, v@),
            counters_fit(m, ids@, b, foods),
            j <= n,
            forall|q: int| 0 <= q < j ==> #[trigger] snakes@[q]@ == settled(m, ids@, b, q),
            forall|q: int| j <= q < n ==> #[trigger] snakes@[q]@ == m[q],
        decreases n - j,
    {
        let c = count_credits(v, ids[j], Ghost(m), Ghost(ids@), Ghost(b));
        assert(snakes@[j as int]@ == m[j as int]);
        assert(m[j as int].kills + credits(m, ids@, b, ids@[j as int], m.len() as int) <= u32::MAX);
        let kills = snakes[j].kills + c as u32;
        snakes[j].kills = kills;
        if v[j].dies {
            snakes[j].alive = false;
        }
        assert(snakes@[j as int]@ == settled(m, ids@, b, j as int));
        j = j + 1;
    }
}

/// Number of foods lying at `pos`.
fn foods_at(foods: &Vec<Food>, pos: GridPos) -> (r: usize)
    ensures
        r == food_count_at(foods@, pos, foods@.len() as int),
{
    let n = foods.len();
    let mut count: usize = 0;
    let mut f: usize = 0;
    while f < n
        invariant
            n == foods@.len(),
            f <= n,
            count <= f,
            count == food_count_at(foods@, pos, f as int),
        decreases n - f,
    {
        if foods[f].pos == pos {
            count = count + 1;
        }
        f = f + 1;
    }
    count
}

/// Surviving snakes grow two segments and score one point per food under
/// their head.
fn feed_survivors(snakes: &mut Vec<Snake>, foods: &Vec<Food>, Ghost(m): Ghost<Seq<SnakeView>>, Ghost(ids): Ghost<Seq<SnakeId>>, Ghost(b): Ghost<ArenaBounds>)
    requires
        old(snakes)@.len() == m.len(),
        ids.len() == m.len(),
        living_wf(m),
        counters_fit(m, ids, b, foods@),
        forall|j: int| 0 <= j < m.len() ==> #[trigger] old(snakes)@[j]@ == settled(m, ids, b, j),
    ensures
        final(snakes)@.len() == m.len(),
        forall|j: int| 0 <= j < m.len() ==> #[trigger] final(snakes)@[j]@ == after_tick(m, ids, b, foods@, j),
{
    let n = snakes.len();
    let mut j: usize = 0;
    while j < n
        invariant
            n == snakes@.len(),
            n == m.len(),
            ids.len() == n,
            living_wf(m),
            counters_fit(m, ids, b, foods@),
            j <= n,
            forall|q: int| 0 <= q < j ==> #[trigger] snakes@[q]@ == after_tick(m, ids, b, foods@, q),
            forall|q: int| j <= q < n ==> #[trigger] snakes@[q]@ == settled(m, ids, b, q),
        decreases n - j,
    {
        assert(snakes@[j as int]@ == settled(m, ids, b, j as int));
        if snakes[j].alive {
            assert(m[j as int].wf());
            let head = snakes[j].head();
            let under = foods_at(foods, head);
            assert(under == meals(m, ids, b, foods@, j as int));
            assert(m[j as int].grow_pending + 2 * meals(m, ids, b, foods@, j as int) <= usize::MAX);
            let grow = snakes[j].grow_pending + 2 * under;
            let score = snakes[j].score + under as u32;
            snakes[j].grow_pending = grow;
            snakes[j].score = score;
        }
        assert(snakes@[j as int]@ == after_tick(m, ids, b, foods@, j as int));
        j = j + 1;
    }
}

/// For each food, whether a surviving snake's head lies on it.
fn eaten_flags(snakes: &Vec<Snake>, foods: &Vec<Food>, Ghost(m): Ghost<Seq<SnakeView>>, Ghost(ids): Ghost<Seq<SnakeId>>, Ghost(b): Ghost<ArenaBounds>) -> (r: (Vec<bool>, usize))
    requires
        snakes@.len() == m.len(),
        living_wf(m),
        forall|j: int| 0 <= j < m.len() ==> (#[trigger] snakes@[j]@).alive == survives(m, ids, b, j)
            && snakes@[j]@.segments == m[j].segments,
    ensures
        r.0@.len() == foods@.len(),
        forall|f: int| 0 <= f < foods@.len() ==> #[trigger] r.0@[f] == eaten(m, ids, b, foods@, f),
        r.1 == eaten_count(m, ids, b, foods@, foods@.len() as int),
        r.1 <= foods@.len(),
{
    let nf = foods.len();
    let n = snakes.len();
    let mut flags: Vec<bool> = Vec::new();
    let mut count: usize = 0;
    let mut f: usize = 0;
    while f < nf
        invariant
            nf == foods@.len(),
            n == snakes@.len(),
            n == m.len(),
            living_wf(m),
            forall|j: int| 0 <= j < m.len() ==> (#[trigger] snakes@[j]@).alive == survives(m, ids, b, j)
                && snakes@[j]@.segments == m[j].segments,
            f <= nf,
            flags@.len() == f,
            count <= f,
            count == eaten_count(m, ids, b, foods@, f as int),
            forall|q: int| 0 <= q < f ==> #[trigger] flags@[q] == eaten(m, ids, b, foods@, q),
        decreases nf - f,
    {
        let pos = foods[f].pos;
        let mut hit = false;
        let mut j: usize = 0;
        while j < n
            invariant
                n == snakes@.len(),
                n == m.len(),
                f < nf,
                nf == foods@.len(),
                pos == foods@[f as int].pos,
                living_wf(m),
                forall|q: int| 0 <= q < m.len() ==> (#[trigger] snakes@[q]@).alive == survives(m, ids, b, q)
                    && snakes@[q]@.segments == m[q].segments,
                j <= n,
                hit == exists|q: int| 0 <= q < j && survives(m, ids, b, q) && #[trigger] m[q].head() == pos,
            decreases n - j,
        {
            assert(snakes@[j as int]@.alive == survives(m, ids, b, j as int));
            if snakes[j].alive {
                assert(m[j as int].wf());
                if snakes[j].head() == pos {
                    assert(m[j as int].head() == pos);
                    hit = true;
                }
            }
            j = j + 1;
        }
        flags.push(hit);
        if hit {
            count = count + 1;
        }
        f = f + 1;
    }
    (flags, count)
}

/// Number of living snakes.
fn count_alive(snakes: &Vec<Snake>, Ghost(m): Ghost<Seq<SnakeView>>, Ghost(ids): Ghost<Seq<SnakeId>>, Ghost(b): Ghost<ArenaBounds>) -> (r: usize)
    requires
        snakes@.len() == m.len(),
        forall|j: int| 0 <= j < m.len() ==> (#[trigger] snakes@[j]@).alive == survives(m, ids, b, j),
    ensures
        r == survivor_count(m, ids, b, m.len() as int),
{
    let n = snakes.len();
    let mut count: usize = 0;
    let mut j: usize = 0;
    while j < n
        invariant
            n == snakes@.len(),
            n == m.len(),
            forall|q: int| 0 <= q < m.len() ==> (#[trigger] snakes@[q]@).alive == survives(m, ids, b, q),
            j <= n,
            count <= j,
            count == survivor_count(m, ids, b, j as int),
        decreases n - j,
    {
        assert(snakes@[j as int]@.alive == survives(m, ids, b, j as int));
        if snakes[j].alive {
            count = count + 1;
        }
        j = j + 1;
    }
    count
}

/// `count` new foods drawn from the arena interior.
fn draw_foods(rng: &mut SimpleRng, bounds: &ArenaBounds, count: usize) -> (r: Vec<Food>)
    requires
        count > 0 ==> interior_drawable(*bounds),
    ensures
        final(rng).spec_state() == state_after(old(rng).spec_state(), (2 * count) as nat),
        r@.len() == count,
        forall|t: int| 0 <= t < count ==> (#[trigger] r@[t]).pos == refill_food(old(rng).spec_state(), *bounds, t),
{
    let ghost s0 = rng.spec_state();
    let mut spawned: Vec<Food> = Vec::new();
    let mut t: usize = 0;
    while t < count
        invariant
            count > 0 ==> interior_drawable(*bounds),
            t <= count,
            spawned@.len() == t,
            rng.spec_state() == state_after(s0, (2 * t) as nat),
            forall|q: int| 0 <= q < t ==> (#[trigger] spawned@[q]).pos == refill_food(s0, *bounds, q),
        decreases count - t,
    {
        let x = rng.range(bounds.min_x + 1, bounds.max_x - 1);
        assert(rng.spec_state() == state_after(s0, (2 * t + 1) as nat));
        let y = rng.range(bounds.min_y + 1, bounds.max_y - 1);
        assert(rng.spec_state() == state_after(s0, (2 * (t + 1)) as nat));
        spawned.push(Food::new(x, y));
        assert(spawned@[t as int].pos == refill_food(s0, *bounds, t as int));
        t = t + 1;
    }
    spawned
}

/// What a tick produced besides the updated snakes.
pub struct TickOutcome {
    /// The deaths, in announcement order.
    pub deaths: Vec<Death>,
    /// For each food, whether it was eaten (and so leaves the field).
    pub eaten: Vec<bool>,
    /// New foods placed to refill the field.
    pub spawned: Vec<Food>,
    /// At most one snake is left in a match that had more than one.
    pub game_over: bool,
}

/// One game tick: every living snake steps; snakes whose head left the arena,
/// hit a body (their own or another's) or met another head die, and a body
/// hit is credited to the body's owner; surviving snakes eat the food under
/// their head (two segments of growth and one point per food); eaten food is
/// replaced so that `NUM_FOOD` are on the field; the match is over when at
/// most one snake is left of more than one.
pub fn game_tick(
    snakes: &mut Vec<Snake>,
    ids: &Vec<SnakeId>,
    foods: &Vec<Food>,
    bounds: &ArenaBounds,
    match_state: &mut MatchState,
    rng: &mut SimpleRng,
) -> (r: TickOutcome)
    requires
        tick_ready(views(old(snakes)@), ids@, *bounds, foods@),
    ensures
        ({
            let m = moved_all(views(old(snakes)@));
            let survivors = survivor_count(m, ids@, *bounds, m.len() as int) as u32;
            let refill = refill_count(m, ids@, *bounds, foods@);
            &&& final(snakes)@.len() == old(snakes)@.len()
            &&& forall|j: int|
                0 <= j < m.len() ==> #[trigger] final(snakes)@[j]@ == after_tick(m, ids@, *bounds, foods@, j)
            &&& deaths_listed(m, ids@, *bounds, r.deaths@)
            &&& r.eaten@.len() == foods@.len()
            &&& forall|f: int| 0 <= f < foods@.len() ==> #[trigger] r.eaten@[f] == eaten(m, ids@, *bounds, foods@, f)
            &&& r.spawned@.len() == refill
            &&& forall|t: int|
                0 <= t < refill ==> (#[trigger] r.spawned@[t]).pos == refill_food(old(rng).spec_state(), *bounds, t)
            &&& final(rng).spec_state() == state_after(old(rng).spec_state(), 2 * refill)
            &&& final(match_state).alive_count == survivors
            &&& final(match_state).total_snakes == old(match_state).total_snakes
            &&& r.game_over == (survivors <= 1 && old(match_state).total_snakes > 1)
        }),
{
    let ghost pre = views(snakes@);
    let ghost b = *bounds;
    move_living(snakes);
    let ghost m = views(snakes@);
    proof {
        lemma_moved_living_wf(pre);
    }
    let verdicts = all_verdicts(snakes, ids, bounds);
    let deaths = list_deaths(&verdicts, Ghost(m), Ghost(ids@), Ghost(b));
    settle_deaths(snakes, ids, &verdicts, Ghost(b), Ghost(foods@));
    let (eaten, eaten_total) = eaten_flags(snakes, foods, Ghost(m), Ghost(ids@), Ghost(b));
    let alive = count_alive(snakes, Ghost(m), Ghost(ids@), Ghost(b)) as u32;
    match_state.alive_count = alive;
    let game_over = alive <= 1 && match_state.total_snakes > 1;
    feed_survivors(snakes, foods, Ghost(m), Ghost(ids@), Ghost(b));
    let remaining = foods.len() - eaten_total;
    let refill = if remaining < NUM_FOOD {
        NUM_FOOD - remaining
    } else {
        0
    };
    let spawned = draw_foods(rng, bounds, refill);
    TickOutcome { deaths, eaten, spawned, game_over }
}

} // verus!
