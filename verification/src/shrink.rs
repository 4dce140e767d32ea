use vstd::prelude::*;

use crate::game::{ArenaBounds, Food, Snake, SnakeView};

verus! {

/// What an arena shrink did.
pub struct ShrinkOutcome {
    /// Whether the arena shrank (it does not below the minimum size).
    pub shrunk: bool,
    /// The snakes crushed by the closing wall, by index, in order.
    pub crushed: Vec<usize>,
    /// For each food, whether it now lies outside the arena (and is removed).
    pub food_removed: Vec<bool>,
}

/// Snake `s` is crushed by the arena `b`: it is alive with its head outside.
pub open spec fn crushed_by(b: ArenaBounds, s: SnakeView) -> bool {
    s.alive && !b.spec_contains(s.head())
}

/// Snake `s` after the arena `b` closed in: dead if crushed, else as it was.
pub open spec fn after_crush(b: ArenaBounds, s: SnakeView) -> SnakeView {
    SnakeView { alive: s.alive && !crushed_by(b, s), ..s }
}

/// What a shrink did: `b0`, `s0` before and `b1`, `s1` after. The arena
/// shrinks by one ring unless it is at its minimum size; then every living
/// snake whose head is now outside dies (`crushed` lists them by index, in
/// order), and each food outside is marked removed.
pub open spec fn shrink_done(
    b0: ArenaBounds,
    b1: ArenaBounds,
    s0: Seq<Snake>,
    s1: Seq<Snake>,
    foods: Seq<Food>,
    r: ShrinkOutcome,
) -> bool {
    &&& r.shrunk == b0.spec_can_shrink()
    &&& b1 == b0.after_shrink()
    &&& !r.shrunk ==> s1 == s0 && r.crushed@.len() == 0 && r.food_removed@.len() == 0
    &&& r.shrunk ==> {
        let b = b0.after_shrink();
        &&& s1.len() == s0.len()
        &&& forall|j: int| 0 <= j < s0.len() ==> #[trigger] s1[j]@ == after_crush(b, s0[j]@)
        &&& forall|p: int, q: int| 0 <= p < q < r.crushed@.len() ==> r.crushed@[p] < r.crushed@[q]
        &&& forall|p: int|
            0 <= p < r.crushed@.len() ==> #[trigger] r.crushed@[p] < s0.len() && crushed_by(
                b,
                s0[r.crushed@[p] as int]@,
            )
        &&& forall|j: int| 0 <= j < s0.len() && crushed_by(b, #[trigger] s0[j]@) ==> r.crushed@.contains(j as usize)
        &&& r.food_removed@.len() == foods.len()
        &&& forall|f: int| 0 <= f < foods.len() ==> #[trigger] r.food_removed@[f] == !b.spec_contains(foods[f].pos)
    }
}

/// When the shrink timer fires: the arena shrinks by one ring unless it is at
/// its minimum size; then every living snake whose head is now outside dies,
/// and the food outside is removed.
pub fn arena_shrink(bounds: &mut ArenaBounds, snakes: &mut Vec<Snake>, foods: &Vec<Food>) -> (r: ShrinkOutcome)
    requires
        old(bounds).size_fits(),
        forall|j: int| 0 <= j < old(snakes)@.len() && (#[trigger] old(snakes)@[j]).alive ==> old(snakes)@[j]@.wf(),
    ensures
        shrink_done(*old(bounds), *final(bounds), old(snakes)@, final(snakes)@, foods@, r),
{
    if !bounds.can_shrink() {
        return ShrinkOutcome { shrunk: false, crushed: Vec::new(), food_removed: Vec::new() };
    }
    bounds.shrink();
    let ghost pre = snakes@;
    let n = snakes.len();
    let mut crushed: Vec<usize> = Vec::new();
    let mut j: usize = 0;
    while j < n
        invariant
            n == snakes@.len(),
            pre.len() == n,
            forall|q: int| 0 <= q < n && (#[trigger] pre[q]).alive ==> pre[q]@.wf(),
            j <= n,
            forall|q: int|
                0 <= q < j ==> #[trigger] snakes@[q]@ == after_crush(*bounds, pre[q]@),
            forall|q: int| j <= q < n ==> #[trigger] snakes@[q] == pre[q],
            forall|p: int, q: int| 0 <= p < q < crushed@.len() ==> crushed@[p] < crushed@[q],
            forall|p: int| 0 <= p < crushed@.len() ==> #[trigger] crushed@[p] < j,
            forall|p: int| 0 <= p < crushed@.len() ==> crushed_by(*bounds, #[trigger] pre[crushed@[p] as int]@),
            forall|q: int| 0 <= q < j && crushed_by(*bounds, #[trigger] pre[q]@) ==> crushed@.contains(q as usize),
        decreases n - j,
    {
        assert(snakes@[j as int] == pre[j as int]);
        if snakes[j].alive && !bounds.contains(snakes[j].head()) {
            snakes[j].alive = false;
            let ghost before = crushed@;
            crushed.push(j);
            proof {
                assert(crushed@[before.len() as int] == j);
                assert forall|q: int| 0 <= q < j + 1 && crushed_by(*bounds, #[trigger] pre[q]@) implies crushed@.contains(
                    q as usize,
                ) by {
                    if q < j {
                        assert(before.contains(q as usize));
                        let p = choose|p: int| 0 <= p < before.len() && before[p] == q as usize;
                        assert(crushed@[p] == q as usize);
                    }
                }
            }
        }
        j = j + 1;
    }
    let nf = foods.len();
    let mut food_removed: Vec<bool> = Vec::new();
    let mut f: usize = 0;
    while f < nf
        invariant
            nf == foods@.len(),
            f <= nf,
            food_removed@.len() == f,
            forall|q: int| 0 <= q < f ==> #[trigger] food_removed@[q] == !bounds.spec_contains(foods@[q].pos),
        decreases nf - f,
    {
        food_removed.push(!bounds.contains(foods[f].pos));
        f = f + 1;
    }
    ShrinkOutcome { shrunk: true, crushed, food_removed }
}

/// The danger zone flashes in the last two seconds before a shrink, while
/// the arena can still shrink (`elapsed_ms` into an interval of
/// `interval_ms`).
pub open spec fn spec_shrink_warning(can_shrink: bool, elapsed_ms: u32, interval_ms: u32) -> bool {
    can_shrink && elapsed_ms + 2000 > interval_ms
}

pub fn shrink_warning(can_shrink: bool, elapsed_ms: u32, interval_ms: u32) -> (r: bool)
    ensures
        r == spec_shrink_warning(can_shrink, elapsed_ms, interval_ms),
{
    can_shrink && (elapsed_ms as u64) + 2000 > interval_ms as u64
}

/// One frame of the shrink timer: whether the danger zone flashes (computed
/// before any shrink, see `spec_shrink_warning`), whether the warning sound
/// starts (the flash just turned on), and, when the timer `fired`, the
/// shrink (see `arena_shrink`).
pub struct ShrinkFrame {
    pub warning: bool,
    pub warning_sound: bool,
    pub outcome: Option<ShrinkOutcome>,
}

/// The shrink timer's frame: the warning from the arena as it is and the
/// time into the interval (its sound when it was off on the last frame,
/// `was_warning`), then, if the timer fired, one `arena_shrink`.
pub fn shrink_frame(
    bounds: &mut ArenaBounds,
    snakes: &mut Vec<Snake>,
    foods: &Vec<Food>,
    elapsed_ms: u32,
    interval_ms: u32,
    was_warning: bool,
    fired: bool,
) -> (r: ShrinkFrame)
    requires
        old(bounds).size_fits(),
        forall|j: int| 0 <= j < old(snakes)@.len() && (#[trigger] old(snakes)@[j]).alive ==> old(snakes)@[j]@.wf(),
    ensures
        r.warning == spec_shrink_warning(old(bounds).spec_can_shrink(), elapsed_ms, interval_ms),
        r.warning_sound == (r.warning && !was_warning),
        !fired ==> r.outcome is None && *final(bounds) == *old(bounds) && final(snakes)@ == old(snakes)@,
        fired ==> (r.outcome matches Some(o) && shrink_done(
            *old(bounds),
            *final(bounds),
            old(snakes)@,
            final(snakes)@,
            foods@,
            o,
        )),
{
    let warning = shrink_warning(bounds.can_shrink(), elapsed_ms, interval_ms);
    let warning_sound = warning && !was_warning;
    if !fired {
        return ShrinkFrame { warning, warning_sound, outcome: None };
    }
    let o = arena_shrink(bounds, snakes, foods);
    ShrinkFrame { warning, warning_sound, outcome: Some(o) }
}

} // verus!
