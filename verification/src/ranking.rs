use vstd::prelude::*;

use crate::game::{Snake, SnakeId, SnakeView};
use crate::text::{spec_winner_text, winner_text};
use crate::tick::views;

verus! {

// ---------------------------------------------------------------------------
// Rankings
// ---------------------------------------------------------------------------

/// `a` ranks strictly above `b`: alive before dead, then higher score, then
/// more kills.
pub open spec fn outranks(a: SnakeView, b: SnakeView) -> bool {
    ||| (a.alive && !b.alive)
    ||| (a.alive == b.alive && a.score > b.score)
    ||| (a.alive == b.alive && a.score == b.score && a.kills > b.kills)
}

/// `a` and `b` rank the same.
pub open spec fn ties(a: SnakeView, b: SnakeView) -> bool {
    a.alive == b.alive && a.score == b.score && a.kills == b.kills
}

/// In the rankings of `s`, snake `i` comes before snake `j`: it ranks higher,
/// or ranks the same and came first (the sort is stable).
pub open spec fn listed_before(s: Seq<SnakeView>, i: int, j: int) -> bool {
    outranks(s[i], s[j]) || (ties(s[i], s[j]) && i < j)
}

/// `order` lists every index of `s` once, best ranked first.
pub open spec fn ranked(s: Seq<SnakeView>, order: Seq<usize>) -> bool {
    &&& order.len() == s.len()
    &&& s.len() <= usize::MAX
    &&& forall|p: int| 0 <= p < order.len() ==> #[trigger] order[p] < s.len()
    &&& forall|i: int| 0 <= i < s.len() ==> #[trigger] order.contains(i as usize)
    &&& forall|p: int, q: int|
        0 <= p < q < order.len() ==> listed_before(s, #[trigger] order[p] as int, #[trigger] order[q] as int)
}

/// The first `p` places of a ranking hold `p` different snakes.
pub proof fn lemma_distinct_prefix_set_len(s: Seq<SnakeView>, o: Seq<usize>, p: int)
    requires
        ranked(s, o),
        0 <= p <= o.len(),
    ensures
        o.take(p).to_set().len() == p,
{
    let t = o.take(p);
    assert forall|a: int, b: int| 0 <= a < b < t.len() implies t[a] != t[b] by {
        assert(listed_before(s, o[a] as int, o[b] as int));
    }
    assert(t.no_duplicates());
    t.unique_seq_to_set();
}

/// `listed_before` is a strict total order on indices: transitive, total on
/// distinct indices, asymmetric and irreflexive.
pub proof fn lemma_listed_before_order(s: Seq<SnakeView>, i: int, j: int, k: int)
    ensures
        listed_before(s, i, j) && listed_before(s, j, k) ==> listed_before(s, i, k),
        i != j ==> (listed_before(s, i, j) || listed_before(s, j, i)),
        !(listed_before(s, i, j) && listed_before(s, j, i)),
        !listed_before(s, i, i),
{
}

/// Whether snake `i` ranks strictly above snake `j`.
fn outranks_exec(a: &Snake, b: &Snake) -> (r: bool)
    ensures
        r == outranks(a@, b@),
{
    (a.alive && !b.alive) || (a.alive == b.alive && a.score > b.score) || (a.alive == b.alive && a.score
        == b.score && a.kills > b.kills)
}

/// The snakes' indices best ranked first: alive before dead, then by score,
/// then by kills, snakes that tie keeping their order.
pub fn rank_order(snakes: &Vec<Snake>) -> (r: Vec<usize>)
    ensures
        ranked(views(snakes@), r@),
{
    let ghost s = views(snakes@);
    let n = snakes.len();
    let mut order: Vec<usize> = Vec::new();
    let mut i: usize = 0;
    while i < n
        invariant
            n == snakes@.len(),
            s == views(snakes@),
            i <= n,
            order@.len() == i,
            forall|p: int| 0 <= p < order@.len() ==> #[trigger] order@[p] < i,
            forall|q: int| 0 <= q < i ==> #[trigger] order@.contains(q as usize),
            forall|p: int, q: int|
                0 <= p < q < order@.len() ==> listed_before(s, #[trigger] order@[p] as int, #[trigger] order@[q] as int),
        decreases n - i,
    {
        let mut p: usize = 0;
        while p < order.len()
            invariant
                n == snakes@.len(),
                s == views(snakes@),
                i < n,
                order@.len() == i,
                forall|q: int| 0 <= q < order@.len() ==> #[trigger] order@[q] < i,
                p <= order@.len(),
                forall|q: int| 0 <= q < p ==> listed_before(s, #[trigger] order@[q] as int, i as int),
            ensures
                p <= order@.len(),
                forall|q: int| 0 <= q < p ==> listed_before(s, #[trigger] order@[q] as int, i as int),
                p < order@.len() ==> outranks(s[i as int], s[order@[p as int] as int]),
            decreases order@.len() - p,
        {
            let j = order[p];
            assert(snakes@[i as int]@ == s[i as int] && snakes@[j as int]@ == s[j as int]);
            if outranks_exec(&snakes[i], &snakes[j]) {
                break;
            }
            proof {
                lemma_listed_before_order(s, i as int, j as int, 0);
            }
            p = p + 1;
        }
        let ghost before = order@;
        proof {
            if p < before.len() {
                assert(listed_before(s, i as int, before[p as int] as int));
            }
        }
        order.insert(p, i);
        proof {
            assert(order@ == before.insert(p as int, i));
            assert forall|a: int, b: int| 0 <= a < b < order@.len() implies listed_before(
                s,
                #[trigger] order@[a] as int,
                #[trigger] order@[b] as int,
            ) by {
                if b < p {
                } else if b == p {
                    assert(order@[a] == before[a]);
                } else if a == p {
                    assert(order@[b] == before[b - 1]);
                    if b - 1 > p {
                        lemma_listed_before_order(s, i as int, before[p as int] as int, before[b - 1] as int);
                    }
                } else if a < p {
                    assert(order@[a] == before[a]);
                    assert(order@[b] == before[b - 1]);
                } else {
                    assert(order@[a] == before[a - 1]);
                    assert(order@[b] == before[b - 1]);
                }
            }
            assert forall|q: int| 0 <= q < i + 1 implies #[trigger] order@.contains(q as usize) by {
                if q == i {
                    assert(order@[p as int] == i);
                } else {
                    assert(before.contains(q as usize));
                    let w = choose|w: int| 0 <= w < before.len() && before[w] == q as usize;
                    if w < p {
                        assert(order@[w] == q as usize);
                    } else {
                        assert(order@[w + 1] == q as usize);
                    }
                }
            }
            assert forall|a: int| 0 <= a < order@.len() implies #[trigger] order@[a] < i + 1 by {
                if a < p {
                    assert(order@[a] == before[a]);
                } else if a > p {
                    assert(order@[a] == before[a - 1]);
                }
            }
        }
        i = i + 1;
    }
    order
}

/// The first living snake among `s[k..]`, if any.
pub open spec fn first_alive_from(s: Seq<SnakeView>, k: int) -> Option<int>
    decreases s.len() - k,
{
    if k >= s.len() || k < 0 {
        None
    } else if s[k].alive {
        Some(k)
    } else {
        first_alive_from(s, k + 1)
    }
}

/// The first living snake, if any (the winner once the match is over).
pub open spec fn first_alive(s: Seq<SnakeView>) -> Option<int> {
    first_alive_from(s, 0)
}

/// Sum of the kill counts of `s[0..n]`.
pub open spec fn kill_total(s: Seq<SnakeView>, n: int) -> nat
    decreases n,
{
    if n <= 0 {
        0
    } else {
        kill_total(s, n - 1) + s[n - 1].kills as nat
    }
}

/// The index of the first living snake.
pub(crate) fn find_first_alive(snakes: &Vec<Snake>) -> (r: Option<usize>)
    ensures
        match r {
            Some(i) => first_alive(views(snakes@)) == Some(i as int),
            None => first_alive(views(snakes@)) is None,
        },
        r matches Some(i) ==> i < snakes@.len(),
{
    let ghost s = views(snakes@);
    let n = snakes.len();
    let mut i: usize = 0;
    while i < n
        invariant
            n == snakes@.len(),
            s == views(snakes@),
            i <= n,
            first_alive(s) == first_alive_from(s, i as int),
        decreases n - i,
    {
        assert(snakes@[i as int]@ == s[i as int]);
        if snakes[i].alive {
            return Some(i);
        }
        i = i + 1;
    }
    None
}

/// Sum of all kills.
pub(crate) fn sum_kills(snakes: &Vec<Snake>) -> (r: u32)
    requires
        kill_total(views(snakes@), snakes@.len() as int) <= u32::MAX,
    ensures
        r == kill_total(views(snakes@), snakes@.len() as int),
{
    let ghost s = views(snakes@);
    let n = snakes.len();
    let mut total: u32 = 0;
    let mut i: usize = 0;
    while i < n
        invariant
            n == snakes@.len(),
            s == views(snakes@),
            kill_total(s, n as int) <= u32::MAX,
            i <= n,
            total == kill_total(s, i as int),
        decreases n - i,
    {
        proof {
            lemma_kill_total_monotone(s, i + 1, n as int);
        }
        assert(snakes@[i as int]@ == s[i as int]);
        total = total + snakes[i].kills;
        i = i + 1;
    }
    total
}

proof fn lemma_kill_total_monotone(s: Seq<SnakeView>, a: int, b: int)
    requires
        0 <= a <= b <= s.len(),
    ensures
        kill_total(s, a) <= kill_total(s, b),
    decreases b,
{
    if a < b {
        lemma_kill_total_monotone(s, a, b - 1);
    }
}

/// One row of the game-over rankings.
pub struct RankingEntry {
    pub name: String,
    /// The snake's id (it gives the row its colour).
    pub snake_id: u32,
    pub score: u32,
    pub kills: u32,
    pub alive: bool,
    pub is_player: bool,
}

/// `e` is the rankings row of snake `s` with id `id`.
pub open spec fn row_of(e: RankingEntry, s: SnakeView, id: SnakeId) -> bool {
    &&& e.name@ == crate::text::spec_display_name(id.0)
    &&& e.snake_id == id.0
    &&& e.score == s.score
    &&& e.kills == s.kills
    &&& e.alive == s.alive
    &&& e.is_player == (id.0 == 0)
}

/// What the game-over screen shows.
pub struct GameOverSummary {
    pub player_won: bool,
    pub player_lost: bool,
    pub winner_text: String,
    pub rankings: Vec<RankingEntry>,
    pub total_kills: u32,
}

/// The game-over screen: the winner is the first snake still alive (if any);
/// the rankings list every snake, alive first, then by score, then by kills.
pub fn game_over_summary(snakes: &Vec<Snake>, ids: &Vec<SnakeId>) -> (r: GameOverSummary)
    requires
        ids@.len() == snakes@.len(),
        kill_total(views(snakes@), snakes@.len() as int) <= u32::MAX,
    ensures
        ({
            let s = views(snakes@);
            let winner = match first_alive(s) {
                Some(i) => Some(ids@[i].0),
                None => None,
            };
            &&& r.player_won == (winner == Some(0u32))
            &&& r.player_lost == !r.player_won
            &&& r.winner_text@ == spec_winner_text(winner)
            &&& r.total_kills == kill_total(s, s.len() as int)
            &&& r.rankings@.len() == s.len()
            &&& exists|order: Seq<usize>|
                ranked(s, order) && forall|p: int|
                    0 <= p < s.len() ==> row_of(
                        #[trigger] r.rankings@[p],
                        s[order[p] as int],
                        ids@[order[p] as int],
                    )
        }),
{
    let ghost s = views(snakes@);
    let first = find_first_alive(snakes);
    let winner = match first {
        Some(i) => Some(ids[i].0),
        None => None,
    };
    let player_won = match winner {
        Some(id) => id == 0,
        None => false,
    };
    let order = rank_order(snakes);
    let n = order.len();
    let mut rankings: Vec<RankingEntry> = Vec::new();
    let mut p: usize = 0;
    while p < n
        invariant
            n == order@.len(),
            n == snakes@.len(),
            ids@.len() == n,
            s == views(snakes@),
            ranked(s, order@),
            p <= n,
            rankings@.len() == p,
            forall|q: int| 0 <= q < p ==> row_of(#[trigger] rankings@[q], s[order@[q] as int], ids@[order@[q] as int]),
        decreases n - p,
    {
        let i = order[p];
        assert(snakes@[i as int]@ == s[i as int]);
        let id = ids[i].0;
        let name = crate::text::display_name(id).to_owned();
        rankings.push(
            RankingEntry {
                name,
                snake_id: id,
                score: snakes[i].score,
                kills: snakes[i].kills,
                alive: snakes[i].alive,
                is_player: id == 0,
            },
        );
        p = p + 1;
    }
    let total_kills = sum_kills(snakes);
    GameOverSummary {
        player_won,
        player_lost: !player_won,
        winner_text: winner_text(winner),
        rankings,
        total_kills,
    }
}

} // verus!
