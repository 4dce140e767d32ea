use vstd::prelude::*;

use crate::game::{GameState, GridPos, Snake, SnakeView};
use crate::tick::views;

verus! {

/// Snake `i` is the one to follow: alive, no living snake scores more, and no
/// later living snake scores as much (the last of the best is taken).
pub open spec fn is_spectate_target(s: Seq<SnakeView>, i: int) -> bool {
    &&& 0 <= i < s.len()
    &&& s[i].alive
    &&& forall|j: int| 0 <= j < s.len() && s[j].alive ==> #[trigger] s[j].score <= s[i].score
    &&& forall|j: int| i < j < s.len() && s[j].alive ==> #[trigger] s[j].score < s[i].score
}

/// The living snake with the highest score (the last of them on a tie), if
/// any snake is alive.
pub fn spectate_target(snakes: &Vec<Snake>) -> (r: Option<usize>)
    ensures
        r matches Some(i) ==> is_spectate_target(views(snakes@), i as int),
        r is None ==> forall|j: int| 0 <= j < snakes@.len() ==> !(#[trigger] snakes@[j]@).alive,
{
    let ghost s = views(snakes@);
    let n = snakes.len();
    let mut best: Option<usize> = None;
    let mut j: usize = 0;
    while j < n
        invariant
            n == snakes@.len(),
            s == views(snakes@),
            j <= n,
            best matches Some(i) ==> {
                &&& i < j
                &&& s[i as int].alive
                &&& forall|q: int| 0 <= q < j && s[q].alive ==> #[trigger] s[q].score <= s[i as int].score
                &&& forall|q: int| i < q < j && s[q].alive ==> #[trigger] s[q].score < s[i as int].score
            },
            best is None ==> forall|q: int| 0 <= q < j ==> !(#[trigger] s[q]).alive,
        decreases n - j,
    {
        assert(snakes@[j as int]@ == s[j as int]);
        if snakes[j].alive {
            match best {
                Some(i) => {
                    assert(snakes@[i as int]@ == s[i as int]);
                    if snakes[j].score >= snakes[i].score {
                        best = Some(j);
                    }
                },
                None => {
                    best = Some(j);
                },
            }
        }
        j = j + 1;
    }
    proof {
        if best is None {
            assert forall|q: int| 0 <= q < snakes@.len() implies !(#[trigger] snakes@[q]@).alive by {
                assert(snakes@[q]@ == s[q]);
            }
        }
    }
    best
}

/// The spectating caption is shown while playing with the player dead (or
/// not there).
pub open spec fn spec_show_spectating(state: GameState, player_alive: Option<bool>) -> bool {
    state == GameState::Playing && player_alive != Some(true)
}

pub fn show_spectating(state: GameState, player_alive: Option<bool>) -> (r: bool)
    ensures
        r == spec_show_spectating(state, player_alive),
{
    let player_dead = match player_alive {
        Some(alive) => !alive,
        None => true,
    };
    state == GameState::Playing && player_dead
}

/// The cell the camera heads for (none: the arena's centre): while playing,
/// the player's head, or once the player is dead the head of the snake to
/// follow (see `spectate_target`).
pub fn camera_focus(state: GameState, player: Option<&Snake>, others: &Vec<Snake>) -> (r: Option<GridPos>)
    requires
        player matches Some(p) ==> (p@.alive ==> p@.wf()),
        forall|j: int| 0 <= j < others@.len() && (#[trigger] others@[j]@).alive ==> others@[j]@.wf(),
    ensures
        state != GameState::Playing ==> r is None,
        state == GameState::Playing ==> match player {
            None => r is None,
            Some(p) => if p@.alive {
                r == Some(p@.head())
            } else {
                match r {
                    Some(pos) => exists|i: int|
                        is_spectate_target(views(others@), i) && pos == others@[i]@.head(),
                    None => forall|j: int| 0 <= j < others@.len() ==> !(#[trigger] others@[j]@).alive,
                }
            },
        },
{
    if state != GameState::Playing {
        return None;
    }
    match player {
        None => None,
        Some(p) => {
            if p.alive {
                Some(p.head())
            } else {
                match spectate_target(others) {
                    Some(i) => {
                        assert(others@[i as int]@ == views(others@)[i as int]);
                        Some(others[i].head())
                    },
                    None => None,
                }
            }
        },
    }
}

} // verus!
