use vstd::prelude::*;

use crate::game::{ArenaBounds, GameState};

verus! {

/// Event-driven visual testing mode: which screenshots were taken, and what
/// was seen on the previous frame.
pub struct AutoTestState {
    pub enabled: bool,
    /// `captured[k]` is set once screenshot `k + 1` was taken (nine in all).
    pub captured: Vec<bool>,
    pub prev_alive_count: u32,
    pub arena_shrunk: bool,
}

/// What the test mode looks at on one frame.
pub struct AutoTestMoment {
    pub state: GameState,
    /// During the countdown: whether it is showing "3" (0.1 s to 0.9 s in)
    /// and whether "GO!" is up (3.1 s in).
    pub countdown: Option<(bool, bool)>,
    pub alive_count: u32,
    pub bounds: ArenaBounds,
    /// On the game-over screen: the reveal animation's phase.
    pub gameover_phase: Option<u8>,
}

/// The screenshots to take this frame (numbers 1 to 9, in order), and
/// whether all are done so the program may leave.
pub struct AutoTestActions {
    pub captures: Vec<usize>,
    pub finished: bool,
}

/// The file name of screenshot `k` (1 to 9).
pub open spec fn spec_capture_file(k: usize) -> Seq<char> {
    if k == 1 {
        "01-countdown-3.png"@
    } else if k == 2 {
        "02-countdown-go.png"@
    } else if k == 3 {
        "03-gameplay-start.png"@
    } else if k == 4 {
        "04-first-death.png"@
    } else if k == 5 {
        "05-arena-shrink.png"@
    } else if k == 6 {
        "06-late-game.png"@
    } else if k == 7 {
        "07-gameover-title.png"@
    } else if k == 8 {
        "08-gameover-rankings.png"@
    } else {
        "09-gameover-complete.png"@
    }
}

pub fn capture_file(k: usize) -> (r: &'static str)
    ensures
        r@ == spec_capture_file(k),
{
    if k == 1 {
        "01-countdown-3.png"
    } else if k == 2 {
        "02-countdown-go.png"
    } else if k == 3 {
        "03-gameplay-start.png"
    } else if k == 4 {
        "04-first-death.png"
    } else if k == 5 {
        "05-arena-shrink.png"
    } else if k == 6 {
        "06-late-game.png"
    } else if k == 7 {
        "07-gameover-title.png"
    } else if k == 8 {
        "08-gameover-rankings.png"
    } else {
        "09-gameover-complete.png"
    }
}

/// The test mode's bookkeeping as values: screenshots taken, previous alive
/// count, whether the arena was seen shrunk.
pub struct AutoTestView {
    pub captured: Seq<bool>,
    pub prev_alive_count: u32,
    pub arena_shrunk: bool,
}

/// Take screenshot `k` when `when` holds and it was not taken yet.
pub open spec fn take(v: AutoTestView, shots: Seq<usize>, k: usize, when: bool) -> (AutoTestView, Seq<usize>) {
    if when && !v.captured[k - 1] {
        (AutoTestView { captured: v.captured.update(k - 1, true), ..v }, shots.push(k))
    } else {
        (v, shots)
    }
}

/// The countdown shots.
pub open spec fn countdown_shots(v: AutoTestView, m: AutoTestMoment) -> (AutoTestView, Seq<usize>) {
    match m.countdown {
        Some((three, go)) if m.state == GameState::Countdown => {
            let a = take(v, Seq::empty(), 1, three);
            take(a.0, a.1, 2, go)
        },
        _ => (v, Seq::empty()),
    }
}

/// The play shots: the start (which also notes the alive count), the first
/// death, the first shrink, and the late game (three or fewer alive).
pub open spec fn play_shots(v: AutoTestView, shots: Seq<usize>, m: AutoTestMoment) -> (AutoTestView, Seq<usize>) {
    if m.state == GameState::Playing {
        let a = if !v.captured[2] {
            (
                AutoTestView {
                    captured: v.captured.update(2, true),
                    prev_alive_count: m.alive_count,
                    ..v
                },
                shots.push(3usize),
            )
        } else {
            (v, shots)
        };
        let b = take(a.0, a.1, 4, m.alive_count < a.0.prev_alive_count);
        let shrunk = b.0.arena_shrunk || m.bounds.min_x > 1;
        let c = take(AutoTestView { arena_shrunk: shrunk, ..b.0 }, b.1, 5, shrunk);
        let d = take(c.0, c.1, 6, m.alive_count <= 3);
        (AutoTestView { prev_alive_count: m.alive_count, ..d.0 }, d.1)
    } else {
        (v, shots)
    }
}

/// The game-over shots, by animation phase; the last one finishes the run.
pub open spec fn gameover_shots(v: AutoTestView, shots: Seq<usize>, m: AutoTestMoment) -> (AutoTestView, Seq<usize>, bool) {
    match m.gameover_phase {
        Some(phase) if m.state == GameState::GameOver => {
            let a = take(v, shots, 7, phase >= 1);
            let b = take(a.0, a.1, 8, phase >= 3);
            let finish = phase >= 4 && !b.0.captured[8];
            let c = take(b.0, b.1, 9, phase >= 4);
            (c.0, c.1, finish)
        },
        _ => (v, shots, false),
    }
}

/// One frame of the test mode.
pub open spec fn after_moment(v: AutoTestView, m: AutoTestMoment) -> (AutoTestView, Seq<usize>, bool) {
    let a = countdown_shots(v, m);
    let b = play_shots(a.0, a.1, m);
    gameover_shots(b.0, b.1, m)
}

impl AutoTestState {
    pub open spec fn view_of(&self) -> AutoTestView {
        AutoTestView {
            captured: self.captured@,
            prev_alive_count: self.prev_alive_count,
            arena_shrunk: self.arena_shrunk,
        }
    }

    pub fn new(enabled: bool) -> (r: Self)
        ensures
            r.enabled == enabled,
            r.captured@ == Seq::new(9, |k: int| false),
            r.prev_alive_count == 0,
            !r.arena_shrunk,
    {
        let mut captured: Vec<bool> = Vec::new();
        let mut k: usize = 0;
        while k < 9
            invariant
                k <= 9,
                captured@ == Seq::new(k as nat, |q: int| false),
            decreases 9 - k,
        {
            captured.push(false);
            k = k + 1;
            assert(captured@ =~= Seq::new(k as nat, |q: int| false));
        }
        AutoTestState { enabled, captured, prev_alive_count: 0, arena_shrunk: false }
    }

    /// Take screenshot `k` when `when` holds and it was not taken yet.
    fn take(&mut self, shots: &mut Vec<usize>, k: usize, when: bool)
        requires
            old(self).captured@.len() == 9,
            1 <= k <= 9,
        ensures
            final(self).enabled == old(self).enabled,
            (final(self).view_of(), final(shots)@) == take(old(self).view_of(), old(shots)@, k, when),
            final(self).captured@.len() == 9,
    {
        if when && !self.captured[k - 1] {
            self.captured.set(k - 1, true);
            shots.push(k);
        }
    }

    /// Decide this frame's screenshots (nothing while the mode is off).
    pub fn observe(&mut self, m: &AutoTestMoment) -> (r: AutoTestActions)
        requires
            old(self).captured@.len() == 9,
        ensures
            final(self).enabled == old(self).enabled,
            final(self).captured@.len() == 9,
            !old(self).enabled ==> final(self).view_of() == old(self).view_of() && r.captures@.len() == 0
                && !r.finished,
            old(self).enabled ==> (final(self).view_of(), r.captures@, r.finished) == after_moment(
                old(self).view_of(),
                *m,
            ),
    {
        let mut shots: Vec<usize> = Vec::new();
        if !self.enabled {
            return AutoTestActions { captures: shots, finished: false };
        }
        if m.state == GameState::Countdown {
            match m.countdown {
                Some((three, go)) => {
                    self.take(&mut shots, 1, three);
                    self.take(&mut shots, 2, go);
                },
                None => {},
            }
        }
        if m.state == GameState::Playing {
            if !self.captured[2] {
                self.captured.set(2, true);
                shots.push(3);
                self.prev_alive_count = m.alive_count;
            }
            let died = m.alive_count < self.prev_alive_count;
            self.take(&mut shots, 4, died);
            let default_bounds = ArenaBounds::default();
            if !self.arena_shrunk && m.bounds.min_x > default_bounds.min_x {
                self.arena_shrunk = true;
            }
            let shrunk = self.arena_shrunk;
            self.take(&mut shots, 5, shrunk);
            self.take(&mut shots, 6, m.alive_count <= 3);
            self.prev_alive_count = m.alive_count;
        }
        let mut finished = false;
        if m.state == GameState::GameOver {
            match m.gameover_phase {
                Some(phase) => {
                    self.take(&mut shots, 7, phase >= 1);
                    self.take(&mut shots, 8, phase >= 3);
                    if phase >= 4 && !self.captured[8] {
                        finished = true;
                    }
                    self.take(&mut shots, 9, phase >= 4);
                },
                None => {},
            }
        }
        AutoTestActions { captures: shots, finished }
    }
}

} // verus!
