use vstd::prelude::*;

verus! {

/// Multiplier of the generator's linear congruence.
pub const LCG_MUL: u64 = 6364136223846793005;

/// Increment of the generator's linear congruence.
pub const LCG_INC: u64 = 1442695040888963407;

/// The state that follows `s`: `s * LCG_MUL + LCG_INC` modulo 2^64.
pub open spec fn lcg_next(s: u64) -> u64 {
    ((s as int * LCG_MUL as int + LCG_INC as int) % 0x1_0000_0000_0000_0000int) as u64
}

/// The number drawn when the state becomes `s`: its top 31 bits.
pub open spec fn lcg_output(s: u64) -> u32 {
    (s as int / 0x2_0000_0000int) as u32
}

/// Small deterministic PCG-style generator (no external `rand`): the same seed
/// always yields the same numbers.
pub struct SimpleRng {
    state: u64,
}

impl SimpleRng {
    /// The current state.
    pub closed spec fn spec_state(&self) -> u64 {
        self.state
    }

    /// A generator started from `seed` (the game seeds it from the clock).
    pub fn from_seed(seed: u64) -> (r: Self)
        ensures
            r.spec_state() == seed,
    {
        SimpleRng { state: seed }
    }

    pub fn next_u32(&mut self) -> (r: u32)
        ensures
            final(self).spec_state() == lcg_next(old(self).spec_state()),
            r == lcg_output(lcg_next(old(self).spec_state())),
            r < 0x8000_0000,
    {
        let s = self.state.wrapping_mul(LCG_MUL).wrapping_add(LCG_INC);
        proof {
            let m = 0x1_0000_0000_0000_0000int;
            let a = self.state as int * LCG_MUL as int;
            vstd::arithmetic::div_mod::lemma_add_mod_noop(a, LCG_INC as int, m);
            vstd::arithmetic::div_mod::lemma_mod_twice(LCG_INC as int, m);
            assert(s == lcg_next(old(self).spec_state()));
        }
        self.state = s;
        let out = s >> 33;
        assert(out == s / 0x2_0000_0000 && out < 0x8000_0000) by (bit_vector)
            requires
                out == s >> 33,
        ;
        out as u32
    }

    /// A number in `min..max`: `min` plus the next draw modulo the span.
    pub fn range(&mut self, min: i32, max: i32) -> (r: i32)
        requires
            min < max,
            max - min <= i32::MAX,
        ensures
            final(self).spec_state() == lcg_next(old(self).spec_state()),
            r == min + lcg_output(lcg_next(old(self).spec_state())) as int % (max - min),
            min <= r < max,
    {
        let span = (max - min) as u32;
        let off = self.next_u32() % span;
        min + off as i32
    }
}

} // verus!
