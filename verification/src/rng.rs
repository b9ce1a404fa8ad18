//! Deterministic seeded random source for weighted selection.
//!
//! The selection policy only needs a uniform-looking draw; a linear
//! congruential generator is enough, keeps selection reproducible under a
//! seed (which the scenario tests rely on), and verifies end to end.

use vstd::prelude::*;

verus! {

/// Multiplier of the linear congruential step (Knuth's MMIX constant).
pub const LCG_MUL: u64 = 6364136223846793005;

/// Increment of the linear congruential step.
pub const LCG_INC: u64 = 1442695040888963407;

/// The generator state after one step.
pub open spec fn rng_next_state(s: u64) -> u64 {
    vstd::wrapping::u64_specs::wrapping_add(
        vstd::wrapping::u64_specs::wrapping_mul(s, LCG_MUL),
        LCG_INC,
    )
}

/// The value a step hands out: the high bits of the new state, which cycle
/// far more slowly than the low ones.
pub open spec fn rng_output(s: u64) -> u64 {
    rng_next_state(s) >> 33
}

/// A seeded deterministic random source.
#[derive(Clone, Copy, Debug, PartialEq, Eq, Structural)]
pub struct SeededRng {
    pub state: u64,
}

impl SeededRng {
    /// A generator that will produce the sequence determined by `seed`.
    pub fn new(seed: u64) -> (r: SeededRng)
        ensures
            r.state == seed,
    {
        SeededRng { state: seed }
    }

    /// Advance one step and hand out the draw for that step.
    pub fn next_u64(&mut self) -> (r: u64)
        ensures
            final(self).state == rng_next_state(old(self).state),
            r == rng_output(old(self).state),
    {
        self.state = self.state.wrapping_mul(LCG_MUL).wrapping_add(LCG_INC);
        self.state >> 33
    }
}

} // verus!
