//! A small deterministic RNG (SplitMix64) for reproducible move sampling.

use vstd::prelude::*;

verus! {

/// Additive constant of the SplitMix64 state sequence.
pub const GOLDEN_GAMMA: u64 = 0x9E37_79B9_7F4A_7C15;

/// First multiplier of the SplitMix64 output mix.
pub const MIX_MUL_1: u64 = 0xBF58_476D_1CE4_E5B9;

/// Second multiplier of the SplitMix64 output mix.
pub const MIX_MUL_2: u64 = 0x94D0_49BB_1331_11EB;

/// One step of the SplitMix64 state.
pub open spec fn advance(state: u64) -> u64 {
    state.wrapping_add(GOLDEN_GAMMA)
}

/// The SplitMix64 output function applied to a (new) state.
pub open spec fn mix(state: u64) -> u64 {
    let z1 = (state ^ (state >> 30u64)).wrapping_mul(MIX_MUL_1);
    let z2 = (z1 ^ (z1 >> 27u64)).wrapping_mul(MIX_MUL_2);
    z2 ^ (z2 >> 31u64)
}

/// The state after `k` draws from a generator seeded with `seed`.
pub open spec fn state_after(seed: u64, k: nat) -> u64
    decreases k,
{
    if k == 0 {
        seed
    } else {
        advance(state_after(seed, (k - 1) as nat))
    }
}

/// The `k`-th value (0-based) drawn from a generator seeded with `seed`.
pub open spec fn nth_output(seed: u64, k: nat) -> u64 {
    mix(state_after(seed, k + 1))
}

/// SplitMix64 generator.
#[derive(Debug, Clone)]
pub struct Rng(u64);

impl Rng {
    /// The generator's internal state.
    pub closed spec fn state(&self) -> u64 {
        self.0
    }

    /// A generator whose first draw is `nth_output(seed, 0)`.
    pub fn new(seed: u64) -> (r: Self)
        ensures
            r.state() == seed,
    {
        Self(seed)
    }

    /// Advance the state and return the mixed value.
    pub fn next_u64(&mut self) -> (r: u64)
        ensures
            final(self).state() == advance(old(self).state()),
            r == mix(final(self).state()),
    {
        self.0 = self.0.wrapping_add(GOLDEN_GAMMA);
        let mut z = self.0;
        z = (z ^ (z >> 30u64)).wrapping_mul(MIX_MUL_1);
        z = (z ^ (z >> 27u64)).wrapping_mul(MIX_MUL_2);
        z ^ (z >> 31u64)
    }
}

/// Reproducibility: after `k` draws, a generator seeded with `seed` is in
/// state `state_after(seed, k)`, so its next draw is `nth_output(seed, k)`;
/// two generators given the same seed therefore yield the same stream.
pub proof fn lemma_draw_is_nth_output(seed: u64, k: nat, current: u64)
    requires
        current == state_after(seed, k),
    ensures
        mix(advance(current)) == nth_output(seed, k),
        advance(current) == state_after(seed, k + 1),
{
}

} // verus!
