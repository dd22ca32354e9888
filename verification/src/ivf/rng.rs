//! SplitMix64: the small deterministic generator that drives k-means++.

use vstd::prelude::*;

verus! {

/// Increment added to the state before every output.
pub const SPLITMIX64_GAMMA: u64 = 0x9E37_79B9_7F4A_7C15;

/// `x * y` reduced modulo 2^64.
pub open spec fn mul_mod64(x: u64, y: u64) -> u64 {
    ((x as nat * y as nat) % 0x1_0000_0000_0000_0000nat) as u64
}

/// State after one step: `state + GAMMA` modulo 2^64.
pub open spec fn splitmix_advance(state: u64) -> u64 {
    ((state as nat + SPLITMIX64_GAMMA as nat) % 0x1_0000_0000_0000_0000nat) as u64
}

/// The SplitMix64 output function applied to an advanced state.
pub open spec fn splitmix_mix(z: u64) -> u64 {
    let z1 = mul_mod64(z ^ (z >> 30u64), 0xBF58_476D_1CE4_E5B9u64);
    let z2 = mul_mod64(z1 ^ (z1 >> 27u64), 0x94D0_49BB_1331_11EBu64);
    z2 ^ (z2 >> 31u64)
}

/// SplitMix64 pseudo-random generator.
#[derive(Debug, Clone, Copy)]
pub struct SplitMix64 {
    state: u64,
}

impl SplitMix64 {
    /// Current internal state.
    pub closed spec fn state(self) -> u64 {
        self.state
    }

    /// A generator whose state is `seed`.
    pub fn new(seed: u64) -> (rng: Self)
        ensures
            rng.state() == seed,
    {
        SplitMix64 { state: seed }
    }

    /// Advances the state by `GAMMA` and returns the mixed new state.
    pub fn next_u64(&mut self) -> (out: u64)
        ensures
            final(self).state() == splitmix_advance(old(self).state()),
            out == splitmix_mix(final(self).state()),
    {
        self.state = self.state.wrapping_add(SPLITMIX64_GAMMA);
        let mut z = self.state;
        z = (z ^ (z >> 30)).wrapping_mul(0xBF58_476D_1CE4_E5B9);
        z = (z ^ (z >> 27)).wrapping_mul(0x94D0_49BB_1331_11EB);
        z ^ (z >> 31)
    }
}

} // verus!
