//! SplitMix64: the deterministic generator behind a sweep's mutations.

use vstd::prelude::*;

verus! {

/// The increment of the generator's state.
pub const GAMMA: u64 = 0x9E37_79B9_7F4A_7C15;

/// A SplitMix64 generator.
pub struct SplitMix64 {
    pub state: u64,
}

/// The state after one step.
pub open spec fn advanced(state: u64) -> u64 {
    state.wrapping_add(GAMMA)
}

/// The output of a state: two multiplied xor-shifts and a last xor-shift.
pub open spec fn mixed(state: u64) -> u64 {
    let a = (state ^ (state >> 30)).wrapping_mul(0xBF58_476D_1CE4_E5B9);
    let b = (a ^ (a >> 27)).wrapping_mul(0x94D0_49BB_1331_11EB);
    b ^ (b >> 31)
}

/// The number below `n` that a generator in `state` draws next.
pub open spec fn drawn(state: u64, n: u64) -> u64 {
    mixed(advanced(state)) % n
}

impl SplitMix64 {
    pub fn new(seed: u64) -> (rng: Self)
        ensures
            rng.state == seed,
    {
        SplitMix64 { state: seed }
    }

    /// The next 64 bits.
    pub fn next(&mut self) -> (bits: u64)
        ensures
            final(self).state == advanced(old(self).state),
            bits == mixed(advanced(old(self).state)),
    {
        self.state = self.state.wrapping_add(GAMMA);
        let a: u64 = (self.state ^ (self.state >> 30)).wrapping_mul(0xBF58_476D_1CE4_E5B9);
        let b: u64 = (a ^ (a >> 27)).wrapping_mul(0x94D0_49BB_1331_11EB);
        b ^ (b >> 31)
    }

    /// A number below `n`.
    pub fn below(&mut self, n: u64) -> (drawn_number: u64)
        requires
            n > 0,
        ensures
            final(self).state == advanced(old(self).state),
            drawn_number == drawn(old(self).state, n),
            drawn_number < n,
    {
        self.next() % n
    }
}

/// A draw below `n` is below `n`, and a step adds the increment modulo two to the sixty-fourth.
pub proof fn draws_stay_below_their_bound(state: u64, n: u64)
    requires
        n > 0,
    ensures
        drawn(state, n) < n,
        advanced(state) == (state + 0x9E37_79B9_7F4A_7C15) % 0x1_0000_0000_0000_0000,
        advanced(state) != state,
{
}

} // verus!
