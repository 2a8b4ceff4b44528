//! Deterministic pseudo-random scalar source.
//!
//! Rendering draws its randomness from a small counter-mixing generator
//! whose every step has an exact contract, so a render seeded per pixel
//! is a function of the seed alone and can be reproduced in any order.
//! Fresh entropy for a default seed comes from the `rand` crate through
//! a trusted wrapper.

use vstd::prelude::*;
use crate::fixed::ONE;

verus! {

/// The state update of one generator step. Opaque: downstream proofs
/// relate applications of it and never need the mixing formula.
#[verifier::opaque]
pub open spec fn mix_state(s: u64) -> u64 {
    vstd::wrapping::u64_specs::wrapping_add(s, 0x9E3779B97F4A7C15)
}

/// The value one generator step hands out. Opaque, as `mix_state` is.
#[verifier::opaque]
pub open spec fn mix_output(s: u64) -> u64 {
    let s1 = mix_state(s);
    let z1 = vstd::wrapping::u64_specs::wrapping_mul(s1 ^ (s1 >> 30u64), 0xBF58476D1CE4E5B9);
    let z2 = vstd::wrapping::u64_specs::wrapping_mul(z1 ^ (z1 >> 27u64), 0x94D049BB133111EB);
    z2 ^ (z2 >> 31u64)
}

/// The scalar in `[0, 1)` that one step hands out.
pub open spec fn unit_draw(s: u64) -> i64 {
    (mix_output(s) % (ONE as u64)) as i64
}

/// The scalar in `[lo, hi)` that one step hands out.
pub open spec fn range_draw(s: u64, lo: i64, hi: i64) -> i64
    recommends
        lo < hi,
{
    (lo + mix_output(s) % ((hi - lo) as u64)) as i64
}

/// A splittable counter-based generator: every draw is pinned exactly
/// to the state before it, so equal seeds give equal streams.
#[derive(Clone, Copy, Debug, PartialEq, Eq, Structural)]
pub struct SeededRng {
    pub state: u64,
}

impl SeededRng {
    /// Start a stream at the given seed.
    pub fn seeded(seed: u64) -> (r: SeededRng)
        ensures
            r.state == seed,
    {
        SeededRng { state: seed }
    }

    /// One raw draw.
    pub fn next_u64(&mut self) -> (r: u64)
        ensures
            final(self).state == mix_state(old(self).state),
            r == mix_output(old(self).state),
    {
        proof {
            reveal(mix_state);
            reveal(mix_output);
        }
        self.state = self.state.wrapping_add(0x9E3779B97F4A7C15);
        let z0: u64 = self.state;
        let z1: u64 = (z0 ^ (z0 >> 30u64)).wrapping_mul(0xBF58476D1CE4E5B9);
        let z2: u64 = (z1 ^ (z1 >> 27u64)).wrapping_mul(0x94D049BB133111EB);
        z2 ^ (z2 >> 31u64)
    }

    /// A scalar drawn uniformly from `[0, 1)`.
    pub fn next_unit(&mut self) -> (r: i64)
        ensures
            final(self).state == mix_state(old(self).state),
            r == unit_draw(old(self).state),
            0 <= r < ONE,
    {
        let d: u64 = self.next_u64();
        (d % (ONE as u64)) as i64
    }

    /// A scalar drawn uniformly from `[lo, hi)`.
    pub fn next_in_range(&mut self, lo: i64, hi: i64) -> (r: i64)
        requires
            lo < hi,
        ensures
            final(self).state == mix_state(old(self).state),
            r == range_draw(old(self).state, lo, hi),
            lo <= r < hi,
    {
        let d: u64 = self.next_u64();
        let span: u64 = ((hi as i128) - (lo as i128)) as u64;
        let off: u64 = d % span;
        ((lo as i128) + (off as i128)) as i64
    }
}

/// Relies on `rand::random`: one draw from the thread-local generator,
/// used only to pick a fresh base seed. Nothing is assumed of the value.
#[verifier::external_body]
pub fn random_seed() -> u64 {
    rand::random::<u64>()
}

} // verus!
