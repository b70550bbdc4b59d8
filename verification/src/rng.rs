//! A small seedable pseudo-random generator, threaded explicitly through every
//! randomized pass so that generation is deterministic per seed.
//!
//! The state update and every draw are pinned down exactly by spec functions,
//! which is what makes determinism of the whole pipeline provable.

use vstd::prelude::*;

verus! {

use vstd::wrapping::u64_specs;

pub const RNG_GAMMA: u64 = 0x9E3779B97F4A7C15;
pub const RNG_MIX_A: u64 = 0xBF58476D1CE4E5B9;
pub const RNG_MIX_B: u64 = 0x94D049BB133111EB;

/// The output finalizer: a bijective mixing of the counter state.  Opaque:
/// callers treat the mixed value as an arbitrary function of the state.
#[verifier::opaque]
pub open spec fn rng_mix(z0: u64) -> u64 {
    let z1 = u64_specs::wrapping_mul(z0 ^ (z0 >> 30), RNG_MIX_A);
    let z2 = u64_specs::wrapping_mul(z1 ^ (z1 >> 27), RNG_MIX_B);
    z2 ^ (z2 >> 31)
}

/// The state after one draw.
pub open spec fn rng_step(s: u64) -> u64 {
    u64_specs::wrapping_add(s, RNG_GAMMA)
}

/// The raw 64-bit value produced by one draw from state `s`.
pub open spec fn rng_draw(s: u64) -> u64 {
    rng_mix(rng_step(s))
}

/// A draw reduced to the inclusive range `[lo, hi]`.
pub open spec fn rng_range(s: u64, lo: int, hi: int) -> int {
    lo + (rng_draw(s) as int) % (hi - lo + 1)
}

/// A draw reduced to a boolean.
pub open spec fn rng_coin(s: u64) -> bool {
    rng_draw(s) % 2 == 1
}

/// A seedable counter-based generator.
pub struct Rng {
    pub state: u64,
}

impl Rng {
    pub fn new(seed: u64) -> (r: Rng)
        ensures
            r.state == seed,
    {
        Rng { state: seed }
    }

    /// One raw draw; consumes exactly one step of state.
    pub fn next_u64(&mut self) -> (r: u64)
        ensures
            final(self).state == rng_step(old(self).state),
            r == rng_draw(old(self).state),
    {
        proof {
            reveal(rng_mix);
        }
        self.state = self.state.wrapping_add(RNG_GAMMA);
        let z0: u64 = self.state;
        let z1: u64 = (z0 ^ (z0 >> 30)).wrapping_mul(RNG_MIX_A);
        let z2: u64 = (z1 ^ (z1 >> 27)).wrapping_mul(RNG_MIX_B);
        z2 ^ (z2 >> 31)
    }

    /// A uniform draw from the inclusive range `[lo, hi]`; one step of state.
    pub fn range_i32(&mut self, lo: i32, hi: i32) -> (r: i32)
        requires
            lo <= hi,
        ensures
            final(self).state == rng_step(old(self).state),
            r as int == rng_range(old(self).state, lo as int, hi as int),
            lo <= r <= hi,
    {
        let out: u64 = self.next_u64();
        let span: u64 = (hi as i64 - lo as i64 + 1) as u64;
        let rem: u64 = out % span;
        (lo as i64 + rem as i64) as i32
    }

    /// A uniform draw from the inclusive range `[lo, hi]`; one step of state.
    pub fn range_usize(&mut self, lo: usize, hi: usize) -> (r: usize)
        requires
            lo <= hi,
            hi < usize::MAX,
        ensures
            final(self).state == rng_step(old(self).state),
            r as int == rng_range(old(self).state, lo as int, hi as int),
            lo <= r <= hi,
    {
        let out: u64 = self.next_u64();
        let span: u64 = (hi - lo) as u64 + 1;
        let rem: u64 = out % span;
        lo + rem as usize
    }

    /// A uniform boolean draw; one step of state.
    pub fn coin(&mut self) -> (r: bool)
        ensures
            final(self).state == rng_step(old(self).state),
            r == rng_coin(old(self).state),
    {
        let out: u64 = self.next_u64();
        out % 2 == 1
    }
}

} // verus!
