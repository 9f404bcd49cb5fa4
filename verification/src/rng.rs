//! A small injectable pseudo-random source.
//!
//! Room generation, chest contents and enemy archetype selection all draw
//! from one of these; seeding it makes a playthrough reproducible.

use vstd::prelude::*;

verus! {

pub const MULTIPLIER: u64 = 6364136223846793005;

pub const INCREMENT: u64 = 1442695040888963407;

/// A linear congruential generator over 64-bit state.
#[derive(Clone, Copy, PartialEq, Eq, Structural, Debug)]
pub struct Rng {
    pub state: u64,
}

/// The successor state of the generator.
pub open spec fn spec_next(s: u64) -> u64 {
    (((s as int) * (MULTIPLIER as int) + (INCREMENT as int)) % 0x1_0000_0000_0000_0000) as u64
}

impl Rng {
    pub fn new(seed: u64) -> (r: Rng)
        ensures
            r.state == seed,
    {
        Rng { state: seed }
    }

    /// Advances the state once and returns it.
    pub fn next_u64(&mut self) -> (r: u64)
        ensures
            final (self).state == spec_next(old(self).state),
            r == final (self).state,
    {
        let s = self.state;
        let wide: u128 = (s as u128) * (MULTIPLIER as u128) + (INCREMENT as u128);
        proof {
            assert((s as int) * (MULTIPLIER as int) <= (u64::MAX as int) * (MULTIPLIER as int))
                by (nonlinear_arith)
                requires
                    0 <= s <= u64::MAX,
            ;
            assert(0 <= (s as int) * (MULTIPLIER as int)) by (nonlinear_arith)
                requires
                    0 <= s,
            ;
        }
        let next: u64 = (wide % 0x1_0000_0000_0000_0000u128) as u64;
        self.state = next;
        next
    }

    /// A value drawn uniformly-ish below `n`.
    pub fn next_below(&mut self, n: u64) -> (r: u64)
        requires
            n >= 1,
        ensures
            r < n,
            final (self).state == spec_next(old(self).state),
    {
        let v = self.next_u64();
        v % n
    }
}

} // verus!
