//! Deterministic seedable pseudo-random generator.
//!
//! The randomized parts of the simulation (spawn placement, spawn
//! heading, reward magnitudes) draw from this generator, which is an
//! explicit, injected dependency: given the same seed and the same
//! actions, every run of the simulation is identical, and tests can fix
//! outcomes exactly. The step is a 64-bit add-and-mix permutation.

use vstd::prelude::*;
use crate::config::{ANGLE_FULL, MAP_SIZE, SCALE};

verus! {

/// Reduce an unbounded value to its 64-bit residue.
pub open spec fn wrap64(v: int) -> u64 {
    (v % 0x1_0000_0000_0000_0000) as u64
}

/// One step of the generator's internal counter.
pub open spec fn rng_step(s: u64) -> u64 {
    wrap64(s + 0x9E37_79B9_7F4A_7C15)
}

/// The output mix applied to a counter value.
pub open spec fn rng_mix(z: u64) -> u64 {
    let z1 = wrap64((z ^ (z >> 30)) * 0xBF58_476D_1CE4_E5B9);
    let z2 = wrap64((z1 ^ (z1 >> 33)) * 0x94D0_49BB_1331_11EB);
    z2 ^ (z2 >> 31)
}

/// The value produced by one draw from state `s`.
pub open spec fn rng_val(s: u64) -> u64 {
    rng_mix(rng_step(s))
}

/// The state after `n` draws from state `s`.
pub open spec fn rng_after(s: u64, n: nat) -> u64
    decreases n,
{
    if n == 0 {
        s
    } else {
        rng_step(rng_after(s, (n - 1) as nat))
    }
}

/// The fraction (in thousandths, `[0, SCALE)`) produced by one draw.
pub open spec fn frac_of(s: u64) -> i64 {
    (rng_val(s) % (SCALE as u64)) as i64
}

/// The angle (in `[0, ANGLE_FULL)`) produced by one draw.
pub open spec fn angle_of(s: u64) -> i64 {
    (rng_val(s) % (ANGLE_FULL as u64)) as i64
}

/// The cell coordinate (in `[0, MAP_SIZE)`) produced by one draw.
pub open spec fn axis_of(s: u64) -> usize {
    (rng_val(s) % (MAP_SIZE as u64)) as usize
}

/// Drawing `a + b` times is drawing `a` times, then `b` times.
pub proof fn lemma_rng_after_add(s: u64, a: nat, b: nat)
    ensures
        rng_after(s, a + b) == rng_after(rng_after(s, a), b),
    decreases b,
{
    if b > 0 {
        lemma_rng_after_add(s, a, (b - 1) as nat);
        assert(a + b == (a + b - 1) + 1);
    }
}

/// The deterministic random source of the simulation.
#[derive(Clone, Copy, PartialEq, Eq, Structural, Debug)]
pub struct SimRng {
    pub state: u64,
}

impl SimRng {
    /// A generator at a chosen seed.
    pub fn new(seed: u64) -> (r: SimRng)
        ensures
            r.state == seed,
    {
        SimRng { state: seed }
    }

    /// One raw draw.
    pub fn next_u64(&mut self) -> (r: u64)
        ensures
            final(self).state == rng_step(old(self).state),
            r == rng_val(old(self).state),
    {
        let s2: u64 = (((self.state as u128) + 0x9E37_79B9_7F4A_7C15u128)
            % 0x1_0000_0000_0000_0000u128) as u64;
        self.state = s2;
        let z1: u64 = (((s2 ^ (s2 >> 30)) as u128) * 0xBF58_476D_1CE4_E5B9u128
            % 0x1_0000_0000_0000_0000u128) as u64;
        let z2: u64 = (((z1 ^ (z1 >> 33)) as u128) * 0x94D0_49BB_1331_11EBu128
            % 0x1_0000_0000_0000_0000u128) as u64;
        z2 ^ (z2 >> 31)
    }

    /// A random fraction in thousandths, `[0, SCALE)`.
    pub fn next_frac(&mut self) -> (r: i64)
        ensures
            final(self).state == rng_step(old(self).state),
            r == frac_of(old(self).state),
            0 <= r < SCALE,
    {
        let v = self.next_u64();
        (v % (SCALE as u64)) as i64
    }

    /// A random angle in `[0, ANGLE_FULL)`.
    pub fn next_angle(&mut self) -> (r: i64)
        ensures
            final(self).state == rng_step(old(self).state),
            r == angle_of(old(self).state),
            0 <= r < ANGLE_FULL,
    {
        let v = self.next_u64();
        (v % (ANGLE_FULL as u64)) as i64
    }

    /// A random cell coordinate in `[0, MAP_SIZE)`.
    pub fn next_axis(&mut self) -> (r: usize)
        ensures
            final(self).state == rng_step(old(self).state),
            r == axis_of(old(self).state),
            r < MAP_SIZE,
    {
        let v = self.next_u64();
        (v % (MAP_SIZE as u64)) as usize
    }
}

} // verus!
