//! Deterministic pseudo-random stream used by NPC brains.
//!
//! Behaviour code must be reproducible given a starting state, so the stream
//! is a plain splitmix-style mixer over a 64-bit state. Fresh entropy enters
//! the simulation only at the scheduler boundary, through [`fresh_seed`].

use vstd::prelude::*;

verus! {

/// One golden-ratio increment of the splitmix state.
pub open spec fn advance_spec(s: u64) -> u64 {
    vstd::wrapping::u64_specs::wrapping_add(s, 0x9E3779B97F4A7C15)
}

/// The output mixer applied to an advanced state.
pub open spec fn mix_spec(s: u64) -> u64 {
    let z1 = vstd::wrapping::u64_specs::wrapping_mul(s ^ (s >> 30), 0xBF58476D1CE4E5B9);
    let z2 = vstd::wrapping::u64_specs::wrapping_mul(z1 ^ (z1 >> 27), 0x94D049BB133111EB);
    z2 ^ (z2 >> 31)
}

/// The value the next draw yields from a given state.
pub open spec fn draw_spec(s: u64) -> u64 {
    mix_spec(advance_spec(s))
}

/// The value a bounded draw yields: the raw draw reduced below `n`.
pub open spec fn below_spec(s: u64, n: u64) -> u64
    recommends
        n > 0,
{
    draw_spec(s) % n
}

/// Step a state by one golden-ratio increment, without drawing.
pub fn advance(s: u64) -> (r: u64)
    ensures
        r == advance_spec(s),
{
    s.wrapping_add(0x9E3779B97F4A7C15)
}

/// A deterministic pseudo-random generator with a 64-bit state.
#[derive(Clone, Copy, Debug, PartialEq, Eq, Structural)]
pub struct SimRng {
    pub state: u64,
}

impl SimRng {
    pub fn new(seed: u64) -> (r: SimRng)
        ensures
            r.state == seed,
    {
        SimRng { state: seed }
    }

    /// Draw the next 64-bit value and advance the state.
    pub fn next_u64(&mut self) -> (r: u64)
        ensures
            final(self).state == advance_spec(old(self).state),
            r == mix_spec(advance_spec(old(self).state)),
    {
        self.state = self.state.wrapping_add(0x9E3779B97F4A7C15);
        let s: u64 = self.state;
        let z1: u64 = (s ^ (s >> 30)).wrapping_mul(0xBF58476D1CE4E5B9);
        let z2: u64 = (z1 ^ (z1 >> 27)).wrapping_mul(0x94D049BB133111EB);
        z2 ^ (z2 >> 31)
    }

    /// Draw a value strictly below `n`.
    pub fn gen_below(&mut self, n: u64) -> (r: u64)
        requires
            n > 0,
        ensures
            r < n,
            r == below_spec(old(self).state, n),
            final(self).state == advance_spec(old(self).state),
    {
        self.next_u64() % n
    }

    /// Draw a value in the half-open range `lo..hi`.
    pub fn gen_range(&mut self, lo: u64, hi: u64) -> (r: u64)
        requires
            lo < hi,
        ensures
            lo <= r < hi,
            r == lo + below_spec(old(self).state, (hi - lo) as u64),
            final(self).state == advance_spec(old(self).state),
    {
        lo + self.gen_below(hi - lo)
    }

    /// Succeed with probability `num / denom`. A zero numerator never
    /// succeeds; a numerator at or above the denominator always does.
    pub fn chance(&mut self, num: u32, denom: u32) -> (r: bool)
        requires
            denom > 0,
        ensures
            num == 0 ==> !r,
            num >= denom ==> r,
            r == (below_spec(old(self).state, denom as u64) < num as u64),
            final(self).state == advance_spec(old(self).state),
    {
        self.gen_below(denom as u64) < num as u64
    }
}

/// Relies on `rand::random`: a value drawn from the thread-local generator.
/// Nothing is promised of the result.
pub assume_specification<T>[ rand::random::<T> ]() -> (r: T)
    where
        rand::distributions::Standard: rand::distributions::Distribution<T>,
;

/// A fresh, unpredictable seed from the process-wide entropy source. Every
/// later draw in the simulation is a deterministic function of seeds obtained
/// here.
pub fn fresh_seed() -> u64 {
    rand::random::<u64>()
}

} // verus!
