//! Xorshift pseudo-random generators used to pick cleartext inputs.
//!
//! They are not cryptographic: they only choose which plaintexts are encrypted,
//! from a fixed seed, so that every run of an experiment sees the same inputs.
use vstd::prelude::*;

verus! {

/// One step of the 64-bit xorshift generator with shifts 13, 7, 17.
pub open spec fn xorshift64(x: u64) -> u64 {
    let a = x ^ (x << 13u64);
    let b = a ^ (a >> 7u64);
    b ^ (b << 17u64)
}

/// The state of a generator seeded with `seed` after `n` steps.
pub open spec fn xorshift_state(seed: u64, n: nat) -> u64
    decreases n,
{
    if n == 0 {
        seed
    } else {
        xorshift64(xorshift_state(seed, (n - 1) as nat))
    }
}

/// The boolean drawn at step `n` (`n >= 1`): the low bit of the state after that step.
pub open spec fn xorshift_bit(seed: u64, n: nat) -> bool {
    xorshift_state(seed, n) & 1 == 1
}

/// A step never leads a nonzero state to zero, the generator's only fixed point,
/// so a generator seeded with a nonzero value keeps producing nonzero states.
pub proof fn lemma_xorshift_nonzero(x: u64)
    requires
        x != 0,
    ensures
        xorshift64(x) != 0,
{
    assert(x != 0 ==> ((x ^ (x << 13u64)) ^ ((x ^ (x << 13u64)) >> 7u64)) ^ (((x ^ (x << 13u64))
        ^ ((x ^ (x << 13u64)) >> 7u64)) << 17u64) != 0) by (bit_vector);
}

/// Zero is a fixed point of the step.
pub proof fn lemma_xorshift_zero()
    ensures
        xorshift64(0) == 0,
{
    assert(((0u64 ^ (0u64 << 13u64)) ^ ((0u64 ^ (0u64 << 13u64)) >> 7u64)) ^ (((0u64 ^ (0u64
        << 13u64)) ^ ((0u64 ^ (0u64 << 13u64)) >> 7u64)) << 17u64) == 0u64) by (bit_vector);
}

/// Every state reached from a nonzero seed is nonzero.
pub proof fn lemma_xorshift_state_nonzero(seed: u64, n: nat)
    requires
        seed != 0,
    ensures
        xorshift_state(seed, n) != 0,
    decreases n,
{
    if n > 0 {
        lemma_xorshift_state_nonzero(seed, (n - 1) as nat);
        lemma_xorshift_nonzero(xorshift_state(seed, (n - 1) as nat));
    }
}

/// Boolean generator: each call advances the state and returns its low bit.
pub struct XorShift(pub u64);

impl XorShift {
    /// Advances the state by one xorshift step and returns whether its low bit is set.
    pub fn next_bool(&mut self) -> (b: bool)
        ensures
            final(self).0 == xorshift64(old(self).0),
            b == (final(self).0 & 1 == 1),
    {
        self.0 = self.0 ^ (self.0 << 13u64);
        self.0 = self.0 ^ (self.0 >> 7u64);
        self.0 = self.0 ^ (self.0 << 17u64);
        (self.0 & 1) == 1
    }
}

/// Integer generator used to draw benchmark operands.
pub struct Rng(pub u64);

impl Rng {
    /// Advances the state by one xorshift step and returns the new state.
    pub fn next(&mut self) -> (r: u64)
        ensures
            r == xorshift64(old(self).0),
            final(self).0 == r,
    {
        let mut x = self.0;
        x = x ^ (x << 13u64);
        x = x ^ (x >> 7u64);
        x = x ^ (x << 17u64);
        self.0 = x;
        x
    }

    /// Draws a value below `bound`. A bound of 0 or 1 gives 0 without advancing
    /// the state; otherwise the state advances once and the result is the new
    /// state reduced modulo `bound`.
    pub fn below(&mut self, bound: u64) -> (r: u64)
        ensures
            bound <= 1 ==> r == 0 && final(self).0 == old(self).0,
            bound > 1 ==> final(self).0 == xorshift64(old(self).0) && r == final(self).0 % bound,
            bound > 1 ==> r < bound,
    {
        if bound <= 1 {
            0
        } else {
            self.next() % bound
        }
    }
}

} // verus!
