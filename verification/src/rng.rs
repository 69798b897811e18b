//! The xorshift generator that seeds every table and every random draw.

use vstd::prelude::*;

verus! {

/// One round of the 64-bit xorshift mixer: shift left 13, right 7, left 17,
/// each folded back in with exclusive or.
pub open spec fn xorshift_step(x: u64) -> u64 {
    let a = x ^ (x << 13);
    let b = a ^ (a >> 7);
    b ^ (b << 17)
}

/// A seeded xorshift stream. The state is mixed before each draw, so the
/// first value drawn is already one round away from the seed.
pub struct XorShift64 {
    state: u64,
}

impl XorShift64 {
    /// The current state.
    pub closed spec fn state(&self) -> u64 {
        self.state
    }

    /// Starts a stream at `seed ^ salt`.
    pub fn new(seed: u64, salt: u64) -> (r: Self)
        ensures
            r.state() == seed ^ salt,
    {
        XorShift64 { state: seed ^ salt }
    }

    /// Advances the stream by one round and returns the new state.
    pub fn next_u64(&mut self) -> (r: u64)
        ensures
            final(self).state() == xorshift_step(old(self).state()),
            r == final(self).state(),
    {
        let mut x: u64 = self.state;
        x ^= x << 13;
        x ^= x >> 7;
        x ^= x << 17;
        self.state = x;
        x
    }

    /// Advances the stream by one round and returns the low byte of the new
    /// state.
    pub fn next_byte(&mut self) -> (r: u8)
        ensures
            final(self).state() == xorshift_step(old(self).state()),
            r == low_byte(final(self).state()),
    {
        let x: u64 = self.next_u64();
        let low: u64 = x & 0xff;
        assert(low == x % 256 && low < 256) by (bit_vector)
            requires
                low == x & 0xff,
        ;
        low as u8
    }
}

/// The lowest eight bits of `x`.
pub open spec fn low_byte(x: u64) -> u8 {
    (x % 256) as u8
}

/// The state reached from `x` after `n` rounds of the mixer.
pub open spec fn xorshift_iter(x: u64, n: nat) -> u64
    decreases n,
{
    if n == 0 {
        x
    } else {
        xorshift_step(xorshift_iter(x, (n - 1) as nat))
    }
}

/// Zero is the mixer's fixed point: a stream that starts there never leaves.
pub proof fn lemma_zero_is_fixed()
    ensures
        xorshift_step(0) == 0,
{
    assert(xorshift_step(0) == 0) by (bit_vector);
}

} // verus!
