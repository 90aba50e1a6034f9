//! Seedable and repeatable source of random numbers.
//!
//! The generator itself is the Mersenne Twister of the `rand_mt` crate; its
//! state is opaque here, so nothing is promised about the raw outputs. The
//! range-narrowing arithmetic on top of them is the part with a contract.

use vstd::prelude::*;

verus! {

/// The 32-bit Mersenne Twister of the `rand_mt` crate, declared so that a
/// value of it can be held; its internal state is opaque.
#[verifier::external_type_specification]
#[verifier::external_body]
pub struct ExMt(rand_mt::Mt);

/// Relies on chrono's `Utc::now`: a seed read from the wall clock. Nothing
/// is promised about its value.
#[verifier::external_body]
fn time_seed() -> u32 {
    chrono::Utc::now().timestamp() as u32
}

/// Relies on rand_mt's `Mt::new`: a Mersenne Twister generator seeded with
/// the given seed.
#[verifier::external_body]
fn mt_new(seed: u32) -> rand_mt::Mt {
    rand_mt::Mt::new(seed)
}

/// Relies on rand_mt's `Mt::reseed`: the generator restarts from the given
/// seed.
#[verifier::external_body]
fn mt_reseed(twister: &mut rand_mt::Mt, seed: u32) {
    twister.reseed(seed)
}

/// Relies on rand_mt's `Mt::next_u32`: the generator's next raw output.
/// Nothing is promised about its value.
#[verifier::external_body]
fn mt_next_u32(twister: &mut rand_mt::Mt) -> u32 {
    twister.next_u32()
}

/// Seedable and repeatable source of random numbers.
pub struct Rand {
    twister: rand_mt::Mt,
}

impl Rand {
    /// Create a new random number source, seeded from the wall clock.
    pub fn new() -> Rand {
        Rand { twister: mt_new(time_seed()) }
    }

    /// Set the seed of the source; the output stream restarts from it.
    pub fn set_seed(&mut self, seed: u32) {
        mt_reseed(&mut self.twister, seed)
    }

    /// Get the next 32-bit unsigned integer.
    pub fn next_u32(&mut self) -> u32 {
        mt_next_u32(&mut self.twister)
    }

    /// Get a 32-bit unsigned integer below `n`, or zero when `n` is zero.
    pub fn next_int(&mut self, n: u32) -> (r: u32)
        ensures
            n == 0 ==> r == 0,
            n > 0 ==> r < n,
    {
        if n == 0 {
            0
        } else {
            self.next_u32() % n
        }
    }

    /// Get a 32-bit signed integer in the range of `-n` to `n`, inclusive.
    pub fn next_int_signed(&mut self, n: u32) -> (r: i32)
        requires
            n <= 0x3FFF_FFFF,
        ensures
            -(n as int) <= r <= n,
    {
        if n == 0 {
            0
        } else {
            ((self.next_u32() % (2 * n + 1)) as i32) - (n as i32)
        }
    }
}

} // verus!
