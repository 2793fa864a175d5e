//! A random-number generator for debugging and testing.
use vstd::prelude::*;

verus! {

#[verifier::external_type_specification]
#[verifier::external_body]
pub struct ExRand64(oorandom::Rand64);

/// `oorandom::Rand64::new`: seeds a generator. Nothing is claimed of the
/// generator's state, which Verus does not see.
#[verifier::external_body]
fn rand64_new(seed: u128) -> oorandom::Rand64 {
    oorandom::Rand64::new(seed)
}

/// `oorandom::Rand64::rand_u64`: the next pseudo-random number. Any `u64`
/// may come back.
#[verifier::external_body]
fn rand64_rand_u64(rng: &mut oorandom::Rand64) -> u64 {
    rng.rand_u64()
}

/// `oorandom::Rand64::rand_i64`: the next pseudo-random number. Any `i64`
/// may come back.
#[verifier::external_body]
fn rand64_rand_i64(rng: &mut oorandom::Rand64) -> i64 {
    rng.rand_i64()
}

/// `oorandom::Rand64::rand_range`: a pseudo-random number in `start..end`.
/// The source requires a nonempty range (it divides by the range's length)
/// and returns `start` plus a value below that length.
#[verifier::external_body]
fn rand64_rand_range(rng: &mut oorandom::Rand64, start: u64, end: u64) -> (r: u64)
    requires
        start < end,
    ensures
        start <= r < end,
{
    rng.rand_range(start..end)
}

/// `std::time::SystemTime::elapsed` on the Unix epoch: the clock's reading
/// as nanoseconds since the epoch (zero for a clock set before it). Nothing
/// is claimed of the reading.
#[verifier::external_body]
fn clock_nanos() -> u128 {
    std::time::UNIX_EPOCH.elapsed().map(|d| d.as_nanos()).unwrap_or(0)
}

/// A pseudo-random number generator. The `oorandom` generator is public so
/// that code outside the library can draw the floating-point numbers that it
/// also makes.
#[derive(Debug)]
pub struct Rng(pub oorandom::Rand64);

impl Default for Rng {
    /// Seeds the generator from the clock, so that each one differs.
    fn default() -> (r: Self) {
        Self::new_with_seed(clock_nanos())
    }
}

impl Rng {
    /// Makes a generator with a fixed seed.
    pub fn new_with_seed(seed: u128) -> (r: Self) {
        Rng(rand64_new(seed))
    }

    /// A pseudo-random `u64`.
    pub fn rand_u64(&mut self) -> (r: u64) {
        rand64_rand_u64(&mut self.0)
    }

    /// A pseudo-random `i64`.
    pub fn rand_i64(&mut self) -> (r: i64) {
        rand64_rand_i64(&mut self.0)
    }

    /// A pseudo-random number in `range`, which must not be empty.
    pub fn rand_range(&mut self, range: core::ops::Range<u64>) -> (r: u64)
        requires
            range.start < range.end,
        ensures
            range.start <= r < range.end,
    {
        rand64_rand_range(&mut self.0, range.start, range.end)
    }
}

} // verus!
