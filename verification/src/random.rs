//! The library's source of random numbers: the thread-local generator of the
//! `rand` crate. Nothing here is proved; each contract states what the
//! generator's source shows of every outcome.

use rand::Rng;
use vstd::prelude::*;

verus! {

/// Calls `rand::Rng::gen_range` on `rand::thread_rng()` with the half-open
/// range `low..high`. The generator samples an offset below `high - low` and
/// adds it to `low`, so the result lies in the range; on an empty range it
/// panics, which `requires` rules out. (The generator is seeded from the
/// operating system and fails only where the system can give it no seed.)
#[verifier::external_body]
pub(crate) fn random_in_range(low: i32, high: i32) -> (r: i32)
    requires
        low < high,
    ensures
        low <= r < high,
{
    rand::thread_rng().gen_range(low..high)
}

/// Calls `rand::Rng::gen::<u32>` on `rand::thread_rng()`: any 32-bit value may
/// come back, so nothing is promised of it.
#[verifier::external_body]
pub(crate) fn random_u32() -> u32 {
    rand::thread_rng().gen::<u32>()
}

} // verus!
