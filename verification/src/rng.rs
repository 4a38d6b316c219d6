//! Draws of randomness, taken from the `rand` crate behind trusted
//! wrappers. Every verified caller takes the drawn value as an opaque
//! sample and is proved for every value the wrapper's contract admits.

use rand::Rng;
use vstd::prelude::*;

verus! {

/// Relies on rand's `Rng::gen_range` on a `ThreadRng`: a uniform draw from
/// the half-open range `lo..hi`, which panics on an empty range and
/// otherwise returns a value inside it.
#[verifier::external_body]
pub fn rand_range(lo: i64, hi: i64) -> (r: i64)
    requires
        lo < hi,
    ensures
        lo <= r < hi,
{
    let mut rng = rand::thread_rng();
    rng.gen_range(lo..hi)
}

/// Relies on rand's `Rng::gen_ratio` on a `ThreadRng`: `true` with
/// probability `num/den`, which panics when `den` is zero or `num` exceeds
/// `den`. Of a single draw only the documented edge guarantees can be
/// promised: a full ratio always draws `true` and a zero ratio never does.
#[verifier::external_body]
pub fn rand_ratio(num: u32, den: u32) -> (r: bool)
    requires
        0 < den,
        num <= den,
    ensures
        num == den ==> r,
        num == 0 ==> !r,
{
    let mut rng = rand::thread_rng();
    rng.gen_ratio(num, den)
}

} // verus!
