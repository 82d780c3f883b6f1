//! The source of randomness used to place food.

use vstd::prelude::*;

verus! {

/// The thread-local generator handle of the `rand` crate, carried through
/// as an opaque value.
#[verifier::external_type_specification]
#[verifier::external_body]
pub struct ExThreadRng(rand::rngs::ThreadRng);

/// Calls `rand::thread_rng`, which hands out the calling thread's generator.
/// Nothing is claimed of the handle.
#[verifier::external_body]
pub(crate) fn thread_generator() -> rand::rngs::ThreadRng {
    rand::thread_rng()
}

/// Calls `rand::Rng::gen_range` with the bounds `0` and `bound`. The crate
/// documents the result as lying in the half-open range from the low to the
/// high bound, and a panic when the range is empty, hence the precondition.
/// Which value of the range comes back is left open.
#[verifier::external_body]
pub(crate) fn draw_below(rng: &mut rand::rngs::ThreadRng, bound: u16) -> (r: u16)
    requires
        bound > 0,
    ensures
        r < bound,
{
    rand::Rng::gen_range(rng, 0, bound)
}

} // verus!
