//! The one source of randomness of the engine.

use rand::Rng;
use vstd::prelude::*;

verus! {

/// Draws a number below `bound` from the generator of the current thread,
/// by `rand::thread_rng()` and `Rng::gen_range(0..bound)`.
///
/// Trusted, not proved: the draw lies in `0..bound`. `gen_range` panics on
/// an empty range, so `bound` must be positive. Nothing is claimed of which
/// number is drawn, and two draws with one bound may differ. Should the
/// operating system fail to seed the generator, `thread_rng` panics.
#[verifier::external_body]
pub(crate) fn random_below(bound: usize) -> (draw: usize)
    requires
        bound > 0,
    ensures
        draw < bound,
{
    rand::thread_rng().gen_range(0..bound)
}

} // verus!
