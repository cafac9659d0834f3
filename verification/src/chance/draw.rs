use vstd::prelude::*;

verus! {

/// Calls `rand::Rng::gen_range` on the half-open range `0..bound`.
///
/// The call panics on an empty range, so the bound must be positive. It takes
/// values from the generator until one can be turned into a number of the
/// range without bias, and returns that number, which is below the bound.
/// Nothing else is claimed of it: which number is drawn is up to the generator.
#[verifier::external_body]
pub(crate) fn draw_below<R: rand::Rng + ?Sized>(rng: &mut R, bound: u128) -> (r: u128)
    requires
        bound > 0,
    ensures
        r < bound,
{
    rng.gen_range(0..bound)
}

} // verus!
