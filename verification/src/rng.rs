use vstd::prelude::*;

verus! {

/// The seedable random source injected into every generation and sampling
/// function, so that a caller who fixes the seed can reproduce a level.
#[verifier::external_type_specification]
#[verifier::external_body]
pub struct ExStdRng(rand::rngs::StdRng);

/// Relies on rand's `Rng::gen_range` over a half-open range: a sample drawn
/// from `[lo, hi)`; the call panics on an empty range, which the
/// precondition rules out.
#[verifier::external_body]
pub(crate) fn rng_range(rng: &mut rand::rngs::StdRng, lo: i32, hi: i32) -> (r: i32)
    requires
        lo < hi,
    ensures
        lo <= r < hi,
{
    rand::Rng::gen_range(rng, lo..hi)
}

} // verus!
