use vstd::prelude::*;

verus! {

/// Draws a number in `0..bound` with `rand::random_range` (the thread-local
/// generator). The contract claims only the range: which number comes out is
/// left to chance, so two calls with the same bound may differ.
#[verifier::external_body]
pub(crate) fn random_below(bound: usize) -> (r: usize)
    requires
        bound > 0,
    ensures
        r < bound,
{
    rand::random_range(0..bound)
}

} // verus!
