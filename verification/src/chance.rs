//! Chance.
use vstd::prelude::*;

verus! {

/// Calls `rand::Rng::gen_range` on the generator of the thread, with the range from zero up to but
/// without `n`, which must not be empty. Which number comes out is left to chance.
#[verifier::external_body]
pub(crate) fn random_index(n: usize) -> (i: usize)
    requires
        0 < n,
    ensures
        i < n,
{
    rand::Rng::gen_range(&mut rand::thread_rng(), 0..n)
}

} // verus!
