//! The one source of randomness.

use rand::Rng;
use vstd::prelude::*;

verus! {

/// `Rng::gen_range` with the range `0..n`, on the generator that
/// `rand::thread_rng` hands out: some number below `n`. The range must not
/// be empty. Which number comes is not stated.
#[verifier::external_body]
pub(crate) fn random_below(n: usize) -> (r: usize)
    requires
        n > 0,
    ensures
        r < n,
{
    rand::thread_rng().gen_range(0..n)
}

} // verus!
