//! The kernel's only source of randomness.
use vstd::prelude::*;

verus! {

/// Relies on rand's `Rng::gen_range` over `0..len`: the sample lies in the
/// range, and the range is nonempty, so the call does not panic. Nothing
/// more is assumed: to the verifier every call may return a different index.
#[verifier::external_body]
pub fn random_below(len: usize) -> (r: usize)
    requires
        len >= 1,
    ensures
        r < len,
{
    rand::Rng::gen_range(&mut rand::thread_rng(), 0..len)
}

} // verus!
