use rand::Rng;
use vstd::prelude::*;

verus! {

/// Calls `rand::Rng::random_range(0..=upper)` on the thread-local generator
/// `rand::rng()`. The contract claims only that the draw lies in `0..=upper`;
/// which value comes is chance and is not stated. Like every use of
/// `rand::rng()`, the call panics when the operating system's generator
/// cannot seed the thread-local one, whatever the argument.
#[verifier::external_body]
pub(crate) fn random_index_upto(upper: usize) -> (r: usize)
    ensures
        r <= upper,
{
    rand::rng().random_range(0..=upper)
}

/// Calls `rand::Rng::random::<bool>()` on the thread-local generator
/// `rand::rng()`: a fair coin. Nothing is claimed of the outcome. The call
/// panics when the operating system's generator cannot seed the
/// thread-local one.
#[verifier::external_body]
pub(crate) fn random_coin() -> (r: bool) {
    rand::rng().random::<bool>()
}

} // verus!
