//! The library's single source of randomness.

use vstd::prelude::*;

verus! {

/// Relies on `rand::Rng::gen_range` over `lo..hi` with the thread-local
/// generator: it returns a value of the half-open range and panics only
/// when the range is empty, which the precondition excludes.
#[verifier::external_body]
pub(crate) fn rand_range_u64(lo: u64, hi: u64) -> (r: u64)
    requires
        lo < hi,
    ensures
        lo <= r < hi,
{
    rand::Rng::gen_range(&mut rand::thread_rng(), lo..hi)
}

/// A random index below `n`.
pub(crate) fn rand_index(n: usize) -> (r: usize)
    requires
        n > 0,
    ensures
        r < n,
{
    let v = rand_range_u64(0, n as u64);
    v as usize
}

} // verus!
