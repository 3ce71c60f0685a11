//! The one source of randomness: a uniformly drawn index.

use vstd::prelude::*;

verus! {

/// Draws an index below `len` with `rand::random_range(0..len)`, which
/// samples the thread-local generator; rand documents that the value lies in
/// the range and that an empty range panics, which `requires` rules out.
/// Which index comes back is chance: only the bound is stated.
#[verifier::external_body]
pub(crate) fn random_index(len: usize) -> (i: usize)
    requires
        len > 0,
    ensures
        i < len,
{
    rand::random_range(0..len)
}

} // verus!
