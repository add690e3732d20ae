//! The two random draws that the store makes, taken from the thread-local
//! generator of the `rand` crate.

use vstd::prelude::*;

verus! {

/// 64 random bits.
///
/// Trusted: calls `rand::random::<u64>()`. Nothing is claimed of the bits that
/// come back, so whatever is proved of a caller holds for every draw.
#[verifier::external_body]
pub(crate) fn random_u64() -> (bits: u64) {
    rand::random::<u64>()
}

/// A random index into a collection of `len` items.
///
/// Trusted: calls `rand::random_range(0..len)`, which is documented to give a
/// value in the range and to panic on an empty range. Hence `len > 0` is
/// asked for, and only `index < len` is claimed.
#[verifier::external_body]
pub(crate) fn random_index(len: usize) -> (index: usize)
    requires
        len > 0,
    ensures
        index < len,
{
    rand::random_range(0..len)
}

} // verus!
