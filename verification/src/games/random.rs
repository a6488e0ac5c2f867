//! Random numbers for the games.

use vstd::prelude::*;

verus! {

/// A whole number drawn at random from `lo` up to, but not including, `hi`.
///
/// Calls `rand::rng().random_range(lo..hi)`, which panics on an empty range
/// and otherwise returns a member of the range; nothing more is claimed of
/// the number drawn.
#[verifier::external_body]
pub(crate) fn random_between(lo: i64, hi: i64) -> (r: i64)
    requires
        lo < hi,
    ensures
        lo <= r < hi,
{
    rand::Rng::random_range(&mut rand::rng(), lo..hi)
}

} // verus!
