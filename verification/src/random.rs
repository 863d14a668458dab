//! The one source of randomness: initial agent placement and heading.

use vstd::prelude::*;

verus! {

/// Relies on `rand::random_range` over an `i64` range: the sample lies
/// within `[lo, hi)`. Nothing more is assumed of the draw; callers must
/// accept every value in the range.
#[verifier::external_body]
pub(crate) fn random_in_range(lo: i64, hi: i64) -> (r: i64)
    requires
        lo < hi,
    ensures
        lo <= r < hi,
{
    rand::random_range(lo..hi)
}

} // verus!
