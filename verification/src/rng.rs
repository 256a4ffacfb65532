//! The crate's only source of randomness: uniform draws from inclusive
//! integer ranges, provided by the `rand` crate behind trusted wrappers.

use vstd::prelude::*;

verus! {

/// Relies on `rand::random_range` on the inclusive range `lower..=upper`:
/// for a non-empty range it returns a value within the bounds (and panics
/// only on an empty range, which the precondition excludes).  Which value
/// comes back is left unspecified; the draw is documented as uniform, but
/// nothing here depends on the distribution.
#[verifier::external_body]
pub(crate) fn sample_i64(lower: i64, upper: i64) -> (r: i64)
    requires
        lower <= upper,
    ensures
        lower <= r <= upper,
{
    rand::random_range(lower..=upper)
}

/// Relies on `rand::random_range` on the inclusive range `lower..=upper`,
/// as [`sample_i64`] does, instantiated at `usize` to draw shape counts and
/// palette indices.
#[verifier::external_body]
pub(crate) fn sample_usize(lower: usize, upper: usize) -> (r: usize)
    requires
        lower <= upper,
    ensures
        lower <= r <= upper,
{
    rand::random_range(lower..=upper)
}

} // verus!
