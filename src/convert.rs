//! Integer conversions between table indices and fixed-point arithmetic.
use easy_cast::Conv;
use vstd::prelude::*;

verus! {

/// Relies on easy_cast's `Conv<usize> for i128`: a widening conversion that
/// keeps the value.
#[verifier::external_body]
pub(crate) fn index_as_i128(i: usize) -> (r: i128)
    ensures
        r == i,
{
    i128::conv(i)
}

/// Relies on easy_cast's `Conv<i128> for usize`: keeps the value; it asserts
/// (in debug builds) that the value lies in `usize`'s range.
#[verifier::external_body]
pub(crate) fn i128_as_index(v: i128) -> (r: usize)
    requires
        0 <= v <= usize::MAX,
    ensures
        r == v,
{
    usize::conv(v)
}

} // verus!
