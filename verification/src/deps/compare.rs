//! Comparison in constant time, from `subtle`.
use vstd::prelude::*;

verus! {

/// Calls `subtle::ConstantTimeEq::ct_eq` on two byte slices: whether they have the same length and
/// the same bytes. How long the comparison takes is not stated.
#[verifier::external_body]
pub(crate) fn ct_eq(a: &[u8], b: &[u8]) -> (r: bool)
    ensures
        r == (a@ == b@),
{
    subtle::ConstantTimeEq::ct_eq(a, b).into()
}

} // verus!
