//! Random numbers of the system, from `getrandom`.
use vstd::prelude::*;

verus! {

/// Calls `getrandom::getrandom` for four bytes, and reads them as a little-endian number. `None`
/// where the system gives none. Nothing can be said of the number.
#[verifier::external_body]
pub(crate) fn random_u32() -> (r: Option<u32>) {
    let mut buf = [0u8; 4];
    getrandom::getrandom(&mut buf).ok()?;
    Some(u32::from_le_bytes(buf))
}

} // verus!
