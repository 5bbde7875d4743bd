//! MD5, from `md-5`.
use md5::Digest;
use vstd::prelude::*;

verus! {

/// The MD5 digest of a message.
pub uninterp spec fn md5_digest(data: Seq<u8>) -> Seq<u8>;

/// Feeds two pieces of a message to `md5::Md5` with `Digest::update` and takes the digest with
/// `Digest::finalize`: the digest of the pieces put together, which is always 16 bytes long.
#[verifier::external_body]
pub(crate) fn md5_of_parts(first: &[u8], second: &[u8]) -> (r: Vec<u8>)
    ensures
        r@ == md5_digest(first@ + second@),
        r@.len() == 16,
{
    let mut m = md5::Md5::new();
    m.update(first);
    m.update(second);
    m.finalize().to_vec()
}

} // verus!
