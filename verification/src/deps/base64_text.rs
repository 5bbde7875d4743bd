//! Base64, from `base64`.
use base64::prelude::BASE64_STANDARD;
use base64::Engine;
use vstd::prelude::*;

verus! {

/// Bytes in the standard Base64 alphabet, padded.
pub uninterp spec fn base64_of(bytes: Seq<u8>) -> Seq<char>;

/// The bytes that a padded text in the standard Base64 alphabet spells.
pub uninterp spec fn base64_bytes(text: Seq<char>) -> Option<Seq<u8>>;

/// Encodes with `BASE64_STANDARD` of `base64`. What the text looks like is not stated; it decodes
/// to the bytes.
#[verifier::external_body]
pub(crate) fn base64_encode(bytes: &[u8]) -> (r: String)
    ensures
        r@ == base64_of(bytes@),
        base64_bytes(r@) == Some(bytes@),
{
    BASE64_STANDARD.encode(bytes)
}

/// Decodes with `BASE64_STANDARD` of `base64`. Which texts decode is not stated.
#[verifier::external_body]
pub(crate) fn base64_decode(text: &str) -> (r: Option<Vec<u8>>)
    ensures
        match r {
            Some(b) => base64_bytes(text@) == Some(b@),
            None => base64_bytes(text@) is None,
        },
{
    BASE64_STANDARD.decode(text).ok()
}

} // verus!
