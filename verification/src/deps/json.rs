//! JSON documents, from `serde_json`. A place in a document is given by a JSON pointer.
use serde_json::Value;
use vstd::prelude::*;

verus! {

/// Whether a text is a JSON document.
pub uninterp spec fn is_json(text: Seq<char>) -> bool;

/// The number at a place of a document, if the document has an unsigned integer there.
pub uninterp spec fn json_u64(text: Seq<char>, pointer: Seq<char>) -> Option<u64>;

/// The text at a place of a document, if the document has a string there.
pub uninterp spec fn json_str(text: Seq<char>, pointer: Seq<char>) -> Option<Seq<char>>;

/// How many elements the array at a place of a document has, if the document has an array there.
pub uninterp spec fn json_array_len(text: Seq<char>, pointer: Seq<char>) -> Option<usize>;

/// Parses with `serde_json::from_str::<Value>`. What a document looks like is not stated.
#[verifier::external_body]
pub(crate) fn json_valid(text: &str) -> (r: bool)
    ensures
        r == is_json(text@),
{
    serde_json::from_str::<Value>(text).is_ok()
}

/// Parses with `serde_json::from_str`, finds the place with `Value::pointer` and reads it with
/// `Value::as_u64`. What a document holds is not stated.
#[verifier::external_body]
pub(crate) fn json_u64_at(text: &str, pointer: &str) -> (r: Option<u64>)
    ensures
        r == json_u64(text@, pointer@),
{
    serde_json::from_str::<Value>(text).ok()?.pointer(pointer)?.as_u64()
}

/// Parses with `serde_json::from_str`, finds the place with `Value::pointer` and reads it with
/// `Value::as_str`. What a document holds is not stated.
#[verifier::external_body]
pub(crate) fn json_str_at(text: &str, pointer: &str) -> (r: Option<String>)
    ensures
        match r {
            Some(s) => json_str(text@, pointer@) == Some(s@),
            None => json_str(text@, pointer@) is None,
        },
{
    Some(serde_json::from_str::<Value>(text).ok()?.pointer(pointer)?.as_str()?.to_string())
}

/// Parses with `serde_json::from_str`, finds the place with `Value::pointer` and reads it with
/// `Value::as_array`. What a document holds is not stated.
#[verifier::external_body]
pub(crate) fn json_array_len_at(text: &str, pointer: &str) -> (r: Option<usize>)
    ensures
        r == json_array_len(text@, pointer@),
{
    Some(serde_json::from_str::<Value>(text).ok()?.pointer(pointer)?.as_array()?.len())
}

} // verus!
