//! The heads of HTTP requests and responses, from `httparse`.
use vstd::prelude::*;

use crate::deps::uri::opt_view;

verus! {

/// What is read of the head of a request. A part that was not reached is missing; a header field
/// that was not reached has no name and no value.
pub struct RequestHead {
    pub method: Option<String>,
    pub path: Option<String>,
    pub headers: Vec<(String, Vec<u8>)>,
}

#[verifier::ext_equal]
pub struct RequestHeadView {
    pub method: Option<Seq<char>>,
    pub path: Option<Seq<char>>,
    pub headers: Seq<(Seq<char>, Seq<u8>)>,
}

/// Header fields, with their names as text and their values as bytes.
pub open spec fn fields(s: Seq<(String, Vec<u8>)>) -> Seq<(Seq<char>, Seq<u8>)> {
    Seq::new(s.len(), |i: int| (s[i].0@, s[i].1@))
}

impl View for RequestHead {
    type V = RequestHeadView;

    open spec fn view(&self) -> RequestHeadView {
        RequestHeadView {
            method: opt_view(self.method),
            path: opt_view(self.path),
            headers: fields(self.headers@),
        }
    }
}

/// What is read of the head of a request, with room for `slots` header fields. `None` where the
/// bytes cannot begin a request.
pub uninterp spec fn request_head(data: Seq<u8>, slots: nat) -> Option<RequestHeadView>;

/// What is read of the head of a response, with room for `slots` header fields: `None` where the
/// bytes cannot begin a response, nothing inside where the head is not all there, else its length
/// and the status code.
pub uninterp spec fn response_head(data: Seq<u8>, slots: nat) -> Option<Option<(usize, Option<u16>)>>;

/// Calls `httparse::Request::parse`, which may stop before the end of the head, and reads what it
/// found. How a head is spelt is not stated.
#[verifier::external_body]
pub(crate) fn parse_request_head(data: &[u8], slots: usize) -> (r: Option<RequestHead>)
    ensures
        match r {
            Some(h) => request_head(data@, slots as nat) == Some(h@),
            None => request_head(data@, slots as nat) is None,
        },
{
    let mut headers = vec![httparse::EMPTY_HEADER; slots];
    let mut req = httparse::Request::new(&mut headers);
    req.parse(data).ok()?;
    Some(RequestHead {
        method: req.method.map(str::to_string),
        path: req.path.map(str::to_string),
        headers: req.headers.iter().map(|h| (h.name.to_string(), h.value.to_vec())).collect(),
    })
}

/// Calls `httparse::Response::parse`, and reads the length of the head and the status code. How a
/// head is spelt is not stated.
#[verifier::external_body]
pub(crate) fn parse_response_head(data: &[u8], slots: usize) -> (r: Option<Option<(usize, Option<u16>)>>)
    ensures
        r == response_head(data@, slots as nat),
        r matches Some(Some((len, _))) ==> len <= data@.len(),
{
    let mut headers = vec![httparse::EMPTY_HEADER; slots];
    let mut res = httparse::Response::new(&mut headers);
    match res.parse(data).ok()? {
        httparse::Status::Partial => Some(None),
        httparse::Status::Complete(len) => Some(Some((len, res.code))),
    }
}

} // verus!
