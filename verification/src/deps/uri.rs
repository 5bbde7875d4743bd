//! Uniform resource identifiers, from `http`.
use vstd::prelude::*;

verus! {

/// The parts of a URI.
pub struct UriParts {
    /// The whole of it, as it is written again.
    pub text: String,
    pub scheme: Option<String>,
    pub host: Option<String>,
    pub port: Option<u16>,
    pub path: String,
}

#[verifier::ext_equal]
pub struct UriView {
    pub text: Seq<char>,
    pub scheme: Option<Seq<char>>,
    pub host: Option<Seq<char>>,
    pub port: Option<u16>,
    pub path: Seq<char>,
}

pub open spec fn opt_view(s: Option<String>) -> Option<Seq<char>> {
    match s {
        Some(t) => Some(t@),
        None => None,
    }
}

impl View for UriParts {
    type V = UriView;

    open spec fn view(&self) -> UriView {
        UriView {
            text: self.text@,
            scheme: opt_view(self.scheme),
            host: opt_view(self.host),
            port: self.port,
            path: self.path@,
        }
    }
}

/// The parts of the URI that a text spells.
pub uninterp spec fn uri_parts(text: Seq<char>) -> Option<UriView>;

/// Parses with `http::Uri`'s `FromStr`, and reads the parts. How a URI is spelt is not stated.
#[verifier::external_body]
pub(crate) fn parse_uri(text: &str) -> (r: Option<UriParts>)
    ensures
        match r {
            Some(u) => uri_parts(text@) == Some(u@),
            None => uri_parts(text@) is None,
        },
{
    let u: http::Uri = text.parse().ok()?;
    Some(UriParts {
        text: u.to_string(),
        scheme: u.scheme_str().map(str::to_string),
        host: u.host().map(str::to_string),
        port: u.port_u16(),
        path: u.path().to_string(),
    })
}

} // verus!
