//! URLs as browsers read them, from `url`.
use vstd::prelude::*;

use crate::deps::uri::opt_view;

verus! {

/// What is read of a URL. The port is missing where it is the default of the scheme.
pub struct UrlParts {
    pub scheme: String,
    pub host: Option<String>,
    pub port: Option<u16>,
}

#[verifier::ext_equal]
pub struct UrlView {
    pub scheme: Seq<char>,
    pub host: Option<Seq<char>>,
    pub port: Option<u16>,
}

impl View for UrlParts {
    type V = UrlView;

    open spec fn view(&self) -> UrlView {
        UrlView { scheme: self.scheme@, host: opt_view(self.host), port: self.port }
    }
}

/// What is read of the URL that a text spells.
pub uninterp spec fn url_parts(text: Seq<char>) -> Option<UrlView>;

/// Parses with `url::Url::parse`, and reads the scheme, `Url::host_str` and `Url::port`. How a URL
/// is spelt is not stated.
#[verifier::external_body]
pub(crate) fn parse_url(text: &str) -> (r: Option<UrlParts>)
    ensures
        match r {
            Some(u) => url_parts(text@) == Some(u@),
            None => url_parts(text@) is None,
        },
{
    let u = url::Url::parse(text).ok()?;
    Some(UrlParts {
        scheme: u.scheme().to_string(),
        host: u.host_str().map(str::to_string),
        port: u.port(),
    })
}

} // verus!
