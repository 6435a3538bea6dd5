//! The parts of an absolute URL that the tool reads, as the `url` crate
//! parses them.
use vstd::prelude::*;

verus! {

/// What the tool reads of a parsed URL.
pub struct UrlParts {
    /// The host, when the URL has one (`Url::host_str`).
    pub host: Option<String>,
    /// The path, percent-encoded (`Url::path`).
    pub path: String,
}

/// Whether `url::Url::parse` accepts `input` as an absolute URL.
pub uninterp spec fn url_parses(input: Seq<char>) -> bool;

/// `Url::host_str` of the URL that `url::Url::parse` makes of `input`.
pub uninterp spec fn url_host(input: Seq<char>) -> Option<Seq<char>>;

/// `Url::path` of the URL that `url::Url::parse` makes of `input`.
pub uninterp spec fn url_path(input: Seq<char>) -> Seq<char>;

/// Parses `input` with `url::Url::parse` (the WHATWG URL standard) and reads
/// `Url::host_str` and `Url::path` of the result.  The contract says only
/// that the result is `None` exactly when the parse fails and otherwise
/// holds the named host and path of `input`; what the parse makes of a
/// given text is left to those names.
#[verifier::external_body]
pub(crate) fn parse_url(input: &str) -> (r: Option<UrlParts>)
    ensures
        r.is_some() == url_parses(input@),
        r matches Some(p) ==> {
            &&& p.path@ == url_path(input@)
            &&& match p.host {
                Some(h) => url_host(input@) == Some(h@),
                None => url_host(input@).is_none(),
            }
        },
{
    url::Url::parse(input).ok().map(
        |u| UrlParts { host: u.host_str().map(|h| h.to_string()), path: u.path().to_string() },
    )
}

} // verus!
