//! Absolute URLs, parsed by the `url` crate.
use vstd::prelude::*;

verus! {

/// An absolute URL, parsed and serialized by the `url` crate.
#[verifier::external_type_specification]
#[verifier::external_body]
pub struct ExUrl(url::Url);

/// The error `url::Url::parse` reports.
#[verifier::external_type_specification]
#[verifier::external_body]
pub struct ExUrlParseError(url::ParseError);


/// The serialization of the URL that `input` parses to, if it parses.
pub uninterp spec fn url_serialization(input: Seq<char>) -> Option<Seq<char>>;

/// `url::Url::parse` and `Url::as_str`: the serialization of the URL that `input`
/// parses to, or the parse error.
#[verifier::external_body]
pub(crate) fn parse_url(input: &str) -> (r: Result<String, url::ParseError>)
    ensures
        match r {
            Ok(text) => url_serialization(input@) == Some(text@),
            Err(_) => url_serialization(input@) is None,
        },
{
    match url::Url::parse(input) {
        Ok(u) => Ok(u.as_str().to_string()),
        Err(e) => Err(e),
    }
}

} // verus!
