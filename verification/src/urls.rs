//! URL validation. Parsing and normalization are the `url` crate's work;
//! the library holds the outcome as plain values: the normalized text and
//! whether the URL is opaque (cannot be a base).

use vstd::prelude::*;

verus! {

/// A parsed URL: its normalized text and whether it cannot serve as a
/// base for paths.
#[derive(Debug, PartialEq)]
pub struct ParsedUrl {
    pub text: String,
    pub opaque: bool,
}

/// What parsing a URL text yields: `None` on invalid input, otherwise the
/// normalized text and the opacity flag. The result depends on the input
/// characters alone.
pub uninterp spec fn url_parse_of(s: Seq<char>) -> Option<(Seq<char>, bool)>;

/// Relies on `url::Url::parse`: it accepts or rejects a URL text
/// deterministically, `Url::as_str` returns the normalized serialization,
/// and `Url::cannot_be_a_base` says whether the URL is opaque.
#[verifier::external_body]
pub fn parse_url(s: &str) -> (r: Option<ParsedUrl>)
    ensures
        r matches Some(u) ==> url_parse_of(s@) matches Some(pr) && u.text@ == pr.0 && u.opaque
            == pr.1,
        r is None ==> url_parse_of(s@) is None,
{
    match url::Url::parse(s) {
        Ok(u) => Some(ParsedUrl { opaque: u.cannot_be_a_base(), text: u.as_str().to_string() }),
        Err(_) => None,
    }
}

} // verus!
