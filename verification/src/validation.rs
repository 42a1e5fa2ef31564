use crate::messages::Failure;
use vstd::prelude::*;

verus! {

/// What the `url` crate's parser makes of `text`: nothing where it refuses
/// the text, and otherwise whether the URL it parsed has a host.
///
/// The grammar is the parser's own; nothing is stated of it here beyond its
/// being a function of the text alone.
pub uninterp spec fn parsed_host(text: Seq<char>) -> Option<bool>;

/// `text` is accepted as a destination: it parses as an absolute URL, and
/// that URL has a host. A text with a scheme and no authority, such as a
/// `mailto:` or `data:` URL, parses and is not accepted.
pub open spec fn is_url_with_host(text: Seq<char>) -> bool {
    parsed_host(text) == Some(true)
}

/// Runs `url::Url::parse` on `url_str` and, where it succeeds, asks the
/// parsed URL whether it has a host (`Url::has_host`).
///
/// Trusted: the outcome depends on the text alone, and [`parsed_host`] is
/// the name of that outcome. The parsed URL itself is dropped.
#[verifier::external_body]
fn parse_host(url_str: &str) -> (parsed: Option<bool>)
    ensures
        parsed == parsed_host(url_str@),
{
    match url::Url::parse(url_str) {
        Ok(url) => Some(url.has_host()),
        Err(_) => None,
    }
}

/// Turns what the parser made of a text into the outcome of validation:
/// acceptance where it parsed a URL with a host, and the message for an
/// invalid URL where it parsed one without or refused the text.
pub fn verdict(parsed: Option<bool>) -> (r: Result<(), String>)
    ensures
        parsed == Some(true) ==> r == Ok::<(), String>(()),
        parsed != Some(true) ==> (r matches Err(e) && e@ == Failure::InvalidUrl.text()),
{
    match parsed {
        Some(true) => Ok(()),
        _ => Err(Failure::InvalidUrl.message()),
    }
}

/// Accepts `url_str` exactly when it is an absolute URL with a host, and
/// otherwise fails with the message for an invalid URL.
pub fn is_valid_url(url_str: &str) -> (r: Result<(), String>)
    ensures
        is_url_with_host(url_str@) ==> r == Ok::<(), String>(()),
        !is_url_with_host(url_str@) ==> (r matches Err(e) && e@ == Failure::InvalidUrl.text()),
{
    verdict(parse_host(url_str))
}

} // verus!
