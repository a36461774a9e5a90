//! What the `url` crate reads in a URL text, as plain values.
use vstd::prelude::*;

verus! {

/// What `url::Url::parse` makes of a text: the URL's scheme and host text
/// (none for a URL without a host), or the parse error's message.
pub uninterp spec fn url_parts(text: Seq<char>) -> Result<(Seq<char>, Option<Seq<char>>), Seq<char>>;

/// `url::Url::parse`, with the parsed URL's `scheme` and `host_str` taken
/// out as strings, or the parse error's message: the result is the named
/// value `url_parts(text)`.
#[verifier::external_body]
pub fn parse_url(text: &str) -> (r: Result<(String, Option<String>), String>)
    ensures
        match (r, url_parts(text@)) {
            (Ok((s, Some(h))), Ok((sv, Some(hv)))) => s@ == sv && h@ == hv,
            (Ok((s, None)), Ok((sv, None))) => s@ == sv,
            (Err(e), Err(ev)) => e@ == ev,
            _ => false,
        },
{
    match url::Url::parse(text) {
        Ok(url) => Ok((url.scheme().to_string(), url.host_str().map(|host| host.to_string()))),
        Err(error) => Err(error.to_string()),
    }
}

} // verus!
