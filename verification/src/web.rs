//! Addresses of images and services.
use vstd::prelude::*;

verus! {

/// What `url::Url` parsing of `s` gives, as the serialized URL; `None` where
/// `s` is not a valid URL.
pub uninterp spec fn url_serialization(s: Seq<char>) -> Option<Seq<char>>;

/// Parses `s` with `url::Url` (`str::parse`) and serializes the result
/// (`Url::to_string`). Claimed: the result depends on the text alone; `None`
/// where parsing fails.
#[verifier::external_body]
pub fn parse_url(s: &str) -> (res: Option<String>)
    ensures
        res is Some <==> url_serialization(s@) is Some,
        res is Some ==> url_serialization(s@) == Some(res->Some_0@),
{
    match s.parse::<url::Url>() {
        Ok(u) => Some(u.to_string()),
        Err(_) => None,
    }
}

} // verus!
