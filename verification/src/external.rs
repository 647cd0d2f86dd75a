//! The first clients of the sites' APIs: their requests, the query each
//! request makes, and the answers as plain values.
use vstd::prelude::*;

pub mod aladinkr;
pub mod error;
pub mod nlgo;

verus! {

/// The plain values of query pairs.
pub open spec fn pairs_view(pairs: Seq<(String, String)>) -> Seq<(Seq<char>, Seq<char>)> {
    pairs.map_values(|p: (String, String)| (p.0@, p.1@))
}

/// What the `url` crate (re-exported by reqwest as `Url`) gives for a base
/// address with query pairs appended in order: the serialized address, or
/// nothing where the base does not parse.
pub uninterp spec fn url_with_query(base: Seq<char>, pairs: Seq<(Seq<char>, Seq<char>)>) -> Option<Seq<char>>;

/// Parses `base` with `reqwest::Url::parse`, appends the pairs in order
/// through `query_pairs_mut().extend_pairs`, which form-encodes them, and
/// serializes the address.
#[verifier::external_body]
pub(crate) fn encode_url(base: &str, pairs: &Vec<(String, String)>) -> (r: Option<String>)
    ensures
        match r {
            Some(s) => url_with_query(base@, pairs_view(pairs@)) == Some(s@),
            None => url_with_query(base@, pairs_view(pairs@)) is None,
        },
{
    match reqwest::Url::parse(base) {
        Ok(mut url) => {
            url.query_pairs_mut().extend_pairs(pairs.iter());
            Some(String::from(url))
        },
        Err(_) => None,
    }
}

/// What the `url` crate (re-exported by reqwest as `Url`) gives for a text:
/// the address written back as `Url` serializes it, or nothing where the
/// text does not parse.
pub uninterp spec fn parsed_url(s: Seq<char>) -> Option<Seq<char>>;

/// Parses `s` with `reqwest::Url::parse` and serializes the address.
#[verifier::external_body]
pub(crate) fn parse_url(s: &str) -> (r: Option<String>)
    ensures
        match r {
            Some(u) => parsed_url(s@) == Some(u@),
            None => parsed_url(s@) is None,
        },
{
    match reqwest::Url::parse(s) {
        Ok(url) => Some(String::from(url)),
        Err(_) => None,
    }
}

} // verus!
