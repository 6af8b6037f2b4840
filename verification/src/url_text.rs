use url::Url;
use vstd::prelude::*;

verus! {

/// Whether `Url::parse` of the `url` crate accepts `input` as an absolute URL.
pub uninterp spec fn url_parses(input: Seq<char>) -> bool;

/// The serialization (`Url::as_str`) of the URL parsed from `input` after its
/// query has been replaced with `Url::set_query(Some(query))`.
pub uninterp spec fn url_with_query_text(input: Seq<char>, query: Seq<char>) -> Seq<char>;

/// Parses `input` (`Url::parse`), replaces its query with `query`
/// (`Url::set_query`) and returns the serialization (`Url::as_str`); `None`
/// where `input` is no absolute URL.
///
/// Trusted: the result is present exactly when `url_parses(input)`, and then
/// it is `url_with_query_text(input, query)`. How the URL is normalised and
/// the query percent-encoded is left unsaid.
#[verifier::external_body]
pub(crate) fn url_with_query(input: &str, query: &str) -> (r: Option<String>)
    ensures
        r.is_some() == url_parses(input@),
        r.is_some() ==> r.unwrap()@ == url_with_query_text(input@, query@),
{
    match Url::parse(input) {
        Ok(mut url) => {
            url.set_query(Some(query));
            Some(url.as_str().to_string())
        },
        Err(_) => None,
    }
}

} // verus!
