//! Trusted wrappers around the url crate: parsing, joining, and query
//! attachment, each named as a function of its textual arguments.

use vstd::prelude::*;
use crate::value::pairs_view;

verus! {

/// The normalized serialization that url::Url::parse gives a URL text; a
/// function of the characters alone.
pub uninterp spec fn url_norm_of(s: Seq<char>) -> Seq<char>;

/// Whether url::Url::parse accepts a URL text; a function of the
/// characters alone.
pub uninterp spec fn url_accepts(s: Seq<char>) -> bool;

/// Relies on url::Url::parse: it succeeds exactly on the texts it accepts,
/// and acceptance and the normalized serialization of the result are
/// functions of the input text alone; the parse error is carried as text.
#[verifier::external_body]
pub fn parse_url_norm(s: &str) -> (r: Result<String, String>)
    ensures
        r is Ok <==> url_accepts(s@),
        r matches Ok(u) ==> u@ == url_norm_of(s@),
{
    match url::Url::parse(s) {
        Ok(u) => Ok(String::from(u)),
        Err(e) => Err(e.to_string()),
    }
}

/// The serialization of joining a relative path against a base URL, as
/// url::Url::join resolves it; a function of the two texts alone.
pub uninterp spec fn url_join_of(base: Seq<char>, path: Seq<char>) -> Seq<char>;

/// Whether url::Url::parse accepts the base and url::Url::join then
/// accepts the path against it; a function of the two texts alone.
pub uninterp spec fn url_join_ok(base: Seq<char>, path: Seq<char>) -> bool;

/// Relies on url::Url::parse and url::Url::join: the two steps succeed
/// exactly when the crate accepts the two texts, and acceptance and the
/// resolved serialization are functions of the two texts alone; either
/// step's parse error is carried as text.
#[verifier::external_body]
pub fn resolve_url(base: &str, path: &str) -> (r: Result<String, String>)
    ensures
        r is Ok <==> url_join_ok(base@, path@),
        r matches Ok(u) ==> u@ == url_join_of(base@, path@),
{
    match url::Url::parse(base) {
        Ok(b) => match b.join(path) {
            Ok(u) => Ok(String::from(u)),
            Err(e) => Err(e.to_string()),
        },
        Err(e) => Err(e.to_string()),
    }
}

/// The serialization of a URL after the given pairs are appended to its
/// query string in application/x-www-form-urlencoded syntax; a function of
/// the URL text and the pairs alone.
pub uninterp spec fn url_with_query_of(u: Seq<char>, pairs: Seq<(Seq<char>, Seq<char>)>) -> Seq<
    char,
>;

/// Relies on url::Url::parse and Url::query_pairs_mut (extend_pairs): the
/// call succeeds exactly when Url::parse accepts the URL text (appending
/// the pairs cannot fail), and the pairs are form-urlencoded and appended
/// to the URL's query, a function of the URL text and the pairs alone; the
/// parse error is carried as text.
#[verifier::external_body]
pub fn set_url_query(u: &str, pairs: &Vec<(String, String)>) -> (r: Result<String, String>)
    ensures
        r is Ok <==> url_accepts(u@),
        r matches Ok(s) ==> s@ == url_with_query_of(u@, pairs_view(pairs@)),
{
    match url::Url::parse(u) {
        Ok(mut parsed) => {
            parsed.query_pairs_mut().extend_pairs(pairs.iter().map(|p| (p.0.as_str(), p.1.as_str())));
            Ok(String::from(parsed))
        },
        Err(e) => Err(e.to_string()),
    }
}

} // verus!
