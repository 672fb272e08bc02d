//! The execution contract's decode side: interpreting a transport response
//! as a decoded JSON value or a structured error.

use vstd::prelude::*;
use vstd::string::*;
use crate::error::Error;
use crate::strutil::{snippet, spec_snippet};

verus! {

/// serde_json's tree value, carried opaquely through the library.
#[verifier::external_type_specification]
#[verifier::external_body]
pub struct ExValue(serde_json::Value);

/// Whether serde_json accepts a text as JSON; a function of the characters
/// alone.
pub uninterp spec fn json_accepts(s: Seq<char>) -> bool;

/// The tree value serde_json parses a JSON text into; a function of the
/// characters alone. Its result is the declared outside type because the
/// parse hands back an opaque outside value.
pub uninterp spec fn json_tree_of(s: Seq<char>) -> serde_json::Value;

/// Relies on serde_json::from_str with serde_json::Value as the target: it
/// succeeds exactly on text that is syntactically valid JSON (within the
/// parser's recursion limit), and acceptance and the parsed tree depend on
/// the characters alone; the parse error is carried as text.
#[verifier::external_body]
pub fn parse_json_value(s: &str) -> (r: Result<serde_json::Value, String>)
    ensures
        r is Ok <==> json_accepts(s@),
        r matches Ok(v) ==> v == json_tree_of(s@),
{
    serde_json::from_str::<serde_json::Value>(s).map_err(|e| e.to_string())
}

/// How many characters of a response body an error message keeps.
pub const SNIPPET_LIMIT: usize = 200;

/// Interprets one response: a non-2xx status fails with an Http error
/// carrying the URL, the status and a length-bounded body snippet; a 2xx
/// body that is not JSON fails with a Decode error carrying the URL, the
/// parse failure and the snippet; a 2xx JSON body decodes into exactly the
/// body's parsed tree.
pub fn interpret_response(url: &str, status: u16, body: &str) -> (r: Result<
    serde_json::Value,
    Error,
>)
    ensures
        r is Ok <==> (200 <= status < 300 && json_accepts(body@)),
        r matches Ok(v) ==> v == json_tree_of(body@),
        !(200 <= status < 300) ==> (r matches Err(e) && (e matches Error::Http {
            url: u,
            status: st,
            body_snippet: sn,
        } && u@ == url@ && st == status && sn@ == spec_snippet(body@, SNIPPET_LIMIT as int))),
        200 <= status < 300 && !json_accepts(body@) ==> (r matches Err(e) && (e
            matches Error::Decode { url: u, message: _, body_snippet: sn } && u@ == url@ && sn@
            == spec_snippet(body@, SNIPPET_LIMIT as int))),
{
    if status < 200 || status >= 300 {
        return Err(
            Error::Http {
                url: String::from_str(url),
                status,
                body_snippet: snippet(body, SNIPPET_LIMIT),
            },
        );
    }
    match parse_json_value(body) {
        Ok(v) => Ok(v),
        Err(m) => Err(
            Error::Decode {
                url: String::from_str(url),
                message: m,
                body_snippet: snippet(body, SNIPPET_LIMIT),
            },
        ),
    }
}

} // verus!
