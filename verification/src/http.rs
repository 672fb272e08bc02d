//! HTTP request verbs.

use vstd::prelude::*;
use vstd::string::*;
use crate::strutil::{spec_lower, to_ascii_lower};

verus! {

/// An HTTP request verb.
#[derive(Clone, Copy, Debug, PartialEq, Eq, Structural)]
pub enum Method {
    GET,
    POST,
    PUT,
    HEAD,
    OPTIONS,
    DELETE,
    PATCH,
    TRACE,
}

/// What parsing a verb name yields: the verb whose name matches
/// case-insensitively, nothing for any other text.
pub open spec fn spec_method_from_name(s: Seq<char>) -> Option<Method> {
    let low = spec_lower(s);
    if low == "get"@ { Some(Method::GET) }
    else if low == "post"@ { Some(Method::POST) }
    else if low == "put"@ { Some(Method::PUT) }
    else if low == "head"@ { Some(Method::HEAD) }
    else if low == "options"@ { Some(Method::OPTIONS) }
    else if low == "delete"@ { Some(Method::DELETE) }
    else if low == "patch"@ { Some(Method::PATCH) }
    else if low == "trace"@ { Some(Method::TRACE) }
    else { None }
}

/// The verb's canonical upper-case name.
pub open spec fn spec_method_name(m: Method) -> Seq<char> {
    match m {
        Method::GET => "GET"@,
        Method::POST => "POST"@,
        Method::PUT => "PUT"@,
        Method::HEAD => "HEAD"@,
        Method::OPTIONS => "OPTIONS"@,
        Method::DELETE => "DELETE"@,
        Method::PATCH => "PATCH"@,
        Method::TRACE => "TRACE"@,
    }
}

impl Method {
    /// Parses a verb name case-insensitively; any other text is rejected.
    pub fn from_name(s: &str) -> (r: Option<Method>)
        ensures
            r == spec_method_from_name(s@),
    {
        let low = to_ascii_lower(s);
        if low == String::from_str("get") { Some(Method::GET) }
        else if low == String::from_str("post") { Some(Method::POST) }
        else if low == String::from_str("put") { Some(Method::PUT) }
        else if low == String::from_str("head") { Some(Method::HEAD) }
        else if low == String::from_str("options") { Some(Method::OPTIONS) }
        else if low == String::from_str("delete") { Some(Method::DELETE) }
        else if low == String::from_str("patch") { Some(Method::PATCH) }
        else if low == String::from_str("trace") { Some(Method::TRACE) }
        else { None }
    }

    /// Parses a verb name, falling back to `GET` for unrecognized text.
    pub fn from_name_or_get(s: &str) -> (r: Method)
        ensures
            r == match spec_method_from_name(s@) {
                Some(m) => m,
                None => Method::GET,
            },
    {
        match Method::from_name(s) {
            Some(m) => m,
            None => Method::GET,
        }
    }

    /// The verb's canonical upper-case name, as the transport expects it.
    pub fn name(&self) -> (r: &'static str)
        ensures
            r@ == spec_method_name(*self),
    {
        match self {
            Method::GET => "GET",
            Method::POST => "POST",
            Method::PUT => "PUT",
            Method::HEAD => "HEAD",
            Method::OPTIONS => "OPTIONS",
            Method::DELETE => "DELETE",
            Method::PATCH => "PATCH",
            Method::TRACE => "TRACE",
        }
    }
}

} // verus!
