//! Error types: descriptor-time classification/validation failures and
//! call-time request failures.

use vstd::prelude::*;

verus! {

/// A design-time failure while parsing or validating a descriptor. None of
/// these is reachable at call time: a method descriptor is validated before
/// any request is built from it.
#[derive(Debug)]
pub enum DescribeError {
    /// The method declares no HTTP verb.
    MissingVerb,
    /// The method declares no `path`, or an empty one.
    MissingPath,
    /// The template's `{name}` placeholders and the Path-bound parameters do
    /// not name the same set.
    PathPlaceholderMismatch,
    /// A structured Query parameter carries an explicit key.
    KeyedStructuredQuery { param: String },
    /// A multi-value Query parameter with structured elements.
    StructuredManyQuery { param: String },
    /// A Header-bound parameter whose carried value is structured.
    StructuredHeader { param: String },
    /// A Header-bound parameter with Many cardinality.
    ManyHeader { param: String },
    /// A Path-bound parameter that is not a single scalar.
    NonScalarPathParam { param: String },
    /// More than one Json-bound parameter on one method.
    MultipleJsonBodies,
    /// A numeric option whose text is not a decimal number that fits.
    InvalidNumber { key: String },
}

/// A call-time failure of one request.
#[derive(Debug)]
pub enum Error {
    /// The transport failed before a response was received.
    Transport { message: String },
    /// A response arrived with a non-2xx status.
    Http { url: String, status: u16, body_snippet: String },
    /// A 2xx response whose body could not be decoded.
    Decode { url: String, message: String, body_snippet: String },
    /// An endpoint or path could not be turned into a URL.
    UrlParse { message: String },
    /// Client configuration could not be assembled.
    InvalidArgument { message: String },
}

} // verus!
