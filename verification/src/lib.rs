//! Declarative-to-executable HTTP request compiler.
//!
//! An interface and its endpoint methods are described by plain descriptor
//! values (verb, path template, headers, timeouts, parameter bindings). From
//! one method descriptor the library synthesizes a fixed, ordered sequence of
//! request-construction stages, builds the concrete request for given
//! argument values, and interprets the transport's response as a typed result
//! or a structured error. Sending the request is the caller's business; the
//! library's functions work on plain values and carry contracts.

pub mod client;
pub mod codec;
pub mod config;
pub mod error;
pub mod expand;
pub mod http;
pub mod json;
pub mod param;
pub mod request;
pub mod strutil;
pub mod template;
pub mod urlio;
pub mod value;
