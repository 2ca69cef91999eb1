//! A minimal HTTP/1.0 request-handling library: request parsing, a path
//! jail that confines lookups to a served root, content classification,
//! CGI-style script output framing, and response serialization.
//!
//! Every function here is pure: the surrounding program performs the
//! socket, filesystem and subprocess work and feeds the results in as
//! plain values.

pub mod cgi;
pub mod classify;
pub mod handler;
pub mod headers;
pub mod jail;
pub mod request;
pub mod response;
pub mod text;
