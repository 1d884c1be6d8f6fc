//! The failure values a call can surface.

use vstd::prelude::*;

verus! {

/// Everything that can go wrong on one request/response exchange.
///
/// A transport failure (connection, DNS, TLS) is a different variant from a
/// non-2xx HTTP answer, which carries the status code and the raw body, and
/// both differ from a body that arrived but does not parse as the expected
/// shape.
#[derive(Debug, Clone)]
pub enum Error {
    /// The connection itself failed; carries the transport's message.
    Transport(String),
    /// The server answered with a non-2xx status; carries status and body.
    HttpStatus(u16, String),
    /// The body of a 2xx answer does not parse as the expected shape.
    Deserialization,
}

impl Error {
    /// Returns whether this is the HTTP-status kind.
    pub fn is_http_status(&self) -> (r: bool)
        ensures
            r == (self is HttpStatus),
    {
        match self {
            Error::HttpStatus(_, _) => true,
            _ => false,
        }
    }

    /// Returns whether this is the transport kind.
    pub fn is_transport(&self) -> (r: bool)
        ensures
            r == (self is Transport),
    {
        match self {
            Error::Transport(_) => true,
            _ => false,
        }
    }
}

} // verus!
