//! Typed client library for a vendor's HTTP+JSON moderation endpoint.
//!
//! The library models the request parameters, the response shape and the
//! connection configuration, and carries the JSON encoding and decoding of
//! those shapes as verified functions on characters. The network call itself
//! is left to the surrounding application.

use vstd::prelude::*;

mod chars;
pub mod config;
pub mod error;
pub mod json;
pub mod laws;
pub mod moderation;

verus! {

/// Returns whether an HTTP status code counts as success.
pub open spec fn spec_is_success_status(status: u16) -> bool {
    200 <= status < 300
}

/// Returns `true` exactly on the 2xx status codes.
pub fn is_success_status(status: u16) -> (r: bool)
    ensures
        r == spec_is_success_status(status),
{
    200 <= status && status < 300
}

} // verus!
