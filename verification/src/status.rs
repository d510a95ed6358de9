//! HTTP status codes.

use vstd::prelude::*;

verus! {

/// The request is refused.
pub const FORBIDDEN: u16 = 403;

/// The server gave up waiting for the request.
pub const REQUEST_TIMEOUT: u16 = 408;

/// The client has sent too many requests.
pub const TOO_MANY_REQUESTS: u16 = 429;

/// The server got an invalid answer from the server behind it.
pub const BAD_GATEWAY: u16 = 502;

/// `http::StatusCode::is_server_error`: whether a status is within 500-599.
///
/// A number that `http::StatusCode::from_u16` does not accept, below 100 or above 999, is no
/// server error.
#[verifier::external_body]
pub(crate) fn is_server_error(status: u16) -> (is: bool)
    ensures
        is == (500 <= status <= 599),
{
    match http::StatusCode::from_u16(status) {
        Ok(code) => code.is_server_error(),
        Err(_) => false,
    }
}

} // verus!
