//! The errors that the library reports.

use vstd::prelude::*;
use crate::event::ChatEventType;

verus! {

/// Why an operation failed.
#[derive(Debug, Clone, PartialEq, Eq)]
pub enum SeError {
    /// The session has no session key or user id yet.
    NotAuthenticated,
    /// The site accepted the login but the chat service did not.
    BadCredentials,
    /// The site asks for a human-verification challenge.
    CaptchaRequired,
    /// The login endpoint answered with something else than success.
    LoginFailed(String),
    /// The service answered 409: too many requests.
    RateLimited,
    /// Any other status outside 200..=299, with the body of the answer.
    BadResponse(u16, String),
    /// The request did not get through.
    TransportError(String),
    /// Only a posted message becomes a `Message`.
    ExpectedPostedEvent(ChatEventType),
    /// An answer of the service could not be read.
    DecodeError,
}

} // verus!
