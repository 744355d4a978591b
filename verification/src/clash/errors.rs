//! Failures of a request to the controller.
use vstd::prelude::*;

use crate::text::{concat, decimal, owned, push_decimal};

verus! {

#[derive(Debug, Clone, PartialEq, Eq)]
pub enum ClashError {
    /// The request did not complete; the transport's description.
    Network(String),
    /// The controller answered 401.
    Auth,
    /// The controller answered another non-success status.
    BadStatus(u16),
    /// The body could not be decoded; the decoder's description.
    Decode(String),
}

/// The text a `ClashError` is shown as.
pub open spec fn clash_error_text(e: ClashError) -> Seq<char> {
    match e {
        ClashError::Network(m) => "network error: "@ + m@,
        ClashError::Auth => "auth required or wrong secret"@,
        ClashError::BadStatus(s) => "unexpected status "@ + decimal(s as nat),
        ClashError::Decode(m) => "decode error: "@ + m@,
    }
}

/// A status in `200..=299`.
pub open spec fn is_success_status(status: u16) -> bool {
    200 <= status <= 299
}

/// What a response status means: success, a missing or wrong secret (401),
/// or any other status.
pub open spec fn status_outcome(status: u16) -> Result<(), ClashError> {
    if is_success_status(status) {
        Ok(())
    } else if status == 401 {
        Err(ClashError::Auth)
    } else {
        Err(ClashError::BadStatus(status))
    }
}

impl ClashError {
    /// The message shown for this error.
    pub fn message(&self) -> (r: String)
        ensures
            r@ == clash_error_text(*self),
    {
        match self {
            ClashError::Network(m) => concat("network error: ", m.as_str()),
            ClashError::Auth => owned("auth required or wrong secret"),
            ClashError::BadStatus(s) => {
                let mut r = owned("unexpected status ");
                push_decimal(&mut r, *s as u64);
                r
            },
            ClashError::Decode(m) => concat("decode error: ", m.as_str()),
        }
    }
}

/// Maps a response status to the request's outcome.
pub fn check_status(status: u16) -> (r: Result<(), ClashError>)
    ensures
        r == status_outcome(status),
{
    if 200 <= status && status <= 299 {
        Ok(())
    } else if status == 401 {
        Err(ClashError::Auth)
    } else {
        Err(ClashError::BadStatus(status))
    }
}

/// The error for a body that could not be read: a decoding failure when the
/// decoder rejected it, a transport failure otherwise.
pub fn body_error(is_decode: bool, message: String) -> (r: ClashError)
    ensures
        is_decode ==> r == ClashError::Decode(message),
        !is_decode ==> r == ClashError::Network(message),
{
    if is_decode {
        ClashError::Decode(message)
    } else {
        ClashError::Network(message)
    }
}

} // verus!
