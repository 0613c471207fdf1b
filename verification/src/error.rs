//! The closed set of error kinds surfaced by the pipeline, and the
//! loosely-typed response envelope used by the server functions.

use vstd::prelude::*;

verus! {

#[derive(Debug, Clone, PartialEq, Eq)]
pub enum Error {
    Unauthorized,
    Forbidden(String),
    PaymentRequired,
    TooManyRequests,
    BadRequest(String),
    PayloadTooLarge,
    NotFound,
    Conflict(String),
    InternalServer,
}

pub open spec fn spec_status_code(e: Error) -> u16 {
    match e {
        Error::Unauthorized => 401,
        Error::Forbidden(_) => 403,
        Error::PaymentRequired => 402,
        Error::TooManyRequests => 429,
        Error::BadRequest(_) => 400,
        Error::PayloadTooLarge => 413,
        Error::NotFound => 404,
        Error::Conflict(_) => 409,
        Error::InternalServer => 500,
    }
}

impl Error {
    /// The HTTP status the surrounding server maps this kind to.
    pub fn status_code(&self) -> (r: u16)
        ensures
            r == spec_status_code(*self),
    {
        match self {
            Error::Unauthorized => 401,
            Error::Forbidden(_) => 403,
            Error::PaymentRequired => 402,
            Error::TooManyRequests => 429,
            Error::BadRequest(_) => 400,
            Error::PayloadTooLarge => 413,
            Error::NotFound => 404,
            Error::Conflict(_) => 409,
            Error::InternalServer => 500,
        }
    }
}

/// Result envelope of the server functions: a payload, or a
/// human-readable refusal.
#[derive(Debug, Clone, PartialEq, Eq)]
pub enum ApiResponse<T> {
    Success(T),
    Failure(String),
}

} // verus!
