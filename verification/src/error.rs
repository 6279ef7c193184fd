//! Errors that can occur while rendering rate-limit headers.

use vstd::prelude::*;

verus! {

/// The four rate-limit response headers, used to identify which header a
/// rendering error concerns.
#[derive(Clone, Copy, Debug, PartialEq, Eq, Structural)]
pub enum RateLimitHeader {
    /// `Retry-After`
    RetryAfter,
    /// `X-RateLimit-Limit`
    Limit,
    /// `X-RateLimit-Remaining`
    Remaining,
    /// `X-RateLimit-Reset`
    Reset,
}

impl RateLimitHeader {
    /// The wire name of the header.
    pub fn name(&self) -> (s: &'static str)
        ensures
            s@ == self.spec_name(),
    {
        match self {
            RateLimitHeader::RetryAfter => "Retry-After",
            RateLimitHeader::Limit => "X-RateLimit-Limit",
            RateLimitHeader::Remaining => "X-RateLimit-Remaining",
            RateLimitHeader::Reset => "X-RateLimit-Reset",
        }
    }

    /// The wire name of the header.
    pub open spec fn spec_name(&self) -> Seq<char> {
        match self {
            RateLimitHeader::RetryAfter => "Retry-After"@,
            RateLimitHeader::Limit => "X-RateLimit-Limit"@,
            RateLimitHeader::Remaining => "X-RateLimit-Remaining"@,
            RateLimitHeader::Reset => "X-RateLimit-Reset"@,
        }
    }
}

/// Errors that can occur during rate limiting logic
#[derive(Clone, Debug)]
pub enum RateLimitError {
    /// A header value could not be encoded; names the header that failed.
    HeaderError(RateLimitHeader),
    /// Other unexpected errors, described by a message
    Other(String),
}

impl RateLimitError {
    /// A human-readable description of the error.
    pub fn message(&self) -> (s: &'static str)
    {
        match self {
            RateLimitError::HeaderError(_) => "Failed to set rate limit header: invalid value",
            RateLimitError::Other(_) => "Rate limit error",
        }
    }
}

} // verus!
