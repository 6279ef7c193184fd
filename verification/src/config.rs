//! Limiter configuration: the admission limit, the window length, and the
//! rendering mode for the Retry-After header.

use vstd::prelude::*;

verus! {

/// Format options for the Retry-After header
#[derive(Clone, Copy, Debug, PartialEq, Eq, Structural)]
pub enum RetryAfterFormat {
    /// HTTP-date format (RFC 7231)
    HttpDate,
    /// Number of seconds
    Seconds,
}

impl Default for RetryAfterFormat {
    fn default() -> (r: Self)
        ensures
            r == RetryAfterFormat::HttpDate,
    {
        RetryAfterFormat::HttpDate
    }
}

/// Configuration for the rate limiter
#[derive(Clone, Debug)]
pub struct RateLimitConfig {
    /// Maximum number of requests allowed within the window
    pub max_requests: u32,
    /// Length of the rate-limiting window, in milliseconds
    pub window_millis: u64,
    /// Format for Retry-After header (RFC 7231 date or seconds)
    pub retry_after_format: RetryAfterFormat,
    /// Header used to extract the client's address
    pub ip_header: String,
}

impl RateLimitConfig {
    /// A configuration is usable by the limiter when the limit and the
    /// window are both positive.
    pub open spec fn valid(&self) -> bool {
        &&& self.max_requests >= 1
        &&& self.window_millis >= 1
    }
}

/// Sensible (opinionated) defaults: 60 requests per 60 seconds
impl Default for RateLimitConfig {
    fn default() -> (c: Self)
        ensures
            c.max_requests == 60,
            c.window_millis == 60_000,
            c.retry_after_format == RetryAfterFormat::HttpDate,
            c.ip_header@ == "X-Forwarded-For"@,
            c.valid(),
    {
        Self {
            max_requests: 60,
            window_millis: 60_000,
            retry_after_format: RetryAfterFormat::HttpDate,
            ip_header: "X-Forwarded-For".to_owned(),
        }
    }
}

/// Factory methods for quickly building a rate limiter
impl RateLimitConfig {
    /// Build a `RateLimitConfig` with sensible defaults for requests per minute
    pub fn max_per_minute(max: u32) -> (c: Self)
        ensures
            c.max_requests == max,
            c.window_millis == 60_000,
            c.retry_after_format == RetryAfterFormat::HttpDate,
            c.ip_header@ == "X-Forwarded-For"@,
    {
        Self { max_requests: max, ..Self::default() }
    }

    /// Build a `RateLimitConfig` with custom window size in seconds
    pub fn max_per_window(max_requests: u32, window_seconds: u64) -> (c: Self)
        requires
            window_seconds * 1000 <= u64::MAX,
        ensures
            c.max_requests == max_requests,
            c.window_millis == window_seconds * 1000,
            c.retry_after_format == RetryAfterFormat::HttpDate,
            c.ip_header@ == "X-Forwarded-For"@,
    {
        Self { max_requests, window_millis: window_seconds * 1000, ..Self::default() }
    }
}

} // verus!
