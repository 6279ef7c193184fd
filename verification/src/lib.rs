//! In-memory fixed-window rate limiting with configurable windows and
//! limits, plus rendering of the standard rate-limit response headers.
//!
//! The crate decides, per client key and fixed time window, whether a
//! request is admitted or rejected, and renders the decision's metadata
//! (remaining quota, reset time, retry delay) as header values.

use vstd::prelude::*;

mod config;
mod error;
mod headers;
mod limiter;
mod numfmt;

pub use config::{RateLimitConfig, RetryAfterFormat};
pub use error::{RateLimitError, RateLimitHeader};
pub use headers::{add_rate_limit_headers, get_rate_limit_info, is_valid_header_value,
    render_headers};
pub use limiter::{RateLimiter, WindowState};
pub use numfmt::{i64_to_dec_string, parse_u64_dec, u64_to_dec_string};

verus! {

/// Information about the current rate limit status
#[derive(Clone, Debug)]
pub struct RateLimitInfo {
    /// Rendered value for the Retry-After header
    pub retry_after: String,
    /// Maximum requests allowed in the window
    pub limit: u32,
    /// Remaining requests in the current window
    pub remaining: u32,
    /// Unix timestamp when the rate limit resets
    pub reset_timestamp: i64,
    /// Format used for retry-after header
    pub retry_after_format: RetryAfterFormat,
}

/// Custom rejection type for rate limiting
#[derive(Clone, Debug)]
pub struct RateLimitRejection {
    /// Milliseconds until the client can retry
    pub retry_after_millis: u64,
    /// Maximum requests allowed in the window
    pub limit: u32,
    /// Unix timestamp when the rate limit resets
    pub reset_timestamp: i64,
    /// Format to use for Retry-After header
    pub retry_after_format: RetryAfterFormat,
}

} // verus!
