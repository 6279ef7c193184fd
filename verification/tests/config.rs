use warp_rate_limit::{RateLimitConfig, RetryAfterFormat};

#[test]
fn test_config_builders() {
    // Test max_per_minute builder
    let per_minute = RateLimitConfig::max_per_minute(60);
    assert_eq!(per_minute.window_millis, 60 * 1000);
    assert_eq!(per_minute.max_requests, 60);
    assert_eq!(per_minute.retry_after_format, RetryAfterFormat::HttpDate);

    // Test max_per_window builder
    let custom = RateLimitConfig::max_per_window(30, 120);
    assert_eq!(custom.window_millis, 120 * 1000);
    assert_eq!(custom.max_requests, 30);
    assert_eq!(custom.retry_after_format, RetryAfterFormat::HttpDate);

    // Test default config
    let default = RateLimitConfig::default();
    assert_eq!(default.window_millis, 60 * 1000);
    assert_eq!(default.max_requests, 60);
    assert_eq!(default.retry_after_format, RetryAfterFormat::HttpDate);
}

#[test]
fn default_ip_header_is_x_forwarded_for() {
    assert_eq!(RateLimitConfig::default().ip_header, "X-Forwarded-For");
}
