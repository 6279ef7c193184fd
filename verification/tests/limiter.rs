use warp_rate_limit::{RateLimitConfig, RateLimiter, RetryAfterFormat};

const NOW_UNIX: i64 = 1_700_000_000;

fn seconds_config(max_requests: u32, window_seconds: u64) -> RateLimitConfig {
    let mut config = RateLimitConfig::max_per_window(max_requests, window_seconds);
    config.retry_after_format = RetryAfterFormat::Seconds;
    config
}

#[test]
fn monotonic_admission_within_window() {
    // The first N requests in one window are admitted with remaining
    // N-1, N-2, ..., 0; the (N+1)th is rejected.
    let mut limiter = RateLimiter::new(seconds_config(3, 10));
    let key = "10.0.0.1";

    let r1 = limiter.check_rate_limit(key, 0, NOW_UNIX).unwrap();
    assert_eq!(r1.remaining, 2);
    assert_eq!(r1.limit, 3);
    let r2 = limiter.check_rate_limit(key, 1_000, NOW_UNIX).unwrap();
    assert_eq!(r2.remaining, 1);
    let r3 = limiter.check_rate_limit(key, 2_000, NOW_UNIX).unwrap();
    assert_eq!(r3.remaining, 0);
    let r4 = limiter.check_rate_limit(key, 3_000, NOW_UNIX);
    assert!(r4.is_err());
}

#[test]
fn window_reset_after_rejection() {
    // After a rejection, one more request just past the window's end is
    // admitted into a fresh window with N-1 remaining.
    let mut limiter = RateLimiter::new(seconds_config(2, 5));
    let key = "10.0.0.2";

    assert!(limiter.check_rate_limit(key, 0, NOW_UNIX).is_ok());
    assert!(limiter.check_rate_limit(key, 100, NOW_UNIX).is_ok());
    assert!(limiter.check_rate_limit(key, 200, NOW_UNIX).is_err());

    // Exactly a full window after the start: still the same window.
    assert!(limiter.check_rate_limit(key, 5_000, NOW_UNIX).is_err());

    // One millisecond past the window: fresh window, N-1 remaining.
    let fresh = limiter.check_rate_limit(key, 5_001, NOW_UNIX).unwrap();
    assert_eq!(fresh.remaining, 1);

    // The fresh window is anchored at the admitting request's time, not
    // at the old boundary: it runs until 5_001 + 5_000.
    assert!(limiter.check_rate_limit(key, 5_002, NOW_UNIX).is_ok());
    assert!(limiter.check_rate_limit(key, 10_001, NOW_UNIX).is_err());
    assert!(limiter.check_rate_limit(key, 10_002, NOW_UNIX).is_ok());
}

#[test]
fn independent_keys_do_not_interfere() {
    // Exhausting one key's quota leaves another key untouched.
    let mut limiter = RateLimiter::new(seconds_config(1, 60));

    assert!(limiter.check_rate_limit("10.0.0.3", 0, NOW_UNIX).is_ok());
    assert!(limiter.check_rate_limit("10.0.0.3", 10, NOW_UNIX).is_err());

    let other = limiter.check_rate_limit("10.0.0.4", 20, NOW_UNIX).unwrap();
    assert_eq!(other.remaining, 0);
    assert!(limiter.check_rate_limit("10.0.0.3", 30, NOW_UNIX).is_err());
}

#[test]
fn rejection_retry_after_bounds() {
    // On rejection the retry time never exceeds the window, and the
    // Seconds rendering decodes to a positive value when at least a full
    // second of the window remains.
    let mut limiter = RateLimiter::new(seconds_config(1, 5));
    let key = "10.0.0.5";

    assert!(limiter.check_rate_limit(key, 0, NOW_UNIX).is_ok());
    let rejection = limiter.check_rate_limit(key, 1_200, NOW_UNIX).unwrap_err();
    assert_eq!(rejection.retry_after_millis, 3_800);
    assert_eq!(rejection.limit, 1);
    assert_eq!(rejection.reset_timestamp, NOW_UNIX + 3);
    assert_eq!(rejection.retry_after_format, RetryAfterFormat::Seconds);

    let info = warp_rate_limit::get_rate_limit_info(&rejection);
    let decoded: u64 = info.retry_after.parse().unwrap();
    assert!(decoded > 0);
    assert!(decoded <= 5);
}

#[test]
fn sequential_burst_splits_admissions() {
    // Ten requests for one key with a limit of five: exactly five are
    // admitted and five rejected, with no admission lost or duplicated.
    let mut limiter = RateLimiter::new(seconds_config(5, 1));
    let key = "10.0.0.6";

    let mut admitted = 0;
    let mut rejected = 0;
    for i in 0..10u64 {
        match limiter.check_rate_limit(key, i, NOW_UNIX) {
            Ok(_) => admitted += 1,
            Err(_) => rejected += 1,
        }
    }
    assert_eq!(admitted, 5, "Expected exactly 5 successful requests");
    assert_eq!(rejected, 5, "Expected exactly 5 rate-limited requests");
}

#[test]
fn admitted_info_reports_window_reset() {
    // The first request of a window reports the full window in the
    // configured format and a reset timestamp one window ahead of now.
    let mut limiter = RateLimiter::new(seconds_config(4, 90));
    let info = limiter.check_rate_limit("10.0.0.7", 0, NOW_UNIX).unwrap();
    assert_eq!(info.retry_after, "90");
    assert_eq!(info.reset_timestamp, NOW_UNIX + 90);
    assert_eq!(info.limit, 4);
    assert_eq!(info.retry_after_format, RetryAfterFormat::Seconds);
}

#[test]
fn mid_window_admission_reports_remaining_time() {
    // An admission into a live window reports that window's actual
    // reset: the remainder of the window, not a fresh full window.
    let mut limiter = RateLimiter::new(seconds_config(3, 10));
    let key = "10.0.0.10";

    let first = limiter.check_rate_limit(key, 0, NOW_UNIX).unwrap();
    assert_eq!(first.retry_after, "10");
    assert_eq!(first.reset_timestamp, NOW_UNIX + 10);

    // Four seconds in: six seconds of the window remain, and the reset
    // second is the same wall-clock moment as before.
    let second = limiter.check_rate_limit(key, 4_000, NOW_UNIX + 4).unwrap();
    assert_eq!(second.retry_after, "6");
    assert_eq!(second.reset_timestamp, NOW_UNIX + 10);
}

#[test]
fn http_date_format_renders_a_date() {
    let mut limiter = RateLimiter::new(RateLimitConfig::max_per_window(1, 15));
    let info = limiter.check_rate_limit("10.0.0.8", 0, NOW_UNIX).unwrap();
    assert!(!info.retry_after.is_empty());
    let expected = chrono::DateTime::<chrono::Utc>::from_timestamp(NOW_UNIX + 15, 0)
        .unwrap()
        .to_rfc2822();
    assert_eq!(info.retry_after, expected);
}

#[test]
fn rejection_renders_full_header_set() {
    // A rejected request's info renders all four headers with the
    // decision's values.
    let mut limiter = RateLimiter::new(seconds_config(1, 5));
    limiter.check_rate_limit("10.0.0.9", 0, NOW_UNIX).unwrap();
    let rejection = limiter
        .check_rate_limit("10.0.0.9", 1_000, NOW_UNIX)
        .unwrap_err();

    let info = warp_rate_limit::get_rate_limit_info(&rejection);
    let mut headers = warp::http::header::HeaderMap::new();
    warp_rate_limit::add_rate_limit_headers(&mut headers, &info).unwrap();

    assert!(headers.contains_key("Retry-After"));
    assert_eq!(headers.get("X-RateLimit-Limit").unwrap(), "1");
    assert_eq!(headers.get("X-RateLimit-Remaining").unwrap(), "0");
    let retry: u64 = headers
        .get("Retry-After")
        .unwrap()
        .to_str()
        .unwrap()
        .parse()
        .unwrap();
    assert_eq!(retry, 4);
    let reset: i64 = headers
        .get("X-RateLimit-Reset")
        .unwrap()
        .to_str()
        .unwrap()
        .parse()
        .unwrap();
    assert_eq!(reset, NOW_UNIX + 4);
}
