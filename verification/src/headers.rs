//! The header codec: renders a decision's fields as rate-limit header
//! values, and installs them into an HTTP header map.
//!
//! A header value may hold horizontal tab and any byte that is neither an
//! ASCII control byte nor DEL; rendering fails on anything else.

use vstd::prelude::*;

use crate::config::RetryAfterFormat;
use crate::error::{RateLimitError, RateLimitHeader};
use crate::numfmt::{all_digits, dec_str, dec_str_signed, digits_val, i64_to_dec_string,
    lemma_dec_round_trip, lemma_dec_str_digits, u64_to_dec_string};
use crate::{RateLimitInfo, RateLimitRejection};
use warp::http::header::{HeaderMap, HeaderValue, InvalidHeaderValue};

verus! {

/// True for characters that may appear in an HTTP header value: horizontal
/// tab, every visible ASCII character and space, and everything beyond
/// ASCII (whose UTF-8 bytes are all above the control range).
pub open spec fn valid_header_value_char(c: char) -> bool {
    c == '\t' || (c as u32 >= 32 && c as u32 != 127)
}

/// True when every character of `s` may appear in an HTTP header value.
pub open spec fn valid_header_value(s: Seq<char>) -> bool {
    forall|i: int| 0 <= i < s.len() ==> valid_header_value_char(#[trigger] s[i])
}

/// True for lowercase header names: non-empty, at most 64 characters, each
/// a lowercase letter, a digit or a dash.
pub open spec fn lowercase_header_name(s: Seq<char>) -> bool {
    &&& 1 <= s.len() <= 64
    &&& forall|i: int|
        0 <= i < s.len() ==> ('a' <= #[trigger] s[i] <= 'z' || '0' <= s[i] <= '9' || s[i] == '-')
}

#[verifier::external_type_specification]
#[verifier::external_body]
pub struct ExHeaderValue(HeaderValue);

#[verifier::external_type_specification]
#[verifier::external_body]
pub struct ExInvalidHeaderValue(InvalidHeaderValue);

#[verifier::external_type_specification]
#[verifier::external_body]
#[verifier::reject_recursive_types(T)]
pub struct ExHeaderMap<T>(HeaderMap<T>);

/// The characters held by a header value.
pub uninterp spec fn header_value_chars(v: HeaderValue) -> Seq<char>;

/// The entries held by a header map, keyed by lowercase header name.
pub uninterp spec fn header_entries(m: HeaderMap) -> Map<Seq<char>, Seq<char>>;

/// How many further insertions a header map is sure to accept before it
/// reaches its fixed size cap. A map holds at most 32768 names; an
/// insertion that succeeds uses up at most one unit of room.
pub uninterp spec fn header_room(m: HeaderMap) -> int;

/// Relies on http's `HeaderValue::from_str`: it succeeds exactly when
/// every byte of the string is valid in a header value (tab, or any byte
/// that is neither an ASCII control byte nor DEL; every byte of a
/// character beyond ASCII lies above the control range).
#[verifier::external_body]
fn header_value_from_str(s: &str) -> (r: Result<HeaderValue, InvalidHeaderValue>)
    ensures
        match r {
            Ok(v) => valid_header_value(s@) && header_value_chars(v) == s@,
            Err(_) => !valid_header_value(s@),
        },
{
    HeaderValue::from_str(s)
}

/// Relies on http's `HeaderMap::try_insert` with a static string name: a
/// lowercase name of at most 64 characters parses to itself, the call
/// replaces every value stored under that name, and it fails, changing
/// nothing, only when the map cannot grow past its fixed size cap. A map
/// with room left takes the insertion, which consumes at most one unit
/// of room.
#[verifier::external_body]
fn insert_header(headers: &mut HeaderMap, name: &'static str, value: HeaderValue) -> (ok: bool)
    requires
        lowercase_header_name(name@),
    ensures
        header_room(*old(headers)) >= 1 ==> ok,
        ok ==> header_entries(*final(headers)) == header_entries(*old(headers)).insert(
            name@,
            header_value_chars(value),
        ),
        ok ==> header_room(*final(headers)) >= header_room(*old(headers)) - 1,
        !ok ==> header_entries(*final(headers)) == header_entries(*old(headers)),
{
    headers.try_insert(name, value).is_ok()
}

/// The RFC 2822 rendering of a Unix timestamp.
pub uninterp spec fn rfc2822_of(ts: i64) -> Seq<char>;

/// Relies on chrono: `DateTime::from_timestamp` is defined on every
/// timestamp up to the end of year 9999, and `to_rfc2822` renders the
/// timestamp as a non-empty, fixed-layout string of printable ASCII, a
/// function of the timestamp alone.
#[verifier::external_body]
pub fn format_rfc2822(ts: i64) -> (s: String)
    requires
        0 <= ts <= 253402300799,
    ensures
        s@ == rfc2822_of(ts),
        s@.len() >= 1,
        forall|i: int| 0 <= i < s@.len() ==> 32 <= #[trigger] s@[i] as u32 <= 126,
{
    match chrono::DateTime::<chrono::Utc>::from_timestamp(ts, 0) {
        Some(dt) => dt.to_rfc2822(),
        None => String::new(),
    }
}

/// Checks whether every character of `s` may appear in a header value.
pub fn is_valid_header_value(s: &str) -> (b: bool)
    ensures
        b == valid_header_value(s@),
{
    let n = s.unicode_len();
    let mut i: usize = 0;
    while i < n
        invariant
            0 <= i <= n,
            n == s@.len(),
            forall|j: int| 0 <= j < i ==> valid_header_value_char(#[trigger] s@[j]),
        decreases n - i,
    {
        let c = s.get_char(i);
        if !(c == '\t' || (c as u32 >= 32 && c as u32 != 127)) {
            return false;
        }
        i = i + 1;
    }
    true
}

/// A decimal rendering is always a safe header value.
proof fn lemma_dec_str_header_safe(n: nat)
    ensures
        valid_header_value(dec_str(n)),
{
    lemma_dec_str_digits(n);
    assert forall|i: int| 0 <= i < dec_str(n).len() implies valid_header_value_char(
        #[trigger] dec_str(n)[i],
    ) by {
        assert('0' <= dec_str(n)[i] <= '9');
    }
}

/// A signed decimal rendering is always a safe header value.
proof fn lemma_dec_str_signed_header_safe(n: int)
    ensures
        valid_header_value(dec_str_signed(n)),
{
    if n >= 0 {
        lemma_dec_str_header_safe(n as nat);
    } else {
        lemma_dec_str_header_safe((-n) as nat);
        assert forall|i: int| 0 <= i < dec_str_signed(n).len() implies valid_header_value_char(
            #[trigger] dec_str_signed(n)[i],
        ) by {
            if i == 0 {
                assert(dec_str_signed(n)[0] == '-');
            } else {
                assert(dec_str_signed(n)[i] == dec_str((-n) as nat)[i - 1]);
                assert(valid_header_value_char(dec_str((-n) as nat)[i - 1]));
            }
        }
    }
}

/// Renders the four rate-limit headers for `info` as name/value pairs:
/// `Retry-After`, then the limit, remaining and reset headers.
///
/// Fails, producing nothing, exactly when the retry-after value is not a
/// valid header value; the three numeric values are always valid.
pub fn render_headers(info: &RateLimitInfo) -> (r: Result<Vec<(String, String)>, RateLimitError>)
    ensures
        match r {
            Ok(v) => {
                &&& valid_header_value(info.retry_after@)
                &&& v@.len() == 4
                &&& v@[0].0@ == "Retry-After"@ && v@[0].1@ == info.retry_after@
                &&& v@[1].0@ == "X-RateLimit-Limit"@ && v@[1].1@ == dec_str(info.limit as nat)
                &&& v@[2].0@ == "X-RateLimit-Remaining"@ && v@[2].1@ == dec_str(
                    info.remaining as nat,
                )
                &&& v@[3].0@ == "X-RateLimit-Reset"@ && v@[3].1@ == dec_str_signed(
                    info.reset_timestamp as int,
                )
            },
            Err(e) => !valid_header_value(info.retry_after@) && e matches
                RateLimitError::HeaderError(RateLimitHeader::RetryAfter),
        },
{
    if !is_valid_header_value(info.retry_after.as_str()) {
        return Err(RateLimitError::HeaderError(RateLimitHeader::RetryAfter));
    }
    let mut out: Vec<(String, String)> = Vec::new();
    out.push(("Retry-After".to_owned(), info.retry_after.clone()));
    out.push(("X-RateLimit-Limit".to_owned(), u64_to_dec_string(info.limit as u64)));
    out.push(("X-RateLimit-Remaining".to_owned(), u64_to_dec_string(info.remaining as u64)));
    out.push(("X-RateLimit-Reset".to_owned(), i64_to_dec_string(info.reset_timestamp)));
    Ok(out)
}

/// Adds rate limit headers to a response.
///
/// The map gains the four entries whenever the retry-after value is a
/// valid header value and the map has room for four insertions. When the
/// retry-after value cannot be encoded, the error names that header and
/// the map is unchanged; the numeric values always encode, so no other
/// header is ever blamed and no invalid value is ever stored. Only a map
/// without room fails otherwise, and then headers inserted before the
/// failure are kept, as a best-effort partial set.
pub fn add_rate_limit_headers(headers: &mut HeaderMap, info: &RateLimitInfo) -> (r: Result<
    (),
    RateLimitError,
>)
    ensures
        valid_header_value(info.retry_after@) && header_room(*old(headers)) >= 4 ==> r is Ok,
        ({
            let e0 = header_entries(*old(headers));
            let e1 = e0.insert("retry-after"@, info.retry_after@);
            let e2 = e1.insert("x-ratelimit-limit"@, dec_str(info.limit as nat));
            let e3 = e2.insert("x-ratelimit-remaining"@, dec_str(info.remaining as nat));
            let e4 = e3.insert("x-ratelimit-reset"@, dec_str_signed(info.reset_timestamp as int));
            match r {
                Ok(_) => valid_header_value(info.retry_after@) && header_entries(*final(headers))
                    == e4,
                Err(e) => match e {
                    RateLimitError::HeaderError(h) => {
                        &&& h == RateLimitHeader::RetryAfter
                        &&& !valid_header_value(info.retry_after@)
                        &&& header_entries(*final(headers)) == e0
                    },
                    RateLimitError::Other(_) => {
                        &&& valid_header_value(info.retry_after@)
                        &&& {
                            ||| header_entries(*final(headers)) == e0
                            ||| header_entries(*final(headers)) == e1
                            ||| header_entries(*final(headers)) == e2
                            ||| header_entries(*final(headers)) == e3
                        }
                    },
                },
            }
        }),
{
    proof {
        reveal_strlit("retry-after");
        reveal_strlit("x-ratelimit-limit");
        reveal_strlit("x-ratelimit-remaining");
        reveal_strlit("x-ratelimit-reset");
    }
    let retry_value = match header_value_from_str(info.retry_after.as_str()) {
        Ok(v) => v,
        Err(_) => {
            return Err(RateLimitError::HeaderError(RateLimitHeader::RetryAfter));
        },
    };
    if !insert_header(headers, "retry-after", retry_value) {
        return Err(RateLimitError::Other("header map cannot take more entries".to_owned()));
    }
    let limit_string = u64_to_dec_string(info.limit as u64);
    proof {
        lemma_dec_str_header_safe(info.limit as nat);
    }
    let limit_value = match header_value_from_str(limit_string.as_str()) {
        Ok(v) => v,
        Err(_) => {
            proof {
                assert(false);
            }
            return Err(RateLimitError::HeaderError(RateLimitHeader::Limit));
        },
    };
    if !insert_header(headers, "x-ratelimit-limit", limit_value) {
        return Err(RateLimitError::Other("header map cannot take more entries".to_owned()));
    }
    let remaining_string = u64_to_dec_string(info.remaining as u64);
    proof {
        lemma_dec_str_header_safe(info.remaining as nat);
    }
    let remaining_value = match header_value_from_str(remaining_string.as_str()) {
        Ok(v) => v,
        Err(_) => {
            proof {
                assert(false);
            }
            return Err(RateLimitError::HeaderError(RateLimitHeader::Remaining));
        },
    };
    if !insert_header(headers, "x-ratelimit-remaining", remaining_value) {
        return Err(RateLimitError::Other("header map cannot take more entries".to_owned()));
    }
    let reset_string = i64_to_dec_string(info.reset_timestamp);
    proof {
        lemma_dec_str_signed_header_safe(info.reset_timestamp as int);
    }
    let reset_value = match header_value_from_str(reset_string.as_str()) {
        Ok(v) => v,
        Err(_) => {
            proof {
                assert(false);
            }
            return Err(RateLimitError::HeaderError(RateLimitHeader::Reset));
        },
    };
    if !insert_header(headers, "x-ratelimit-reset", reset_value) {
        return Err(RateLimitError::Other("header map cannot take more entries".to_owned()));
    }
    Ok(())
}

/// Gets rate limit information from a rejection.
///
/// The remaining quota of a rejected request is zero; the retry-after
/// value is rendered from the rejection per its configured format.
pub fn get_rate_limit_info(rejection: &RateLimitRejection) -> (info: RateLimitInfo)
    requires
        rejection.retry_after_format == RetryAfterFormat::HttpDate ==> 0
            <= rejection.reset_timestamp <= 253402300799,
    ensures
        info.limit == rejection.limit,
        info.remaining == 0,
        info.reset_timestamp == rejection.reset_timestamp,
        info.retry_after_format == rejection.retry_after_format,
        info.retry_after@ == match rejection.retry_after_format {
            RetryAfterFormat::HttpDate => rfc2822_of(rejection.reset_timestamp),
            RetryAfterFormat::Seconds => dec_str((rejection.retry_after_millis / 1000) as nat),
        },
{
    let retry_after = match rejection.retry_after_format {
        RetryAfterFormat::HttpDate => format_rfc2822(rejection.reset_timestamp),
        RetryAfterFormat::Seconds => u64_to_dec_string(rejection.retry_after_millis / 1000),
    };
    RateLimitInfo {
        retry_after,
        limit: rejection.limit,
        remaining: 0,
        reset_timestamp: rejection.reset_timestamp,
        retry_after_format: rejection.retry_after_format,
    }
}

/// Header rendering round-trip: the rendered limit, remaining and reset
/// header values are plain digit strings that parse back to exactly the
/// original numbers (the reset value, a Unix timestamp, taken
/// non-negative).
pub proof fn lemma_header_round_trip(info: RateLimitInfo)
    requires
        info.reset_timestamp >= 0,
    ensures
        all_digits(dec_str(info.limit as nat)) && digits_val(dec_str(info.limit as nat))
            == info.limit,
        all_digits(dec_str(info.remaining as nat)) && digits_val(dec_str(info.remaining as nat))
            == info.remaining,
        dec_str_signed(info.reset_timestamp as int) == dec_str(info.reset_timestamp as nat),
        all_digits(dec_str(info.reset_timestamp as nat)) && digits_val(
            dec_str(info.reset_timestamp as nat),
        ) == info.reset_timestamp,
{
    lemma_dec_str_digits(info.limit as nat);
    lemma_dec_round_trip(info.limit as nat);
    lemma_dec_str_digits(info.remaining as nat);
    lemma_dec_round_trip(info.remaining as nat);
    lemma_dec_str_digits(info.reset_timestamp as nat);
    lemma_dec_round_trip(info.reset_timestamp as nat);
}

} // verus!
