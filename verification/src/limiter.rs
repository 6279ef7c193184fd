//! The fixed-window decision engine and its per-key window store.
//!
//! The store maps each client key to the start of its current window and
//! the number of requests admitted in it. A check either admits the
//! request (inserting or updating the key's window) or rejects it,
//! leaving the store unchanged.

use vstd::prelude::*;

use vstd::hash_map::StringHashMap;

use crate::config::{RateLimitConfig, RetryAfterFormat};
use crate::headers::{format_rfc2822, rfc2822_of};
use crate::numfmt::{dec_str, u64_to_dec_string};
use crate::{RateLimitInfo, RateLimitRejection};

verus! {

/// Per-key window state: when the current window began (milliseconds on
/// the caller's monotonic clock) and how many requests it has admitted.
#[derive(Clone, Copy, Debug, PartialEq, Eq, Structural)]
pub struct WindowState {
    /// Start of the window, in monotonic milliseconds
    pub window_start: u64,
    /// Requests admitted in this window; at least 1 once stored
    pub count: u32,
}

/// Milliseconds elapsed from `start` to `now`, saturating at zero when
/// `now` lies before `start`.
pub open spec fn elapsed_millis(start: u64, now: u64) -> int {
    if now >= start {
        now - start
    } else {
        0
    }
}

/// True when a stored window has expired at `now`: strictly more than a
/// full window has elapsed since it began.
pub open spec fn window_expired(st: WindowState, now: u64, window_millis: u64) -> bool {
    elapsed_millis(st.window_start, now) > window_millis
}

/// True when a check for `k` at `now` is admitted against store `m`: the
/// key is new, its window has expired, or its window still has quota.
pub open spec fn step_admits(
    m: Map<Seq<char>, WindowState>,
    k: Seq<char>,
    now: u64,
    cfg: RateLimitConfig,
) -> bool {
    ||| !m.contains_key(k)
    ||| window_expired(m[k], now, cfg.window_millis)
    ||| m[k].count < cfg.max_requests
}

/// The window stored for `k` after an admitted check at `now`: a fresh
/// window anchored at `now` for a new or expired key, otherwise the same
/// window with one more admission.
pub open spec fn step_window(
    m: Map<Seq<char>, WindowState>,
    k: Seq<char>,
    now: u64,
    cfg: RateLimitConfig,
) -> WindowState
    recommends
        step_admits(m, k, now, cfg),
{
    if !m.contains_key(k) || window_expired(m[k], now, cfg.window_millis) {
        WindowState { window_start: now, count: 1 }
    } else {
        WindowState { window_start: m[k].window_start, count: (m[k].count + 1) as u32 }
    }
}

/// The store after a check for `k` at `now`: updated on admission,
/// unchanged on rejection.
pub open spec fn step_store(
    m: Map<Seq<char>, WindowState>,
    k: Seq<char>,
    now: u64,
    cfg: RateLimitConfig,
) -> Map<Seq<char>, WindowState> {
    if step_admits(m, k, now, cfg) {
        m.insert(k, step_window(m, k, now, cfg))
    } else {
        m
    }
}

/// The remaining quota reported by an admitted check.
pub open spec fn step_remaining(
    m: Map<Seq<char>, WindowState>,
    k: Seq<char>,
    now: u64,
    cfg: RateLimitConfig,
) -> int {
    cfg.max_requests - step_window(m, k, now, cfg).count
}

/// Milliseconds until the rejected key's window expires.
pub open spec fn step_retry_millis(
    m: Map<Seq<char>, WindowState>,
    k: Seq<char>,
    now: u64,
    cfg: RateLimitConfig,
) -> int {
    cfg.window_millis - elapsed_millis(m[k].window_start, now)
}

/// Milliseconds from `now` until the window of an admitted check
/// resets: the full window for a fresh window, the remainder of the
/// stored window otherwise.
pub open spec fn step_reset_millis(
    m: Map<Seq<char>, WindowState>,
    k: Seq<char>,
    now: u64,
    cfg: RateLimitConfig,
) -> int
    recommends
        step_admits(m, k, now, cfg),
{
    cfg.window_millis - elapsed_millis(step_window(m, k, now, cfg).window_start, now)
}

/// The reset timestamp reported with a decision: the wall-clock second
/// `delta_millis` (rounded down to seconds) after `now_unix`.
pub open spec fn reset_at(now_unix: i64, delta_millis: int) -> int {
    now_unix + delta_millis / 1000
}

/// A fixed-window rate limiter: one configuration and one window store,
/// owned for the limiter's lifetime. Entries are never evicted.
pub struct RateLimiter {
    /// The limiter's immutable configuration
    pub config: RateLimitConfig,
    /// The window store, one entry per observed client key
    pub state: StringHashMap<WindowState>,
}

impl View for RateLimiter {
    type V = Map<Seq<char>, WindowState>;

    open spec fn view(&self) -> Map<Seq<char>, WindowState> {
        self.state@
    }
}

impl RateLimiter {
    /// Well-formed: the configuration is usable and every stored window
    /// holds between 1 and `max_requests` admissions.
    pub open spec fn wf(&self) -> bool {
        &&& self.config.valid()
        &&& forall|k: Seq<char>|
            self@.contains_key(k) ==> 1 <= (#[trigger] self@[k]).count <= self.config.max_requests
    }

    /// Creates a limiter with an empty store.
    pub fn new(config: RateLimitConfig) -> (s: Self)
        ensures
            s.config == config,
            s@ == Map::<Seq<char>, WindowState>::empty(),
            config.valid() ==> s.wf(),
    {
        Self { config, state: StringHashMap::new() }
    }

    /// Builds the quota information reported with an admitted request
    /// whose window began `elapsed` milliseconds ago.
    ///
    /// The window resets `window - elapsed` milliseconds from now; the
    /// reset timestamp is that time as a Unix second, and the retry-after
    /// value renders that same time in the configured format.
    fn create_info(&self, remaining: u32, elapsed: u64, now_unix: i64) -> (info: RateLimitInfo)
        requires
            elapsed <= self.config.window_millis,
            0 <= now_unix,
            reset_at(now_unix, self.config.window_millis as int) <= i64::MAX,
            self.config.retry_after_format == RetryAfterFormat::HttpDate ==> reset_at(
                now_unix,
                self.config.window_millis as int,
            ) <= 253402300799,
        ensures
            info.limit == self.config.max_requests,
            info.remaining == remaining,
            info.reset_timestamp == reset_at(
                now_unix,
                self.config.window_millis - elapsed,
            ),
            info.retry_after_format == self.config.retry_after_format,
            info.retry_after@ == match self.config.retry_after_format {
                RetryAfterFormat::HttpDate => rfc2822_of(
                    reset_at(now_unix, self.config.window_millis - elapsed) as i64,
                ),
                RetryAfterFormat::Seconds => dec_str(
                    (self.config.window_millis - elapsed) as nat / 1000,
                ),
            },
    {
        let time_to_reset: u64 = self.config.window_millis - elapsed;
        let reset_secs: u64 = time_to_reset / 1000;
        proof {
            vstd::arithmetic::div_mod::lemma_div_is_ordered(
                time_to_reset as int,
                self.config.window_millis as int,
                1000,
            );
        }
        let reset_timestamp: i64 = now_unix + reset_secs as i64;
        let retry_after = match self.config.retry_after_format {
            RetryAfterFormat::HttpDate => format_rfc2822(reset_timestamp),
            RetryAfterFormat::Seconds => u64_to_dec_string(reset_secs),
        };
        RateLimitInfo {
            retry_after,
            limit: self.config.max_requests,
            remaining,
            reset_timestamp,
            retry_after_format: self.config.retry_after_format,
        }
    }


    /// The store stays well-formed when a window holding between 1 and
    /// `max_requests` admissions is inserted.
    proof fn lemma_wf_after_insert(&self, prev: Self, k: Seq<char>, st: WindowState)
        requires
            prev.wf(),
            self.config == prev.config,
            self@ == prev@.insert(k, st),
            1 <= st.count <= self.config.max_requests,
        ensures
            self.wf(),
    {
        assert forall|k2: Seq<char>| self@.contains_key(k2) implies 1 <= (#[trigger] self@[k2]).count
            <= self.config.max_requests by {
            if k2 != k {
                assert(prev@.contains_key(k2) && self@[k2] == prev@[k2]);
            }
        }
    }

    /// Checks one request for `key` at the given time and updates the
    /// store.
    ///
    /// `now_millis` is a reading of the caller's monotonic clock;
    /// `now_unix` the same moment as a Unix timestamp. The decision is a
    /// function of the stored window for `key`:
    /// - no stored window, or one that expired: admit into a fresh window
    ///   anchored at `now_millis`, with `max_requests - 1` remaining;
    /// - a live window with quota: admit, incrementing its count;
    /// - a live window out of quota: reject, reporting the time until the
    ///   window expires; the store is unchanged.
    ///
    /// Either way the decision reports when its window resets: the
    /// remainder of the admitted window, or the rejected window's
    /// remainder as the retry time.
    pub fn check_rate_limit(&mut self, key: &str, now_millis: u64, now_unix: i64) -> (r: Result<
        RateLimitInfo,
        RateLimitRejection,
    >)
        requires
            old(self).wf(),
            0 <= now_unix,
            reset_at(now_unix, old(self).config.window_millis as int) <= i64::MAX,
            old(self).config.retry_after_format == RetryAfterFormat::HttpDate ==> reset_at(
                now_unix,
                old(self).config.window_millis as int,
            ) <= 253402300799,
        ensures
            final(self).wf(),
            final(self).config == old(self).config,
            final(self)@ == step_store(old(self)@, key@, now_millis, old(self).config),
            r is Ok <==> step_admits(old(self)@, key@, now_millis, old(self).config),
            match r {
                Ok(info) => {
                    let reset_millis = step_reset_millis(
                        old(self)@,
                        key@,
                        now_millis,
                        old(self).config,
                    );
                    &&& info.limit == old(self).config.max_requests
                    &&& info.remaining == step_remaining(
                        old(self)@,
                        key@,
                        now_millis,
                        old(self).config,
                    )
                    &&& info.reset_timestamp == reset_at(now_unix, reset_millis)
                    &&& info.retry_after_format == old(self).config.retry_after_format
                    &&& info.retry_after@ == match old(self).config.retry_after_format {
                        RetryAfterFormat::HttpDate => rfc2822_of(
                            reset_at(now_unix, reset_millis) as i64,
                        ),
                        RetryAfterFormat::Seconds => dec_str((reset_millis / 1000) as nat),
                    }
                },
                Err(rej) => {
                    &&& rej.limit == old(self).config.max_requests
                    &&& rej.retry_after_millis == step_retry_millis(
                        old(self)@,
                        key@,
                        now_millis,
                        old(self).config,
                    )
                    &&& rej.reset_timestamp == reset_at(now_unix, rej.retry_after_millis as int)
                    &&& rej.retry_after_format == old(self).config.retry_after_format
                },
            },
    {
        let current: Option<WindowState> = match self.state.get(key) {
            Some(st) => Some(*st),
            None => None,
        };
        match current {
            Some(st) => {
                let elapsed: u64 = if now_millis >= st.window_start {
                    now_millis - st.window_start
                } else {
                    0
                };
                if elapsed > self.config.window_millis {
                    // Window has passed, reset counter
                    self.state.insert(
                        key.to_owned(),
                        WindowState { window_start: now_millis, count: 1 },
                    );
                    proof {
                        self.lemma_wf_after_insert(
                            *old(self),
                            key@,
                            WindowState { window_start: now_millis, count: 1 },
                        );
                    }
                    Ok(self.create_info(self.config.max_requests - 1, 0, now_unix))
                } else if st.count >= self.config.max_requests {
                    // Rate limit exceeded
                    let retry_after_millis: u64 = self.config.window_millis - elapsed;
                    Err(
                        RateLimitRejection {
                            retry_after_millis,
                            limit: self.config.max_requests,
                            reset_timestamp: now_unix + (retry_after_millis / 1000) as i64,
                            retry_after_format: self.config.retry_after_format,
                        },
                    )
                } else {
                    // Increment counter
                    self.state.insert(
                        key.to_owned(),
                        WindowState { window_start: st.window_start, count: st.count + 1 },
                    );
                    proof {
                        self.lemma_wf_after_insert(
                            *old(self),
                            key@,
                            WindowState { window_start: st.window_start, count: (st.count + 1) as u32 },
                        );
                    }
                    Ok(self.create_info(self.config.max_requests - (st.count + 1), elapsed, now_unix))
                }
            },
            None => {
                // First request
                self.state.insert(
                    key.to_owned(),
                    WindowState { window_start: now_millis, count: 1 },
                );
                proof {
                    self.lemma_wf_after_insert(
                        *old(self),
                        key@,
                        WindowState { window_start: now_millis, count: 1 },
                    );
                }
                Ok(self.create_info(self.config.max_requests - 1, 0, now_unix))
            },
        }
    }
}

/// The store reached after checking `k` once at each time in `times`, in
/// order, starting from store `m`.
pub open spec fn run_store(
    m: Map<Seq<char>, WindowState>,
    k: Seq<char>,
    times: Seq<u64>,
    cfg: RateLimitConfig,
) -> Map<Seq<char>, WindowState>
    decreases times.len(),
{
    if times.len() == 0 {
        m
    } else {
        step_store(run_store(m, k, times.drop_last(), cfg), k, times.last(), cfg)
    }
}

/// How many of the checks for `k` at the times in `times` are admitted.
pub open spec fn run_admitted(
    m: Map<Seq<char>, WindowState>,
    k: Seq<char>,
    times: Seq<u64>,
    cfg: RateLimitConfig,
) -> int
    decreases times.len(),
{
    if times.len() == 0 {
        0
    } else {
        run_admitted(m, k, times.drop_last(), cfg) + if step_admits(
            run_store(m, k, times.drop_last(), cfg),
            k,
            times.last(),
            cfg,
        ) {
            1int
        } else {
            0int
        }
    }
}

/// After a run of checks for a previously unseen key, all within one
/// window of the first check, the stored window is anchored at the first
/// check's time and has admitted `min(times.len(), max_requests)`
/// requests — which is also exactly how many of the checks were admitted.
proof fn lemma_run_counts(
    m: Map<Seq<char>, WindowState>,
    k: Seq<char>,
    times: Seq<u64>,
    cfg: RateLimitConfig,
)
    requires
        cfg.valid(),
        !m.contains_key(k),
        times.len() >= 1,
        forall|j: int|
            0 <= j < times.len() ==> times[0] <= #[trigger] times[j] <= times[0]
                + cfg.window_millis,
    ensures
        run_store(m, k, times, cfg).contains_key(k),
        run_store(m, k, times, cfg)[k].window_start == times[0],
        run_store(m, k, times, cfg)[k].count == if times.len() <= cfg.max_requests {
            times.len() as int
        } else {
            cfg.max_requests as int
        },
        run_admitted(m, k, times, cfg) == if times.len() <= cfg.max_requests {
            times.len() as int
        } else {
            cfg.max_requests as int
        },
    decreases times.len(),
{
    if times.len() == 1 {
        assert(times.drop_last().len() == 0);
        assert(run_store(m, k, times.drop_last(), cfg) == m);
        assert(run_admitted(m, k, times.drop_last(), cfg) == 0);
    } else {
        let prefix = times.drop_last();
        assert(prefix[0] == times[0]);
        lemma_run_counts(m, k, prefix, cfg);
        let before = run_store(m, k, prefix, cfg);
        assert(elapsed_millis(before[k].window_start, times.last()) <= cfg.window_millis);
        assert(!window_expired(before[k], times.last(), cfg.window_millis));
    }
}

/// Monotonic admission within a window: starting from a store without
/// `k`, with all checks within one window of the first, the `i`-th check
/// is admitted with remaining quota `max_requests - 1 - i` as long as
/// `i < max_requests`, and rejected from then on.
pub proof fn lemma_monotonic_admission(
    m: Map<Seq<char>, WindowState>,
    k: Seq<char>,
    times: Seq<u64>,
    cfg: RateLimitConfig,
    i: int,
)
    requires
        cfg.valid(),
        !m.contains_key(k),
        0 <= i < times.len(),
        forall|j: int|
            0 <= j < times.len() ==> times[0] <= #[trigger] times[j] <= times[0]
                + cfg.window_millis,
    ensures
        i < cfg.max_requests ==> step_admits(run_store(m, k, times.take(i), cfg), k, times[i], cfg)
            && step_remaining(run_store(m, k, times.take(i), cfg), k, times[i], cfg)
            == cfg.max_requests - 1 - i,
        i >= cfg.max_requests ==> !step_admits(
            run_store(m, k, times.take(i), cfg),
            k,
            times[i],
            cfg,
        ),
{
    let prefix = times.take(i);
    if i == 0 {
        assert(run_store(m, k, prefix, cfg) == m);
    } else {
        assert(prefix[0] == times[0]);
        lemma_run_counts(m, k, prefix, cfg);
        let before = run_store(m, k, prefix, cfg);
        assert(elapsed_millis(before[k].window_start, times[i]) <= cfg.window_millis);
        assert(!window_expired(before[k], times[i], cfg.window_millis));
    }
}

/// Concurrency split: of any number of checks for one previously unseen
/// key, serialized in some order and all within one window of the first,
/// exactly `min(times.len(), max_requests)` are admitted and the rest are
/// rejected — no admission is lost or duplicated.
pub proof fn lemma_admission_split(
    m: Map<Seq<char>, WindowState>,
    k: Seq<char>,
    times: Seq<u64>,
    cfg: RateLimitConfig,
)
    requires
        cfg.valid(),
        !m.contains_key(k),
        times.len() >= 1,
        forall|j: int|
            0 <= j < times.len() ==> times[0] <= #[trigger] times[j] <= times[0]
                + cfg.window_millis,
    ensures
        run_admitted(m, k, times, cfg) == if times.len() <= cfg.max_requests {
            times.len() as int
        } else {
            cfg.max_requests as int
        },
{
    lemma_run_counts(m, k, times, cfg);
}

/// One step of the fixed-window algorithm on a live window, case by
/// case: with quota left the check is admitted, the count is incremented
/// in place (window start unchanged) and the remaining quota is the limit
/// less the new count; out of quota the check is rejected and the store
/// is unchanged.
pub proof fn lemma_live_window_step(
    m: Map<Seq<char>, WindowState>,
    k: Seq<char>,
    now: u64,
    cfg: RateLimitConfig,
)
    requires
        cfg.valid(),
        m.contains_key(k),
        elapsed_millis(m[k].window_start, now) <= cfg.window_millis,
    ensures
        m[k].count < cfg.max_requests ==> step_admits(m, k, now, cfg) && step_window(
            m,
            k,
            now,
            cfg,
        ) == (WindowState {
            window_start: m[k].window_start,
            count: (m[k].count + 1) as u32,
        }) && step_remaining(m, k, now, cfg) == cfg.max_requests - (m[k].count + 1)
            && step_store(m, k, now, cfg) == m.insert(k, step_window(m, k, now, cfg)),
        m[k].count >= cfg.max_requests ==> !step_admits(m, k, now, cfg) && step_store(
            m,
            k,
            now,
            cfg,
        ) == m,
{
}

/// Window reset: once more than a full window has elapsed since a stored
/// window began — as just after a rejection, one instant past the
/// window's end — the next check is admitted into a fresh window anchored
/// at its own time, with `max_requests - 1` remaining.
pub proof fn lemma_window_reset(
    m: Map<Seq<char>, WindowState>,
    k: Seq<char>,
    now: u64,
    cfg: RateLimitConfig,
)
    requires
        cfg.valid(),
        m.contains_key(k),
        elapsed_millis(m[k].window_start, now) > cfg.window_millis,
    ensures
        step_admits(m, k, now, cfg),
        step_remaining(m, k, now, cfg) == cfg.max_requests - 1,
        step_store(m, k, now, cfg) == m.insert(k, WindowState { window_start: now, count: 1 }),
{
}

/// Independent keys, part one: a check for `k` leaves every other key's
/// state exactly as it was.
pub proof fn lemma_other_keys_unchanged(
    m: Map<Seq<char>, WindowState>,
    k: Seq<char>,
    k2: Seq<char>,
    now: u64,
    cfg: RateLimitConfig,
)
    requires
        k2 != k,
    ensures
        step_store(m, k, now, cfg).contains_key(k2) == m.contains_key(k2),
        m.contains_key(k2) ==> step_store(m, k, now, cfg)[k2] == m[k2],
{
}

/// Independent keys, part two: the decision for `k` depends only on the
/// state stored under `k`, never on any other key's state.
pub proof fn lemma_decision_depends_only_on_key(
    m1: Map<Seq<char>, WindowState>,
    m2: Map<Seq<char>, WindowState>,
    k: Seq<char>,
    now: u64,
    cfg: RateLimitConfig,
)
    requires
        m1.contains_key(k) == m2.contains_key(k),
        m1.contains_key(k) ==> m1[k] == m2[k],
    ensures
        step_admits(m1, k, now, cfg) == step_admits(m2, k, now, cfg),
        step_admits(m1, k, now, cfg) ==> step_window(m1, k, now, cfg) == step_window(
            m2,
            k,
            now,
            cfg,
        ) && step_remaining(m1, k, now, cfg) == step_remaining(m2, k, now, cfg),
        !step_admits(m1, k, now, cfg) ==> step_retry_millis(m1, k, now, cfg) == step_retry_millis(
            m2,
            k,
            now,
            cfg,
        ),
{
}

/// Retry-After bounds: a rejection's retry time never exceeds the window,
/// and its decoded Seconds rendering never exceeds the window in seconds;
/// it is positive whenever at least one full second of the window
/// remains. (With under a second of the window left, the rendering rounds
/// down to zero.)
pub proof fn lemma_retry_after_bounds(
    m: Map<Seq<char>, WindowState>,
    k: Seq<char>,
    now: u64,
    cfg: RateLimitConfig,
)
    requires
        cfg.valid(),
        !step_admits(m, k, now, cfg),
    ensures
        0 <= step_retry_millis(m, k, now, cfg) <= cfg.window_millis,
        crate::numfmt::digits_val(
            dec_str((step_retry_millis(m, k, now, cfg) / 1000) as nat),
        ) == step_retry_millis(m, k, now, cfg) / 1000,
        step_retry_millis(m, k, now, cfg) / 1000 <= cfg.window_millis as int / 1000,
        step_retry_millis(m, k, now, cfg) >= 1000 ==> step_retry_millis(m, k, now, cfg) / 1000
            >= 1,
{
    let retry = step_retry_millis(m, k, now, cfg);
    assert(!window_expired(m[k], now, cfg.window_millis));
    assert(0 <= elapsed_millis(m[k].window_start, now) <= cfg.window_millis);
    vstd::arithmetic::div_mod::lemma_div_is_ordered(retry, cfg.window_millis as int, 1000);
    crate::numfmt::lemma_dec_round_trip((retry / 1000) as nat);
}

} // verus!
