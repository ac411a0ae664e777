//! Classification of API responses and the retry decisions taken on them.
//!
//! One attempt at a request ends in success, in the primary rate limit (the
//! quota is spent until a reset time the response names), or in the secondary
//! rate limit (a short throttle with no reset time). Rate-limited requests are
//! retried, unchanged, after a wait; success ends the loop.
use vstd::prelude::*;

verus! {

/// Text in the body of a refused response that marks the secondary limit.
pub const SECONDARY_LIMIT_MARKER: &'static str = "secondary";

/// Seconds to wait after the secondary limit.
pub const SECONDARY_LIMIT_WAIT: u64 = 60;

/// Seconds added to the wait for a reset time, as a margin.
pub const RESET_MARGIN: u64 = 1;

/// How one attempt at a request ended.
#[derive(Clone, Copy, Debug, PartialEq, Eq, Structural)]
pub enum ApiResult {
    Success,
    /// The primary rate limit, with the seconds to wait before retrying.
    RateLimit(u64),
    SecondaryLimit,
}

/// Whether `needle` occurs in `haystack` as a contiguous run.
pub open spec fn occurs_in(needle: Seq<char>, haystack: Seq<char>) -> bool {
    exists|i: int|
        0 <= i && i + needle.len() <= haystack.len() && #[trigger] haystack.subrange(
            i,
            i + needle.len(),
        ) == needle
}

/// Relies on `str::contains`: true exactly when `needle` is a substring of
/// `haystack`.
#[verifier::external_body]
fn str_contains(haystack: &str, needle: &str) -> (r: bool)
    ensures
        r == occurs_in(needle@, haystack@),
{
    haystack.contains(needle)
}

/// Seconds to wait for the primary limit to lift: the reset time less the
/// current time, not below zero, plus the margin; a missing reset time counts
/// as now. Both times are in seconds since the Unix epoch.
pub open spec fn reset_wait_spec(reset: Option<u64>, now: u64) -> int {
    let until = match reset {
        Some(t) => if t > now { t - now } else { 0 },
        None => 0,
    };
    until + RESET_MARGIN
}

/// `reset_wait_spec`, computed; it saturates at `u64::MAX`.
pub fn reset_wait(reset: Option<u64>, now: u64) -> (r: u64)
    ensures
        r == if reset_wait_spec(reset, now) <= u64::MAX {
            reset_wait_spec(reset, now)
        } else {
            u64::MAX as int
        },
{
    let until: u64 = match reset {
        Some(t) => if t > now { t - now } else { 0 },
        None => 0,
    };
    if until <= u64::MAX - RESET_MARGIN {
        until + RESET_MARGIN
    } else {
        u64::MAX
    }
}

/// What an attempt ended in: success for a 2xx status; for another status,
/// the secondary limit when the body holds its marker, else the primary limit
/// with the wait computed from the reset time.
pub open spec fn classify_spec(success: bool, body: Seq<char>, reset: Option<u64>, now: u64) -> ApiResult {
    if success {
        ApiResult::Success
    } else if occurs_in(SECONDARY_LIMIT_MARKER@, body) {
        ApiResult::SecondaryLimit
    } else {
        ApiResult::RateLimit(
            if reset_wait_spec(reset, now) <= u64::MAX {
                reset_wait_spec(reset, now) as u64
            } else {
                u64::MAX
            },
        )
    }
}

/// Classifies one response: `success` tells a 2xx status, `body` is the text
/// of a refused response, `reset` the value of its rate-limit reset header,
/// and `now` the current time, in seconds since the Unix epoch.
pub fn classify(success: bool, body: &str, reset: Option<u64>, now: u64) -> (r: ApiResult)
    ensures
        r == classify_spec(success, body@, reset, now),
{
    if success {
        ApiResult::Success
    } else if str_contains(body, SECONDARY_LIMIT_MARKER) {
        ApiResult::SecondaryLimit
    } else {
        ApiResult::RateLimit(reset_wait(reset, now))
    }
}

/// What to do after an attempt: `None` to stop, with its result, or the
/// seconds to sleep before the same request is tried again.
pub open spec fn retry_delay_spec(r: ApiResult) -> Option<u64> {
    match r {
        ApiResult::Success => None,
        ApiResult::RateLimit(w) => Some(w),
        ApiResult::SecondaryLimit => Some(SECONDARY_LIMIT_WAIT),
    }
}

/// `retry_delay_spec`, computed.
pub fn retry_delay(r: ApiResult) -> (d: Option<u64>)
    ensures
        d == retry_delay_spec(r),
{
    match r {
        ApiResult::Success => None,
        ApiResult::RateLimit(w) => Some(w),
        ApiResult::SecondaryLimit => Some(SECONDARY_LIMIT_WAIT),
    }
}

/// A refused response whose reset time lies `secs` seconds ahead is retried
/// after `secs + 1` seconds, unless its body marks the secondary limit; a
/// successful one is not retried.
pub proof fn lemma_primary_limit_wait(body: Seq<char>, now: u64, secs: u64)
    requires
        !occurs_in(SECONDARY_LIMIT_MARKER@, body),
        now + secs + RESET_MARGIN <= u64::MAX,
    ensures
        retry_delay_spec(classify_spec(false, body, Some((now + secs) as u64), now)) == Some(
            (secs + RESET_MARGIN) as u64,
        ),
        retry_delay_spec(classify_spec(true, body, Some((now + secs) as u64), now)) is None,
{
}

/// A refused response whose body marks the secondary limit is retried after
/// sixty seconds, whatever reset time it names.
pub proof fn lemma_secondary_limit_wait(body: Seq<char>, reset: Option<u64>, now: u64)
    requires
        occurs_in(SECONDARY_LIMIT_MARKER@, body),
    ensures
        retry_delay_spec(classify_spec(false, body, reset, now)) == Some(60u64),
{
}

} // verus!
