//! When to hold back before the next remote call: the quota check applied to
//! every response, the capped sleep steps towards a reset time, and the retry
//! decisions of a quote search.

use vstd::prelude::*;

verus! {

/// Added to the time left before each sleep step, in milliseconds.
pub const SLEEP_PAD_MS: u64 = 5000;

/// The longest single sleep step, in milliseconds, so that cancellation is seen
/// within that time.
pub const SLEEP_CAP_MS: u64 = 10000;

/// The quota that a response reports for its class of calls.
#[derive(Clone, Copy, Debug, PartialEq, Eq, Structural)]
pub struct RateLimitState {
    pub limit: i32,
    pub remaining: i32,
    /// When the quota is refilled, in seconds since the unix epoch.
    pub reset: i32,
}

/// The reset time to wait for before the next call: there is one exactly when
/// no call is left.
pub open spec fn quota_wait_spec(state: RateLimitState) -> Option<i32> {
    if state.remaining == 0 {
        Some(state.reset)
    } else {
        None
    }
}

/// Milliseconds from `now_ms` until `reset` (seconds), negative once it has passed.
pub open spec fn time_left_ms(reset: i32, now_ms: u64) -> int {
    reset as int * 1000 - now_ms as int
}

/// The next sleep step towards `reset`: none once it has passed or when
/// cancelled, else the time left plus the pad, capped.
pub open spec fn next_sleep_spec(reset: i32, now_ms: u64, cancelled: bool) -> Option<u64> {
    let left = time_left_ms(reset, now_ms);
    if cancelled || left <= 0 {
        None
    } else if left + SLEEP_PAD_MS < SLEEP_CAP_MS {
        Some((left + SLEEP_PAD_MS) as u64)
    } else {
        Some(SLEEP_CAP_MS)
    }
}

/// Decides whether a response's quota requires a wait, and until when.
pub fn quota_wait(state: &RateLimitState) -> (r: Option<i32>)
    ensures
        r == quota_wait_spec(*state),
{
    if state.remaining == 0 {
        Some(state.reset)
    } else {
        None
    }
}

/// One step of waiting for `reset`: how long to sleep now, or `None` when the
/// wait is over or cancellation was requested.
pub fn next_sleep(reset: i32, now_ms: u64, cancelled: bool) -> (r: Option<u64>)
    ensures
        r == next_sleep_spec(reset, now_ms, cancelled),
{
    if cancelled || reset <= 0 {
        return None;
    }
    let target: u64 = reset as u64 * 1000;
    if now_ms >= target {
        return None;
    }
    let left: u64 = target - now_ms;
    if left < SLEEP_CAP_MS - SLEEP_PAD_MS {
        Some(left + SLEEP_PAD_MS)
    } else {
        Some(SLEEP_CAP_MS)
    }
}

/// A wait that ends without cancellation ends no earlier than the reset time,
/// and every sleep step is positive and at most the cap.
pub proof fn law_wait_reaches_reset(reset: i32, now_ms: u64)
    ensures
        next_sleep_spec(reset, now_ms, false) is None ==> now_ms as int >= reset as int * 1000,
        next_sleep_spec(reset, now_ms, false) matches Some(d) ==> 0 < d <= SLEEP_CAP_MS,
        next_sleep_spec(reset, now_ms, true) is None,
{
}

/// An exhausted quota whose reset lies five seconds ahead makes the caller wait
/// for that reset, and the first sleep step is one full capped step, which
/// covers the five seconds.
pub proof fn law_exhausted_quota_sleeps(state: RateLimitState, now_ms: u64)
    requires
        state.remaining == 0,
        state.reset as int * 1000 == now_ms as int + 5000,
    ensures
        quota_wait_spec(state) == Some(state.reset),
        next_sleep_spec(state.reset, now_ms, false) == Some(SLEEP_CAP_MS),
        SLEEP_CAP_MS as int >= time_left_ms(state.reset, now_ms),
{
}

/// What one attempt of a quote search came back with.
pub enum SearchReply {
    /// The ids of the tweets that quote the searched one.
    Quoters(Vec<u64>),
    /// The quota is spent until the given reset time, in unix seconds.
    RateLimited(i32),
    /// Any other failure: authorization, network, an unexpected answer.
    Failed,
}

/// What a quote search does next.
pub enum SearchStep {
    /// Make the remote call.
    Call,
    /// Wait for the given reset time, then decide again with no reply.
    WaitUntil(i32),
    /// Stop with these quoting ids.
    Finish(Vec<u64>),
    /// Stop the whole run: the failure is fatal.
    Abort,
}

/// The retry policy of a quote search. `last` is the reply of the previous
/// call, or `None` before the first call and after a wait. Cancellation is
/// checked before each call and ends the search with no ids.
pub fn search_step(cancelled: bool, last: Option<SearchReply>) -> (r: SearchStep)
    ensures
        last is None && cancelled ==> (r matches SearchStep::Finish(ids) && ids@.len() == 0),
        last is None && !cancelled ==> r is Call,
        last matches Some(SearchReply::Quoters(ids)) ==> (r matches SearchStep::Finish(out) && out@ == ids@),
        last matches Some(SearchReply::RateLimited(reset)) ==> r == SearchStep::WaitUntil(reset),
        last matches Some(SearchReply::Failed) ==> r is Abort,
{
    match last {
        None => {
            if cancelled {
                SearchStep::Finish(Vec::new())
            } else {
                SearchStep::Call
            }
        },
        Some(SearchReply::Quoters(ids)) => SearchStep::Finish(ids),
        Some(SearchReply::RateLimited(reset)) => SearchStep::WaitUntil(reset),
        Some(SearchReply::Failed) => SearchStep::Abort,
    }
}

} // verus!
