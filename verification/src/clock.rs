//! Time as the library counts it: milliseconds since the Unix epoch, UTC.

use vstd::prelude::*;

verus! {

/// `chrono::Utc::now` and `DateTime::timestamp_millis`: the time of the
/// call. Nothing is promised of it: two calls may differ in either direction.
#[verifier::external_body]
pub(crate) fn now_millis() -> i64 {
    chrono::Utc::now().timestamp_millis()
}

/// Whole seconds between two instants, rounded toward zero.
pub open spec fn whole_seconds(from: int, to: int) -> int {
    if to >= from {
        (to - from) / 1000
    } else {
        -((from - to) / 1000)
    }
}

/// Whole seconds from `from` to `to`, rounded toward zero.
pub fn seconds_between(from: i64, to: i64) -> (seconds: i64)
    ensures
        seconds == whole_seconds(from as int, to as int),
{
    let span: i128 = to as i128 - from as i128;
    if span >= 0 {
        (span / 1000) as i64
    } else {
        (-((-span) / 1000)) as i64
    }
}

/// An instant counts as recent for three seconds.
pub const STALE_AFTER_MS: i64 = 3000;

/// Whether something last seen at `then` is out of date at `now`.
pub open spec fn is_stale(then: int, now: int) -> bool {
    now - then > 3000
}

pub fn stale(then: i64, now: i64) -> (out_of_date: bool)
    ensures
        out_of_date == is_stale(then as int, now as int),
{
    now as i128 - then as i128 > STALE_AFTER_MS as i128
}

/// A number of milliseconds kept within what an instant can hold.
pub open spec fn clamped(ms: int) -> i64 {
    if ms > i64::MAX {
        i64::MAX
    } else if ms < i64::MIN {
        i64::MIN
    } else {
        ms as i64
    }
}

/// The instant `ms` milliseconds after `now`, kept within range.
pub fn shifted(now: i64, ms: i64) -> (later: i64)
    ensures
        later == clamped(now + ms),
{
    let sum: i128 = now as i128 + ms as i128;
    if sum > i64::MAX as i128 {
        i64::MAX
    } else if sum < i64::MIN as i128 {
        i64::MIN
    } else {
        sum as i64
    }
}

/// The milliseconds from `from` to `to`, kept within range.
pub fn elapsed(from: i64, to: i64) -> (ms: i64)
    ensures
        ms == clamped(to - from),
{
    let span: i128 = to as i128 - from as i128;
    if span > i64::MAX as i128 {
        i64::MAX
    } else if span < i64::MIN as i128 {
        i64::MIN
    } else {
        span as i64
    }
}

} // verus!
