//! Timestamps: RFC 3339 parsing, the current time and elapsed minutes,
//! all computed by `chrono`. An instant is a pair of the Unix timestamp in
//! seconds and the sub-second nanoseconds.

use vstd::prelude::*;

verus! {

/// The instant that `chrono::DateTime::parse_from_rfc3339` reads from the
/// text `s`, as (Unix seconds, sub-second nanoseconds), or `None` where it
/// rejects the text.
pub uninterp spec fn rfc3339_instant(s: Seq<char>) -> Option<(i64, u32)>;

/// The whole minutes from `then` to `now` (truncated toward zero), as
/// `chrono` computes them with `signed_duration_since` and `num_minutes`;
/// `None` where `chrono::DateTime::from_timestamp` cannot represent one of
/// the two instants.
pub uninterp spec fn minutes_between(now: (i64, u32), then: (i64, u32)) -> Option<i64>;

/// `chrono::DateTime::parse_from_rfc3339`, read as (Unix seconds,
/// sub-second nanoseconds). Its result is named `rfc3339_instant`.
#[verifier::external_body]
pub(crate) fn parse_rfc3339(s: &str) -> (r: Option<(i64, u32)>)
    ensures
        r == rfc3339_instant(s@),
{
    match chrono::DateTime::parse_from_rfc3339(s) {
        Ok(t) => Some((t.timestamp(), t.timestamp_subsec_nanos())),
        Err(_) => None,
    }
}

/// `chrono::Utc::now`, read as (Unix seconds, sub-second nanoseconds).
/// It depends on the clock, so nothing is stated of it.
#[verifier::external_body]
pub(crate) fn utc_now() -> (r: (i64, u32)) {
    let t = chrono::Utc::now();
    (t.timestamp(), t.timestamp_subsec_nanos())
}

/// `chrono::DateTime::signed_duration_since` followed by
/// `TimeDelta::num_minutes`, on the two instants rebuilt with
/// `chrono::DateTime::from_timestamp`. Its result is named
/// `minutes_between`.
#[verifier::external_body]
pub(crate) fn elapsed_minutes(now: (i64, u32), then: (i64, u32)) -> (r: Option<i64>)
    ensures
        r == minutes_between(now, then),
{
    let a = chrono::DateTime::from_timestamp(now.0, now.1);
    let b = chrono::DateTime::from_timestamp(then.0, then.1);
    match (a, b) {
        (Some(a), Some(b)) => Some(a.signed_duration_since(b).num_minutes()),
        _ => None,
    }
}

} // verus!
