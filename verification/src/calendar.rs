//! Calendar arithmetic on UNIX timestamps (seconds), done by `chrono`.
use chrono::{DateTime, NaiveDateTime, TimeDelta, Utc};
use vstd::prelude::*;

verus! {

/// The format in which datetimes are written: `2023-06-30 12:30:00`.
pub open spec fn datetime_format() -> Seq<char> {
    "%Y-%m-%d %H:%M:%S"@
}

/// What `chrono` parses `s` into under the strftime-style format `fmt`, read as
/// a UTC datetime and given as a UNIX timestamp; `None` where parsing fails.
pub uninterp spec fn spec_parse_timestamp(s: Seq<char>, fmt: Seq<char>) -> Option<i64>;

/// The first UNIX timestamp `chrono` can represent: January 1 of the year
/// -262143, 00:00:00 (`NaiveDate::MIN`).
pub open spec fn min_timestamp() -> int {
    -8334601228800
}

/// The last UNIX timestamp `chrono` can represent: December 31 of the year
/// 262142, 23:59:59 (`NaiveDate::MAX`).
pub open spec fn max_timestamp() -> int {
    8210266876799
}

/// `chrono` can represent the datetime of timestamp `t`.
pub open spec fn representable(t: int) -> bool {
    min_timestamp() <= t <= max_timestamp()
}

/// The timestamp `start` moved by `seconds` seconds, where `chrono` can
/// represent both the start and the result.
pub open spec fn spec_shift(start: i64, seconds: int) -> Option<i64> {
    if representable(start as int) && representable(start + seconds) {
        Some((start + seconds) as i64)
    } else {
        None
    }
}

/// What `chrono` gives for the timestamp `start` moved forward by `days` days.
pub open spec fn spec_add_days(start: i64, days: i64) -> Option<i64> {
    spec_shift(start, days * 86400)
}

/// What `chrono` gives for the timestamp `start` moved back by `minutes`
/// minutes.
pub open spec fn spec_sub_minutes(start: i64, minutes: i64) -> Option<i64> {
    spec_shift(start, -(minutes * 60))
}

/// Calls `chrono::NaiveDateTime::parse_from_str(s, fmt)`, reads the result as a
/// UTC datetime and returns its UNIX timestamp (`DateTime::timestamp`), or
/// `None` where parsing fails.
///
/// The contract only names the result: which strings parse, and to what, is
/// `chrono`'s parser and is not restated here.
#[verifier::external_body]
pub(crate) fn parse_timestamp(s: &str, fmt: &str) -> (r: Option<i64>)
    ensures
        r == spec_parse_timestamp(s@, fmt@),
{
    match NaiveDateTime::parse_from_str(s, fmt) {
        Ok(t) => Some(t.and_utc().timestamp()),
        Err(_) => None,
    }
}

/// Calls `chrono::DateTime::<Utc>::from_timestamp(start, 0)`,
/// `TimeDelta::try_days(days)` and `DateTime::checked_add_signed`, and returns
/// the timestamp of the sum.
///
/// The contract claims what `chrono`'s source shows: `from_timestamp` fails
/// exactly outside `NaiveDate::MIN ..= NaiveDate::MAX`, `try_days` gives a
/// duration of `days * 86400` seconds (failing only beyond `i64::MAX / 1000`
/// seconds, which no two representable timestamps are apart), and
/// `checked_add_signed` adds it, failing exactly where the result leaves the
/// representable range. So the result is `start + days * 86400` where both
/// the start and that sum are representable, and `None` otherwise.
#[verifier::external_body]
pub(crate) fn add_days(start: i64, days: i64) -> (r: Option<i64>)
    ensures
        r == spec_add_days(start, days),
{
    match (DateTime::<Utc>::from_timestamp(start, 0), TimeDelta::try_days(days)) {
        (Some(t), Some(d)) => match t.checked_add_signed(d) {
            Some(end) => Some(end.timestamp()),
            None => None,
        },
        _ => None,
    }
}

/// Calls `chrono::DateTime::<Utc>::from_timestamp(start, 0)`,
/// `TimeDelta::try_minutes(minutes)` and `DateTime::checked_sub_signed`, and
/// returns the timestamp of the difference.
///
/// The contract claims what `chrono`'s source shows, as for `add_days`: the
/// result is `start - minutes * 60` where both the start and that difference
/// are representable, and `None` otherwise.
#[verifier::external_body]
pub(crate) fn sub_minutes(start: i64, minutes: i64) -> (r: Option<i64>)
    ensures
        r == spec_sub_minutes(start, minutes),
{
    match (DateTime::<Utc>::from_timestamp(start, 0), TimeDelta::try_minutes(minutes)) {
        (Some(t), Some(d)) => match t.checked_sub_signed(d) {
            Some(earlier) => Some(earlier.timestamp()),
            None => None,
        },
        _ => None,
    }
}

/// The exclusive end of the holding window of a trade that starts at `start`
/// and may be held `max_holding_days` days: one day more than the holding
/// period, as `chrono` computes it; `None` where the number of days overflows
/// or the start or the end cannot be represented.
pub open spec fn spec_holding_end(start: i64, max_holding_days: i64) -> Option<i64> {
    if max_holding_days < i64::MAX {
        spec_add_days(start, (max_holding_days + 1) as i64)
    } else {
        None
    }
}

/// The exclusive end of the holding window, or `None` where it cannot be
/// represented.
pub fn holding_end(start: i64, max_holding_days: i64) -> (r: Option<i64>)
    ensures
        r == spec_holding_end(start, max_holding_days),
        r matches Some(end) ==> end == start + (max_holding_days + 1) * 86400,
{
    if max_holding_days < i64::MAX {
        add_days(start, max_holding_days + 1)
    } else {
        None
    }
}

} // verus!
