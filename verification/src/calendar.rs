//! Calendar arithmetic and the system's time zone, both taken from `chrono`.

use chrono::{Local, Offset, TimeZone, Utc};
use vstd::prelude::*;

verus! {

/// Milliseconds from 1970-01-01T00:00:00Z to the given wall-clock time read as
/// UTC in the proleptic Gregorian calendar, as `chrono` computes them; `None`
/// where the fields name no date and time that `chrono` accepts.
pub uninterp spec fn utc_instant_millis(
    year: int,
    month: int,
    day: int,
    hour: int,
    minute: int,
    second: int,
) -> Option<int>;

/// `TimeZone::with_ymd_and_hms` on `Utc`, then `timestamp_millis` of the
/// single instant it yields. Invalid fields give `None`.
#[verifier::external_body]
pub(crate) fn utc_millis(year: i32, month: u32, day: u32, hour: u32, minute: u32, second: u32) -> (r:
    Option<i64>)
    ensures
        match r {
            Some(ms) => utc_instant_millis(
                year as int,
                month as int,
                day as int,
                hour as int,
                minute as int,
                second as int,
            ) == Some(ms as int),
            None => utc_instant_millis(
                year as int,
                month as int,
                day as int,
                hour as int,
                minute as int,
                second as int,
            ) is None,
        },
{
    Utc.with_ymd_and_hms(year, month, day, hour, minute, second).single().map(|t| t.timestamp_millis())
}

/// The offset of the system's local time from UTC at this moment, in seconds
/// east of Greenwich: `Local::now().offset()` as a `FixedOffset`, which
/// `chrono` keeps strictly within a day either way. The value depends on the
/// machine and the moment, so nothing else is said of it.
#[verifier::external_body]
pub(crate) fn system_utc_offset_seconds() -> (seconds: i32)
    ensures
        -86_400 < seconds < 86_400,
{
    Local::now().offset().fix().local_minus_utc()
}

} // verus!
