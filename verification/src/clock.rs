//! Calendar readings of Unix timestamps, taken from chrono.
use chrono::{Datelike, Timelike};
use vstd::prelude::*;

verus! {

/// Month, day of month, hour and minute of an instant on some clock.
#[derive(Clone, Copy, Debug, PartialEq, Eq, Structural)]
pub struct ClockFields {
    pub month: u32,
    pub day: u32,
    pub hour: u32,
    pub minute: u32,
}

/// A reading whose fields lie in their calendar ranges.
pub open spec fn fields_in_range(f: ClockFields) -> bool {
    &&& 1 <= f.month <= 12
    &&& 1 <= f.day <= 31
    &&& f.hour < 24
    &&& f.minute < 60
}

/// `r` is a reading of the instant `ts` (seconds since the epoch) on the
/// machine's local clock, `None` standing for an instant chrono has no date for.
/// Which reading that is depends on the machine's time zone, so nothing more is
/// said of it: not even that two readings of one instant agree.
pub uninterp spec fn local_reading_of(ts: i64, r: Option<ClockFields>) -> bool;

/// Reads `ts` (seconds since the epoch) on the machine's local clock through
/// `chrono::DateTime::from_timestamp(ts, 0)` and `with_timezone(&chrono::Local)`.
/// The result is a reading of `ts`: `None` when chrono has no date for `ts`,
/// which is never the case for the epoch itself. What the fields are depends on
/// the machine's time zone, so nothing more is claimed of them than chrono's
/// documented ranges for `month`, `day`, `hour` and `minute`. When no zone data
/// is found chrono reads the clock in UTC; it panics when the zone data it finds
/// is malformed, which depends on the machine, not on `ts`, and no clause here
/// rules it out.
#[verifier::external_body]
pub(crate) fn local_fields(ts: i64) -> (r: Option<ClockFields>)
    ensures
        local_reading_of(ts, r),
        r matches Some(f) ==> fields_in_range(f),
        ts == 0 ==> r is Some,
{
    match chrono::DateTime::from_timestamp(ts, 0) {
        Some(utc) => {
            let d = utc.with_timezone(&chrono::Local);
            Some(ClockFields { month: d.month(), day: d.day(), hour: d.hour(), minute: d.minute() })
        },
        None => None,
    }
}

/// What chrono renders for `ts` seconds since the epoch in UTC with the pattern
/// `%Y-%m-%d %H:%M:%S`, or `None` where chrono has no date for `ts`.
pub uninterp spec fn utc_datetime_text(ts: i64) -> Option<Seq<char>>;

/// Renders `ts` in UTC through `chrono::DateTime::from_timestamp(ts, 0)` and
/// `format("%Y-%m-%d %H:%M:%S")`. The result is a function of `ts` alone and is
/// named, not spelled out: the calendar arithmetic is chrono's. The epoch
/// itself always has a date.
#[verifier::external_body]
pub(crate) fn utc_text(ts: i64) -> (r: Option<String>)
    ensures
        (match r {
            Some(s) => Some(s@),
            None => None,
        }) == utc_datetime_text(ts),
        ts == 0 ==> r is Some,
{
    match chrono::DateTime::from_timestamp(ts, 0) {
        Some(d) => Some(d.format("%Y-%m-%d %H:%M:%S").to_string()),
        None => None,
    }
}

} // verus!
