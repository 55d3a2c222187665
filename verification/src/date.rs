//! The "what is today" query: a captured reference timestamp shifted by a
//! whole-hour UTC offset, reduced to its calendar date. Out-of-range offsets
//! are a soft failure, answered with "unavailable" rather than an abort.

use vstd::prelude::*;

verus! {

/// Earliest unix timestamp of the representable calendar range (midnight of
/// the earliest representable date, UTC).
pub const MIN_TIMESTAMP: i64 = -377705116800;

/// Latest unix timestamp of the representable calendar range (last second of
/// the latest representable date, UTC).
pub const MAX_TIMESTAMP: i64 = 253402300799;

/// Offset, in hours east of UTC, applied when a query supplies none.
pub const DEFAULT_OFFSET_HOURS: i64 = -6;

/// The calendar date (year, month, day) of a unix timestamp, in UTC.
pub uninterp spec fn civil_date_of(ts: int) -> (i32, u8, u8);

/// A calendar date.
#[derive(Clone, Copy, PartialEq, Eq, Structural, Debug)]
pub struct Date {
    /// Calendar year.
    pub year: i32,
    /// Month of the year, starting at 1.
    pub month: u8,
    /// Day of the month, starting at 1.
    pub day: u8,
}

/// Whole-hour offsets the calendar computation accepts.
pub open spec fn representable_offset(hours: int) -> bool {
    -25 <= hours <= 25
}

/// Timestamps far enough inside the calendar range that shifting by any
/// representable offset keeps them inside it.
pub open spec fn shiftable_timestamp(ts: int) -> bool {
    MIN_TIMESTAMP + 90000 <= ts <= MAX_TIMESTAMP - 90000
}

/// The hour offset a query asks for: the supplied one, or the default.
pub open spec fn requested_offset(offset: Option<i64>) -> int {
    match offset {
        Some(h) => h as int,
        None => DEFAULT_OFFSET_HOURS as int,
    }
}

/// Relies on `time::OffsetDateTime::from_unix_timestamp`, which succeeds
/// exactly on timestamps within the representable calendar range, and on its
/// `year`, `month` and `day` accessors; the resulting calendar date depends
/// on the timestamp alone.
#[verifier::external_body]
fn utc_calendar_date(ts: i64) -> (r: Option<(i32, u8, u8)>)
    ensures
        r is Some <==> MIN_TIMESTAMP <= ts <= MAX_TIMESTAMP,
        r matches Some(d) ==> d == civil_date_of(ts as int),
        r matches Some(d) ==> 1 <= d.1 <= 12 && 1 <= d.2 <= 31,
{
    match time::OffsetDateTime::from_unix_timestamp(ts) {
        Ok(dt) => Some((dt.year(), dt.month() as u8, dt.day())),
        Err(_) => None,
    }
}

/// The calendar date of `ts` shifted east of UTC by the requested whole-hour
/// offset; `None` exactly when the offset is outside the representable hour
/// range.
pub fn date_at_offset(ts: i64, offset: Option<i64>) -> (r: Option<Date>)
    requires
        shiftable_timestamp(ts as int),
    ensures
        match r {
            Some(d) => {
                &&& representable_offset(requested_offset(offset))
                &&& (d.year, d.month, d.day) == civil_date_of(
                    ts + requested_offset(offset) * 3600,
                )
                &&& 1 <= d.month <= 12 && 1 <= d.day <= 31
            },
            None => !representable_offset(requested_offset(offset)),
        },
{
    let hours: i64 = match offset {
        Some(h) => h,
        None => DEFAULT_OFFSET_HOURS,
    };
    if hours < -25 || hours > 25 {
        return None;
    }
    let shifted: i64 = ts + hours * 3600;
    match utc_calendar_date(shifted) {
        Some((y, m, d)) => Some(Date { year: y, month: m, day: d }),
        None => None,
    }
}

} // verus!
