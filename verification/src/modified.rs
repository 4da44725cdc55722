//! The date and time of a file's last modification, in local time.

use crate::datetime::DateTime;
use vstd::prelude::*;

verus! {

/// A moment in local time as the calendar gives it, before it is narrowed to
/// a `DateTime`.
#[derive(Clone, Copy, Debug, PartialEq, Eq, Structural)]
pub struct LocalFields {
    pub year: i32,
    pub month: u32,
    pub day: u32,
    pub hour: u32,
    pub minute: u32,
    pub second: u32,
}

/// The fields are those of a date and time of day: a month from 1 to 12, a
/// day from 1 to 31, an hour up to 23, a minute and a second up to 59.
pub open spec fn in_calendar_ranges(f: LocalFields) -> bool {
    &&& 1 <= f.month <= 12
    &&& 1 <= f.day <= 31
    &&& f.hour <= 23
    &&& f.minute <= 59
    &&& f.second <= 59
}

/// Every field fits its place in a `DateTime`.
pub open spec fn fits(f: LocalFields) -> bool {
    &&& f.year >= 0
    &&& f.month <= u8::MAX
    &&& f.day <= u8::MAX
    &&& f.hour <= u8::MAX
    &&& f.minute <= u8::MAX
    &&& f.second <= u8::MAX
}

/// The fields as a `DateTime`.
pub open spec fn narrowed(f: LocalFields) -> DateTime
    recommends
        fits(f),
{
    DateTime {
        year: f.year as u32,
        month: f.month as u8,
        day: f.day as u8,
        hour: f.hour as u8,
        minute: f.minute as u8,
        second: f.second as u8,
    }
}

/// The seconds lie between the second day of the year 0 and one day before
/// the end of 9999, both in UTC.
///
/// A local time is less than a day away from UTC, so at every offset such a
/// moment falls in a year from 0 to 9999.
pub open spec fn ordinary_seconds(secs: i64) -> bool {
    -62_167_132_800 <= secs <= 253_402_214_399
}

/// The seconds are ordinary and the nanoseconds are less than a second.
pub open spec fn ordinary_timestamp(secs: i64, nanos: u32) -> bool {
    ordinary_seconds(secs) && nanos < 1_000_000_000
}

/// A number of seconds that a local time can be ahead of UTC or behind it:
/// less than a day either way.
pub open spec fn is_offset(offset: int) -> bool {
    -86_400 < offset < 86_400
}

/// The calendar fields of the moment `secs` seconds after the start of 1970
/// in UTC, read `offset` seconds ahead of UTC; `None` where the calendar does
/// not reach the moment or `offset` is a day or more.
pub uninterp spec fn fixed_fields(secs: int, offset: int) -> Option<LocalFields>;

/// `chrono::DateTime::from_timestamp`, `with_timezone` to `chrono::Local`
/// and `FixedOffset::local_minus_utc`: the seconds by which the machine's
/// local time is ahead of UTC at the moment `secs` seconds and `nanos`
/// nanoseconds after the start of 1970; `None` where chrono cannot hold that
/// moment. The time zone is the machine's, so the contract states only what
/// holds of every offset that chrono holds, that it is less than a day, and
/// that an ordinary timestamp has one: `from_timestamp` refuses only seconds
/// out of its range and invalid nanoseconds.
#[verifier::external_body]
fn local_offset(secs: i64, nanos: u32) -> (r: Option<i32>)
    ensures
        match r {
            Some(offset) => is_offset(offset as int),
            None => !ordinary_timestamp(secs, nanos),
        },
{
    let local = chrono::DateTime::from_timestamp(secs, nanos)?.with_timezone(&chrono::Local);
    Some(local.offset().local_minus_utc())
}

/// `chrono::FixedOffset::east_opt`, `chrono::DateTime::from_timestamp`,
/// `with_timezone`, and the accessors of `Datelike` and `Timelike`: the
/// calendar fields of the moment `secs` seconds after the start of 1970 in
/// UTC, read `offset` seconds ahead of UTC. The contract gives them the name
/// `fixed_fields`, and states the ranges that chrono documents for each
/// accessor, and that ordinary seconds at an offset of less than a day have
/// fields, in a year from 0 to 9999.
#[verifier::external_body]
fn fields_at(secs: i64, offset: i32) -> (r: Option<LocalFields>)
    ensures
        r == fixed_fields(secs as int, offset as int),
        match r {
            Some(f) => in_calendar_ranges(f) && (ordinary_seconds(secs) ==> 0 <= f.year <= 9999),
            None => !(ordinary_seconds(secs) && is_offset(offset as int)),
        },
{
    let zone = chrono::FixedOffset::east_opt(offset)?;
    let local = chrono::DateTime::from_timestamp(secs, 0)?.with_timezone(&zone);
    Some(
        LocalFields {
            year: chrono::Datelike::year(&local),
            month: chrono::Datelike::month(&local),
            day: chrono::Datelike::day(&local),
            hour: chrono::Timelike::hour(&local),
            minute: chrono::Timelike::minute(&local),
            second: chrono::Timelike::second(&local),
        },
    )
}

/// The fields as a `DateTime`, where each of them fits.
pub open spec fn narrow_spec(f: LocalFields) -> Option<DateTime> {
    if fits(f) {
        Some(narrowed(f))
    } else {
        None
    }
}

/// Narrows calendar fields to a `DateTime`, where each of them fits.
pub fn datetime_from_local(f: LocalFields) -> (r: Option<DateTime>)
    ensures
        r == narrow_spec(f),
{
    if f.year >= 0 && f.month <= 255 && f.day <= 255 && f.hour <= 255 && f.minute <= 255
        && f.second <= 255 {
        Some(
            DateTime {
                year: f.year as u32,
                month: f.month as u8,
                day: f.day as u8,
                hour: f.hour as u8,
                minute: f.minute as u8,
                second: f.second as u8,
            },
        )
    } else {
        None
    }
}

/// What holds of a date and time taken from a modification time, whatever the
/// time zone: where there is one, its fields are in the calendar's ranges.
pub open spec fn plausible(r: Option<DateTime>) -> bool {
    r matches Some(dt) ==> {
        &&& 1 <= dt.month <= 12
        &&& 1 <= dt.day <= 31
        &&& dt.hour <= 23
        &&& dt.minute <= 59
        &&& dt.second <= 59
    }
}

/// The date and time of the moment `secs` seconds after the start of 1970
/// in UTC, read `offset` seconds ahead of UTC, where there is one and its
/// fields fit.
pub open spec fn at_offset_spec(secs: int, offset: int) -> Option<DateTime> {
    match fixed_fields(secs, offset) {
        Some(f) => narrow_spec(f),
        None => None,
    }
}

/// `r` is the date and time of the moment `secs`, read at some offset from
/// UTC of less than a day.
pub open spec fn local_reading(secs: int, r: Option<DateTime>) -> bool {
    exists|offset: int| is_offset(offset) && r == #[trigger] at_offset_spec(secs, offset)
}

/// The date and time of the moment `secs` seconds after the start of 1970 in
/// UTC, read `offset` seconds ahead of UTC.
///
/// `None` where the calendar does not reach the moment, the offset is a day
/// or more, or the year read is negative. Ordinary seconds at an offset of
/// less than a day always have a date, in a year up to 9999.
pub fn datetime_at_offset(secs: i64, offset: i32) -> (r: Option<DateTime>)
    ensures
        r == at_offset_spec(secs as int, offset as int),
        plausible(r),
        ordinary_seconds(secs) && is_offset(offset as int) ==> (r matches Some(dt) && dt.year
            <= 9999),
{
    match fields_at(secs, offset) {
        Some(f) => datetime_from_local(f),
        None => None,
    }
}

/// The local date and time of a modification time, given as seconds and
/// nanoseconds since the start of 1970 in UTC.
///
/// The date is that of the whole seconds, read at the offset from UTC that
/// the machine's time zone has at that moment; the nanoseconds do not enter
/// it. An ordinary timestamp always has a date. Any other has one unless the
/// moment is outside the calendar's reach, the nanoseconds are invalid or
/// the local year is negative.
pub fn mtime_datetime(secs: i64, nanos: u32) -> (r: Option<DateTime>)
    ensures
        plausible(r),
        ordinary_timestamp(secs, nanos) ==> (r matches Some(dt) && dt.year <= 9999),
        r is Some ==> local_reading(secs as int, r),
{
    match local_offset(secs, nanos) {
        Some(offset) => {
            let r = datetime_at_offset(secs, offset);
            assert(r == at_offset_spec(secs as int, offset as int));
            r
        },
        None => None,
    }
}

/// Calendar fields of a year that is not negative always fit a `DateTime`,
/// field by field.
pub proof fn lemma_calendar_fields_fit(f: LocalFields)
    requires
        in_calendar_ranges(f),
        f.year >= 0,
    ensures
        narrow_spec(f) == Some(narrowed(f)),
        narrowed(f).year == f.year,
        narrowed(f).month == f.month,
        narrowed(f).day == f.day,
        narrowed(f).hour == f.hour,
        narrowed(f).minute == f.minute,
        narrowed(f).second == f.second,
{
}

/// The sign of a span of time that lies before or after the start of 1970.
pub open spec fn direction(before_epoch: bool) -> int {
    if before_epoch {
        -1
    } else {
        1
    }
}

/// A span of `secs` seconds and `nanos` nanoseconds, before or after the
/// start of 1970, as a timestamp: whole seconds, which are negative before
/// 1970, and nanoseconds that count forward from them.
///
/// `None` where the seconds do not fit or the nanoseconds make up a second
/// or more.
pub fn unix_timestamp(before_epoch: bool, secs: u64, nanos: u32) -> (r: Option<(i64, u32)>)
    ensures
        r is Some <==> secs <= i64::MAX && nanos < 1_000_000_000,
        r matches Some((s, n)) ==> n < 1_000_000_000 && s * 1_000_000_000 + n == direction(
            before_epoch,
        ) * (secs * 1_000_000_000 + nanos),
{
    if secs > 0x7fff_ffff_ffff_ffff || nanos >= 1_000_000_000 {
        return None;
    }
    let whole: i64 = secs as i64;
    if !before_epoch {
        Some((whole, nanos))
    } else if nanos == 0 {
        Some((-whole, 0))
    } else {
        Some((-whole - 1, 1_000_000_000 - nanos))
    }
}

} // verus!
