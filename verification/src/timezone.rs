//! Conversion of UTC instants to Eastern Time with daylight-saving
//! awareness.
//!
//! The daylight-saving interval of a year runs from the second Sunday of
//! March at 07:00 UTC up to, but not including, the first Sunday of November
//! at 06:00 UTC.  The two boundary hours differ because each corresponds to
//! 02:00 local time under the offset in effect just before the transition:
//! standard time (UTC-5) in spring, daylight time (UTC-4) in fall.

use vstd::arithmetic::div_mod::{lemma_fundamental_div_mod, lemma_mod_bound};
use vstd::prelude::*;

use chrono::Datelike;
use chrono::Timelike;

use crate::calendar::{
    civil_from_days, day_number_of_date, days_from_civil, find_nth_weekday_in_month,
    is_nth_weekday, lemma_fixed_table_searches_succeed, lemma_nth_weekday_unique, nth_weekday_day,
    valid_date, weekday_from_days, weekday_of_civil, Weekday,
};
use crate::errors::StockMarketError;

verus! {

/// Smallest timestamp whose calendar date the conversion can represent.
pub const MIN_TIMESTAMP: i64 = -8334601228800;

/// Largest timestamp whose calendar date the conversion can represent.
pub const MAX_TIMESTAMP: i64 = 8210266876799;

/// The timestamp maps to a single valid calendar moment.
pub open spec fn representable_timestamp(ts: int) -> bool {
    MIN_TIMESTAMP <= ts <= MAX_TIMESTAMP
}

/// Calendar fields of one instant: a civil date, a time of day, and a
/// weekday, all under one fixed offset from UTC.
#[derive(Clone, Copy, Debug, PartialEq, Eq, Structural)]
pub struct CivilDateTime {
    /// Calendar year.
    pub year: i32,
    /// Calendar month, 1 through 12.
    pub month: u32,
    /// Day of the month, starting at 1.
    pub day: u32,
    /// Hour of the day, 0 through 23.
    pub hour: u32,
    /// Minute of the hour, 0 through 59.
    pub minute: u32,
    /// Weekday index, Monday = 0 through Sunday = 6.
    pub weekday: u32,
}

/// The fields of `c` are the calendar reading of the instant `ts`: the
/// Euclidean split of `ts` into a day number and seconds of day, the day
/// number read as a civil date, and the weekday of that day number.
pub open spec fn civil_matches_timestamp(c: CivilDateTime, ts: int) -> bool {
    let z = ts / 86400;
    let sod = ts % 86400;
    &&& (c.year as int, c.month as int, c.day as int) == civil_from_days(z)
    &&& valid_date(c.year as int, c.month as int, c.day as int)
    &&& days_from_civil(c.year as int, c.month as int, c.day as int) == z
    &&& -262143 <= c.year <= 262142
    &&& c.hour == sod / 3600
    &&& c.minute == (sod % 3600) / 60
    &&& c.weekday == weekday_from_days(z)
}

/// Relies on chrono's `DateTime::<Utc>::from_timestamp` together with its
/// `Datelike`, `Timelike` and `Weekday` accessors: the timestamp is split by
/// Euclidean division into a day number since the epoch and seconds of the
/// day, the day number is read as a proleptic Gregorian date, conversion
/// succeeds exactly for the years chrono represents, and
/// `num_days_from_monday` counts the weekday from Monday = 0.
#[verifier::external_body]
fn civil_of_timestamp(ts: i64) -> (r: Option<CivilDateTime>)
    ensures
        (r is Some) == representable_timestamp(ts as int),
        r matches Some(c) ==> civil_matches_timestamp(c, ts as int),
{
    chrono::DateTime::from_timestamp(ts, 0).map(
        |dt|
            CivilDateTime {
                year: dt.year(),
                month: dt.month(),
                day: dt.day(),
                hour: dt.hour(),
                minute: dt.minute(),
                weekday: dt.weekday().num_days_from_monday(),
            },
    )
}

/// Calendar year of an instant, read in UTC.
pub open spec fn utc_year_of(ts: int) -> int {
    civil_from_days(ts / 86400).0
}

/// First instant of the daylight-saving interval of year `y`: the second
/// Sunday of March at 07:00 UTC.
pub open spec fn dst_start_instant(y: int) -> int {
    days_from_civil(y, 3, nth_weekday_day(y, 3, Weekday::Sun.as_index(), 2)) * 86400 + 7 * 3600
}

/// First instant after the daylight-saving interval of year `y`: the first
/// Sunday of November at 06:00 UTC.
pub open spec fn dst_end_instant(y: int) -> int {
    days_from_civil(y, 11, nth_weekday_day(y, 11, Weekday::Sun.as_index(), 1)) * 86400 + 6 * 3600
}

/// The instant falls inside the daylight-saving interval of its own UTC
/// calendar year.
pub open spec fn is_dst_at(ts: int) -> bool {
    dst_start_instant(utc_year_of(ts)) <= ts && ts < dst_end_instant(utc_year_of(ts))
}

/// Offset from UTC in effect at the instant, in seconds: UTC-4 during
/// daylight saving, UTC-5 otherwise.
pub open spec fn utc_offset_seconds_at(ts: int) -> int {
    if is_dst_at(ts) {
        -14400
    } else {
        -18000
    }
}

/// Day number of the local calendar date of the instant.
pub open spec fn local_day_number(ts: int) -> int {
    (ts + utc_offset_seconds_at(ts)) / 86400
}

/// Seconds since local midnight at the instant.
pub open spec fn local_seconds_of_day(ts: int) -> int {
    (ts + utc_offset_seconds_at(ts)) % 86400
}

/// Local civil date (year, month, day) of the instant.
pub open spec fn local_date_at(ts: int) -> (int, int, int) {
    civil_from_days(local_day_number(ts))
}

/// Local weekday index of the instant.
pub open spec fn local_weekday_at(ts: int) -> int {
    weekday_from_days(local_day_number(ts))
}

/// Local hour of the day of the instant.
pub open spec fn local_hour_at(ts: int) -> int {
    local_seconds_of_day(ts) / 3600
}

/// Local minute of the hour of the instant.
pub open spec fn local_minute_at(ts: int) -> int {
    (local_seconds_of_day(ts) % 3600) / 60
}

/// Both the instant and its local reading have representable calendar
/// dates, so the conversion to local time succeeds.
pub open spec fn convertible_timestamp(ts: int) -> bool {
    representable_timestamp(ts) && representable_timestamp(ts + utc_offset_seconds_at(ts))
}

/// Whether the instant falls in the daylight-saving interval of its year:
/// from the second Sunday of March at 07:00 UTC up to, but not including,
/// the first Sunday of November at 06:00 UTC.
pub fn is_daylight_saving_time(time_stamp: i64) -> (dst: bool)
    requires
        representable_timestamp(time_stamp as int),
    ensures
        dst == is_dst_at(time_stamp as int),
{
    let c = civil_of_timestamp(time_stamp).unwrap();
    let year = c.year;
    proof {
        lemma_fixed_table_searches_succeed(year as int, 3, 6, 2);
        lemma_fixed_table_searches_succeed(year as int, 11, 6, 1);
    }
    let start_day = match find_nth_weekday_in_month(year, 3, Weekday::Sun, 2) {
        Ok(d) => d,
        Err(_) => 0,  // never taken: the sought Sunday exists in every year
    };
    let end_day = match find_nth_weekday_in_month(year, 11, Weekday::Sun, 1) {
        Ok(d) => d,
        Err(_) => 0,  // never taken: the sought Sunday exists in every year
    };
    proof {
        let sd = nth_weekday_day(year as int, 3, 6, 2);
        assert(is_nth_weekday(year as int, 3, 6, 2, sd));
        lemma_nth_weekday_unique(year as int, 3, 6, 2, sd, start_day as int);
        let ed = nth_weekday_day(year as int, 11, 6, 1);
        assert(is_nth_weekday(year as int, 11, 6, 1, ed));
        lemma_nth_weekday_unique(year as int, 11, 6, 1, ed, end_day as int);
    }
    let dst_start_utc: i64 = day_number_of_date(year, 3, start_day) * 86400 + 7 * 3600;
    let dst_end_utc: i64 = day_number_of_date(year, 11, end_day) * 86400 + 6 * 3600;
    time_stamp >= dst_start_utc && time_stamp < dst_end_utc
}

/// A local Eastern Time calendar reading of one instant: date, time of day,
/// weekday, and the fixed offset that produced it.
#[derive(Clone, Copy, Debug, PartialEq, Eq, Structural)]
pub struct LocalDateTime {
    /// Local calendar year.
    pub year: i32,
    /// Local calendar month, 1 through 12.
    pub month: u32,
    /// Local day of the month, starting at 1.
    pub day: u32,
    /// Local hour of the day, 0 through 23.
    pub hour: u32,
    /// Local minute of the hour, 0 through 59.
    pub minute: u32,
    /// Local weekday.
    pub weekday: Weekday,
    /// Offset from UTC in whole hours: -4 (daylight) or -5 (standard).
    pub offset_hours: i32,
}

impl LocalDateTime {
    /// The fields form a valid date and time, and agree with one another:
    /// the weekday is the weekday of the date, and the offset is one of the
    /// two Eastern Time offsets.
    pub open spec fn wf(self) -> bool {
        &&& valid_date(self.year as int, self.month as int, self.day as int)
        &&& -262143 <= self.year <= 262142
        &&& self.hour < 24
        &&& self.minute < 60
        &&& self.weekday.as_index() == weekday_of_civil(
            self.year as int,
            self.month as int,
            self.day as int,
        )
        &&& (self.offset_hours == -4 || self.offset_hours == -5)
    }
}

/// The fields of `l` are the local Eastern Time reading of the instant `ts`.
pub open spec fn local_datetime_matches(l: LocalDateTime, ts: int) -> bool {
    &&& (l.year as int, l.month as int, l.day as int) == local_date_at(ts)
    &&& l.hour == local_hour_at(ts)
    &&& l.minute == local_minute_at(ts)
    &&& l.weekday.as_index() == local_weekday_at(ts)
    &&& l.offset_hours == if is_dst_at(ts) {
        -4int
    } else {
        -5int
    }
}

/// Local Eastern Time reading of a UTC instant, under the offset selected
/// by the daylight-saving rule.  Fails with the conversion error exactly
/// when the instant, or its local reading, has no representable date.
pub fn convert_utc_to_et(time_stamp: i64) -> (r: Result<LocalDateTime, StockMarketError>)
    ensures
        (r is Ok) == convertible_timestamp(time_stamp as int),
        r matches Ok(l) ==> l.wf() && local_datetime_matches(l, time_stamp as int),
        r matches Err(e) ==> e == StockMarketError::ConvertUTCError,
{
    if !(time_stamp >= MIN_TIMESTAMP && time_stamp <= MAX_TIMESTAMP) {
        return Err(StockMarketError::ConvertUTCError);
    }
    let dst = is_daylight_saving_time(time_stamp);
    let offset_seconds: i64 = if dst {
        -14400
    } else {
        -18000
    };
    let local_ts: i64 = time_stamp + offset_seconds;
    let c = match civil_of_timestamp(local_ts) {
        Some(c) => c,
        None => {
            return Err(StockMarketError::ConvertUTCError);
        },
    };
    proof {
        lemma_mod_bound(local_ts as int, 86400);
        lemma_fundamental_div_mod(local_ts as int % 86400, 3600);
        lemma_mod_bound(local_ts as int % 86400, 3600);
        lemma_mod_bound(local_ts as int % 86400 % 3600, 60);
    }
    Ok(
        LocalDateTime {
            year: c.year,
            month: c.month,
            day: c.day,
            hour: c.hour,
            minute: c.minute,
            weekday: Weekday::from_index(c.weekday),
            offset_hours: if dst {
                -4
            } else {
                -5
            },
        },
    )
}

/// The offset in effect switches exactly at the two computed boundaries of
/// the instant's own UTC calendar year: every instant before the spring
/// boundary, including the final second before it, uses standard time
/// (UTC-5); every instant from the spring boundary up to, but not
/// including, the fall boundary uses daylight time (UTC-4); and every
/// instant from the fall boundary on reverts to standard time (UTC-5).
pub proof fn lemma_dst_boundary_offsets(ts: int)
    ensures
        ts < dst_start_instant(utc_year_of(ts)) ==> utc_offset_seconds_at(ts) == -18000,
        dst_start_instant(utc_year_of(ts)) <= ts < dst_end_instant(utc_year_of(ts))
            ==> utc_offset_seconds_at(ts) == -14400,
        dst_end_instant(utc_year_of(ts)) <= ts ==> utc_offset_seconds_at(ts) == -18000,
{
}

} // verus!
