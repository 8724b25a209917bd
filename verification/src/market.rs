//! The holiday calendar and the market-open decision.
//!
//! A local date is a market holiday when it matches a fixed date, a
//! floating nth- or last-weekday rule, or Good Friday, two days before the
//! Gregorian Easter Sunday of its year.  The market is open at an instant
//! when the local Eastern Time reading falls on a weekday inside the
//! trading window [09:30, 16:00) and the local date is no holiday.

use vstd::arithmetic::div_mod::{lemma_fundamental_div_mod, lemma_mod_bound};
use vstd::prelude::*;

use crate::calendar::{
    days_from_civil, find_last_weekday_in_month, find_nth_weekday_in_month, is_last_weekday,
    is_nth_weekday, lemma_fixed_table_searches_succeed, lemma_last_weekday_unique,
    lemma_nth_weekday_unique, valid_date, Weekday,
};
use crate::errors::StockMarketError;
use crate::timezone::{
    convert_utc_to_et, convertible_timestamp, local_date_at, local_hour_at, local_minute_at,
    local_weekday_at, LocalDateTime,
};

verus! {

/// Month and day of the Gregorian Easter Sunday of year `y`, by the
/// closed-form algorithm for the Gregorian calendar.
#[verifier::opaque]
pub open spec fn easter_of_year(y: int) -> (int, int) {
    let a = y % 19;
    let b = y / 100;
    let c = y % 100;
    let d = b / 4;
    let e = b % 4;
    let f = (b + 8) / 25;
    let g = (b - f + 1) / 3;
    let h = (19 * a + b - d - g + 15) % 30;
    let i = c / 4;
    let k = c % 4;
    let l = (32 + 2 * e + 2 * i - h - k) % 7;
    let m = (a + 11 * h + 22 * l) / 451;
    ((h + l - 7 * m + 114) / 31, (h + l - 7 * m + 114) % 31 + 1)
}

/// Month and day of Good Friday: two days before Easter Sunday.  Easter
/// falls between late March and late April, so stepping back two days only
/// ever crosses a month boundary from the start of April into 31-day March.
pub open spec fn good_friday_of_year(y: int) -> (int, int) {
    let em = easter_of_year(y).0;
    let ed = easter_of_year(y).1;
    if ed > 2 {
        (em, ed - 2)
    } else {
        (3, 29 + ed)
    }
}

/// The month/day pair is one of the four fixed-date holidays.
pub open spec fn is_fixed_holiday(m: int, d: int) -> bool {
    ||| (m == 1 && d == 1)  // New Year's Day
    ||| (m == 6 && d == 19)  // Juneteenth National Independence Day
    ||| (m == 7 && d == 4)  // Independence Day
    ||| (m == 12 && d == 25)  // Christmas

}

/// The date matches one of the five floating weekday rules.
pub open spec fn is_floating_holiday(y: int, m: int, d: int) -> bool {
    ||| (m == 1 && is_nth_weekday(y, 1, Weekday::Mon.as_index(), 3, d))  // Martin Luther King Jr. Day
    ||| (m == 2 && is_nth_weekday(y, 2, Weekday::Mon.as_index(), 3, d))  // Washington's Birthday
    ||| (m == 5 && is_last_weekday(y, 5, Weekday::Mon.as_index(), d))  // Memorial Day
    ||| (m == 9 && is_nth_weekday(y, 9, Weekday::Mon.as_index(), 1, d))  // Labor Day
    ||| (m == 11 && is_nth_weekday(y, 11, Weekday::Thu.as_index(), 4, d))  // Thanksgiving

}

/// The month/day pair is the Good Friday of year `y`.
pub open spec fn is_good_friday_date(y: int, m: int, d: int) -> bool {
    m == good_friday_of_year(y).0 && d == good_friday_of_year(y).1
}

/// The date is a market holiday under the fixed rule table.
pub open spec fn is_holiday_date(y: int, m: int, d: int) -> bool {
    is_fixed_holiday(m, d) || is_floating_holiday(y, m, d) || is_good_friday_date(y, m, d)
}

/// The weekday is Monday through Friday and the time of day lies in the
/// half-open trading window [09:30, 16:00).
pub open spec fn in_trading_window(w: int, h: int, mi: int) -> bool {
    &&& w != Weekday::Sat.as_index()
    &&& w != Weekday::Sun.as_index()
    &&& h > 9 || (h == 9 && mi >= 30)
    &&& h < 16
}

/// The market is open at the instant: the local reading falls on a weekday
/// inside the trading window and the local date is no holiday.
pub open spec fn market_open_at(ts: int) -> bool {
    &&& in_trading_window(local_weekday_at(ts), local_hour_at(ts), local_minute_at(ts))
    &&& !is_holiday_date(local_date_at(ts).0, local_date_at(ts).1, local_date_at(ts).2)
}

/// Month and day of the Gregorian Easter Sunday of the year.
pub fn calculate_easter(year: i32) -> (r: (u32, u32))
    ensures
        r.0 == easter_of_year(year as int).0,
        r.1 == easter_of_year(year as int).1,
        3 <= r.0 <= 4,
        1 <= r.1 <= 31,
{
    proof {
        reveal(easter_of_year);
    }
    let y: i64 = year as i64;
    let a: i64 = y.checked_rem_euclid(19).unwrap();
    let b: i64 = y.checked_div_euclid(100).unwrap();
    let c: i64 = y.checked_rem_euclid(100).unwrap();
    let d: i64 = b.checked_div_euclid(4).unwrap();
    let e: i64 = b.checked_rem_euclid(4).unwrap();
    let f: i64 = (b + 8).checked_div_euclid(25).unwrap();
    let g: i64 = (b - f + 1).checked_div_euclid(3).unwrap();
    proof {
        lemma_mod_bound(y as int, 19);
        lemma_mod_bound(y as int, 100);
        lemma_mod_bound(b as int, 4);
    }
    let h: i64 = (19 * a + b - d - g + 15).checked_rem_euclid(30).unwrap();
    let i: i64 = c.checked_div_euclid(4).unwrap();
    let k: i64 = c.checked_rem_euclid(4).unwrap();
    proof {
        lemma_mod_bound(19 * a + b - d - g + 15, 30);
        lemma_mod_bound(c as int, 4);
    }
    let l: i64 = (32 + 2 * e + 2 * i - h - k).checked_rem_euclid(7).unwrap();
    proof {
        lemma_mod_bound(32 + 2 * e + 2 * i - h - k, 7);
        lemma_fundamental_div_mod(a + 11 * h + 22 * l, 451);
        lemma_mod_bound(a + 11 * h + 22 * l, 451);
    }
    let m: i64 = (a + 11 * h + 22 * l).checked_div_euclid(451).unwrap();
    proof {
        lemma_fundamental_div_mod(h + l - 7 * m + 114, 31);
        lemma_mod_bound(h + l - 7 * m + 114, 31);
    }
    let month: i64 = (h + l - 7 * m + 114).checked_div_euclid(31).unwrap();
    let day: i64 = (h + l - 7 * m + 114).checked_rem_euclid(31).unwrap() + 1;
    (month as u32, day as u32)
}

/// Whether the local calendar date is a market holiday: one of the fixed
/// dates, a floating nth- or last-weekday rule, or Good Friday.  The fixed
/// rule table always has a matching day, so the defect branch of the
/// weekday searches is provably never taken.
pub fn is_holiday(datetime: LocalDateTime) -> (r: Result<bool, StockMarketError>)
    requires
        datetime.wf(),
    ensures
        r matches Ok(holiday) && holiday == is_holiday_date(
            datetime.year as int,
            datetime.month as int,
            datetime.day as int,
        ),
{
    let year = datetime.year;
    let month = datetime.month;
    let day = datetime.day;
    let weekday = datetime.weekday;
    if (month == 1 && day == 1) || (month == 6 && day == 19) || (month == 7 && day == 4) || (month
        == 12 && day == 25) {
        return Ok(true);
    }
    if month == 1 && weekday == Weekday::Mon {
        proof {
            lemma_fixed_table_searches_succeed(year as int, 1, 0, 3);
        }
        let hd = match find_nth_weekday_in_month(year, 1, Weekday::Mon, 3) {
            Ok(d) => d,
            Err(e) => {
                return Err(e);
            },
        };
        if day == hd {
            return Ok(true);
        }
        proof {
            if is_nth_weekday(year as int, 1, 0, 3, day as int) {
                lemma_nth_weekday_unique(year as int, 1, 0, 3, day as int, hd as int);
            }
        }
    }
    assert(!(month == 1 && is_nth_weekday(year as int, 1, 0, 3, day as int)));
    if month == 2 && weekday == Weekday::Mon {
        proof {
            lemma_fixed_table_searches_succeed(year as int, 2, 0, 3);
        }
        let hd = match find_nth_weekday_in_month(year, 2, Weekday::Mon, 3) {
            Ok(d) => d,
            Err(e) => {
                return Err(e);
            },
        };
        if day == hd {
            return Ok(true);
        }
        proof {
            if is_nth_weekday(year as int, 2, 0, 3, day as int) {
                lemma_nth_weekday_unique(year as int, 2, 0, 3, day as int, hd as int);
            }
        }
    }
    assert(!(month == 2 && is_nth_weekday(year as int, 2, 0, 3, day as int)));
    if month == 5 && weekday == Weekday::Mon {
        proof {
            lemma_fixed_table_searches_succeed(year as int, 5, 0, 1);
        }
        let hd = match find_last_weekday_in_month(year, 5, Weekday::Mon) {
            Ok(d) => d,
            Err(e) => {
                return Err(e);
            },
        };
        if day == hd {
            return Ok(true);
        }
        proof {
            if is_last_weekday(year as int, 5, 0, day as int) {
                lemma_last_weekday_unique(year as int, 5, 0, day as int, hd as int);
            }
        }
    }
    assert(!(month == 5 && is_last_weekday(year as int, 5, 0, day as int)));
    if month == 9 && weekday == Weekday::Mon {
        proof {
            lemma_fixed_table_searches_succeed(year as int, 9, 0, 1);
        }
        let hd = match find_nth_weekday_in_month(year, 9, Weekday::Mon, 1) {
            Ok(d) => d,
            Err(e) => {
                return Err(e);
            },
        };
        if day == hd {
            return Ok(true);
        }
        proof {
            if is_nth_weekday(year as int, 9, 0, 1, day as int) {
                lemma_nth_weekday_unique(year as int, 9, 0, 1, day as int, hd as int);
            }
        }
    }
    assert(!(month == 9 && is_nth_weekday(year as int, 9, 0, 1, day as int)));
    if month == 11 && weekday == Weekday::Thu {
        proof {
            lemma_fixed_table_searches_succeed(year as int, 11, 3, 4);
        }
        let hd = match find_nth_weekday_in_month(year, 11, Weekday::Thu, 4) {
            Ok(d) => d,
            Err(e) => {
                return Err(e);
            },
        };
        if day == hd {
            return Ok(true);
        }
        proof {
            if is_nth_weekday(year as int, 11, 3, 4, day as int) {
                lemma_nth_weekday_unique(year as int, 11, 3, 4, day as int, hd as int);
            }
        }
    }
    assert(!(month == 11 && is_nth_weekday(year as int, 11, 3, 4, day as int)));
    let easter = calculate_easter(year);
    let em = easter.0;
    let ed = easter.1;
    let gf = if ed > 2 {
        (em, ed - 2)
    } else {
        (3u32, 29 + ed)
    };
    if month == gf.0 && day == gf.1 {
        return Ok(true);
    }
    Ok(false)
}

/// Whether the local reading falls on a weekday (Monday through Friday)
/// with the time of day inside the trading window [09:30, 16:00).
pub fn is_weekday_and_time_between_9_30_and_16_et(datetime: LocalDateTime) -> (open_now: bool)
    ensures
        open_now == in_trading_window(
            datetime.weekday.as_index(),
            datetime.hour as int,
            datetime.minute as int,
        ),
{
    let weekday = datetime.weekday;
    let hour = datetime.hour;
    let minute = datetime.minute;
    let is_weekday = weekday != Weekday::Sun && weekday != Weekday::Sat;
    let is_after_start = hour > 9 || (hour == 9 && minute >= 30);
    let is_before_end = hour < 16;
    is_weekday && is_after_start && is_before_end
}

/// Whether the stock market is open at the UTC timestamp.  The instant is
/// converted to local Eastern Time; the market is open when that reading
/// lies inside the trading window on a weekday and its date is no holiday.
/// A timestamp with no valid calendar reading yields the conversion error.
pub fn is_market_open(time_stamp: i64) -> (r: Result<bool, StockMarketError>)
    ensures
        (r is Ok) == convertible_timestamp(time_stamp as int),
        r matches Ok(open_now) ==> open_now == market_open_at(time_stamp as int),
        r matches Err(e) ==> e == StockMarketError::ConvertUTCError,
{
    let local = match convert_utc_to_et(time_stamp) {
        Ok(l) => l,
        Err(e) => {
            return Err(e);
        },
    };
    let in_window = is_weekday_and_time_between_9_30_and_16_et(local);
    let holiday = match is_holiday(local) {
        Ok(h) => h,
        Err(e) => {
            return Err(e);
        },
    };
    Ok(in_window && !holiday)
}

/// At every instant whose local reading lies inside the trading window on
/// a working weekday and whose local date is no holiday, the market is
/// open.
pub proof fn lemma_open_on_working_day(ts: int)
    requires
        in_trading_window(local_weekday_at(ts), local_hour_at(ts), local_minute_at(ts)),
        !is_holiday_date(local_date_at(ts).0, local_date_at(ts).1, local_date_at(ts).2),
    ensures
        market_open_at(ts),
{
}

/// At every instant whose local time of day lies outside [09:30, 16:00)
/// the market is closed, regardless of weekday or holiday status.
pub proof fn lemma_closed_outside_window(ts: int)
    requires
        !(local_hour_at(ts) > 9 || (local_hour_at(ts) == 9 && local_minute_at(ts) >= 30))
            || local_hour_at(ts) >= 16,
    ensures
        !market_open_at(ts),
{
}

/// At every instant whose local weekday is Saturday or Sunday the market
/// is closed, regardless of the time of day.
pub proof fn lemma_closed_on_weekend(ts: int)
    requires
        local_weekday_at(ts) == Weekday::Sat.as_index() || local_weekday_at(ts)
            == Weekday::Sun.as_index(),
    ensures
        !market_open_at(ts),
{
}

/// At every instant whose local date the holiday rule table produces, the
/// market is closed, even when the time of day falls inside the trading
/// window.
pub proof fn lemma_closed_on_holiday(ts: int)
    requires
        is_holiday_date(local_date_at(ts).0, local_date_at(ts).1, local_date_at(ts).2),
    ensures
        !market_open_at(ts),
{
}

/// In every year, Easter Sunday is a valid date in late March or April,
/// and Good Friday is the valid date exactly two days before it.
pub proof fn lemma_good_friday_two_days_before_easter(y: int)
    ensures
        valid_date(y, easter_of_year(y).0, easter_of_year(y).1),
        valid_date(y, good_friday_of_year(y).0, good_friday_of_year(y).1),
        days_from_civil(y, good_friday_of_year(y).0, good_friday_of_year(y).1) == days_from_civil(
            y,
            easter_of_year(y).0,
            easter_of_year(y).1,
        ) - 2,
{
    reveal(easter_of_year);
    let a = y % 19;
    let h = (19 * a + y / 100 - (y / 100) / 4 - ((y / 100) - ((y / 100) + 8) / 25 + 1) / 3 + 15)
        % 30;
    let l = (32 + 2 * ((y / 100) % 4) + 2 * ((y % 100) / 4) - h - (y % 100) % 4) % 7;
    let m = (a + 11 * h + 22 * l) / 451;
    let s = h + l - 7 * m + 114;
    lemma_mod_bound(y as int, 19);
    lemma_mod_bound(19 * a + y / 100 - (y / 100) / 4 - ((y / 100) - ((y / 100) + 8) / 25 + 1) / 3
        + 15, 30);
    lemma_mod_bound(32 + 2 * ((y / 100) % 4) + 2 * ((y % 100) / 4) - h - (y % 100) % 4, 7);
    lemma_fundamental_div_mod(a + 11 * h + 22 * l, 451);
    lemma_mod_bound(a + 11 * h + 22 * l, 451);
    lemma_fundamental_div_mod(s, 31);
    lemma_mod_bound(s, 31);
    assert(0 <= m <= 1);
    assert(107 <= s <= 149);
    let em = easter_of_year(y).0;
    let ed = easter_of_year(y).1;
    assert(em == s / 31 && ed == s % 31 + 1);
    assert(3 <= em <= 4);
    assert(em == 3 ==> s <= 123 && ed == s - 92);
    assert(em == 4 ==> s >= 124 && ed == s - 123);
    reveal(days_from_civil);
}

/// Repeated evaluation at the same instant always yields the same result:
/// any two outcomes that `is_market_open` can return for one timestamp are
/// equal, since each is fixed by the timestamp alone.
pub proof fn lemma_market_open_deterministic(
    ts: int,
    r1: Result<bool, StockMarketError>,
    r2: Result<bool, StockMarketError>,
)
    requires
        (r1 is Ok) == convertible_timestamp(ts),
        r1 matches Ok(open_now) ==> open_now == market_open_at(ts),
        r1 matches Err(e) ==> e == StockMarketError::ConvertUTCError,
        (r2 is Ok) == convertible_timestamp(ts),
        r2 matches Ok(open_now) ==> open_now == market_open_at(ts),
        r2 matches Err(e) ==> e == StockMarketError::ConvertUTCError,
    ensures
        r1 == r2,
{
}

/// In every year, every date the rule table produces is a holiday: the
/// four fixed dates, each floating nth- or last-weekday rule, and Good
/// Friday.
pub proof fn lemma_rule_table_dates_are_holidays(y: int, d: int)
    ensures
        is_holiday_date(y, 1, 1),
        is_holiday_date(y, 6, 19),
        is_holiday_date(y, 7, 4),
        is_holiday_date(y, 12, 25),
        is_nth_weekday(y, 1, Weekday::Mon.as_index(), 3, d) ==> is_holiday_date(y, 1, d),
        is_nth_weekday(y, 2, Weekday::Mon.as_index(), 3, d) ==> is_holiday_date(y, 2, d),
        is_last_weekday(y, 5, Weekday::Mon.as_index(), d) ==> is_holiday_date(y, 5, d),
        is_nth_weekday(y, 9, Weekday::Mon.as_index(), 1, d) ==> is_holiday_date(y, 9, d),
        is_nth_weekday(y, 11, Weekday::Thu.as_index(), 4, d) ==> is_holiday_date(y, 11, d),
        is_holiday_date(y, good_friday_of_year(y).0, good_friday_of_year(y).1),
{
}

} // verus!
