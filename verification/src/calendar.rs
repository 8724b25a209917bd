//! Proleptic Gregorian calendar arithmetic and the weekday-in-month search.
//!
//! Dates are modeled three ways: as civil triples (year, month, day), as a
//! signed count of days since 1970-01-01, and as a weekday index with
//! Monday = 0 through Sunday = 6.  The conversions between these forms are
//! the closed-form era/cycle formulas for the proleptic Gregorian calendar.

use vstd::prelude::*;
use vstd::arithmetic::div_mod::{
    lemma_add_mod_noop, lemma_fundamental_div_mod, lemma_fundamental_div_mod_converse_mod,
    lemma_mod_bound,
};

use crate::errors::StockMarketError;

verus! {

/// Day of the week, indexed Monday = 0 through Sunday = 6.
#[derive(Clone, Copy, Debug, PartialEq, Eq, Structural)]
pub enum Weekday {
    Mon,
    Tue,
    Wed,
    Thu,
    Fri,
    Sat,
    Sun,
}

impl Weekday {
    /// Numeric index of the weekday, Monday = 0 through Sunday = 6.
    pub open spec fn as_index(self) -> int {
        match self {
            Weekday::Mon => 0,
            Weekday::Tue => 1,
            Weekday::Wed => 2,
            Weekday::Thu => 3,
            Weekday::Fri => 4,
            Weekday::Sat => 5,
            Weekday::Sun => 6,
        }
    }

    /// Executable counterpart of `as_index`.
    pub fn index(self) -> (i: u32)
        ensures
            i == self.as_index(),
    {
        match self {
            Weekday::Mon => 0,
            Weekday::Tue => 1,
            Weekday::Wed => 2,
            Weekday::Thu => 3,
            Weekday::Fri => 4,
            Weekday::Sat => 5,
            Weekday::Sun => 6,
        }
    }

    /// The weekday with the given index.
    pub fn from_index(i: u32) -> (w: Weekday)
        requires
            i < 7,
        ensures
            w.as_index() == i,
    {
        match i {
            0 => Weekday::Mon,
            1 => Weekday::Tue,
            2 => Weekday::Wed,
            3 => Weekday::Thu,
            4 => Weekday::Fri,
            5 => Weekday::Sat,
            _ => Weekday::Sun,
        }
    }
}

/// A year is a leap year exactly when the Gregorian rule says so.
pub open spec fn is_leap_year(y: int) -> bool {
    (y % 4 == 0 && y % 100 != 0) || y % 400 == 0
}

/// Number of days in a month of the proleptic Gregorian calendar.
pub open spec fn days_in_month(y: int, m: int) -> int {
    if m == 2 {
        if is_leap_year(y) {
            29
        } else {
            28
        }
    } else if m == 4 || m == 6 || m == 9 || m == 11 {
        30
    } else {
        31
    }
}

/// A civil date is valid when its month and day are within range.
pub open spec fn valid_date(y: int, m: int, d: int) -> bool {
    1 <= m <= 12 && 1 <= d <= days_in_month(y, m)
}

/// Day number of a civil date, counted in days since 1970-01-01.
///
/// This is the closed-form era/cycle formula for the proleptic Gregorian
/// calendar, written over a March-based year so that the leap day falls at
/// the end of the shifted year.
#[verifier::opaque]
pub open spec fn days_from_civil(y: int, m: int, d: int) -> int {
    let sy = if m <= 2 {
        y - 1
    } else {
        y
    };
    let era = sy / 400;
    let yoe = sy - era * 400;
    let mp = if m <= 2 {
        m + 9
    } else {
        m - 3
    };
    let doy = (153 * mp + 2) / 5 + d - 1;
    let doe = yoe * 365 + yoe / 4 - yoe / 100 + doy;
    era * 146097 + doe - 719468
}

/// Civil date (year, month, day) of a day number, the inverse direction of
/// `days_from_civil`, again as the closed-form era/cycle computation.
#[verifier::opaque]
pub open spec fn civil_from_days(z: int) -> (int, int, int) {
    let za = z + 719468;
    let era = za / 146097;
    let doe = za - era * 146097;
    let yoe = (doe - doe / 1460 + doe / 36524 - doe / 146096) / 365;
    let y = yoe + era * 400;
    let doy = doe - (365 * yoe + yoe / 4 - yoe / 100);
    let mp = (5 * doy + 2) / 153;
    let d = doy - (153 * mp + 2) / 5 + 1;
    let m = if mp < 10 {
        mp + 3
    } else {
        mp - 9
    };
    (if m <= 2 { y + 1 } else { y }, m, d)
}

/// Weekday index of a day number; day 0 (1970-01-01) was a Thursday.
pub open spec fn weekday_from_days(z: int) -> int {
    (z + 3) % 7
}

/// Weekday index of a civil date.
pub open spec fn weekday_of_civil(y: int, m: int, d: int) -> int {
    weekday_from_days(days_from_civil(y, m, d))
}

/// How many of the days 1..=d of the given month fall on weekday `w`.
pub open spec fn count_weekday_upto(y: int, m: int, w: int, d: int) -> int
    decreases d,
{
    if d <= 0 {
        0
    } else {
        count_weekday_upto(y, m, w, d - 1) + if weekday_of_civil(y, m, d) == w {
            1int
        } else {
            0int
        }
    }
}

/// Day `d` is the `n`th day of its month that falls on weekday `w`.
pub open spec fn is_nth_weekday(y: int, m: int, w: int, n: int, d: int) -> bool {
    1 <= d <= days_in_month(y, m) && weekday_of_civil(y, m, d) == w && count_weekday_upto(
        y,
        m,
        w,
        d,
    ) == n
}

/// Day `d` is the last day of its month that falls on weekday `w`.
pub open spec fn is_last_weekday(y: int, m: int, w: int, d: int) -> bool {
    1 <= d <= days_in_month(y, m) && weekday_of_civil(y, m, d) == w && (forall|j: int|
        d < j <= days_in_month(y, m) ==> weekday_of_civil(y, m, j) != w)
}

/// The day of the month of the `n`th day on weekday `w`, where one exists.
pub open spec fn nth_weekday_day(y: int, m: int, w: int, n: int) -> int {
    choose|d: int| is_nth_weekday(y, m, w, n, d)
}

/// There are at least `n` days on weekday `w` in the given month.
pub open spec fn nth_weekday_exists(y: int, m: int, w: int, n: int) -> bool {
    1 <= n <= count_weekday_upto(y, m, w, days_in_month(y, m))
}

/// Executable leap-year test.
pub fn is_leap_year_of(year: i32) -> (b: bool)
    ensures
        b == is_leap_year(year as int),
{
    let r4 = year.checked_rem_euclid(4).unwrap();
    let r100 = year.checked_rem_euclid(100).unwrap();
    let r400 = year.checked_rem_euclid(400).unwrap();
    (r4 == 0 && r100 != 0) || r400 == 0
}

/// Executable month length.
pub fn days_in_month_of(year: i32, month: u32) -> (n: u32)
    requires
        1 <= month <= 12,
    ensures
        n == days_in_month(year as int, month as int),
        28 <= n <= 31,
{
    if month == 2 {
        if is_leap_year_of(year) {
            29
        } else {
            28
        }
    } else if month == 4 || month == 6 || month == 9 || month == 11 {
        30
    } else {
        31
    }
}

/// Executable day number of a civil date.
pub fn day_number_of_date(year: i32, month: u32, day: u32) -> (z: i64)
    requires
        1 <= month <= 12,
        1 <= day <= 31,
    ensures
        z == days_from_civil(year as int, month as int, day as int),
        -800_000_000_000 <= z <= 800_000_000_000,
{
    proof {
        reveal(days_from_civil);
    }
    let sy: i64 = if month <= 2 {
        (year as i64) - 1
    } else {
        year as i64
    };
    let era: i64 = sy.checked_div_euclid(400).unwrap();
    let yoe: i64 = sy - era * 400;
    let mp: i64 = if month <= 2 {
        (month as i64) + 9
    } else {
        (month as i64) - 3
    };
    proof {
        lemma_fundamental_div_mod(sy as int, 400);
        lemma_mod_bound(sy as int, 400);
    }
    let doy: i64 = (153 * mp + 2).checked_div_euclid(5).unwrap() + (day as i64) - 1;
    let doe: i64 = yoe * 365 + yoe.checked_div_euclid(4).unwrap() - yoe.checked_div_euclid(
        100,
    ).unwrap() + doy;
    era * 146097 + doe - 719468
}

/// Within one month, day numbers grow by one per day.
proof fn lemma_days_linear_in_day(y: int, m: int, d: int)
    ensures
        days_from_civil(y, m, d) == days_from_civil(y, m, 1) + d - 1,
{
    reveal(days_from_civil);
}

/// The residue of a value below twice the modulus, written without `%`.
proof fn lemma_double_residue(x: int)
    requires
        0 <= x < 14,
    ensures
        x % 7 == if x < 7 {
            x
        } else {
            x - 7
        },
{
    if x < 7 {
        lemma_fundamental_div_mod_converse_mod(x, 7, 0, x);
    } else {
        lemma_fundamental_div_mod_converse_mod(x, 7, 1, x - 7);
    }
}

/// Weekday of a day of the month, expressed as a shifted residue of the
/// weekday of the first of the month.
proof fn lemma_weekday_shift(y: int, m: int, d: int)
    requires
        1 <= d,
    ensures
        0 <= (days_from_civil(y, m, 1) + 3) % 7 < 7,
        weekday_of_civil(y, m, d) == ((days_from_civil(y, m, 1) + 3) % 7 + (d - 1) % 7) % 7,
{
    let c = days_from_civil(y, m, 1);
    lemma_days_linear_in_day(y, m, d);
    lemma_mod_bound(c + 3, 7);
    lemma_add_mod_noop(c + 3, d - 1, 7);
}

/// Each week-aligned window of seven days of a month contains exactly one
/// day that falls on any given weekday.
proof fn lemma_count_seven_step(y: int, m: int, w: int, j: int)
    requires
        0 <= w < 7,
        0 <= j,
        j % 7 == 0,
    ensures
        count_weekday_upto(y, m, w, j + 7) == count_weekday_upto(y, m, w, j) + 1,
{
    let r0 = (days_from_civil(y, m, 1) + 3) % 7;
    assert forall|d: int| j + 1 <= d <= j + 7 implies weekday_of_civil(y, m, d) == (if r0 + (d - 1
        - j) < 7 {
        r0 + (d - 1 - j)
    } else {
        r0 + (d - 1 - j) - 7
    }) by {
        lemma_weekday_shift(y, m, d);
        lemma_fundamental_div_mod(j, 7);
        lemma_fundamental_div_mod_converse_mod(d - 1, 7, j / 7, d - 1 - j);
        lemma_double_residue(r0 + (d - 1 - j));
    }
    assert(count_weekday_upto(y, m, w, j + 1) == count_weekday_upto(y, m, w, j) + if weekday_of_civil(
        y,
        m,
        j + 1,
    ) == w {
        1int
    } else {
        0int
    });
    assert(count_weekday_upto(y, m, w, j + 2) == count_weekday_upto(y, m, w, j + 1)
        + if weekday_of_civil(y, m, j + 2) == w {
        1int
    } else {
        0int
    });
    assert(count_weekday_upto(y, m, w, j + 3) == count_weekday_upto(y, m, w, j + 2)
        + if weekday_of_civil(y, m, j + 3) == w {
        1int
    } else {
        0int
    });
    assert(count_weekday_upto(y, m, w, j + 4) == count_weekday_upto(y, m, w, j + 3)
        + if weekday_of_civil(y, m, j + 4) == w {
        1int
    } else {
        0int
    });
    assert(count_weekday_upto(y, m, w, j + 5) == count_weekday_upto(y, m, w, j + 4)
        + if weekday_of_civil(y, m, j + 5) == w {
        1int
    } else {
        0int
    });
    assert(count_weekday_upto(y, m, w, j + 6) == count_weekday_upto(y, m, w, j + 5)
        + if weekday_of_civil(y, m, j + 6) == w {
        1int
    } else {
        0int
    });
    assert(count_weekday_upto(y, m, w, j + 7) == count_weekday_upto(y, m, w, j + 6)
        + if weekday_of_civil(y, m, j + 7) == w {
        1int
    } else {
        0int
    });
}

/// The first four weeks of any month hold exactly four days of each weekday.
pub proof fn lemma_four_weekdays_in_month(y: int, m: int, w: int)
    requires
        0 <= w < 7,
    ensures
        count_weekday_upto(y, m, w, 28) == 4,
{
    lemma_count_seven_step(y, m, w, 0);
    lemma_count_seven_step(y, m, w, 7);
    lemma_count_seven_step(y, m, w, 14);
    lemma_count_seven_step(y, m, w, 21);
}

/// The weekday count over a prefix of a month never decreases.
pub proof fn lemma_count_monotonic(y: int, m: int, w: int, d1: int, d2: int)
    requires
        0 <= d1 <= d2,
    ensures
        count_weekday_upto(y, m, w, d1) <= count_weekday_upto(y, m, w, d2),
    decreases d2 - d1,
{
    if d1 < d2 {
        lemma_count_monotonic(y, m, w, d1, d2 - 1);
        assert(count_weekday_upto(y, m, w, d2) >= count_weekday_upto(y, m, w, d2 - 1));
    }
}

/// A prefix without any day on weekday `w` has a zero count for `w`.
pub proof fn lemma_no_weekday_means_zero_count(y: int, m: int, w: int, d: int)
    requires
        0 <= d,
        forall|j: int| 1 <= j <= d ==> weekday_of_civil(y, m, j) != w,
    ensures
        count_weekday_upto(y, m, w, d) == 0,
    decreases d,
{
    if d > 0 {
        lemma_no_weekday_means_zero_count(y, m, w, d - 1);
    }
}

/// At most one day of a month is the `n`th day on a given weekday.
pub proof fn lemma_nth_weekday_unique(y: int, m: int, w: int, n: int, d1: int, d2: int)
    requires
        is_nth_weekday(y, m, w, n, d1),
        is_nth_weekday(y, m, w, n, d2),
    ensures
        d1 == d2,
{
    if d1 < d2 {
        lemma_count_monotonic(y, m, w, d1, d2 - 1);
        assert(count_weekday_upto(y, m, w, d2) == count_weekday_upto(y, m, w, d2 - 1) + 1);
    } else if d2 < d1 {
        lemma_count_monotonic(y, m, w, d2, d1 - 1);
        assert(count_weekday_upto(y, m, w, d1) == count_weekday_upto(y, m, w, d1 - 1) + 1);
    }
}

/// At most one day of a month is the last day on a given weekday.
pub proof fn lemma_last_weekday_unique(y: int, m: int, w: int, d1: int, d2: int)
    requires
        is_last_weekday(y, m, w, d1),
        is_last_weekday(y, m, w, d2),
    ensures
        d1 == d2,
{
    if d1 < d2 {
        assert(weekday_of_civil(y, m, d2) != w);
    } else if d2 < d1 {
        assert(weekday_of_civil(y, m, d1) != w);
    }
}

/// Every month has a last day on each weekday, and an `n`th day on each
/// weekday for `n` up to four: the searches of the fixed holiday table
/// cannot fail.
pub proof fn lemma_fixed_table_searches_succeed(y: int, m: int, w: int, n: int)
    requires
        1 <= m <= 12,
        0 <= w < 7,
        1 <= n <= 4,
    ensures
        nth_weekday_exists(y, m, w, n),
        count_weekday_upto(y, m, w, days_in_month(y, m)) >= 1,
{
    lemma_four_weekdays_in_month(y, m, w);
    lemma_count_monotonic(y, m, w, 28, days_in_month(y, m));
}

/// Executable weekday of a civil date.
pub fn weekday_index_of_date(year: i32, month: u32, day: u32) -> (w: u32)
    requires
        1 <= month <= 12,
        1 <= day <= 31,
    ensures
        w == weekday_of_civil(year as int, month as int, day as int),
        w < 7,
{
    let z = day_number_of_date(year, month, day);
    proof {
        lemma_mod_bound(z as int + 3, 7);
    }
    (z + 3).checked_rem_euclid(7).unwrap() as u32
}

/// Day of the month of the `nth` occurrence of `weekday`, scanning the days
/// in order and counting matches.  When fewer than `nth` matches exist the
/// search reports the holiday-table defect instead of aborting.
pub fn find_nth_weekday_in_month(year: i32, month: u32, weekday: Weekday, nth: u32) -> (r: Result<
    u32,
    StockMarketError,
>)
    requires
        1 <= month <= 12,
    ensures
        (r is Ok) == nth_weekday_exists(year as int, month as int, weekday.as_index(), nth as int),
        r matches Ok(d) ==> is_nth_weekday(
            year as int,
            month as int,
            weekday.as_index(),
            nth as int,
            d as int,
        ),
        r matches Err(e) ==> e == StockMarketError::HolidayTableDefect,
{
    let dim = days_in_month_of(year, month);
    let w = weekday.index();
    let mut count: u32 = 0;
    let mut day: u32 = 1;
    while day <= dim
        invariant
            1 <= month <= 12,
            1 <= day <= dim + 1,
            dim == days_in_month(year as int, month as int),
            w == weekday.as_index(),
            count == count_weekday_upto(year as int, month as int, w as int, day as int - 1),
            count < day,
            nth >= 1 ==> count < nth,
        decreases dim + 1 - day,
    {
        let wd = weekday_index_of_date(year, month, day);
        if wd == w {
            count = count + 1;
            proof {
                assert(count_weekday_upto(year as int, month as int, w as int, day as int)
                    == count_weekday_upto(year as int, month as int, w as int, day as int - 1) + 1);
            }
            if count == nth {
                proof {
                    lemma_count_monotonic(
                        year as int,
                        month as int,
                        w as int,
                        day as int,
                        dim as int,
                    );
                }
                return Ok(day);
            }
        } else {
            proof {
                assert(count_weekday_upto(year as int, month as int, w as int, day as int)
                    == count_weekday_upto(year as int, month as int, w as int, day as int - 1));
            }
        }
        day = day + 1;
    }
    Err(StockMarketError::HolidayTableDefect)
}

/// Day of the month of the last occurrence of `weekday`, scanning from the
/// end of the month downward.  A month always has such a day; the defect
/// branch exists so that an impossible search is reported, never aborted.
pub fn find_last_weekday_in_month(year: i32, month: u32, weekday: Weekday) -> (r: Result<
    u32,
    StockMarketError,
>)
    requires
        1 <= month <= 12,
    ensures
        (r is Ok) == (count_weekday_upto(
            year as int,
            month as int,
            weekday.as_index(),
            days_in_month(year as int, month as int),
        ) >= 1),
        r matches Ok(d) ==> is_last_weekday(
            year as int,
            month as int,
            weekday.as_index(),
            d as int,
        ),
        r matches Err(e) ==> e == StockMarketError::HolidayTableDefect,
{
    let dim = days_in_month_of(year, month);
    let w = weekday.index();
    let mut day: u32 = dim;
    while day >= 1
        invariant
            1 <= month <= 12,
            day <= dim,
            dim == days_in_month(year as int, month as int),
            w == weekday.as_index(),
            forall|j: int|
                day < j <= dim ==> weekday_of_civil(year as int, month as int, j) != w,
        decreases day,
    {
        let wd = weekday_index_of_date(year, month, day);
        if wd == w {
            proof {
                lemma_count_monotonic(year as int, month as int, w as int, 0, day as int - 1);
                lemma_count_monotonic(year as int, month as int, w as int, day as int, dim as int);
            }
            return Ok(day);
        }
        day = day - 1;
    }
    proof {
        lemma_no_weekday_means_zero_count(year as int, month as int, w as int, dim as int);
    }
    Err(StockMarketError::HolidayTableDefect)
}

} // verus!
