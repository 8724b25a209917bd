//! Tests of the market-open decision engine against concrete instants.

use chrono::TimeZone;

use market_hours::calendar::{
    find_last_weekday_in_month, find_nth_weekday_in_month, weekday_index_of_date, Weekday,
};
use market_hours::errors::StockMarketError;
use market_hours::market::{
    calculate_easter, is_holiday, is_market_open, is_weekday_and_time_between_9_30_and_16_et,
};
use market_hours::timezone::{
    convert_utc_to_et, is_daylight_saving_time, LocalDateTime, MAX_TIMESTAMP, MIN_TIMESTAMP,
};

/// Timestamp of an Eastern Time wall-clock reading, with the offset picked
/// the way the original scenarios state it: from the daylight-saving status
/// of the wall-clock fields read as if they were UTC.
fn convert_et_to_utc(year: i32, month: u32, day: u32, hour: u32, minute: u32) -> i64 {
    let naive = chrono::Utc
        .with_ymd_and_hms(year, month, day, hour, minute, 0)
        .unwrap()
        .timestamp();
    let offset_hours: i64 = if is_daylight_saving_time(naive) { -4 } else { -5 };
    naive - offset_hours * 3600
}

#[test]
fn test_is_daylight_saving_time() {
    let dt = convert_et_to_utc(2023, 3, 12, 8, 0);
    assert!(is_daylight_saving_time(dt));

    let dt = convert_et_to_utc(2023, 11, 5, 7, 0);
    assert!(!is_daylight_saving_time(dt));
}

#[test]
fn test_convert_utc_to_et() {
    let dt = chrono::Utc
        .with_ymd_and_hms(2023, 6, 1, 12, 0, 0)
        .unwrap()
        .timestamp();
    let et_dt = convert_utc_to_et(dt).unwrap();
    assert_eq!(et_dt.hour, 8);

    let dt = chrono::Utc
        .with_ymd_and_hms(2023, 12, 1, 12, 0, 0)
        .unwrap()
        .timestamp();
    let et_dt = convert_utc_to_et(dt).unwrap();
    assert_eq!(et_dt.hour, 7);
}

#[test]
fn test_find_nth_weekday_in_month() {
    let day = find_nth_weekday_in_month(2023, 11, Weekday::Thu, 4).unwrap();
    assert_eq!(day, 23);

    let day = find_nth_weekday_in_month(2023, 1, Weekday::Mon, 3).unwrap();
    assert_eq!(day, 16);
}

#[test]
fn test_find_last_weekday_in_month() {
    let day = find_last_weekday_in_month(2023, 5, Weekday::Mon).unwrap();
    assert_eq!(day, 29);
}

#[test]
fn test_is_weekday_and_time_between_9_30_and_16_et() {
    let dt = convert_et_to_utc(2023, 6, 1, 10, 0);
    let et_dt = convert_utc_to_et(dt).unwrap();
    assert!(is_weekday_and_time_between_9_30_and_16_et(et_dt));

    let dt = convert_et_to_utc(2023, 6, 1, 9, 0);
    let et_dt = convert_utc_to_et(dt).unwrap();
    assert!(!is_weekday_and_time_between_9_30_and_16_et(et_dt));

    let dt = convert_et_to_utc(2023, 6, 3, 10, 0);
    let et_dt = convert_utc_to_et(dt).unwrap();
    assert!(!is_weekday_and_time_between_9_30_and_16_et(et_dt));
}

#[test]
fn test_is_holiday() {
    let dt = convert_et_to_utc(2023, 12, 25, 12, 0);
    let et_dt = convert_utc_to_et(dt).unwrap();
    assert!(is_holiday(et_dt).unwrap());

    let dt = convert_et_to_utc(2023, 11, 23, 12, 0);
    let et_dt = convert_utc_to_et(dt).unwrap();
    assert!(is_holiday(et_dt).unwrap());

    let dt = convert_et_to_utc(2023, 11, 24, 12, 0);
    let et_dt = convert_utc_to_et(dt).unwrap();
    assert!(!is_holiday(et_dt).unwrap());
}

#[test]
fn test_is_market_open() {
    let dt = convert_et_to_utc(2023, 6, 1, 14, 0);
    assert!(is_market_open(dt).unwrap());

    let dt = convert_et_to_utc(2023, 6, 1, 6, 0);
    assert!(!is_market_open(dt).unwrap());

    let dt = convert_et_to_utc(2023, 12, 25, 14, 0);
    assert!(!is_market_open(dt).unwrap());

    let dt = convert_et_to_utc(2023, 6, 3, 14, 0);
    assert!(!is_market_open(dt).unwrap());

    // New Year's Day
    let dt = convert_et_to_utc(2023, 1, 1, 12, 0);
    assert!(!is_market_open(dt).unwrap());

    // Martin Luther King Jr. Day
    let dt = convert_et_to_utc(2023, 1, 16, 12, 0);
    assert!(!is_market_open(dt).unwrap());

    // Washington's Birthday
    let dt = convert_et_to_utc(2023, 2, 20, 12, 0);
    assert!(!is_market_open(dt).unwrap());

    // Good Friday
    let dt = convert_et_to_utc(2023, 4, 7, 12, 0);
    assert!(!is_market_open(dt).unwrap());

    // Memorial Day
    let dt = convert_et_to_utc(2023, 5, 29, 12, 0);
    assert!(!is_market_open(dt).unwrap());

    // Juneteenth National Independence Day
    let dt = convert_et_to_utc(2023, 6, 19, 12, 0);
    assert!(!is_market_open(dt).unwrap());

    // Independence Day
    let dt = convert_et_to_utc(2023, 7, 4, 12, 0);
    assert!(!is_market_open(dt).unwrap());

    // Labor Day
    let dt = convert_et_to_utc(2023, 9, 4, 12, 0);
    assert!(!is_market_open(dt).unwrap());

    // Thanksgiving
    let dt = convert_et_to_utc(2023, 11, 23, 12, 0);
    assert!(!is_market_open(dt).unwrap());

    // Christmas
    let dt = convert_et_to_utc(2023, 12, 25, 12, 0);
    assert!(!is_market_open(dt).unwrap());
}

#[test]
fn test_market_open_scenarios_utc_literals() {
    // 2023-06-01 14:00 EDT, a plain Thursday inside the window.
    assert_eq!(is_market_open(1685642400), Ok(true));
    // 2023-06-01 06:00 EDT, before the window opens.
    assert_eq!(is_market_open(1685613600), Ok(false));
    // 2023-12-25 14:00 EST, Christmas.
    assert_eq!(is_market_open(1703530800), Ok(false));
    // 2023-06-03 14:00 EDT, a Saturday.
    assert_eq!(is_market_open(1685815200), Ok(false));
    // 2023-04-07 12:00 EDT, Good Friday of Easter Sunday April 9.
    assert_eq!(is_market_open(1680883200), Ok(false));
    // 2023-11-23 12:00 EST, the fourth Thursday of November.
    assert_eq!(is_market_open(1700758800), Ok(false));
}

#[test]
fn test_dst_boundary_offsets() {
    // Spring transition of 2023: the second Sunday of March at 07:00 UTC.
    assert!(!is_daylight_saving_time(1678604399));
    assert!(is_daylight_saving_time(1678604400));
    assert_eq!(convert_utc_to_et(1678604399).unwrap().offset_hours, -5);
    assert_eq!(convert_utc_to_et(1678604400).unwrap().offset_hours, -4);

    // Fall transition of 2023: the first Sunday of November at 06:00 UTC.
    assert!(is_daylight_saving_time(1699163999));
    assert!(!is_daylight_saving_time(1699164000));
    assert_eq!(convert_utc_to_et(1699163999).unwrap().offset_hours, -4);
    assert_eq!(convert_utc_to_et(1699164000).unwrap().offset_hours, -5);
}

#[test]
fn test_convert_utc_to_et_fields() {
    // 2023-06-01 18:00 UTC reads as 14:00 EDT on Thursday June 1.
    let et_dt = convert_utc_to_et(1685642400).unwrap();
    assert_eq!(et_dt.year, 2023);
    assert_eq!(et_dt.month, 6);
    assert_eq!(et_dt.day, 1);
    assert_eq!(et_dt.hour, 14);
    assert_eq!(et_dt.minute, 0);
    assert_eq!(et_dt.weekday, Weekday::Thu);
    assert_eq!(et_dt.offset_hours, -4);
}

#[test]
fn test_market_open_is_deterministic() {
    for ts in [1685642400i64, 1685613600, 1703530800, 1680883200, 0, -86400] {
        let first = is_market_open(ts);
        let second = is_market_open(ts);
        assert_eq!(first, second);
    }
}

#[test]
fn test_conversion_error_on_unrepresentable_timestamps() {
    assert_eq!(is_market_open(i64::MIN), Err(StockMarketError::ConvertUTCError));
    assert_eq!(is_market_open(i64::MAX), Err(StockMarketError::ConvertUTCError));
    assert_eq!(
        is_market_open(MAX_TIMESTAMP + 1),
        Err(StockMarketError::ConvertUTCError)
    );
    // The smallest representable instant has no representable local reading.
    assert_eq!(
        is_market_open(MIN_TIMESTAMP),
        Err(StockMarketError::ConvertUTCError)
    );
    assert_eq!(
        convert_utc_to_et(MIN_TIMESTAMP + 17999),
        Err(StockMarketError::ConvertUTCError)
    );
    // An instant a full day inside the range converts fine.
    assert!(convert_utc_to_et(MIN_TIMESTAMP + 86400).is_ok());
    assert!(is_market_open(MAX_TIMESTAMP).is_ok());
}

#[test]
fn test_calculate_easter_known_years() {
    assert_eq!(calculate_easter(2023), (4, 9));
    assert_eq!(calculate_easter(2024), (3, 31));
    assert_eq!(calculate_easter(2008), (3, 23));
    assert_eq!(calculate_easter(1943), (4, 25));
}

#[test]
fn test_find_nth_weekday_defect() {
    // February 2023 has only four Mondays, so a fifth does not exist.
    assert_eq!(
        find_nth_weekday_in_month(2023, 2, Weekday::Mon, 5),
        Err(StockMarketError::HolidayTableDefect)
    );
}

#[test]
fn test_weekday_index_of_date() {
    // 1970-01-01 was a Thursday.
    assert_eq!(weekday_index_of_date(1970, 1, 1), 3);
    // 2023-03-12 and 2023-11-05, the DST transition days, were Sundays.
    assert_eq!(weekday_index_of_date(2023, 3, 12), 6);
    assert_eq!(weekday_index_of_date(2023, 11, 5), 6);
}

#[test]
fn test_trading_window_boundaries() {
    let mut reading = LocalDateTime {
        year: 2023,
        month: 6,
        day: 1,
        hour: 9,
        minute: 29,
        weekday: Weekday::Thu,
        offset_hours: -4,
    };
    assert!(!is_weekday_and_time_between_9_30_and_16_et(reading));
    reading.minute = 30;
    assert!(is_weekday_and_time_between_9_30_and_16_et(reading));
    reading.hour = 15;
    reading.minute = 59;
    assert!(is_weekday_and_time_between_9_30_and_16_et(reading));
    reading.hour = 16;
    reading.minute = 0;
    assert!(!is_weekday_and_time_between_9_30_and_16_et(reading));
}

#[test]
fn test_holidays_of_2024() {
    // Martin Luther King Jr. Day, the third Monday of January 2024.
    assert!(!is_market_open(convert_et_to_utc(2024, 1, 15, 12, 0)).unwrap());
    // Memorial Day, the last Monday of May 2024.
    assert!(!is_market_open(convert_et_to_utc(2024, 5, 27, 12, 0)).unwrap());
    // Good Friday 2024, two days before Easter Sunday March 31.
    assert!(!is_market_open(convert_et_to_utc(2024, 3, 29, 12, 0)).unwrap());
    // Thanksgiving, the fourth Thursday of November 2024.
    assert!(!is_market_open(convert_et_to_utc(2024, 11, 28, 12, 0)).unwrap());
    // The Friday after Thanksgiving 2024 is an ordinary trading day.
    assert!(is_market_open(convert_et_to_utc(2024, 11, 29, 12, 0)).unwrap());
}

#[test]
fn test_error_codes() {
    assert_eq!(StockMarketError::OutsideBusinessHours.code(), 818340127);
    assert_eq!(StockMarketError::ConvertUTCError.code(), 818340128);
    assert_eq!(StockMarketError::HolidayTableDefect.code(), 818340129);
}
