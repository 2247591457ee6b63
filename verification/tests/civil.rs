use chrono::{Datelike, NaiveDate};
use wtftoday::civil::{leap_year, CivilDate, CivilDateTime, MAX_INSTANT, MIN_INSTANT};

fn days_by_chrono(year: i32, month: u32, day: u32) -> i64 {
    let date = NaiveDate::from_ymd_opt(year, month, day).unwrap();
    i64::from(date.num_days_from_ce()) - 719_163
}

#[test]
fn epoch_is_day_zero() {
    let date = CivilDate { year: 1970, month: 1, day: 1 };
    assert_eq!(date.days_since_epoch(), 0);
    assert_eq!(date.midnight(), 0);
}

#[test]
fn known_day_numbers() {
    assert_eq!(CivilDate { year: 2024, month: 2, day: 29 }.days_since_epoch(), 19_782);
    assert_eq!(CivilDate { year: 2000, month: 3, day: 1 }.days_since_epoch(), 11_017);
    assert_eq!(CivilDate { year: 1969, month: 12, day: 31 }.days_since_epoch(), -1);
    assert_eq!(CivilDate { year: 1, month: 1, day: 1 }.days_since_epoch(), -719_162);
    assert_eq!(CivilDate { year: 9999, month: 12, day: 31 }.days_since_epoch(), 2_932_896);
}

#[test]
fn day_numbers_agree_with_the_date_library() {
    let samples: Vec<(i32, u32, u32)> = vec![
        (1970, 1, 1),
        (1972, 2, 29),
        (1900, 3, 1),
        (2000, 2, 29),
        (2100, 12, 31),
        (-1, 6, 15),
        (0, 2, 29),
        (-400, 1, 1),
        (262_142, 12, 31),
        (-262_143, 1, 1),
        (2023, 7, 4),
        (2024, 11, 30),
    ];
    for (year, month, day) in samples {
        let date = CivilDate { year, month, day };
        assert_eq!(date.days_since_epoch(), days_by_chrono(year, month, day));
    }
}

#[test]
fn every_month_of_a_leap_and_a_common_year() {
    for year in [2023, 2024] {
        for month in 1..=12u32 {
            let date = CivilDate { year, month, day: 1 };
            assert_eq!(date.days_since_epoch(), days_by_chrono(year, month, 1));
        }
    }
}

#[test]
fn leap_year_rule() {
    assert!(leap_year(2024));
    assert!(leap_year(2000));
    assert!(!leap_year(1900));
    assert!(!leap_year(2023));
    assert!(leap_year(0));
    assert!(leap_year(-4));
    assert!(!leap_year(-1));
    assert!(!leap_year(-100));
    assert!(leap_year(-400));
}

#[test]
fn instant_of_a_utc_reading() {
    let reading = CivilDateTime {
        date: CivilDate { year: 2024, month: 1, day: 15 },
        hour: 10,
        minute: 30,
        second: 5,
    };
    assert_eq!(reading.to_instant_utc(), 1_705_314_605);
    let expected = NaiveDate::from_ymd_opt(2024, 1, 15)
        .unwrap()
        .and_hms_opt(10, 30, 5)
        .unwrap()
        .and_utc()
        .timestamp();
    assert_eq!(reading.to_instant_utc(), expected);
}

#[test]
fn representable_range_matches_the_date_library() {
    assert_eq!(MIN_INSTANT, chrono::DateTime::<chrono::Utc>::MIN_UTC.timestamp());
    assert_eq!(MAX_INSTANT, chrono::DateTime::<chrono::Utc>::MAX_UTC.timestamp());
    let first = CivilDate { year: -262_143, month: 1, day: 1 };
    assert_eq!(first.midnight(), MIN_INSTANT);
    let last = CivilDate { year: 262_142, month: 12, day: 31 };
    assert_eq!(last.midnight() + 86_399, MAX_INSTANT);
    assert_eq!(NaiveDate::MIN.year(), -262_143);
    assert_eq!(NaiveDate::MAX.year(), 262_142);
}
