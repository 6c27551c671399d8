use chrono::{Datelike, NaiveDate};
use niumaren::date::{next_weekday, Date, Weekday, MAX_DAY, MIN_DAY};

#[test]
fn test_next_weekday() {
    // Thursday (Jun 4, 2026 is a Thursday)
    let thu = Date::from_ymd_opt(2026, 6, 4).unwrap();
    let sat = next_weekday(thu, Weekday::Sat);
    assert_eq!(sat, Date::from_ymd_opt(2026, 6, 6).unwrap());

    let sun = next_weekday(thu, Weekday::Sun);
    assert_eq!(sun, Date::from_ymd_opt(2026, 6, 7).unwrap());
}

#[test]
fn test_next_weekday_same_day() {
    let sat = Date::from_ymd_opt(2026, 6, 6).unwrap(); // Saturday
    assert_eq!(next_weekday(sat, Weekday::Sat), sat);
}

#[test]
fn day_range_is_chronos() {
    assert_eq!(NaiveDate::MIN.num_days_from_ce(), MIN_DAY);
    assert_eq!(NaiveDate::MAX.num_days_from_ce(), MAX_DAY);
    assert!(Date::from_day_number(MIN_DAY).is_some());
    assert!(Date::from_day_number(MAX_DAY).is_some());
    assert!(Date::from_day_number(MIN_DAY - 1).is_none());
    assert!(Date::from_day_number(MAX_DAY + 1).is_none());
    assert!(NaiveDate::from_num_days_from_ce_opt(MAX_DAY + 1).is_none());
    assert!(NaiveDate::from_num_days_from_ce_opt(MIN_DAY - 1).is_none());
}

#[test]
fn weekday_matches_chrono() {
    let days = [MIN_DAY, MIN_DAY + 1, -1000, -1, 0, 1, 2, 6, 7, 739771, 739773, MAX_DAY - 1, MAX_DAY];
    for d in days {
        let date = Date::from_day_number(d).unwrap();
        let chrono_date = NaiveDate::from_num_days_from_ce_opt(d).unwrap();
        assert_eq!(
            date.weekday().num_days_from_monday(),
            chrono_date.weekday().num_days_from_monday(),
            "day {}",
            d
        );
    }
    for d in 739700..739900 {
        let date = Date::from_day_number(d).unwrap();
        let chrono_date = NaiveDate::from_num_days_from_ce_opt(d).unwrap();
        assert_eq!(date.weekday().num_days_from_monday(), chrono_date.weekday().num_days_from_monday());
    }
}

#[test]
fn formats_parses_and_years() {
    let d = Date::from_ymd_opt(2026, 6, 14).unwrap();
    assert_eq!(d.format_ymd(), "2026-06-14");
    assert_eq!(d.year(), 2026);
    assert_eq!(d.weekday(), Weekday::Sun);
    assert_eq!(Date::parse_ymd("2026-06-14"), Ok(d));
    assert!(Date::parse_ymd("2026-02-30").is_err());
    assert!(Date::from_ymd_opt(2026, 2, 29).is_none());
    assert_eq!(Date::from_ymd_opt(1, 1, 1).unwrap().day_number(), 1);
}

#[test]
fn next_weekday_covers_every_pair() {
    let start = Date::from_ymd_opt(2026, 6, 1).unwrap(); // a Monday
    let targets = [Weekday::Mon, Weekday::Tue, Weekday::Wed, Weekday::Thu, Weekday::Fri, Weekday::Sat, Weekday::Sun];
    for offset in 0..7 {
        let from = start.add_days(offset).unwrap();
        for t in targets {
            let r = next_weekday(from, t);
            assert_eq!(r.weekday(), t);
            let gap = r.day_number() - from.day_number();
            assert!((0..7).contains(&gap));
        }
    }
}

#[test]
fn add_days_stays_within_chronos_range() {
    let last = Date::from_day_number(MAX_DAY).unwrap();
    assert!(last.add_days(1).is_none());
    assert_eq!(last.add_days(-1).unwrap().day_number(), MAX_DAY - 1);
    let first = Date::from_day_number(MIN_DAY).unwrap();
    assert!(first.add_days(-1).is_none());
    let d = Date::from_ymd_opt(2026, 12, 31).unwrap();
    assert_eq!(d.add_days(1).unwrap(), Date::from_ymd_opt(2027, 1, 1).unwrap());
    assert_eq!(d.add_days(-365).unwrap(), Date::from_ymd_opt(2025, 12, 31).unwrap());
}

#[test]
fn from_ymd_matches_chrono() {
    let years = [-262144, -262143, -1, 0, 1, 4, 100, 400, 1900, 2000, 2024, 2026, 262142, 262143];
    for y in years {
        for m in 0..=13u32 {
            for d in [0u32, 1, 28, 29, 30, 31, 32] {
                let ours = Date::from_ymd_opt(y, m, d).map(|x| x.day_number());
                let theirs = NaiveDate::from_ymd_opt(y, m, d).map(|x| x.num_days_from_ce());
                assert_eq!(ours, theirs, "{}-{}-{}", y, m, d);
            }
        }
    }
}

#[test]
fn year_texts_outside_four_digits() {
    let f = |y: i32, m: u32, d: u32| Date::from_ymd_opt(y, m, d).unwrap().format_ymd();
    assert_eq!(f(5, 1, 2), "0005-01-02");
    assert_eq!(f(-1, 3, 4), "-0001-03-04");
    assert_eq!(f(12345, 6, 7), "+12345-06-07");
    assert_eq!(Date::from_ymd_opt(-1, 3, 4).unwrap().year(), -1);
}
