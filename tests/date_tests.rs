use chrono::{Datelike, NaiveDate};
use timereport::naive_date::{last_day_of_month, one_date_per_week, MAX_DAYS, MIN_DAYS};
use timereport::Date;

#[test]
fn range_matches_chrono() {
    assert_eq!(NaiveDate::MIN.num_days_from_ce(), MIN_DAYS);
    assert_eq!(NaiveDate::MAX.num_days_from_ce(), MAX_DAYS);
}

#[test]
fn weekday_from_day_number() {
    // 2024-04-26 was a Friday, 2024-04-22 a Monday, 2023-12-31 a Sunday.
    assert_eq!(Date { days: 739002 }.weekday_from_monday(), 4);
    assert_eq!(Date { days: 738998 }.weekday_from_monday(), 0);
    assert_eq!(Date { days: 738885 }.weekday_from_monday(), 6);
    assert!(Date { days: 738885 }.is_weekend());
    assert!(!Date { days: 739002 }.is_weekend());
    assert_eq!(Date { days: MIN_DAYS }.weekday_from_monday(), NaiveDate::MIN.weekday().num_days_from_monday());
}

#[test]
fn add_days_checks_range() {
    assert_eq!(Date { days: 10 }.add_days(-7), Some(Date { days: 3 }));
    assert_eq!(Date { days: MIN_DAYS }.add_days(-1), None);
    assert_eq!(Date { days: MAX_DAYS }.add_days(1), None);
}

#[test]
fn last_day_of_months() {
    // 2024-02-01 (leap year) and 2024-12-01.
    let feb = NaiveDate::from_ymd_opt(2024, 2, 1).unwrap().num_days_from_ce();
    let dec = NaiveDate::from_ymd_opt(2024, 12, 1).unwrap().num_days_from_ce();
    assert_eq!(last_day_of_month(Date { days: feb }), Some(Date { days: feb + 28 }));
    assert_eq!(last_day_of_month(Date { days: dec }), Some(Date { days: dec + 30 }));
}

#[test]
fn one_date_per_week_steps_by_seven() {
    assert_eq!(
        one_date_per_week(Date { days: 1 }, Date { days: 15 }),
        vec![Date { days: 1 }, Date { days: 8 }, Date { days: 15 }]
    );
    assert_eq!(one_date_per_week(Date { days: 1 }, Date { days: 14 }).len(), 2);
    assert!(one_date_per_week(Date { days: 2 }, Date { days: 1 }).is_empty());
}
