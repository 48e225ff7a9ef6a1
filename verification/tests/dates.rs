use chrono::Datelike;
use chrono::NaiveDate;
use habit_tracker::Date;

fn day(year: i32, month: u32, day: u32) -> Date {
    Date::new(year, month, day).expect("a day that exists")
}

#[test]
fn new_accepts_days_that_exist() {
    let d = day(2026, 1, 10);
    assert_eq!((d.year(), d.month(), d.day()), (2026, 1, 10));
    assert!(Date::new(2024, 2, 29).is_some());
    assert!(Date::new(2000, 2, 29).is_some());
    assert!(Date::new(2026, 12, 31).is_some());
    assert!(Date::new(-4, 2, 29).is_some());
    assert!(Date::new(0, 2, 29).is_some());
}

#[test]
fn new_refuses_days_that_do_not_exist() {
    assert_eq!(Date::new(2026, 13, 40), None);
    assert_eq!(Date::new(2026, 0, 1), None);
    assert_eq!(Date::new(2026, 1, 0), None);
    assert_eq!(Date::new(2026, 1, 32), None);
    assert_eq!(Date::new(2026, 4, 31), None);
    assert_eq!(Date::new(2026, 2, 29), None);
    assert_eq!(Date::new(1900, 2, 29), None);
    assert_eq!(Date::new(2100, 2, 29), None);
    assert_eq!(Date::new(-1, 2, 29), None);
}

#[test]
fn new_keeps_to_the_range_of_years() {
    assert!(Date::new(262142, 12, 31).is_some());
    assert!(Date::new(-262143, 1, 1).is_some());
    assert_eq!(Date::new(262143, 1, 1), None);
    assert_eq!(Date::new(-262144, 12, 31), None);
    assert_eq!(Date::new(i32::MAX, 1, 1), None);
    assert_eq!(Date::new(i32::MIN, 1, 1), None);
}

#[test]
fn new_agrees_with_chrono_on_every_day_of_some_years() {
    for year in [-401, -400, -100, -4, -1, 0, 1, 1900, 2000, 2023, 2024, 2100, 262142] {
        for month in 0..=13 {
            for d in 0..=32 {
                let ours = Date::new(year, month, d).is_some();
                let theirs = NaiveDate::from_ymd_opt(year, month, d).is_some();
                assert_eq!(ours, theirs, "{}-{}-{}", year, month, d);
            }
        }
    }
}

#[test]
fn is_before_is_chronological() {
    assert!(day(2026, 1, 5).is_before(&day(2026, 1, 10)));
    assert!(!day(2026, 1, 10).is_before(&day(2026, 1, 5)));
    assert!(!day(2026, 1, 10).is_before(&day(2026, 1, 10)));
    assert!(day(2025, 12, 31).is_before(&day(2026, 1, 1)));
    assert!(day(2026, 1, 31).is_before(&day(2026, 2, 1)));
    assert!(!day(2026, 2, 1).is_before(&day(2026, 1, 31)));
    assert!(day(-1, 12, 31).is_before(&day(0, 1, 1)));
}

#[test]
fn parse_reads_iso_dates() {
    assert_eq!(Date::parse("2026-01-10"), Some(day(2026, 1, 10)));
    assert_eq!(Date::parse("2024-02-29"), Some(day(2024, 2, 29)));
    assert_eq!(Date::parse("1999-12-31"), Some(day(1999, 12, 31)));
}

#[test]
fn parse_refuses_what_is_no_date() {
    assert_eq!(Date::parse("2026-13-40"), None);
    assert_eq!(Date::parse("foo"), None);
    assert_eq!(Date::parse(""), None);
    assert_eq!(Date::parse("2026-02-29"), None);
    assert_eq!(Date::parse("2026-01"), None);
    assert_eq!(Date::parse("2026/01/10"), None);
    assert_eq!(Date::parse("2026-01-10 12:00"), None);
}

#[test]
fn parse_agrees_with_chrono() {
    let texts = [
        "2026-01-10", "2026-1-5", " 2026-01-10", "2026-01-10 ", "+2026-01-10", "-0001-01-01",
        "02026-01-10", "26-01-10", "2026-00-10", "2026-01-00", "2026-12-31", "2026-02-30",
        "10-01-2026", "today", "2026-01-10x", "99999-01-01",
    ];
    for text in texts {
        let ours = Date::parse(text).map(|d| (d.year(), d.month(), d.day()));
        let theirs = NaiveDate::parse_from_str(text, "%Y-%m-%d")
            .ok()
            .map(|d| (d.year(), d.month(), d.day()));
        assert_eq!(ours, theirs, "{:?}", text);
    }
}

#[test]
fn to_text_writes_iso_dates() {
    assert_eq!(day(2026, 1, 5).to_text(), "2026-01-05");
    assert_eq!(day(2026, 12, 31).to_text(), "2026-12-31");
    assert_eq!(day(987, 6, 7).to_text(), "0987-06-07");
}

#[test]
fn to_text_reads_back() {
    for d in [day(2026, 1, 5), day(2024, 2, 29), day(1, 1, 1), day(9999, 12, 31)] {
        assert_eq!(Date::parse(&d.to_text()), Some(d));
    }
}

#[test]
fn to_text_agrees_with_chrono_at_the_ends_of_the_range() {
    for (y, m, d) in [(262142, 12, 31), (-262143, 1, 1), (10000, 1, 1), (-1, 3, 4), (0, 1, 1)] {
        let theirs = NaiveDate::from_ymd_opt(y, m, d).unwrap().format("%Y-%m-%d").to_string();
        assert_eq!(day(y, m, d).to_text(), theirs);
    }
}
