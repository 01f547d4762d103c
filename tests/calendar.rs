use prayer_times::{add_days, julian_day, Date, DateTime};

fn date(y: i32, m: u32, d: u32) -> Date {
    Date::new(y, m, d).unwrap()
}

#[test]
fn date_validity() {
    assert!(Date::new(2024, 2, 29).is_some());
    assert!(Date::new(2023, 2, 29).is_none());
    assert!(Date::new(1900, 2, 29).is_none());
    assert!(Date::new(2000, 2, 29).is_some());
    assert!(Date::new(2024, 13, 1).is_none());
    assert!(Date::new(2024, 4, 31).is_none());
    assert!(Date::new(2024, 1, 0).is_none());
    assert!(Date::new(262143, 1, 1).is_none());
    assert!(Date::new(262142, 12, 31).is_some());
}

#[test]
fn julian_day_numbers() {
    assert_eq!(julian_day(&date(2000, 1, 1)), 2451545);
    assert_eq!(julian_day(&date(2025, 10, 2)), 2451545 + 9406);
    assert_eq!(julian_day(&date(-4713, 11, 24)), 0);
    assert_eq!(julian_day(&date(2024, 3, 1)) - julian_day(&date(2024, 2, 28)), 2);
}

#[test]
fn adding_days_crosses_months_and_years() {
    assert_eq!(add_days(&date(2024, 2, 28), 1), Some(date(2024, 2, 29)));
    assert_eq!(add_days(&date(2024, 3, 1), -1), Some(date(2024, 2, 29)));
    assert_eq!(add_days(&date(2023, 12, 31), 1), Some(date(2024, 1, 1)));
    assert_eq!(add_days(&date(2023, 1, 1), 0), Some(date(2023, 1, 1)));
    assert_eq!(add_days(&date(262142, 12, 31), 1), None);
    assert_eq!(add_days(&date(-262143, 1, 1), -1), None);
}

#[test]
fn offsets_resolve_across_midnight() {
    let d = date(2025, 10, 2);
    let t = DateTime::at_offset(&d, 25 * 3_600_000_000 + 30 * 60_000_000).unwrap();
    assert_eq!(t.date, date(2025, 10, 3));
    assert_eq!((t.hour(), t.minute(), t.second()), (1, 30, 0));
    let t = DateTime::at_offset(&d, -1).unwrap();
    assert_eq!(t.date, date(2025, 10, 1));
    assert_eq!(t.seconds, 86399);
    let t = DateTime::at_offset(&d, 999_999).unwrap();
    assert_eq!((t.date, t.seconds), (d, 0));
    assert!(DateTime::at_offset(&date(262142, 12, 31), 86_400_000_000).is_none());
}

#[test]
fn seconds_between_date_times() {
    let a = DateTime::from_hms(date(2025, 10, 2), 23, 0, 0).unwrap();
    let b = DateTime::from_hms(date(2025, 10, 3), 1, 0, 30).unwrap();
    assert_eq!(b.seconds_since(&a), 7230);
    assert_eq!(a.seconds_since(&b), -7230);
    assert!(DateTime::from_hms(date(2025, 10, 2), 24, 0, 0).is_none());
    assert!(DateTime::new(date(2025, 10, 2), 86400).is_none());
}
