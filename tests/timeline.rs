use prayer_times::{
    add_days, current, list_prayers_for_date, next, AstronomicalMeasures, Config, Date, DateTime,
    Event, Madhab, MethodVariant, Prayer, PrayerError, SolarDay,
};

const HOUR: i64 = 3_600_000_000;
const MINUTE: i64 = 60_000_000;

fn date(y: i32, m: u32, d: u32) -> Date {
    Date::new(y, m, d).unwrap()
}

fn at(d: Date, h: u32, m: u32) -> DateTime {
    DateTime::from_hms(d, h, m, 0).unwrap()
}

fn equator() -> Config {
    Config::new(0, 0, 0, MethodVariant::FRANCE, Madhab::Shafi)
}

/// Sunrise at 06:00, Fajr at 04:30, Asr at 15:00, Isha at 19:30 when noon is 12:00.
fn plain_day() -> SolarDay {
    SolarDay {
        equation_of_time: 0,
        sun_hour_angle: Some(6 * HOUR),
        fajr_hour_angle: Some(7 * HOUR + 30 * MINUTE),
        isha_hour_angle: Some(7 * HOUR + 30 * MINUTE),
        asr_hour_angle: Some(3 * HOUR),
    }
}

/// Measures of a date whose next date has the same solar data.
fn measures(d: Date, c: &Config, s: &SolarDay) -> AstronomicalMeasures {
    AstronomicalMeasures::new(d, c, s, c, s)
}

fn days(c: &Config, s: &SolarDay, d: Date) -> [AstronomicalMeasures; 4] {
    let day = |n: i64| measures(add_days(&d, n).unwrap(), c, s);
    [day(-1), day(0), day(1), day(2)]
}

fn window(c: &Config, s: &SolarDay, d: Date) -> Vec<AstronomicalMeasures> {
    (-2..=2).map(|n| measures(add_days(&d, n).unwrap(), c, s)).collect()
}

fn hm(p: &Prayer) -> (Date, u32, u32) {
    let t = p.date_time();
    (t.date, t.hour(), t.minute())
}

#[test]
fn raw_times_combine_noon_angles_and_offsets() {
    let d = date(2024, 6, 1);
    let m = measures(d, &equator(), &plain_day());
    assert_eq!(m.raw_time(Event::Fajr), Some(4 * HOUR + 30 * MINUTE));
    assert_eq!(m.raw_time(Event::Sunrise), Some(6 * HOUR));
    assert_eq!(m.raw_time(Event::Dhuhr), Some(12 * HOUR));
    assert_eq!(m.raw_time(Event::Asr), Some(15 * HOUR));
    assert_eq!(m.raw_time(Event::Sunset), Some(18 * HOUR));
    assert_eq!(m.raw_time(Event::Maghrib), Some(18 * HOUR));
    assert_eq!(m.raw_time(Event::Isha), Some(19 * HOUR + 30 * MINUTE));
    assert_eq!(m.raw_time(Event::Midnight), Some(24 * HOUR));
    assert_eq!(m.raw_time(Event::Qiyam), Some(27 * HOUR));
    assert_eq!(m.date(), d);
}

#[test]
fn night_ends_at_the_next_dates_sunrise() {
    // Sunset at 18:00; the next date's sunrise at 06:10 makes a night of
    // 12 h 10 min.
    let d = date(2024, 6, 1);
    let next = SolarDay { equation_of_time: -10 * MINUTE, sun_hour_angle: Some(6 * HOUR), ..plain_day() };
    let m = AstronomicalMeasures::new(d, &equator(), &plain_day(), &equator(), &next);
    assert_eq!(m.raw_time(Event::Midnight), Some(24 * HOUR + 5 * MINUTE));
    assert_eq!(m.raw_time(Event::Qiyam), Some(27 * HOUR + 7 * MINUTE + 30 * 1_000_000));
    let midnight = m.date_time(Event::Midnight).unwrap();
    assert_eq!((midnight.date, midnight.hour(), midnight.minute()), (date(2024, 6, 2), 0, 5));
    // The next date's UTC offset counts too: an hour later by the clock.
    let later = Config::new(0, 0, 3600, MethodVariant::FRANCE, Madhab::Shafi);
    let m = AstronomicalMeasures::new(d, &equator(), &plain_day(), &later, &plain_day());
    assert_eq!(m.raw_time(Event::Midnight), Some(24 * HOUR + 30 * MINUTE));
    // No sunrise on the next date: no night to divide.
    let polar = SolarDay { sun_hour_angle: None, ..plain_day() };
    let m = AstronomicalMeasures::new(d, &equator(), &plain_day(), &equator(), &polar);
    assert_eq!(m.date_time(Event::Qiyam), Err(PrayerError::Undefined(Event::Qiyam)));
    assert!(m.date_time(Event::Sunset).is_ok());
}

#[test]
fn longitude_utc_offset_and_equation_of_time_move_noon() {
    // 15 degrees east is one hour earlier, UTC+2 two hours later, and an
    // equation of time of 10 minutes ten minutes earlier.
    let c = Config::new(0, 15_000_000, 7200, MethodVariant::FRANCE, Madhab::Shafi);
    let s = SolarDay { equation_of_time: 10 * MINUTE, ..plain_day() };
    let m = AstronomicalMeasures::new(date(2024, 6, 1), &c, &s, &c, &s);
    assert_eq!(m.raw_time(Event::Dhuhr), Some(12 * HOUR + 50 * MINUTE));
    assert_eq!(m.raw_time(Event::Sunrise), Some(6 * HOUR + 50 * MINUTE));
}

#[test]
fn minute_offsets_and_fixed_isha() {
    let c = Config::new(0, 0, 0, MethodVariant::MAKKAH, Madhab::Shafi).with_offsets(5, -2, 3, -1, 4);
    let m = measures(date(2024, 6, 1), &c, &plain_day());
    assert_eq!(m.raw_time(Event::Fajr), Some(4 * HOUR + 35 * MINUTE));
    assert_eq!(m.raw_time(Event::Sunrise), Some(6 * HOUR));
    assert_eq!(m.raw_time(Event::Dhuhr), Some(11 * HOUR + 58 * MINUTE));
    assert_eq!(m.raw_time(Event::Asr), Some(15 * HOUR + 3 * MINUTE));
    assert_eq!(m.raw_time(Event::Sunset), Some(18 * HOUR));
    assert_eq!(m.raw_time(Event::Maghrib), Some(17 * HOUR + 59 * MINUTE));
    // Isha is 90 minutes after sunset, plus its own offset.
    assert_eq!(m.raw_time(Event::Isha), Some(19 * HOUR + 34 * MINUTE));
    assert_eq!(m.raw_time(Event::Midnight), Some(24 * HOUR));
}

#[test]
fn times_beyond_midnight_resolve_to_the_next_date() {
    let d = date(2024, 6, 1);
    let m = measures(d, &equator(), &plain_day());
    let midnight = m.date_time(Event::Midnight).unwrap();
    assert_eq!((midnight.date, midnight.seconds), (date(2024, 6, 2), 0));
    let qiyam = m.date_time(Event::Qiyam).unwrap();
    assert_eq!((qiyam.date, qiyam.hour()), (date(2024, 6, 2), 3));
    let c = Config::new(0, 0, 0, MethodVariant::FRANCE, Madhab::Shafi).with_offsets(-128, 0, 0, 0, 0);
    let s = SolarDay { fajr_hour_angle: Some(11 * HOUR), ..plain_day() };
    let fajr = measures(d, &c, &s).date_time(Event::Fajr).unwrap();
    assert_eq!((fajr.date, fajr.hour(), fajr.minute()), (date(2024, 5, 31), 22, 52));
}

#[test]
fn undefined_hour_angles_are_errors() {
    let s = SolarDay { sun_hour_angle: None, ..plain_day() };
    let m = measures(date(2024, 6, 1), &equator(), &s);
    assert_eq!(m.date_time(Event::Sunrise), Err(PrayerError::Undefined(Event::Sunrise)));
    assert_eq!(m.date_time(Event::Midnight), Err(PrayerError::Undefined(Event::Midnight)));
    assert!(m.date_time(Event::Fajr).is_ok());
    assert_eq!(
        Prayer::new(Event::Qiyam, &m).unwrap_err(),
        PrayerError::Undefined(Event::Qiyam)
    );
}

#[test]
fn dates_out_of_range_are_errors() {
    let m = measures(date(262142, 12, 31), &equator(), &plain_day());
    assert_eq!(m.date_time(Event::Midnight), Err(PrayerError::OutOfRange));
    assert!(m.date_time(Event::Isha).is_ok());
}

#[test]
fn navigation_within_a_day() {
    let d = date(2024, 6, 1);
    let [yesterday, today, tomorrow, _] = days(&equator(), &plain_day(), d);
    let dhuhr = Prayer::new(Event::Dhuhr, &today).unwrap();
    assert_eq!(hm(&dhuhr.next(&tomorrow).unwrap()), (d, 15, 0));
    assert_eq!(dhuhr.next(&tomorrow).unwrap().event(), Event::Asr);
    assert_eq!(hm(&dhuhr.previous(&yesterday).unwrap()), (d, 6, 0));
}

#[test]
fn navigation_compares_times_of_day() {
    let d = date(2024, 6, 1);
    let [yesterday, today, tomorrow, after] = days(&equator(), &plain_day(), d);
    // Midnight falls at 00:00 on the next date; its 00:00 is earlier in the
    // day than Isha's 19:30, so Isha is taken from the day before that date.
    let midnight = Prayer::new(Event::Midnight, &today).unwrap();
    assert_eq!(midnight.date(), tomorrow.date());
    let isha = midnight.previous(&today).unwrap();
    assert_eq!((isha.event(), hm(&isha)), (Event::Isha, (d, 19, 30)));
    // A Fajr that falls late on the previous date takes Sunrise from the
    // day after the date it falls on.
    let c = Config::new(0, 0, 0, MethodVariant::FRANCE, Madhab::Shafi).with_offsets(-128, 0, 0, 0, 0);
    let s = SolarDay { fajr_hour_angle: Some(11 * HOUR), ..plain_day() };
    let early = Prayer::new(Event::Fajr, &measures(d, &c, &s)).unwrap();
    assert_eq!(early.date(), yesterday.date());
    let sunrise = early.next(&measures(d, &c, &s)).unwrap();
    assert_eq!((sunrise.event(), hm(&sunrise)), (Event::Sunrise, (d, 6, 0)));
    // Qiyam's 03:00 is not later in the day than Fajr's 04:30.
    let fajr = Prayer::new(Event::Fajr, &today).unwrap();
    let qiyam = fajr.previous(&yesterday).unwrap();
    assert_eq!((qiyam.event(), hm(&qiyam)), (Event::Qiyam, (date(2024, 6, 2), 3, 0)));
    // Isha's successor, Midnight, comes at 00:00, earlier in the day than
    // 19:30: it is taken from the day after.
    let isha = Prayer::new(Event::Isha, &today).unwrap();
    let midnight = isha.next(&tomorrow).unwrap();
    assert_eq!((midnight.event(), hm(&midnight)), (Event::Midnight, (date(2024, 6, 3), 0, 0)));
    // Fajr's 04:30 is not earlier in the day than Qiyam's 03:00.
    let q = Prayer::new(Event::Qiyam, &today).unwrap();
    assert_eq!(hm(&q.next(&after).unwrap()), (d, 4, 30));
}

#[test]
fn next_and_current_at_several_times() {
    let d = date(2024, 6, 1);
    let days = window(&equator(), &plain_day(), d);
    let n = next(&days, &at(d, 10, 0)).unwrap();
    assert_eq!((n.event(), hm(&n)), (Event::Dhuhr, (d, 12, 0)));
    let c = current(&days, &at(d, 10, 0)).unwrap();
    assert_eq!((c.event(), hm(&c)), (Event::Sunrise, (d, 6, 0)));
    let n = next(&days, &at(d, 12, 0)).unwrap();
    assert_eq!(n.event(), Event::Dhuhr);
    let n = next(&days, &at(d, 23, 0)).unwrap();
    assert_eq!((n.event(), hm(&n)), (Event::Midnight, (date(2024, 6, 2), 0, 0)));
    // Between Isha and Midnight the current prayer is today's Isha.
    let c = current(&days, &at(d, 21, 0)).unwrap();
    assert_eq!((c.event(), hm(&c)), (Event::Isha, (d, 19, 30)));
    let n = next(&days, &at(d, 0, 0)).unwrap();
    assert_eq!(n.event(), Event::Fajr);
    assert_eq!(next(&days[..1].to_vec(), &at(d, 10, 0)).unwrap_err(), PrayerError::MissingMeasures);
}

#[test]
fn next_falls_back_to_the_last_event() {
    let d = date(2024, 6, 1);
    let s = SolarDay { sun_hour_angle: None, ..plain_day() };
    let days = window(&equator(), &s, d);
    assert_eq!(
        next(&days, &at(d, 23, 0)).unwrap_err(),
        PrayerError::Undefined(Event::Qiyam)
    );
    let n = next(&days, &at(d, 19, 0)).unwrap();
    assert_eq!(n.event(), Event::Isha);
}

/// A day whose times all stay within it: noon at 09:00 (45 degrees east),
/// sunrise 01:00, Fajr 00:30, Asr 12:00, sunset 17:00, Isha 18:30,
/// Midnight 21:00, Qiyam 23:00.
fn day_within_itself() -> (Config, SolarDay) {
    let c = Config::new(0, 45_000_000, 0, MethodVariant::FRANCE, Madhab::Shafi);
    let s = SolarDay {
        equation_of_time: 0,
        sun_hour_angle: Some(8 * HOUR),
        fajr_hour_angle: Some(8 * HOUR + 30 * MINUTE),
        isha_hour_angle: Some(9 * HOUR + 30 * MINUTE),
        asr_hour_angle: Some(3 * HOUR),
    };
    (c, s)
}

#[test]
fn current_then_next_is_next() {
    let d = date(2024, 6, 1);
    let (c, s) = day_within_itself();
    let days = window(&c, &s, d);
    let mut checked = 0;
    for minutes in (0..24 * 60).step_by(7) {
        let now = at(d, minutes / 60, minutes % 60);
        let n = next(&days, &now).unwrap();
        if n.event() == Event::Sunset {
            continue;
        }
        let cur = current(&days, &now).unwrap();
        let day_after = days
            .iter()
            .find(|m| Some(m.date()) == add_days(&cur.date(), 1))
            .unwrap();
        assert_eq!(cur.next(day_after).unwrap(), n);
        checked += 1;
    }
    assert!(checked > 150);
}

#[test]
fn time_remaining_counts_down_to_zero() {
    let d = date(2024, 6, 1);
    let m = measures(d, &equator(), &plain_day());
    let dhuhr = Prayer::new(Event::Dhuhr, &m).unwrap();
    assert_eq!(dhuhr.time_remaining(&at(d, 11, 0)), 3600);
    assert_eq!(dhuhr.time_remaining(&at(d, 11, 59)), 60);
    assert_eq!(dhuhr.time_remaining(&at(d, 12, 0)), 0);
    assert_eq!(dhuhr.time_remaining(&at(d, 13, 0)), 0);
    assert_eq!(dhuhr.time_remaining(&at(date(2024, 5, 31), 12, 0)), 86400);
    let mut last = i64::MAX;
    for h in 0..24 {
        let r = dhuhr.time_remaining(&at(d, h, 30));
        assert!(r >= 0 && r <= last);
        last = r;
    }
    assert!(!dhuhr.time_has_passed(&at(d, 11, 59)));
    assert!(dhuhr.time_has_passed(&at(d, 12, 0)));
}

#[test]
fn prayers_are_equal_by_event_and_time() {
    let d = date(2024, 6, 1);
    let m = measures(d, &equator(), &plain_day());
    let sunset = Prayer::new(Event::Sunset, &m).unwrap();
    let maghrib = Prayer::new(Event::Maghrib, &m).unwrap();
    assert_eq!(sunset.date_time(), maghrib.date_time());
    assert!(sunset != maghrib);
    let other = measures(d, &equator().with_offsets(9, 0, 0, 0, 0), &plain_day());
    assert!(Prayer::new(Event::Sunset, &other).unwrap() == sunset);
}

#[test]
fn list_has_every_event_in_order() {
    let d = date(2024, 6, 1);
    let m = measures(d, &equator(), &plain_day());
    let list = list_prayers_for_date(&m);
    assert_eq!(list.len(), 9);
    for (p, e) in list.iter().zip(Event::list()) {
        assert_eq!(p.as_ref().unwrap().event(), e);
    }
    assert_eq!(list_prayers_for_date(&m), list);
}
