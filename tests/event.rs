use prayer_times::Event;
use prayer_times::Event::{Asr, Dhuhr, Fajr, Isha, Maghrib, Midnight, Qiyam, Sunrise, Sunset};

#[test]
fn list_is_in_canonical_order() {
    assert_eq!(
        Event::list(),
        [Fajr, Sunrise, Dhuhr, Asr, Sunset, Maghrib, Isha, Midnight, Qiyam]
    );
}

#[test]
fn previous_and_next_follow_the_cycle() {
    assert_eq!(Fajr.next(), Sunrise);
    assert_eq!(Asr.next(), Maghrib);
    assert_eq!(Sunset.next(), Isha);
    assert_eq!(Maghrib.next(), Isha);
    assert_eq!(Isha.next(), Midnight);
    assert_eq!(Midnight.next(), Qiyam);
    assert_eq!(Qiyam.next(), Fajr);
    assert_eq!(Fajr.previous(), Qiyam);
    assert_eq!(Sunset.previous(), Asr);
    assert_eq!(Maghrib.previous(), Asr);
    assert_eq!(Isha.previous(), Maghrib);
}

#[test]
fn five_prayers_round_trip() {
    for e in [Fajr, Dhuhr, Asr, Maghrib, Isha] {
        assert_eq!(e.next().previous(), e);
        assert_eq!(e.previous().next(), e);
    }
}

#[test]
fn sunset_is_many_to_one() {
    assert_eq!(Event::Sunset.next().previous(), Event::Maghrib);
    assert_eq!(Event::Sunset.previous().next(), Event::Maghrib);
}

#[test]
fn names_and_indices() {
    assert_eq!(Event::Fajr.name(), "Fajr");
    assert_eq!(Event::Qiyam.name(), "Qiyam");
    assert_eq!(Event::Maghrib.index(), 5);
}
