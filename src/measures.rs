use crate::calendar::{floor_div, Date, DateTime, MICROS_PER_SECOND};
use crate::config::Config;
use crate::event::{canonical_order, Event};
use crate::method::ParamValue;
use vstd::prelude::*;

verus! {

pub const MICROS_PER_MINUTE: i64 = 60_000_000;

pub const MICROS_PER_HOUR: i64 = 3_600_000_000;

/// Time that the Earth takes to turn by a millionth of a degree, in
/// microseconds (it turns 15 degrees an hour).
pub const MICROS_PER_MICRODEGREE: i64 = 240;

/// Why a prayer has no date-time.
#[derive(Clone, Copy, Debug, PartialEq, Eq, Structural)]
pub enum PrayerError {
    /// The sun never reaches the altitude that defines the event on that day
    /// and at that latitude, so its hour angle has no value.
    Undefined(Event),
    /// The event falls on a date outside the calendar's range: the calendar
    /// overflow that ends the computation, reported rather than wrapped.
    OutOfRange,
    /// A query needed the measures of a date that the caller did not supply.
    MissingMeasures,
}

/// What the solar ephemeris gives for one date and place, in microseconds of
/// time. An hour angle is the time between solar noon and the moment the sun
/// reaches a given altitude; it is `None` when the sun never reaches it.
#[derive(Clone, Copy, Debug, PartialEq, Eq, Structural)]
pub struct SolarDay {
    /// Mean solar time minus apparent solar time.
    pub equation_of_time: i64,
    /// Hour angle of sunrise and sunset (0.833 degrees below the horizon).
    pub sun_hour_angle: Option<i64>,
    /// Hour angle of the Fajr depression angle.
    pub fajr_hour_angle: Option<i64>,
    /// Hour angle of the Isha depression angle.
    pub isha_hour_angle: Option<i64>,
    /// Hour angle at which shadows reach the Asr length.
    pub asr_hour_angle: Option<i64>,
}

pub open spec fn hour_angle_valid(h: Option<i64>) -> bool {
    h matches Some(v) ==> 0 <= v <= 12 * MICROS_PER_HOUR
}

fn hour_angle_ok(h: Option<i64>) -> (r: bool)
    ensures
        r == hour_angle_valid(h),
{
    match h {
        Some(v) => 0 <= v && v <= 12 * MICROS_PER_HOUR,
        None => true,
    }
}

impl SolarDay {
    /// Whether the solar data are valid.
    pub fn is_valid(&self) -> (r: bool)
        ensures
            r == self.valid(),
    {
        -24 * MICROS_PER_HOUR <= self.equation_of_time && self.equation_of_time <= 24
            * MICROS_PER_HOUR && hour_angle_ok(self.sun_hour_angle) && hour_angle_ok(
            self.fajr_hour_angle,
        ) && hour_angle_ok(self.isha_hour_angle) && hour_angle_ok(self.asr_hour_angle)
    }

    /// An equation of time of at most a day and hour angles between 0 and
    /// 12 hours, which is what an arc cosine over 15 degrees an hour gives.
    pub open spec fn valid(self) -> bool {
        &&& -24 * MICROS_PER_HOUR <= self.equation_of_time <= 24 * MICROS_PER_HOUR
        &&& hour_angle_valid(self.sun_hour_angle)
        &&& hour_angle_valid(self.fajr_hour_angle)
        &&& hour_angle_valid(self.isha_hour_angle)
        &&& hour_angle_valid(self.asr_hour_angle)
    }
}

/// Solar noon (Dhuhr before its offset), in microseconds after local
/// midnight: 12 hours plus the UTC offset, minus longitude over 15 degrees an
/// hour, minus the equation of time.
pub open spec fn noon_spec(c: Config, s: SolarDay) -> int {
    12 * MICROS_PER_HOUR + c.utc_offset * MICROS_PER_SECOND - c.longitude * MICROS_PER_MICRODEGREE
        - s.equation_of_time
}

pub open spec fn as_int(o: Option<i64>) -> Option<int> {
    match o {
        Some(t) => Some(t as int),
        None => None,
    }
}

/// `base + sign * h` where the hour angle `h` has a value.
pub open spec fn from_noon(base: int, h: Option<i64>, sign: int) -> Option<int> {
    match h {
        Some(v) => Some(base + sign * v),
        None => None,
    }
}

pub open spec fn shift(o: Option<int>, d: int) -> Option<int> {
    match o {
        Some(t) => Some(t + d),
        None => None,
    }
}

pub const MICROS_PER_DAY: i64 = 86_400_000_000;

/// The raw sunrise of a date, in microseconds after its own midnight.
pub open spec fn sunrise_spec(c: Config, s: SolarDay) -> Option<int> {
    from_noon(noon_spec(c, s), s.sun_hour_angle, -1)
}

/// The night from a sunset to the next date's sunrise (given after that
/// date's midnight), wrapped into (0, 24 h].
pub open spec fn night_length(sunset: int, next_sunrise: int) -> int {
    (next_sunrise + MICROS_PER_DAY - sunset - 1) % (MICROS_PER_DAY as int) + 1
}

/// Sunset plus `num / den` of the night that runs to the next date's
/// sunrise.
pub open spec fn night_point(sunset: Option<int>, next_sunrise: Option<int>, num: int, den: int) -> Option<int> {
    match (sunset, next_sunrise) {
        (Some(ss), Some(nr)) => Some(ss + (num * night_length(ss, nr)) / den),
        _ => None,
    }
}

/// The raw time of an event, in microseconds after local midnight of the
/// date; it may be negative or beyond a day. `next_sunrise` is the raw
/// sunrise of the following date, which ends the night.
pub open spec fn raw_spec(c: Config, s: SolarDay, next_sunrise: Option<int>, e: Event) -> Option<int> {
    let noon = noon_spec(c, s);
    let off = c.offset_spec(e) * MICROS_PER_MINUTE;
    match e {
        Event::Fajr => match c.fajr {
            ParamValue::Angle(_) => shift(from_noon(noon, s.fajr_hour_angle, -1), off),
            ParamValue::Minutes(m) => shift(
                from_noon(noon, s.sun_hour_angle, -1),
                off - m * MICROS_PER_MINUTE,
            ),
        },
        Event::Sunrise => from_noon(noon, s.sun_hour_angle, -1),
        Event::Dhuhr => Some(noon + off),
        Event::Asr => shift(from_noon(noon, s.asr_hour_angle, 1), off),
        Event::Sunset => from_noon(noon, s.sun_hour_angle, 1),
        Event::Maghrib => shift(from_noon(noon, s.sun_hour_angle, 1), off),
        Event::Isha => match c.isha {
            ParamValue::Angle(_) => shift(from_noon(noon, s.isha_hour_angle, 1), off),
            ParamValue::Minutes(m) => shift(
                from_noon(noon, s.sun_hour_angle, 1),
                off + m * MICROS_PER_MINUTE,
            ),
        },
        Event::Midnight => night_point(from_noon(noon, s.sun_hour_angle, 1), next_sunrise, 1, 2),
        Event::Qiyam => night_point(from_noon(noon, s.sun_hour_angle, 1), next_sunrise, 3, 4),
    }
}

/// The nine raw event times of one date, computed once and shared by every
/// event of that date.
#[derive(Clone, Copy, Debug, PartialEq, Eq, Structural)]
pub struct AstronomicalMeasures {
    pub date: Date,
    pub fajr: Option<i64>,
    pub sunrise: Option<i64>,
    pub dhuhr: Option<i64>,
    pub asr: Option<i64>,
    pub sunset: Option<i64>,
    pub maghrib: Option<i64>,
    pub isha: Option<i64>,
    pub midnight: Option<i64>,
    pub qiyam: Option<i64>,
}

impl AstronomicalMeasures {
    pub open spec fn wf(self) -> bool {
        self.date.valid()
    }

    /// The raw time of an event, in microseconds after local midnight.
    pub open spec fn raw(self, e: Event) -> Option<int> {
        as_int(
            match e {
                Event::Fajr => self.fajr,
                Event::Sunrise => self.sunrise,
                Event::Dhuhr => self.dhuhr,
                Event::Asr => self.asr,
                Event::Sunset => self.sunset,
                Event::Maghrib => self.maghrib,
                Event::Isha => self.isha,
                Event::Midnight => self.midnight,
                Event::Qiyam => self.qiyam,
            },
        )
    }

    /// The date-time of an event: its raw time taken from the start of the
    /// date, or the reason it has none.
    pub open spec fn date_time_spec(self, e: Event) -> Result<DateTime, PrayerError> {
        match self.raw(e) {
            None => Err(PrayerError::Undefined(e)),
            Some(t) => match DateTime::at_offset_spec(self.date, t) {
                Some(d) => Ok(d),
                None => Err(PrayerError::OutOfRange),
            },
        }
    }

    /// The event times of a date, from its solar data and configuration and
    /// those of the following date, whose sunrise ends the night.
    pub fn new(
        date: Date,
        config: &Config,
        solar: &SolarDay,
        next_config: &Config,
        next_solar: &SolarDay,
    ) -> (r: AstronomicalMeasures)
        requires
            date.valid(),
            config.valid(),
            solar.valid(),
            next_config.valid(),
            next_solar.valid(),
        ensures
            r.wf(),
            r.date == date,
            forall|e: Event|
                #[trigger] r.raw(e) == raw_spec(
                    *config,
                    *solar,
                    sunrise_spec(*next_config, *next_solar),
                    e,
                ),
    {
        let noon: i64 = 12 * MICROS_PER_HOUR + config.utc_offset as i64 * MICROS_PER_SECOND
            - config.longitude as i64 * MICROS_PER_MICRODEGREE - solar.equation_of_time;
        let minute = |m: i8| -> (r: i64)
            ensures
                r == m * MICROS_PER_MINUTE,
            { m as i64 * MICROS_PER_MINUTE };
        let next_noon: i64 = 12 * MICROS_PER_HOUR + next_config.utc_offset as i64
            * MICROS_PER_SECOND - next_config.longitude as i64 * MICROS_PER_MICRODEGREE
            - next_solar.equation_of_time;
        let (sunrise, sunset) = match solar.sun_hour_angle {
            Some(h) => (Some(noon - h), Some(noon + h)),
            None => (None, None),
        };
        let next_sunrise = match next_solar.sun_hour_angle {
            Some(h) => Some(next_noon - h),
            None => None,
        };
        let (midnight, qiyam) = match (sunset, next_sunrise) {
            (Some(ss), Some(nr)) => {
                let d = nr + MICROS_PER_DAY - ss - 1;
                let q = floor_div(d, MICROS_PER_DAY);
                proof {
                    vstd::arithmetic::div_mod::lemma_fundamental_div_mod(
                        d as int,
                        MICROS_PER_DAY as int,
                    );
                }
                let night = d - q * MICROS_PER_DAY + 1;
                assert(night == night_length(ss as int, nr as int));
                (Some(ss + night / 2), Some(ss + 3 * night / 4))
            },
            _ => (None, None),
        };
        let fajr = match config.fajr {
            ParamValue::Angle(_) => match solar.fajr_hour_angle {
                Some(h) => Some(noon - h + minute(config.fajr_mod)),
                None => None,
            },
            ParamValue::Minutes(m) => match sunrise {
                Some(t) => Some(t - m as i64 * MICROS_PER_MINUTE + minute(config.fajr_mod)),
                None => None,
            },
        };
        let asr = match solar.asr_hour_angle {
            Some(h) => Some(noon + h + minute(config.asr_mod)),
            None => None,
        };
        let maghrib = match sunset {
            Some(t) => Some(t + minute(config.maghrib_mod)),
            None => None,
        };
        let isha = match config.isha {
            ParamValue::Angle(_) => match solar.isha_hour_angle {
                Some(h) => Some(noon + h + minute(config.isha_mod)),
                None => None,
            },
            ParamValue::Minutes(m) => match sunset {
                Some(t) => Some(t + m as i64 * MICROS_PER_MINUTE + minute(config.isha_mod)),
                None => None,
            },
        };
        let r = AstronomicalMeasures {
            date,
            fajr,
            sunrise,
            dhuhr: Some(noon + minute(config.dhuhr_mod)),
            asr,
            sunset,
            maghrib,
            isha,
            midnight,
            qiyam,
        };
        let ghost ns = sunrise_spec(*next_config, *next_solar);
        assert forall|e: Event| #[trigger] r.raw(e) == raw_spec(*config, *solar, ns, e) by {
            match e {
                Event::Fajr => {},
                Event::Sunrise => {},
                Event::Dhuhr => {},
                Event::Asr => {},
                Event::Sunset => {},
                Event::Maghrib => {},
                Event::Isha => {},
                Event::Midnight => {},
                Event::Qiyam => {},
            }
        }
        r
    }

    /// The date the measures were computed for.
    pub fn date(&self) -> (r: Date)
        ensures
            r == self.date,
    {
        self.date
    }

    /// The raw time of an event, in microseconds after local midnight.
    pub fn raw_time(&self, event: Event) -> (r: Option<i64>)
        ensures
            as_int(r) == self.raw(event),
    {
        match event {
            Event::Fajr => self.fajr,
            Event::Sunrise => self.sunrise,
            Event::Dhuhr => self.dhuhr,
            Event::Asr => self.asr,
            Event::Sunset => self.sunset,
            Event::Maghrib => self.maghrib,
            Event::Isha => self.isha,
            Event::Midnight => self.midnight,
            Event::Qiyam => self.qiyam,
        }
    }

    /// The date-time of an event, or why it has none. An event whose date
    /// leaves the calendar is the calendar overflow that ends the computation:
    /// it is reported as `OutOfRange`, never wrapped to another date.
    pub fn date_time(&self, event: Event) -> (r: Result<DateTime, PrayerError>)
        requires
            self.wf(),
        ensures
            r == self.date_time_spec(event),
            r matches Ok(t) ==> t.valid(),
    {
        match self.raw_time(event) {
            None => Err(PrayerError::Undefined(event)),
            Some(t) => match DateTime::at_offset(&self.date, t) {
                Some(d) => Ok(d),
                None => Err(PrayerError::OutOfRange),
            },
        }
    }
}

/// A raw time's value, or zero when it has none.
pub open spec fn raw_value(c: Config, s: SolarDay, ns: Option<int>, e: Event) -> int {
    match raw_spec(c, s, ns, e) {
        Some(t) => t,
        None => 0,
    }
}

/// With no minute offsets, a Fajr angle no shallower than the sunrise angle,
/// Asr before sunset, and an Isha angle no shallower than the sunset angle,
/// the events from Fajr to Isha all have raw times, and these never decrease
/// along the canonical order. Sunset and Maghrib are equal.
pub proof fn lemma_raw_times_ordered(c: Config, s: SolarDay, ns: Option<int>)
    requires
        c.valid(),
        s.valid(),
        c.fajr_mod == 0 && c.dhuhr_mod == 0 && c.asr_mod == 0 && c.maghrib_mod == 0
            && c.isha_mod == 0,
        s.sun_hour_angle is Some,
        c.fajr is Angle ==> s.fajr_hour_angle is Some && s.fajr_hour_angle.unwrap()
            >= s.sun_hour_angle.unwrap(),
        s.asr_hour_angle is Some && s.asr_hour_angle.unwrap() <= s.sun_hour_angle.unwrap(),
        c.isha is Angle ==> s.isha_hour_angle is Some && s.isha_hour_angle.unwrap()
            >= s.sun_hour_angle.unwrap(),
    ensures
        forall|i: int| 0 <= i <= 6 ==> #[trigger] raw_spec(c, s, ns, canonical_order()[i]) is Some,
        forall|i: int, j: int|
            0 <= i <= j <= 6 ==> #[trigger] raw_value(c, s, ns, canonical_order()[i])
                <= #[trigger] raw_value(c, s, ns, canonical_order()[j]),
        raw_spec(c, s, ns, Event::Sunset) == raw_spec(c, s, ns, Event::Maghrib),
{
    let o = canonical_order();
    assert(o[0] == Event::Fajr && o[1] == Event::Sunrise && o[2] == Event::Dhuhr && o[3]
        == Event::Asr && o[4] == Event::Sunset && o[5] == Event::Maghrib && o[6] == Event::Isha);
    assert forall|i: int| 0 <= i <= 6 implies #[trigger] raw_spec(c, s, ns, o[i]) is Some by {
        assert(i == 0 || i == 1 || i == 2 || i == 3 || i == 4 || i == 5 || i == 6);
    }
    assert forall|i: int, j: int| 0 <= i <= j <= 6 implies #[trigger] raw_value(c, s, ns, o[i])
        <= #[trigger] raw_value(c, s, ns, o[j]) by {
        assert(i == 0 || i == 1 || i == 2 || i == 3 || i == 4 || i == 5 || i == 6);
        assert(j == 0 || j == 1 || j == 2 || j == 3 || j == 4 || j == 5 || j == 6);
    }
}

/// Whenever the sun sets and rises again the next date, Midnight and Qiyam
/// have raw times: the night lasts more than nothing and at most a day, and
/// Sunset, Midnight and Qiyam come in that order, strictly once the night
/// lasts at least four microseconds.
pub proof fn lemma_night_ordered(c: Config, s: SolarDay, ns: Option<int>)
    requires
        s.sun_hour_angle is Some,
        ns is Some,
    ensures
        ({
            let sunset = raw_value(c, s, ns, Event::Sunset);
            let night = night_length(sunset, ns.unwrap());
            let midnight = raw_value(c, s, ns, Event::Midnight);
            let qiyam = raw_value(c, s, ns, Event::Qiyam);
            &&& raw_spec(c, s, ns, Event::Midnight) is Some
            &&& raw_spec(c, s, ns, Event::Qiyam) is Some
            &&& 0 < night <= MICROS_PER_DAY
            &&& midnight == sunset + night / 2
            &&& qiyam == sunset + (3 * night) / 4
            &&& sunset <= midnight <= qiyam
            &&& night >= 4 ==> sunset < midnight < qiyam
        }),
{
}

/// Changing only the Fajr offset, by `k` minutes, moves only the Fajr time,
/// by exactly `k` minutes: every other event keeps its raw time, and so does
/// the sunrise that ends the previous night.
pub proof fn lemma_fajr_offset_isolated(c: Config, s: SolarDay, ns: Option<int>, fajr_mod: i8)
    ensures
        raw_spec(Config { fajr_mod, ..c }, s, ns, Event::Fajr) == shift(
            raw_spec(c, s, ns, Event::Fajr),
            (fajr_mod - c.fajr_mod) * MICROS_PER_MINUTE,
        ),
        forall|e: Event|
            e != Event::Fajr ==> #[trigger] raw_spec(Config { fajr_mod, ..c }, s, ns, e)
                == raw_spec(c, s, ns, e),
        sunrise_spec(Config { fajr_mod, ..c }, s) == sunrise_spec(c, s),
{
}

/// Of two measures of one date built from the same solar data, with
/// configurations that differ only in the Fajr offset by `k` minutes, only
/// Fajr's date-time differs: it lies exactly `k` minutes later, and it has a
/// value for both or for neither.
pub proof fn lemma_fajr_offset_moves_only_fajr(
    c: Config,
    s: SolarDay,
    ns: Option<int>,
    fajr_mod: i8,
    m1: AstronomicalMeasures,
    m2: AstronomicalMeasures,
)
    requires
        m1.wf(),
        m2.date == m1.date,
        forall|e: Event| #[trigger] m1.raw(e) == raw_spec(c, s, ns, e),
        forall|e: Event| #[trigger] m2.raw(e) == raw_spec(Config { fajr_mod, ..c }, s, ns, e),
    ensures
        forall|e: Event|
            e != Event::Fajr ==> #[trigger] m2.date_time_spec(e) == m1.date_time_spec(e),
        m1.raw(Event::Fajr) is None <==> m2.raw(Event::Fajr) is None,
        (m1.date_time_spec(Event::Fajr), m2.date_time_spec(Event::Fajr)) matches (Ok(a), Ok(b))
            ==> b.instant() == a.instant() + 60 * (fajr_mod - c.fajr_mod),
{
    lemma_fajr_offset_isolated(c, s, ns, fajr_mod);
    assert forall|e: Event| e != Event::Fajr implies #[trigger] m2.date_time_spec(e)
        == m1.date_time_spec(e) by {
        assert(m2.raw(e) == m1.raw(e));
    }
    if let (Some(t1), Some(t2)) = (m1.raw(Event::Fajr), m2.raw(Event::Fajr)) {
        let k = fajr_mod - c.fajr_mod;
        DateTime::lemma_at_offset_instant(m1.date, t1);
        DateTime::lemma_at_offset_instant(m2.date, t2);
        assert(t2 == t1 + (60 * k) * (MICROS_PER_SECOND as int));
        vstd::arithmetic::div_mod::lemma_hoist_over_denominator(t1, 60 * k, 1_000_000);
    }
}

/// A resolved event lies the whole seconds of its raw time after the start
/// of the measures' date; a raw time within the day gives its wall time.
pub proof fn lemma_resolved_time(m: AstronomicalMeasures, e: Event)
    ensures
        (m.raw(e), m.date_time_spec(e)) matches (Some(t), Ok(a)) ==> a.instant()
            == m.date.day_number() * 86400 + t / 1_000_000 && (0 <= t < 24 * MICROS_PER_HOUR
            ==> a.seconds == t / 1_000_000),
{
    if let Some(t) = m.raw(e) {
        DateTime::lemma_at_offset_instant(m.date, t);
        if 0 <= t < 24 * MICROS_PER_HOUR {
            assert(0 <= t / 1_000_000 < 86400);
            assert((t / 1_000_000) / 86400 == 0);
            assert((t / 1_000_000) % 86400 == t / 1_000_000);
        }
    }
}

/// Two events whose raw times are in order resolve to date-times in order,
/// strictly when the raw times are a second or more apart; when both raw
/// times lie within the day, their wall times are in order too.
proof fn lemma_resolved_pair(m: AstronomicalMeasures, a: Event, b: Event)
    requires
        m.raw(a) is Some,
        m.raw(b) is Some,
        m.raw(a).unwrap() <= m.raw(b).unwrap(),
    ensures
        (m.date_time_spec(a), m.date_time_spec(b)) matches (Ok(x), Ok(y)) ==> x.instant()
            <= y.instant() && (m.raw(a).unwrap() + 1_000_000 <= m.raw(b).unwrap() ==> x.instant()
            < y.instant()) && (0 <= m.raw(a).unwrap() && m.raw(b).unwrap() < 24 * MICROS_PER_HOUR
            ==> x.seconds <= y.seconds),
{
    lemma_resolved_time(m, a);
    lemma_resolved_time(m, b);
    let ta = m.raw(a).unwrap();
    let tb = m.raw(b).unwrap();
    vstd::arithmetic::div_mod::lemma_div_is_ordered(ta, tb, 1_000_000);
    if ta + 1_000_000 <= tb {
        vstd::arithmetic::div_mod::lemma_div_is_ordered(ta + 1_000_000, tb, 1_000_000);
        vstd::arithmetic::div_mod::lemma_hoist_over_denominator(ta, 1, 1_000_000);
    }
}

/// Under the conditions of [`lemma_raw_times_ordered`], the events from
/// Fajr to Isha resolve to date-times in canonical order, Sunset and Maghrib
/// resolve alike, and, when Fajr comes no earlier than midnight and Isha
/// before the next one, their wall times never decrease. When the sun also
/// rises the next date, Sunset, Midnight and Qiyam resolve in that order,
/// strictly once the night lasts at least eight seconds; Midnight and Qiyam
/// may fall on the next date.
pub proof fn lemma_date_times_ordered(c: Config, s: SolarDay, ns: Option<int>, m: AstronomicalMeasures)
    requires
        c.valid(),
        s.valid(),
        c.fajr_mod == 0 && c.dhuhr_mod == 0 && c.asr_mod == 0 && c.maghrib_mod == 0
            && c.isha_mod == 0,
        s.sun_hour_angle is Some,
        c.fajr is Angle ==> s.fajr_hour_angle is Some && s.fajr_hour_angle.unwrap()
            >= s.sun_hour_angle.unwrap(),
        s.asr_hour_angle is Some && s.asr_hour_angle.unwrap() <= s.sun_hour_angle.unwrap(),
        c.isha is Angle ==> s.isha_hour_angle is Some && s.isha_hour_angle.unwrap()
            >= s.sun_hour_angle.unwrap(),
        forall|e: Event| #[trigger] m.raw(e) == raw_spec(c, s, ns, e),
    ensures
        forall|i: int, j: int|
            0 <= i <= j <= 6 ==> ((m.date_time_spec(#[trigger] canonical_order()[i]),
            m.date_time_spec(#[trigger] canonical_order()[j])) matches (Ok(a), Ok(b))
                ==> a.instant() <= b.instant()),
        m.date_time_spec(Event::Sunset) == m.date_time_spec(Event::Maghrib),
        raw_value(c, s, ns, Event::Fajr) >= 0 && raw_value(c, s, ns, Event::Isha) < 24
            * MICROS_PER_HOUR ==> forall|i: int, j: int|
            0 <= i <= j <= 6 ==> ((m.date_time_spec(#[trigger] canonical_order()[i]),
            m.date_time_spec(#[trigger] canonical_order()[j])) matches (Ok(a), Ok(b))
                ==> a.seconds <= b.seconds),
        ns is Some ==> ((m.date_time_spec(Event::Sunset), m.date_time_spec(Event::Midnight),
        m.date_time_spec(Event::Qiyam)) matches (Ok(a), Ok(b), Ok(q)) ==> a.instant()
            <= b.instant() <= q.instant() && (night_length(
            raw_value(c, s, ns, Event::Sunset),
            ns.unwrap(),
        ) >= 8_000_000 ==> a.instant() < b.instant() < q.instant())),
{
    lemma_raw_times_ordered(c, s, ns);
    let o = canonical_order();
    assert(m.raw(Event::Sunset) == m.raw(Event::Maghrib));
    assert forall|i: int, j: int|
        0 <= i <= j <= 6 implies ((m.date_time_spec(#[trigger] o[i]), m.date_time_spec(
        #[trigger] o[j])) matches (Ok(x), Ok(y)) ==> x.instant() <= y.instant()) by {
        assert(raw_value(c, s, ns, o[i]) <= raw_value(c, s, ns, o[j]));
        assert(raw_spec(c, s, ns, o[i]) is Some && raw_spec(c, s, ns, o[j]) is Some);
        lemma_resolved_pair(m, o[i], o[j]);
    }
    if raw_value(c, s, ns, Event::Fajr) >= 0 && raw_value(c, s, ns, Event::Isha) < 24
        * MICROS_PER_HOUR {
        assert(o[0] == Event::Fajr && o[6] == Event::Isha);
        assert forall|i: int, j: int|
            0 <= i <= j <= 6 implies ((m.date_time_spec(#[trigger] o[i]), m.date_time_spec(
            #[trigger] o[j])) matches (Ok(x), Ok(y)) ==> x.seconds <= y.seconds) by {
            assert(raw_spec(c, s, ns, o[i]) is Some && raw_spec(c, s, ns, o[j]) is Some);
            assert(raw_value(c, s, ns, o[0]) <= raw_value(c, s, ns, o[i]));
            assert(raw_value(c, s, ns, o[j]) <= raw_value(c, s, ns, o[6]));
            assert(raw_value(c, s, ns, o[i]) <= raw_value(c, s, ns, o[j]));
            lemma_resolved_pair(m, o[i], o[j]);
        }
    }
    if ns is Some {
        lemma_night_ordered(c, s, ns);
        lemma_resolved_pair(m, Event::Sunset, Event::Midnight);
        lemma_resolved_pair(m, Event::Midnight, Event::Qiyam);
    }
}

} // verus!
