use crate::calendar::{julian_day, Date, DateTime};
use crate::config::Config;
use crate::event::{canonical_order, Event};
use crate::measures::{raw_spec, AstronomicalMeasures, PrayerError, SolarDay};
use crate::prayer::{
    lemma_prayer_on_its_date, lemma_previous_then_next, next_spec, prayer_spec, previous_spec,
    same_shape, within_its_day, Prayer,
};
use vstd::prelude::*;

verus! {

/// The first event of the date, from position `i` of the canonical order on,
/// whose date-time has a value and is not before `now`.
pub open spec fn first_not_before(m: AstronomicalMeasures, now: DateTime, i: int) -> Option<Prayer>
    decreases 9 - i,
{
    if i < 0 || i >= 9 {
        None
    } else {
        match prayer_spec(canonical_order()[i], m) {
            Ok(p) => if p.at.instant() >= now.instant() {
                Some(p)
            } else {
                first_not_before(m, now, i + 1)
            },
            Err(_) => first_not_before(m, now, i + 1),
        }
    }
}

/// Measures of consecutive dates, the earliest first.
pub open spec fn consecutive_days(days: Seq<AstronomicalMeasures>) -> bool {
    &&& days.len() > 0
    &&& forall|i: int| 0 <= i < days.len() ==> (#[trigger] days[i]).wf()
    &&& forall|i: int|
        0 < i < days.len() ==> (#[trigger] days[i]).date.day_number() == days[i
            - 1].date.day_number() + 1
}

/// The measures, among consecutive `days`, of the date with day number `n`.
pub open spec fn measures_of(days: Seq<AstronomicalMeasures>, n: int) -> Option<AstronomicalMeasures> {
    let k = n - days[0].date.day_number();
    if 0 <= k < days.len() {
        Some(days[k])
    } else {
        None
    }
}

/// The prayer after `p`, with the measures of the day after the date `p`
/// falls on taken from `days`.
pub open spec fn next_within(p: Prayer, days: Seq<AstronomicalMeasures>) -> Result<Prayer, PrayerError> {
    match measures_of(days, p.at.date.day_number() + 1) {
        Some(m) => next_spec(p, m),
        None => Err(PrayerError::MissingMeasures),
    }
}

/// The prayer before `p`, with the measures of the day before the date `p`
/// falls on taken from `days`.
pub open spec fn previous_within(p: Prayer, days: Seq<AstronomicalMeasures>) -> Result<Prayer, PrayerError> {
    match measures_of(days, p.at.date.day_number() - 1) {
        Some(m) => previous_spec(p, m),
        None => Err(PrayerError::MissingMeasures),
    }
}

/// The next prayer at `now`: the first of today's events, in canonical
/// order, that is not before `now`; when there is none, the prayer after
/// today's last event.
pub open spec fn next_prayer_spec(days: Seq<AstronomicalMeasures>, now: DateTime) -> Result<Prayer, PrayerError> {
    match measures_of(days, now.date.day_number()) {
        None => Err(PrayerError::MissingMeasures),
        Some(today) => match first_not_before(today, now, 0) {
            Some(p) => Ok(p),
            None => match prayer_spec(Event::Qiyam, today) {
                Ok(q) => next_within(q, days),
                Err(e) => Err(e),
            },
        },
    }
}

/// The current prayer at `now`: the one before the next prayer.
pub open spec fn current_prayer_spec(days: Seq<AstronomicalMeasures>, now: DateTime) -> Result<Prayer, PrayerError> {
    match next_prayer_spec(days, now) {
        Ok(p) => previous_within(p, days),
        Err(e) => Err(e),
    }
}

/// The prayers of every event of a date, in canonical order.
pub open spec fn list_spec(m: AstronomicalMeasures) -> Seq<Result<Prayer, PrayerError>> {
    Seq::new(9, |i: int| prayer_spec(canonical_order()[i], m))
}

/// The `k`-th of consecutive days lies `k` days after the first.
pub proof fn lemma_consecutive_day_number(days: Seq<AstronomicalMeasures>, k: int)
    requires
        consecutive_days(days),
        0 <= k < days.len(),
    ensures
        days[k].date.day_number() == days[0].date.day_number() + k,
    decreases k,
{
    if k > 0 {
        lemma_consecutive_day_number(days, k - 1);
    }
}

/// What the lookup finds is well formed and has the day number asked for;
/// each of the days is found under its own day number.
pub proof fn lemma_measures_of(days: Seq<AstronomicalMeasures>, n: int)
    requires
        consecutive_days(days),
    ensures
        measures_of(days, n) matches Some(m) ==> m.wf() && m.date.day_number() == n,
        forall|i: int|
            0 <= i < days.len() && #[trigger] days[i].date.day_number() == n ==> measures_of(days, n)
                == Some(days[i]),
{
    let k = n - days[0].date.day_number();
    if 0 <= k < days.len() {
        lemma_consecutive_day_number(days, k);
    }
    assert forall|i: int|
        0 <= i < days.len() && #[trigger] days[i].date.day_number() == n implies measures_of(days, n)
            == Some(days[i]) by {
        lemma_consecutive_day_number(days, i);
    }
}

proof fn lemma_first_not_before_from(m: AstronomicalMeasures, now: DateTime, i: int)
    requires
        m.wf(),
    ensures
        first_not_before(m, now, i) matches Some(p) ==> p.wf() && p.measures == m,
    decreases 9 - i,
{
    if 0 <= i < 9 {
        lemma_first_not_before_from(m, now, i + 1);
        let e = canonical_order()[i];
        if let Some(t) = m.raw(e) {
            DateTime::lemma_at_offset_valid(m.date, t);
        }
    }
}

/// The measures of the date with day number `n` among consecutive `days`.
fn find_measures(days: &Vec<AstronomicalMeasures>, n: i64) -> (r: Option<AstronomicalMeasures>)
    requires
        consecutive_days(days@),
    ensures
        r == measures_of(days@, n as int),
{
    proof {
        lemma_measures_of(days@, 0);
    }
    let first = julian_day(&days[0].date);
    let k: i128 = n as i128 - first as i128;
    if 0 <= k && k < days.len() as i128 {
        Some(days[k as usize])
    } else {
        None
    }
}

/// The next prayer at `now`, with the measures of the dates it needs taken
/// from consecutive `days`.
pub fn next(days: &Vec<AstronomicalMeasures>, now: &DateTime) -> (r: Result<Prayer, PrayerError>)
    requires
        consecutive_days(days@),
        now.valid(),
    ensures
        r == next_prayer_spec(days@, *now),
        r matches Ok(p) ==> p.wf() && days@.contains(p.measures),
{
    proof {
        lemma_measures_of(days@, now.date.day_number());
    }
    let today = match find_measures(days, julian_day(&now.date)) {
        Some(m) => m,
        None => return Err(PrayerError::MissingMeasures),
    };
    proof {
        lemma_first_not_before_from(today, *now, 0);
        let k = now.date.day_number() - days@[0].date.day_number();
        assert(days@[k] == today);
        assert(days@.contains(today));
    }
    let events = Event::list();
    let mut i: usize = 0;
    while i < 9
        invariant
            0 <= i <= 9,
            events@ == canonical_order(),
            today.wf(),
            now.valid(),
            consecutive_days(days@),
            measures_of(days@, now.date.day_number()) == Some(today),
            days@.contains(today),
            first_not_before(today, *now, 0) == first_not_before(today, *now, i as int),
        decreases 9 - i,
    {
        match Prayer::new(events[i], &today) {
            Ok(p) => {
                if p.at.seconds_since(now) >= 0 {
                    return Ok(p);
                }
            },
            Err(_) => {},
        }
        i = i + 1;
    }
    match Prayer::new(Event::Qiyam, &today) {
        Ok(q) => {
            proof {
                lemma_measures_of(days@, q.at.date.day_number() + 1);
            }
            match find_measures(days, julian_day(&q.at.date) + 1) {
                Some(m) => {
                    proof {
                        let k = q.at.date.day_number() + 1 - days@[0].date.day_number();
                        assert(days@[k] == m);
                        assert(days@.contains(m));
                    }
                    q.next(&m)
                },
                None => Err(PrayerError::MissingMeasures),
            }
        },
        Err(e) => Err(e),
    }
}

/// The current prayer at `now`: the one before the next prayer, with the
/// measures of the dates it needs taken from consecutive `days`.
pub fn current(days: &Vec<AstronomicalMeasures>, now: &DateTime) -> (r: Result<Prayer, PrayerError>)
    requires
        consecutive_days(days@),
        now.valid(),
    ensures
        r == current_prayer_spec(days@, *now),
        r matches Ok(p) ==> p.wf(),
{
    match next(days, now) {
        Ok(p) => {
            proof {
                lemma_measures_of(days@, p.at.date.day_number() - 1);
            }
            match find_measures(days, julian_day(&p.at.date) - 1) {
                Some(m) => p.previous(&m),
                None => Err(PrayerError::MissingMeasures),
            }
        },
        Err(e) => Err(e),
    }
}

/// The prayers of every event of the date of the measures, in canonical
/// order; an event without a date-time gives the reason.
pub fn list_prayers_for_date(measures: &AstronomicalMeasures) -> (r: Vec<Result<Prayer, PrayerError>>)
    requires
        measures.wf(),
    ensures
        r@ == list_spec(*measures),
{
    let events = Event::list();
    let mut r: Vec<Result<Prayer, PrayerError>> = Vec::new();
    let mut i: usize = 0;
    while i < 9
        invariant
            0 <= i <= 9,
            events@ == canonical_order(),
            measures.wf(),
            r@.len() == i,
            forall|j: int| 0 <= j < i ==> r@[j] == prayer_spec(canonical_order()[j], *measures),
        decreases 9 - i,
    {
        r.push(Prayer::new(events[i], measures));
        i = i + 1;
    }
    assert(r@ =~= list_spec(*measures));
    r
}

/// Stepping back from a prayer of `days` and forward again returns to it,
/// when it is not Sunset, consecutive days have the same shape, every time of
/// the days stays within its own day, and the measures the step forward looks
/// up are among the days.
proof fn lemma_step_back_forward(days: Seq<AstronomicalMeasures>, p: Prayer)
    requires
        consecutive_days(days),
        forall|i: int| 0 <= i < days.len() ==> within_its_day(#[trigger] days[i]),
        forall|i: int| 0 < i < days.len() ==> same_shape(days[i - 1], #[trigger] days[i]),
        p.wf(),
        days.contains(p.measures),
        p.event != Event::Sunset,
    ensures
        previous_within(p, days) matches Ok(q) ==> measures_of(days, q.at.date.day_number() + 1)
            is Some ==> next_within(q, days) == Ok::<Prayer, PrayerError>(p),
{
    let i = choose|i: int| 0 <= i < days.len() && days[i] == p.measures;
    assert(within_its_day(days[i]));
    lemma_consecutive_day_number(days, i);
    lemma_prayer_on_its_date(p.event, p.measures);
    assert(p.at.date.day_number() == days[i].date.day_number());
    if i > 0 {
        lemma_consecutive_day_number(days, i - 1);
        let before = days[i - 1];
        assert(measures_of(days, p.at.date.day_number() - 1) == Some(before));
        assert(within_its_day(days[i - 1]));
        assert(same_shape(days[i - 1], days[i]));
        lemma_previous_then_next(p, before);
        if let Ok(q) = previous_spec(p, before) {
            lemma_measures_of(days, q.at.date.day_number() + 1);
            if q.measures != p.measures {
                assert(measures_of(days, q.at.date.day_number() + 1) == Some(days[i]));
            }
        }
    }
}

/// The current prayer's next prayer is the next prayer, whenever the next
/// prayer is not Sunset, consecutive days have the same shape, every time of
/// the days stays within its own day, and the measures the step forward
/// looks up are among the days.
pub proof fn lemma_current_then_next(days: Seq<AstronomicalMeasures>, now: DateTime)
    requires
        consecutive_days(days),
        now.valid(),
        forall|i: int| 0 <= i < days.len() ==> within_its_day(#[trigger] days[i]),
        forall|i: int| 0 < i < days.len() ==> same_shape(days[i - 1], #[trigger] days[i]),
    ensures
        (next_prayer_spec(days, now), current_prayer_spec(days, now)) matches (Ok(p), Ok(q))
            ==> p.event != Event::Sunset ==> measures_of(days, q.at.date.day_number() + 1) is Some
            ==> next_within(q, days) == Ok::<Prayer, PrayerError>(p),
{
    lemma_next_facts(days, now);
    if let Ok(p) = next_prayer_spec(days, now) {
        assert(current_prayer_spec(days, now) == previous_within(p, days));
        if p.event != Event::Sunset {
            lemma_step_back_forward(days, p);
        }
    }
}

proof fn lemma_next_facts(days: Seq<AstronomicalMeasures>, now: DateTime)
    requires
        consecutive_days(days),
    ensures
        next_prayer_spec(days, now) matches Ok(p) ==> p.wf() && days.contains(p.measures),
{
    lemma_measures_of(days, now.date.day_number());
    if let Some(today) = measures_of(days, now.date.day_number()) {
        let k = now.date.day_number() - days[0].date.day_number();
        assert(days[k] == today);
        lemma_first_not_before_from(today, now, 0);
        if let Ok(q) = prayer_spec(Event::Qiyam, today) {
            lemma_measures_of(days, q.at.date.day_number() + 1);
            if let Some(m) = measures_of(days, q.at.date.day_number() + 1) {
                let k2 = q.at.date.day_number() + 1 - days[0].date.day_number();
                assert(days[k2] == m);
                if let Some(t) = m.raw(q.event.next_spec()) {
                    DateTime::lemma_at_offset_valid(m.date, t);
                }
                if let Some(t) = today.raw(q.event.next_spec()) {
                    DateTime::lemma_at_offset_valid(today.date, t);
                }
            }
        }
    }
}

/// Listing the prayers of a date is a function of its inputs: measures
/// computed twice from the same date, configuration and solar data (and the
/// same next sunrise) are identical, and so are their lists.
pub proof fn lemma_list_for_date_pure(
    date: Date,
    c: Config,
    s: SolarDay,
    ns: Option<int>,
    m1: AstronomicalMeasures,
    m2: AstronomicalMeasures,
)
    requires
        m1.date == date,
        m2.date == date,
        forall|e: Event| #[trigger] m1.raw(e) == raw_spec(c, s, ns, e),
        forall|e: Event| #[trigger] m2.raw(e) == raw_spec(c, s, ns, e),
    ensures
        m1 == m2,
        list_spec(m1) == list_spec(m2),
{
    assert(m1.raw(Event::Fajr) == m2.raw(Event::Fajr));
    assert(m1.raw(Event::Sunrise) == m2.raw(Event::Sunrise));
    assert(m1.raw(Event::Dhuhr) == m2.raw(Event::Dhuhr));
    assert(m1.raw(Event::Asr) == m2.raw(Event::Asr));
    assert(m1.raw(Event::Sunset) == m2.raw(Event::Sunset));
    assert(m1.raw(Event::Maghrib) == m2.raw(Event::Maghrib));
    assert(m1.raw(Event::Isha) == m2.raw(Event::Isha));
    assert(m1.raw(Event::Midnight) == m2.raw(Event::Midnight));
    assert(m1.raw(Event::Qiyam) == m2.raw(Event::Qiyam));
}

} // verus!
