use crate::calendar::DateTime;
use crate::event::Event;
use crate::measures::{AstronomicalMeasures, PrayerError};
use vstd::prelude::*;

verus! {

/// An event bound to the date-time it resolves to on the date of its
/// measures, which it owns.
#[derive(Clone, Copy, Debug)]
pub struct Prayer {
    pub event: Event,
    pub at: DateTime,
    pub measures: AstronomicalMeasures,
}

/// The prayer of an event on the date of some measures, or why there is none.
pub open spec fn prayer_spec(event: Event, m: AstronomicalMeasures) -> Result<Prayer, PrayerError> {
    match m.date_time_spec(event) {
        Ok(at) => Ok(Prayer { event, at, measures: m }),
        Err(e) => Err(e),
    }
}

/// The prayer before `p`: its predecessor event from `p`'s measures when
/// that comes no later in the day, else the predecessor from the measures of
/// the day before the date `p` falls on.
pub open spec fn previous_spec(p: Prayer, day_before: AstronomicalMeasures) -> Result<Prayer, PrayerError> {
    match prayer_spec(p.event.previous_spec(), p.measures) {
        Ok(c) => if c.at.seconds <= p.at.seconds {
            Ok(c)
        } else {
            prayer_spec(p.event.previous_spec(), day_before)
        },
        Err(e) => Err(e),
    }
}

/// The prayer after `p`: its successor event from `p`'s measures when that
/// comes no earlier in the day, else the successor from the measures of the
/// day after the date `p` falls on.
pub open spec fn next_spec(p: Prayer, day_after: AstronomicalMeasures) -> Result<Prayer, PrayerError> {
    match prayer_spec(p.event.next_spec(), p.measures) {
        Ok(c) => if c.at.seconds >= p.at.seconds {
            Ok(c)
        } else {
            prayer_spec(p.event.next_spec(), day_after)
        },
        Err(e) => Err(e),
    }
}

/// Seconds from `now` until the prayer, or zero once it has come.
pub open spec fn remaining_spec(p: Prayer, now: DateTime) -> int {
    let d = p.at.instant() - now.instant();
    if d < 0 { 0 } else { d }
}

impl PartialEq for Prayer {
    /// Two prayers are equal when they are the same event at the same
    /// date-time.
    fn eq(&self, other: &Prayer) -> (r: bool) {
        self.event == other.event && self.at == other.at
    }
}

impl vstd::std_specs::cmp::PartialEqSpecImpl for Prayer {
    open spec fn obeys_eq_spec() -> bool {
        true
    }

    open spec fn eq_spec(&self, other: &Prayer) -> bool {
        self.event == other.event && self.at == other.at
    }
}

impl Prayer {
    /// A prayer whose date-time is the one its measures give its event.
    pub open spec fn wf(self) -> bool {
        &&& self.measures.wf()
        &&& self.at.valid()
        &&& self.measures.date_time_spec(self.event) == Ok::<DateTime, PrayerError>(self.at)
    }

    /// The prayer of an event on the date of the measures.
    pub fn new(event: Event, measures: &AstronomicalMeasures) -> (r: Result<Prayer, PrayerError>)
        requires
            measures.wf(),
        ensures
            r == prayer_spec(event, *measures),
            r matches Ok(p) ==> p.wf() && p.at.valid(),
    {
        match measures.date_time(event) {
            Ok(at) => Ok(Prayer { event, at, measures: *measures }),
            Err(e) => Err(e),
        }
    }

    pub fn event(&self) -> (r: Event)
        ensures
            r == self.event,
    {
        self.event
    }

    pub fn date_time(&self) -> (r: DateTime)
        ensures
            r == self.at,
    {
        self.at
    }

    /// The date the prayer falls on.
    pub fn date(&self) -> (r: crate::calendar::Date)
        ensures
            r == self.at.date,
    {
        self.at.date
    }

    /// Seconds since midnight of the prayer's wall-clock time.
    pub fn time(&self) -> (r: u32)
        ensures
            r == self.at.seconds,
    {
        self.at.seconds
    }

    /// The prayer before this one: from its own measures, or from
    /// `day_before`, the measures of the day before the date it falls on.
    pub fn previous(&self, day_before: &AstronomicalMeasures) -> (r: Result<Prayer, PrayerError>)
        requires
            self.wf(),
            day_before.wf(),
            day_before.date.day_number() == self.at.date.day_number() - 1,
        ensures
            r == previous_spec(*self, *day_before),
            r matches Ok(p) ==> p.wf() && p.at.valid(),
    {
        let event = self.event.previous();
        match Prayer::new(event, &self.measures) {
            Ok(c) => if c.at.seconds <= self.at.seconds {
                Ok(c)
            } else {
                Prayer::new(event, day_before)
            },
            Err(e) => Err(e),
        }
    }

    /// The prayer after this one: from its own measures, or from
    /// `day_after`, the measures of the day after the date it falls on.
    pub fn next(&self, day_after: &AstronomicalMeasures) -> (r: Result<Prayer, PrayerError>)
        requires
            self.wf(),
            day_after.wf(),
            day_after.date.day_number() == self.at.date.day_number() + 1,
        ensures
            r == next_spec(*self, *day_after),
            r matches Ok(p) ==> p.wf() && p.at.valid(),
    {
        let event = self.event.next();
        match Prayer::new(event, &self.measures) {
            Ok(c) => if c.at.seconds >= self.at.seconds {
                Ok(c)
            } else {
                Prayer::new(event, day_after)
            },
            Err(e) => Err(e),
        }
    }

    /// Seconds from `now` until the prayer, clamped to zero once it has come.
    pub fn time_remaining(&self, now: &DateTime) -> (r: i64)
        requires
            self.at.valid(),
            now.valid(),
        ensures
            r == remaining_spec(*self, *now),
            r >= 0,
    {
        let d = self.at.seconds_since(now);
        if d < 0 {
            0
        } else {
            d
        }
    }

    /// Whether the prayer's time has come at `now`.
    pub fn time_has_passed(&self, now: &DateTime) -> (r: bool)
        requires
            self.at.valid(),
            now.valid(),
        ensures
            r == (remaining_spec(*self, *now) <= 0),
            r == (self.at.instant() <= now.instant()),
    {
        self.time_remaining(now) <= 0
    }
}

/// The time remaining never grows as `now` advances, and is never negative.
pub proof fn lemma_time_remaining_monotone(p: Prayer, now1: DateTime, now2: DateTime)
    requires
        now1.instant() <= now2.instant(),
    ensures
        remaining_spec(p, now2) <= remaining_spec(p, now1),
        remaining_spec(p, now1) >= 0,
{
}

/// Whether, on the date of `m`, event `a` has a date-time later in the day
/// than event `b`.
pub open spec fn later_in_day(m: AstronomicalMeasures, a: Event, b: Event) -> bool {
    prayer_spec(a, m) matches Ok(x) && (prayer_spec(b, m) matches Ok(y) && x.at.seconds
        > y.at.seconds)
}

/// Two consecutive dates have the same shape when every event whose
/// predecessor comes later in the day on the later date has it so on the
/// earlier date too.
pub open spec fn same_shape(earlier: AstronomicalMeasures, later: AstronomicalMeasures) -> bool {
    forall|e: Event| #[trigger]
        later_in_day(later, e.previous_spec(), e) ==> later_in_day(earlier, e.previous_spec(), e)
}

/// Every raw time of the measures lies within its own day, so that each of
/// its events falls on the date of the measures.
pub open spec fn within_its_day(m: AstronomicalMeasures) -> bool {
    forall|e: Event|
        #[trigger] m.raw(e) matches Some(t) ==> 0 <= t < 24 * crate::measures::MICROS_PER_HOUR
}

/// A prayer from measures whose times stay within their day falls on the
/// date of those measures.
pub proof fn lemma_prayer_on_its_date(e: Event, m: AstronomicalMeasures)
    requires
        m.wf(),
        within_its_day(m),
    ensures
        prayer_spec(e, m) matches Ok(p) ==> p.at.date.day_number() == m.date.day_number(),
{
    if let Some(t) = m.raw(e) {
        assert(0 <= t < 24 * crate::measures::MICROS_PER_HOUR);
        assert(t / 1_000_000 < 86400);
        assert(0 <= t / 1_000_000);
        assert((t / 1_000_000) / 86400 == 0);
    }
}

/// Stepping back from a prayer and then forward again returns to it, for
/// every event but Sunset, when the prayer falls on the date of its measures,
/// the day before has the same shape and its times stay within that day.
/// The step forward takes the measures of the day after the date the step
/// back landed on; when the step back stayed on the prayer's measures it
/// needs none.
pub proof fn lemma_previous_then_next(p: Prayer, day_before: AstronomicalMeasures)
    requires
        p.wf(),
        day_before.wf(),
        day_before.date.day_number() == p.at.date.day_number() - 1,
        p.at.date.day_number() == p.measures.date.day_number(),
        within_its_day(day_before),
        p.event != Event::Sunset,
        same_shape(day_before, p.measures),
    ensures
        previous_spec(p, day_before) matches Ok(q) ==> (if q.measures == p.measures {
            forall|m: AstronomicalMeasures| next_spec(q, m) == Ok::<Prayer, PrayerError>(p)
        } else {
            q.at.date.day_number() + 1 == p.measures.date.day_number() && next_spec(q, p.measures)
                == Ok::<Prayer, PrayerError>(p)
        }),
{
    crate::event::lemma_step_round_trip(p.event);
    let e = p.event;
    assert(prayer_spec(e, p.measures) == Ok::<Prayer, PrayerError>(p));
    lemma_prayer_on_its_date(e.previous_spec(), day_before);
    if let Ok(c) = prayer_spec(e.previous_spec(), p.measures) {
        if c.at.seconds > p.at.seconds {
            assert(later_in_day(p.measures, e.previous_spec(), e));
            assert(later_in_day(day_before, e.previous_spec(), e));
            assert(day_before != p.measures);
        }
    }
}

} // verus!
