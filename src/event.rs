use vstd::prelude::*;

verus! {

/// The liturgical events of a day, in canonical display order.
///
/// Sunset and Maghrib are one physical instant under two names: both follow
/// Asr and both are followed by Isha.
#[derive(Clone, Copy, Debug, PartialEq, Eq, Hash, Structural)]
pub enum Event {
    Fajr,
    Sunrise,
    Dhuhr,
    Asr,
    Sunset,
    Maghrib,
    Isha,
    Midnight,
    Qiyam,
}

/// The nine events in canonical display order.
pub open spec fn canonical_order() -> Seq<Event> {
    seq![
        Event::Fajr,
        Event::Sunrise,
        Event::Dhuhr,
        Event::Asr,
        Event::Sunset,
        Event::Maghrib,
        Event::Isha,
        Event::Midnight,
        Event::Qiyam,
    ]
}

impl Event {
    /// Position of the event in canonical display order.
    pub open spec fn index_spec(self) -> int {
        match self {
            Event::Fajr => 0,
            Event::Sunrise => 1,
            Event::Dhuhr => 2,
            Event::Asr => 3,
            Event::Sunset => 4,
            Event::Maghrib => 5,
            Event::Isha => 6,
            Event::Midnight => 7,
            Event::Qiyam => 8,
        }
    }

    /// The event that precedes this one in the daily cycle.
    pub open spec fn previous_spec(self) -> Event {
        match self {
            Event::Fajr => Event::Qiyam,
            Event::Sunrise => Event::Fajr,
            Event::Dhuhr => Event::Sunrise,
            Event::Asr => Event::Dhuhr,
            Event::Sunset => Event::Asr,
            Event::Maghrib => Event::Asr,
            Event::Isha => Event::Maghrib,
            Event::Midnight => Event::Isha,
            Event::Qiyam => Event::Midnight,
        }
    }

    /// The event that follows this one in the daily cycle.
    pub open spec fn next_spec(self) -> Event {
        match self {
            Event::Fajr => Event::Sunrise,
            Event::Sunrise => Event::Dhuhr,
            Event::Dhuhr => Event::Asr,
            Event::Asr => Event::Maghrib,
            Event::Sunset => Event::Isha,
            Event::Maghrib => Event::Isha,
            Event::Isha => Event::Midnight,
            Event::Midnight => Event::Qiyam,
            Event::Qiyam => Event::Fajr,
        }
    }

    /// The display name of the event.
    pub open spec fn name_spec(self) -> Seq<char> {
        match self {
            Event::Fajr => "Fajr"@,
            Event::Sunrise => "Sunrise"@,
            Event::Dhuhr => "Dhuhr"@,
            Event::Asr => "Asr"@,
            Event::Sunset => "Sunset"@,
            Event::Maghrib => "Maghrib"@,
            Event::Isha => "Isha"@,
            Event::Midnight => "Midnight"@,
            Event::Qiyam => "Qiyam"@,
        }
    }

    /// Position of the event in canonical display order.
    pub fn index(&self) -> (r: usize)
        ensures
            r == self.index_spec(),
            r < 9,
            canonical_order()[r as int] == *self,
    {
        match self {
            Event::Fajr => 0,
            Event::Sunrise => 1,
            Event::Dhuhr => 2,
            Event::Asr => 3,
            Event::Sunset => 4,
            Event::Maghrib => 5,
            Event::Isha => 6,
            Event::Midnight => 7,
            Event::Qiyam => 8,
        }
    }

    /// All events, in canonical display order.
    pub fn list() -> (r: [Event; 9])
        ensures
            r@ == canonical_order(),
    {
        let r = [
            Event::Fajr,
            Event::Sunrise,
            Event::Dhuhr,
            Event::Asr,
            Event::Sunset,
            Event::Maghrib,
            Event::Isha,
            Event::Midnight,
            Event::Qiyam,
        ];
        assert(r@ =~= canonical_order());
        r
    }

    /// The preceding event, read from the predecessor table.
    pub fn previous(&self) -> (r: Event)
        ensures
            r == self.previous_spec(),
    {
        let table: [Event; 9] = [
            Event::Qiyam,
            Event::Fajr,
            Event::Sunrise,
            Event::Dhuhr,
            Event::Asr,
            Event::Asr,
            Event::Maghrib,
            Event::Isha,
            Event::Midnight,
        ];
        table[self.index()]
    }

    /// The following event, read from the successor table.
    pub fn next(&self) -> (r: Event)
        ensures
            r == self.next_spec(),
    {
        let table: [Event; 9] = [
            Event::Sunrise,
            Event::Dhuhr,
            Event::Asr,
            Event::Maghrib,
            Event::Isha,
            Event::Isha,
            Event::Midnight,
            Event::Qiyam,
            Event::Fajr,
        ];
        table[self.index()]
    }

    /// The display name of the event.
    pub fn name(&self) -> (r: &'static str)
        ensures
            r@ == self.name_spec(),
    {
        match self {
            Event::Fajr => "Fajr",
            Event::Sunrise => "Sunrise",
            Event::Dhuhr => "Dhuhr",
            Event::Asr => "Asr",
            Event::Sunset => "Sunset",
            Event::Maghrib => "Maghrib",
            Event::Isha => "Isha",
            Event::Midnight => "Midnight",
            Event::Qiyam => "Qiyam",
        }
    }
}

/// Going one step forward and one step back (or back, then forward) returns
/// to the starting event for every event but Sunset, in particular for Fajr,
/// Dhuhr, Asr, Maghrib and Isha.
pub proof fn lemma_step_round_trip(e: Event)
    requires
        e != Event::Sunset,
    ensures
        e.next_spec().previous_spec() == e,
        e.previous_spec().next_spec() == e,
{
}

/// Sunset and Maghrib converge: they share their predecessor and their
/// successor, so around them the cycle is many-to-one.
pub proof fn lemma_sunset_maghrib_converge()
    ensures
        Event::Sunset.previous_spec() == Event::Maghrib.previous_spec(),
        Event::Sunset.next_spec() == Event::Maghrib.next_spec(),
        Event::Sunset.next_spec().previous_spec() == Event::Maghrib,
{
}

} // verus!
