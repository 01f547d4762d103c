//! Prayer times as a navigable timeline of liturgical events.
//!
//! The trigonometric part of the solar ephemeris works in floating point and
//! is supplied by the caller as a [`measures::SolarDay`] in whole
//! microseconds. Everything that follows it is computed here on integers:
//! the day number of a date, the combination of noon, hour angles and offsets
//! into the nine event times of a day, the resolution of those times into
//! calendar date-times, the cyclic order of the events, the navigation from
//! one prayer to the next across midnight, and the schedule queries.

pub mod calendar;
pub mod config;
pub mod daemon;
pub mod event;
pub mod measures;
pub mod method;
pub mod prayer;
pub mod schedule;

pub use calendar::{add_days, julian_day, Date, DateTime, J2000_DAY};
pub use config::Config;
pub use daemon::{decide, DaemonAction};
pub use event::Event;
pub use measures::{AstronomicalMeasures, PrayerError, SolarDay};
pub use method::{Madhab, Method, MethodVariant, NotifUrgency, ParamValue, Params};
pub use prayer::Prayer;
pub use schedule::{current, list_prayers_for_date, next};
