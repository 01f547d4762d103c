use crate::event::Event;
use crate::method::{Madhab, MethodVariant, ParamValue};
use vstd::prelude::*;

verus! {

/// Largest distance from UTC of a local time, in seconds.
pub const MAX_UTC_OFFSET: i32 = 86400;

/// Largest fixed interval, in minutes, that a method may place between an
/// event and the one it is measured from.
pub const MAX_PARAM_MINUTES: u32 = 1440;

/// Where and how prayer times are computed.
#[derive(Clone, Copy, Debug, PartialEq, Eq, Structural)]
pub struct Config {
    /// Latitude in millionths of a degree, north positive.
    pub latitude: i32,
    /// Longitude in millionths of a degree, east positive.
    pub longitude: i32,
    /// Offset of local time from UTC, in seconds.
    pub utc_offset: i32,
    pub fajr: ParamValue,
    pub isha: ParamValue,
    pub madhab: Madhab,
    /// Minutes added to the computed Fajr, Dhuhr, Asr, Maghrib and Isha.
    pub fajr_mod: i8,
    pub dhuhr_mod: i8,
    pub asr_mod: i8,
    pub maghrib_mod: i8,
    pub isha_mod: i8,
}

pub open spec fn param_valid(p: ParamValue) -> bool {
    match p {
        ParamValue::Angle(a) => -90_000_000 <= a <= 90_000_000,
        ParamValue::Minutes(m) => m <= MAX_PARAM_MINUTES,
    }
}

impl Config {
    /// A place on Earth, an offset from UTC of at most a day, and method
    /// parameters within their natural range.
    pub open spec fn valid(self) -> bool {
        &&& -90_000_000 <= self.latitude <= 90_000_000
        &&& -180_000_000 <= self.longitude <= 180_000_000
        &&& -MAX_UTC_OFFSET <= self.utc_offset <= MAX_UTC_OFFSET
        &&& param_valid(self.fajr)
        &&& param_valid(self.isha)
    }

    /// The signed minute offset configured for an event; the events that
    /// have no offset of their own get zero.
    pub open spec fn offset_spec(self, event: Event) -> int {
        match event {
            Event::Fajr => self.fajr_mod as int,
            Event::Dhuhr => self.dhuhr_mod as int,
            Event::Asr => self.asr_mod as int,
            Event::Maghrib => self.maghrib_mod as int,
            Event::Isha => self.isha_mod as int,
            _ => 0,
        }
    }

    /// Whether the configuration is valid.
    pub fn is_valid(&self) -> (r: bool)
        ensures
            r == self.valid(),
    {
        let param_ok = |p: ParamValue| -> (r: bool)
            ensures
                r == param_valid(p),
            {
                match p {
                    ParamValue::Angle(a) => -90_000_000 <= a && a <= 90_000_000,
                    ParamValue::Minutes(m) => m <= MAX_PARAM_MINUTES,
                }
            };
        -90_000_000 <= self.latitude && self.latitude <= 90_000_000 && -180_000_000
            <= self.longitude && self.longitude <= 180_000_000 && -MAX_UTC_OFFSET
            <= self.utc_offset && self.utc_offset <= MAX_UTC_OFFSET && param_ok(self.fajr)
            && param_ok(self.isha)
    }

    /// A configuration with a named method and no minute offsets.
    pub fn new(latitude: i32, longitude: i32, utc_offset: i32, method: MethodVariant, madhab: Madhab) -> (r: Config)
        ensures
            r.latitude == latitude,
            r.longitude == longitude,
            r.utc_offset == utc_offset,
            r.fajr == method.params_spec().fajr,
            r.isha == method.params_spec().isha,
            r.madhab == madhab,
            r.fajr_mod == 0 && r.dhuhr_mod == 0 && r.asr_mod == 0 && r.maghrib_mod == 0
                && r.isha_mod == 0,
    {
        let params = method.get().params;
        Config {
            latitude,
            longitude,
            utc_offset,
            fajr: params.fajr,
            isha: params.isha,
            madhab,
            fajr_mod: 0,
            dhuhr_mod: 0,
            asr_mod: 0,
            maghrib_mod: 0,
            isha_mod: 0,
        }
    }

    /// The same configuration with the given minute offsets.
    pub fn with_offsets(self, fajr: i8, dhuhr: i8, asr: i8, maghrib: i8, isha: i8) -> (r: Config)
        ensures
            r == (Config {
                fajr_mod: fajr,
                dhuhr_mod: dhuhr,
                asr_mod: asr,
                maghrib_mod: maghrib,
                isha_mod: isha,
                ..self
            }),
    {
        Config { fajr_mod: fajr, dhuhr_mod: dhuhr, asr_mod: asr, maghrib_mod: maghrib, isha_mod: isha, ..self }
    }

    /// Latitude in millionths of a degree.
    pub fn lat(&self) -> (r: i32)
        ensures
            r == self.latitude,
    {
        self.latitude
    }

    /// Longitude in millionths of a degree.
    pub fn lon(&self) -> (r: i32)
        ensures
            r == self.longitude,
    {
        self.longitude
    }

    pub fn fajr_angle(&self) -> (r: ParamValue)
        ensures
            r == self.fajr,
    {
        self.fajr
    }

    pub fn isha_angle(&self) -> (r: ParamValue)
        ensures
            r == self.isha,
    {
        self.isha
    }

    pub fn shadow_multiplier(&self) -> (r: u8)
        ensures
            r == self.madhab.shadow_multiplier_spec(),
    {
        self.madhab.shadow_multiplier()
    }

    /// The signed minute offset of an event.
    pub fn offset(&self, event: Event) -> (r: i8)
        ensures
            r == self.offset_spec(event),
    {
        match event {
            Event::Fajr => self.fajr_mod,
            Event::Dhuhr => self.dhuhr_mod,
            Event::Asr => self.asr_mod,
            Event::Maghrib => self.maghrib_mod,
            Event::Isha => self.isha_mod,
            _ => 0,
        }
    }
}

impl Default for MethodVariant {
    fn default() -> (r: MethodVariant)
        ensures
            r == MethodVariant::MWL,
    {
        MethodVariant::MWL
    }
}

} // verus!
