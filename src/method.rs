use vstd::prelude::*;

verus! {

/// One parameter of a calculation method.
#[derive(Clone, Copy, Debug, PartialEq, Eq, Structural)]
pub enum ParamValue {
    /// A depression angle of the sun below the horizon, in millionths of a
    /// degree.
    Angle(i32),
    /// A fixed number of minutes after Maghrib.
    Minutes(u32),
}

/// The Fajr and Isha parameters of a calculation method.
#[derive(Clone, Copy, Debug, PartialEq, Eq, Structural)]
pub struct Params {
    pub fajr: ParamValue,
    pub isha: ParamValue,
}

/// A calculation method: its display name and its parameters.
#[derive(Clone, Copy, Debug)]
pub struct Method {
    pub name: &'static str,
    pub params: Params,
}

/// The calculation methods that a configuration can name.
#[derive(Clone, Copy, Debug, PartialEq, Eq, Hash, Structural)]
pub enum MethodVariant {
    MWL,
    ISNA,
    EGYPT,
    MAKKAH,
    KARACHI,
    TEHRAN,
    JAFARI,
    GULF,
    KUWAIT,
    QATAR,
    SINGAPORE,
    FRANCE,
    TURKEY,
    RUSSIA,
    DUBAI,
    JAKIM,
    TUNISIA,
    ALGERIA,
    KEMENAG,
    MOROCCO,
    PORTUGAL,
    JORDAN,
}

/// A depression angle given in tenths of a degree.
pub open spec fn tenths(t: int) -> ParamValue {
    ParamValue::Angle((t * 100_000) as i32)
}

impl MethodVariant {
    /// The Fajr and Isha parameters of each method.
    pub open spec fn params_spec(self) -> Params {
        match self {
            MethodVariant::MWL => Params { fajr: tenths(180), isha: tenths(170) },
            MethodVariant::ISNA => Params { fajr: tenths(150), isha: tenths(150) },
            MethodVariant::EGYPT => Params { fajr: tenths(195), isha: tenths(175) },
            MethodVariant::MAKKAH => Params { fajr: tenths(185), isha: ParamValue::Minutes(90) },
            MethodVariant::KARACHI => Params { fajr: tenths(180), isha: tenths(180) },
            MethodVariant::TEHRAN => Params { fajr: tenths(177), isha: tenths(140) },
            MethodVariant::JAFARI => Params { fajr: tenths(160), isha: tenths(140) },
            MethodVariant::GULF => Params { fajr: tenths(195), isha: ParamValue::Minutes(90) },
            MethodVariant::KUWAIT => Params { fajr: tenths(180), isha: tenths(175) },
            MethodVariant::QATAR => Params { fajr: tenths(180), isha: ParamValue::Minutes(90) },
            MethodVariant::SINGAPORE => Params { fajr: tenths(200), isha: tenths(180) },
            MethodVariant::FRANCE => Params { fajr: tenths(120), isha: tenths(120) },
            MethodVariant::TURKEY => Params { fajr: tenths(180), isha: tenths(170) },
            MethodVariant::RUSSIA => Params { fajr: tenths(160), isha: tenths(150) },
            MethodVariant::DUBAI => Params { fajr: tenths(182), isha: tenths(182) },
            MethodVariant::JAKIM => Params { fajr: tenths(200), isha: tenths(180) },
            MethodVariant::TUNISIA => Params { fajr: tenths(180), isha: tenths(180) },
            MethodVariant::ALGERIA => Params { fajr: tenths(180), isha: tenths(170) },
            MethodVariant::KEMENAG => Params { fajr: tenths(200), isha: tenths(180) },
            MethodVariant::MOROCCO => Params { fajr: tenths(190), isha: tenths(170) },
            MethodVariant::PORTUGAL => Params { fajr: tenths(180), isha: ParamValue::Minutes(77) },
            MethodVariant::JORDAN => Params { fajr: tenths(180), isha: tenths(180) },
        }
    }

    /// The display name of each method.
    pub open spec fn name_spec(self) -> Seq<char> {
        match self {
            MethodVariant::MWL => "Muslim World League"@,
            MethodVariant::ISNA => "Islamic Society of North America (ISNA)"@,
            MethodVariant::EGYPT => "Egyptian General Authority of Survey"@,
            MethodVariant::MAKKAH => "Umm Al-Qura University, Makkah"@,
            MethodVariant::KARACHI => "University of Islamic Sciences, Karachi"@,
            MethodVariant::TEHRAN => "Institute of Geophysics, University of Tehran"@,
            MethodVariant::JAFARI => "Shia Ithna-Ashari, Leva Institute, Qum"@,
            MethodVariant::GULF => "Gulf Region"@,
            MethodVariant::KUWAIT => "Kuwait"@,
            MethodVariant::QATAR => "Qatar"@,
            MethodVariant::SINGAPORE => "Majlis Ugama Islam Singapura, Singapore"@,
            MethodVariant::FRANCE => "Union Organization Islamic de France"@,
            MethodVariant::TURKEY => "Diyanet İşleri Başkanlığı, Turkey"@,
            MethodVariant::RUSSIA => "Spiritual Administration of Muslims of Russia"@,
            MethodVariant::DUBAI => "Dubai"@,
            MethodVariant::JAKIM => "Jabatan Kemajuan Islam Malaysia (JAKIM)"@,
            MethodVariant::TUNISIA => "Tunisia"@,
            MethodVariant::ALGERIA => "Algeria"@,
            MethodVariant::KEMENAG => "Kementerian Agama Republik Indonesia"@,
            MethodVariant::MOROCCO => "Morocco"@,
            MethodVariant::PORTUGAL => "Comunidade Islamica de Lisboa"@,
            MethodVariant::JORDAN => "Ministry of Awqaf, Islamic Affairs and Holy Places, Jordan"@,
        }
    }

    /// The name and parameters of the method.
    pub fn get(&self) -> (r: Method)
        ensures
            r.params == self.params_spec(),
            r.name@ == self.name_spec(),
    {
        let (name, fajr, isha): (&'static str, ParamValue, ParamValue) = match self {
            MethodVariant::MWL => ("Muslim World League", ParamValue::Angle(18_000_000), ParamValue::Angle(17_000_000)),
            MethodVariant::ISNA => ("Islamic Society of North America (ISNA)", ParamValue::Angle(15_000_000), ParamValue::Angle(15_000_000)),
            MethodVariant::EGYPT => ("Egyptian General Authority of Survey", ParamValue::Angle(19_500_000), ParamValue::Angle(17_500_000)),
            MethodVariant::MAKKAH => ("Umm Al-Qura University, Makkah", ParamValue::Angle(18_500_000), ParamValue::Minutes(90)),
            MethodVariant::KARACHI => ("University of Islamic Sciences, Karachi", ParamValue::Angle(18_000_000), ParamValue::Angle(18_000_000)),
            MethodVariant::TEHRAN => ("Institute of Geophysics, University of Tehran", ParamValue::Angle(17_700_000), ParamValue::Angle(14_000_000)),
            MethodVariant::JAFARI => ("Shia Ithna-Ashari, Leva Institute, Qum", ParamValue::Angle(16_000_000), ParamValue::Angle(14_000_000)),
            MethodVariant::GULF => ("Gulf Region", ParamValue::Angle(19_500_000), ParamValue::Minutes(90)),
            MethodVariant::KUWAIT => ("Kuwait", ParamValue::Angle(18_000_000), ParamValue::Angle(17_500_000)),
            MethodVariant::QATAR => ("Qatar", ParamValue::Angle(18_000_000), ParamValue::Minutes(90)),
            MethodVariant::SINGAPORE => ("Majlis Ugama Islam Singapura, Singapore", ParamValue::Angle(20_000_000), ParamValue::Angle(18_000_000)),
            MethodVariant::FRANCE => ("Union Organization Islamic de France", ParamValue::Angle(12_000_000), ParamValue::Angle(12_000_000)),
            MethodVariant::TURKEY => ("Diyanet İşleri Başkanlığı, Turkey", ParamValue::Angle(18_000_000), ParamValue::Angle(17_000_000)),
            MethodVariant::RUSSIA => ("Spiritual Administration of Muslims of Russia", ParamValue::Angle(16_000_000), ParamValue::Angle(15_000_000)),
            MethodVariant::DUBAI => ("Dubai", ParamValue::Angle(18_200_000), ParamValue::Angle(18_200_000)),
            MethodVariant::JAKIM => ("Jabatan Kemajuan Islam Malaysia (JAKIM)", ParamValue::Angle(20_000_000), ParamValue::Angle(18_000_000)),
            MethodVariant::TUNISIA => ("Tunisia", ParamValue::Angle(18_000_000), ParamValue::Angle(18_000_000)),
            MethodVariant::ALGERIA => ("Algeria", ParamValue::Angle(18_000_000), ParamValue::Angle(17_000_000)),
            MethodVariant::KEMENAG => ("Kementerian Agama Republik Indonesia", ParamValue::Angle(20_000_000), ParamValue::Angle(18_000_000)),
            MethodVariant::MOROCCO => ("Morocco", ParamValue::Angle(19_000_000), ParamValue::Angle(17_000_000)),
            MethodVariant::PORTUGAL => ("Comunidade Islamica de Lisboa", ParamValue::Angle(18_000_000), ParamValue::Minutes(77)),
            MethodVariant::JORDAN => ("Ministry of Awqaf, Islamic Affairs and Holy Places, Jordan", ParamValue::Angle(18_000_000), ParamValue::Angle(18_000_000)),
        };
        Method { name, params: Params { fajr, isha } }
    }
}

/// The jurisprudential school, which fixes the shadow length of Asr.
#[derive(Clone, Copy, Debug, PartialEq, Eq, Hash, Structural)]
pub enum Madhab {
    Shafi,
    Hanafi,
}

impl Madhab {
    pub open spec fn shadow_multiplier_spec(self) -> u8 {
        match self {
            Madhab::Shafi => 1,
            Madhab::Hanafi => 2,
        }
    }

    /// The length of an object's shadow, in object lengths, beyond its noon
    /// shadow at the start of Asr.
    pub fn shadow_multiplier(&self) -> (r: u8)
        ensures
            r == self.shadow_multiplier_spec(),
    {
        match self {
            Madhab::Shafi => 1,
            Madhab::Hanafi => 2,
        }
    }
}

impl Default for Madhab {
    fn default() -> (r: Madhab)
        ensures
            r == Madhab::Shafi,
    {
        Madhab::Shafi
    }
}

/// How insistently a notification asks for attention.
#[derive(Clone, Copy, Debug, PartialEq, Eq, Hash, Structural)]
pub enum NotifUrgency {
    Low,
    Normal,
    Critical,
}

impl Default for NotifUrgency {
    fn default() -> (r: NotifUrgency)
        ensures
            r == NotifUrgency::Critical,
    {
        NotifUrgency::Critical
    }
}

} // verus!
