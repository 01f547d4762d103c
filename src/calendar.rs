use chrono::Datelike;
use vstd::arithmetic::div_mod::lemma_hoist_over_denominator;
use vstd::prelude::*;

verus! {

/// First year of the proleptic Gregorian calendar that dates can hold.
pub const MIN_YEAR: i32 = -262143;

/// Last year of the proleptic Gregorian calendar that dates can hold.
pub const MAX_YEAR: i32 = 262142;

/// Seconds in a civil day.
pub const SECONDS_PER_DAY: i64 = 86400;

/// Day number of the epoch J2000.0 (2000-01-01).
pub const J2000_DAY: i64 = 2451545;

pub open spec fn is_leap_year(y: int) -> bool {
    (y % 4 == 0 && y % 100 != 0) || y % 400 == 0
}

pub open spec fn days_in_month(y: int, m: int) -> int {
    if m == 2 {
        if is_leap_year(y) { 29 } else { 28 }
    } else if m == 4 || m == 6 || m == 9 || m == 11 {
        30
    } else {
        31
    }
}

/// The Julian Day Number of a proleptic Gregorian date, by the standard
/// integer formula (with floor division, which keeps it exact for every year).
pub open spec fn day_number_of(y: int, m: int, d: int) -> int {
    let a: int = if m <= 2 { -1 } else { 0 };
    (1461 * (y + 4800 + a)) / 4 + (367 * (m - 2 - 12 * a)) / 12 - (3 * ((y + 4900 + a) / 100)) / 4
        + d - 32075
}

/// A calendar date of the proleptic Gregorian calendar.
#[derive(Clone, Copy, Debug, PartialEq, Eq, Hash, Structural)]
pub struct Date {
    pub year: i32,
    pub month: u32,
    pub day: u32,
}

impl Date {
    /// A real date whose year lies in the supported range.
    pub open spec fn valid(self) -> bool {
        &&& MIN_YEAR <= self.year <= MAX_YEAR
        &&& 1 <= self.month <= 12
        &&& 1 <= self.day <= days_in_month(self.year as int, self.month as int)
    }

    /// The Julian Day Number of the date: consecutive dates have consecutive
    /// numbers.
    pub open spec fn day_number(self) -> int {
        day_number_of(self.year as int, self.month as int, self.day as int)
    }

    /// The date for a year, month and day, if there is one in range.
    pub fn new(year: i32, month: u32, day: u32) -> (r: Option<Date>)
        ensures
            r is Some <==> (Date { year, month, day }).valid(),
            r matches Some(d) ==> d == (Date { year, month, day }),
    {
        if year < MIN_YEAR || year > MAX_YEAR || month < 1 || month > 12 || day < 1 {
            return None;
        }
        let leap = (year % 4 == 0 && year % 100 != 0) || year % 400 == 0;
        let last: u32 = if month == 2 {
            if leap { 29 } else { 28 }
        } else if month == 4 || month == 6 || month == 9 || month == 11 {
            30
        } else {
            31
        };
        if day > last {
            None
        } else {
            Some(Date { year, month, day })
        }
    }
}

/// Shifting the year by 400k moves the day number by 146097k days.
proof fn lemma_day_number_period(y: int, m: int, d: int, k: int)
    requires
        k >= 0,
    ensures
        day_number_of(y + 400 * k, m, d) == day_number_of(y, m, d) + 146097 * k,
{
    let a: int = if m <= 2 { -1 } else { 0 };
    let p = y + 4800 + a;
    let q = y + 4900 + a;
    assert((1461 * (p + 400 * k)) / 4 == (1461 * p) / 4 + 146100 * k) by {
        assert(1461 * (p + 400 * k) == 1461 * p + (146100 * k) * 4) by (nonlinear_arith);
        lemma_hoist_over_denominator(1461 * p, 146100 * k, 4);
    }
    assert((q + 400 * k) / 100 == q / 100 + 4 * k) by {
        assert(q + 400 * k == q + (4 * k) * 100) by (nonlinear_arith);
        lemma_hoist_over_denominator(q, 4 * k, 100);
    }
    assert((3 * (q / 100 + 4 * k)) / 4 == (3 * (q / 100)) / 4 + 3 * k) by {
        assert(3 * (q / 100 + 4 * k) == 3 * (q / 100) + (3 * k) * 4) by (nonlinear_arith);
        lemma_hoist_over_denominator(3 * (q / 100), 3 * k, 4);
    }
}

/// The Julian Day Number of a date.
pub fn julian_day(date: &Date) -> (r: i64)
    requires
        date.valid(),
    ensures
        r == date.day_number(),
{
    // Shifting the year by 656 cycles of 400 years keeps every intermediate
    // value non-negative, so that integer division is floor division.
    let a: u64 = if date.month <= 2 { 1 } else { 0 };
    let p: u64 = (date.year as i64 + 4800 + 262400 - a as i64) as u64;
    let mm: u64 = date.month as u64 + 12 * a - 2;
    let b: u64 = 1461 * p / 4;
    let c: u64 = 367 * mm / 12;
    let e: u64 = 3 * ((p + 100) / 100) / 4;
    let shifted: i64 = b as i64 + c as i64 - e as i64 + date.day as i64 - 32075;
    proof {
        lemma_day_number_period(date.year as int, date.month as int, date.day as int, 656);
    }
    shifted - 146097 * 656
}

/// The valid date with a given day number. Day numbers number the days of
/// the calendar one by one, so there is at most one.
pub open spec fn date_with_day_number(n: int) -> Date {
    choose|d: Date| d.valid() && d.day_number() == n
}

/// Whether some valid date has the day number `n`.
pub open spec fn has_date(n: int) -> bool {
    exists|d: Date| d.valid() && d.day_number() == n
}

/// Relies on chrono's `NaiveDate::checked_add_days`: the proleptic Gregorian
/// date `n` days later, or `None` exactly when chrono's range of years (the
/// range of [`Date`]) holds no such date.
#[verifier::external_body]
fn checked_add_days(date: &Date, n: u64) -> (r: Option<Date>)
    requires
        date.valid(),
    ensures
        r is Some <==> has_date(date.day_number() + n),
        r matches Some(e) ==> e.valid() && e.day_number() == date.day_number() + n && e
            == date_with_day_number(date.day_number() + n),
{
    let d = chrono::NaiveDate::from_ymd_opt(date.year, date.month, date.day)?;
    let e = d.checked_add_days(chrono::Days::new(n))?;
    Some(Date { year: e.year(), month: e.month(), day: e.day() })
}

/// Relies on chrono's `NaiveDate::checked_sub_days`: the proleptic Gregorian
/// date `n` days earlier, or `None` exactly when chrono's range of years (the
/// range of [`Date`]) holds no such date.
#[verifier::external_body]
fn checked_sub_days(date: &Date, n: u64) -> (r: Option<Date>)
    requires
        date.valid(),
    ensures
        r is Some <==> has_date(date.day_number() - n),
        r matches Some(e) ==> e.valid() && e.day_number() == date.day_number() - n && e
            == date_with_day_number(date.day_number() - n),
{
    let d = chrono::NaiveDate::from_ymd_opt(date.year, date.month, date.day)?;
    let e = d.checked_sub_days(chrono::Days::new(n))?;
    Some(Date { year: e.year(), month: e.month(), day: e.day() })
}

/// The date `n` days after (`n > 0`) or before (`n < 0`) a date, if it is in
/// range.
pub fn add_days(date: &Date, n: i64) -> (r: Option<Date>)
    requires
        date.valid(),
    ensures
        r is Some <==> has_date(date.day_number() + n),
        r matches Some(e) ==> e.valid() && e.day_number() == date.day_number() + n && e
            == date_with_day_number(date.day_number() + n),
{
    if n >= 0 {
        checked_add_days(date, n as u64)
    } else {
        checked_sub_days(date, (-(n as i128)) as u64)
    }
}

/// A coarse bound on the day numbers of valid dates.
pub proof fn lemma_day_number_bounds(d: Date)
    requires
        d.valid(),
    ensures
        -95_000_000 <= d.day_number() <= 98_000_000,
{
}

/// Floor division by a positive divisor.
pub fn floor_div(a: i64, b: i64) -> (q: i64)
    requires
        b > 0,
    ensures
        q == a / b,
{
    if a >= 0 {
        (a as u64 / b as u64) as i64
    } else {
        let k: i64 = ((-(a + 1)) as u64 / b as u64) as i64;
        proof {
            let m: int = -(a + 1);
            let bb: int = b as int;
            vstd::arithmetic::div_mod::lemma_fundamental_div_mod(m, bb);
            assert(k == m / bb);
            assert((-k - 1) * bb == -(k * bb) - bb) by (nonlinear_arith);
            assert(bb * (m / bb) == k * bb) by (nonlinear_arith)
                requires
                    k == m / bb,
            ;
            vstd::arithmetic::div_mod::lemma_fundamental_div_mod_converse(
                a as int,
                bb,
                -k - 1,
                bb - 1 - m % bb,
            );
        }
        -k - 1
    }
}

/// Microseconds in a second.
pub const MICROS_PER_SECOND: i64 = 1_000_000;

/// A date together with a wall-clock time, in whole seconds since midnight.
#[derive(Clone, Copy, Debug, PartialEq, Eq, Hash, Structural)]
pub struct DateTime {
    pub date: Date,
    /// Seconds since the midnight that starts the date.
    pub seconds: u32,
}

impl DateTime {
    pub open spec fn valid(self) -> bool {
        self.date.valid() && self.seconds < SECONDS_PER_DAY
    }

    /// The date-time as a count of seconds on one continuous time line.
    pub open spec fn instant(self) -> int {
        self.date.day_number() * SECONDS_PER_DAY + self.seconds
    }

    /// The date-time at a number of seconds after the start of a date.
    pub fn new(date: Date, seconds: u32) -> (r: Option<DateTime>)
        requires
            date.valid(),
        ensures
            r is Some <==> seconds < SECONDS_PER_DAY,
            r matches Some(t) ==> t.valid() && t == (DateTime { date, seconds }),
    {
        if seconds < 86400 {
            Some(DateTime { date, seconds })
        } else {
            None
        }
    }

    /// The date-time for a date and hours, minutes and seconds.
    pub fn from_hms(date: Date, hour: u32, minute: u32, second: u32) -> (r: Option<DateTime>)
        requires
            date.valid(),
        ensures
            r is Some <==> hour < 24 && minute < 60 && second < 60,
            r matches Some(t) ==> t.valid() && t.date == date && t.seconds
                == hour * 3600 + minute * 60 + second,
    {
        if hour < 24 && minute < 60 && second < 60 {
            Some(DateTime { date, seconds: hour * 3600 + minute * 60 + second })
        } else {
            None
        }
    }

    pub fn hour(&self) -> (r: u32)
        ensures
            r == self.seconds / 3600,
    {
        self.seconds / 3600
    }

    pub fn minute(&self) -> (r: u32)
        ensures
            r == (self.seconds / 60) % 60,
    {
        (self.seconds / 60) % 60
    }

    pub fn second(&self) -> (r: u32)
        ensures
            r == self.seconds % 60,
    {
        self.seconds % 60
    }

    /// The date-time that lies `micros` microseconds after the midnight that
    /// starts `date`, cut to the whole second: the day shift is the floor of
    /// the offset over a day, the wall time its remainder.
    pub open spec fn at_offset_spec(date: Date, micros: int) -> Option<DateTime> {
        let s = micros / (MICROS_PER_SECOND as int);
        let n = date.day_number() + s / (SECONDS_PER_DAY as int);
        if has_date(n) {
            Some(DateTime { date: date_with_day_number(n), seconds: (s % (SECONDS_PER_DAY as int)) as u32 })
        } else {
            None
        }
    }

    /// The date-time that lies `micros` microseconds after the midnight that
    /// starts `date`, if its date is in range.
    pub fn at_offset(date: &Date, micros: i64) -> (r: Option<DateTime>)
        requires
            date.valid(),
        ensures
            r == DateTime::at_offset_spec(*date, micros as int),
            r matches Some(t) ==> t.valid() && t.instant() == date.day_number() * SECONDS_PER_DAY
                + micros as int / (MICROS_PER_SECOND as int),
    {
        let s = floor_div(micros, MICROS_PER_SECOND);
        let shift = floor_div(s, SECONDS_PER_DAY);
        let seconds = (s - shift * SECONDS_PER_DAY) as u32;
        proof {
            vstd::arithmetic::div_mod::lemma_fundamental_div_mod(s as int, SECONDS_PER_DAY as int);
        }
        match add_days(date, shift) {
            Some(d) => Some(DateTime { date: d, seconds }),
            None => None,
        }
    }

    /// What the offset resolution gives is a valid date-time.
    pub proof fn lemma_at_offset_valid(date: Date, micros: int)
        ensures
            DateTime::at_offset_spec(date, micros) matches Some(t) ==> t.valid(),
    {
    }

    /// The resolved date-time lies exactly the whole seconds of the offset
    /// after the start of the date.
    pub proof fn lemma_at_offset_instant(date: Date, micros: int)
        ensures
            DateTime::at_offset_spec(date, micros) matches Some(t) ==> t.instant()
                == date.day_number() * SECONDS_PER_DAY + micros / (MICROS_PER_SECOND as int),
    {
        let s = micros / (MICROS_PER_SECOND as int);
        vstd::arithmetic::div_mod::lemma_fundamental_div_mod(s, SECONDS_PER_DAY as int);
    }

    /// Signed number of seconds from `other` to `self`.
    pub fn seconds_since(&self, other: &DateTime) -> (r: i64)
        requires
            self.valid(),
            other.valid(),
        ensures
            r == self.instant() - other.instant(),
    {
        proof {
            lemma_day_number_bounds(self.date);
            lemma_day_number_bounds(other.date);
        }
        let days: i64 = julian_day(&self.date) - julian_day(&other.date);
        days * SECONDS_PER_DAY + self.seconds as i64 - other.seconds as i64
    }
}

} // verus!
