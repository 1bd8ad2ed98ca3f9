//! A point in Coordinated Universal Time, as calendar date and time of day.
//!
//! The fraction of the second is held as a whole number of picoseconds, so
//! that every field is an integer and its parts (milli-, micro-, nano- and
//! picoseconds) are exact.

use vstd::prelude::*;
use crate::decimal::{
    digits_of,
    fixed_digits,
    fraction_digits,
    push_fixed,
    push_fraction,
    push_number,
};

verus! {

/// The picoseconds in one second.
pub const PICOSECONDS_PER_SECOND: u64 = 1_000_000_000_000;

/// The first year for which UTC is defined.
pub const FIRST_UTC_YEAR: i64 = 1960;

/// Why a date and time is no point in UTC.
#[derive(Clone, Copy, Debug, PartialEq, Eq, Structural)]
pub enum UtcError {
    /// The calendar has no such day.
    InvalidDate,
    /// The day has no such time.
    InvalidTime,
    /// The date lies before 1960, when UTC began.
    UtcUndefined,
    /// The text is no date and time in ISO 8601.
    InvalidIsoString,
}

impl UtcError {
    /// What the error says, as text.
    pub open spec fn text(self) -> Seq<char> {
        match self {
            UtcError::InvalidDate => "invalid date"@,
            UtcError::InvalidTime => "invalid time"@,
            UtcError::UtcUndefined => "UTC is not defined for dates before 1960-01-01"@,
            UtcError::InvalidIsoString => "invalid ISO string"@,
        }
    }

    /// What the error says.
    pub fn message(&self) -> (r: String)
        ensures
            r@ == self.text(),
    {
        match self {
            UtcError::InvalidDate => "invalid date".to_owned(),
            UtcError::InvalidTime => "invalid time".to_owned(),
            UtcError::UtcUndefined => "UTC is not defined for dates before 1960-01-01".to_owned(),
            UtcError::InvalidIsoString => "invalid ISO string".to_owned(),
        }
    }
}

/// Whether `year` is a leap year of the Gregorian calendar.
pub open spec fn is_leap_year(year: int) -> bool {
    (year % 4 == 0 && year % 100 != 0) || year % 400 == 0
}

/// The number of days of a month of the Gregorian calendar; 0 for a month
/// that is none.
pub open spec fn days_in_month(year: int, month: int) -> int {
    if month == 2 {
        if is_leap_year(year) {
            29
        } else {
            28
        }
    } else if month == 4 || month == 6 || month == 9 || month == 11 {
        30
    } else if 1 <= month <= 12 {
        31
    } else {
        0
    }
}

/// Whether the calendar has the day.
pub open spec fn is_date(year: int, month: int, day: int) -> bool {
    1 <= month <= 12 && 1 <= day <= days_in_month(year, month)
}

/// Whether a day has the time. The second 60 is a leap second and can
/// only be the last of a day.
pub open spec fn is_time(hour: int, minute: int, second: int, subsecond: int) -> bool {
    &&& 0 <= hour < 24
    &&& 0 <= minute < 60
    &&& 0 <= second < 60 || (second == 60 && hour == 23 && minute == 59)
    &&& 0 <= subsecond < PICOSECONDS_PER_SECOND
}

/// The fields of a date and time.
pub struct UtcView {
    pub year: int,
    pub month: int,
    pub day: int,
    pub hour: int,
    pub minute: int,
    pub second: int,
    /// The fraction of the second, in picoseconds.
    pub subsecond: int,
}

impl UtcView {
    /// Why the fields are no point in UTC: the first of the three faults
    /// that they have, in the order year, date, time; `None` where they are
    /// one.
    pub open spec fn fault(self) -> Option<UtcError> {
        if self.year < FIRST_UTC_YEAR {
            Some(UtcError::UtcUndefined)
        } else if !is_date(self.year, self.month, self.day) {
            Some(UtcError::InvalidDate)
        } else if !is_time(self.hour, self.minute, self.second, self.subsecond) {
            Some(UtcError::InvalidTime)
        } else {
            None
        }
    }

    /// Whether the fields are a point in UTC: a day of the Gregorian
    /// calendar from 1960 on and a time of that day.
    pub open spec fn valid(self) -> bool {
        self.fault() is None
    }
}

/// The group of three decimal digits of `subsecond` that counts the units
/// of `unit` picoseconds.
pub open spec fn digit_group(subsecond: int, unit: int) -> int {
    (subsecond / unit) % 1000
}

/// The seconds as a decimal number: the whole seconds and, where the
/// fraction is not zero, a point and the digits of the fraction.
pub open spec fn seconds_text(second: int, subsecond: int) -> Seq<char> {
    if subsecond == 0 {
        digits_of(second)
    } else {
        digits_of(second) + seq!['.'] + fraction_digits(subsecond, 12)
    }
}

/// The year with at least four digits.
pub open spec fn year_text(year: int) -> Seq<char> {
    if year < 10000 {
        fixed_digits(year, 4)
    } else {
        digits_of(year)
    }
}

/// The point in UTC as `YYYY-MM-DDThh:mm:ss.mmm UTC`, the fraction cut off
/// behind the milliseconds.
pub open spec fn utc_text(v: UtcView) -> Seq<char> {
    year_text(v.year) + seq!['-'] + fixed_digits(v.month, 2) + seq!['-'] + fixed_digits(v.day, 2)
        + seq!['T'] + fixed_digits(v.hour, 2) + seq![':'] + fixed_digits(v.minute, 2) + seq![':']
        + fixed_digits(v.second, 2) + seq!['.'] + fixed_digits(
        digit_group(v.subsecond, 1_000_000_000),
        3,
    ) + seq![' ', 'U', 'T', 'C']
}

/// The point in UTC as `UTC(year, month, day, hour, minute, seconds)`, the
/// seconds with all of their fraction.
pub open spec fn utc_repr(v: UtcView) -> Seq<char> {
    seq!['U', 'T', 'C', '('] + digits_of(v.year) + seq![',', ' '] + digits_of(v.month) + seq![
        ',',
        ' ',
    ] + digits_of(v.day) + seq![',', ' '] + digits_of(v.hour) + seq![',', ' '] + digits_of(
        v.minute,
    ) + seq![',', ' '] + seconds_text(v.second, v.subsecond) + seq![')']
}

/// A date and time in UTC.
#[derive(Clone, Copy, Debug, PartialEq, Eq, Structural)]
pub struct Utc {
    year: i64,
    month: u8,
    day: u8,
    hour: u8,
    minute: u8,
    second: u8,
    subsecond: u64,
}

impl View for Utc {
    type V = UtcView;

    closed spec fn view(&self) -> UtcView {
        UtcView {
            year: self.year as int,
            month: self.month as int,
            day: self.day as int,
            hour: self.hour as int,
            minute: self.minute as int,
            second: self.second as int,
            subsecond: self.subsecond as int,
        }
    }
}

/// The number of days of a month of a year.
fn month_length(year: i64, month: u8) -> (r: u8)
    requires
        year >= 0,
    ensures
        r == days_in_month(year as int, month as int),
{
    if month == 2 {
        if (year % 4 == 0 && year % 100 != 0) || year % 400 == 0 {
            29
        } else {
            28
        }
    } else if month == 4 || month == 6 || month == 9 || month == 11 {
        30
    } else if 1 <= month && month <= 12 {
        31
    } else {
        0
    }
}

/// Puts `piece` behind `text`.
fn push_str(text: &mut String, piece: &str)
    ensures
        final(text)@ == old(text)@ + piece@,
{
    text.append(piece);
}

impl Utc {
    #[verifier::type_invariant]
    spec fn is_valid(&self) -> bool {
        self@.valid()
    }

    /// The point in UTC with the given date and time, the fraction of the
    /// second in picoseconds; or the first reason why there is none, in
    /// the order year, date, time.
    pub fn new(
        year: i64,
        month: u8,
        day: u8,
        hour: u8,
        minute: u8,
        second: u8,
        subsecond: u64,
    ) -> (r: Result<Utc, UtcError>)
        ensures
            ({
                let v = UtcView {
                    year: year as int,
                    month: month as int,
                    day: day as int,
                    hour: hour as int,
                    minute: minute as int,
                    second: second as int,
                    subsecond: subsecond as int,
                };
                match v.fault() {
                    Some(fault) => r == Err::<Utc, UtcError>(fault),
                    None => r matches Ok(utc) && utc@ == v,
                }
            }),
    {
        if year < FIRST_UTC_YEAR {
            return Err(UtcError::UtcUndefined);
        }
        if month < 1 || month > 12 || day < 1 || day > month_length(year, month) {
            return Err(UtcError::InvalidDate);
        }
        let leap_second = second == 60 && hour == 23 && minute == 59;
        if hour >= 24 || minute >= 60 || (second >= 60 && !leap_second) || subsecond
            >= PICOSECONDS_PER_SECOND {
            return Err(UtcError::InvalidTime);
        }
        Ok(Utc { year, month, day, hour, minute, second, subsecond })
    }

    /// The text `YYYY-MM-DDThh:mm:ss.mmm UTC` of the point.
    pub fn text(&self) -> (r: String)
        ensures
            self@.valid(),
            r@ == utc_text(self@),
    {
        proof {
            use_type_invariant(self);
            reveal_strlit("-");
            reveal_strlit("T");
            reveal_strlit(":");
            reveal_strlit(".");
            reveal_strlit(" UTC");
        }
        let mut r = String::new();
        if self.year < 10000 {
            push_fixed(&mut r, self.year as u64, 4);
        } else {
            push_number(&mut r, self.year as u64);
        }
        push_str(&mut r, "-");
        push_fixed(&mut r, self.month as u64, 2);
        push_str(&mut r, "-");
        push_fixed(&mut r, self.day as u64, 2);
        push_str(&mut r, "T");
        push_fixed(&mut r, self.hour as u64, 2);
        push_str(&mut r, ":");
        push_fixed(&mut r, self.minute as u64, 2);
        push_str(&mut r, ":");
        push_fixed(&mut r, self.second as u64, 2);
        push_str(&mut r, ".");
        push_fixed(&mut r, (self.subsecond / 1_000_000_000) % 1000, 3);
        push_str(&mut r, " UTC");
        assert("-"@ =~= seq!['-']);
        assert("T"@ =~= seq!['T']);
        assert(":"@ =~= seq![':']);
        assert("."@ =~= seq!['.']);
        assert(" UTC"@ =~= seq![' ', 'U', 'T', 'C']);
        r
    }

    /// The text `UTC(year, month, day, hour, minute, seconds)` of the point.
    pub fn repr(&self) -> (r: String)
        ensures
            self@.valid(),
            r@ == utc_repr(self@),
    {
        proof {
            use_type_invariant(self);
            reveal_strlit("UTC(");
            reveal_strlit(", ");
            reveal_strlit(".");
            reveal_strlit(")");
        }
        let mut r = String::new();
        push_str(&mut r, "UTC(");
        push_number(&mut r, self.year as u64);
        push_str(&mut r, ", ");
        push_number(&mut r, self.month as u64);
        push_str(&mut r, ", ");
        push_number(&mut r, self.day as u64);
        push_str(&mut r, ", ");
        push_number(&mut r, self.hour as u64);
        push_str(&mut r, ", ");
        push_number(&mut r, self.minute as u64);
        push_str(&mut r, ", ");
        push_number(&mut r, self.second as u64);
        if self.subsecond != 0 {
            push_str(&mut r, ".");
            push_fraction(&mut r, self.subsecond, 12);
        }
        push_str(&mut r, ")");
        assert("UTC("@ =~= seq!['U', 'T', 'C', '(']);
        assert(", "@ =~= seq![',', ' ']);
        assert("."@ =~= seq!['.']);
        assert(")"@ =~= seq![')']);
        assert(r@ =~= utc_repr(self@));
        r
    }
}

/// A point in UTC as it is handed to a host language.
#[derive(Clone, Copy, Debug, Eq, PartialEq)]
pub struct PyUtc(pub Utc);

impl PyUtc {
    /// The point in UTC with the given date and time, the fraction of the
    /// second in picoseconds; or the first reason why there is none, in
    /// the order year, date, time.
    pub fn new(
        year: i64,
        month: u8,
        day: u8,
        hour: u8,
        minute: u8,
        second: u8,
        subsecond: u64,
    ) -> (r: Result<PyUtc, UtcError>)
        ensures
            ({
                let v = UtcView {
                    year: year as int,
                    month: month as int,
                    day: day as int,
                    hour: hour as int,
                    minute: minute as int,
                    second: second as int,
                    subsecond: subsecond as int,
                };
                match v.fault() {
                    Some(fault) => r matches Err(e) && e == fault,
                    None => r matches Ok(utc) && utc.0@ == v,
                }
            }),
    {
        match Utc::new(year, month, day, hour, minute, second, subsecond) {
            Ok(utc) => Ok(PyUtc(utc)),
            Err(e) => Err(e),
        }
    }

    /// The text `YYYY-MM-DDThh:mm:ss.mmm UTC` of the point, the fraction of
    /// the second cut off behind the milliseconds.
    pub fn __str__(&self) -> (r: String)
        ensures
            r@ == utc_text(self.0@),
    {
        self.0.text()
    }

    /// The text `UTC(year, month, day, hour, minute, seconds)` of the
    /// point, the seconds as a decimal number with all of their fraction.
    pub fn __repr__(&self) -> (r: String)
        ensures
            r@ == utc_repr(self.0@),
    {
        self.0.repr()
    }

    /// Whether the two are the same point in UTC.
    pub fn __eq__(&self, other: PyUtc) -> (r: bool)
        ensures
            r == (self.0@ == other.0@),
    {
        self.0 == other.0
    }

    /// The year.
    pub fn year(&self) -> (r: i64)
        ensures
            r == self.0@.year,
            r >= FIRST_UTC_YEAR,
    {
        proof {
            use_type_invariant(&self.0);
        }
        self.0.year
    }

    /// The month of the year, from 1 on.
    pub fn month(&self) -> (r: u8)
        ensures
            r == self.0@.month,
            1 <= r <= 12,
    {
        proof {
            use_type_invariant(&self.0);
        }
        self.0.month
    }

    /// The day of the month, from 1 on.
    pub fn day(&self) -> (r: u8)
        ensures
            r == self.0@.day,
            1 <= r <= days_in_month(self.0@.year, self.0@.month),
    {
        proof {
            use_type_invariant(&self.0);
        }
        self.0.day
    }

    /// The hour of the day.
    pub fn hour(&self) -> (r: u8)
        ensures
            r == self.0@.hour,
            r < 24,
    {
        proof {
            use_type_invariant(&self.0);
        }
        self.0.hour
    }

    /// The minute of the hour.
    pub fn minute(&self) -> (r: u8)
        ensures
            r == self.0@.minute,
            r < 60,
    {
        proof {
            use_type_invariant(&self.0);
        }
        self.0.minute
    }

    /// The whole second of the minute; 60 in a leap second.
    pub fn second(&self) -> (r: u8)
        ensures
            r == self.0@.second,
            r <= 60,
    {
        proof {
            use_type_invariant(&self.0);
        }
        self.0.second
    }

    /// The fraction of the second in picoseconds.
    pub fn subsecond(&self) -> (r: u64)
        ensures
            r == self.0@.subsecond,
            r < PICOSECONDS_PER_SECOND,
            self.0@.valid(),
    {
        proof {
            use_type_invariant(&self.0);
        }
        self.0.subsecond
    }

    /// The whole milliseconds of the fraction of the second.
    pub fn millisecond(&self) -> (r: i64)
        ensures
            r == digit_group(self.0@.subsecond, 1_000_000_000),
    {
        ((self.0.subsecond / 1_000_000_000) % 1000) as i64
    }

    /// The whole microseconds of what the milliseconds leave.
    pub fn microsecond(&self) -> (r: i64)
        ensures
            r == digit_group(self.0@.subsecond, 1_000_000),
    {
        ((self.0.subsecond / 1_000_000) % 1000) as i64
    }

    /// The whole nanoseconds of what the microseconds leave.
    pub fn nanosecond(&self) -> (r: i64)
        ensures
            r == digit_group(self.0@.subsecond, 1_000),
    {
        ((self.0.subsecond / 1_000) % 1000) as i64
    }

    /// The picoseconds that the nanoseconds leave.
    pub fn picosecond(&self) -> (r: i64)
        ensures
            r == digit_group(self.0@.subsecond, 1),
    {
        (self.0.subsecond % 1000) as i64
    }
}

/// The four parts of the fraction of a second make up the fraction: in a
/// point in UTC, milli-, micro-, nano- and picoseconds each lie below 1000
/// and add up, each in its unit, to the picoseconds of the fraction.
pub proof fn lemma_subsecond_parts(v: UtcView)
    requires
        v.valid(),
    ensures
        0 <= digit_group(v.subsecond, 1_000_000_000) < 1000,
        0 <= digit_group(v.subsecond, 1_000_000) < 1000,
        0 <= digit_group(v.subsecond, 1_000) < 1000,
        0 <= digit_group(v.subsecond, 1) < 1000,
        digit_group(v.subsecond, 1_000_000_000) * 1_000_000_000 + digit_group(
            v.subsecond,
            1_000_000,
        ) * 1_000_000 + digit_group(v.subsecond, 1_000) * 1_000 + digit_group(v.subsecond, 1)
            == v.subsecond,
{
}

} // verus!
