//! The lexers of Keyword Value Notation: one line in, one typed value out.
//!
//! The notation is the one of section 7.4 of CCSDS 502.0-B-3. Each lexer
//! reads a whole line `KEYWORD = VALUE [unit]` and gives the value, or says
//! what is wrong with the line and hands the line back.

use vstd::prelude::*;
use crate::decimal::{decimal_value, lemma_decimal_below, lemma_pow10_values, read_decimal};
use crate::grammar::{
    KvnDateTimeText,
    KvnFault,
    datetime_line,
    integer_line,
    is_comment_line,
    is_empty_value_line,
    keyword_of,
    lemma_datetime_digit_counts,
    lemma_string_value_not_empty,
    number_line,
    string_line,
};
use crate::scanner::{comment_in, empty_value_in, scan_field, scan_head, scan_number};
use crate::number::{KvnInteger, MAGNITUDE_LIMIT};
use crate::text::{
    CharClass,
    chars_of,
    copy_range,
    lemma_run_end,
    run_end,
    scan_back,
    scan_run,
    starts_at,
};

verus! {

/// Why a line could not be read as a text value.
#[derive(Debug, PartialEq)]
pub enum KvnStringParserErr<I> {
    EmptyKeyword { input: I },
    EmptyValue { input: I },
    InvalidFormat { input: I },
}

/// The keyword that was expected and not found.
#[derive(Debug, PartialEq)]
pub struct KvnKeywordNotFoundErr<I> {
    pub expected: I,
}

/// Why a line could not be read as a number.
#[derive(PartialEq, Debug)]
pub enum KvnNumberParserErr<I> {
    EmptyKeyword { input: I },
    EmptyValue { input: I },
    InvalidFormat { input: I },
}

/// Why a line could not be read as a date and time.
#[derive(PartialEq, Debug)]
pub enum KvnDateTimeParserErr<I> {
    EmptyKeyword { input: I },
    EmptyValue { input: I },
    InvalidFormat { input: I },
}

impl<I> KvnStringParserErr<I> {
    /// The error that reports `fault` for the line `input`.
    pub open spec fn of(fault: KvnFault, input: I) -> Self {
        match fault {
            KvnFault::EmptyKeyword => KvnStringParserErr::EmptyKeyword { input },
            KvnFault::EmptyValue => KvnStringParserErr::EmptyValue { input },
            KvnFault::InvalidFormat => KvnStringParserErr::InvalidFormat { input },
        }
    }
}

impl<I> KvnNumberParserErr<I> {
    /// The error that reports `fault` for the line `input`.
    pub open spec fn of(fault: KvnFault, input: I) -> Self {
        match fault {
            KvnFault::EmptyKeyword => KvnNumberParserErr::EmptyKeyword { input },
            KvnFault::EmptyValue => KvnNumberParserErr::EmptyValue { input },
            KvnFault::InvalidFormat => KvnNumberParserErr::InvalidFormat { input },
        }
    }

    /// Makes the error that reports `fault` for the line `input`.
    pub fn new(fault: KvnFault, input: I) -> (r: Self)
        ensures
            r == Self::of(fault, input),
    {
        match fault {
            KvnFault::EmptyKeyword => KvnNumberParserErr::EmptyKeyword { input },
            KvnFault::EmptyValue => KvnNumberParserErr::EmptyValue { input },
            KvnFault::InvalidFormat => KvnNumberParserErr::InvalidFormat { input },
        }
    }
}

impl<I> KvnDateTimeParserErr<I> {
    /// The error that reports `fault` for the line `input`.
    pub open spec fn of(fault: KvnFault, input: I) -> Self {
        match fault {
            KvnFault::EmptyKeyword => KvnDateTimeParserErr::EmptyKeyword { input },
            KvnFault::EmptyValue => KvnDateTimeParserErr::EmptyValue { input },
            KvnFault::InvalidFormat => KvnDateTimeParserErr::InvalidFormat { input },
        }
    }
}

/// A value and the unit that its line gave for it. The unit is there if
/// and only if the line carried one in brackets.
#[derive(PartialEq, Debug, Default)]
pub struct KvnValue<V, U> {
    pub value: V,
    pub unit: Option<U>,
}

/// A date and time as a line gave it. The fields are what the digits
/// spell: a year of four digits and other fields of at most two. No range
/// of the calendar or the clock is checked.
#[derive(PartialEq, Debug, Default)]
pub struct KvnDateTimeValue {
    pub year: u16,
    pub month: u8,
    pub day: u8,
    pub hour: u8,
    pub minute: u8,
    pub second: u8,
    /// The digits behind the decimal point of the seconds, none where the
    /// line has no such point: `123` stands for 0.123 s.
    pub fractional_second: String,
    /// The date and time as it stands in the line.
    pub full_value: String,
}

impl View for KvnDateTimeValue {
    type V = KvnDateTimeText;

    open spec fn view(&self) -> KvnDateTimeText {
        KvnDateTimeText {
            year: self.year as nat,
            month: self.month as nat,
            day: self.day as nat,
            hour: self.hour as nat,
            minute: self.minute as nat,
            second: self.second as nat,
            fraction: self.fractional_second@,
            text: self.full_value@,
        }
    }
}

/// The characters of an optional unit.
pub open spec fn unit_view(unit: Option<String>) -> Option<Seq<char>> {
    match unit {
        Some(u) => Some(u@),
        None => None,
    }
}

/// Whether the keyword at the start of `input` is `key`.
///
/// The keyword is the longest run of digits, upper case letters and
/// underscores behind the leading white space; it may be empty. Nothing of
/// the rest of the line is looked at, so the result is always `Ok`.
pub fn kvn_line_matches_key_new<'a>(key: &'a str, input: &'a str) -> (r: Result<
    bool,
    KvnKeywordNotFoundErr<&'a str>,
>)
    ensures
        r == Ok::<bool, KvnKeywordNotFoundErr<&'a str>>(
            keyword_of(input@, CharClass::UpperKeyword) == key@,
        ),
{
    let s = chars_of(input);
    let k = chars_of(key);
    let a = scan_run(&s, 0, CharClass::Space);
    let b = scan_run(&s, a, CharClass::UpperKeyword);
    let same = b - a == k.len() && starts_at(&s, a, &k);
    proof {
        if keyword_of(input@, CharClass::UpperKeyword) == key@ {
            assert(keyword_of(input@, CharClass::UpperKeyword).len() == b - a);
        }
    }
    Ok(same)
}

/// Whether the line is a comment: behind its leading white space stands
/// `COMMENT` and a blank.
pub fn is_comment(input: &str) -> (r: bool)
    ensures
        r == is_comment_line(input@),
{
    let s = chars_of(input);
    comment_in(&s)
}

/// Whether the line has a keyword part and an equals sign but no value:
/// behind the equals sign stands nothing, white space only, or the remnant
/// of a unit in brackets.
pub fn is_empty_value(input: &str) -> (r: bool)
    ensures
        r == is_empty_value_line(input@),
{
    let s = chars_of(input);
    empty_value_in(&s)
}

/// Reads a line as a text value.
///
/// A comment line gives what follows `COMMENT` and its blank as it stands
/// there, white space included; that text may be empty. Any other line
/// must read `keyword = value` and gives the value without the white space
/// around it. No unit is ever given.
pub fn parse_kvn_string_line_new(input: &str) -> (r: Result<
    KvnValue<String, String>,
    KvnStringParserErr<&str>,
>)
    ensures
        match string_line(input@) {
            Ok(text) => r matches Ok(v) && v.value@ == text && v.unit is None,
            Err(fault) => r == Err::<KvnValue<String, String>, KvnStringParserErr<&str>>(
                KvnStringParserErr::of(fault, input),
            ),
        },
{
    let s = chars_of(input);
    if comment_in(&s) {
        let a = scan_run(&s, 0, CharClass::Space);
        return Ok(KvnValue { value: copy_range(input, a + 8, s.len()), unit: None });
    }
    if empty_value_in(&s) {
        return Err(KvnStringParserErr::EmptyValue { input });
    }
    let h = scan_head(&s, CharClass::UpperKeyword);
    if !h.found {
        return Err(KvnStringParserErr::InvalidFormat { input });
    }
    let e = scan_run(&s, h.value_start, CharClass::Inline);
    let end = scan_run(&s, e, CharClass::Space);
    if end != s.len() {
        return Err(KvnStringParserErr::InvalidFormat { input });
    }
    if h.keyword_end == h.keyword_start {
        return Err(KvnStringParserErr::EmptyKeyword { input });
    }
    let t = scan_back(&s, h.value_start, e);
    proof {
        lemma_string_value_not_empty(s@);
    }
    Ok(KvnValue { value: copy_range(input, h.value_start, t), unit: None })
}

/// Reads a line as an integer of type `T`.
///
/// The line must read `keyword = number`, the number being an optional
/// sign, digits and an optional fraction that is left aside. With
/// `with_unit` a unit in brackets may follow; without it such a line is a
/// format fault, as is a number that `T` does not have.
pub fn parse_kvn_integer_line_new<T: KvnInteger>(input: &str, with_unit: bool) -> (r: Result<
    KvnValue<T, String>,
    KvnNumberParserErr<&str>,
>)
    ensures
        match integer_line(input@, with_unit, T::least(), T::greatest()) {
            Ok(n) => r matches Ok(v) && v.value.value() == n.0 && unit_view(v.unit) == n.1,
            Err(fault) => r == Err::<KvnValue<T, String>, KvnNumberParserErr<&str>>(
                KvnNumberParserErr::of(fault, input),
            ),
        },
{
    let s = chars_of(input);
    let span = match scan_number(&s, with_unit, false) {
        Ok(span) => span,
        Err(fault) => {
            return Err(KvnNumberParserErr::new(fault, input));
        },
    };
    let magnitude = read_decimal(&s, span.digits_start, span.digits_end, MAGNITUDE_LIMIT);
    proof {
        T::lemma_range();
    }
    match T::from_decimal(span.negative, magnitude) {
        Some(value) => {
            let unit = if span.tail.has_unit {
                Some(copy_range(input, span.tail.unit_start, span.tail.unit_end))
            } else {
                None
            };
            Ok(KvnValue { value, unit })
        },
        None => Err(KvnNumberParserErr::InvalidFormat { input }),
    }
}

/// Reads a line as a decimal number and gives the number as it is spelled.
///
/// The line must read `keyword = number`, the number being an optional
/// sign, digits, an optional fraction and an optional exponent. With
/// `with_unit` a unit in brackets may follow. The value is the text of the
/// number, sign and exponent included, for a float parser to take.
pub fn parse_kvn_numeric_line_new(input: &str, with_unit: bool) -> (r: Result<
    KvnValue<String, String>,
    KvnNumberParserErr<&str>,
>)
    ensures
        match number_line(input@, with_unit, true) {
            Ok(n) => r matches Ok(v) && v.value@ == n.text && unit_view(v.unit) == n.unit,
            Err(fault) => r == Err::<KvnValue<String, String>, KvnNumberParserErr<&str>>(
                KvnNumberParserErr::of(fault, input),
            ),
        },
{
    let s = chars_of(input);
    let span = match scan_number(&s, with_unit, true) {
        Ok(span) => span,
        Err(fault) => {
            return Err(KvnNumberParserErr::new(fault, input));
        },
    };
    let value = copy_range(input, span.start, span.end);
    let unit = if span.tail.has_unit {
        Some(copy_range(input, span.tail.unit_start, span.tail.unit_end))
    } else {
        None
    };
    Ok(KvnValue { value, unit })
}

/// Reads the digits of `s` from `from` up to `to`, at most four, as a number.
fn read_field(s: &Vec<char>, from: usize, to: usize) -> (r: u16)
    requires
        from <= to <= s.len(),
        to - from <= 4,
        to == run_end(s@, from as int, CharClass::Digit),
    ensures
        r == decimal_value(s@.subrange(from as int, to as int)),
        to - from <= 2 ==> r <= 99,
{
    proof {
        lemma_run_end(s@, from as int, CharClass::Digit);
        lemma_pow10_values();
        lemma_decimal_below(s@.subrange(from as int, to as int), 4);
        if to - from <= 2 {
            lemma_decimal_below(s@.subrange(from as int, to as int), 2);
        }
    }
    let wide = read_decimal(s, from, to, 10000);
    wide as u16
}

/// Reads a line as a date and time.
///
/// The line must read `keyword = YYYY-MM-DDThh:mm:ss.fraction`: a year of
/// four digits, month, day, hour and minute of one or two, seconds of at
/// most two with an optional fraction. The fields are taken as they are
/// spelled; no range is checked.
pub fn parse_kvn_datetime_line_new(input: &str) -> (r: Result<
    KvnDateTimeValue,
    KvnDateTimeParserErr<&str>,
>)
    ensures
        match datetime_line(input@) {
            Ok(t) => r matches Ok(v) && v@ == t && v@.conforms(),
            Err(fault) => r == Err::<KvnDateTimeValue, KvnDateTimeParserErr<&str>>(
                KvnDateTimeParserErr::of(fault, input),
            ),
        },
{
    let s = chars_of(input);
    proof {
        if datetime_line(s@) is Ok {
            lemma_datetime_digit_counts(s@);
        }
    }
    if empty_value_in(&s) {
        return Err(KvnDateTimeParserErr::EmptyValue { input });
    }
    let h = scan_head(&s, CharClass::UpperKeyword);
    if !h.found {
        return Err(KvnDateTimeParserErr::InvalidFormat { input });
    }
    let v = h.value_start;
    let year_end = match scan_field(&s, v, 4, 4, '-') {
        Some(end) => end,
        None => {
            return Err(KvnDateTimeParserErr::InvalidFormat { input });
        },
    };
    let month_end = match scan_field(&s, year_end + 1, 1, 2, '-') {
        Some(end) => end,
        None => {
            return Err(KvnDateTimeParserErr::InvalidFormat { input });
        },
    };
    let day_end = match scan_field(&s, month_end + 1, 1, 2, 'T') {
        Some(end) => end,
        None => {
            return Err(KvnDateTimeParserErr::InvalidFormat { input });
        },
    };
    let hour_end = match scan_field(&s, day_end + 1, 1, 2, ':') {
        Some(end) => end,
        None => {
            return Err(KvnDateTimeParserErr::InvalidFormat { input });
        },
    };
    let minute_end = match scan_field(&s, hour_end + 1, 1, 2, ':') {
        Some(end) => end,
        None => {
            return Err(KvnDateTimeParserErr::InvalidFormat { input });
        },
    };
    let second_end = scan_run(&s, minute_end + 1, CharClass::Digit);
    if second_end - (minute_end + 1) > 2 {
        return Err(KvnDateTimeParserErr::InvalidFormat { input });
    }
    let fraction_end = if second_end < s.len() && s[second_end] == '.' {
        scan_run(&s, second_end + 1, CharClass::Digit)
    } else {
        second_end
    };
    let end = scan_run(&s, fraction_end, CharClass::Space);
    if end != s.len() {
        return Err(KvnDateTimeParserErr::InvalidFormat { input });
    }
    if h.keyword_end == h.keyword_start {
        return Err(KvnDateTimeParserErr::EmptyKeyword { input });
    }
    let year = read_field(&s, v, year_end);
    let month = read_field(&s, year_end + 1, month_end) as u8;
    let day = read_field(&s, month_end + 1, day_end) as u8;
    let hour = read_field(&s, day_end + 1, hour_end) as u8;
    let minute = read_field(&s, hour_end + 1, minute_end) as u8;
    let second = read_field(&s, minute_end + 1, second_end) as u8;
    let fractional_second = if fraction_end > second_end {
        copy_range(input, second_end + 1, fraction_end)
    } else {
        String::new()
    };
    let full_value = copy_range(input, v, fraction_end);
    Ok(
        KvnDateTimeValue {
            year,
            month,
            day,
            hour,
            minute,
            second,
            fractional_second,
            full_value,
        },
    )
}

} // verus!
