//! The line grammars of Keyword Value Notation, as functions on characters.
//!
//! Every line starts the same way: white space, a keyword, white space, an
//! equals sign, white space. What follows depends on the kind of value. The
//! grammars are deliberately wider than the published standard: producers
//! of these messages are often not compliant.
//!
//! Each grammar is deterministic: the classes of characters that may follow
//! one another never overlap, so a line can be read in at most one way and
//! every position below is a function of the line alone.

use vstd::prelude::*;
use crate::decimal::{decimal_value, lemma_decimal_below, lemma_pow10_values};
use crate::number::{takes, signed_value};
use crate::text::{
    CharClass,
    all_in,
    has_at,
    lemma_run_end,
    lemma_run_end_is,
    lemma_run_start,
    run_end,
    run_start,
};

verus! {

/// What a lexer may find wrong with a line.
#[derive(Clone, Copy, Debug, PartialEq, Eq, Structural)]
pub enum KvnFault {
    /// An equals sign with no keyword before it.
    EmptyKeyword,
    /// A keyword and an equals sign with no value behind them, or with the
    /// remnant of a unit only.
    EmptyValue,
    /// A line that the grammar of its kind cannot read.
    InvalidFormat,
}

/// Where the keyword of a line begins: behind the leading white space.
pub open spec fn keyword_start(s: Seq<char>) -> int {
    run_end(s, 0, CharClass::Space)
}

/// Where the keyword of a line ends, for keywords made of `class`.
pub open spec fn keyword_end(s: Seq<char>, class: CharClass) -> int {
    run_end(s, keyword_start(s), class)
}

/// The keyword of a line: the longest run of `class` characters behind the
/// leading white space. It may be empty.
pub open spec fn keyword_of(s: Seq<char>, class: CharClass) -> Seq<char> {
    s.subrange(keyword_start(s), keyword_end(s, class))
}

/// Where the equals sign must stand: behind the keyword and the white
/// space that follows it.
pub open spec fn equals_at(s: Seq<char>, class: CharClass) -> int {
    run_end(s, keyword_end(s, class), CharClass::Space)
}

/// Whether the line has its equals sign.
pub open spec fn has_equals(s: Seq<char>, class: CharClass) -> bool {
    equals_at(s, class) < s.len() && s[equals_at(s, class)] == '='
}

/// Where the value begins: behind the equals sign and the white space that
/// follows it.
pub open spec fn value_start(s: Seq<char>, class: CharClass) -> int {
    run_end(s, equals_at(s, class) + 1, CharClass::Space)
}

/// Whether everything from `from` on is the remnant of a unit: an opening
/// bracket, unit characters and at most a closing bracket.
pub open spec fn is_unit_remnant(s: Seq<char>, from: int) -> bool {
    let close = run_end(s, from + 1, CharClass::Unit);
    &&& 0 <= from < s.len()
    &&& s[from] == '['
    &&& (close == s.len() || (s[close] == ']' && close + 1 == s.len()))
}

/// Whether the line has a keyword part and an equals sign but no value:
/// behind the equals sign stands nothing, white space only, or the remnant
/// of a unit.
pub open spec fn is_empty_value_line(s: Seq<char>) -> bool {
    let v = value_start(s, CharClass::Keyword);
    &&& has_equals(s, CharClass::Keyword)
    &&& (v == s.len() || is_unit_remnant(s, v))
}

/// The word that opens a comment line, with the blank that must follow it.
pub open spec fn comment_word() -> Seq<char> {
    seq!['C', 'O', 'M', 'M', 'E', 'N', 'T', ' ']
}

/// Whether the line is a comment: behind its leading white space stands
/// `COMMENT` and a blank.
pub open spec fn is_comment_line(s: Seq<char>) -> bool {
    has_at(s, keyword_start(s), comment_word())
}

/// The text of a comment line: what follows `COMMENT` and its blank, up to
/// the end of the line and as it stands there, white space included.
pub open spec fn comment_text(s: Seq<char>) -> Seq<char> {
    s.subrange(keyword_start(s) + 8, s.len() as int)
}

/// Where the value of a string line ends: at the first line feed behind its
/// start, or at the end of the line.
pub open spec fn string_value_end(s: Seq<char>) -> int {
    run_end(s, value_start(s, CharClass::UpperKeyword), CharClass::Inline)
}

/// Whether a line reads as `keyword = value` with a text value.
pub open spec fn string_line_matches(s: Seq<char>) -> bool {
    &&& has_equals(s, CharClass::UpperKeyword)
    &&& run_end(s, string_value_end(s), CharClass::Space) == s.len()
}

/// The text value of a string line, without the white space at its end.
pub open spec fn string_value(s: Seq<char>) -> Seq<char> {
    let from = value_start(s, CharClass::UpperKeyword);
    s.subrange(from, run_start(s, from, string_value_end(s)))
}

/// What the string lexer makes of a line.
///
/// A comment line gives its text, which may be empty. Any other line is
/// first tested for an empty value, then held against the grammar
/// `keyword = value`, then tested for an empty keyword. A line that passes
/// the three tests has a value that is not empty.
pub open spec fn string_line(s: Seq<char>) -> Result<Seq<char>, KvnFault> {
    if is_comment_line(s) {
        Ok(comment_text(s))
    } else if is_empty_value_line(s) {
        Err(KvnFault::EmptyValue)
    } else if !string_line_matches(s) {
        Err(KvnFault::InvalidFormat)
    } else if keyword_of(s, CharClass::UpperKeyword).len() == 0 {
        Err(KvnFault::EmptyKeyword)
    } else {
        Ok(string_value(s))
    }
}

/// A line that reads `keyword = value` and is not one without a value has
/// a value of at least one character, which is no white space: the test
/// for the empty value has caught every line whose value is blank.
pub proof fn lemma_string_value_not_empty(s: Seq<char>)
    requires
        !is_empty_value_line(s),
        string_line_matches(s),
    ensures
        value_start(s, CharClass::UpperKeyword) < run_start(
            s,
            value_start(s, CharClass::UpperKeyword),
            string_value_end(s),
        ) <= string_value_end(s) <= s.len(),
        !CharClass::Space.contains(s[value_start(s, CharClass::UpperKeyword)]),
{
    let upper = CharClass::UpperKeyword;
    let start = keyword_start(s);
    let end = keyword_end(s, upper);
    let sign = equals_at(s, upper);
    let from = value_start(s, upper);
    lemma_run_end(s, 0, CharClass::Space);
    lemma_run_end(s, start, upper);
    lemma_run_end(s, end, CharClass::Space);
    lemma_run_end(s, sign + 1, CharClass::Space);
    // The keyword is the same whether or not lower case letters count.
    assert forall|i: int| start <= i < end implies CharClass::Keyword.contains(#[trigger] s[i]) by {
        assert(upper.contains(s[i]));
    }
    if sign > end {
        assert(CharClass::Space.contains(s[end]));
    }
    lemma_run_end_is(s, start, CharClass::Keyword, end);
    assert(value_start(s, CharClass::Keyword) == from);
    assert(from < s.len());
    lemma_run_end(s, from, CharClass::Inline);
    lemma_run_start(s, from, string_value_end(s));
}

/// Whether a plus or minus sign stands at `at`.
pub open spec fn has_sign(s: Seq<char>, at: int) -> bool {
    0 <= at < s.len() && (s[at] == '+' || s[at] == '-')
}

/// Where the digits of a number begin: at the start of the value, or behind
/// its sign.
pub open spec fn digits_start(s: Seq<char>) -> int {
    let v = value_start(s, CharClass::Keyword);
    if has_sign(s, v) {
        v + 1
    } else {
        v
    }
}

/// Where the integer digits of a number end.
pub open spec fn digits_end(s: Seq<char>) -> int {
    run_end(s, digits_start(s), CharClass::Digit)
}

/// Where the fraction of a number ends: behind a decimal point and the
/// digits that follow it, or at the end of the integer digits where no
/// point stands there.
pub open spec fn fraction_end(s: Seq<char>) -> int {
    let d = digits_end(s);
    if 0 <= d < s.len() && s[d] == '.' {
        run_end(s, d + 1, CharClass::Digit)
    } else {
        d
    }
}

/// Where the exponent of a number ends: behind `e` or `E`, an optional sign
/// and at least one digit, or at the end of the fraction where no such
/// exponent stands there.
pub open spec fn exponent_end(s: Seq<char>) -> int {
    let f = fraction_end(s);
    if 0 <= f < s.len() && (s[f] == 'e' || s[f] == 'E') {
        let g = if has_sign(s, f + 1) {
            f + 2
        } else {
            f + 1
        };
        let h = run_end(s, g, CharClass::Digit);
        if h > g {
            h
        } else {
            f
        }
    } else {
        f
    }
}

/// Where a number ends: an integer behind its fraction, a float behind its
/// exponent.
pub open spec fn number_end(s: Seq<char>, float: bool) -> int {
    if float {
        exponent_end(s)
    } else {
        fraction_end(s)
    }
}

/// Whether a unit in brackets follows `from`, white space in between.
pub open spec fn has_unit(s: Seq<char>, from: int) -> bool {
    let open = run_end(s, from, CharClass::Space);
    0 <= open < s.len() && s[open] == '['
}

/// Where the unit that follows `from` begins: behind its opening bracket.
pub open spec fn unit_start(s: Seq<char>, from: int) -> int {
    run_end(s, from, CharClass::Space) + 1
}

/// Where the unit that follows `from` ends.
pub open spec fn unit_end(s: Seq<char>, from: int) -> int {
    run_end(s, unit_start(s, from), CharClass::Unit)
}

/// The unit that follows `from`, without its brackets.
pub open spec fn unit_of(s: Seq<char>, from: int) -> Seq<char> {
    s.subrange(unit_start(s, from), unit_end(s, from))
}

/// Whether the line ends properly behind a value that ends at `from`. With
/// units a unit in brackets may follow, whose closing bracket may be
/// missing. White space may stand before the unit and at the end.
pub open spec fn tail_matches(s: Seq<char>, from: int, with_unit: bool) -> bool {
    if with_unit && has_unit(s, from) {
        let e = unit_end(s, from);
        let close = if 0 <= e < s.len() && s[e] == ']' {
            e + 1
        } else {
            e
        };
        run_end(s, close, CharClass::Space) == s.len()
    } else {
        run_end(s, from, CharClass::Space) == s.len()
    }
}

/// The unit that a line carries behind a value that ends at `from`.
pub open spec fn tail_unit(s: Seq<char>, from: int, with_unit: bool) -> Option<Seq<char>> {
    if with_unit && has_unit(s, from) {
        Some(unit_of(s, from))
    } else {
        None
    }
}

/// A number as a line spells it.
pub struct KvnNumeral {
    /// Whether a minus sign stands before the digits.
    pub negative: bool,
    /// The integer digits, at least one.
    pub digits: Seq<char>,
    /// The whole number: sign, digits, fraction and exponent.
    pub text: Seq<char>,
    /// The unit in brackets behind the number, if the line has one.
    pub unit: Option<Seq<char>>,
}

/// Whether a line reads as `keyword = number`, with a unit where
/// `with_unit` allows one and an exponent where `float` allows one.
pub open spec fn number_line_matches(s: Seq<char>, with_unit: bool, float: bool) -> bool {
    &&& has_equals(s, CharClass::Keyword)
    &&& digits_start(s) < digits_end(s)
    &&& tail_matches(s, number_end(s, float), with_unit)
}

/// The number that a line spells.
pub open spec fn numeral_of(s: Seq<char>, with_unit: bool, float: bool) -> KvnNumeral {
    let v = value_start(s, CharClass::Keyword);
    KvnNumeral {
        negative: s[v] == '-',
        digits: s.subrange(digits_start(s), digits_end(s)),
        text: s.subrange(v, number_end(s, float)),
        unit: tail_unit(s, number_end(s, float), with_unit),
    }
}

/// What the two number lexers make of a line, before the digits are
/// turned into a value.
///
/// The line is first tested for an empty value, then held against the
/// grammar, then tested for an empty keyword.
pub open spec fn number_line(s: Seq<char>, with_unit: bool, float: bool) -> Result<
    KvnNumeral,
    KvnFault,
> {
    if is_empty_value_line(s) {
        Err(KvnFault::EmptyValue)
    } else if !number_line_matches(s, with_unit, float) {
        Err(KvnFault::InvalidFormat)
    } else if keyword_of(s, CharClass::Keyword).len() == 0 {
        Err(KvnFault::EmptyKeyword)
    } else {
        Ok(numeral_of(s, with_unit, float))
    }
}

/// What the integer lexer makes of a line, for a type with the given least
/// and greatest value: the value and the unit.
///
/// The line is read as a number without exponent. The fraction, if the
/// line has one, is left aside: the value is what sign and integer digits
/// spell. A number that the type does not have is a format fault.
pub open spec fn integer_line(s: Seq<char>, with_unit: bool, least: int, greatest: int) -> Result<
    (int, Option<Seq<char>>),
    KvnFault,
> {
    match number_line(s, with_unit, false) {
        Err(fault) => Err(fault),
        Ok(n) => if takes(least, greatest, n.negative, decimal_value(n.digits) as int) {
            Ok((signed_value(n.negative, decimal_value(n.digits) as int), n.unit))
        } else {
            Err(KvnFault::InvalidFormat)
        },
    }
}

/// The positions at which the fields of a date and time end.
pub struct KvnDateTimeLayout {
    pub year_end: int,
    pub month_end: int,
    pub day_end: int,
    pub hour_end: int,
    pub minute_end: int,
    pub second_end: int,
    pub fraction_end: int,
}

/// Where the fields of the date and time of a line end, each field being
/// the run of digits behind the separator that ends the field before it.
pub open spec fn datetime_layout(s: Seq<char>) -> KvnDateTimeLayout {
    let year_end = run_end(s, value_start(s, CharClass::UpperKeyword), CharClass::Digit);
    let month_end = run_end(s, year_end + 1, CharClass::Digit);
    let day_end = run_end(s, month_end + 1, CharClass::Digit);
    let hour_end = run_end(s, day_end + 1, CharClass::Digit);
    let minute_end = run_end(s, hour_end + 1, CharClass::Digit);
    let second_end = run_end(s, minute_end + 1, CharClass::Digit);
    let fraction_end = if 0 <= second_end < s.len() && s[second_end] == '.' {
        run_end(s, second_end + 1, CharClass::Digit)
    } else {
        second_end
    };
    KvnDateTimeLayout {
        year_end,
        month_end,
        day_end,
        hour_end,
        minute_end,
        second_end,
        fraction_end,
    }
}

/// Whether a field of `low` to `high` digits ends at `end`, having begun at
/// `start`, and is followed by `mark`.
pub open spec fn field_matches(
    s: Seq<char>,
    start: int,
    end: int,
    low: int,
    high: int,
    mark: char,
) -> bool {
    &&& low <= end - start <= high
    &&& 0 <= end < s.len()
    &&& s[end] == mark
}

/// Whether a line reads as `keyword = YYYY-MM-DDThh:mm:ss.fraction`: a year
/// of four digits, the other fields of one or two, the seconds of at most
/// two with an optional fraction.
pub open spec fn datetime_line_matches(s: Seq<char>) -> bool {
    let v = value_start(s, CharClass::UpperKeyword);
    let l = datetime_layout(s);
    &&& has_equals(s, CharClass::UpperKeyword)
    &&& field_matches(s, v, l.year_end, 4, 4, '-')
    &&& field_matches(s, l.year_end + 1, l.month_end, 1, 2, '-')
    &&& field_matches(s, l.month_end + 1, l.day_end, 1, 2, 'T')
    &&& field_matches(s, l.day_end + 1, l.hour_end, 1, 2, ':')
    &&& field_matches(s, l.hour_end + 1, l.minute_end, 1, 2, ':')
    &&& l.second_end - (l.minute_end + 1) <= 2
    &&& run_end(s, l.fraction_end, CharClass::Space) == s.len()
}

/// A date and time as a line spells it.
pub struct KvnDateTimeText {
    pub year: nat,
    pub month: nat,
    pub day: nat,
    pub hour: nat,
    pub minute: nat,
    /// The whole seconds; 0 where the line gives no digit for them.
    pub second: nat,
    /// The digits behind the decimal point of the seconds; none where the
    /// line has no such point.
    pub fraction: Seq<char>,
    /// The date and time as it stands in the line.
    pub text: Seq<char>,
}

impl KvnDateTimeText {
    /// Whether the fields have no more digits than the grammar allows
    /// them: four for the year, two for every other field, and digits only
    /// in the fraction. No range of the calendar or the clock is asked for.
    pub open spec fn conforms(self) -> bool {
        &&& self.year <= 9999
        &&& self.month <= 99
        &&& self.day <= 99
        &&& self.hour <= 99
        &&& self.minute <= 99
        &&& self.second <= 99
        &&& all_in(self.fraction, CharClass::Digit)
    }
}

/// The date and time that a line spells.
pub open spec fn datetime_of(s: Seq<char>) -> KvnDateTimeText {
    let v = value_start(s, CharClass::UpperKeyword);
    let l = datetime_layout(s);
    KvnDateTimeText {
        year: decimal_value(s.subrange(v, l.year_end)),
        month: decimal_value(s.subrange(l.year_end + 1, l.month_end)),
        day: decimal_value(s.subrange(l.month_end + 1, l.day_end)),
        hour: decimal_value(s.subrange(l.day_end + 1, l.hour_end)),
        minute: decimal_value(s.subrange(l.hour_end + 1, l.minute_end)),
        second: decimal_value(s.subrange(l.minute_end + 1, l.second_end)),
        fraction: if l.fraction_end > l.second_end {
            s.subrange(l.second_end + 1, l.fraction_end)
        } else {
            Seq::empty()
        },
        text: s.subrange(v, l.fraction_end),
    }
}

/// What the date-time lexer makes of a line.
///
/// The line is first tested for an empty value, then held against the
/// grammar, then tested for an empty keyword. The fields are read as
/// numbers; no range is checked.
pub open spec fn datetime_line(s: Seq<char>) -> Result<KvnDateTimeText, KvnFault> {
    if is_empty_value_line(s) {
        Err(KvnFault::EmptyValue)
    } else if !datetime_line_matches(s) {
        Err(KvnFault::InvalidFormat)
    } else if keyword_of(s, CharClass::UpperKeyword).len() == 0 {
        Err(KvnFault::EmptyKeyword)
    } else {
        Ok(datetime_of(s))
    }
}

/// The fields of a date and time that the lexer gives have the digits
/// that the grammar allows them: the year is below 10000, every other
/// field below 100, and the fraction holds digits only.
pub proof fn lemma_datetime_digit_counts(s: Seq<char>)
    requires
        datetime_line(s) is Ok,
    ensures
        datetime_line(s)->Ok_0.conforms(),
{
    let class = CharClass::UpperKeyword;
    let v = value_start(s, class);
    let l = datetime_layout(s);
    let t = datetime_line(s)->Ok_0;
    lemma_run_end(s, 0, CharClass::Space);
    lemma_run_end(s, keyword_start(s), class);
    lemma_run_end(s, keyword_end(s, class), CharClass::Space);
    lemma_run_end(s, equals_at(s, class) + 1, CharClass::Space);
    lemma_run_end(s, v, CharClass::Digit);
    lemma_run_end(s, l.year_end + 1, CharClass::Digit);
    lemma_run_end(s, l.month_end + 1, CharClass::Digit);
    lemma_run_end(s, l.day_end + 1, CharClass::Digit);
    lemma_run_end(s, l.hour_end + 1, CharClass::Digit);
    lemma_run_end(s, l.minute_end + 1, CharClass::Digit);
    lemma_pow10_values();
    lemma_decimal_below(s.subrange(v, l.year_end), 4);
    lemma_decimal_below(s.subrange(l.year_end + 1, l.month_end), 2);
    lemma_decimal_below(s.subrange(l.month_end + 1, l.day_end), 2);
    lemma_decimal_below(s.subrange(l.day_end + 1, l.hour_end), 2);
    lemma_decimal_below(s.subrange(l.hour_end + 1, l.minute_end), 2);
    lemma_decimal_below(s.subrange(l.minute_end + 1, l.second_end), 2);
    if l.fraction_end > l.second_end {
        lemma_run_end(s, l.second_end + 1, CharClass::Digit);
        assert forall|i: int| 0 <= i < t.fraction.len() implies CharClass::Digit.contains(
            #[trigger] t.fraction[i],
        ) by {
            assert(CharClass::Digit.contains(s[l.second_end + 1 + i]));
        }
    }
}

} // verus!
