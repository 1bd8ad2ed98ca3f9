//! Points in UTC written as ISO 8601 text.
//!
//! The text reads `YYYY-MM-DDThh:mm:ss`, with an optional fraction of the
//! second behind a point and an optional mark of the time scale, `Z` or
//! ` UTC`, at the end. The year has four digits or more, every other field
//! two.

use vstd::prelude::*;
use crate::decimal::{
    decimal_value,
    fixed_digits,
    lemma_decimal_below,
    lemma_decimal_below_pow10,
    lemma_digits_of,
    lemma_fixed_digits,
    lemma_pow10_add,
    lemma_pow10_grows,
    lemma_pow10_positive,
    lemma_pow10_values,
    pow10,
    read_decimal,
};
use crate::grammar::field_matches;
use crate::scanner::scan_field;
use crate::text::{
    CharClass,
    chars_of,
    is_digit,
    lemma_run_end,
    lemma_run_fills,
    run_end,
    scan_run,
    starts_at,
};
use crate::utc::{
    PyUtc,
    Utc,
    UtcError,
    UtcView,
    digit_group,
    utc_text,
    year_text,
};

verus! {

/// The most digits that a year may have.
pub const YEAR_DIGITS: usize = 18;

/// The digits of a fraction that count: those of the picoseconds.
pub const FRACTION_DIGITS: usize = 12;

/// The picoseconds that the digits of a fraction of a second spell. The
/// first twelve digits count; what follows them is cut off.
pub open spec fn picoseconds_of(digits: Seq<char>) -> nat {
    let count = if digits.len() < FRACTION_DIGITS {
        digits.len()
    } else {
        FRACTION_DIGITS as nat
    };
    decimal_value(digits.take(count as int)) * pow10((FRACTION_DIGITS - count) as nat)
}

/// Where the year of an ISO text ends.
pub open spec fn iso_year_end(s: Seq<char>) -> int {
    run_end(s, 0, CharClass::Digit)
}

/// Where the seconds of an ISO text end, fraction included: behind a
/// point and the digits that follow it, or behind the two digits of the
/// whole seconds where no point stands there.
pub open spec fn iso_seconds_end(s: Seq<char>) -> int {
    let point = iso_year_end(s) + 15;
    if 0 <= point < s.len() && s[point] == '.' {
        run_end(s, point + 1, CharClass::Digit)
    } else {
        point
    }
}

/// Whether `t` may end an ISO text: nothing, `Z` or ` UTC`.
pub open spec fn is_iso_suffix(t: Seq<char>) -> bool {
    t == Seq::<char>::empty() || t == seq!['Z'] || t == seq![' ', 'U', 'T', 'C']
}

/// Whether a run of exactly two digits starts at `start` and is followed
/// by `mark`.
pub open spec fn pair_matches(s: Seq<char>, start: int, mark: char) -> bool {
    field_matches(s, start, run_end(s, start, CharClass::Digit), 2, 2, mark)
}

/// Whether `s` is an ISO text of a date and time.
pub open spec fn iso_matches(s: Seq<char>) -> bool {
    let y = iso_year_end(s);
    &&& field_matches(s, 0, y, 4, YEAR_DIGITS as int, '-')
    &&& pair_matches(s, y + 1, '-')
    &&& pair_matches(s, y + 4, 'T')
    &&& pair_matches(s, y + 7, ':')
    &&& pair_matches(s, y + 10, ':')
    &&& run_end(s, y + 13, CharClass::Digit) == y + 15
    &&& iso_seconds_end(s) != y + 16
    &&& is_iso_suffix(s.subrange(iso_seconds_end(s), s.len() as int))
}

/// The fields that an ISO text spells.
pub open spec fn iso_fields(s: Seq<char>) -> UtcView {
    let y = iso_year_end(s);
    UtcView {
        year: decimal_value(s.subrange(0, y)) as int,
        month: decimal_value(s.subrange(y + 1, y + 3)) as int,
        day: decimal_value(s.subrange(y + 4, y + 6)) as int,
        hour: decimal_value(s.subrange(y + 7, y + 9)) as int,
        minute: decimal_value(s.subrange(y + 10, y + 12)) as int,
        second: decimal_value(s.subrange(y + 13, y + 15)) as int,
        subsecond: if iso_seconds_end(s) > y + 16 {
            picoseconds_of(s.subrange(y + 16, iso_seconds_end(s))) as int
        } else {
            0
        },
    }
}

/// What an ISO text gives: the fields of a point in UTC, or the reason why
/// it gives none. A text that is no ISO text is reported as such; the
/// fields of one that is are then tested as those of any point are.
pub open spec fn utc_from_iso(s: Seq<char>) -> Result<UtcView, UtcError> {
    if !iso_matches(s) {
        Err(UtcError::InvalidIsoString)
    } else {
        match iso_fields(s).fault() {
            Some(fault) => Err(fault),
            None => Ok(iso_fields(s)),
        }
    }
}

/// A fraction spells fewer picoseconds than a second has.
pub proof fn lemma_picoseconds_bound(digits: Seq<char>)
    requires
        forall|i: int| 0 <= i < digits.len() ==> is_digit(#[trigger] digits[i]),
    ensures
        picoseconds_of(digits) < 1_000_000_000_000,
{
    let count = if digits.len() < FRACTION_DIGITS {
        digits.len()
    } else {
        FRACTION_DIGITS as nat
    };
    let head = digits.take(count as int);
    lemma_decimal_below_pow10(head);
    lemma_pow10_add(count, (12 - count) as nat);
    lemma_pow10_positive((12 - count) as nat);
    let rest = pow10((12 - count) as nat);
    assert(decimal_value(head) * rest < pow10(count) * rest) by (nonlinear_arith)
        requires
            decimal_value(head) < pow10(count),
            rest > 0,
    {
    }
    lemma_pow10_values();
}

/// Reads the picoseconds that the digits of `s` from `from` up to `to`
/// spell as the fraction of a second.
fn read_picoseconds(s: &Vec<char>, from: usize, to: usize) -> (r: u64)
    requires
        from <= to <= s.len(),
        forall|i: int| from <= i < to ==> is_digit(#[trigger] s@[i]),
    ensures
        r == picoseconds_of(s@.subrange(from as int, to as int)),
        r < 1_000_000_000_000,
{
    let ghost digits = s@.subrange(from as int, to as int);
    let count = if to - from < FRACTION_DIGITS {
        to - from
    } else {
        FRACTION_DIGITS
    };
    let ghost head = decimal_value(digits.take(count as int));
    proof {
        assert(digits.take(count as int) =~= s@.subrange(from as int, from + count));
        lemma_decimal_below_pow10(digits.take(count as int));
        lemma_picoseconds_bound(digits);
        lemma_pow10_grows(count as nat, 12);
        lemma_pow10_values();
    }
    let wide = read_decimal(s, from, from + count, 1_000_000_000_000);
    let mut r: u64 = wide as u64;
    let mut done: usize = count;
    assert(r == head);
    assert(head * pow10(0) == head);
    while done < FRACTION_DIGITS
        invariant
            count <= done <= FRACTION_DIGITS,
            r == head * pow10((done - count) as nat),
            head * pow10((12 - count) as nat) < 1_000_000_000_000,
        decreases FRACTION_DIGITS - done,
    {
        proof {
            let next = (done - count + 1) as nat;
            lemma_pow10_grows(next, (12 - count) as nat);
            assert(head * pow10(next) <= head * pow10((12 - count) as nat)) by (nonlinear_arith)
                requires
                    pow10(next) <= pow10((12 - count) as nat),
                    head >= 0,
            {
            }
            assert(head * (10 * pow10((done - count) as nat)) == (head * pow10(
                (done - count) as nat,
            )) * 10) by (nonlinear_arith);
        }
        r = r * 10;
        done += 1;
    }
    r
}

/// Reads two digits of `s` from `from` on as a number.
fn read_pair(s: &Vec<char>, from: usize) -> (r: u8)
    requires
        from + 2 <= s.len(),
        run_end(s@, from as int, CharClass::Digit) == from + 2,
    ensures
        r == decimal_value(s@.subrange(from as int, from + 2)),
{
    proof {
        lemma_run_end(s@, from as int, CharClass::Digit);
        lemma_pow10_values();
        lemma_decimal_below(s@.subrange(from as int, from + 2), 2);
    }
    read_decimal(s, from, from + 2, 100) as u8
}

/// Reads the digits of `s` up to `to`, at most eighteen, as a year.
fn read_year(s: &Vec<char>, to: usize) -> (r: i64)
    requires
        to <= s.len(),
        to <= YEAR_DIGITS,
        run_end(s@, 0, CharClass::Digit) == to,
    ensures
        r == decimal_value(s@.subrange(0, to as int)),
{
    proof {
        lemma_run_end(s@, 0, CharClass::Digit);
        lemma_pow10_values();
        lemma_decimal_below(s@.subrange(0, to as int), 18);
    }
    read_decimal(s, 0, to, 1_000_000_000_000_000_000) as i64
}

/// Tests whether what `s` holds from `from` on may end an ISO text.
fn iso_suffix_at(s: &Vec<char>, from: usize) -> (r: bool)
    requires
        from <= s.len(),
    ensures
        r == is_iso_suffix(s@.subrange(from as int, s.len() as int)),
{
    let ghost rest = s@.subrange(from as int, s.len() as int);
    let left = s.len() - from;
    if left == 0 {
        assert(rest =~= Seq::<char>::empty());
        true
    } else if left == 1 {
        assert(rest =~= seq![s@[from as int]]);
        assert(seq!['Z'][0] == 'Z');
        s[from] == 'Z'
    } else if left == 4 {
        let mark = vec![' ', 'U', 'T', 'C'];
        assert(mark@ =~= seq![' ', 'U', 'T', 'C']);
        starts_at(s, from, &mark)
    } else {
        assert(rest.len() == left);
        false
    }
}

/// Holds `s` against the grammar of an ISO text and gives where the year
/// ends and where the seconds end.
fn scan_iso(s: &Vec<char>) -> (r: Option<(usize, usize)>)
    ensures
        r is Some <==> iso_matches(s@),
        r matches Some(ends) ==> {
            &&& ends.0 == iso_year_end(s@)
            &&& ends.1 == iso_seconds_end(s@)
            &&& 4 <= ends.0 <= YEAR_DIGITS
            &&& ends.0 + 15 <= ends.1 <= s.len()
        },
{
    let y = match scan_field(s, 0, 4, YEAR_DIGITS, '-') {
        Some(end) => end,
        None => {
            return None;
        },
    };
    if scan_field(s, y + 1, 2, 2, '-').is_none() {
        return None;
    }
    if scan_field(s, y + 4, 2, 2, 'T').is_none() {
        return None;
    }
    if scan_field(s, y + 7, 2, 2, ':').is_none() {
        return None;
    }
    if scan_field(s, y + 10, 2, 2, ':').is_none() {
        return None;
    }
    if scan_run(s, y + 13, CharClass::Digit) != y + 15 {
        return None;
    }
    let end = if y + 15 < s.len() && s[y + 15] == '.' {
        scan_run(s, y + 16, CharClass::Digit)
    } else {
        y + 15
    };
    if end == y + 16 || !iso_suffix_at(s, end) {
        return None;
    }
    Some((y, end))
}

/// The text of a point in UTC, part by part: where each part stands.
proof fn lemma_utc_text_parts(v: UtcView)
    ensures
        ({
            let t = utc_text(v);
            let year = year_text(v.year);
            let y = year.len() as int;
            let month = fixed_digits(v.month, 2);
            let day = fixed_digits(v.day, 2);
            let hour = fixed_digits(v.hour, 2);
            let minute = fixed_digits(v.minute, 2);
            let second = fixed_digits(v.second, 2);
            let milli = fixed_digits(digit_group(v.subsecond, 1_000_000_000), 3);
            &&& t.len() == y + month.len() + day.len() + hour.len() + minute.len() + second.len()
                + milli.len() + 10
            &&& t.subrange(0, y) == year
            &&& month.len() == 2 && day.len() == 2 && hour.len() == 2 && minute.len() == 2
                && second.len() == 2 && milli.len() == 3 ==> {
                &&& t[y] == '-'
                &&& t.subrange(y + 1, y + 3) == month
                &&& t[y + 3] == '-'
                &&& t.subrange(y + 4, y + 6) == day
                &&& t[y + 6] == 'T'
                &&& t.subrange(y + 7, y + 9) == hour
                &&& t[y + 9] == ':'
                &&& t.subrange(y + 10, y + 12) == minute
                &&& t[y + 12] == ':'
                &&& t.subrange(y + 13, y + 15) == second
                &&& t[y + 15] == '.'
                &&& t.subrange(y + 16, y + 19) == milli
                &&& t.subrange(y + 19, t.len() as int) == seq![' ', 'U', 'T', 'C']
            }
        }),
{
    let t = utc_text(v);
    let year = year_text(v.year);
    let y = year.len() as int;
    let month = fixed_digits(v.month, 2);
    let day = fixed_digits(v.day, 2);
    let hour = fixed_digits(v.hour, 2);
    let minute = fixed_digits(v.minute, 2);
    let second = fixed_digits(v.second, 2);
    let milli = fixed_digits(digit_group(v.subsecond, 1_000_000_000), 3);
    assert(t.subrange(0, y) =~= year);
    if month.len() == 2 && day.len() == 2 && hour.len() == 2 && minute.len() == 2 && second.len()
        == 2 && milli.len() == 3 {
        assert(t.subrange(y + 1, y + 3) =~= month);
        assert(t.subrange(y + 4, y + 6) =~= day);
        assert(t.subrange(y + 7, y + 9) =~= hour);
        assert(t.subrange(y + 10, y + 12) =~= minute);
        assert(t.subrange(y + 13, y + 15) =~= second);
        assert(t.subrange(y + 16, y + 19) =~= milli);
        assert(t.subrange(y + 19, t.len() as int) =~= seq![' ', 'U', 'T', 'C']);
    }
}

/// The text of a point in UTC reads back as the point, as far as the text
/// holds it: with the fraction of the second cut off behind the
/// milliseconds. This holds of the years that an ISO text can hold, those
/// of at most eighteen digits.
#[verifier::rlimit(40)]
pub proof fn lemma_text_reads_back(v: UtcView)
    requires
        v.valid(),
        v.year < 1_000_000_000_000_000_000,
    ensures
        utc_from_iso(utc_text(v)) == Ok::<UtcView, UtcError>(
            UtcView {
                year: v.year,
                month: v.month,
                day: v.day,
                hour: v.hour,
                minute: v.minute,
                second: v.second,
                subsecond: digit_group(v.subsecond, 1_000_000_000) * 1_000_000_000,
            },
        ),
{
    let t = utc_text(v);
    let year = year_text(v.year);
    let y = year.len() as int;
    let ms = digit_group(v.subsecond, 1_000_000_000);
    let milli = fixed_digits(ms, 3);
    lemma_pow10_values();
    if v.year < 10000 {
        lemma_fixed_digits(v.year, 4);
    } else {
        lemma_digits_of(v.year, 18);
    }
    lemma_fixed_digits(v.month, 2);
    lemma_fixed_digits(v.day, 2);
    lemma_fixed_digits(v.hour, 2);
    lemma_fixed_digits(v.minute, 2);
    lemma_fixed_digits(v.second, 2);
    lemma_fixed_digits(ms, 3);
    lemma_utc_text_parts(v);
    lemma_run_fills(t, 0, y, CharClass::Digit);
    lemma_run_fills(t, y + 1, y + 3, CharClass::Digit);
    lemma_run_fills(t, y + 4, y + 6, CharClass::Digit);
    lemma_run_fills(t, y + 7, y + 9, CharClass::Digit);
    lemma_run_fills(t, y + 10, y + 12, CharClass::Digit);
    lemma_run_fills(t, y + 13, y + 15, CharClass::Digit);
    assert(t[y + 19] == t.subrange(y + 19, t.len() as int)[0]);
    lemma_run_fills(t, y + 16, y + 19, CharClass::Digit);
    assert(iso_seconds_end(t) == y + 19);
    assert(iso_matches(t));
    assert(milli.take(3) =~= milli);
    assert(picoseconds_of(milli) == ms * 1_000_000_000);
}

impl Utc {
    /// The point in UTC that an ISO text spells, or the reason why it
    /// spells none.
    pub fn from_iso(iso: &str) -> (r: Result<Utc, UtcError>)
        ensures
            match utc_from_iso(iso@) {
                Ok(v) => r matches Ok(utc) && utc@ == v,
                Err(fault) => r == Err::<Utc, UtcError>(fault),
            },
    {
        let s = chars_of(iso);
        let (y, end) = match scan_iso(&s) {
            Some(ends) => ends,
            None => {
                return Err(UtcError::InvalidIsoString);
            },
        };
        let year = read_year(&s, y);
        let month = read_pair(&s, y + 1);
        let day = read_pair(&s, y + 4);
        let hour = read_pair(&s, y + 7);
        let minute = read_pair(&s, y + 10);
        let second = read_pair(&s, y + 13);
        let subsecond = if end > y + 16 {
            proof {
                lemma_run_end(s@, y + 16, CharClass::Digit);
            }
            read_picoseconds(&s, y + 16, end)
        } else {
            0
        };
        Utc::new(year, month, day, hour, minute, second, subsecond)
    }
}

impl PyUtc {
    /// The point in UTC that an ISO text spells, or the reason why it
    /// spells none.
    pub fn from_iso(iso: &str) -> (r: Result<PyUtc, UtcError>)
        ensures
            match utc_from_iso(iso@) {
                Ok(v) => r matches Ok(utc) && utc.0@ == v,
                Err(fault) => r matches Err(e) && e == fault,
            },
    {
        match Utc::from_iso(iso) {
            Ok(utc) => Ok(PyUtc(utc)),
            Err(e) => Err(e),
        }
    }
}

} // verus!
