//! What holds of the lexers and of the walk, for every line and schema.

use vstd::prelude::*;
use crate::decimal::{decimal_value, lemma_decimal_below, lemma_pow10_values};
use crate::deserializer::{KvnDeserializerErr, KvnWalk, fail, field_accepts, lex_field, walk};
use crate::grammar::{
    KvnDateTimeText,
    KvnFault,
    datetime_layout,
    datetime_line,
    datetime_line_matches,
    digits_end,
    digits_start,
    equals_at,
    fraction_end,
    has_equals,
    has_sign,
    integer_line,
    number_end,
    is_comment_line,
    is_empty_value_line,
    is_unit_remnant,
    keyword_end,
    keyword_of,
    keyword_start,
    lemma_string_value_not_empty,
    number_line,
    string_line,
    string_value,
    string_value_end,
    unit_of,
    value_start,
};
use crate::schema::{KvnFieldValueView, KvnFieldView, KvnRecordView};
use crate::text::{
    CharClass,
    all_in,
    is_digit,
    is_space,
    lemma_run_end,
    lemma_run_end_is,
    lemma_run_end_subrange,
    lemma_run_fills,
    lemma_run_start,
    lemma_run_start_is,
    run_end,
    run_start,
    trim_end,
    trim_start,
};

verus! {

/// The line `KEY = VALUE` with white space put around its three parts.
pub open spec fn key_value_line(
    lead: Seq<char>,
    key: Seq<char>,
    gap: Seq<char>,
    pad: Seq<char>,
    value: Seq<char>,
    trail: Seq<char>,
) -> Seq<char> {
    lead + key + gap + seq!['='] + pad + value + trail
}

/// Where the parts of `key_value_line` stand in it.
proof fn lemma_key_value_parts(
    lead: Seq<char>,
    key: Seq<char>,
    gap: Seq<char>,
    pad: Seq<char>,
    value: Seq<char>,
    trail: Seq<char>,
)
    ensures
        ({
            let line = key_value_line(lead, key, gap, pad, value, trail);
            let a = lead.len() as int;
            let b = a + key.len();
            let c = b + gap.len();
            let v = c + 1 + pad.len();
            let w = v + value.len();
            &&& line.len() == w + trail.len()
            &&& forall|i: int| 0 <= i < a ==> #[trigger] line[i] == lead[i]
            &&& forall|i: int| a <= i < b ==> #[trigger] line[i] == key[i - a]
            &&& forall|i: int| b <= i < c ==> #[trigger] line[i] == gap[i - b]
            &&& line[c] == '='
            &&& forall|i: int| c + 1 <= i < v ==> #[trigger] line[i] == pad[i - c - 1]
            &&& forall|i: int| v <= i < w ==> #[trigger] line[i] == value[i - v]
            &&& forall|i: int| w <= i < line.len() ==> #[trigger] line[i] == trail[i - w]
        }),
{
}

/// The start of `key_value_line`, for keywords of `class`: where keyword,
/// equals sign and value stand.
proof fn lemma_key_value_head(
    lead: Seq<char>,
    key: Seq<char>,
    gap: Seq<char>,
    pad: Seq<char>,
    value: Seq<char>,
    trail: Seq<char>,
    class: CharClass,
)
    requires
        all_in(lead, CharClass::Space),
        all_in(gap, CharClass::Space),
        all_in(pad, CharClass::Space),
        all_in(key, class),
        class == CharClass::UpperKeyword || class == CharClass::Keyword,
        key.len() > 0,
        value.len() > 0,
        !is_space(value[0]),
    ensures
        ({
            let line = key_value_line(lead, key, gap, pad, value, trail);
            &&& keyword_start(line) == lead.len()
            &&& keyword_end(line, class) == lead.len() + key.len()
            &&& equals_at(line, class) == lead.len() + key.len() + gap.len()
            &&& has_equals(line, class)
            &&& value_start(line, class) == lead.len() + key.len() + gap.len() + 1 + pad.len()
        }),
{
    let line = key_value_line(lead, key, gap, pad, value, trail);
    let a = lead.len() as int;
    let b = a + key.len();
    let c = b + gap.len();
    let v = c + 1 + pad.len();
    lemma_key_value_parts(lead, key, gap, pad, value, trail);
    assert(line[a] == key[0]);
    assert forall|i: int| 0 <= i < a implies CharClass::Space.contains(#[trigger] line[i]) by {
        assert(CharClass::Space.contains(lead[i]));
    }
    lemma_run_end_is(line, 0, CharClass::Space, a);
    assert forall|i: int| a <= i < b implies class.contains(#[trigger] line[i]) by {
        assert(class.contains(key[i - a]));
    }
    if gap.len() > 0 {
        assert(line[b] == gap[0]);
        assert(CharClass::Space.contains(gap[0]));
    }
    lemma_run_end_is(line, a, class, b);
    assert forall|i: int| b <= i < c implies CharClass::Space.contains(#[trigger] line[i]) by {
        assert(CharClass::Space.contains(gap[i - b]));
    }
    lemma_run_end_is(line, b, CharClass::Space, c);
    assert forall|i: int| c + 1 <= i < v implies CharClass::Space.contains(#[trigger] line[i]) by {
        assert(CharClass::Space.contains(pad[i - c - 1]));
    }
    assert(line[v] == value[0]);
    lemma_run_end_is(line, c + 1, CharClass::Space, v);
}

/// A line `KEY = VALUE` gives the keyword `KEY` and the value `VALUE`,
/// whatever white space stands around its three parts.
///
/// `KEY` is a keyword of digits, upper case letters and underscores, and
/// `VALUE` a text on one line that neither begins nor ends with white
/// space. Two lines of this form are read otherwise and are left out: a
/// comment line, and a line whose value is the remnant of a unit and ends
/// the line.
#[verifier::rlimit(40)]
pub proof fn lemma_key_value_line(
    lead: Seq<char>,
    key: Seq<char>,
    gap: Seq<char>,
    pad: Seq<char>,
    value: Seq<char>,
    trail: Seq<char>,
)
    requires
        all_in(lead, CharClass::Space),
        all_in(gap, CharClass::Space),
        all_in(pad, CharClass::Space),
        all_in(trail, CharClass::Space),
        key.len() > 0,
        all_in(key, CharClass::UpperKeyword),
        value.len() > 0,
        all_in(value, CharClass::Inline),
        !is_space(value[0]),
        !is_space(value.last()),
        !is_comment_line(key_value_line(lead, key, gap, pad, value, trail)),
        !(is_unit_remnant(value, 0) && trail.len() == 0),
    ensures
        keyword_of(key_value_line(lead, key, gap, pad, value, trail), CharClass::UpperKeyword)
            == key,
        string_line(key_value_line(lead, key, gap, pad, value, trail)) == Ok::<
            Seq<char>,
            KvnFault,
        >(value),
{
    let line = key_value_line(lead, key, gap, pad, value, trail);
    let a = lead.len() as int;
    let b = a + key.len();
    let c = b + gap.len();
    let v = c + 1 + pad.len();
    let w = v + value.len();
    let n = line.len() as int;
    lemma_key_value_parts(lead, key, gap, pad, value, trail);
    lemma_key_value_head(lead, key, gap, pad, value, trail, CharClass::UpperKeyword);
    lemma_key_value_head(lead, key, gap, pad, value, trail, CharClass::Keyword);
    assert(keyword_of(line, CharClass::UpperKeyword) =~= key);
    // The value is not empty, and is no remnant of a unit that ends the line.
    assert(!is_empty_value_line(line)) by {
        if is_unit_remnant(line, v) {
            let close = run_end(line, v + 1, CharClass::Unit);
            lemma_run_end(line, v + 1, CharClass::Unit);
            if trail.len() > 0 {
                assert(line[n - 1] == trail[n - 1 - w]);
                assert(is_space(trail[n - 1 - w]));
                assert(false);
            } else {
                let end = run_end(value, 1, CharClass::Unit);
                lemma_run_end(value, 1, CharClass::Unit);
                assert(line[v] == value[0]);
                assert forall|i: int| v + 1 <= i < v + end implies CharClass::Unit.contains(
                    #[trigger] line[i],
                ) by {
                    assert(CharClass::Unit.contains(value[i - v]));
                }
                if end < value.len() {
                    assert(line[v + end] == value[end]);
                }
                lemma_run_end_is(line, v + 1, CharClass::Unit, v + end);
                assert(false);
            }
        }
    }
    // The value runs to the first line feed of the trailing white space.
    let e = string_value_end(line);
    lemma_run_end(line, v, CharClass::Inline);
    assert(w <= e) by {
        if e < w {
            assert(line[e] == value[e - v]);
            assert(CharClass::Inline.contains(value[e - v]));
        }
    }
    assert forall|i: int| e <= i < n implies CharClass::Space.contains(#[trigger] line[i]) by {
        assert(CharClass::Space.contains(trail[i - w]));
    }
    lemma_run_end_is(line, e, CharClass::Space, n);
    assert forall|i: int| w <= i < e implies is_space(#[trigger] line[i]) by {
        assert(CharClass::Space.contains(trail[i - w]));
    }
    assert(line[w - 1] == value[value.len() - 1]);
    lemma_run_start_is(line, v, e, w);
    assert(string_value(line) =~= value);
}

/// The value of a line `keyword = value` has no white space at either end:
/// to trim it again changes nothing.
pub proof fn lemma_string_value_is_trimmed(s: Seq<char>)
    requires
        !is_comment_line(s),
        string_line(s) is Ok,
    ensures
        trim_start(string_line(s)->Ok_0) == string_line(s)->Ok_0,
        trim_end(string_line(s)->Ok_0) == string_line(s)->Ok_0,
{
    let value = string_value(s);
    let from = value_start(s, CharClass::UpperKeyword);
    let to = string_value_end(s);
    let end = run_start(s, from, to);
    lemma_string_value_not_empty(s);
    lemma_run_start(s, from, to);
    assert(value.len() > 0);
    assert(value[0] == s[from]);
    assert(value.last() == s[end - 1]);
    lemma_run_end_is(value, 0, CharClass::Space, 0);
    lemma_run_start_is(value, 0, value.len() as int, value.len() as int);
    assert(trim_start(value) =~= value);
    assert(trim_end(value) =~= value);
}

/// A line without a value is reported as such by every lexer of numbers
/// and by the date-time lexer, whatever else is wrong with it: the test
/// for the empty value comes first.
pub proof fn lemma_empty_value_first(s: Seq<char>, with_unit: bool, least: int, greatest: int)
    requires
        is_empty_value_line(s),
    ensures
        number_line(s, with_unit, true) == Err::<crate::grammar::KvnNumeral, KvnFault>(
            KvnFault::EmptyValue,
        ),
        integer_line(s, with_unit, least, greatest) == Err::<(int, Option<Seq<char>>), KvnFault>(
            KvnFault::EmptyValue,
        ),
        datetime_line(s) == Err::<crate::grammar::KvnDateTimeText, KvnFault>(KvnFault::EmptyValue),
{
}

/// Whether `t` spells a decimal number: an optional sign, digits, an
/// optional point with digits behind it and, where `float` allows it, an
/// optional exponent of `e` or `E`, an optional sign and digits.
pub open spec fn is_decimal_literal(t: Seq<char>, float: bool) -> bool {
    let a: int = if has_sign(t, 0) {
        1
    } else {
        0
    };
    let b = run_end(t, a, CharClass::Digit);
    let c = if b < t.len() && t[b] == '.' {
        run_end(t, b + 1, CharClass::Digit)
    } else {
        b
    };
    let g = if has_sign(t, c + 1) {
        c + 2
    } else {
        c + 1
    };
    let d = if float && c < t.len() && (t[c] == 'e' || t[c] == 'E') && run_end(
        t,
        g,
        CharClass::Digit,
    ) > g {
        run_end(t, g, CharClass::Digit)
    } else {
        c
    };
    a < b && d == t.len()
}

/// The number that a number lexer gives is spelled as a decimal number,
/// from its first character to its last: a float parser can take it as it
/// is. Its integer digits are those behind the sign, and it is negative
/// where the sign is a minus.
pub proof fn lemma_number_is_decimal_literal(s: Seq<char>, with_unit: bool, float: bool)
    requires
        number_line(s, with_unit, float) is Ok,
    ensures
        ({
            let n = number_line(s, with_unit, float)->Ok_0;
            let a: int = if has_sign(n.text, 0) {
                1
            } else {
                0
            };
            &&& is_decimal_literal(n.text, float)
            &&& n.digits == n.text.subrange(a, run_end(n.text, a, CharClass::Digit))
            &&& n.negative == (n.text[0] == '-')
        }),
{
    let n = number_line(s, with_unit, float)->Ok_0;
    let class = CharClass::Keyword;
    let v = value_start(s, class);
    let ds = digits_start(s);
    let de = digits_end(s);
    let fe = fraction_end(s);
    let e = number_end(s, float);
    let t = n.text;
    lemma_run_end(s, 0, CharClass::Space);
    lemma_run_end(s, keyword_start(s), class);
    lemma_run_end(s, keyword_end(s, class), CharClass::Space);
    lemma_run_end(s, equals_at(s, class) + 1, CharClass::Space);
    lemma_run_end(s, ds, CharClass::Digit);
    if de < s.len() && s[de] == '.' {
        lemma_run_end(s, de + 1, CharClass::Digit);
    }
    let g = if has_sign(s, fe + 1) {
        fe + 2
    } else {
        fe + 1
    };
    if fe < s.len() {
        if g <= s.len() {
            lemma_run_end(s, g, CharClass::Digit);
        }
    }
    assert(v <= ds <= de <= fe <= e <= s.len());
    assert(t.len() == e - v);
    assert(t[0] == s[v]);
    assert(has_sign(t, 0) == has_sign(s, v));
    lemma_run_end_subrange(s, v, e, ds, CharClass::Digit);
    assert(run_end(t, ds - v, CharClass::Digit) == de - v);
    assert(n.digits =~= t.subrange(ds - v, de - v));
    if de < e {
        assert(t[de - v] == s[de]);
        if s[de] == '.' {
            lemma_run_end_subrange(s, v, e, de + 1, CharClass::Digit);
        }
    }
    if fe < e {
        assert(float);
        assert(t[fe - v] == s[fe]);
        assert(e == run_end(s, g, CharClass::Digit));
        if fe + 1 < e {
            assert(t[fe + 1 - v] == s[fe + 1]);
        }
        assert(has_sign(t, fe + 1 - v) == has_sign(s, fe + 1));
        lemma_run_end_subrange(s, v, e, g, CharClass::Digit);
    }
}

/// A date and time spelled field by field, with a point and a fraction
/// behind the seconds where `point` says so.
pub open spec fn date_time_text(
    year: Seq<char>,
    month: Seq<char>,
    day: Seq<char>,
    hour: Seq<char>,
    minute: Seq<char>,
    second: Seq<char>,
    point: bool,
    fraction: Seq<char>,
) -> Seq<char> {
    year + seq!['-'] + month + seq!['-'] + day + seq!['T'] + hour + seq![':'] + minute + seq![
        ':',
    ] + second + (if point {
        seq!['.'] + fraction
    } else {
        Seq::empty()
    })
}

/// Where the fields of `date_time_text` stand in it.
proof fn lemma_date_time_parts(
    year: Seq<char>,
    month: Seq<char>,
    day: Seq<char>,
    hour: Seq<char>,
    minute: Seq<char>,
    second: Seq<char>,
    point: bool,
    fraction: Seq<char>,
)
    requires
        !point ==> fraction.len() == 0,
    ensures
        ({
            let t = date_time_text(year, month, day, hour, minute, second, point, fraction);
            let a = year.len() as int;
            let b = a + 1 + month.len();
            let c = b + 1 + day.len();
            let d = c + 1 + hour.len();
            let e = d + 1 + minute.len();
            let f = e + 1 + second.len();
            &&& t.len() == f + (if point {
                1 + fraction.len()
            } else {
                0
            })
            &&& t.subrange(0, a) == year && t[a] == '-'
            &&& t.subrange(a + 1, b) == month && t[b] == '-'
            &&& t.subrange(b + 1, c) == day && t[c] == 'T'
            &&& t.subrange(c + 1, d) == hour && t[d] == ':'
            &&& t.subrange(d + 1, e) == minute && t[e] == ':'
            &&& t.subrange(e + 1, f) == second
            &&& point ==> t[f] == '.' && t.subrange(f + 1, t.len() as int) == fraction
        }),
{
    let t = date_time_text(year, month, day, hour, minute, second, point, fraction);
    let a = year.len() as int;
    let b = a + 1 + month.len();
    let c = b + 1 + day.len();
    let d = c + 1 + hour.len();
    let e = d + 1 + minute.len();
    let f = e + 1 + second.len();
    assert(t.subrange(0, a) =~= year);
    assert(t.subrange(a + 1, b) =~= month);
    assert(t.subrange(b + 1, c) =~= day);
    assert(t.subrange(c + 1, d) =~= hour);
    assert(t.subrange(d + 1, e) =~= minute);
    assert(t.subrange(e + 1, f) =~= second);
    if point {
        assert(t.subrange(f + 1, t.len() as int) =~= fraction);
    }
}

/// Whether the digits of the fields of a date and time are as many as the
/// grammar allows: four for the year, one or two for month, day, hour and
/// minute, at most two for the seconds, and a fraction only behind a point.
pub open spec fn is_date_time(
    year: Seq<char>,
    month: Seq<char>,
    day: Seq<char>,
    hour: Seq<char>,
    minute: Seq<char>,
    second: Seq<char>,
    point: bool,
    fraction: Seq<char>,
) -> bool {
    &&& all_in(year, CharClass::Digit) && year.len() == 4
    &&& all_in(month, CharClass::Digit) && 1 <= month.len() <= 2
    &&& all_in(day, CharClass::Digit) && 1 <= day.len() <= 2
    &&& all_in(hour, CharClass::Digit) && 1 <= hour.len() <= 2
    &&& all_in(minute, CharClass::Digit) && 1 <= minute.len() <= 2
    &&& all_in(second, CharClass::Digit) && second.len() <= 2
    &&& all_in(fraction, CharClass::Digit)
    &&& !point ==> fraction.len() == 0
}

/// A field of digits that stands in `s` from `from` on and is followed by
/// no digit is the run of digits there.
proof fn lemma_field_run(s: Seq<char>, from: int, field: Seq<char>)
    requires
        0 <= from,
        from + field.len() <= s.len(),
        s.subrange(from, from + field.len()) == field,
        all_in(field, CharClass::Digit),
        from + field.len() < s.len() ==> !is_digit(s[from + field.len()]),
    ensures
        run_end(s, from, CharClass::Digit) == from + field.len(),
{
    lemma_run_fills(s, from, from + field.len(), CharClass::Digit);
}

/// Where the fields of a date and time end that stands in `s` from `v` on
/// and is followed by white space or by nothing.
#[verifier::rlimit(40)]
proof fn lemma_date_time_layout(
    s: Seq<char>,
    v: int,
    year: Seq<char>,
    month: Seq<char>,
    day: Seq<char>,
    hour: Seq<char>,
    minute: Seq<char>,
    second: Seq<char>,
    point: bool,
    fraction: Seq<char>,
)
    requires
        is_date_time(year, month, day, hour, minute, second, point, fraction),
        0 <= v,
        v + date_time_text(year, month, day, hour, minute, second, point, fraction).len()
            <= s.len(),
        s.subrange(
            v,
            v + date_time_text(year, month, day, hour, minute, second, point, fraction).len(),
        ) == date_time_text(year, month, day, hour, minute, second, point, fraction),
        value_start(s, CharClass::UpperKeyword) == v,
        v + date_time_text(year, month, day, hour, minute, second, point, fraction).len()
            < s.len() ==> is_space(
            s[v + date_time_text(year, month, day, hour, minute, second, point, fraction).len()],
        ),
    ensures
        ({
            let l = datetime_layout(s);
            &&& l.year_end == v + 4
            &&& l.month_end == l.year_end + 1 + month.len()
            &&& l.day_end == l.month_end + 1 + day.len()
            &&& l.hour_end == l.day_end + 1 + hour.len()
            &&& l.minute_end == l.hour_end + 1 + minute.len()
            &&& l.second_end == l.minute_end + 1 + second.len()
            &&& l.fraction_end == v + date_time_text(
                year,
                month,
                day,
                hour,
                minute,
                second,
                point,
                fraction,
            ).len()
            &&& l.fraction_end == l.second_end + (if point {
                1 + fraction.len()
            } else {
                0
            })
            &&& s[l.year_end] == '-' && s[l.month_end] == '-' && s[l.day_end] == 'T'
            &&& s[l.hour_end] == ':' && s[l.minute_end] == ':'
            &&& s.subrange(v, l.year_end) == year
            &&& s.subrange(l.year_end + 1, l.month_end) == month
            &&& s.subrange(l.month_end + 1, l.day_end) == day
            &&& s.subrange(l.day_end + 1, l.hour_end) == hour
            &&& s.subrange(l.hour_end + 1, l.minute_end) == minute
            &&& s.subrange(l.minute_end + 1, l.second_end) == second
            &&& point ==> s.subrange(l.second_end + 1, l.fraction_end) == fraction
        }),
{
    let t = date_time_text(year, month, day, hour, minute, second, point, fraction);
    let w = v + t.len();
    let a = year.len() as int;
    let b = a + 1 + month.len();
    let c = b + 1 + day.len();
    let d = c + 1 + hour.len();
    let e = d + 1 + minute.len();
    let f = e + 1 + second.len();
    lemma_date_time_parts(year, month, day, hour, minute, second, point, fraction);
    assert forall|i: int| 0 <= i < t.len() implies #[trigger] s[v + i] == t[i] by {
        assert(s.subrange(v, w)[i] == s[v + i]);
    }
    assert(s[v + a] == t[a] && s[v + b] == t[b] && s[v + c] == t[c] && s[v + d] == t[d] && s[v
        + e] == t[e]);
    assert(s.subrange(v, v + a) =~= t.subrange(0, a));
    lemma_field_run(s, v, year);
    assert(s.subrange(v + a + 1, v + b) =~= t.subrange(a + 1, b));
    lemma_field_run(s, v + a + 1, month);
    assert(s.subrange(v + b + 1, v + c) =~= t.subrange(b + 1, c));
    lemma_field_run(s, v + b + 1, day);
    assert(s.subrange(v + c + 1, v + d) =~= t.subrange(c + 1, d));
    lemma_field_run(s, v + c + 1, hour);
    assert(s.subrange(v + d + 1, v + e) =~= t.subrange(d + 1, e));
    lemma_field_run(s, v + d + 1, minute);
    assert(s.subrange(v + e + 1, v + f) =~= t.subrange(e + 1, f));
    if point {
        assert(s[v + f] == t[f]);
        lemma_field_run(s, v + e + 1, second);
        assert(s.subrange(v + f + 1, w) =~= t.subrange(f + 1, t.len() as int));
        lemma_field_run(s, v + f + 1, fraction);
    } else {
        lemma_field_run(s, v + e + 1, second);
    }
}

/// A line that has its equals sign, a keyword and, where its value begins,
/// a date and time followed by white space only, gives that date and time.
#[verifier::rlimit(40)]
proof fn lemma_date_time_read(
    s: Seq<char>,
    year: Seq<char>,
    month: Seq<char>,
    day: Seq<char>,
    hour: Seq<char>,
    minute: Seq<char>,
    second: Seq<char>,
    point: bool,
    fraction: Seq<char>,
)
    requires
        is_date_time(year, month, day, hour, minute, second, point, fraction),
        has_equals(s, CharClass::UpperKeyword),
        keyword_of(s, CharClass::UpperKeyword).len() > 0,
        !is_empty_value_line(s),
        0 <= value_start(s, CharClass::UpperKeyword),
        value_start(s, CharClass::UpperKeyword) + date_time_text(
            year,
            month,
            day,
            hour,
            minute,
            second,
            point,
            fraction,
        ).len() <= s.len(),
        s.subrange(
            value_start(s, CharClass::UpperKeyword),
            value_start(s, CharClass::UpperKeyword) + date_time_text(
                year,
                month,
                day,
                hour,
                minute,
                second,
                point,
                fraction,
            ).len(),
        ) == date_time_text(year, month, day, hour, minute, second, point, fraction),
        all_in(
            s.subrange(
                value_start(s, CharClass::UpperKeyword) + date_time_text(
                    year,
                    month,
                    day,
                    hour,
                    minute,
                    second,
                    point,
                    fraction,
                ).len(),
                s.len() as int,
            ),
            CharClass::Space,
        ),
    ensures
        datetime_line(s) == Ok::<KvnDateTimeText, KvnFault>(
            KvnDateTimeText {
                year: decimal_value(year),
                month: decimal_value(month),
                day: decimal_value(day),
                hour: decimal_value(hour),
                minute: decimal_value(minute),
                second: decimal_value(second),
                fraction,
                text: date_time_text(year, month, day, hour, minute, second, point, fraction),
            },
        ),
{
    let t = date_time_text(year, month, day, hour, minute, second, point, fraction);
    let v = value_start(s, CharClass::UpperKeyword);
    let w = v + t.len();
    if w < s.len() {
        assert(CharClass::Space.contains(s.subrange(w, s.len() as int)[0]));
    }
    lemma_date_time_layout(s, v, year, month, day, hour, minute, second, point, fraction);
    lemma_run_fills(s, w, s.len() as int, CharClass::Space);
    assert(datetime_line_matches(s));
    if !point {
        assert(fraction =~= Seq::<char>::empty());
    }
}

/// A line `KEY = YYYY-MM-DDThh:mm:ss.fraction` gives the date and time as
/// its digits spell it, whatever white space stands around its three
/// parts.
///
/// The keyword is one of digits, upper case letters and underscores. The
/// year has four digits, month, day, hour and minute one or two, the
/// seconds at most two; the point and the fraction may be missing.
#[verifier::rlimit(40)]
pub proof fn lemma_key_datetime_line(
    lead: Seq<char>,
    key: Seq<char>,
    gap: Seq<char>,
    pad: Seq<char>,
    year: Seq<char>,
    month: Seq<char>,
    day: Seq<char>,
    hour: Seq<char>,
    minute: Seq<char>,
    second: Seq<char>,
    point: bool,
    fraction: Seq<char>,
    trail: Seq<char>,
)
    requires
        all_in(lead, CharClass::Space),
        all_in(gap, CharClass::Space),
        all_in(pad, CharClass::Space),
        all_in(trail, CharClass::Space),
        key.len() > 0,
        all_in(key, CharClass::UpperKeyword),
        is_date_time(year, month, day, hour, minute, second, point, fraction),
    ensures
        datetime_line(
            key_value_line(
                lead,
                key,
                gap,
                pad,
                date_time_text(year, month, day, hour, minute, second, point, fraction),
                trail,
            ),
        ) == Ok::<KvnDateTimeText, KvnFault>(
            KvnDateTimeText {
                year: decimal_value(year),
                month: decimal_value(month),
                day: decimal_value(day),
                hour: decimal_value(hour),
                minute: decimal_value(minute),
                second: decimal_value(second),
                fraction,
                text: date_time_text(year, month, day, hour, minute, second, point, fraction),
            },
        ),
{
    let t = date_time_text(year, month, day, hour, minute, second, point, fraction);
    let line = key_value_line(lead, key, gap, pad, t, trail);
    let v = (lead.len() + key.len() + gap.len() + 1 + pad.len()) as int;
    let w = v + t.len();
    assert(t.len() >= 4 && t[0] == year[0]) by {
        lemma_date_time_parts(year, month, day, hour, minute, second, point, fraction);
        assert(t[0] == t.subrange(0, 4)[0]);
    }
    assert(CharClass::Digit.contains(year[0]));
    lemma_key_value_parts(lead, key, gap, pad, t, trail);
    assert forall|i: int| 0 <= i < key.len() implies CharClass::Keyword.contains(
        #[trigger] key[i],
    ) by {
        assert(CharClass::UpperKeyword.contains(key[i]));
    }
    lemma_key_value_head(lead, key, gap, pad, t, trail, CharClass::UpperKeyword);
    lemma_key_value_head(lead, key, gap, pad, t, trail, CharClass::Keyword);
    assert(line[v] == t[0]);
    assert(!is_empty_value_line(line));
    assert(line.subrange(v, w) =~= t);
    assert(line.subrange(w, line.len() as int) =~= trail);
    assert(keyword_of(line, CharClass::UpperKeyword).len() == key.len());
    lemma_date_time_read(line, year, month, day, hour, minute, second, point, fraction);
}

/// Where a number stands in its line: a decimal number that begins where
/// the value begins and is followed by white space, by an opening bracket
/// or by nothing is the number of the line, from its first character to
/// its last.
proof fn lemma_number_span(s: Seq<char>, end: int, float: bool)
    requires
        0 <= value_start(s, CharClass::Keyword) < end <= s.len(),
        is_decimal_literal(s.subrange(value_start(s, CharClass::Keyword), end), float),
        end < s.len() ==> is_space(s[end]) || s[end] == '[',
    ensures
        digits_start(s) < digits_end(s) <= end,
        number_end(s, float) == end,
        has_sign(s, value_start(s, CharClass::Keyword)) == has_sign(
            s.subrange(value_start(s, CharClass::Keyword), end),
            0,
        ),
        digits_end(s) - value_start(s, CharClass::Keyword) == run_end(
            s.subrange(value_start(s, CharClass::Keyword), end),
            digits_start(s) - value_start(s, CharClass::Keyword),
            CharClass::Digit,
        ),
{
    let v = value_start(s, CharClass::Keyword);
    let t = s.subrange(v, end);
    let a: int = if has_sign(t, 0) {
        1
    } else {
        0
    };
    let b = run_end(t, a, CharClass::Digit);
    assert(t[0] == s[v]);
    lemma_run_end(t, a, CharClass::Digit);
    lemma_digits_in_part(s, v, end, v + a);
    let c = if b < t.len() && t[b] == '.' {
        run_end(t, b + 1, CharClass::Digit)
    } else {
        b
    };
    if b < t.len() {
        assert(t[b] == s[v + b]);
        if t[b] == '.' {
            lemma_run_end(t, b + 1, CharClass::Digit);
            lemma_digits_in_part(s, v, end, v + b + 1);
        }
    }
    assert(fraction_end(s) == v + c);
    if float && c < t.len() {
        assert(t[c] == s[v + c]);
        if c + 1 < t.len() {
            assert(t[c + 1] == s[v + c + 1]);
        }
        let g = if has_sign(t, c + 1) {
            c + 2
        } else {
            c + 1
        };
        if g <= t.len() {
            lemma_run_end(t, g, CharClass::Digit);
            lemma_digits_in_part(s, v, end, v + g);
        }
    }
}

/// A run of digits within a part of `s` behind which no digit follows is
/// the run of digits in `s`.
proof fn lemma_digits_in_part(s: Seq<char>, low: int, high: int, from: int)
    requires
        0 <= low <= from <= high <= s.len(),
        high < s.len() ==> !is_digit(s[high]),
    ensures
        run_end(s, from, CharClass::Digit) == low + run_end(
            s.subrange(low, high),
            from - low,
            CharClass::Digit,
        ),
{
    lemma_run_end_subrange(s, low, high, from, CharClass::Digit);
    lemma_run_end(s, from, CharClass::Digit);
    if run_end(s, from, CharClass::Digit) > high {
        assert(CharClass::Digit.contains(s[high]));
    }
}

/// A line `key = number` gives the number as it is spelled, whatever white
/// space stands around its three parts, with units or without.
///
/// The keyword is one of digits, letters and underscores, the number a
/// decimal number, with an exponent only where `float` allows one.
pub proof fn lemma_key_number_line(
    lead: Seq<char>,
    key: Seq<char>,
    gap: Seq<char>,
    pad: Seq<char>,
    value: Seq<char>,
    trail: Seq<char>,
    with_unit: bool,
    float: bool,
)
    requires
        all_in(lead, CharClass::Space),
        all_in(gap, CharClass::Space),
        all_in(pad, CharClass::Space),
        all_in(trail, CharClass::Space),
        key.len() > 0,
        all_in(key, CharClass::Keyword),
        is_decimal_literal(value, float),
    ensures
        number_line(key_value_line(lead, key, gap, pad, value, trail), with_unit, float) matches Ok(
            n,
        ) && n.text == value && n.unit is None,
{
    let line = key_value_line(lead, key, gap, pad, value, trail);
    let v = (lead.len() + key.len() + gap.len() + 1 + pad.len()) as int;
    let w = v + value.len();
    let n = line.len() as int;
    lemma_run_end(value, 0, CharClass::Digit);
    lemma_run_end(value, 1, CharClass::Digit);
    assert(value.len() > 0);
    assert(!is_space(value[0]) && value[0] != '[');
    lemma_key_value_parts(lead, key, gap, pad, value, trail);
    lemma_key_value_head(lead, key, gap, pad, value, trail, CharClass::Keyword);
    assert(line.subrange(v, w) =~= value);
    assert(line[v] == value[0]);
    assert forall|i: int| w <= i < n implies CharClass::Space.contains(#[trigger] line[i]) by {
        assert(CharClass::Space.contains(trail[i - w]));
    }
    if w < n {
        assert(CharClass::Space.contains(line[w]));
    }
    lemma_number_span(line, w, float);
    lemma_run_end_is(line, w, CharClass::Space, n);
    assert(keyword_of(line, CharClass::Keyword).len() == key.len());
}

/// A line `key = number [unit]` gives the number and the unit where units
/// are read, and is a format fault where they are not.
///
/// The keyword is one of digits, letters and underscores, the number a
/// decimal number, with an exponent only where `float` allows one, and the
/// unit is made of digits, letters, `/`, `_` and `*`. White space may stand
/// around every part but within the brackets.
#[verifier::rlimit(40)]
pub proof fn lemma_key_number_unit_line(
    lead: Seq<char>,
    key: Seq<char>,
    gap: Seq<char>,
    pad: Seq<char>,
    value: Seq<char>,
    space: Seq<char>,
    unit: Seq<char>,
    trail: Seq<char>,
    float: bool,
)
    requires
        all_in(lead, CharClass::Space),
        all_in(gap, CharClass::Space),
        all_in(pad, CharClass::Space),
        all_in(space, CharClass::Space),
        all_in(trail, CharClass::Space),
        key.len() > 0,
        all_in(key, CharClass::Keyword),
        is_decimal_literal(value, float),
        all_in(unit, CharClass::Unit),
    ensures
        ({
            let rest = space + seq!['['] + unit + seq![']'] + trail;
            let line = key_value_line(lead, key, gap, pad, value, rest);
            &&& number_line(line, true, float) matches Ok(n) && n.text == value && n.unit == Some(
                unit,
            )
            &&& number_line(line, false, float) == Err::<crate::grammar::KvnNumeral, KvnFault>(
                KvnFault::InvalidFormat,
            )
        }),
{
    let rest = space + seq!['['] + unit + seq![']'] + trail;
    let line = key_value_line(lead, key, gap, pad, value, rest);
    let v = (lead.len() + key.len() + gap.len() + 1 + pad.len()) as int;
    let w = v + value.len();
    let open = w + space.len();
    let close = open + 1 + unit.len();
    let n = line.len() as int;
    lemma_run_end(value, 0, CharClass::Digit);
    lemma_run_end(value, 1, CharClass::Digit);
    assert(!is_space(value[0]) && value[0] != '[');
    lemma_key_value_parts(lead, key, gap, pad, value, rest);
    lemma_key_value_head(lead, key, gap, pad, value, rest, CharClass::Keyword);
    assert(line.subrange(v, w) =~= value);
    assert(line[v] == value[0]);
    assert forall|i: int| w <= i < open implies CharClass::Space.contains(#[trigger] line[i]) by {
        assert(line[i] == rest[i - w]);
        assert(CharClass::Space.contains(space[i - w]));
    }
    assert(line[open] == rest[open - w]);
    assert(line[open] == '[');
    assert forall|i: int| open + 1 <= i < close implies CharClass::Unit.contains(
        #[trigger] line[i],
    ) by {
        assert(line[i] == rest[i - w]);
        assert(CharClass::Unit.contains(unit[i - open - 1]));
    }
    assert(line[close] == rest[close - w]);
    assert(line[close] == ']');
    assert forall|i: int| close + 1 <= i < n implies CharClass::Space.contains(
        #[trigger] line[i],
    ) by {
        assert(line[i] == rest[i - w]);
        assert(CharClass::Space.contains(trail[i - close - 1]));
    }
    lemma_number_span(line, w, float);
    lemma_run_end_is(line, w, CharClass::Space, open);
    lemma_run_end_is(line, open + 1, CharClass::Unit, close);
    lemma_run_end_is(line, close + 1, CharClass::Space, n);
    assert(keyword_of(line, CharClass::Keyword).len() == key.len());
    assert(unit_of(line, w) =~= unit);
    assert(!is_empty_value_line(line));
}

/// A unit in brackets is read only with units: a line that gives a number
/// and a unit with them is a format fault without them, and a line that
/// gives a number and no unit with them reads the same without them.
pub proof fn lemma_unit_needs_units(s: Seq<char>, float: bool)
    requires
        number_line(s, true, float) is Ok,
    ensures
        number_line(s, true, float)->Ok_0.unit is Some ==> number_line(s, false, float) == Err::<
            crate::grammar::KvnNumeral,
            KvnFault,
        >(KvnFault::InvalidFormat),
        number_line(s, true, float)->Ok_0.unit is None ==> number_line(s, false, float)
            == number_line(s, true, float),
{
}

/// A schema whose first field must be there, held against lines whose
/// first is no comment and has another keyword, fails on the spot: the
/// first keyword of the field was not found, and no line was taken.
pub proof fn lemma_first_keyword_mismatch(schema: Seq<KvnFieldView>, lines: Seq<Seq<char>>)
    requires
        schema.len() > 0,
        schema[0].required,
        lines.len() > 0,
        !is_comment_line(lines[0]),
        !field_accepts(schema[0], lines[0]),
    ensures
        walk(schema, lines, 0, 0) == fail(
            KvnDeserializerErr::KeywordNotFound { expected: schema[0].keywords[0] },
            0,
        ),
{
}

/// Whether the line at `i` is the line of the field at `i`: no comment, of
/// a keyword of the field, and read by the field without a fault.
pub open spec fn line_fills(schema: Seq<KvnFieldView>, lines: Seq<Seq<char>>, i: int) -> bool {
    &&& 0 <= i < schema.len()
    &&& i < lines.len()
    &&& !is_comment_line(lines[i])
    &&& field_accepts(schema[i], lines[i])
    &&& lex_field(schema[i], lines[i]) is Ok
}

/// The values that the fields from `index` on read from their lines.
pub open spec fn values_read(
    schema: Seq<KvnFieldView>,
    lines: Seq<Seq<char>>,
    index: int,
) -> Seq<KvnFieldValueView> {
    Seq::new(
        (schema.len() - index) as nat,
        |k: int| lex_field(schema[index + k], lines[index + k])->Ok_0,
    )
}

/// Lines that stand in the order of the fields, one line for each field,
/// fill the record: the walk gives what each field reads from its line,
/// finds no comment and ends behind the line of the last field.
pub proof fn lemma_walk_matching_lines(
    schema: Seq<KvnFieldView>,
    lines: Seq<Seq<char>>,
    index: int,
)
    requires
        0 <= index <= schema.len(),
        forall|i: int| index <= i < schema.len() ==> line_fills(schema, lines, i),
    ensures
        walk(schema, lines, index, index) == (KvnWalk {
            result: Ok(
                KvnRecordView {
                    values: values_read(schema, lines, index),
                    comments: Seq::empty(),
                },
            ),
            position: schema.len() as int,
        }),
    decreases schema.len() - index,
{
    if index < schema.len() {
        assert(line_fills(schema, lines, index));
        lemma_walk_matching_lines(schema, lines, index + 1);
        let value = lex_field(schema[index], lines[index])->Ok_0;
        assert(seq![value] + values_read(schema, lines, index + 1) =~= values_read(
            schema,
            lines,
            index,
        ));
        assert(Seq::<Seq<char>>::empty() + Seq::<Seq<char>>::empty() =~= Seq::<
            Seq<char>,
        >::empty());
    } else {
        assert(values_read(schema, lines, index) =~= Seq::<KvnFieldValueView>::empty());
    }
}

/// A walk moves forward only and never leaves the lines.
pub proof fn lemma_walk_forward(
    schema: Seq<KvnFieldView>,
    lines: Seq<Seq<char>>,
    index: int,
    position: int,
)
    requires
        0 <= index,
        0 <= position <= lines.len(),
    ensures
        position <= walk(schema, lines, index, position).position <= lines.len(),
    decreases schema.len() - index, lines.len() - position,
{
    if index < schema.len() {
        if position < lines.len() && is_comment_line(lines[position]) {
            lemma_walk_forward(schema, lines, index, position + 1);
        } else if position < lines.len() && field_accepts(schema[index], lines[position]) {
            lemma_walk_forward(schema, lines, index + 1, position + 1);
        } else if !schema[index].required {
            lemma_walk_forward(schema, lines, index + 1, position);
        }
    }
}

/// A walk that succeeds has filled the record: it gives one value for each
/// field that was left to walk.
pub proof fn lemma_walk_fills_record(
    schema: Seq<KvnFieldView>,
    lines: Seq<Seq<char>>,
    index: int,
    position: int,
)
    requires
        0 <= index <= schema.len(),
        0 <= position,
    ensures
        walk(schema, lines, index, position).result matches Ok(record) ==> record.values.len()
            == schema.len() - index,
    decreases schema.len() - index, lines.len() - position,
{
    if index < schema.len() {
        if position < lines.len() && is_comment_line(lines[position]) {
            lemma_walk_fills_record(schema, lines, index, position + 1);
        } else if position < lines.len() && field_accepts(schema[index], lines[position]) {
            lemma_walk_fills_record(schema, lines, index + 1, position + 1);
        } else if !schema[index].required {
            lemma_walk_fills_record(schema, lines, index + 1, position);
        }
    }
}

} // verus!
