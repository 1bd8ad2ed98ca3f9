//! The scanners that read a line as the grammars lay it out.
//!
//! Each scanner works on the characters of a line and gives positions in
//! it; its contract says which positions of the grammar these are.

use vstd::prelude::*;
use crate::grammar::{
    KvnFault,
    KvnNumeral,
    comment_word,
    field_matches,
    has_equals,
    has_sign,
    has_unit,
    is_comment_line,
    is_empty_value_line,
    is_unit_remnant,
    keyword_end,
    keyword_start,
    number_line,
    tail_matches,
    unit_end,
    unit_start,
    value_start,
};
use crate::text::{CharClass, is_digit, lemma_run_end, run_end, scan_run, starts_at};

verus! {

/// The start of a line as a lexer found it.
pub(crate) struct KvnHead {
    /// Where the keyword begins.
    pub keyword_start: usize,
    /// Where the keyword ends.
    pub keyword_end: usize,
    /// Whether the equals sign stands behind the keyword.
    pub found: bool,
    /// Where the value begins, if the equals sign was found.
    pub value_start: usize,
}

/// Reads the start of a line: white space, a keyword of `class`, white
/// space, the equals sign, white space.
pub(crate) fn scan_head(s: &Vec<char>, class: CharClass) -> (h: KvnHead)
    ensures
        h.keyword_start == keyword_start(s@),
        h.keyword_end == keyword_end(s@, class),
        h.found == has_equals(s@, class),
        h.found ==> h.value_start == value_start(s@, class),
        h.keyword_start <= h.keyword_end <= s.len(),
        h.found ==> h.keyword_end < h.value_start <= s.len(),
{
    let a = scan_run(s, 0, CharClass::Space);
    let b = scan_run(s, a, class);
    let c = scan_run(s, b, CharClass::Space);
    if c < s.len() && s[c] == '=' {
        let d = scan_run(s, c + 1, CharClass::Space);
        KvnHead { keyword_start: a, keyword_end: b, found: true, value_start: d }
    } else {
        KvnHead { keyword_start: a, keyword_end: b, found: false, value_start: c }
    }
}

/// Tests whether the line is a comment.
pub(crate) fn comment_in(s: &Vec<char>) -> (r: bool)
    ensures
        r == is_comment_line(s@),
{
    let start = scan_run(s, 0, CharClass::Space);
    let word = vec!['C', 'O', 'M', 'M', 'E', 'N', 'T', ' '];
    assert(word@ =~= comment_word());
    starts_at(s, start, &word)
}

/// Tests whether everything from `from` on is the remnant of a unit.
pub(crate) fn unit_remnant_at(s: &Vec<char>, from: usize) -> (r: bool)
    requires
        from <= s.len(),
    ensures
        r == is_unit_remnant(s@, from as int),
{
    if from < s.len() && s[from] == '[' {
        let close = scan_run(s, from + 1, CharClass::Unit);
        close == s.len() || (s[close] == ']' && close + 1 == s.len())
    } else {
        false
    }
}

/// Tests whether the line has a keyword part and an equals sign but no
/// value.
pub(crate) fn empty_value_in(s: &Vec<char>) -> (r: bool)
    ensures
        r == is_empty_value_line(s@),
{
    let h = scan_head(s, CharClass::Keyword);
    h.found && (h.value_start == s.len() || unit_remnant_at(s, h.value_start))
}

/// The tail of a line behind its value, as a lexer found it.
pub(crate) struct KvnTail {
    /// Whether the line ends properly.
    pub matches: bool,
    /// Whether a unit stands there.
    pub has_unit: bool,
    /// Where the unit begins.
    pub unit_start: usize,
    /// Where the unit ends.
    pub unit_end: usize,
}

/// Reads the tail of a line behind a value that ends at `from`.
pub(crate) fn scan_tail(s: &Vec<char>, from: usize, with_unit: bool) -> (t: KvnTail)
    requires
        from <= s.len(),
    ensures
        t.matches == tail_matches(s@, from as int, with_unit),
        t.has_unit == (with_unit && has_unit(s@, from as int)),
        t.has_unit ==> t.unit_start == unit_start(s@, from as int) && t.unit_end == unit_end(
            s@,
            from as int,
        ) && t.unit_start <= t.unit_end <= s.len(),
{
    let open = scan_run(s, from, CharClass::Space);
    if with_unit && open < s.len() && s[open] == '[' {
        let e = scan_run(s, open + 1, CharClass::Unit);
        let close = if e < s.len() && s[e] == ']' {
            e + 1
        } else {
            e
        };
        let end = scan_run(s, close, CharClass::Space);
        KvnTail { matches: end == s.len(), has_unit: true, unit_start: open + 1, unit_end: e }
    } else {
        KvnTail { matches: open == s.len(), has_unit: false, unit_start: open, unit_end: open }
    }
}

/// A number in a line, as a lexer found it.
pub(crate) struct KvnNumberSpan {
    /// Whether a minus sign stands before the digits.
    pub negative: bool,
    /// Where the number begins, sign included.
    pub start: usize,
    /// Where the integer digits begin.
    pub digits_start: usize,
    /// Where the integer digits end.
    pub digits_end: usize,
    /// Where the number ends.
    pub end: usize,
    /// The tail of the line behind the number.
    pub tail: KvnTail,
}

impl KvnNumberSpan {
    /// Whether the span marks in `s` the number `n`.
    pub(crate) open spec fn marks(&self, s: Seq<char>, n: KvnNumeral) -> bool {
        &&& self.start <= self.digits_start <= self.digits_end <= self.end <= s.len()
        &&& self.negative == n.negative
        &&& s.subrange(self.digits_start as int, self.digits_end as int) == n.digits
        &&& s.subrange(self.start as int, self.end as int) == n.text
        &&& forall|i: int| self.digits_start <= i < self.digits_end ==> is_digit(#[trigger] s[i])
        &&& match n.unit {
            Some(u) => {
                &&& self.tail.has_unit
                &&& self.tail.unit_start <= self.tail.unit_end <= s.len()
                &&& s.subrange(self.tail.unit_start as int, self.tail.unit_end as int) == u
            },
            None => !self.tail.has_unit,
        }
    }
}

/// Tests whether a plus or minus sign stands at `at`.
pub(crate) fn sign_at(s: &Vec<char>, at: usize) -> (r: bool)
    ensures
        r == has_sign(s@, at as int),
{
    at < s.len() && (s[at] == '+' || s[at] == '-')
}

/// Reads a line as `keyword = number`.
pub(crate) fn scan_number(s: &Vec<char>, with_unit: bool, float: bool) -> (r: Result<
    KvnNumberSpan,
    KvnFault,
>)
    ensures
        match number_line(s@, with_unit, float) {
            Ok(n) => r matches Ok(span) && span.marks(s@, n),
            Err(fault) => r matches Err(f) && f == fault,
        },
{
    if empty_value_in(s) {
        return Err(KvnFault::EmptyValue);
    }
    let h = scan_head(s, CharClass::Keyword);
    if !h.found {
        return Err(KvnFault::InvalidFormat);
    }
    let v = h.value_start;
    let ds = if sign_at(s, v) {
        v + 1
    } else {
        v
    };
    let de = scan_run(s, ds, CharClass::Digit);
    if de == ds {
        return Err(KvnFault::InvalidFormat);
    }
    let fe = if de < s.len() && s[de] == '.' {
        scan_run(s, de + 1, CharClass::Digit)
    } else {
        de
    };
    let mut end = fe;
    if float && fe < s.len() && (s[fe] == 'e' || s[fe] == 'E') {
        let g = if sign_at(s, fe + 1) {
            fe + 2
        } else {
            fe + 1
        };
        let x = scan_run(s, g, CharClass::Digit);
        if x > g {
            end = x;
        }
    }
    let tail = scan_tail(s, end, with_unit);
    if !tail.matches {
        return Err(KvnFault::InvalidFormat);
    }
    if h.keyword_end == h.keyword_start {
        return Err(KvnFault::EmptyKeyword);
    }
    proof {
        lemma_run_end(s@, ds as int, CharClass::Digit);
    }
    Ok(KvnNumberSpan { negative: s[v] == '-', start: v, digits_start: ds, digits_end: de, end, tail })
}

/// Reads a field of `low` to `high` digits that begins at `start` and is
/// followed by `mark`; gives the position of the mark.
pub(crate) fn scan_field(s: &Vec<char>, start: usize, low: usize, high: usize, mark: char) -> (r: Option<
    usize,
>)
    requires
        start <= s.len(),
    ensures
        match r {
            Some(end) => end == run_end(s@, start as int, CharClass::Digit) && start <= end
                < s.len(),
            None => true,
        },
        r is Some <==> field_matches(
            s@,
            start as int,
            run_end(s@, start as int, CharClass::Digit),
            low as int,
            high as int,
            mark,
        ),
{
    let end = scan_run(s, start, CharClass::Digit);
    if low <= end - start && end - start <= high && end < s.len() && s[end] == mark {
        Some(end)
    } else {
        None
    }
}

} // verus!
