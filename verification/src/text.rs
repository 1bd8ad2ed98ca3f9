//! Character classes of Keyword Value Notation and runs of characters.
//!
//! A line is viewed as a sequence of characters. Every grammar of this crate
//! is built from one notion: the run of characters of one class that starts
//! at a given position, and the position at which that run ends.

use vstd::prelude::*;

verus! {

/// The classes of characters that the line grammars tell apart.
#[derive(Clone, Copy, Debug)]
pub enum CharClass {
    /// White space, as Unicode defines the property.
    Space,
    /// The ten decimal digits `0` to `9`.
    Digit,
    /// Digits, upper case letters `A` to `Z` and the underscore.
    UpperKeyword,
    /// Digits, letters of either case and the underscore.
    Keyword,
    /// What may stand between the brackets of a unit: digits, letters of
    /// either case, `/`, `_` and `*`.
    Unit,
    /// Every character but the line feed.
    Inline,
}

/// White space: the code points with the Unicode property `White_Space`.
pub open spec fn is_space(c: char) -> bool {
    ||| ('\u{9}' <= c && c <= '\u{D}')
    ||| c == ' '
    ||| c == '\u{85}'
    ||| c == '\u{A0}'
    ||| c == '\u{1680}'
    ||| ('\u{2000}' <= c && c <= '\u{200A}')
    ||| c == '\u{2028}'
    ||| c == '\u{2029}'
    ||| c == '\u{202F}'
    ||| c == '\u{205F}'
    ||| c == '\u{3000}'
}

/// A decimal digit `0` to `9`.
pub open spec fn is_digit(c: char) -> bool {
    '0' <= c && c <= '9'
}

/// An upper case letter `A` to `Z`.
pub open spec fn is_upper(c: char) -> bool {
    'A' <= c && c <= 'Z'
}

/// A lower case letter `a` to `z`.
pub open spec fn is_lower(c: char) -> bool {
    'a' <= c && c <= 'z'
}

impl CharClass {
    /// Whether `c` belongs to the class.
    pub open spec fn contains(self, c: char) -> bool {
        match self {
            CharClass::Space => is_space(c),
            CharClass::Digit => is_digit(c),
            CharClass::UpperKeyword => is_digit(c) || is_upper(c) || c == '_',
            CharClass::Keyword => is_digit(c) || is_upper(c) || is_lower(c) || c == '_',
            CharClass::Unit => is_digit(c) || is_upper(c) || is_lower(c) || c == '/' || c == '_'
                || c == '*',
            CharClass::Inline => c != '\n',
        }
    }

    /// Tests whether `c` belongs to the class.
    pub fn has(self, c: char) -> (r: bool)
        ensures
            r == self.contains(c),
    {
        let digit = c >= '0' && c <= '9';
        let upper = c >= 'A' && c <= 'Z';
        let lower = c >= 'a' && c <= 'z';
        match self {
            CharClass::Space => {
                (c >= '\u{9}' && c <= '\u{D}') || c == ' ' || c == '\u{85}' || c == '\u{A0}' || c
                    == '\u{1680}' || (c >= '\u{2000}' && c <= '\u{200A}') || c == '\u{2028}' || c
                    == '\u{2029}' || c == '\u{202F}' || c == '\u{205F}' || c == '\u{3000}'
            },
            CharClass::Digit => digit,
            CharClass::UpperKeyword => digit || upper || c == '_',
            CharClass::Keyword => digit || upper || lower || c == '_',
            CharClass::Unit => digit || upper || lower || c == '/' || c == '_' || c == '*',
            CharClass::Inline => c != '\n',
        }
    }
}

/// Whether every character of `s` belongs to `class`.
pub open spec fn all_in(s: Seq<char>, class: CharClass) -> bool {
    forall|i: int| 0 <= i < s.len() ==> class.contains(#[trigger] s[i])
}

/// The position at which the run of `class` characters that starts at
/// `from` ends: the first position at or after `from` that holds no
/// character of the class, or the length of `s` where there is none.
pub open spec fn run_end(s: Seq<char>, from: int, class: CharClass) -> int
    decreases s.len() - from,
{
    if 0 <= from < s.len() && class.contains(s[from]) {
        run_end(s, from + 1, class)
    } else {
        from
    }
}

/// The position at which the run of white space that ends just before `to`
/// begins, looking no further back than `from`.
pub open spec fn run_start(s: Seq<char>, from: int, to: int) -> int
    decreases to - from,
{
    if from < to <= s.len() && is_space(s[to - 1]) {
        run_start(s, from, to - 1)
    } else {
        to
    }
}

/// `s` without the white space at its end.
pub open spec fn trim_end(s: Seq<char>) -> Seq<char> {
    s.subrange(0, run_start(s, 0, s.len() as int))
}

/// `s` without the white space at its start.
pub open spec fn trim_start(s: Seq<char>) -> Seq<char> {
    s.subrange(run_end(s, 0, CharClass::Space), s.len() as int)
}

/// What `run_end` is: it lies between `from` and the end, everything before
/// it belongs to the class and the character at it, if any, does not.
pub proof fn lemma_run_end(s: Seq<char>, from: int, class: CharClass)
    requires
        0 <= from <= s.len(),
    ensures
        from <= run_end(s, from, class) <= s.len(),
        forall|i: int| from <= i < run_end(s, from, class) ==> class.contains(#[trigger] s[i]),
        run_end(s, from, class) < s.len() ==> !class.contains(s[run_end(s, from, class)]),
    decreases s.len() - from,
{
    if from < s.len() && class.contains(s[from]) {
        lemma_run_end(s, from + 1, class);
    }
}

/// A position with the three properties of `lemma_run_end` is the run's end.
pub proof fn lemma_run_end_is(s: Seq<char>, from: int, class: CharClass, end: int)
    requires
        0 <= from <= end <= s.len(),
        forall|i: int| from <= i < end ==> class.contains(#[trigger] s[i]),
        end < s.len() ==> !class.contains(s[end]),
    ensures
        run_end(s, from, class) == end,
    decreases end - from,
{
    if from < end {
        lemma_run_end_is(s, from + 1, class, end);
    }
}

/// A part of `s` that holds characters of `class` only and is followed by
/// a character of another class, or by nothing, is a run of the class, from
/// wherever in it one starts.
pub proof fn lemma_run_fills(s: Seq<char>, from: int, to: int, class: CharClass)
    requires
        0 <= from <= to <= s.len(),
        all_in(s.subrange(from, to), class),
        to < s.len() ==> !class.contains(s[to]),
    ensures
        run_end(s, from, class) == to,
{
    assert forall|i: int| from <= i < to implies class.contains(#[trigger] s[i]) by {
        assert(class.contains(s.subrange(from, to)[i - from]));
    }
    lemma_run_end_is(s, from, class, to);
}

/// A run within a part of `s` ends where the run in `s` ends, or at the end
/// of the part where the run in `s` goes on beyond it.
pub proof fn lemma_run_end_subrange(s: Seq<char>, low: int, high: int, from: int, class: CharClass)
    requires
        0 <= low <= from <= high <= s.len(),
    ensures
        run_end(s.subrange(low, high), from - low, class) == (if run_end(s, from, class) < high {
            run_end(s, from, class)
        } else {
            high
        }) - low,
    decreases high - from,
{
    let part = s.subrange(low, high);
    lemma_run_end(s, from, class);
    if from < high {
        assert(part[from - low] == s[from]);
        if class.contains(s[from]) {
            lemma_run_end_subrange(s, low, high, from + 1, class);
        }
    }
}

/// What `run_start` is: it lies between `from` and `to`, everything from it
/// up to `to` is white space and the character before it, if one lies at or
/// after `from`, is not.
pub proof fn lemma_run_start(s: Seq<char>, from: int, to: int)
    requires
        0 <= from <= to <= s.len(),
    ensures
        from <= run_start(s, from, to) <= to,
        forall|i: int| run_start(s, from, to) <= i < to ==> is_space(#[trigger] s[i]),
        from < run_start(s, from, to) ==> !is_space(s[run_start(s, from, to) - 1]),
    decreases to - from,
{
    if from < to && is_space(s[to - 1]) {
        lemma_run_start(s, from, to - 1);
    }
}

/// A position with the three properties of `lemma_run_start` is the run's
/// start.
pub proof fn lemma_run_start_is(s: Seq<char>, from: int, to: int, start: int)
    requires
        0 <= from <= start <= to <= s.len(),
        forall|i: int| start <= i < to ==> is_space(#[trigger] s[i]),
        from < start ==> !is_space(s[start - 1]),
    ensures
        run_start(s, from, to) == start,
    decreases to - start,
{
    if start < to {
        lemma_run_start_is(s, from, to - 1, start);
    }
}

/// The characters of `s`, one by one.
pub(crate) fn chars_of(s: &str) -> (v: Vec<char>)
    ensures
        v@ == s@,
{
    let mut v: Vec<char> = Vec::new();
    for c in it: s.chars()
        invariant
            v@ == it.seq().take(it.index() as int),
    {
        v.push(c);
    }
    v
}

/// Finds the end of the run of `class` characters that starts at `from`.
pub(crate) fn scan_run(s: &Vec<char>, from: usize, class: CharClass) -> (end: usize)
    requires
        from <= s.len(),
    ensures
        end == run_end(s@, from as int, class),
        from <= end <= s.len(),
{
    let mut i: usize = from;
    while i < s.len() && class.has(s[i])
        invariant
            from <= i <= s.len(),
            run_end(s@, from as int, class) == run_end(s@, i as int, class),
        decreases s.len() - i,
    {
        i += 1;
    }
    i
}

/// Finds the start of the run of white space that ends just before `to`,
/// looking no further back than `from`.
pub(crate) fn scan_back(s: &Vec<char>, from: usize, to: usize) -> (start: usize)
    requires
        from <= to <= s.len(),
    ensures
        start == run_start(s@, from as int, to as int),
        from <= start <= to,
{
    let mut i: usize = to;
    while i > from && CharClass::Space.has(s[i - 1])
        invariant
            from <= i <= to <= s.len(),
            run_start(s@, from as int, to as int) == run_start(s@, from as int, i as int),
        decreases i - from,
    {
        i -= 1;
    }
    i
}

/// Whether `s` holds the characters of `word` from position `at` on.
pub open spec fn has_at(s: Seq<char>, at: int, word: Seq<char>) -> bool {
    &&& 0 <= at
    &&& at + word.len() <= s.len()
    &&& s.subrange(at, at + word.len()) == word
}

/// Tests whether `s` holds the characters of `word` from position `at` on.
pub(crate) fn starts_at(s: &Vec<char>, at: usize, word: &Vec<char>) -> (r: bool)
    requires
        at <= s.len(),
    ensures
        r == has_at(s@, at as int, word@),
{
    if word.len() > s.len() - at {
        return false;
    }
    let mut i: usize = 0;
    while i < word.len()
        invariant
            at + word.len() <= s.len(),
            i <= word.len(),
            s@.subrange(at as int, at + i) == word@.take(i as int),
        decreases word.len() - i,
    {
        if s[at + i] != word[i] {
            assert(s@.subrange(at as int, at + word.len())[i as int] != word@[i as int]);
            return false;
        }
        assert(s@.subrange(at as int, at + i + 1) =~= s@.subrange(at as int, at + i).push(
            s@[at + i],
        ));
        assert(word@.take(i + 1) =~= word@.take(i as int).push(word@[i as int]));
        i += 1;
    }
    assert(word@.take(word.len() as int) =~= word@);
    true
}

/// A copy of the characters of `s` from `from` up to `to`.
pub(crate) fn copy_range(s: &str, from: usize, to: usize) -> (r: String)
    requires
        from <= to <= s@.len(),
    ensures
        r@ == s@.subrange(from as int, to as int),
{
    s.substring_char(from, to).to_owned()
}

} // verus!
