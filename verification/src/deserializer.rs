//! The walk of a schema over the lines of a message, and its one error.
//!
//! A walk goes through the fields of a schema in order, with a cursor over
//! the lines that moves forward only and looks one line ahead. A comment
//! line is taken and kept wherever it stands. Any other line is held
//! against the field that is due: if its keyword is one of the field's, the
//! line is taken and read by the lexer of the field's kind; if not, a field
//! that need not be there keeps its default and the same line is held
//! against the next field, while a field that must be there ends the walk.
//! The first fault ends the walk: no record is given in part.

use vstd::prelude::*;
use vstd::std_specs::convert::FromSpecImpl;
use crate::grammar::{
    KvnFault,
    comment_text,
    datetime_line,
    integer_line,
    is_comment_line,
    keyword_of,
    number_line,
    string_line,
};
use crate::parser::{
    KvnDateTimeParserErr,
    KvnKeywordNotFoundErr,
    KvnNumberParserErr,
    KvnStringParserErr,
    is_comment,
    kvn_line_matches_key_new,
    parse_kvn_datetime_line_new,
    parse_kvn_integer_line_new,
    parse_kvn_numeric_line_new,
    parse_kvn_string_line_new,
    unit_view,
};
use crate::schema::{
    KvnFieldSchema,
    KvnFieldValue,
    KvnFieldValueView,
    KvnFieldView,
    KvnKind,
    KvnRecord,
    KvnRecordView,
    KvnScalar,
    KvnScalarView,
    KvnShape,
    schema_view,
};
use crate::text::CharClass;

verus! {

/// Why a record could not be read from its lines. Every variant carries the
/// text at fault: the line, or the keyword that was expected.
#[derive(Debug, PartialEq)]
pub enum KvnDeserializerErr<I> {
    EmptyKeyword { input: I },
    EmptyValue { input: I },
    InvalidStringFormat { input: I },
    /// A line that reads neither as a number nor as a date and time: the
    /// two kinds share this variant.
    InvalidDateTimeFormat { input: I },
    KeywordNotFound { expected: I },
}

impl View for KvnDeserializerErr<String> {
    type V = KvnDeserializerErr<Seq<char>>;

    open spec fn view(&self) -> KvnDeserializerErr<Seq<char>> {
        match *self {
            KvnDeserializerErr::EmptyKeyword { input } => KvnDeserializerErr::EmptyKeyword {
                input: input@,
            },
            KvnDeserializerErr::EmptyValue { input } => KvnDeserializerErr::EmptyValue {
                input: input@,
            },
            KvnDeserializerErr::InvalidStringFormat {
                input,
            } => KvnDeserializerErr::InvalidStringFormat { input: input@ },
            KvnDeserializerErr::InvalidDateTimeFormat {
                input,
            } => KvnDeserializerErr::InvalidDateTimeFormat { input: input@ },
            KvnDeserializerErr::KeywordNotFound { expected } => KvnDeserializerErr::KeywordNotFound {
                expected: expected@,
            },
        }
    }
}

/// The shared error for a fault that a lexer found in the line `input`.
/// A format fault keeps the mark of the string lexer; those of the number
/// lexers and of the date-time lexer become one.
pub open spec fn normal_error(fault: KvnFault, input: Seq<char>, text: bool) -> KvnDeserializerErr<
    Seq<char>,
> {
    match fault {
        KvnFault::EmptyKeyword => KvnDeserializerErr::EmptyKeyword { input },
        KvnFault::EmptyValue => KvnDeserializerErr::EmptyValue { input },
        KvnFault::InvalidFormat => if text {
            KvnDeserializerErr::InvalidStringFormat { input }
        } else {
            KvnDeserializerErr::InvalidDateTimeFormat { input }
        },
    }
}

impl<'a> KvnStringParserErr<&'a str> {
    /// The fault that the error reports.
    pub open spec fn fault(self) -> KvnFault {
        match self {
            KvnStringParserErr::EmptyKeyword { .. } => KvnFault::EmptyKeyword,
            KvnStringParserErr::EmptyValue { .. } => KvnFault::EmptyValue,
            KvnStringParserErr::InvalidFormat { .. } => KvnFault::InvalidFormat,
        }
    }

    /// The line that the error hands back.
    pub open spec fn input(self) -> &'a str {
        match self {
            KvnStringParserErr::EmptyKeyword { input } => input,
            KvnStringParserErr::EmptyValue { input } => input,
            KvnStringParserErr::InvalidFormat { input } => input,
        }
    }
}

impl<'a> KvnNumberParserErr<&'a str> {
    /// The fault that the error reports.
    pub open spec fn fault(self) -> KvnFault {
        match self {
            KvnNumberParserErr::EmptyKeyword { .. } => KvnFault::EmptyKeyword,
            KvnNumberParserErr::EmptyValue { .. } => KvnFault::EmptyValue,
            KvnNumberParserErr::InvalidFormat { .. } => KvnFault::InvalidFormat,
        }
    }

    /// The line that the error hands back.
    pub open spec fn input(self) -> &'a str {
        match self {
            KvnNumberParserErr::EmptyKeyword { input } => input,
            KvnNumberParserErr::EmptyValue { input } => input,
            KvnNumberParserErr::InvalidFormat { input } => input,
        }
    }
}

impl<'a> KvnDateTimeParserErr<&'a str> {
    /// The fault that the error reports.
    pub open spec fn fault(self) -> KvnFault {
        match self {
            KvnDateTimeParserErr::EmptyKeyword { .. } => KvnFault::EmptyKeyword,
            KvnDateTimeParserErr::EmptyValue { .. } => KvnFault::EmptyValue,
            KvnDateTimeParserErr::InvalidFormat { .. } => KvnFault::InvalidFormat,
        }
    }

    /// The line that the error hands back.
    pub open spec fn input(self) -> &'a str {
        match self {
            KvnDateTimeParserErr::EmptyKeyword { input } => input,
            KvnDateTimeParserErr::EmptyValue { input } => input,
            KvnDateTimeParserErr::InvalidFormat { input } => input,
        }
    }
}

impl<'a> FromSpecImpl<KvnStringParserErr<&'a str>> for KvnDeserializerErr<String> {
    /// A string is known by its characters alone, so the result is stated
    /// on `from` itself, by its view.
    open spec fn obeys_from_spec() -> bool {
        false
    }

    open spec fn from_spec(value: KvnStringParserErr<&'a str>) -> Self {
        choose|r: Self| #[trigger] r.view() == normal_error(value.fault(), value.input()@, true)
    }
}

impl<'a> From<KvnStringParserErr<&'a str>> for KvnDeserializerErr<String> {
    /// The shared form of an error of the string lexer, with a copy of the
    /// line.
    fn from(value: KvnStringParserErr<&'a str>) -> (r: Self)
        ensures
            r@ == normal_error(value.fault(), value.input()@, true),
    {
        match value {
            KvnStringParserErr::EmptyValue { input } => KvnDeserializerErr::EmptyValue {
                input: input.to_owned(),
            },
            KvnStringParserErr::EmptyKeyword { input } => KvnDeserializerErr::EmptyKeyword {
                input: input.to_owned(),
            },
            KvnStringParserErr::InvalidFormat { input } => {
                KvnDeserializerErr::InvalidStringFormat { input: input.to_owned() }
            },
        }
    }
}

impl<'a> FromSpecImpl<KvnDateTimeParserErr<&'a str>> for KvnDeserializerErr<String> {
    /// A string is known by its characters alone, so the result is stated
    /// on `from` itself, by its view.
    open spec fn obeys_from_spec() -> bool {
        false
    }

    open spec fn from_spec(value: KvnDateTimeParserErr<&'a str>) -> Self {
        choose|r: Self| #[trigger] r.view() == normal_error(value.fault(), value.input()@, false)
    }
}

impl<'a> From<KvnDateTimeParserErr<&'a str>> for KvnDeserializerErr<String> {
    /// The shared form of an error of the date-time lexer, with a copy of
    /// the line.
    fn from(value: KvnDateTimeParserErr<&'a str>) -> (r: Self)
        ensures
            r@ == normal_error(value.fault(), value.input()@, false),
    {
        match value {
            KvnDateTimeParserErr::EmptyValue { input } => KvnDeserializerErr::EmptyValue {
                input: input.to_owned(),
            },
            KvnDateTimeParserErr::EmptyKeyword { input } => KvnDeserializerErr::EmptyKeyword {
                input: input.to_owned(),
            },
            KvnDateTimeParserErr::InvalidFormat { input } => {
                KvnDeserializerErr::InvalidDateTimeFormat { input: input.to_owned() }
            },
        }
    }
}

impl<'a> FromSpecImpl<KvnNumberParserErr<&'a str>> for KvnDeserializerErr<String> {
    /// A string is known by its characters alone, so the result is stated
    /// on `from` itself, by its view.
    open spec fn obeys_from_spec() -> bool {
        false
    }

    open spec fn from_spec(value: KvnNumberParserErr<&'a str>) -> Self {
        choose|r: Self| #[trigger] r.view() == normal_error(value.fault(), value.input()@, false)
    }
}

impl<'a> From<KvnNumberParserErr<&'a str>> for KvnDeserializerErr<String> {
    /// The shared form of an error of a number lexer, with a copy of the
    /// line. A format fault takes the variant of the date-time lexer.
    fn from(value: KvnNumberParserErr<&'a str>) -> (r: Self)
        ensures
            r@ == normal_error(value.fault(), value.input()@, false),
    {
        match value {
            KvnNumberParserErr::EmptyValue { input } => KvnDeserializerErr::EmptyValue {
                input: input.to_owned(),
            },
            KvnNumberParserErr::EmptyKeyword { input } => KvnDeserializerErr::EmptyKeyword {
                input: input.to_owned(),
            },
            KvnNumberParserErr::InvalidFormat { input } => {
                KvnDeserializerErr::InvalidDateTimeFormat { input: input.to_owned() }
            },
        }
    }
}

impl<'a> FromSpecImpl<KvnKeywordNotFoundErr<&'a str>> for KvnDeserializerErr<String> {
    /// A string is known by its characters alone, so the result is stated
    /// on `from` itself, by its view.
    open spec fn obeys_from_spec() -> bool {
        false
    }

    open spec fn from_spec(value: KvnKeywordNotFoundErr<&'a str>) -> Self {
        choose|r: Self| #[trigger] r.view() == (KvnDeserializerErr::KeywordNotFound { expected: value.expected@ })
    }
}

impl<'a> From<KvnKeywordNotFoundErr<&'a str>> for KvnDeserializerErr<String> {
    /// The shared form of a missing keyword, with a copy of the keyword.
    fn from(value: KvnKeywordNotFoundErr<&'a str>) -> (r: Self)
        ensures
            r@ == (KvnDeserializerErr::KeywordNotFound { expected: value.expected@ }),
    {
        KvnDeserializerErr::KeywordNotFound { expected: value.expected.to_owned() }
    }
}

/// The characters of each of some lines.
pub open spec fn line_texts(lines: Seq<&str>) -> Seq<Seq<char>> {
    lines.map_values(|l: &str| l@)
}

/// A cursor over the lines of a message. It moves forward only and lets
/// the next line be looked at without taking it.
pub struct KvnCursor<'a> {
    lines: Vec<&'a str>,
    position: usize,
}

impl<'a> KvnCursor<'a> {
    #[verifier::type_invariant]
    spec fn in_range(&self) -> bool {
        self.position <= self.lines.len()
    }

    /// The lines of the message, taken or not.
    pub closed spec fn lines(&self) -> Seq<Seq<char>> {
        line_texts(self.lines@)
    }

    /// The number of lines taken so far.
    pub closed spec fn position(&self) -> int {
        self.position as int
    }

    /// A cursor before the first of `lines`.
    pub fn new(lines: Vec<&'a str>) -> (c: Self)
        ensures
            c.lines() == line_texts(lines@),
            c.position() == 0,
    {
        KvnCursor { lines, position: 0 }
    }

    /// The next line, which stays where it is; `None` at the end.
    pub fn peek(&self) -> (r: Option<&'a str>)
        ensures
            0 <= self.position() <= self.lines().len(),
            match r {
                Some(line) => self.position() < self.lines().len() && line@ == self.lines()[self.position()],
                None => self.position() == self.lines().len(),
            },
    {
        proof {
            use_type_invariant(self);
        }
        if self.position < self.lines.len() {
            Some(self.lines[self.position])
        } else {
            None
        }
    }

    /// Takes the next line; `None` at the end, where the cursor stays.
    pub fn next(&mut self) -> (r: Option<&'a str>)
        ensures
            final(self).lines() == old(self).lines(),
            0 <= old(self).position() <= old(self).lines().len(),
            match r {
                Some(line) => {
                    &&& old(self).position() < old(self).lines().len()
                    &&& line@ == old(self).lines()[old(self).position()]
                    &&& final(self).position() == old(self).position() + 1
                },
                None => {
                    &&& old(self).position() == old(self).lines().len()
                    &&& final(self).position() == old(self).position()
                },
            },
    {
        proof {
            use_type_invariant(&*self);
        }
        if self.position < self.lines.len() {
            let line = self.lines[self.position];
            self.position = self.position + 1;
            Some(line)
        } else {
            None
        }
    }

    /// The number of lines taken so far.
    pub fn consumed(&self) -> (r: usize)
        ensures
            r == self.position(),
            r <= self.lines().len(),
    {
        proof {
            use_type_invariant(self);
        }
        self.position
    }
}

/// What the lexer of `kind` makes of a line: the value and the unit, or the
/// shared error.
pub open spec fn lex_scalar(kind: KvnKind, with_unit: bool, line: Seq<char>) -> Result<
    (KvnScalarView, Option<Seq<char>>),
    KvnDeserializerErr<Seq<char>>,
> {
    match kind {
        KvnKind::String => match string_line(line) {
            Ok(text) => Ok((KvnScalarView::String(text), None)),
            Err(fault) => Err(normal_error(fault, line, true)),
        },
        KvnKind::Integer => match integer_line(line, with_unit, i64::MIN as int, i64::MAX as int) {
            Ok(n) => Ok((KvnScalarView::Integer(n.0), n.1)),
            Err(fault) => Err(normal_error(fault, line, false)),
        },
        KvnKind::Unsigned => match integer_line(line, with_unit, 0, u64::MAX as int) {
            Ok(n) => Ok((KvnScalarView::Unsigned(n.0), n.1)),
            Err(fault) => Err(normal_error(fault, line, false)),
        },
        KvnKind::Float => match number_line(line, with_unit, true) {
            Ok(n) => Ok((KvnScalarView::Float(n.text), n.unit)),
            Err(fault) => Err(normal_error(fault, line, false)),
        },
        KvnKind::DateTime => match datetime_line(line) {
            Ok(t) => Ok((KvnScalarView::DateTime(t), None)),
            Err(fault) => Err(normal_error(fault, line, false)),
        },
    }
}

/// What a field makes of its line: a scalar field keeps the value, a
/// composite field keeps value and unit.
pub open spec fn lex_field(field: KvnFieldView, line: Seq<char>) -> Result<
    KvnFieldValueView,
    KvnDeserializerErr<Seq<char>>,
> {
    match lex_scalar(field.kind, field.with_unit, line) {
        Err(e) => Err(e),
        Ok(read) => Ok(
            if field.composite {
                KvnFieldValueView::Composite { value: read.0, unit: read.1 }
            } else {
                KvnFieldValueView::Scalar(read.0)
            },
        ),
    }
}

/// Whether the keyword of the line is one of the field's.
pub open spec fn field_accepts(field: KvnFieldView, line: Seq<char>) -> bool {
    field.keywords.contains(keyword_of(line, CharClass::UpperKeyword))
}

/// How a walk ends: with a record or with the first fault, and at a
/// position in the lines.
pub struct KvnWalk {
    pub result: Result<KvnRecordView, KvnDeserializerErr<Seq<char>>>,
    /// The number of lines taken.
    pub position: int,
}

/// The walk `w` with `values` and `comments` put before what it gives.
pub open spec fn extend(
    values: Seq<KvnFieldValueView>,
    comments: Seq<Seq<char>>,
    w: KvnWalk,
) -> KvnWalk {
    KvnWalk {
        result: match w.result {
            Ok(record) => Ok(
                KvnRecordView {
                    values: values + record.values,
                    comments: comments + record.comments,
                },
            ),
            Err(e) => Err(e),
        },
        position: w.position,
    }
}

/// The walk that ends at once with the fault `e`.
pub open spec fn fail(e: KvnDeserializerErr<Seq<char>>, position: int) -> KvnWalk {
    KvnWalk { result: Err(e), position }
}

/// The walk of the fields of `schema` from `index` on over `lines` from
/// `position` on.
///
/// With no field left the walk ends and takes no further line. A comment
/// line is taken and its text kept. Any other line is held against the
/// field that is due. A line that the field accepts is taken and read; a
/// fault in it ends the walk behind that line. Where the lines have run
/// out, or the line is not the field's, a field that must be there ends
/// the walk with its first keyword as the one expected, and any other
/// field keeps its default, the line staying for the next field.
pub open spec fn walk(
    schema: Seq<KvnFieldView>,
    lines: Seq<Seq<char>>,
    index: int,
    position: int,
) -> KvnWalk
    decreases schema.len() - index, lines.len() - position,
{
    if index < 0 || index >= schema.len() || position < 0 {
        KvnWalk {
            result: Ok(KvnRecordView { values: Seq::empty(), comments: Seq::empty() }),
            position,
        }
    } else if position < lines.len() && is_comment_line(lines[position]) {
        extend(
            Seq::empty(),
            seq![comment_text(lines[position])],
            walk(schema, lines, index, position + 1),
        )
    } else if position < lines.len() && field_accepts(schema[index], lines[position]) {
        match lex_field(schema[index], lines[position]) {
            Err(e) => fail(e, position + 1),
            Ok(value) => extend(
                seq![value],
                Seq::empty(),
                walk(schema, lines, index + 1, position + 1),
            ),
        }
    } else if schema[index].required {
        fail(KvnDeserializerErr::KeywordNotFound { expected: schema[index].keywords[0] }, position)
    } else {
        extend(
            seq![KvnFieldValueView::Default],
            Seq::empty(),
            walk(schema, lines, index + 1, position),
        )
    }
}

/// Putting two prefixes before a walk, one after the other, is putting
/// their concatenation before it.
pub proof fn lemma_extend_twice(
    values: Seq<KvnFieldValueView>,
    comments: Seq<Seq<char>>,
    more_values: Seq<KvnFieldValueView>,
    more_comments: Seq<Seq<char>>,
    w: KvnWalk,
)
    ensures
        extend(values, comments, extend(more_values, more_comments, w)) == extend(
            values + more_values,
            comments + more_comments,
            w,
        ),
{
    match w.result {
        Ok(record) => {
            assert(values + (more_values + record.values) =~= (values + more_values)
                + record.values);
            assert(comments + (more_comments + record.comments) =~= (comments + more_comments)
                + record.comments);
        },
        Err(_) => {},
    }
}

/// Tests whether the keyword of the line is one of the field's.
pub fn accepts(field: &KvnFieldSchema, line: &str) -> (r: bool)
    ensures
        r == field_accepts(field@, line@),
{
    let ghost k = keyword_of(line@, CharClass::UpperKeyword);
    let first = match kvn_line_matches_key_new(field.keyword.as_str(), line) {
        Ok(b) => b,
        Err(_) => false,
    };
    if first {
        assert(field@.keywords[0] == k);
        return true;
    }
    let mut i: usize = 0;
    while i < field.aliases.len()
        invariant
            i <= field.aliases.len(),
            k == keyword_of(line@, CharClass::UpperKeyword),
            field.keyword@ != k,
            forall|j: int| 0 <= j < i ==> field.aliases@[j]@ != k,
        decreases field.aliases.len() - i,
    {
        let found = match kvn_line_matches_key_new(field.aliases[i].as_str(), line) {
            Ok(b) => b,
            Err(_) => false,
        };
        if found {
            assert(field@.keywords[i + 1] == k);
            return true;
        }
        i += 1;
    }
    assert(!field@.keywords.contains(k)) by {
        if field@.keywords.contains(k) {
            let j = choose|j: int| 0 <= j < field@.keywords.len() && field@.keywords[j] == k;
            if j > 0 {
                assert(field@.keywords[j] == field.aliases@[j - 1]@);
            }
        }
    }
    false
}

/// Whether the result `r` is, by its views, the result `s`.
pub open spec fn same_result<T: View, E: View>(r: Result<T, E>, s: Result<T::V, E::V>) -> bool {
    match s {
        Ok(v) => r matches Ok(x) && x@ == v,
        Err(e) => r matches Err(x) && x@ == e,
    }
}

/// Reads a line with the lexer of `kind`, and gives value and unit or the
/// shared error.
pub fn read_scalar(kind: KvnKind, with_unit: bool, line: &str) -> (r: Result<
    (KvnScalar, Option<String>),
    KvnDeserializerErr<String>,
>)
    ensures
        match lex_scalar(kind, with_unit, line@) {
            Ok(read) => r matches Ok(x) && x.0@ == read.0 && unit_view(x.1) == read.1,
            Err(e) => r matches Err(x) && x@ == e,
        },
{
    match kind {
        KvnKind::String => match parse_kvn_string_line_new(line) {
            Ok(v) => Ok((KvnScalar::String(v.value), v.unit)),
            Err(e) => Err(KvnDeserializerErr::from(e)),
        },
        KvnKind::Integer => match parse_kvn_integer_line_new::<i64>(line, with_unit) {
            Ok(v) => Ok((KvnScalar::Integer(v.value), v.unit)),
            Err(e) => Err(KvnDeserializerErr::from(e)),
        },
        KvnKind::Unsigned => match parse_kvn_integer_line_new::<u64>(line, with_unit) {
            Ok(v) => Ok((KvnScalar::Unsigned(v.value), v.unit)),
            Err(e) => Err(KvnDeserializerErr::from(e)),
        },
        KvnKind::Float => match parse_kvn_numeric_line_new(line, with_unit) {
            Ok(v) => Ok((KvnScalar::Float(v.value), v.unit)),
            Err(e) => Err(KvnDeserializerErr::from(e)),
        },
        KvnKind::DateTime => match parse_kvn_datetime_line_new(line) {
            Ok(v) => Ok((KvnScalar::DateTime(v), None)),
            Err(e) => Err(KvnDeserializerErr::from(e)),
        },
    }
}

/// Reads the line of a field: a scalar field keeps the value, a composite
/// field keeps value and unit.
pub fn read_field(field: &KvnFieldSchema, line: &str) -> (r: Result<
    KvnFieldValue,
    KvnDeserializerErr<String>,
>)
    ensures
        same_result(r, lex_field(field@, line@)),
{
    match &field.shape {
        KvnShape::Scalar { with_unit } => match read_scalar(field.kind, *with_unit, line) {
            Ok(read) => Ok(KvnFieldValue::Scalar(read.0)),
            Err(e) => Err(e),
        },
        KvnShape::Composite { .. } => match read_scalar(field.kind, true, line) {
            Ok(read) => Ok(KvnFieldValue::Composite { value: read.0, unit: read.1 }),
            Err(e) => Err(e),
        },
    }
}

/// Fills a record of the shape `schema` from the lines under the cursor.
///
/// The cursor ends behind the last line taken: behind the line of the last
/// field that had one, or behind the line in which a fault was found, or
/// before the line that was not the one expected.
pub fn deserialize(schema: &Vec<KvnFieldSchema>, lines: &mut KvnCursor) -> (r: Result<
    KvnRecord,
    KvnDeserializerErr<String>,
>)
    ensures
        final(lines).lines() == old(lines).lines(),
        final(lines).position() == walk(
            schema_view(schema@),
            old(lines).lines(),
            0,
            old(lines).position(),
        ).position,
        same_result(
            r,
            walk(schema_view(schema@), old(lines).lines(), 0, old(lines).position()).result,
        ),
{
    let ghost all = lines.lines();
    let ghost fields = schema_view(schema@);
    let ghost whole = walk(fields, all, 0, lines.position());
    let mut record = KvnRecord { values: Vec::new(), comments: Vec::new() };
    let mut index: usize = 0;
    let start = lines.consumed();
    assert(record@.values =~= Seq::empty());
    assert(record@.comments =~= Seq::empty());
    proof {
        let w = walk(fields, all, 0, lines.position());
        match w.result {
            Ok(rec) => {
                assert(Seq::<KvnFieldValueView>::empty() + rec.values =~= rec.values);
                assert(Seq::<Seq<char>>::empty() + rec.comments =~= rec.comments);
            },
            Err(_) => {},
        }
    }
    while index < schema.len()
        invariant
            index <= schema.len(),
            fields == schema_view(schema@),
            all == old(lines).lines(),
            whole == walk(fields, all, 0, old(lines).position()),
            lines.lines() == all,
            0 <= lines.position() <= all.len(),
            whole == extend(
                record@.values,
                record@.comments,
                walk(fields, all, index as int, lines.position()),
            ),
        decreases schema.len() - index, all.len() - lines.position(),
    {
        let field = &schema[index];
        let ghost here = lines.position();
        let ghost before = record@;
        assert(fields[index as int] == field@);
        match lines.peek() {
            Some(line) => {
                if is_comment(line) {
                    let taken = lines.next();
                    match parse_kvn_string_line_new(line) {
                        Ok(v) => {
                            record.comments.push(v.value);
                        },
                        Err(e) => {
                            return Err(KvnDeserializerErr::from(e));
                        },
                    }
                    proof {
                        assert(record@.comments =~= before.comments + seq![comment_text(line@)]);
                        assert(record@.values =~= before.values + Seq::empty());
                        lemma_extend_twice(
                            before.values,
                            before.comments,
                            Seq::empty(),
                            seq![comment_text(line@)],
                            walk(fields, all, index as int, here + 1),
                        );
                    }
                } else if accepts(field, line) {
                    let taken = lines.next();
                    match read_field(field, line) {
                        Ok(value) => {
                            record.values.push(value);
                            index += 1;
                            proof {
                                let v = lex_field(field@, line@)->Ok_0;
                                assert(record@.values =~= before.values + seq![v]);
                                assert(record@.comments =~= before.comments + Seq::empty());
                                lemma_extend_twice(
                                    before.values,
                                    before.comments,
                                    seq![v],
                                    Seq::empty(),
                                    walk(fields, all, index as int, here + 1),
                                );
                            }
                        },
                        Err(e) => {
                            return Err(e);
                        },
                    }
                } else if field.required {
                    return Err(
                        KvnDeserializerErr::KeywordNotFound { expected: field.keyword.clone() },
                    );
                } else {
                    record.values.push(KvnFieldValue::Default);
                    index += 1;
                    proof {
                        assert(record@.values =~= before.values + seq![KvnFieldValueView::Default]);
                        assert(record@.comments =~= before.comments + Seq::empty());
                        lemma_extend_twice(
                            before.values,
                            before.comments,
                            seq![KvnFieldValueView::Default],
                            Seq::empty(),
                            walk(fields, all, index as int, here),
                        );
                    }
                }
            },
            None => {
                if field.required {
                    return Err(
                        KvnDeserializerErr::KeywordNotFound { expected: field.keyword.clone() },
                    );
                }
                record.values.push(KvnFieldValue::Default);
                index += 1;
                proof {
                    assert(record@.values =~= before.values + seq![KvnFieldValueView::Default]);
                    assert(record@.comments =~= before.comments + Seq::empty());
                    lemma_extend_twice(
                        before.values,
                        before.comments,
                        seq![KvnFieldValueView::Default],
                        Seq::empty(),
                        walk(fields, all, index as int, here),
                    );
                }
            },
        }
    }
    proof {
        assert(record@.values + Seq::empty() =~= record@.values);
        assert(record@.comments + Seq::empty() =~= record@.comments);
    }
    Ok(record)
}

} // verus!
