//! The shape of a record, declared once, and the record that a walk fills.
//!
//! A schema is an ordered list of fields. Each field names the keyword that
//! its line begins with, the kind of value that the line holds, whether the
//! line must be there, and whether value and unit make up a composite of
//! two attributes.

use vstd::prelude::*;
use crate::grammar::KvnDateTimeText;
use crate::parser::{KvnDateTimeValue, unit_view};

verus! {

/// The kinds of value, one for each lexer.
#[derive(Clone, Copy, Debug, PartialEq, Eq, Structural)]
pub enum KvnKind {
    /// A text value.
    String,
    /// An integer of 64 bits with sign.
    Integer,
    /// An integer of 64 bits without sign.
    Unsigned,
    /// A decimal number, kept as it is spelled.
    Float,
    /// A date and time.
    DateTime,
}

/// How the line of a field is laid out.
#[derive(Debug, PartialEq)]
pub enum KvnShape {
    /// A value alone. With `with_unit` a unit in brackets may follow the
    /// value; it is read and left aside.
    Scalar { with_unit: bool },
    /// A value and an optional unit on one line: a sub-record of two
    /// attributes, whose names these are.
    Composite { value: String, unit: String },
}

impl KvnShape {
    /// Whether the lexer of the field runs with units.
    pub open spec fn with_unit(&self) -> bool {
        match *self {
            KvnShape::Scalar { with_unit } => with_unit,
            KvnShape::Composite { .. } => true,
        }
    }

    /// Whether the field is a composite of value and unit.
    pub open spec fn composite(&self) -> bool {
        self is Composite
    }
}

/// One field of a record.
#[derive(Debug, PartialEq)]
pub struct KvnFieldSchema {
    /// The name of the field in the record.
    pub name: String,
    /// The keyword that the line of the field begins with.
    pub keyword: String,
    /// Other keywords under which the field is accepted.
    pub aliases: Vec<String>,
    /// The kind of value that the line holds.
    pub kind: KvnKind,
    /// How the line is laid out.
    pub shape: KvnShape,
    /// Whether the line must be there. A field that need not be there keeps
    /// its default where its line is missing.
    pub required: bool,
}

impl KvnFieldSchema {
    /// A field that must be there, holds a value alone and takes no unit.
    pub fn new(name: &str, keyword: &str, kind: KvnKind) -> (f: Self)
        ensures
            f.name@ == name@,
            f.keyword@ == keyword@,
            f.aliases@.len() == 0,
            f.kind == kind,
            f.shape == (KvnShape::Scalar { with_unit: false }),
            f.required,
    {
        KvnFieldSchema {
            name: name.to_owned(),
            keyword: keyword.to_owned(),
            aliases: Vec::new(),
            kind,
            shape: KvnShape::Scalar { with_unit: false },
            required: true,
        }
    }

    /// The same field, which need not be there.
    pub fn optional(self) -> (f: Self)
        ensures
            f == (KvnFieldSchema { required: false, ..self }),
    {
        KvnFieldSchema { required: false, ..self }
    }

    /// The same field, holding a value alone behind which a unit may stand.
    pub fn with_unit(self) -> (f: Self)
        ensures
            f == (KvnFieldSchema { shape: KvnShape::Scalar { with_unit: true }, ..self }),
    {
        KvnFieldSchema { shape: KvnShape::Scalar { with_unit: true }, ..self }
    }

    /// The same field as a composite of value and unit, with the names of
    /// the two attributes.
    pub fn composite(self, value: &str, unit: &str) -> (f: Self)
        ensures
            f.shape matches KvnShape::Composite { value: v, unit: u } && v@ == value@ && u@
                == unit@,
            f == (KvnFieldSchema { shape: f.shape, ..self }),
    {
        KvnFieldSchema {
            shape: KvnShape::Composite { value: value.to_owned(), unit: unit.to_owned() },
            ..self
        }
    }

    /// The same field, accepted under one more keyword.
    pub fn alias(self, keyword: &str) -> (f: Self)
        ensures
            texts(f.aliases@) == texts(self.aliases@).push(keyword@),
            f == (KvnFieldSchema { aliases: f.aliases, ..self }),
    {
        let mut aliases = self.aliases;
        aliases.push(keyword.to_owned());
        assert(texts(aliases@) =~= texts(self.aliases@).push(keyword@));
        KvnFieldSchema {
            name: self.name,
            keyword: self.keyword,
            aliases,
            kind: self.kind,
            shape: self.shape,
            required: self.required,
        }
    }
}

/// What a walk needs to know of a field.
pub struct KvnFieldView {
    /// The keywords of the field, the first being the one that is reported
    /// where the field is missing.
    pub keywords: Seq<Seq<char>>,
    pub kind: KvnKind,
    pub with_unit: bool,
    pub composite: bool,
    pub required: bool,
}

/// The characters of each of some strings.
pub open spec fn texts(strings: Seq<String>) -> Seq<Seq<char>> {
    strings.map_values(|s: String| s@)
}

impl View for KvnFieldSchema {
    type V = KvnFieldView;

    open spec fn view(&self) -> KvnFieldView {
        KvnFieldView {
            keywords: seq![self.keyword@] + texts(self.aliases@),
            kind: self.kind,
            with_unit: self.shape.with_unit(),
            composite: self.shape.composite(),
            required: self.required,
        }
    }
}

/// What a walk needs to know of each field of a schema.
pub open spec fn schema_view(schema: Seq<KvnFieldSchema>) -> Seq<KvnFieldView> {
    schema.map_values(|f: KvnFieldSchema| f@)
}

/// A value of one of the kinds.
#[derive(Debug, PartialEq)]
pub enum KvnScalar {
    String(String),
    Integer(i64),
    Unsigned(u64),
    /// The number as the line spells it.
    Float(String),
    DateTime(KvnDateTimeValue),
}

/// A value of one of the kinds, as characters and numbers.
pub enum KvnScalarView {
    String(Seq<char>),
    Integer(int),
    Unsigned(int),
    Float(Seq<char>),
    DateTime(KvnDateTimeText),
}

impl View for KvnScalar {
    type V = KvnScalarView;

    open spec fn view(&self) -> KvnScalarView {
        match *self {
            KvnScalar::String(s) => KvnScalarView::String(s@),
            KvnScalar::Integer(i) => KvnScalarView::Integer(i as int),
            KvnScalar::Unsigned(u) => KvnScalarView::Unsigned(u as int),
            KvnScalar::Float(s) => KvnScalarView::Float(s@),
            KvnScalar::DateTime(d) => KvnScalarView::DateTime(d@),
        }
    }
}

/// What a walk has put into one field of a record.
#[derive(Debug, PartialEq)]
pub enum KvnFieldValue {
    /// Nothing: the field need not be there and its line was missing.
    Default,
    /// The value of a scalar field.
    Scalar(KvnScalar),
    /// Value and unit of a composite field.
    Composite { value: KvnScalar, unit: Option<String> },
}

/// What a walk has put into one field, as characters and numbers.
pub enum KvnFieldValueView {
    Default,
    Scalar(KvnScalarView),
    Composite { value: KvnScalarView, unit: Option<Seq<char>> },
}

impl View for KvnFieldValue {
    type V = KvnFieldValueView;

    open spec fn view(&self) -> KvnFieldValueView {
        match *self {
            KvnFieldValue::Default => KvnFieldValueView::Default,
            KvnFieldValue::Scalar(s) => KvnFieldValueView::Scalar(s@),
            KvnFieldValue::Composite { value, unit } => KvnFieldValueView::Composite {
                value: value@,
                unit: unit_view(unit),
            },
        }
    }
}

/// A record as a walk has filled it: one value for each field of the
/// schema, in the order of the schema, and the comments met on the way.
#[derive(Debug, PartialEq)]
pub struct KvnRecord {
    pub values: Vec<KvnFieldValue>,
    pub comments: Vec<String>,
}

/// Whether `i` is the place of the first of `schema` that has the name
/// `name`.
pub open spec fn first_named(schema: Seq<KvnFieldSchema>, name: Seq<char>, i: int) -> bool {
    &&& 0 <= i < schema.len()
    &&& schema[i].name@ == name
    &&& forall|j: int| 0 <= j < i ==> schema[j].name@ != name
}

impl KvnRecord {
    /// The value of the field that `schema` names `name`: that of the first
    /// such field, or `None` where the schema has none or the record is too
    /// short to have its value.
    pub fn get(&self, schema: &Vec<KvnFieldSchema>, name: &str) -> (r: Option<&KvnFieldValue>)
        ensures
            match r {
                Some(value) => exists|i: int|
                    first_named(schema@, name@, i) && i < self.values.len() && *value
                        == self.values[i],
                None => forall|i: int|
                    first_named(schema@, name@, i) ==> i >= self.values.len(),
            },
    {
        let wanted = name.to_owned();
        let mut i: usize = 0;
        while i < schema.len()
            invariant
                i <= schema.len(),
                wanted@ == name@,
                forall|j: int| 0 <= j < i ==> schema[j].name@ != name@,
            decreases schema.len() - i,
        {
            if schema[i].name == wanted {
                assert(first_named(schema@, name@, i as int));
                if i < self.values.len() {
                    return Some(&self.values[i]);
                } else {
                    assert forall|k: int| first_named(schema@, name@, k) implies k
                        >= self.values.len() by {
                        if k < i {
                            assert(schema[k].name@ != name@);
                        }
                    }
                    return None;
                }
            }
            i += 1;
        }
        None
    }
}

/// A record as characters and numbers.
pub struct KvnRecordView {
    pub values: Seq<KvnFieldValueView>,
    pub comments: Seq<Seq<char>>,
}

impl View for KvnRecord {
    type V = KvnRecordView;

    open spec fn view(&self) -> KvnRecordView {
        KvnRecordView {
            values: self.values@.map_values(|v: KvnFieldValue| v@),
            comments: texts(self.comments@),
        }
    }
}

} // verus!
