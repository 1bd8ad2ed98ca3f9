use lox_kvn::deserializer::{deserialize, KvnCursor, KvnDeserializerErr};
use lox_kvn::parser::{
    KvnDateTimeParserErr, KvnKeywordNotFoundErr, KvnNumberParserErr, KvnStringParserErr,
};
use lox_kvn::schema::{
    KvnFieldSchema, KvnFieldValue, KvnKind, KvnRecord, KvnScalar, KvnShape,
};

#[derive(Default, Debug, PartialEq)]
pub struct PositionUnits(pub std::string::String);

#[derive(Default, Debug, PartialEq)]
pub struct DistanceType {
    pub base: f64,
    pub units: Option<PositionUnits>,
}

#[derive(Default, Debug, PartialEq)]
struct AsdType {
    pub version: String,
    pub semi_major_axis: DistanceType,
    pub asdfg: f64,
}

fn field(name: &str, keyword: &str, kind: KvnKind, shape: KvnShape, required: bool) -> KvnFieldSchema {
    KvnFieldSchema {
        name: name.to_string(),
        keyword: keyword.to_string(),
        aliases: Vec::new(),
        kind,
        shape,
        required,
    }
}

fn value_and_unit() -> KvnShape {
    KvnShape::Composite {
        value: "base".to_string(),
        unit: "units".to_string(),
    }
}

fn asd_schema() -> Vec<KvnFieldSchema> {
    vec![
        field(
            "version",
            "CCSDS_ASD_VERS",
            KvnKind::String,
            KvnShape::Scalar { with_unit: false },
            true,
        ),
        field(
            "semi_major_axis",
            "SEMI_MAJOR_AXIS",
            KvnKind::Float,
            value_and_unit(),
            true,
        ),
        field(
            "asdfg",
            "ASDFG",
            KvnKind::Float,
            KvnShape::Scalar { with_unit: true },
            true,
        ),
    ]
}

fn float_of(value: &KvnFieldValue) -> f64 {
    match value {
        KvnFieldValue::Scalar(KvnScalar::Float(text)) => fast_float::parse(text).unwrap(),
        KvnFieldValue::Composite {
            value: KvnScalar::Float(text),
            ..
        } => fast_float::parse(text).unwrap(),
        other => panic!("no float: {:?}", other),
    }
}

fn asd_of(record: KvnRecord) -> AsdType {
    let version = match &record.values[0] {
        KvnFieldValue::Scalar(KvnScalar::String(text)) => text.clone(),
        other => panic!("no text: {:?}", other),
    };
    let units = match &record.values[1] {
        KvnFieldValue::Composite { unit, .. } => unit.clone().map(PositionUnits),
        other => panic!("no composite: {:?}", other),
    };
    AsdType {
        version,
        semi_major_axis: DistanceType {
            base: float_of(&record.values[1]),
            units,
        },
        asdfg: float_of(&record.values[2]),
    }
}

#[test]
fn test_parse_with_unit_struct() {
    let kvn = r#"CCSDS_ASD_VERS = 3.0
        SEMI_MAJOR_AXIS = 41399.5123 [km]
        ASDFG = 12333.5123"#;

    let mut lines = KvnCursor::new(kvn.lines().collect());
    assert_eq!(
        deserialize(&asd_schema(), &mut lines).map(asd_of),
        Ok(AsdType {
            semi_major_axis: DistanceType {
                base: 41399.5123,
                units: Some(PositionUnits("km".to_string(),)),
            },
            asdfg: 12333.5123f64,
            version: "3.0".to_string(),
        },)
    );
    assert_eq!(lines.consumed(), 3);
}

#[test]
fn first_keyword_mismatch_is_keyword_not_found() {
    let schema = vec![field(
        "x",
        "X",
        KvnKind::Integer,
        KvnShape::Scalar { with_unit: false },
        true,
    )];
    let mut lines = KvnCursor::new(vec!["Y = 1", "X = 2"]);
    assert_eq!(
        deserialize(&schema, &mut lines),
        Err(KvnDeserializerErr::KeywordNotFound {
            expected: "X".to_string()
        })
    );
    assert_eq!(lines.consumed(), 0);
}

fn walk(
    schema: &Vec<KvnFieldSchema>,
    lines: Vec<&str>,
) -> (Result<KvnRecord, KvnDeserializerErr<String>>, usize) {
    let mut cursor = KvnCursor::new(lines);
    let result = deserialize(schema, &mut cursor);
    (result, cursor.consumed())
}

fn text(value: &str) -> KvnFieldValue {
    KvnFieldValue::Scalar(KvnScalar::String(value.to_string()))
}

#[test]
fn schema_first_keyword_mismatch_fails_for_any_other_keyword() {
    let schema = vec![KvnFieldSchema::new("x", "X", KvnKind::String)];
    for line in ["Y = 1", "XX = 1", "x = 1", " = 1", "", "COMMENT", "COMMENT= a"] {
        let (result, consumed) = walk(&schema, vec![line, "X = 2"]);
        assert_eq!(
            result,
            Err(KvnDeserializerErr::KeywordNotFound {
                expected: "X".to_string()
            }),
            "{:?}",
            line
        );
        assert_eq!(consumed, 0);
    }
    let (result, consumed) = walk(&schema, vec!["COMMENT a", "X = 2"]);
    assert_eq!(
        result,
        Ok(KvnRecord {
            values: vec![text("2")],
            comments: vec!["a".to_string()],
        })
    );
    assert_eq!(consumed, 2);
}

#[test]
fn missing_lines_fail_required_fields_and_default_optional_ones() {
    let schema = vec![
        KvnFieldSchema::new("a", "A", KvnKind::String),
        KvnFieldSchema::new("b", "B", KvnKind::Integer).optional(),
        KvnFieldSchema::new("c", "C", KvnKind::String),
    ];
    let (result, consumed) = walk(&schema, vec!["A = 1"]);
    assert_eq!(
        result,
        Err(KvnDeserializerErr::KeywordNotFound {
            expected: "C".to_string()
        })
    );
    assert_eq!(consumed, 1);

    let (result, consumed) = walk(&schema, vec![]);
    assert_eq!(
        result,
        Err(KvnDeserializerErr::KeywordNotFound {
            expected: "A".to_string()
        })
    );
    assert_eq!(consumed, 0);

    let tail = vec![KvnFieldSchema::new("b", "B", KvnKind::Integer).optional()];
    let (result, consumed) = walk(&tail, vec![]);
    assert_eq!(
        result,
        Ok(KvnRecord {
            values: vec![KvnFieldValue::Default],
            comments: vec![],
        })
    );
    assert_eq!(consumed, 0);
}

#[test]
fn optional_field_keeps_its_default_and_the_line_goes_to_the_next_field() {
    let schema = vec![
        KvnFieldSchema::new("a", "A", KvnKind::String),
        KvnFieldSchema::new("b", "B", KvnKind::Integer).optional(),
        KvnFieldSchema::new("c", "C", KvnKind::Unsigned).optional(),
        KvnFieldSchema::new("d", "D", KvnKind::String),
    ];
    let (result, consumed) = walk(&schema, vec!["A = x", "D = y", "E = z"]);
    assert_eq!(
        result,
        Ok(KvnRecord {
            values: vec![
                text("x"),
                KvnFieldValue::Default,
                KvnFieldValue::Default,
                text("y")
            ],
            comments: vec![],
        })
    );
    assert_eq!(consumed, 2);

    let (result, consumed) = walk(&schema, vec!["A = x", "C = 7", "D = y"]);
    assert_eq!(
        result,
        Ok(KvnRecord {
            values: vec![
                text("x"),
                KvnFieldValue::Default,
                KvnFieldValue::Scalar(KvnScalar::Unsigned(7)),
                text("y")
            ],
            comments: vec![],
        })
    );
    assert_eq!(consumed, 3);

    let (result, consumed) = walk(&schema, vec!["A = x", "B = -7", "C = 7", "D = y"]);
    assert_eq!(
        result.unwrap().values[1],
        KvnFieldValue::Scalar(KvnScalar::Integer(-7))
    );
    assert_eq!(consumed, 4);
}

#[test]
fn comments_are_collected_wherever_they_stand() {
    let schema = vec![
        KvnFieldSchema::new("a", "A", KvnKind::String),
        KvnFieldSchema::new("b", "B", KvnKind::String).optional(),
        KvnFieldSchema::new("c", "C", KvnKind::String),
    ];
    let (result, consumed) = walk(
        &schema,
        vec![
            "COMMENT first",
            "  COMMENT   second  ",
            "A = x",
            "COMMENT ",
            "C = z",
            "COMMENT behind the record",
        ],
    );
    assert_eq!(
        result,
        Ok(KvnRecord {
            values: vec![text("x"), KvnFieldValue::Default, text("z")],
            comments: vec![
                "first".to_string(),
                "  second  ".to_string(),
                "".to_string()
            ],
        })
    );
    assert_eq!(consumed, 5);
}

#[test]
fn aliases_are_accepted_and_the_first_keyword_is_reported() {
    let schema = vec![KvnFieldSchema::new("epoch", "EPOCH", KvnKind::DateTime)
        .alias("EPOCH_TIME")
        .alias("T0")];
    for line in [
        "EPOCH = 2021-06-03T05:33:00.5",
        "EPOCH_TIME = 2021-06-03T05:33:00.5",
        "T0 = 2021-06-03T05:33:00.5",
    ] {
        let (result, consumed) = walk(&schema, vec![line]);
        let record = result.unwrap();
        match &record.values[0] {
            KvnFieldValue::Scalar(KvnScalar::DateTime(v)) => {
                assert_eq!((v.year, v.month, v.day), (2021, 6, 3));
                assert_eq!((v.hour, v.minute, v.second), (5, 33, 0));
                assert_eq!(v.fractional_second, "5");
                assert_eq!(v.full_value, "2021-06-03T05:33:00.5");
            }
            other => panic!("no date and time: {:?}", other),
        }
        assert_eq!(consumed, 1);
    }
    let (result, consumed) = walk(&schema, vec!["T1 = 2021-06-03T05:33:00.5"]);
    assert_eq!(
        result,
        Err(KvnDeserializerErr::KeywordNotFound {
            expected: "EPOCH".to_string()
        })
    );
    assert_eq!(consumed, 0);
}

#[test]
fn every_error_of_a_lexer_ends_the_walk_behind_its_line() {
    let of = |kind: KvnKind| vec![KvnFieldSchema::new("k", "K", kind).with_unit()];
    let cases: Vec<(KvnKind, &str, KvnDeserializerErr<String>)> = vec![
        (
            KvnKind::String,
            "K = ",
            KvnDeserializerErr::EmptyValue {
                input: "K = ".to_string(),
            },
        ),
        (
            KvnKind::String,
            "K x",
            KvnDeserializerErr::InvalidStringFormat {
                input: "K x".to_string(),
            },
        ),
        (
            KvnKind::Integer,
            "K = [m]",
            KvnDeserializerErr::EmptyValue {
                input: "K = [m]".to_string(),
            },
        ),
        (
            KvnKind::Integer,
            "K = 1e3",
            KvnDeserializerErr::InvalidDateTimeFormat {
                input: "K = 1e3".to_string(),
            },
        ),
        (
            KvnKind::Unsigned,
            "K = -1",
            KvnDeserializerErr::InvalidDateTimeFormat {
                input: "K = -1".to_string(),
            },
        ),
        (
            KvnKind::Float,
            "K = 1e",
            KvnDeserializerErr::InvalidDateTimeFormat {
                input: "K = 1e".to_string(),
            },
        ),
        (
            KvnKind::DateTime,
            "K = 2021-06-03",
            KvnDeserializerErr::InvalidDateTimeFormat {
                input: "K = 2021-06-03".to_string(),
            },
        ),
        (
            KvnKind::DateTime,
            "K =",
            KvnDeserializerErr::EmptyValue {
                input: "K =".to_string(),
            },
        ),
    ];
    for (kind, line, error) in cases {
        let (result, consumed) = walk(&of(kind), vec![line, "K = 1"]);
        assert_eq!(result, Err(error), "{:?}", line);
        assert_eq!(consumed, 1, "{:?}", line);
    }
    let empty = vec![KvnFieldSchema::new("none", "", KvnKind::Integer)];
    let (result, consumed) = walk(&empty, vec![" = 1"]);
    assert_eq!(
        result,
        Err(KvnDeserializerErr::EmptyKeyword {
            input: " = 1".to_string()
        })
    );
    assert_eq!(consumed, 1);
}

#[test]
fn lexer_errors_keep_their_line_in_the_shared_form() {
    let line = "K = ?";
    let input = line.to_string();
    assert_eq!(
        KvnDeserializerErr::from(KvnStringParserErr::EmptyKeyword { input: line }),
        KvnDeserializerErr::EmptyKeyword {
            input: input.clone()
        }
    );
    assert_eq!(
        KvnDeserializerErr::from(KvnStringParserErr::EmptyValue { input: line }),
        KvnDeserializerErr::EmptyValue {
            input: input.clone()
        }
    );
    assert_eq!(
        KvnDeserializerErr::from(KvnStringParserErr::InvalidFormat { input: line }),
        KvnDeserializerErr::InvalidStringFormat {
            input: input.clone()
        }
    );
    assert_eq!(
        KvnDeserializerErr::from(KvnNumberParserErr::EmptyKeyword { input: line }),
        KvnDeserializerErr::EmptyKeyword {
            input: input.clone()
        }
    );
    assert_eq!(
        KvnDeserializerErr::from(KvnNumberParserErr::EmptyValue { input: line }),
        KvnDeserializerErr::EmptyValue {
            input: input.clone()
        }
    );
    assert_eq!(
        KvnDeserializerErr::from(KvnNumberParserErr::InvalidFormat { input: line }),
        KvnDeserializerErr::InvalidDateTimeFormat {
            input: input.clone()
        }
    );
    assert_eq!(
        KvnDeserializerErr::from(KvnDateTimeParserErr::EmptyKeyword { input: line }),
        KvnDeserializerErr::EmptyKeyword {
            input: input.clone()
        }
    );
    assert_eq!(
        KvnDeserializerErr::from(KvnDateTimeParserErr::EmptyValue { input: line }),
        KvnDeserializerErr::EmptyValue {
            input: input.clone()
        }
    );
    assert_eq!(
        KvnDeserializerErr::from(KvnDateTimeParserErr::InvalidFormat { input: line }),
        KvnDeserializerErr::InvalidDateTimeFormat {
            input: input.clone()
        }
    );
    assert_eq!(
        KvnDeserializerErr::from(KvnKeywordNotFoundErr { expected: "K" }),
        KvnDeserializerErr::KeywordNotFound {
            expected: "K".to_string()
        }
    );
}

#[test]
fn composite_keeps_value_and_unit_and_a_scalar_leaves_the_unit_aside() {
    let schema = vec![
        KvnFieldSchema::new("a", "A", KvnKind::Integer).composite("base", "units"),
        KvnFieldSchema::new("b", "B", KvnKind::Integer).composite("base", "units"),
        KvnFieldSchema::new("c", "C", KvnKind::Integer).with_unit(),
        KvnFieldSchema::new("d", "D", KvnKind::Integer),
    ];
    assert_eq!(
        schema[0].shape,
        KvnShape::Composite {
            value: "base".to_string(),
            unit: "units".to_string()
        }
    );
    let (result, consumed) = walk(&schema, vec!["A = 1 [m]", "B = 2", "C = 3 [s]", "D = 4 [s]"]);
    assert_eq!(
        result,
        Err(KvnDeserializerErr::InvalidDateTimeFormat {
            input: "D = 4 [s]".to_string()
        })
    );
    assert_eq!(consumed, 4);
    let (result, consumed) = walk(&schema, vec!["A = 1 [m]", "B = 2", "C = 3 [s]", "D = 4"]);
    let record = result.unwrap();
    assert_eq!(
        record.values,
        vec![
            KvnFieldValue::Composite {
                value: KvnScalar::Integer(1),
                unit: Some("m".to_string())
            },
            KvnFieldValue::Composite {
                value: KvnScalar::Integer(2),
                unit: None
            },
            KvnFieldValue::Scalar(KvnScalar::Integer(3)),
            KvnFieldValue::Scalar(KvnScalar::Integer(4)),
        ]
    );
    assert_eq!(consumed, 4);
    assert_eq!(record.get(&schema, "c"), Some(&record.values[2]));
    assert_eq!(record.get(&schema, "a"), Some(&record.values[0]));
    assert_eq!(record.get(&schema, "e"), None);
}

#[test]
fn cursor_moves_forward_only() {
    let mut cursor = KvnCursor::new(vec!["a", "b"]);
    assert_eq!(cursor.peek(), Some("a"));
    assert_eq!(cursor.peek(), Some("a"));
    assert_eq!(cursor.consumed(), 0);
    assert_eq!(cursor.next(), Some("a"));
    assert_eq!(cursor.peek(), Some("b"));
    assert_eq!(cursor.next(), Some("b"));
    assert_eq!(cursor.consumed(), 2);
    assert_eq!(cursor.peek(), None);
    assert_eq!(cursor.next(), None);
    assert_eq!(cursor.consumed(), 2);
}

#[test]
fn a_second_record_starts_where_the_first_ended() {
    let first = vec![KvnFieldSchema::new("a", "A", KvnKind::String)];
    let second = vec![KvnFieldSchema::new("b", "B", KvnKind::Float)];
    let mut cursor = KvnCursor::new(vec!["A = x", "COMMENT between", "B = 1.5e3 [m]"]);
    assert_eq!(
        deserialize(&first, &mut cursor),
        Ok(KvnRecord {
            values: vec![text("x")],
            comments: vec![],
        })
    );
    assert_eq!(cursor.consumed(), 1);
    assert_eq!(
        deserialize(&second, &mut cursor),
        Err(KvnDeserializerErr::InvalidDateTimeFormat {
            input: "B = 1.5e3 [m]".to_string()
        })
    );
    assert_eq!(cursor.consumed(), 3);
}
