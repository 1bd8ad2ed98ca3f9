use lox_kvn::parser::{
    is_empty_value, kvn_line_matches_key_new, parse_kvn_datetime_line_new,
    parse_kvn_integer_line_new, parse_kvn_numeric_line_new, parse_kvn_string_line_new,
    KvnDateTimeParserErr, KvnDateTimeValue, KvnNumberParserErr, KvnStringParserErr, KvnValue,
};

/// The float that a numeric line gives, once the text of its number has
/// gone through the float parser.
fn numeric_line(
    input: &str,
    with_unit: bool,
) -> Result<KvnValue<f64, String>, KvnNumberParserErr<&str>> {
    let read = parse_kvn_numeric_line_new(input, with_unit)?;
    let value =
        fast_float::parse(&read.value).map_err(|_| KvnNumberParserErr::InvalidFormat { input })?;
    Ok(KvnValue {
        value,
        unit: read.unit,
    })
}

/// A date and time with the fraction of the seconds as a float.
#[derive(Debug, PartialEq)]
struct DateTime {
    year: u16,
    month: u8,
    day: u8,
    hour: u8,
    minute: u8,
    second: u8,
    fractional_second: f64,
    full_value: String,
}

fn datetime_line(input: &str) -> Result<DateTime, KvnDateTimeParserErr<&str>> {
    let v: KvnDateTimeValue = parse_kvn_datetime_line_new(input)?;
    let seconds: f64 = format!("{}.{}", v.second, v.fractional_second)
        .parse()
        .unwrap();
    Ok(DateTime {
        year: v.year,
        month: v.month,
        day: v.day,
        hour: v.hour,
        minute: v.minute,
        second: v.second,
        fractional_second: seconds.fract(),
        full_value: v.full_value,
    })
}

#[test]
fn test_parse_kvn_string_line_new() {
    assert_eq!(
        parse_kvn_string_line_new("ASD = ASDFG"),
        Ok(KvnValue {
            value: "ASDFG".to_string(),
            unit: None
        })
    );
    assert_eq!(
        parse_kvn_string_line_new("ASD    =   ASDFG"),
        Ok(KvnValue {
            value: "ASDFG".to_string(),
            unit: None
        })
    );
    assert_eq!(
        parse_kvn_string_line_new("ASD    = ASDFG"),
        Ok(KvnValue {
            value: "ASDFG".to_string(),
            unit: None
        })
    );
    assert_eq!(
        parse_kvn_string_line_new("ASD =    "),
        Err(KvnStringParserErr::EmptyValue { input: "ASD =    " })
    );
    assert_eq!(
        parse_kvn_string_line_new("ASD = "),
        Err(KvnStringParserErr::EmptyValue { input: "ASD = " })
    );
    assert_eq!(
        parse_kvn_string_line_new("ASD ="),
        Err(KvnStringParserErr::EmptyValue { input: "ASD =" })
    );

    assert_eq!(
        parse_kvn_string_line_new("ASD   [km]"),
        Err(KvnStringParserErr::InvalidFormat {
            input: "ASD   [km]"
        })
    );
    assert_eq!(
        parse_kvn_string_line_new(" = asd [km]"),
        Err(KvnStringParserErr::EmptyKeyword {
            input: " = asd [km]"
        })
    );

    assert_eq!(
        parse_kvn_string_line_new("ASD = ASDFG          "),
        Ok(KvnValue {
            value: "ASDFG".to_string(),
            unit: None
        })
    );

    assert_eq!(
        parse_kvn_string_line_new("  ASD  = ASDFG"),
        Ok(KvnValue {
            value: "ASDFG".to_string(),
            unit: None
        })
    );

    assert_eq!(
        parse_kvn_string_line_new("  COMMENT asd a    asd a ads as "),
        Ok(KvnValue {
            value: "asd a    asd a ads as ".to_string(),
            unit: None
        })
    );

    assert_eq!(
        parse_kvn_string_line_new("  COMMENT "),
        Ok(KvnValue {
            value: "".to_string(),
            unit: None
        })
    );
}

#[test]
fn test_parse_kvn_integer_line_new() {
    assert_eq!(
        parse_kvn_integer_line_new("SCLK_OFFSET_AT_EPOCH = 28800 [s]", true),
        Ok(KvnValue {
            value: 28800,
            unit: Some("s".to_string())
        },)
    );

    assert_eq!(
        parse_kvn_integer_line_new("SCLK_OFFSET_AT_EPOCH = 28800             [s]", true),
        Ok(KvnValue {
            value: 28800,
            unit: Some("s".to_string())
        })
    );

    assert_eq!(
        parse_kvn_integer_line_new("SCLK_OFFSET_AT_EPOCH = 28800             ", false),
        Ok(KvnValue {
            value: 28800,
            unit: None
        })
    );

    assert_eq!(
        parse_kvn_integer_line_new("          SCLK_OFFSET_AT_EPOCH = 28800", false),
        Ok(KvnValue {
            value: 28800,
            unit: None
        })
    );

    assert_eq!(
        parse_kvn_integer_line_new("SCLK_OFFSET_AT_EPOCH = 00028800 [s]", true),
        Ok(KvnValue {
            value: 28800,
            unit: Some("s".to_string())
        },)
    );

    assert_eq!(
        parse_kvn_integer_line_new("SCLK_OFFSET_AT_EPOCH = -28800 [s]", true),
        Ok(KvnValue {
            value: -28800,
            unit: Some("s".to_string())
        },)
    );

    assert_eq!(
        parse_kvn_integer_line_new("SCLK_OFFSET_AT_EPOCH = -28800", true),
        Ok(KvnValue {
            value: -28800,
            unit: None
        },)
    );

    assert_eq!(
        parse_kvn_integer_line_new("SCLK_OFFSET_AT_EPOCH = 28800 [s]", true),
        Ok(KvnValue {
            value: 28800,
            unit: Some("s".to_string())
        },)
    );

    assert_eq!(
        parse_kvn_integer_line_new::<u32>("SCLK_OFFSET_AT_EPOCH = 28800 [s]", false),
        Err(KvnNumberParserErr::InvalidFormat {
            input: "SCLK_OFFSET_AT_EPOCH = 28800 [s]"
        })
    );

    assert_eq!(
        parse_kvn_integer_line_new::<u32>("SCLK_OFFSET_AT_EPOCH = -asd", true),
        Err(KvnNumberParserErr::InvalidFormat {
            input: "SCLK_OFFSET_AT_EPOCH = -asd"
        })
    );

    assert_eq!(
        parse_kvn_integer_line_new::<u32>("SCLK_OFFSET_AT_EPOCH = [s]", true),
        Err(KvnNumberParserErr::EmptyValue {
            input: "SCLK_OFFSET_AT_EPOCH = [s]"
        })
    );

    assert_eq!(
        parse_kvn_integer_line_new::<u32>("SCLK_OFFSET_AT_EPOCH =    ", false),
        Err(KvnNumberParserErr::EmptyValue {
            input: "SCLK_OFFSET_AT_EPOCH =    "
        })
    );
    assert_eq!(
        parse_kvn_integer_line_new::<u32>("SCLK_OFFSET_AT_EPOCH = ", false),
        Err(KvnNumberParserErr::EmptyValue {
            input: "SCLK_OFFSET_AT_EPOCH = "
        })
    );
    assert_eq!(
        parse_kvn_integer_line_new::<u32>("SCLK_OFFSET_AT_EPOCH =", false),
        Err(KvnNumberParserErr::EmptyValue {
            input: "SCLK_OFFSET_AT_EPOCH ="
        })
    );

    assert_eq!(
        parse_kvn_integer_line_new::<u32>("SCLK_OFFSET_AT_EPOCH   [km]", true),
        Err(KvnNumberParserErr::InvalidFormat {
            input: "SCLK_OFFSET_AT_EPOCH   [km]"
        })
    );
    assert_eq!(
        parse_kvn_integer_line_new::<u32>(" = 123 [km]", true),
        Err(KvnNumberParserErr::EmptyKeyword {
            input: " = 123 [km]"
        })
    );
}

#[test]
fn test_parse_kvn_numeric_line_new() {
    assert_eq!(
        numeric_line("X = 66559942 [km]", true),
        Ok(KvnValue {
            value: 66559942f64,
            unit: Some("km".to_string())
        },)
    );

    assert_eq!(
        numeric_line("X = 66559942             [km]", true),
        Ok(KvnValue {
            value: 66559942f64,
            unit: Some("km".to_string())
        })
    );

    assert_eq!(
        numeric_line("X = 66559942             ", false),
        Ok(KvnValue {
            value: 66559942f64,
            unit: None
        })
    );

    assert_eq!(
        numeric_line("          X = 66559942", false),
        Ok(KvnValue {
            value: 66559942f64,
            unit: None
        })
    );

    assert_eq!(
        numeric_line("X = 6655.9942 [km]", true),
        Ok(KvnValue {
            value: 6655.9942,
            unit: Some("km".to_string())
        },)
    );

    assert_eq!(
        numeric_line("CX_X =  5.801003223606e-05", true),
        Ok(KvnValue {
            value: 5.801003223606e-05,
            unit: None
        },)
    );

    assert_eq!(
        numeric_line("X = -asd", true),
        Err(KvnNumberParserErr::InvalidFormat { input: "X = -asd" })
    );

    assert_eq!(
        numeric_line("X = [s]", true),
        Err(KvnNumberParserErr::EmptyValue { input: "X = [s]" })
    );

    assert_eq!(
        numeric_line("X =    ", false),
        Err(KvnNumberParserErr::EmptyValue { input: "X =    " })
    );
    assert_eq!(
        numeric_line("X = ", false),
        Err(KvnNumberParserErr::EmptyValue { input: "X = " })
    );
    assert_eq!(
        numeric_line("X =", false),
        Err(KvnNumberParserErr::EmptyValue { input: "X =" })
    );

    assert_eq!(
        numeric_line("X   [km]", true),
        Err(KvnNumberParserErr::InvalidFormat { input: "X   [km]" })
    );
    assert_eq!(
        numeric_line(" = 123 [km]", true),
        Err(KvnNumberParserErr::EmptyKeyword {
            input: " = 123 [km]"
        })
    );
}

#[test]
fn test_parse_kvn_datetime_line_new() {
    assert_eq!(
        datetime_line("CREATION_DATE = 2021-06-03T05:33:00.123"),
        Ok(DateTime {
            year: 2021,
            month: 6,
            day: 3,
            hour: 5,
            minute: 33,
            second: 0,
            fractional_second: 0.123,
            full_value: "2021-06-03T05:33:00.123".to_string(),
        })
    );

    assert_eq!(
        datetime_line("CREATION_DATE = 2021-06-03T05:33:01"),
        Ok(DateTime {
            year: 2021,
            month: 6,
            day: 3,
            hour: 5,
            minute: 33,
            second: 1,
            fractional_second: 0.0,
            full_value: "2021-06-03T05:33:01".to_string(),
        })
    );

    assert_eq!(
        datetime_line("CREATION_DATE = 2021-06-03T05:33:01           "),
        Ok(DateTime {
            year: 2021,
            month: 6,
            day: 3,
            hour: 5,
            minute: 33,
            second: 1,
            fractional_second: 0.0,
            full_value: "2021-06-03T05:33:01".to_string(),
        })
    );

    assert_eq!(
        datetime_line("          CREATION_DATE = 2021-06-03T05:33:01"),
        Ok(DateTime {
            year: 2021,
            month: 6,
            day: 3,
            hour: 5,
            minute: 33,
            second: 1,
            fractional_second: 0.0,
            full_value: "2021-06-03T05:33:01".to_string(),
        })
    );

    assert_eq!(
        datetime_line("CREATION_DATE = 2021,06,03Q05!33!00-123"),
        Err(KvnDateTimeParserErr::InvalidFormat {
            input: "CREATION_DATE = 2021,06,03Q05!33!00-123"
        })
    );

    assert_eq!(
        datetime_line("CREATION_DATE = asdffggg"),
        Err(KvnDateTimeParserErr::InvalidFormat {
            input: "CREATION_DATE = asdffggg"
        })
    );

    assert_eq!(
        datetime_line("CREATION_DATE = "),
        Err(KvnDateTimeParserErr::EmptyValue {
            input: "CREATION_DATE = "
        })
    );

    assert_eq!(
        datetime_line("CREATION_DATE =    "),
        Err(KvnDateTimeParserErr::EmptyValue {
            input: "CREATION_DATE =    "
        })
    );

    assert_eq!(
        datetime_line("CREATION_DATE ="),
        Err(KvnDateTimeParserErr::EmptyValue {
            input: "CREATION_DATE ="
        })
    );

    assert_eq!(
        datetime_line("CREATION_DATE     "),
        Err(KvnDateTimeParserErr::InvalidFormat {
            input: "CREATION_DATE     "
        })
    );
    assert_eq!(
        datetime_line(" = 2021-06-03T05:33:01"),
        Err(KvnDateTimeParserErr::EmptyKeyword {
            input: " = 2021-06-03T05:33:01"
        })
    );
}

#[test]
fn datetime_keeps_the_digits_of_the_fraction() {
    let v = parse_kvn_datetime_line_new("CREATION_DATE = 2021-06-03T05:33:00.123").unwrap();
    assert_eq!(v.fractional_second, "123");
    assert_eq!(v.full_value, "2021-06-03T05:33:00.123");
    let v = parse_kvn_datetime_line_new("EPOCH = 1999-1-2T3:4:").unwrap();
    assert_eq!(
        (v.year, v.month, v.day, v.hour, v.minute, v.second),
        (1999, 1, 2, 3, 4, 0)
    );
    assert_eq!(v.fractional_second, "");
    assert_eq!(v.full_value, "1999-1-2T3:4:");
}

#[test]
fn key_matcher_is_a_predicate() {
    assert_eq!(kvn_line_matches_key_new("ASD", "  ASD = 1"), Ok(true));
    assert_eq!(kvn_line_matches_key_new("ASD", "ASDF = 1"), Ok(false));
    assert_eq!(kvn_line_matches_key_new("ASD", "asd = 1"), Ok(false));
    assert_eq!(kvn_line_matches_key_new("", "asd = 1"), Ok(true));
    assert_eq!(kvn_line_matches_key_new("", ""), Ok(true));
    assert_eq!(kvn_line_matches_key_new("A_1", "\tA_1"), Ok(true));
}

#[test]
fn empty_value_check() {
    assert!(is_empty_value("KEY ="));
    assert!(is_empty_value("key = [km"));
    assert!(is_empty_value(" = []"));
    assert!(!is_empty_value("KEY = [km] "));
    assert!(!is_empty_value("KEY"));
    assert!(!is_empty_value("KEY = 1"));
}

#[test]
fn white_space_around_key_sign_and_value_does_not_count() {
    let spaces = ["", " ", "\t", "   ", "\u{a0}", " \t \u{2003}"];
    for lead in spaces {
        for gap in spaces {
            for pad in spaces {
                for trail in ["", " ", "\t ", "\n", "  \n "] {
                    for value in ["VALUE", "two words", "[km] x", "a=b", "3.0"] {
                        let line = format!("{lead}KEY_1{gap}={pad}{value}{trail}");
                        assert_eq!(
                            parse_kvn_string_line_new(&line),
                            Ok(KvnValue {
                                value: value.to_string(),
                                unit: None
                            }),
                            "{:?}",
                            line
                        );
                        assert_eq!(kvn_line_matches_key_new("KEY_1", &line), Ok(true));
                        assert_eq!(
                            parse_kvn_string_line_new(&format!("KEY_1={value}")),
                            parse_kvn_string_line_new(&line).map_err(|_| {
                                KvnStringParserErr::InvalidFormat { input: "" }
                            })
                        );
                    }
                }
            }
        }
    }
    assert_eq!(
        parse_kvn_string_line_new("KEY = [s]"),
        Err(KvnStringParserErr::EmptyValue { input: "KEY = [s]" })
    );
    assert_eq!(
        parse_kvn_string_line_new("KEY = [s] "),
        Ok(KvnValue {
            value: "[s]".to_string(),
            unit: None
        })
    );
    assert_eq!(
        parse_kvn_string_line_new("COMMENT = [s]"),
        Ok(KvnValue {
            value: "= [s]".to_string(),
            unit: None
        })
    );
}

#[test]
fn comments_keep_their_white_space() {
    for (line, text) in [
        ("  COMMENT asd a    asd a ads as ", "asd a    asd a ads as "),
        ("  COMMENT ", ""),
        ("COMMENT  two blanks", " two blanks"),
        ("\tCOMMENT \t tab ", "\t tab "),
        ("COMMENT KEY = 1", "KEY = 1"),
        ("COMMENT COMMENT x", "COMMENT x"),
    ] {
        assert!(lox_kvn::parser::is_comment(line));
        assert_eq!(
            parse_kvn_string_line_new(line),
            Ok(KvnValue {
                value: text.to_string(),
                unit: None
            })
        );
    }
    for line in ["COMMENT", "COMMENT\tx", "COMMENTS x", "comment x", "X COMMENT y"] {
        assert!(!lox_kvn::parser::is_comment(line), "{:?}", line);
    }
    assert_eq!(
        parse_kvn_string_line_new("COMMENT"),
        Err(KvnStringParserErr::InvalidFormat { input: "COMMENT" })
    );
}

#[test]
fn empty_values_come_before_any_other_fault() {
    for line in ["KEY =    ", "KEY = ", "KEY =", "KEY = [s]", " = ", "key = [", " =[km/s**2]"] {
        assert!(is_empty_value(line), "{:?}", line);
        for with_unit in [false, true] {
            assert_eq!(
                parse_kvn_integer_line_new::<i32>(line, with_unit),
                Err(KvnNumberParserErr::EmptyValue { input: line })
            );
            assert_eq!(
                parse_kvn_numeric_line_new(line, with_unit),
                Err(KvnNumberParserErr::EmptyValue { input: line })
            );
        }
        assert_eq!(
            parse_kvn_datetime_line_new(line),
            Err(KvnDateTimeParserErr::EmptyValue { input: line })
        );
    }
}

#[test]
fn units_are_read_with_units_only() {
    let line = "SCLK_OFFSET_AT_EPOCH = 28800 [s]";
    assert_eq!(
        parse_kvn_integer_line_new::<u32>(line, true),
        Ok(KvnValue {
            value: 28800,
            unit: Some("s".to_string())
        })
    );
    assert_eq!(
        parse_kvn_integer_line_new::<u32>(line, false),
        Err(KvnNumberParserErr::InvalidFormat { input: line })
    );
    assert_eq!(
        parse_kvn_numeric_line_new(line, false),
        Err(KvnNumberParserErr::InvalidFormat { input: line })
    );
    assert_eq!(
        parse_kvn_numeric_line_new("X = 1.5 [km/s**2", true),
        Ok(KvnValue {
            value: "1.5".to_string(),
            unit: Some("km/s**2".to_string())
        })
    );
    assert_eq!(
        parse_kvn_numeric_line_new("X = 1.5[]  ", true),
        Ok(KvnValue {
            value: "1.5".to_string(),
            unit: Some("".to_string())
        })
    );
    assert_eq!(
        parse_kvn_numeric_line_new("X = 1.5 [k m]", true),
        Err(KvnNumberParserErr::InvalidFormat {
            input: "X = 1.5 [k m]"
        })
    );
}

#[test]
fn integers_take_what_their_type_has() {
    fn read<T: lox_kvn::number::KvnInteger>(value: &str) -> Option<T> {
        parse_kvn_integer_line_new::<T>(&format!("K = {value}"), false)
            .ok()
            .map(|v| v.value)
    }
    assert_eq!(read::<u8>("255"), Some(255));
    assert_eq!(read::<u8>("256"), None);
    assert_eq!(read::<u8>("+0"), Some(0));
    assert_eq!(read::<u8>("-0"), None);
    assert_eq!(read::<i8>("-0"), Some(0));
    assert_eq!(read::<i8>("-128"), Some(-128));
    assert_eq!(read::<i8>("-129"), None);
    assert_eq!(read::<i8>("127"), Some(127));
    assert_eq!(read::<i8>("128"), None);
    assert_eq!(read::<u16>("65535"), Some(65535));
    assert_eq!(read::<u16>("65536"), None);
    assert_eq!(read::<i16>("-32768"), Some(-32768));
    assert_eq!(read::<i16>("32768"), None);
    assert_eq!(read::<u32>("4294967295"), Some(4294967295));
    assert_eq!(read::<u32>("4294967296"), None);
    assert_eq!(read::<i32>("-2147483648"), Some(-2147483648));
    assert_eq!(read::<i32>("2147483648"), None);
    assert_eq!(read::<u64>("18446744073709551615"), Some(u64::MAX));
    assert_eq!(read::<u64>("18446744073709551616"), None);
    assert_eq!(read::<u64>("99999999999999999999999999999999999999999"), None);
    assert_eq!(read::<i64>("9223372036854775807"), Some(i64::MAX));
    assert_eq!(read::<i64>("9223372036854775808"), None);
    assert_eq!(read::<i64>("-9223372036854775808"), Some(i64::MIN));
    assert_eq!(read::<i64>("-9223372036854775809"), None);
    assert_eq!(read::<i64>("-000000000000000000000000000000000000012"), Some(-12));
}

#[test]
fn the_fraction_of_an_integer_is_left_aside() {
    assert_eq!(
        parse_kvn_integer_line_new::<i32>("K = 12.75", false),
        Ok(KvnValue {
            value: 12,
            unit: None
        })
    );
    assert_eq!(
        parse_kvn_integer_line_new::<i32>("K = -12. [m]", true),
        Ok(KvnValue {
            value: -12,
            unit: Some("m".to_string())
        })
    );
    assert_eq!(
        parse_kvn_integer_line_new::<i32>("K = .5", false),
        Err(KvnNumberParserErr::InvalidFormat { input: "K = .5" })
    );
    assert_eq!(
        parse_kvn_integer_line_new::<i32>("K = 1e3", false),
        Err(KvnNumberParserErr::InvalidFormat { input: "K = 1e3" })
    );
}

#[test]
fn numbers_keep_their_spelling() {
    for (line, text) in [
        ("K = 1", "1"),
        ("K = +1.", "+1."),
        ("K = -0.50e+10  ", "-0.50e+10"),
        ("K = 1E5", "1E5"),
        ("k_9 = 007.25", "007.25"),
    ] {
        assert_eq!(
            parse_kvn_numeric_line_new(line, false),
            Ok(KvnValue {
                value: text.to_string(),
                unit: None
            })
        );
    }
    for line in ["K = 1e", "K = 1e+", "K = .5", "K = 1.5.2", "K = 1 2", "K = 1,5", "K = ٣"] {
        assert_eq!(
            parse_kvn_numeric_line_new(line, true),
            Err(KvnNumberParserErr::InvalidFormat { input: line })
        );
    }
}

#[test]
fn dates_and_times_are_held_to_their_digit_counts() {
    for line in [
        "K = 02021-06-03T05:33:00",
        "K = 202-06-03T05:33:00",
        "K = 2021-006-03T05:33:00",
        "K = 2021--03T05:33:00",
        "K = 2021-06-03t05:33:00",
        "K = 2021-06-03T05:33:000",
        "K = 2021-06-03T05:33",
        "K = 2021-06-03T05:33:00Z",
        "k = 2021-06-03T05:33:00",
    ] {
        assert_eq!(
            parse_kvn_datetime_line_new(line),
            Err(KvnDateTimeParserErr::InvalidFormat { input: line }),
            "{:?}",
            line
        );
    }
    let v = parse_kvn_datetime_line_new("K = 9999-99-99T99:99:99.").unwrap();
    assert_eq!(
        (v.year, v.month, v.day, v.hour, v.minute, v.second),
        (9999, 99, 99, 99, 99, 99)
    );
    assert_eq!(v.fractional_second, "");
    assert_eq!(v.full_value, "9999-99-99T99:99:99.");
}
