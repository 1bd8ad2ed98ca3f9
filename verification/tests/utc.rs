use lox_kvn::utc::{PyUtc, Utc, UtcError};

/// The point in UTC with the seconds given as a decimal number. The
/// fraction is taken to the nearest picosecond.
fn utc(
    year: i64,
    month: u8,
    day: u8,
    hour: u8,
    minute: u8,
    seconds: f64,
) -> Result<PyUtc, UtcError> {
    if !(0.0..61.0).contains(&seconds) {
        return Err(UtcError::InvalidTime);
    }
    let second = seconds.floor();
    let subsecond = ((seconds - second) * 1e12).round() as u64;
    PyUtc::new(year, month, day, hour, minute, second as u8, subsecond)
}

/// The seconds of the point as a decimal number.
fn decimal_seconds(utc: &PyUtc) -> f64 {
    (utc.second() as u64 * 1_000_000_000_000 + utc.subsecond()) as f64 / 1e12
}

#[test]
fn test_pyutc() {
    let utc = utc(2000, 1, 1, 12, 13, 14.123456789123).unwrap();
    assert_eq!(utc.year(), 2000);
    assert_eq!(utc.month(), 1);
    assert_eq!(utc.day(), 1);
    assert_eq!(utc.hour(), 12);
    assert_eq!(utc.minute(), 13);
    assert_eq!(utc.second(), 14);
    assert_eq!(utc.millisecond(), 123);
    assert_eq!(utc.microsecond(), 456);
    assert_eq!(utc.nanosecond(), 789);
    assert_eq!(utc.picosecond(), 123);
    assert_eq!(decimal_seconds(&utc), 14.123456789123);
    assert_eq!(utc.__str__(), "2000-01-01T12:13:14.123 UTC");
    assert_eq!(utc.__repr__(), "UTC(2000, 1, 1, 12, 13, 14.123456789123)");
    assert!(utc.__eq__(utc.clone()));
}

#[test]
#[should_panic(expected = "invalid date")]
fn test_pyutc_error() {
    utc(2000, 0, 1, 0, 0, 0.0)
        .map_err(|e| e.message())
        .unwrap();
}

#[test]
fn test_pytime_from_iso() {
    let expected = utc(2000, 1, 1, 0, 0, 0.0).unwrap();
    let actual = PyUtc::from_iso("2000-01-01T00:00:00 UTC").unwrap();
    assert_eq!(actual, expected);
    let actual = PyUtc::from_iso("2000-01-01T00:00:00Z").unwrap();
    assert_eq!(actual, expected);
    let actual = PyUtc::from_iso("2000-01-01T00:00:00").unwrap();
    assert_eq!(actual, expected);
}

#[test]
#[should_panic(expected = "invalid ISO")]
fn test_pytime_from_iso_invalid() {
    let _ = PyUtc::from_iso("2000-01-01X00:00:00 UTC")
        .map_err(|e| e.message())
        .unwrap();
}

#[test]
fn every_error_has_its_input() {
    assert_eq!(
        PyUtc::new(1959, 12, 31, 23, 59, 59, 0),
        Err(UtcError::UtcUndefined)
    );
    assert_eq!(
        PyUtc::new(1959, 13, 31, 23, 59, 59, 0),
        Err(UtcError::UtcUndefined)
    );
    assert_eq!(PyUtc::new(2001, 2, 29, 0, 0, 0, 0), Err(UtcError::InvalidDate));
    assert_eq!(PyUtc::new(2001, 2, 29, 24, 0, 0, 0), Err(UtcError::InvalidDate));
    assert_eq!(PyUtc::new(2000, 4, 31, 0, 0, 0, 0), Err(UtcError::InvalidDate));
    assert_eq!(PyUtc::new(2000, 1, 0, 0, 0, 0, 0), Err(UtcError::InvalidDate));
    assert_eq!(PyUtc::new(2000, 1, 1, 24, 0, 0, 0), Err(UtcError::InvalidTime));
    assert_eq!(PyUtc::new(2000, 1, 1, 0, 60, 0, 0), Err(UtcError::InvalidTime));
    assert_eq!(PyUtc::new(2000, 1, 1, 0, 0, 60, 0), Err(UtcError::InvalidTime));
    assert_eq!(PyUtc::new(2000, 1, 1, 23, 59, 61, 0), Err(UtcError::InvalidTime));
    assert_eq!(
        PyUtc::new(2000, 1, 1, 0, 0, 0, 1_000_000_000_000),
        Err(UtcError::InvalidTime)
    );
    assert_eq!(
        PyUtc::from_iso("2000-01-01 00:00:00"),
        Err(UtcError::InvalidIsoString)
    );
    assert_eq!(UtcError::InvalidDate.message(), "invalid date");
    assert_eq!(UtcError::InvalidTime.message(), "invalid time");
    assert_eq!(
        UtcError::UtcUndefined.message(),
        "UTC is not defined for dates before 1960-01-01"
    );
    assert_eq!(UtcError::InvalidIsoString.message(), "invalid ISO string");
}

#[test]
fn leap_days_and_leap_seconds() {
    assert!(PyUtc::new(2000, 2, 29, 0, 0, 0, 0).is_ok());
    assert!(PyUtc::new(2004, 2, 29, 0, 0, 0, 0).is_ok());
    assert_eq!(PyUtc::new(2100, 2, 29, 0, 0, 0, 0), Err(UtcError::InvalidDate));
    assert!(PyUtc::new(2016, 12, 31, 23, 59, 60, 999_999_999_999).is_ok());
    assert!(PyUtc::new(1960, 1, 1, 0, 0, 0, 0).is_ok());
    for (month, days) in [
        (1, 31),
        (2, 28),
        (3, 31),
        (4, 30),
        (5, 31),
        (6, 30),
        (7, 31),
        (8, 31),
        (9, 30),
        (10, 31),
        (11, 30),
        (12, 31),
    ] {
        assert!(PyUtc::new(2023, month, days, 0, 0, 0, 0).is_ok());
        assert_eq!(
            PyUtc::new(2023, month, days + 1, 0, 0, 0, 0),
            Err(UtcError::InvalidDate)
        );
    }
}

#[test]
fn parts_of_the_second_add_up() {
    for subsecond in [
        0u64,
        1,
        999,
        1_000,
        123_456_789_123,
        999_999_999_999,
        500_000_000_000,
        1_002_003,
    ] {
        let utc = PyUtc::new(2024, 5, 6, 7, 8, 9, subsecond).unwrap();
        let parts = [
            utc.millisecond(),
            utc.microsecond(),
            utc.nanosecond(),
            utc.picosecond(),
        ];
        assert!(parts.iter().all(|p| (0..1000).contains(p)));
        let sum = ((parts[0] * 1000 + parts[1]) * 1000 + parts[2]) * 1000 + parts[3];
        assert_eq!(sum as u64, subsecond);
        assert_eq!(utc.subsecond(), subsecond);
    }
    let utc = PyUtc::new(2024, 5, 6, 7, 8, 9, 1_002_003).unwrap();
    assert_eq!(
        (
            utc.millisecond(),
            utc.microsecond(),
            utc.nanosecond(),
            utc.picosecond()
        ),
        (0, 1, 2, 3)
    );
}

#[test]
fn texts_of_a_point() {
    let utc = PyUtc::new(2024, 5, 6, 7, 8, 9, 0).unwrap();
    assert_eq!(utc.__str__(), "2024-05-06T07:08:09.000 UTC");
    assert_eq!(utc.__repr__(), "UTC(2024, 5, 6, 7, 8, 9)");
    let utc = PyUtc::new(2024, 12, 31, 23, 59, 60, 999_999_999_999).unwrap();
    assert_eq!(utc.__str__(), "2024-12-31T23:59:60.999 UTC");
    assert_eq!(utc.__repr__(), "UTC(2024, 12, 31, 23, 59, 60.999999999999)");
    let utc = PyUtc::new(12345, 1, 2, 0, 0, 0, 50_000_000_000).unwrap();
    assert_eq!(utc.__str__(), "12345-01-02T00:00:00.050 UTC");
    assert_eq!(utc.__repr__(), "UTC(12345, 1, 2, 0, 0, 0.05)");
    let utc = PyUtc::new(1960, 1, 1, 0, 0, 0, 1).unwrap();
    assert_eq!(utc.__repr__(), "UTC(1960, 1, 1, 0, 0, 0.000000000001)");
    assert_eq!(utc.0.text(), utc.__str__());
    assert_eq!(utc.0.repr(), utc.__repr__());
}

#[test]
fn iso_texts() {
    let read = PyUtc::from_iso("2024-05-06T07:08:09.5").unwrap();
    assert_eq!(read, PyUtc::new(2024, 5, 6, 7, 8, 9, 500_000_000_000).unwrap());
    let read = PyUtc::from_iso("2024-05-06T07:08:09.123456789123999 UTC").unwrap();
    assert_eq!(read, PyUtc::new(2024, 5, 6, 7, 8, 9, 123_456_789_123).unwrap());
    let read = PyUtc::from_iso("12345-01-02T00:00:00.050Z").unwrap();
    assert_eq!(read, PyUtc::new(12345, 1, 2, 0, 0, 0, 50_000_000_000).unwrap());
    assert_eq!(Utc::from_iso("2024-05-06T07:08:09.5"), Ok(read_back(2024)));
    for text in [
        "",
        "2024-05-06",
        "2024-5-06T07:08:09",
        "2024-05-06T07:08:9",
        "2024-05-06T07:08:09.",
        "2024-05-06T07:08:09 TAI",
        "2024-05-06T07:08:09 UTC ",
        "2024-05-06T07:08:09z",
        "024-05-06T07:08:09",
        " 2024-05-06T07:08:09",
        "2024-05-06T07:08:009",
        "1234567890123456789-05-06T07:08:09",
    ] {
        assert_eq!(PyUtc::from_iso(text), Err(UtcError::InvalidIsoString), "{:?}", text);
    }
    assert_eq!(
        PyUtc::from_iso("1959-12-31T23:59:59"),
        Err(UtcError::UtcUndefined)
    );
    assert_eq!(
        PyUtc::from_iso("2024-02-30T00:00:00"),
        Err(UtcError::InvalidDate)
    );
    assert_eq!(
        PyUtc::from_iso("2024-02-28T24:00:00"),
        Err(UtcError::InvalidTime)
    );
}

fn read_back(year: i64) -> Utc {
    Utc::new(year, 5, 6, 7, 8, 9, 500_000_000_000).unwrap()
}

#[test]
fn the_text_of_a_point_reads_back() {
    for subsecond in [0u64, 123_000_000_000, 999_000_000_000] {
        let utc = PyUtc::new(2031, 10, 9, 8, 7, 6, subsecond).unwrap();
        assert_eq!(PyUtc::from_iso(&utc.__str__()), Ok(utc));
    }
}
