use std::collections::HashSet;

use utc_dt::{
    constants::{MICROS_PER_DAY, MILLIS_PER_DAY, NANOS_PER_DAY, SECONDS_PER_DAY},
    date::{UTCDate, UTCDateError},
    time::{UTCDay, UTCTimestamp, UTCTransformations},
    UTCError,
};

#[test]
fn test_date_from_components() {
    let test_cases = [
        (2023, 6, 14, true, false, 30),               // valid recent date
        (1970, 1, 1, true, false, 31),                // valid epoch date
        (2024, 2, 29, true, true, 29),                // valid leap day
        (2024, 3, 1, true, true, 31),                 // valid leap year
        (1969, 12, 31, false, false, 31),             // invalid before epoch
        (2023, 2, 29, false, false, 28),              // invalid date
        (2023, 0, 10, false, false, 0),               // invalid date, month out of range
        (2023, 13, 10, false, false, 0),              // invalid date, month out of range
        (2023, 9, 31, false, false, 30),              // invalid date, day out of range
        (2023, 9, 0, false, false, 30),               // invalid date, day out of range
        (UTCDate::MAX_YEAR, 11, 09, true, false, 30), // valid max date
        (UTCDate::MAX_YEAR, 12, 31, false, false, 0), // invalid max date
        (UTCDate::MAX_YEAR, u8::MAX, u8::MAX, false, false, 0), // invalid max date
    ];

    for (year, month, day, case_is_valid, is_leap_year, days_in_month) in test_cases {
        match UTCDate::try_from_components(year, month, day) {
            Ok(date) => {
                assert!(case_is_valid);
                assert_eq!(is_leap_year, date.is_leap_year());
                assert_eq!(days_in_month, date.days_in_month());
            }
            Err(_) => {
                assert!(!case_is_valid);
            }
        }
    }
}

#[test]
fn test_date_from_day() -> Result<(), UTCError> {
    let test_cases = [
        (UTCDay::zero(), 1970, 1, 1),
        (UTCDay::try_from_u64(30)?, 1970, 1, 31),
        (UTCDay::try_from_u64(19522)?, 2023, 6, 14),
        (UTCDay::try_from_u64(381112)?, 3013, 6, 14),
        (UTCDay::max_value(), UTCDate::MAX_YEAR, 11, 09),
    ];

    for (utc_day, year, month, day) in test_cases {
        let date_from_day = UTCDate::from_day(utc_day);
        let date_from_comp = UTCDate::try_from_components(year, month, day)?;
        let day_from_date = date_from_comp.as_day();
        assert_eq!(date_from_day, date_from_comp);
        assert_eq!(utc_day, day_from_date);
        assert_eq!((year, month, day), date_from_comp.as_components());
        assert_eq!((year, month, day), date_from_comp.to_components());
    }

    Ok(())
}

#[test]
fn test_date_iso_conversions() -> Result<(), UTCError> {
    let test_cases = [
        (2023, 6, 14, true, "2023-06-14"),   // valid recent date
        (1970, 1, 1, true, "1970-01-01"),    // valid epoch date
        (2024, 2, 29, true, "2024-02-29"),   // valid leap day
        (2000, 2, 29, true, "2000-02-29"),   // valid leap day
        (1969, 12, 31, false, "1969-12-31"), // invalid before epoch
        (2023, 2, 29, false, "2023-02-29"),  // invalid date
        (2023, 0, 10, false, "2023-00-10"),  // invalid date, month out of range
        (2023, 13, 10, false, "2023-13-10"), // invalid date, month out of range
        (2023, 9, 31, false, "2023-09-31"),  // invalid date, day out of range
        (2023, 9, 0, false, "2023-09-00"),   // invalid date, day out of range
        (2023, 9, 0, false, "202a-09-00"),   // invalid date, year not integer
        (2023, 9, 0, false, "2023-0a-00"),   // invalid date, month not integer
        (2023, 9, 0, false, "2023-09-0a"),   // invalid date, day not integer
    ];
    let mut buf = [0; UTCDate::ISO_DATE_LEN];

    for (year, month, day, case_is_valid, iso_date) in test_cases {
        match UTCDate::try_from_iso_date(iso_date) {
            Ok(date_from_iso) => {
                assert!(case_is_valid);
                let date_from_comp = UTCDate::try_from_components(year, month, day)?;
                assert_eq!(date_from_comp, date_from_iso);
                assert_eq!(iso_date, date_from_comp.as_iso_date());
                let written = date_from_comp.write_iso_date(&mut buf)?;
                assert_eq!(iso_date.as_bytes(), &buf[..written]);
                assert_eq!(iso_date, core::str::from_utf8(&buf[..written]).unwrap());
                // test invalid buf len
                let mut buf = [0; 1];
                assert!(date_from_comp.write_iso_date(&mut buf).is_err());
            }
            Err(_) => {
                assert!(!case_is_valid);
            }
        }
    }

    // test transform from system time
    {
        let date_from_system_time = UTCDate::try_from_system_time().unwrap();
        assert!(date_from_system_time >= UTCDate::min_value());
        assert!(date_from_system_time <= UTCDate::max_value());
        // test debug
        println!("{:?}:{}", date_from_system_time, date_from_system_time.as_iso_date());
        // test default, clone & copy, ord
        assert_eq!(UTCDate::default().clone(), UTCDate::min_value());
        let date_copy = date_from_system_time;
        assert_eq!(date_copy, date_from_system_time);
        assert_eq!(UTCDate::min_value(), date_copy.min(UTCDate::min_value()));
        assert_eq!(UTCDate::max_value(), date_copy.max(UTCDate::max_value()));
        // test limits
        assert_eq!(UTCDate::from_day(UTCDay::max_value()), UTCDate::max_value());
        assert_eq!(UTCDate::from_day(UTCDay::zero()), UTCDate::min_value());
    }
    Ok(())
}

#[test]
fn test_date_transformations() -> Result<(), UTCError> {
    let test_cases = [
        (UTCTimestamp::from_secs(0), 1970, 1, 1),
        (UTCTimestamp::from_secs(2592000), 1970, 1, 31),
        (UTCTimestamp::from_secs(1686700800), 2023, 6, 14),
        (UTCTimestamp::from_secs(32928076800), 3013, 6, 14),
        (UTCTimestamp::from_secs(371085174288000), 11761191, 1, 20),
        (
            UTCTimestamp::from_secs(u64::MAX - u64::MAX % SECONDS_PER_DAY),
            584554051223,
            11,
            9,
        ),
    ];

    let mut hash_set: HashSet<UTCDate> = HashSet::new();

    for (timestamp, year, month, day) in test_cases {
        let date_from_components = UTCDate::try_from_components(year, month, day)?;
        // test transformations to/from durations
        let duration_from_date = date_from_components.as_duration();
        let date_from_duration = UTCDate::from_duration(timestamp.as_duration());
        assert_eq!(date_from_duration, date_from_components);
        assert_eq!(timestamp.as_duration(), duration_from_date);
        // test transformations to/from timestamps
        let timestamp_from_date = date_from_components.as_timestamp();
        let date_from_timestamp = UTCDate::from_timestamp(timestamp);
        assert_eq!(date_from_timestamp, date_from_components);
        assert_eq!(timestamp, timestamp_from_date);
        // test From implementations
        let date_from_duration = UTCDate::from(timestamp.as_duration());
        assert_eq!(date_from_components, date_from_duration);
        let date_from_timestamp = UTCDate::from(timestamp);
        assert_eq!(date_from_components, date_from_timestamp);
        let day = timestamp.as_day();
        let date_from_day = UTCDate::from(day);
        assert_eq!(date_from_components, date_from_day);
        // test unit conversions
        let secs = timestamp.as_secs();
        let millis = timestamp.as_millis() as u64;
        let micros = timestamp.as_micros() as u64;
        let nanos = timestamp.as_nanos() as u64;
        let date_from_secs = UTCDate::from_secs(secs);
        let date_from_millis = UTCDate::from_millis(millis);
        let date_from_micros = UTCDate::from_micros(micros);
        let date_from_nanos = UTCDate::from_nanos(nanos);
        assert_eq!(date_from_components, date_from_secs);
        let secs_from_date = date_from_secs.as_secs();
        let millis_from_date = date_from_millis.as_millis() as u64;
        let micros_from_date = date_from_micros.as_micros() as u64;
        let nanos_from_date = date_from_nanos.as_nanos() as u64;
        assert!(secs - secs_from_date < SECONDS_PER_DAY);
        assert!(millis - millis_from_date < MILLIS_PER_DAY);
        assert!(micros - micros_from_date < MICROS_PER_DAY);
        assert!(nanos - nanos_from_date < NANOS_PER_DAY);
        // test hashing
        hash_set.insert(date_from_components);
        assert!(hash_set.contains(&date_from_components));
        assert_eq!(
            &date_from_components,
            hash_set.get(&date_from_components).unwrap()
        );
    }

    Ok(())
}

#[test]
fn epoch_is_day_zero_and_a_thursday() {
    let epoch = UTCDate::try_from_components(1970, 1, 1).unwrap();
    assert_eq!(epoch.as_day().as_u64(), 0);
    assert_eq!(UTCDate::from_day(UTCDay::zero()), epoch);
    assert_eq!(UTCDay::zero().as_weekday(), 4);
    assert_eq!(UTCDay::try_from_u64(3).unwrap().as_weekday(), 0);
    assert_eq!(UTCDay::try_from_u64(9).unwrap().as_weekday(), 6);
}

#[test]
fn leap_years() {
    let feb_2024 = UTCDate::try_from_components(2024, 2, 1).unwrap();
    assert!(feb_2024.is_leap_year());
    assert_eq!(feb_2024.days_in_month(), 29);
    let feb_2023 = UTCDate::try_from_components(2023, 2, 1).unwrap();
    assert!(!feb_2023.is_leap_year());
    assert_eq!(feb_2023.days_in_month(), 28);
    let feb_2000 = UTCDate::try_from_components(2000, 2, 1).unwrap();
    assert!(feb_2000.is_leap_year());
    assert_eq!(feb_2000.days_in_month(), 29);
    // 2100 is a century year not divisible by 400, as 1900 was
    let feb_2100 = UTCDate::try_from_components(2100, 2, 1).unwrap();
    assert!(!feb_2100.is_leap_year());
    assert_eq!(feb_2100.days_in_month(), 28);
    assert!(UTCDate::try_from_components(2100, 2, 29).is_err());
    // January and December of a leap year
    assert!(UTCDate::try_from_components(2024, 1, 31).unwrap().is_leap_year());
    assert!(UTCDate::try_from_components(2024, 12, 31).unwrap().is_leap_year());
    assert!(!UTCDate::try_from_components(2025, 1, 1).unwrap().is_leap_year());
}

#[test]
fn leap_day_construction() {
    let date = UTCDate::try_from_components(2024, 2, 29).unwrap();
    assert_eq!(date.as_components(), (2024, 2, 29));
    assert!(matches!(
        UTCDate::try_from_components(2023, 2, 29),
        Err(UTCDateError::DayOutOfRange(2023, 2, 29))
    ));
}

#[test]
fn iso_date_scenario() {
    let date = UTCDate::try_from_components(2023, 6, 15).unwrap();
    assert_eq!(UTCDate::try_from_iso_date("2023-06-15").unwrap(), date);
    assert_eq!(date.as_iso_date(), "2023-06-15");
}

#[test]
fn maximum_day_and_date() {
    let max = UTCDate::from_day(UTCDay::max_value());
    assert_eq!(max.as_components(), (584554051223, 11, 9));
    assert_eq!(UTCDay::max_value().as_u64(), 213503982334601);
    assert!(UTCDay::try_from_u64(213503982334602).is_err());
    assert!(matches!(
        UTCDate::try_from_components(584554051223, 12, 31),
        Err(UTCDateError::DateOutOfRange(584554051223, 12, 31))
    ));
    assert!(matches!(
        UTCDate::try_from_components(584554051223, 11, 10),
        Err(UTCDateError::DateOutOfRange(584554051223, 11, 10))
    ));
    assert_eq!(max.as_day(), UTCDay::max_value());
}

#[test]
fn date_day_round_trip_samples() {
    for n in [0u64, 1, 58, 59, 60, 365, 10956, 11016, 11017, 47540, 2932896, 213503982334600] {
        let day = UTCDay::try_from_u64(n).unwrap();
        assert_eq!(UTCDate::from_day(day).as_day(), day);
    }
    for (y, m, d) in [(1970, 3, 1), (2000, 2, 29), (2000, 3, 1), (2100, 3, 1), (2400, 2, 29), (9999, 12, 31)] {
        let date = UTCDate::try_from_components(y, m, d).unwrap();
        assert_eq!(UTCDate::from_day(date.as_day()), date);
        assert_eq!(date.as_components(), (y, m, d));
    }
    assert_eq!(
        UTCDate::try_from_components(2000, 3, 1).unwrap().as_day().as_u64(),
        11017
    );
}

#[test]
fn date_error_variants() {
    assert!(matches!(
        UTCDate::try_from_components(1969, 12, 31),
        Err(UTCDateError::YearOutOfRange(1969))
    ));
    assert!(matches!(
        UTCDate::try_from_components(584554051224, 1, 1),
        Err(UTCDateError::YearOutOfRange(584554051224))
    ));
    assert!(matches!(
        UTCDate::try_from_components(2023, 13, 1),
        Err(UTCDateError::MonthOutOfRange(13))
    ));
    assert!(matches!(
        UTCDate::try_from_components(2023, 9, 0),
        Err(UTCDateError::DayOutOfRange(2023, 9, 0))
    ));
    assert!(matches!(
        UTCDate::try_from_iso_date("2023-06-1"),
        Err(UTCDateError::InvalidStrLen(9))
    ));
    assert!(matches!(
        UTCDate::try_from_iso_date("2023/06/15x"),
        Err(UTCDateError::InvalidStrLen(11))
    ));
    assert!(matches!(
        UTCDate::try_from_iso_date("2023-0x-15"),
        Err(UTCDateError::ParseErr(_))
    ));
    // a multi-byte character in a field or in place of a hyphen
    assert!(matches!(
        UTCDate::try_from_iso_date("20é-06-15"),
        Err(UTCDateError::ParseErr(_))
    ));
    assert!(matches!(
        UTCDate::try_from_iso_date("202é06-15"),
        Err(UTCDateError::InvalidSeparator(4))
    ));
    let mut short = [7u8; 9];
    assert!(matches!(
        UTCDate::min_value().write_iso_date(&mut short),
        Err(UTCDateError::InvalidStrLen(9))
    ));
    assert_eq!(short, [7u8; 9]);
}

#[test]
fn iso_date_grammar_is_strict() {
    assert!(matches!(
        UTCDate::try_from_iso_date("2023x06-15"),
        Err(UTCDateError::InvalidSeparator(4))
    ));
    assert!(matches!(
        UTCDate::try_from_iso_date("2023-06y15"),
        Err(UTCDateError::InvalidSeparator(7))
    ));
    // a sign is no digit, though std's integer parsing would take it
    assert!(matches!(
        UTCDate::try_from_iso_date("2023-+6-15"),
        Err(UTCDateError::ParseErr(_))
    ));
    assert!(matches!(
        UTCDate::try_from_iso_date("+023-06-15"),
        Err(UTCDateError::ParseErr(_))
    ));
    assert!(matches!(
        UTCDate::try_from_iso_date("1969-12-31"),
        Err(UTCDateError::YearOutOfRange(1969))
    ));
    assert!(matches!(
        UTCDate::try_from_iso_date("2023-02-29"),
        Err(UTCDateError::DayOutOfRange(2023, 2, 29))
    ));
}

#[test]
fn iso_date_write_keeps_rest_of_buffer() {
    let date = UTCDate::try_from_components(1999, 12, 31).unwrap();
    let mut buf = [b'#'; 12];
    assert_eq!(date.write_iso_date(&mut buf).unwrap(), 10);
    assert_eq!(&buf, b"1999-12-31##");
    // a year beyond 9999 is written with all its digits, in both forms
    let max = UTCDate::max_value();
    assert_eq!(max.as_iso_date(), "584554051223-11-09");
    let mut buf = [0u8; 10];
    assert!(matches!(
        max.write_iso_date(&mut buf),
        Err(UTCDateError::InvalidStrLen(10))
    ));
    let mut buf = [0u8; 18];
    assert_eq!(max.write_iso_date(&mut buf).unwrap(), 18);
    assert_eq!(&buf, b"584554051223-11-09");
}

#[test]
fn date_from_day_scenarios() {
    let date = UTCDate::from_day(UTCDay::try_from_u64(19523).unwrap());
    assert_eq!(date.as_components(), (2023, 6, 15));
    assert_eq!(date.as_iso_date(), "2023-06-15");
    assert_eq!(UTCDate::from_millis(1686824288903).as_components(), (2023, 6, 15));
    assert_eq!(UTCDate::from_nanos(u64::MAX).as_components(), (2554, 7, 21));
}
