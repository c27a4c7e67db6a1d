use core::time::Duration;
use std::collections::HashSet;

use utc_dt::{
    constants::{MICROS_PER_DAY, MILLIS_PER_DAY, NANOS_PER_DAY, NANOS_PER_SECOND, SECONDS_PER_DAY},
    time::{UTCDay, UTCTimeOfDay, UTCTimeOfDayError, UTCTimestamp, UTCTransformations},
    UTCError,
};

#[test]
fn test_utc_timestamp() -> Result<(), UTCError> {
    let test_cases = [
        (
            UTCTimestamp::from_nanos(0),
            UTCDay::zero(),
            UTCTimeOfDay::try_from_secs(0)?,
            4,
        ),
        (
            UTCTimestamp::from_nanos(123456789),
            UTCDay::zero(),
            UTCTimeOfDay::try_from_nanos(123456789)?,
            4,
        ),
        (
            UTCTimestamp::from_millis(1686756677000),
            UTCDay::try_from_u64(19522)?,
            UTCTimeOfDay::try_from_nanos(55_877_000_000_000)?,
            3,
        ),
        (
            UTCTimestamp::from_millis(1709220677000),
            UTCDay::try_from_u64(19782)?,
            UTCTimeOfDay::try_from_micros(55_877_000_000)?,
            4,
        ),
        (
            UTCTimestamp::from_millis(1677684677000),
            UTCDay::try_from_u64(19417)?,
            UTCTimeOfDay::try_from_millis(55_877_000)?,
            3,
        ),
        (
            UTCTimestamp::from_duration(Duration::MAX),
            UTCDay::max_value(),
            UTCTimeOfDay::try_from_nanos(25215 * NANOS_PER_SECOND + NANOS_PER_SECOND - 1)?,
            4,
        ),
    ];

    let mut hash_set: HashSet<UTCTimestamp> = HashSet::new();

    for (expected_timestamp, utc_days, tod, weekday) in test_cases {
        let timestamp = UTCTimestamp::from_day_and_tod(utc_days, tod);
        // test timestamp to/from components
        assert_eq!(timestamp, expected_timestamp);
        assert_eq!(UTCDay::from_timestamp(timestamp), utc_days);
        assert_eq!(timestamp.as_tod(), tod);
        assert_eq!(utc_days.as_weekday(), weekday);
        // test timestamp to/from days
        let timestamp_from_day = UTCTimestamp::from_day(utc_days);
        assert_eq!(timestamp_from_day.as_day(), utc_days);
        assert_eq!(timestamp_from_day.as_tod(), UTCTimeOfDay::zero());
        assert_eq!(timestamp_from_day, UTCTimestamp::from(utc_days));
        // test timestamp to/from durations
        let duration_from_timestamp = timestamp.to_duration();
        let timestamp_from_duration = UTCTimestamp::from_duration(duration_from_timestamp);
        assert_eq!(
            timestamp_from_duration,
            UTCTimestamp::from(duration_from_timestamp)
        );
        assert_eq!(timestamp_from_duration, expected_timestamp);
        assert_eq!(duration_from_timestamp, expected_timestamp.as_duration());
        // test unit conversions
        let secs_from_timestamp = expected_timestamp.as_secs();
        let millis_from_timestamp = expected_timestamp.as_millis() as u64;
        let micros_from_timestamp = expected_timestamp.as_micros() as u64;
        let nanos_from_timestamp = expected_timestamp.as_nanos() as u64;
        let timestamp_from_secs = UTCTimestamp::from_secs(secs_from_timestamp);
        let timestamp_from_millis = UTCTimestamp::from_millis(millis_from_timestamp);
        let timestamp_from_micros = UTCTimestamp::from_micros(micros_from_timestamp);
        let timestamp_from_nanos = UTCTimestamp::from_nanos(nanos_from_timestamp);
        assert!(timestamp_from_secs <= expected_timestamp);
        assert!(timestamp_from_millis <= expected_timestamp);
        assert!(timestamp_from_micros <= expected_timestamp);
        assert!(timestamp_from_nanos <= expected_timestamp);
        // test hashing
        hash_set.insert(expected_timestamp);
        assert!(hash_set.contains(&expected_timestamp));
        assert_eq!(
            &expected_timestamp,
            hash_set.get(&expected_timestamp).unwrap()
        );
    }

    // test from system time
    let timestamp = UTCTimestamp::try_from_system_time().unwrap();
    assert!(timestamp <= UTCTimestamp::max_value());
    assert!(timestamp >= UTCTimestamp::zero());
    // test debug
    println!("{:?}", timestamp);
    // test default, clone & copy, ord
    assert_eq!(UTCTimestamp::default().clone(), UTCTimestamp::zero());
    let timestamp_copy = timestamp;
    assert_eq!(timestamp_copy, timestamp);
    assert_eq!(UTCTimestamp::zero(), timestamp_copy.min(UTCTimestamp::zero()));
    assert_eq!(UTCTimestamp::max_value(), timestamp_copy.max(UTCTimestamp::max_value()));
    // test operation methods
    assert_eq!(timestamp.saturating_add(UTCTimestamp::zero()), timestamp);
    assert_eq!(
        timestamp.saturating_add(UTCTimestamp::max_value()),
        UTCTimestamp::max_value()
    );
    assert_eq!(timestamp.saturating_add_duration(Duration::ZERO), timestamp);
    assert_eq!(
        timestamp.saturating_add_duration(Duration::MAX),
        UTCTimestamp::max_value()
    );
    assert_eq!(timestamp.saturating_add_secs(0), timestamp);
    assert_eq!(timestamp.saturating_add_secs(u64::MAX), UTCTimestamp::max_value());
    assert_eq!(
        timestamp.saturating_add_millis(1000),
        timestamp.saturating_add_secs(1)
    );
    assert_eq!(
        timestamp.saturating_add_micros(1000),
        timestamp.saturating_add_millis(1)
    );
    assert_eq!(
        timestamp.saturating_add_nanos(1000),
        timestamp.saturating_add_micros(1)
    );
    assert_eq!(timestamp.saturating_sub(UTCTimestamp::zero()), timestamp);
    assert_eq!(
        timestamp.saturating_sub(UTCTimestamp::max_value()),
        UTCTimestamp::zero()
    );
    assert_eq!(timestamp.saturating_sub_duration(Duration::ZERO), timestamp);
    assert_eq!(
        timestamp.saturating_sub_duration(Duration::MAX),
        UTCTimestamp::zero()
    );
    assert_eq!(timestamp.saturating_sub_secs(0), timestamp);
    assert_eq!(timestamp.saturating_sub_secs(u64::MAX), UTCTimestamp::zero());
    assert_eq!(
        timestamp.saturating_sub_millis(1000),
        timestamp.saturating_sub_secs(1)
    );
    assert_eq!(
        timestamp.saturating_sub_micros(1000),
        timestamp.saturating_sub_millis(1)
    );
    assert_eq!(
        timestamp.saturating_sub_nanos(1000),
        timestamp.saturating_sub_micros(1)
    );
    assert_eq!(timestamp.saturating_mul(u32::MIN), UTCTimestamp::zero());
    assert_eq!(
        timestamp.saturating_mul(u32::MAX).saturating_mul(u32::MAX),
        UTCTimestamp::max_value()
    );
    assert_eq!(
        timestamp
            .checked_div(u32::MAX)
            .unwrap()
            .checked_div(u32::MAX),
        Some(UTCTimestamp::zero())
    );
    assert_eq!(timestamp.checked_div(u32::MIN), None);
    // test operation implementations
    let one = UTCTimestamp::from_nanos(1);
    let two = UTCTimestamp::from_nanos(2);
    let three = UTCTimestamp::from_nanos(3);
    let one_duration = Duration::from_nanos(1);
    assert_eq!(one + one, two);
    assert_eq!(one + one_duration, two);
    assert_eq!(two - one, one);
    assert_eq!(two - one_duration, one);
    assert_eq!(two * 1, two);
    assert_eq!(1 * two, two);
    assert_eq!(two / 2, one);
    let mut assign = UTCTimestamp::zero();
    assign = assign + one_duration;
    assign = assign + two;
    assert_eq!(assign, three);
    assign = assign - one;
    assign = assign - one_duration;
    assert_eq!(assign, one);
    assign = assign * 2;
    assert_eq!(assign, two);
    assign = assign / 2;
    assert_eq!(assign, one);
    Ok(())
}

#[test]
fn test_utc_day() -> Result<(), UTCError> {
    // test from system time
    let utc_day = UTCDay::try_from_system_time().unwrap();
    assert!(utc_day <= UTCDay::max_value());
    assert!(utc_day >= UTCDay::zero());
    // test debug
    println!("{:?} (days since epoch)", utc_day);
    // test from u64
    let u64_from_max = UTCDay::max_value().to_u64();
    let u64_invalid = u64_from_max + 1;
    assert!(UTCDay::try_from_u64(u64_from_max).is_ok());
    assert!(UTCDay::try_from(u64_invalid).is_err());
    // test from duration
    let duration_from_utc_day = utc_day.as_duration();
    let utc_day_from_duration = UTCDay::from_duration(duration_from_utc_day);
    assert_eq!(utc_day_from_duration, utc_day);
    assert_eq!(utc_day_from_duration, UTCDay::from(duration_from_utc_day));
    // test from timestamp
    let timestamp_from_utc_day = utc_day.as_timestamp();
    let utc_day_from_timestamp = UTCDay::from_timestamp(timestamp_from_utc_day);
    assert_eq!(utc_day_from_timestamp, utc_day);
    assert_eq!(utc_day_from_timestamp, UTCDay::from(timestamp_from_utc_day));
    // test unit conversions
    let secs_from_utc_day = utc_day.as_secs();
    let millis_from_utc_day = utc_day.as_millis() as u64;
    let micros_from_utc_day = utc_day.as_micros() as u64;
    let nanos_from_utc_day = utc_day.as_nanos() as u64;
    let utc_day_from_secs = UTCDay::from_secs(secs_from_utc_day);
    let utc_day_from_millis = UTCDay::from_millis(millis_from_utc_day);
    let utc_day_from_micros = UTCDay::from_micros(micros_from_utc_day);
    let utc_day_from_nanos = UTCDay::from_nanos(nanos_from_utc_day);
    assert_eq!(utc_day_from_secs, utc_day);
    assert!(utc_day_from_millis <= utc_day);
    assert!(utc_day_from_micros <= utc_day);
    assert!(utc_day_from_nanos <= utc_day);
    // test hashing
    let mut hash_set: HashSet<UTCDay> = HashSet::new();
    hash_set.insert(utc_day);
    assert!(hash_set.contains(&utc_day));
    assert_eq!(&utc_day, hash_set.get(&utc_day).unwrap());
    // test default, clone & copy, ord
    assert_eq!(UTCDay::default().clone(), UTCDay::zero());
    let utc_day_copy = utc_day;
    assert_eq!(utc_day_copy, utc_day);
    assert_eq!(UTCDay::zero(), utc_day_copy.min(UTCDay::zero()));
    assert_eq!(UTCDay::max_value(), utc_day_copy.max(UTCDay::max_value()));
    // test operation methods
    assert_eq!(utc_day.saturating_add(UTCDay::zero()), utc_day);
    assert_eq!(utc_day.saturating_add(UTCDay::max_value()), UTCDay::max_value());
    assert_eq!(
        utc_day.saturating_add(UTCDay::from_u64_unchecked(u64::MAX)),
        UTCDay::max_value()
    );
    assert_eq!(utc_day.saturating_add_u64(0), utc_day);
    assert_eq!(utc_day.saturating_add_u64(u64::MAX), UTCDay::max_value());
    assert_eq!(utc_day.saturating_sub(UTCDay::zero()), utc_day);
    assert_eq!(utc_day.saturating_sub(UTCDay::max_value()), UTCDay::zero());
    assert_eq!(utc_day.saturating_sub_u64(0), utc_day);
    assert_eq!(utc_day.saturating_sub_u64(u64::MAX), UTCDay::zero());
    assert_eq!(utc_day.saturating_mul(u64::MIN), UTCDay::zero());
    assert_eq!(utc_day.saturating_mul(u64::MAX), UTCDay::max_value());
    assert_eq!(utc_day.checked_div(u64::MAX), Some(UTCDay::zero()));
    assert_eq!(utc_day.checked_div(u64::MIN), None);
    // test operation implementations
    let one = UTCDay::try_from_u64(1)?;
    let two = UTCDay::try_from_u64(2)?;
    let three = UTCDay::try_from_u64(3)?;
    assert_eq!(one + one, two);
    assert_eq!(one + 1, two);
    assert_eq!(two - one, one);
    assert_eq!(two - 1, one);
    assert_eq!(two * 1, two);
    assert_eq!(1 * two, two);
    assert_eq!(two / 2, one);
    let mut assign = UTCDay::zero();
    assign = assign + 1;
    assign = assign + two;
    assert_eq!(assign, three);
    assign = assign - one;
    assign = assign - 1;
    assert_eq!(assign, one);
    assign = assign * 2;
    assert_eq!(assign, two);
    assign = assign / 2;
    assert_eq!(assign, one);
    Ok(())
}

#[test]
fn test_utc_tod() -> Result<(), UTCError> {
    // test from system time
    let timestamp = UTCTimestamp::try_from_system_time().unwrap();
    let tod_from_timestamp = UTCTimeOfDay::from_timestamp(timestamp);
    // test from hhmmss
    let (hrs, mins, secs) = tod_from_timestamp.as_hhmmss();
    let subsec_ns = tod_from_timestamp.as_subsec_ns();
    let tod_from_hhmmss = UTCTimeOfDay::try_from_hhmmss(hrs, mins, secs, subsec_ns)?;
    assert_eq!(tod_from_hhmmss, tod_from_timestamp);
    assert_eq!(
        UTCTimeOfDay::from_hhmmss_unchecked(hrs, mins, secs, subsec_ns),
        tod_from_timestamp
    );
    assert!(UTCTimeOfDay::try_from_hhmmss(25, mins, secs, subsec_ns).is_err());
    assert!(UTCTimeOfDay::try_from_hhmmss(24, 0, 0, 0).is_err());
    assert!(UTCTimeOfDay::try_from_hhmmss(23, 59, 59, (NANOS_PER_SECOND - 1) as u32).is_ok());
    assert!(UTCTimeOfDay::try_from_hhmmss(u8::MAX, u8::MAX, u8::MAX, u32::MAX).is_err());
    // test iso conversions
    {
        let iso_from_tod = tod_from_timestamp.as_iso_tod(9);
        let tod_from_iso = UTCTimeOfDay::try_from_iso_tod(&iso_from_tod)?;
        assert_eq!(tod_from_iso, tod_from_timestamp);
        assert_eq!(
            UTCTimeOfDay::try_from_iso_tod("T00:00:00Z")?,
            UTCTimeOfDay::zero()
        );
        assert_eq!(
            UTCTimeOfDay::try_from_iso_tod("T23:59:59.999999999Z")?,
            UTCTimeOfDay::max_value()
        );
        assert!(UTCTimeOfDay::try_from_iso_tod("Taa:59:59.999999999Z").is_err()); // invalid hour
        assert!(UTCTimeOfDay::try_from_iso_tod("T23:aa:59.999999999Z").is_err()); // invalid mins
        assert!(UTCTimeOfDay::try_from_iso_tod("T23:59:aa.999999999Z").is_err()); // invalid secs
        assert!(UTCTimeOfDay::try_from_iso_tod("T23:59:59.a99999999Z").is_err()); // invalid subsec
        assert!(UTCTimeOfDay::try_from_iso_tod("T23:59:59.9999999990Z").is_err());
        // invalid precision
    }
    // test buffer iso conversions
    let mut buf = vec![0u8; UTCTimeOfDay::iso_tod_len(9)];
    for precision in 0..13 {
        let written = tod_from_timestamp.write_iso_tod(&mut buf, precision)?;
        let iso_raw_str = core::str::from_utf8(&buf[..written]).unwrap();
        assert_eq!(iso_raw_str.len(), UTCTimeOfDay::iso_tod_len(precision));
        assert_eq!(tod_from_timestamp.as_iso_tod(precision), iso_raw_str);
        // test maybe-invalid buf len
        let mut buf = [0; 5];
        let result = tod_from_timestamp.write_iso_tod(&mut buf, precision);
        if buf.len() < UTCTimeOfDay::iso_tod_len(precision) {
            assert!(result.is_err())
        } else {
            assert!(result.is_ok())
        }
    }

    // test unit conversions
    let secs_from_tod = tod_from_timestamp.as_secs();
    let millis_from_tod = tod_from_timestamp.as_millis();
    let micros_from_tod = tod_from_timestamp.as_micros();
    let nanos_from_tod = tod_from_timestamp.as_nanos();
    let tod_from_secs = UTCTimeOfDay::try_from_secs(secs_from_tod)?;
    let tod_from_millis = UTCTimeOfDay::try_from_millis(millis_from_tod)?;
    let tod_from_micros = UTCTimeOfDay::try_from_micros(micros_from_tod)?;
    let tod_from_nanos = UTCTimeOfDay::try_from_nanos(nanos_from_tod)?;
    assert!(UTCTimeOfDay::try_from_secs(SECONDS_PER_DAY as u32).is_err());
    assert!(UTCTimeOfDay::try_from_millis(MILLIS_PER_DAY as u32).is_err());
    assert!(UTCTimeOfDay::try_from_micros(MICROS_PER_DAY).is_err());
    assert!(UTCTimeOfDay::try_from_nanos(NANOS_PER_DAY).is_err());
    assert!(tod_from_secs <= tod_from_timestamp);
    assert!(tod_from_millis <= tod_from_timestamp);
    assert!(tod_from_micros <= tod_from_timestamp);
    assert_eq!(tod_from_nanos, tod_from_timestamp);
    assert_eq!(nanos_from_tod, tod_from_nanos.to_nanos());
    // test debug, default, clone & copy, ord
    println!("{:?}:{}", tod_from_timestamp, tod_from_timestamp.as_iso_tod(9));
    assert_eq!(UTCTimeOfDay::default().clone(), UTCTimeOfDay::zero());
    let tod_copy = tod_from_timestamp;
    assert_eq!(tod_copy, tod_from_timestamp);
    assert_eq!(UTCTimeOfDay::zero(), tod_copy.min(UTCTimeOfDay::zero()));
    assert_eq!(UTCTimeOfDay::max_value(), tod_copy.max(UTCTimeOfDay::max_value()));
    // test hash
    let mut hash_set: HashSet<UTCTimeOfDay> = HashSet::new();
    hash_set.insert(tod_from_timestamp);
    assert!(hash_set.contains(&tod_from_timestamp));
    assert_eq!(
        &tod_from_timestamp,
        hash_set.get(&tod_from_timestamp).unwrap()
    );
    Ok(())
}

#[test]
fn timestamp_decomposition_extremes() {
    let ts = UTCTimestamp::from_day_and_tod(UTCDay::zero(), UTCTimeOfDay::zero());
    assert_eq!(ts, UTCTimestamp::zero());
    assert_eq!(ts.as_day(), UTCDay::zero());
    assert_eq!(ts.as_tod(), UTCTimeOfDay::zero());
    let day = UTCDay::try_from_u64(19523).unwrap();
    let tod = UTCTimeOfDay::try_from_hhmmss(10, 18, 8, 903_000_000).unwrap();
    let ts = UTCTimestamp::from_day_and_tod(day, tod);
    assert_eq!(ts.as_millis(), 1686824288903);
    assert_eq!(ts.as_day(), day);
    assert_eq!(ts.as_tod(), tod);
    // the last day keeps its day; its late times saturate the seconds
    let ts = UTCTimestamp::from_day_and_tod(UTCDay::max_value(), UTCTimeOfDay::max_value());
    assert_eq!(ts.as_day(), UTCDay::max_value());
    assert_eq!(ts, UTCTimestamp::max_value());
    assert_eq!(ts.as_tod().as_nanos(), 25_215_999_999_999);
}

#[test]
fn saturation_and_checked_bounds() {
    let max = UTCTimestamp::max_value();
    let zero = UTCTimestamp::zero();
    let one = UTCTimestamp::from_nanos(1);
    assert_eq!(max.saturating_add(one), max);
    assert_eq!(max.checked_add(one), None);
    assert_eq!(max.saturating_add_secs(7), max);
    assert_eq!(zero.saturating_sub(one), zero);
    assert_eq!(zero.checked_sub(one), None);
    assert_eq!(zero.checked_sub_duration(Duration::from_nanos(1)), None);
    assert_eq!(max.checked_mul(2), None);
    assert_eq!(max.checked_mul(1), Some(max));
    assert_eq!(max.checked_div(0), None);
    let day_max = UTCDay::max_value();
    let day_one = UTCDay::try_from_u64(1).unwrap();
    assert_eq!(day_max.saturating_add(day_one), day_max);
    assert_eq!(day_max.checked_add(day_one), None);
    assert_eq!(day_max.checked_add_u64(1), None);
    assert_eq!(UTCDay::zero().saturating_sub(day_one), UTCDay::zero());
    assert_eq!(UTCDay::zero().checked_sub(day_one), None);
    assert_eq!(UTCDay::zero().checked_sub_u64(1), None);
    assert_eq!(day_max.checked_mul(2), None);
    assert_eq!(day_max.saturating_mul(2), day_max);
    assert_eq!(day_one.checked_mul(7).unwrap().as_u64(), 7);
}

#[test]
fn timestamp_arithmetic_values() {
    let a = UTCTimestamp::from_millis(1500);
    let b = UTCTimestamp::from_micros(700_000);
    assert_eq!(a.checked_add(b).unwrap().as_nanos(), 2_200_000_000);
    assert_eq!(a.checked_sub(b).unwrap().as_nanos(), 800_000_000);
    assert_eq!(a.checked_mul(3).unwrap().as_nanos(), 4_500_000_000);
    assert_eq!(a.checked_div(4).unwrap().as_nanos(), 375_000_000);
    assert_eq!(UTCTimestamp::from_nanos(10).checked_div(3).unwrap().as_nanos(), 3);
    assert_eq!(a.as_secs(), 1);
    assert_eq!(a.as_millis(), 1500);
    assert_eq!(a.as_micros(), 1_500_000);
    let d = a.as_duration();
    assert_eq!(d, Duration::new(1, 500_000_000));
    assert_eq!(UTCTimestamp::from_duration(Duration::new(3, 7)).as_nanos(), 3_000_000_007);
    assert_eq!(UTCTimestamp::max_value().as_duration(), Duration::MAX);
}

#[test]
fn time_of_day_parts() {
    let tod = UTCTimeOfDay::try_from_hhmmss(23, 59, 59, 999_999_999).unwrap();
    assert_eq!(tod, UTCTimeOfDay::max_value());
    assert!(matches!(
        UTCTimeOfDay::try_from_hhmmss(24, 0, 0, 0),
        Err(UTCTimeOfDayError::ExcessNanos(86_400_000_000_000))
    ));
    let tod = UTCTimeOfDay::try_from_hhmmss(10, 18, 8, 903_000_000).unwrap();
    assert_eq!(tod.as_hhmmss(), (10, 18, 8));
    assert_eq!(tod.as_subsec_ns(), 903_000_000);
    assert_eq!(tod.as_millis(), 37_088_903);
    assert_eq!(tod.as_secs(), 37_088);
    assert_eq!(tod.as_micros(), 37_088_903_000);
    assert_eq!(UTCTimeOfDay::try_from_millis(37_088_903).unwrap(), tod);
    assert_eq!(UTCTimeOfDay::from_millis_unchecked(37_088_903), tod);
    assert_eq!(UTCTimeOfDay::from_micros_unchecked(37_088_903_000), tod);
    assert_eq!(UTCTimeOfDay::from_secs_unchecked(37_088).as_nanos(), 37_088_000_000_000);
    assert_eq!(UTCTimeOfDay::from_nanos_unchecked(5).to_nanos(), 5);
    // one part may exceed its usual range while the total stays within a day
    assert_eq!(
        UTCTimeOfDay::try_from_hhmmss(0, 61, 0, 0).unwrap().as_hhmmss(),
        (1, 1, 0)
    );
    assert!(matches!(
        UTCTimeOfDay::try_from_micros(MICROS_PER_DAY),
        Err(UTCTimeOfDayError::ExcessMicros(_))
    ));
    assert!(matches!(
        UTCTimeOfDay::try_from_millis(MILLIS_PER_DAY as u32),
        Err(UTCTimeOfDayError::ExcessMillis(_))
    ));
    assert!(matches!(
        UTCTimeOfDay::try_from_secs(SECONDS_PER_DAY as u32),
        Err(UTCTimeOfDayError::ExcessSeconds(86_400))
    ));
    assert!(matches!(
        UTCTimeOfDay::try_from_micros(u64::MAX),
        Err(UTCTimeOfDayError::ExcessMicros(u64::MAX))
    ));
}

#[test]
fn iso_tod_text_and_errors() {
    let tod = UTCTimeOfDay::try_from_hhmmss(10, 18, 8, 903_000_000).unwrap();
    assert_eq!(tod.as_iso_tod(0), "T10:18:08Z");
    assert_eq!(tod.as_iso_tod(1), "T10:18:08.9Z");
    assert_eq!(tod.as_iso_tod(3), "T10:18:08.903Z");
    assert_eq!(tod.as_iso_tod(6), "T10:18:08.903000Z");
    assert_eq!(tod.as_iso_tod(9), "T10:18:08.903000000Z");
    assert_eq!(tod.as_iso_tod(12), "T10:18:08.903000000Z");
    assert_eq!(UTCTimeOfDay::iso_tod_len(0), 10);
    assert_eq!(UTCTimeOfDay::iso_tod_len(3), 14);
    assert_eq!(UTCTimeOfDay::iso_tod_len(9), 20);
    assert_eq!(UTCTimeOfDay::iso_tod_len(100), 20);
    // truncation, not rounding
    let late = UTCTimeOfDay::try_from_hhmmss(0, 0, 0, 999_999_999).unwrap();
    assert_eq!(late.as_iso_tod(2), "T00:00:00.99Z");
    // parsing at every precision gives the value back where the digits keep it
    for precision in 0..=9 {
        let text = tod.as_iso_tod(precision);
        let parsed = UTCTimeOfDay::try_from_iso_tod(&text).unwrap();
        if precision == 0 {
            assert_eq!(parsed.as_nanos(), 37_088_000_000_000);
        } else if precision < 3 {
            assert_eq!(parsed.as_nanos(), 37_088_900_000_000);
        } else {
            assert_eq!(parsed, tod);
        }
    }
    assert_eq!(UTCTimeOfDay::try_from_iso_tod("T10:18:08.Z").unwrap().as_subsec_ns(), 0);
    assert_eq!(UTCTimeOfDay::try_from_iso_tod("T10:18:08.5Z").unwrap().as_subsec_ns(), 500_000_000);
    assert!(matches!(
        UTCTimeOfDay::try_from_iso_tod("T10:18:08"),
        Err(UTCTimeOfDayError::InsufficientStrLen(9, 10))
    ));
    assert!(matches!(
        UTCTimeOfDay::try_from_iso_tod("T10:18:08.0123456789Z"),
        Err(UTCTimeOfDayError::ExcessPrecision(10))
    ));
    assert!(matches!(
        UTCTimeOfDay::try_from_iso_tod("T1x:18:08Z"),
        Err(UTCTimeOfDayError::ParseErr(_))
    ));
    assert!(matches!(
        UTCTimeOfDay::try_from_iso_tod("T24:00:00Z"),
        Err(UTCTimeOfDayError::ExcessNanos(_))
    ));
    assert!(matches!(
        UTCTimeOfDay::try_from_iso_tod("Té0:00:00Z"),
        Err(UTCTimeOfDayError::InvalidSeparator(3))
    ));
    assert!(matches!(
        UTCTimeOfDay::try_from_iso_tod("T+1:00:00Z"),
        Err(UTCTimeOfDayError::ParseErr(_))
    ));
    assert!(matches!(
        UTCTimeOfDay::try_from_iso_tod("T01:00:00.+12Z"),
        Err(UTCTimeOfDayError::ParseErr(_))
    ));
    assert!(matches!(
        UTCTimeOfDay::try_from_iso_tod("X10:18:08Z"),
        Err(UTCTimeOfDayError::InvalidSeparator(0))
    ));
    assert!(matches!(
        UTCTimeOfDay::try_from_iso_tod("T10-18:08Z"),
        Err(UTCTimeOfDayError::InvalidSeparator(3))
    ));
    assert!(matches!(
        UTCTimeOfDay::try_from_iso_tod("T10:18-08Z"),
        Err(UTCTimeOfDayError::InvalidSeparator(6))
    ));
    assert!(matches!(
        UTCTimeOfDay::try_from_iso_tod("T10:18:08,5Z"),
        Err(UTCTimeOfDayError::InvalidSeparator(9))
    ));
    assert!(matches!(
        UTCTimeOfDay::try_from_iso_tod("T10:18:08Q"),
        Err(UTCTimeOfDayError::InvalidSeparator(9))
    ));
    assert!(matches!(
        UTCTimeOfDay::try_from_iso_tod("Taa:59:59.999999999Z"),
        Err(UTCTimeOfDayError::ParseErr(_))
    ));
    assert!(matches!(
        UTCTimeOfDay::try_from_iso_tod("T23:59:59.a99999999Z"),
        Err(UTCTimeOfDayError::ParseErr(_))
    ));
    assert_eq!(UTCTimeOfDay::try_from_iso_tod("T00:00:00.Z").unwrap(), UTCTimeOfDay::zero());
    let mut buf = [0u8; 13];
    assert!(matches!(
        tod.write_iso_tod(&mut buf, 3),
        Err(UTCTimeOfDayError::InsufficientStrLen(13, 14))
    ));
    let mut buf = [b'#'; 16];
    assert_eq!(tod.write_iso_tod(&mut buf, 3).unwrap(), 14);
    assert_eq!(&buf, b"T10:18:08.903Z##");
}

#[test]
fn day_conversions() {
    let day = UTCDay::from_millis(1686824288903);
    assert_eq!(day.as_u64(), 19523);
    assert_eq!(day.as_secs(), 19523 * 86400);
    assert_eq!(day.as_millis(), 19523 * 86_400_000);
    assert_eq!(day.as_micros(), 19523 * 86_400_000_000);
    assert_eq!(day.as_nanos(), 19523 * 86_400_000_000_000);
    assert_eq!(UTCDay::from_secs(u64::MAX), UTCDay::max_value());
    assert_eq!(UTCDay::from_nanos(86_399_999_999_999), UTCDay::zero());
    assert_eq!(UTCDay::from_micros(86_400_000_000).as_u64(), 1);
    assert_eq!(day.as_weekday(), 4);
}

#[test]
fn operators_match_checked_arithmetic() {
    let day = UTCDay::try_from_u64(19523).unwrap();
    assert_eq!((day + 7).as_u64(), 19530);
    assert_eq!((day - 23).as_u64(), 19500);
    assert_eq!((day * 2).as_u64(), 39046);
    assert_eq!((2 * day).as_u64(), 39046);
    assert_eq!((day / 10).as_u64(), 1952);
    assert!(matches!(UTCDay::try_from(213_503_982_334_602u64), Err(e) if e.0 == 213_503_982_334_602));
    let ts = UTCTimestamp::from_millis(1500);
    assert_eq!((ts + ts).as_nanos(), 3_000_000_000);
    assert_eq!((ts - Duration::from_millis(600)).as_nanos(), 900_000_000);
    assert_eq!((ts * 3).as_nanos(), 4_500_000_000);
    assert_eq!((3 * ts).as_nanos(), 4_500_000_000);
    assert_eq!((ts / 4).as_nanos(), 375_000_000);
    assert_eq!(UTCTimestamp::from(Duration::new(2, 5)).as_nanos(), 2_000_000_005);
    assert_eq!(UTCTimestamp::from(day), UTCTimestamp::from_day(day));
    assert_eq!(UTCDay::from(Duration::from_secs(86_400 * 3 + 5)).as_u64(), 3);
}

