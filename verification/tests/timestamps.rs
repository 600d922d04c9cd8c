use temporal_functions::{timestamp, DataType, ExtractionError, Series, TemporalFunction, TimeUnit};

fn ints(values: Vec<Option<i64>>) -> Series {
    Series::new(DataType::Int64, values)
}

#[test]
fn timestamp_of_a_date_is_its_midnight() {
    let column = Series::new(DataType::Date, vec![Some(1), None, Some(-1), Some(0), Some(18_701)]);
    assert_eq!(
        timestamp(&column, TimeUnit::Milliseconds),
        Ok(ints(vec![Some(86_400_000), None, Some(-86_400_000), Some(0), Some(1_615_766_400_000)]))
    );
    assert_eq!(
        timestamp(&column, TimeUnit::Microseconds),
        Ok(ints(vec![
            Some(86_400_000_000),
            None,
            Some(-86_400_000_000),
            Some(0),
            Some(1_615_766_400_000_000)
        ]))
    );
    assert_eq!(
        timestamp(&column, TimeUnit::Nanoseconds),
        Ok(ints(vec![
            Some(86_400_000_000_000),
            None,
            Some(-86_400_000_000_000),
            Some(0),
            Some(1_615_766_400_000_000_000)
        ]))
    );
}

#[test]
fn timestamp_in_the_same_unit_is_unchanged() {
    let cells = vec![Some(i64::MAX), Some(i64::MIN), None, Some(-1), Some(42)];
    for unit in [TimeUnit::Nanoseconds, TimeUnit::Microseconds, TimeUnit::Milliseconds] {
        let column = Series::new(DataType::Datetime(unit), cells.clone());
        assert_eq!(timestamp(&column, unit), Ok(ints(cells.clone())));
    }
}

#[test]
fn timestamp_in_a_finer_unit_multiplies() {
    let millis = Series::new(
        DataType::Datetime(TimeUnit::Milliseconds),
        vec![Some(1_600_000_000_123), None, Some(-1)],
    );
    assert_eq!(
        timestamp(&millis, TimeUnit::Microseconds),
        Ok(ints(vec![Some(1_600_000_000_123_000), None, Some(-1_000)]))
    );
    assert_eq!(
        timestamp(&millis, TimeUnit::Nanoseconds),
        Ok(ints(vec![Some(1_600_000_000_123_000_000), None, Some(-1_000_000)]))
    );
    let micros = Series::new(DataType::Datetime(TimeUnit::Microseconds), vec![Some(7), Some(-7)]);
    assert_eq!(
        timestamp(&micros, TimeUnit::Nanoseconds),
        Ok(ints(vec![Some(7_000), Some(-7_000)]))
    );
}

#[test]
fn timestamp_in_a_coarser_unit_rounds_towards_earlier_times() {
    let nanos = Series::new(
        DataType::Datetime(TimeUnit::Nanoseconds),
        vec![Some(1_999_999), Some(-1), None, Some(-1_000_000), Some(-1_000_001), Some(0)],
    );
    assert_eq!(
        timestamp(&nanos, TimeUnit::Milliseconds),
        Ok(ints(vec![Some(1), Some(-1), None, Some(-1), Some(-2), Some(0)]))
    );
    assert_eq!(
        timestamp(&nanos, TimeUnit::Microseconds),
        Ok(ints(vec![Some(1_999), Some(-1), None, Some(-1_000), Some(-1_001), Some(0)]))
    );
    let micros = Series::new(
        DataType::Datetime(TimeUnit::Microseconds),
        vec![Some(1_999), Some(-1), Some(i64::MIN), Some(i64::MAX)],
    );
    assert_eq!(
        timestamp(&micros, TimeUnit::Milliseconds),
        Ok(ints(vec![
            Some(1),
            Some(-1),
            Some(-9_223_372_036_854_776),
            Some(9_223_372_036_854_775)
        ]))
    );
}

#[test]
fn timestamp_that_does_not_fit_is_an_error() {
    let millis = Series::new(
        DataType::Datetime(TimeUnit::Milliseconds),
        vec![Some(1), None, Some(i64::MAX)],
    );
    assert_eq!(timestamp(&millis, TimeUnit::Nanoseconds), Err(ExtractionError::Overflow));
    assert_eq!(timestamp(&millis, TimeUnit::Microseconds), Err(ExtractionError::Overflow));
    assert_eq!(
        TemporalFunction::TimeStamp(TimeUnit::Nanoseconds).apply(&millis),
        Err(ExtractionError::Overflow)
    );
    assert!(timestamp(&millis, TimeUnit::Milliseconds).is_ok());

    // the year 2517 is past what nanoseconds in 64 bits can name
    let dates = Series::new(DataType::Date, vec![Some(0), Some(200_000)]);
    assert_eq!(timestamp(&dates, TimeUnit::Nanoseconds), Err(ExtractionError::Overflow));
    assert_eq!(
        timestamp(&dates, TimeUnit::Microseconds),
        Ok(ints(vec![Some(0), Some(17_280_000_000_000_000)]))
    );
}

#[test]
fn timestamp_at_the_edge_of_64_bits() {
    // 9_223_372_036_854 ms * 1_000_000 fits, one more does not
    let fits = Series::new(
        DataType::Datetime(TimeUnit::Milliseconds),
        vec![Some(9_223_372_036_854), Some(-9_223_372_036_854)],
    );
    assert_eq!(
        timestamp(&fits, TimeUnit::Nanoseconds),
        Ok(ints(vec![Some(9_223_372_036_854_000_000), Some(-9_223_372_036_854_000_000)]))
    );
    let above = Series::new(DataType::Datetime(TimeUnit::Milliseconds), vec![Some(9_223_372_036_855)]);
    assert_eq!(timestamp(&above, TimeUnit::Nanoseconds), Err(ExtractionError::Overflow));
    let below = Series::new(DataType::Datetime(TimeUnit::Milliseconds), vec![Some(-9_223_372_036_855)]);
    assert_eq!(timestamp(&below, TimeUnit::Nanoseconds), Err(ExtractionError::Overflow));

    // 106_751 days in nanoseconds fit, 106_752 do not
    let last = Series::new(DataType::Date, vec![Some(106_751), Some(-106_751)]);
    assert_eq!(
        timestamp(&last, TimeUnit::Nanoseconds),
        Ok(ints(vec![Some(9_223_286_400_000_000_000), Some(-9_223_286_400_000_000_000)]))
    );
    let past = Series::new(DataType::Date, vec![Some(106_752)]);
    assert_eq!(timestamp(&past, TimeUnit::Nanoseconds), Err(ExtractionError::Overflow));
}

#[test]
fn time_unit_splits_a_timestamp() {
    assert_eq!(TimeUnit::Milliseconds.day(1_600_000_000_123), 18_518);
    assert_eq!(TimeUnit::Milliseconds.nanos_of_day(1_600_000_000_123), 44_800_123_000_000);
    assert_eq!(TimeUnit::Milliseconds.day(-1), -1);
    assert_eq!(TimeUnit::Milliseconds.nanos_of_day(-1), 86_399_999_000_000);
    assert_eq!(TimeUnit::Microseconds.day(86_400_000_000), 1);
    assert_eq!(TimeUnit::Microseconds.nanos_of_day(86_400_000_001), 1_000);
    assert_eq!(TimeUnit::Nanoseconds.day(-86_400_000_000_001), -2);
    assert_eq!(TimeUnit::Nanoseconds.nanos_of_day(-86_400_000_000_001), 86_399_999_999_999);
    assert_eq!(TimeUnit::Nanoseconds.day(i64::MIN), -106_752);
    assert_eq!(TimeUnit::Nanoseconds.day(i64::MAX), 106_751);
}

#[test]
fn time_unit_converts() {
    assert_eq!(TimeUnit::Milliseconds.convert(5, TimeUnit::Nanoseconds), Some(5_000_000));
    assert_eq!(TimeUnit::Nanoseconds.convert(-5, TimeUnit::Milliseconds), Some(-1));
    assert_eq!(TimeUnit::Nanoseconds.convert(5, TimeUnit::Nanoseconds), Some(5));
    assert_eq!(TimeUnit::Microseconds.convert(i64::MAX, TimeUnit::Nanoseconds), None);
    assert_eq!(TimeUnit::Microseconds.convert(i64::MIN, TimeUnit::Nanoseconds), None);
    assert_eq!(TimeUnit::Milliseconds.from_days(2), Some(172_800_000));
    assert_eq!(TimeUnit::Nanoseconds.from_days(-2), Some(-172_800_000_000_000));
    assert_eq!(TimeUnit::Milliseconds.from_days(i64::MAX), None);
    assert_eq!(TimeUnit::Milliseconds.per_second(), 1_000);
    assert_eq!(TimeUnit::Microseconds.per_second(), 1_000_000);
    assert_eq!(TimeUnit::Nanoseconds.per_second(), 1_000_000_000);
    assert_eq!(TimeUnit::Milliseconds.per_day(), 86_400_000);
    assert_eq!(TimeUnit::Microseconds.per_day(), 86_400_000_000);
    assert_eq!(TimeUnit::Nanoseconds.per_day(), 86_400_000_000_000);
}
