use wmi_datetime::{DateTimeField, WMIDateTime, WMIError};

#[test]
fn it_works_with_negative_offset() {
    let dt: WMIDateTime = WMIDateTime::from_str("20190113200517.500000-180").unwrap();

    let formatted = dt.to_rfc3339();

    assert_eq!(formatted, "2019-01-13T20:05:17.000500-03:00");
}

#[test]
fn it_works_with_positive_offset() {
    let dt: WMIDateTime = WMIDateTime::from_str("20190113200517.500000+060").unwrap();

    let formatted = dt.to_rfc3339();

    assert_eq!(formatted, "2019-01-13T20:05:17.000500+01:00");
}

#[test]
fn it_fails_with_malformed_str() {
    let dt_res: Result<WMIDateTime, _> = WMIDateTime::from_str("20190113200517");

    assert!(dt_res.is_err());
}

#[test]
fn it_fails_with_malformed_str_with_no_tz() {
    let dt_res: Result<WMIDateTime, _> = WMIDateTime::from_str("20190113200517.000500");

    assert!(dt_res.is_err());
}

#[test]
fn it_serializes_to_rfc() {
    let dt: WMIDateTime = WMIDateTime::from_str("20190113200517.500000+060").unwrap();

    let v = serde_json::to_string(&dt.to_rfc3339()).unwrap();
    assert_eq!(v, "\"2019-01-13T20:05:17.000500+01:00\"");
}

#[test]
fn short_inputs_are_malformed() {
    assert_eq!(WMIDateTime::from_str(""), Err(WMIError::MalformedInput));
    assert_eq!(WMIDateTime::from_str("2019"), Err(WMIError::MalformedInput));
    // twenty characters: one short of the minimum
    assert_eq!(
        WMIDateTime::from_str("20190113200517.50000"),
        Err(WMIError::MalformedInput)
    );
    // twenty-one characters pass the length check (and then lack an offset)
    assert_ne!(
        WMIDateTime::from_str("20190113200517.500000"),
        Err(WMIError::MalformedInput)
    );
}

#[test]
fn missing_offset_tail_is_invalid_offset() {
    assert_eq!(
        WMIDateTime::from_str("20190113200517.000500"),
        Err(WMIError::InvalidOffset)
    );
}

#[test]
fn non_numeric_offset_tail_is_invalid_offset() {
    assert_eq!(
        WMIDateTime::from_str("20190113200517.500000+"),
        Err(WMIError::InvalidOffset)
    );
    assert_eq!(
        WMIDateTime::from_str("20190113200517.500000x12"),
        Err(WMIError::InvalidOffset)
    );
    assert_eq!(
        WMIDateTime::from_str("20190113200517.500000+1x0"),
        Err(WMIError::InvalidOffset)
    );
}

#[test]
fn offset_range_boundaries() {
    let max = WMIDateTime::from_str("20190113200517.500000+1439").unwrap();
    assert_eq!(max.to_rfc3339(), "2019-01-13T20:05:17.000500+23:59");

    let min = WMIDateTime::from_str("20190113200517.500000-1439").unwrap();
    assert_eq!(min.to_rfc3339(), "2019-01-13T20:05:17.000500-23:59");

    assert_eq!(
        WMIDateTime::from_str("20190113200517.500000+1440"),
        Err(WMIError::InvalidOffset)
    );
    assert_eq!(
        WMIDateTime::from_str("20190113200517.500000-1440"),
        Err(WMIError::InvalidOffset)
    );
    assert_eq!(
        WMIDateTime::from_str("20190113200517.500000+99999999999999999999"),
        Err(WMIError::InvalidOffset)
    );
}

#[test]
fn offset_tail_without_sign_is_positive() {
    let dt = WMIDateTime::from_str("20190113200517.500000060").unwrap();
    assert_eq!(dt.to_rfc3339(), "2019-01-13T20:05:17.000500+01:00");
}

#[test]
fn zero_offset_is_never_z() {
    let plus = WMIDateTime::from_str("20190113200517.500000+000").unwrap();
    assert_eq!(plus.to_rfc3339(), "2019-01-13T20:05:17.000500+00:00");

    let minus = WMIDateTime::from_str("20190113200517.500000-0").unwrap();
    assert_eq!(minus.to_rfc3339(), "2019-01-13T20:05:17.000500+00:00");
    assert!(!minus.to_rfc3339().contains('Z'));
}

#[test]
fn non_digit_fields_name_the_component() {
    assert_eq!(
        WMIDateTime::from_str("x0190113200517.500000+060"),
        Err(WMIError::InvalidDateTimeComponent(DateTimeField::Year))
    );
    assert_eq!(
        WMIDateTime::from_str("2019x113200517.500000+060"),
        Err(WMIError::InvalidDateTimeComponent(DateTimeField::Month))
    );
    assert_eq!(
        WMIDateTime::from_str("201901x3200517.500000+060"),
        Err(WMIError::InvalidDateTimeComponent(DateTimeField::Day))
    );
    assert_eq!(
        WMIDateTime::from_str("20190113x00517.500000+060"),
        Err(WMIError::InvalidDateTimeComponent(DateTimeField::Hour))
    );
    assert_eq!(
        WMIDateTime::from_str("2019011320x517.500000+060"),
        Err(WMIError::InvalidDateTimeComponent(DateTimeField::Minute))
    );
    assert_eq!(
        WMIDateTime::from_str("201901132005x7.500000+060"),
        Err(WMIError::InvalidDateTimeComponent(DateTimeField::Second))
    );
    assert_eq!(
        WMIDateTime::from_str("20190113200517x500000+060"),
        Err(WMIError::InvalidDateTimeComponent(DateTimeField::Subsecond))
    );
    assert_eq!(
        WMIDateTime::from_str("20190113200517.50000x+060"),
        Err(WMIError::InvalidDateTimeComponent(DateTimeField::Subsecond))
    );
}

#[test]
fn impossible_dates_are_rejected_by_the_calendar() {
    assert_eq!(
        WMIDateTime::from_str("20191313200517.500000+060"),
        Err(WMIError::InvalidDateTimeComponent(DateTimeField::Month))
    );
    assert_eq!(
        WMIDateTime::from_str("20190230200517.500000+060"),
        Err(WMIError::InvalidDateTimeComponent(DateTimeField::Day))
    );
    assert_eq!(
        WMIDateTime::from_str("20190100200517.500000+060"),
        Err(WMIError::InvalidDateTimeComponent(DateTimeField::Day))
    );
    // 1900 is not a leap year, 2000 and 2020 are
    assert_eq!(
        WMIDateTime::from_str("19000229200517.500000+060"),
        Err(WMIError::InvalidDateTimeComponent(DateTimeField::Day))
    );
    assert!(WMIDateTime::from_str("20000229200517.500000+060").is_ok());
    let leap = WMIDateTime::from_str("20200229200517.500000+060").unwrap();
    assert_eq!(leap.to_rfc3339(), "2020-02-29T20:05:17.000500+01:00");
}

#[test]
fn impossible_clock_times_are_rejected() {
    assert_eq!(
        WMIDateTime::from_str("20190113240517.500000+060"),
        Err(WMIError::InvalidDateTimeComponent(DateTimeField::Hour))
    );
    assert_eq!(
        WMIDateTime::from_str("20190113206017.500000+060"),
        Err(WMIError::InvalidDateTimeComponent(DateTimeField::Minute))
    );
    assert_eq!(
        WMIDateTime::from_str("20190113200560.500000+060"),
        Err(WMIError::InvalidDateTimeComponent(DateTimeField::Second))
    );
    assert!(WMIDateTime::from_str("20190113235959.500000+060").is_ok());
}

#[test]
fn parsed_fields_are_exposed() {
    let dt = WMIDateTime::from_str("20190113200517.500000-180").unwrap();
    assert_eq!(dt.year, 2019);
    assert_eq!(dt.month, 1);
    assert_eq!(dt.day, 13);
    assert_eq!(dt.hour, 20);
    assert_eq!(dt.minute, 5);
    assert_eq!(dt.second, 17);
    assert_eq!(dt.microsecond, 500);
    assert_eq!(dt.offset_minutes, -180);
}

#[test]
fn constructed_instants_format_like_parsed_ones() {
    let built = WMIDateTime::new(2019, 1, 13, 20, 5, 17, 500, -180);
    let parsed = WMIDateTime::from_str("20190113200517.500000-180").unwrap();
    assert_eq!(built, parsed);
    assert_eq!(built.to_rfc3339(), "2019-01-13T20:05:17.000500-03:00");
    assert!(built.is_well_formed());
}
