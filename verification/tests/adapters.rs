use wmi_datetime::{
    decode_value, encode_value, expected_shape, normalize_subsecond, DateTimeField,
    StructuredValue, WMIDateTime, WMIError,
};

#[test]
fn subsecond_quirk_divides_by_thousand() {
    // 500000 on the wire means 500 microseconds
    assert_eq!(normalize_subsecond(500000), Ok(500));
    assert_eq!(normalize_subsecond(123456), Ok(123));
    assert_eq!(normalize_subsecond(999999), Ok(999));
    assert_eq!(normalize_subsecond(0), Ok(0));
}

#[test]
fn subsecond_quirk_shows_in_output() {
    let dt = WMIDateTime::from_str("20190113200517.123456+000").unwrap();
    assert_eq!(dt.microsecond, 123);
    assert_eq!(dt.to_rfc3339(), "2019-01-13T20:05:17.000123+00:00");
}

#[test]
fn out_of_range_quotient_is_internal_failure() {
    // unreachable from any six-digit field; only a direct call can get here
    assert_eq!(
        normalize_subsecond(1_000_000_000),
        Err(WMIError::InternalFormattingFailure)
    );
}

#[test]
fn decoding_a_string_parses_it() {
    let v = StructuredValue::Text(String::from("20190113200517.500000+060"));
    let dt = decode_value(&v).unwrap();
    assert_eq!(dt, WMIDateTime::from_str("20190113200517.500000+060").unwrap());
}

#[test]
fn decoding_a_bad_string_reports_the_parse_error() {
    let v = StructuredValue::Text(String::from("20190113200517"));
    assert_eq!(decode_value(&v), Err(WMIError::MalformedInput));
}

#[test]
fn decoding_a_non_string_is_a_type_mismatch() {
    assert_eq!(
        decode_value(&StructuredValue::Number(20190113)),
        Err(WMIError::TypeMismatch)
    );
    assert_eq!(
        decode_value(&StructuredValue::Boolean(true)),
        Err(WMIError::TypeMismatch)
    );
    assert_eq!(
        decode_value(&StructuredValue::Composite),
        Err(WMIError::TypeMismatch)
    );
}

#[test]
fn encoding_emits_the_canonical_string() {
    let dt = WMIDateTime::from_str("20190113200517.500000+060").unwrap();
    match encode_value(&dt) {
        Ok(StructuredValue::Text(s)) => {
            assert_eq!(s, "2019-01-13T20:05:17.000500+01:00");
        }
        other => panic!("expected a string scalar, got {:?}", other),
    }
}

#[test]
fn expected_shape_names_the_format() {
    assert_eq!(expected_shape(), "a timestamp in WMI format");
}

#[test]
fn error_messages_name_the_fault() {
    assert_eq!(
        WMIError::MalformedInput.message(),
        "the WMI datetime string is too short"
    );
    assert_eq!(
        WMIError::InvalidOffset.message(),
        "the UTC offset is missing, malformed or out of range"
    );
    assert_eq!(
        WMIError::InvalidDateTimeComponent(DateTimeField::Day).message(),
        "invalid datetime component: day"
    );
    assert_eq!(
        WMIError::TypeMismatch.message(),
        "expected a timestamp in WMI format"
    );
    assert_eq!(
        WMIError::InternalFormattingFailure.message(),
        "internal formatting failure"
    );
}
