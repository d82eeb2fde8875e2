use indexer::api::models::{ApiError, Timestamp};
use indexer::api::utils::{
    api_bool, api_date, api_option_str, api_option_u32, api_option_u64, date_from_instant,
    FieldError, Scalar,
};

#[test]
fn dates_are_read_in_the_format_of_the_api() {
    assert_eq!(
        api_date("Sat Nov 23 11:30:03 -0600 2024"),
        Ok(Timestamp { secs: 1_732_383_003, nanos: 0 })
    );
    assert_eq!(
        api_date("Mon Jul 16 00:00:00 -0500 2007"),
        Ok(Timestamp { secs: 1_184_562_000, nanos: 0 })
    );
    assert_eq!(
        api_date("Thu Jan 01 00:00:00 +0000 1970"),
        Ok(Timestamp { secs: 0, nanos: 0 })
    );
}

#[test]
fn dates_in_another_format_are_refused() {
    assert_eq!(
        api_date("2024-11-23T11:30:03-06:00"),
        Err(FieldError::Date("2024-11-23T11:30:03-06:00".to_string()))
    );
    assert_eq!(api_date(""), Err(FieldError::Date(String::new())));
    assert_eq!(
        api_date("Sat Nov 23 11:30:03 2024"),
        Err(FieldError::Date("Sat Nov 23 11:30:03 2024".to_string()))
    );
}

#[test]
fn date_fields_follow_the_parser() {
    assert_eq!(date_from_instant("x", Some((5, 7))), Ok(Timestamp { secs: 5, nanos: 7 }));
    assert_eq!(date_from_instant("x", None), Err(FieldError::Date("x".to_string())));
}

#[test]
fn booleans_are_read_from_text() {
    assert_eq!(api_bool(&Scalar::Text("true".to_string())), Ok(true));
    assert_eq!(api_bool(&Scalar::Text("false".to_string())), Ok(false));
    assert_eq!(
        api_bool(&Scalar::Text("True".to_string())),
        Err(FieldError::BoolText("True".to_string()))
    );
    assert_eq!(
        api_bool(&Scalar::Text("1".to_string())),
        Err(FieldError::BoolText("1".to_string()))
    );
    assert_eq!(api_bool(&Scalar::Text(String::new())), Err(FieldError::BoolText(String::new())));
}

#[test]
fn booleans_are_read_from_numbers() {
    assert_eq!(api_bool(&Scalar::Number(0)), Ok(false));
    assert_eq!(api_bool(&Scalar::Number(1)), Ok(true));
    assert_eq!(api_bool(&Scalar::Number(2)), Err(FieldError::BoolNumber(2)));
    assert_eq!(api_bool(&Scalar::Number(u64::MAX)), Err(FieldError::BoolNumber(u64::MAX)));
}

#[test]
fn empty_text_stands_for_absent() {
    assert_eq!(api_option_str(""), None);
    assert_eq!(api_option_str("x"), Some("x".to_string()));
    assert_eq!(api_option_str(" "), Some(" ".to_string()));
}

#[test]
fn zero_stands_for_absent() {
    assert_eq!(api_option_u64(0), None);
    assert_eq!(api_option_u64(1), Some(1));
    assert_eq!(api_option_u64(u64::MAX), Some(u64::MAX));
    assert_eq!(api_option_u32(0), Ok(None));
    assert_eq!(api_option_u32(1), Ok(Some(1)));
    assert_eq!(api_option_u32(0xffff_ffff), Ok(Some(u32::MAX)));
    assert_eq!(api_option_u32(0x1_0000_0000), Err(FieldError::Width(0x1_0000_0000)));
}

#[test]
fn errors_read_as_in_a_log_line() {
    assert_eq!(ApiError::Reqwest("timed out".to_string()).message(), "Reqwest Error: `timed out`");
    assert_eq!(ApiError::Serde("eof".to_string()).message(), "Serde Error: `eof`");
    assert_eq!(ApiError::Other.message(), "Other");
}
