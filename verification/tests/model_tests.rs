use tempo_rs::http::calendars_from_body;
use tempo_rs::{ApiError, TempoColor};

#[test]
fn test_days_values_keeps_outer_then_inner_order() {
    // two calendars holding two and one values: three values out, in order
    let json = r#"
    {
        "tempo_like_calendars": [
            {
                "start_date": "2025-11-18T00:00:00+01:00",
                "end_date": "2025-11-20T00:00:00+01:00",
                "values": [
                    {
                        "start_date": "2025-11-19T00:00:00+01:00",
                        "end_date": "2025-11-20T00:00:00+01:00",
                        "value": "RED",
                        "updated_date": "2025-11-18T10:20:00+01:00"
                    },
                    {
                        "start_date": "2025-11-18T00:00:00+01:00",
                        "end_date": "2025-11-19T00:00:00+01:00",
                        "value": "WHITE",
                        "updated_date": "2025-11-17T10:20:00+01:00"
                    }
                ]
            },
            {
                "start_date": "2025-11-17T00:00:00+01:00",
                "end_date": "2025-11-18T00:00:00+01:00",
                "values": [
                    {
                        "start_date": "2025-11-17T00:00:00+01:00",
                        "end_date": "2025-11-18T00:00:00+01:00",
                        "value": "BLUE",
                        "updated_date": "2025-11-16T10:20:00+01:00"
                    }
                ]
            }
        ]
    }
    "#;
    let calendars = calendars_from_body(json).unwrap();
    let values = calendars.unwrap_days_values();
    assert_eq!(values.len(), 3);
    assert_eq!(values[0].value, TempoColor::Red);
    assert_eq!(values[1].value, TempoColor::White);
    assert_eq!(values[2].value, TempoColor::Blue);
}

#[test]
fn test_first_day_value_absent_cases() {
    // empty outer sequence
    let empty_outer = r#"{ "tempo_like_calendars": [] }"#;
    let calendars = calendars_from_body(empty_outer).unwrap();
    assert!(calendars.unwrap_first_day_value().is_none());
    assert!(calendars.unwrap_days_values().is_empty());

    // non-empty outer sequence, empty inner values
    let empty_inner = r#"
    {
        "tempo_like_calendars": {
            "start_date": "2025-11-19T00:00:00+01:00",
            "end_date": "2025-11-20T00:00:00+01:00",
            "values": []
        }
    }
    "#;
    let calendars2 = calendars_from_body(empty_inner).unwrap();
    assert!(calendars2.unwrap_first_day_value().is_none());
}

#[test]
fn test_fallback_field_is_kept_opaque() {
    let json = r#"
    {
        "tempo_like_calendars": {
            "start_date": "2025-11-18T00:00:00+01:00",
            "end_date": "2025-11-20T00:00:00+01:00",
            "values": [
                {
                    "start_date": "2025-11-19T00:00:00+01:00",
                    "end_date": "2025-11-20T00:00:00+01:00",
                    "value": "BLUE",
                    "updated_date": "2025-11-18T10:20:00+01:00",
                    "fallback": true
                },
                {
                    "start_date": "2025-11-18T00:00:00+01:00",
                    "end_date": "2025-11-19T00:00:00+01:00",
                    "value": "BLUE",
                    "updated_date": "2025-11-17T10:20:00+01:00",
                    "fallback": null
                }
            ]
        }
    }
    "#;
    let calendars = calendars_from_body(json).unwrap();
    let values = calendars.unwrap_days_values();
    assert_eq!(values[0].fallback, Some(true));
    assert_eq!(values[1].fallback, None);
}

#[test]
fn test_decoding_errors_on_bad_shapes() {
    // not JSON
    assert_eq!(calendars_from_body("nonsense"), Err(ApiError::SerdeJson));
    // missing the tempo_like_calendars field
    assert_eq!(calendars_from_body(r#"{"other": []}"#), Err(ApiError::SerdeJson));
    // the field is neither object nor array
    assert_eq!(
        calendars_from_body(r#"{"tempo_like_calendars": "oops"}"#),
        Err(ApiError::SerdeJson)
    );
    // a value with a bad timestamp
    let bad_date = r#"
    {
        "tempo_like_calendars": {
            "start_date": "2025-11-19T00:00:00+01:00",
            "end_date": "2025-11-20T00:00:00+01:00",
            "values": [
                {
                    "start_date": "2025-02-30T00:00:00+01:00",
                    "end_date": "2025-11-20T00:00:00+01:00",
                    "value": "BLUE",
                    "updated_date": "2025-11-18T10:20:00+01:00"
                }
            ]
        }
    }
    "#;
    assert_eq!(calendars_from_body(bad_date), Err(ApiError::SerdeJson));
    // a value with an unknown color token
    let bad_color = r#"
    {
        "tempo_like_calendars": {
            "start_date": "2025-11-19T00:00:00+01:00",
            "end_date": "2025-11-20T00:00:00+01:00",
            "values": [
                {
                    "start_date": "2025-11-19T00:00:00+01:00",
                    "end_date": "2025-11-20T00:00:00+01:00",
                    "value": "GREEN",
                    "updated_date": "2025-11-18T10:20:00+01:00"
                }
            ]
        }
    }
    "#;
    assert_eq!(calendars_from_body(bad_color), Err(ApiError::SerdeJson));
    // a value missing a required field
    let missing_field = r#"
    {
        "tempo_like_calendars": {
            "start_date": "2025-11-19T00:00:00+01:00",
            "end_date": "2025-11-20T00:00:00+01:00",
            "values": [
                {
                    "start_date": "2025-11-19T00:00:00+01:00",
                    "end_date": "2025-11-20T00:00:00+01:00",
                    "value": "BLUE"
                }
            ]
        }
    }
    "#;
    assert_eq!(calendars_from_body(missing_field), Err(ApiError::SerdeJson));
}

#[test]
fn test_parsed_dates_carry_their_fields() {
    let json = r#"
    {
        "tempo_like_calendars": {
            "start_date": "2025-11-15T00:00:00+01:00",
            "end_date": "2025-11-20T00:00:00+01:00",
            "values": [
                {
                    "start_date": "2025-11-19T06:00:00+01:00",
                    "end_date": "2025-11-20T06:00:00+01:00",
                    "value": "WHITE",
                    "updated_date": "2025-11-18T10:20:00+01:00"
                }
            ]
        }
    }
    "#;
    let calendars = calendars_from_body(json).unwrap();
    let calendar = &calendars.tempo_like_calendars[0];
    assert_eq!(calendar.start_date.year, 2025);
    assert_eq!(calendar.start_date.month, 11);
    assert_eq!(calendar.start_date.day, 15);
    let value = &calendar.values[0];
    assert_eq!(value.start_date.day, 19);
    assert_eq!(value.start_date.hour, 6);
    assert_eq!(value.updated_date.minute, 20);
    assert!(!value.start_date.offset_negative);
    assert_eq!(value.start_date.offset_hours, 1);
}
