use tempo_rs::creds::{decode_credentials, BadCreds, Credentials};
use tempo_rs::http::{build_calendars_query, classify_response, Classified};
use tempo_rs::model::color_of_text;
use tempo_rs::time::{format_timestamp, parse_timestamp, Timestamp};
use tempo_rs::token::{TokenDecision, TokenState};
use tempo_rs::{ApiError, TempoColor};

fn sample_timestamp() -> Timestamp {
    Timestamp {
        year: 2025,
        month: 11,
        day: 15,
        hour: 0,
        minute: 0,
        second: 0,
        offset_negative: false,
        offset_hours: 1,
        offset_minutes: 0,
    }
}

#[test]
fn test_decode_credentials_ok() {
    // "aWQ6c2VjcmV0" is base64 of "id:secret"
    let creds: Credentials = decode_credentials("aWQ6c2VjcmV0").unwrap();
    assert_eq!(creds.client_id, "id");
    assert_eq!(creds.client_secret, "secret");
}

#[test]
fn test_decode_credentials_splits_at_first_colon() {
    // base64 of "a:b:c": the id stops at the first colon
    let creds = decode_credentials("YTpiOmM=").unwrap();
    assert_eq!(creds.client_id, "a");
    assert_eq!(creds.client_secret, "b:c");
}

#[test]
fn test_decode_credentials_errors() {
    // not base64 at all
    assert_eq!(decode_credentials("!!!"), Err(BadCreds::Base64));
    // "/w==" decodes to the lone byte 0xFF, which is not UTF-8
    assert_eq!(decode_credentials("/w=="), Err(BadCreds::Utf8));
    // "aWRzZWNyZXQ=" decodes to "idsecret": no colon
    assert_eq!(decode_credentials("aWRzZWNyZXQ="), Err(BadCreds::Format));
}

#[test]
fn test_parse_timestamp_exact() {
    let t = parse_timestamp("2025-11-15T06:30:59+01:00").unwrap();
    assert_eq!(t.year, 2025);
    assert_eq!(t.month, 11);
    assert_eq!(t.day, 15);
    assert_eq!(t.hour, 6);
    assert_eq!(t.minute, 30);
    assert_eq!(t.second, 59);
    assert!(!t.offset_negative);
    assert_eq!(t.offset_hours, 1);
    assert_eq!(t.offset_minutes, 0);
}

#[test]
fn test_parse_timestamp_rejects_bad_dates() {
    // 2025 is not a leap year, 2024 is
    assert!(parse_timestamp("2025-02-29T00:00:00+01:00").is_none());
    assert!(parse_timestamp("2024-02-29T00:00:00+01:00").is_some());
    // month and day ranges
    assert!(parse_timestamp("2025-13-01T00:00:00+01:00").is_none());
    assert!(parse_timestamp("2025-04-31T00:00:00+01:00").is_none());
    // shape errors
    assert!(parse_timestamp("2025-11-15T00:00:00").is_none());
    assert!(parse_timestamp("2025-11-15 00:00:00+01:00").is_none());
    assert!(parse_timestamp("").is_none());
}

#[test]
fn test_format_timestamp_round_trip() {
    let t = sample_timestamp();
    let text = format_timestamp(&t);
    assert_eq!(text, "2025-11-15T00:00:00+01:00");
    assert_eq!(parse_timestamp(&text), Some(t));

    let negative = Timestamp { offset_negative: true, offset_hours: 5, ..t };
    let text2 = format_timestamp(&negative);
    assert_eq!(text2, "2025-11-15T00:00:00-05:00");
    assert_eq!(parse_timestamp(&text2), Some(negative));
}

#[test]
fn test_color_tokens_are_case_sensitive() {
    assert_eq!(color_of_text("BLUE"), Some(TempoColor::Blue));
    assert_eq!(color_of_text("WHITE"), Some(TempoColor::White));
    assert_eq!(color_of_text("RED"), Some(TempoColor::Red));
    assert_eq!(color_of_text("blue"), None);
    assert_eq!(color_of_text("Blue"), None);
    assert_eq!(color_of_text(""), None);
}

#[test]
fn test_token_reuse_within_window() {
    let now: i64 = 1_700_000_000;
    let state = TokenState::new(String::from("tok-1"), now, Some(300));
    assert_eq!(state.expiry, Some((now + 300, 300)));

    // two consecutive reads within the window: same token, no refresh
    let first = state.token_if_valid(now + 10).unwrap();
    let second = state.token_if_valid(now + 20).unwrap();
    assert_eq!(first, "tok-1");
    assert_eq!(first, second);
    assert_eq!(state.decide(now + 10), TokenDecision::Reuse);
    assert_eq!(state.decide(now + 20), TokenDecision::Reuse);
}

#[test]
fn test_token_refresh_after_expiry() {
    let now: i64 = 1_700_000_000;
    let mut state = TokenState::new(String::from("tok-1"), now, Some(300));

    // at the expiry second the token is no longer valid
    let later = now + 300;
    assert_eq!(state.decide(later), TokenDecision::Refresh);
    assert!(state.token_if_valid(later).is_none());

    // one exchange happens; installing its token makes it the one handed out
    state.install(String::from("tok-2"), later, Some(600));
    assert_eq!(state.token_if_valid(later).unwrap(), "tok-2");
    assert_eq!(state.expiry, Some((later + 600, 600)));
}

#[test]
fn test_refresh_without_duration_clears_expiry() {
    let now: i64 = 1_700_000_000;
    let mut state = TokenState::new(String::from("tok-1"), now, Some(300));

    // the refresh response carries no validity duration: the stale expiry is
    // replaced too, and the fresh token never expires
    let later = now + 400;
    assert_eq!(state.decide(later), TokenDecision::Refresh);
    state.install(String::from("tok-2"), later, None);
    assert_eq!(state.expiry, None);
    assert_eq!(state.token_if_valid(later).unwrap(), "tok-2");
    assert_eq!(state.decide(i64::MAX), TokenDecision::Reuse);
}

#[test]
fn test_token_without_expiry_never_refreshes() {
    let state = TokenState::new(String::from("tok"), 0, None);
    assert_eq!(state.expiry, None);
    assert_eq!(state.decide(i64::MAX), TokenDecision::Reuse);
}

#[test]
fn test_classify_401_with_challenge() {
    let r = classify_response(
        401,
        Some("error=invalid_token; error_description=expired"),
        "ignored body",
    );
    match r {
        Classified::Failure(ApiError::BadRequest { description, code }) => {
            assert_eq!(code, "invalid_token");
            assert_eq!(description, "expired");
        },
        other => panic!("wrong classification: {:?}", other),
    }
}

#[test]
fn test_classify_401_without_usable_challenge() {
    let r = classify_response(401, None, "raw body text");
    match r {
        Classified::Failure(ApiError::BadRequest { description, code }) => {
            assert_eq!(code, "");
            assert_eq!(description, "raw body text");
        },
        other => panic!("wrong classification: {:?}", other),
    }

    // a challenge missing one of the two keys falls back to the body
    let r2 = classify_response(401, Some("error=invalid_token"), "body");
    match r2 {
        Classified::Failure(ApiError::BadRequest { description, code }) => {
            assert_eq!(code, "");
            assert_eq!(description, "body");
        },
        other => panic!("wrong classification: {:?}", other),
    }
}

#[test]
fn test_classify_error_status_with_structured_body() {
    let body = r#"
    {
        "error": "TMPLIKSUPCON_TMPLIKCAL_F04",
        "error_description": "The value of start_date field is incorrect",
        "error_uri": "",
        "error_details": {
            "transaction_id": "Iv04041d011priv"
        }
    }
    "#;
    let r = classify_response(400, None, body);
    match r {
        Classified::Failure(ApiError::BadRequest { description, code }) => {
            assert_eq!(code, "TMPLIKSUPCON_TMPLIKCAL_F04");
            assert_eq!(description, "The value of start_date field is incorrect");
        },
        other => panic!("wrong classification: {:?}", other),
    }
}

#[test]
fn test_classify_error_status_with_bad_body() {
    let r = classify_response(500, None, "not json at all");
    match r {
        Classified::Failure(ApiError::SerdeJson) => {},
        other => panic!("wrong classification: {:?}", other),
    }

    // valid JSON but not the error shape
    let r2 = classify_response(500, None, r#"{"error": "x"}"#);
    match r2 {
        Classified::Failure(ApiError::SerdeJson) => {},
        other => panic!("wrong classification: {:?}", other),
    }
}

#[test]
fn test_classify_success_and_unhandled() {
    let r = classify_response(200, None, r#"{"tempo_like_calendars": []}"#);
    assert!(matches!(r, Classified::Success(_)));

    let r2 = classify_response(200, None, "{broken");
    assert!(matches!(r2, Classified::Failure(ApiError::SerdeJson)));

    let r3 = classify_response(304, None, "");
    assert!(matches!(r3, Classified::Unhandled(304)));
}

#[test]
fn test_build_calendars_query() {
    let start = sample_timestamp();
    let end = Timestamp { day: 16, ..start };
    let q = build_calendars_query(Some(start), Some(end), Some(true));
    assert_eq!(q.len(), 3);
    assert_eq!(q[0].0, "start_date");
    assert_eq!(q[0].1, "2025-11-15T00:00:00+01:00");
    assert_eq!(q[1].0, "end_date");
    assert_eq!(q[1].1, "2025-11-16T00:00:00+01:00");
    assert_eq!(q[2].0, "fallback_status");
    assert_eq!(q[2].1, "true");

    let q2 = build_calendars_query(None, None, Some(false));
    assert_eq!(q2.len(), 1);
    assert_eq!(q2[0].1, "false");

    // the next-day request: no parameters at all
    let q3 = build_calendars_query(None, None, None);
    assert!(q3.is_empty());
}
