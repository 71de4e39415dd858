use cogfer::error::{Delay, ErrorKind};
use cogfer::json::Json;
use cogfer::protocols::gemini::types::{decode_gemini_error, into_error, UsageMetadata};
use http::{header, HeaderMap, HeaderName, HeaderValue};

fn seconds(secs: u64) -> Delay {
    Delay { secs, nanos: 0 }
}

#[test]
fn error_headers_supply_request_id_and_retry_after() {
    let headers = HeaderMap::from_iter([
        (
            HeaderName::from_static("x-request-id"),
            HeaderValue::from_static("request-123"),
        ),
        (header::RETRY_AFTER, HeaderValue::from_static("7")),
    ]);
    let error = decode_gemini_error(429, &headers, b"not json");

    assert_eq!(error.request_id(), Some("request-123"));
    assert_eq!(error.retry_after(), Some(seconds(7)));
}

#[test]
fn stream_frame_errors_use_the_envelope_status() {
    let body = br#"{"error":{"code":503,"status":"UNAVAILABLE","message":"try later"}}"#;
    let parsed = Json::parse_bytes(body).unwrap();
    let error = into_error(parsed.get("error").unwrap(), None);

    assert_eq!(error.kind(), ErrorKind::Overloaded);
    assert_eq!(error.status(), Some(503));
    assert!(error.retryable());
}

#[test]
fn body_retry_info_takes_precedence_over_header() {
    let headers = HeaderMap::from_iter([(header::RETRY_AFTER, HeaderValue::from_static("7"))]);
    let body = br#"{"error":{"status":"RESOURCE_EXHAUSTED","details":[{"@type":"type.googleapis.com/google.rpc.RetryInfo","retryDelay":"2s"}]}}"#;
    let error = decode_gemini_error(429, &headers, body);

    assert_eq!(error.retry_after(), Some(seconds(2)));
}

#[test]
fn usage_output_tokens_saturate_when_provider_counts_overflow() {
    let metadata = UsageMetadata {
        candidates_token_count: Some(u64::MAX),
        thoughts_token_count: Some(1),
        ..UsageMetadata::default()
    };

    assert_eq!(metadata.to_usage().output_tokens, Some(u64::MAX));
}

#[test]
fn fractional_retry_delays_keep_their_nanoseconds() {
    let body = br#"{"error":{"details":[{"@type":"type.googleapis.com/google.rpc.RetryInfo","retryDelay":"1.5s"}]}}"#;
    let error = decode_gemini_error(429, &HeaderMap::new(), body);

    assert_eq!(
        error.retry_after(),
        Some(Delay {
            secs: 1,
            nanos: 500_000_000
        })
    );
}

#[test]
fn unreadable_retry_delays_are_ignored() {
    let body = br#"{"error":{"details":[{"@type":"type.googleapis.com/google.rpc.RetryInfo","retryDelay":"-1s"}]}}"#;
    let error = decode_gemini_error(429, &HeaderMap::new(), body);

    assert_eq!(error.retry_after(), None);
}
