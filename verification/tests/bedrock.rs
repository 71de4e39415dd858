use cogfer::error::ErrorKind;
use cogfer::protocols::anthropic::bedrock::stream_exception_message;
use cogfer::protocols::bedrock::{
    bedrock_error_kind, decode_bedrock_error, is_signature_failure, ERROR_TYPE,
};
use cogfer::protocols::ApiProfile;
use http::{HeaderMap, HeaderName};

#[test]
fn stream_error_messages_survive_a_non_json_payload() {
    assert_eq!(
        stream_exception_message("modelStreamErrorException", "the model stopped"),
        "the model stopped"
    );
    assert_eq!(
        stream_exception_message("throttlingException", r#"{"message":"slow down"}"#),
        "slow down"
    );
    assert_eq!(
        stream_exception_message("InternalFailure", "  "),
        "bedrock stream failed with InternalFailure"
    );
}

/// Every exception the retry predicate calls a signature failure must
/// also be classified as `Authentication`, and no other one may be.
#[test]
fn signature_failures_are_exactly_the_authentication_exceptions() {
    for exception in [
        "InvalidSignatureException",
        "ExpiredTokenException",
        "UnrecognizedClientException",
        "RequestTimeTooSkewed",
        "RequestExpired",
    ] {
        assert!(is_signature_failure(exception), "{exception}");
        assert_eq!(
            bedrock_error_kind(Some(exception), 403),
            ErrorKind::Authentication,
            "{exception}"
        );
    }
    for exception in ["AccessDeniedException", "ThrottlingException"] {
        assert!(!is_signature_failure(exception), "{exception}");
        assert_ne!(
            bedrock_error_kind(Some(exception), 403),
            ErrorKind::Authentication,
            "{exception}"
        );
    }
}

#[test]
fn signature_failures_are_authentication_failures_at_every_status() {
    for status in [200, 400, 401, 403, 408, 424, 500] {
        assert_eq!(
            bedrock_error_kind(Some("ExpiredTokenException"), status),
            ErrorKind::Authentication,
            "{status}"
        );
    }
    assert!(!is_signature_failure("SomethingElse"));
    assert_eq!(bedrock_error_kind(Some("SomethingElse"), 401), ErrorKind::Authentication);
}

#[test]
fn exceptions_map_to_error_kinds() {
    assert_eq!(
        bedrock_error_kind(Some("ThrottlingException"), 429),
        ErrorKind::RateLimited
    );
    assert_eq!(
        bedrock_error_kind(Some("ExpiredTokenException"), 403),
        ErrorKind::Authentication
    );
    assert_eq!(
        bedrock_error_kind(Some("AccessDeniedException"), 403),
        ErrorKind::Permission
    );
    assert_eq!(
        bedrock_error_kind(Some("RequestTimeTooSkewed"), 403),
        ErrorKind::Authentication
    );
    assert_eq!(
        bedrock_error_kind(Some("modelStreamErrorException"), 200),
        ErrorKind::Provider
    );
    assert_eq!(bedrock_error_kind(None, 503), ErrorKind::Overloaded);
}

#[test]
fn error_type_header_drops_its_uri_suffix() {
    let headers = HeaderMap::from_iter([(
        HeaderName::from_static(ERROR_TYPE),
        "ValidationException:http://internal.amazon.com/coral/com.amazon.bedrock/"
            .parse()
            .unwrap(),
    )]);

    let error = decode_bedrock_error(
        ApiProfile::BedrockAnthropic,
        400,
        &headers,
        br#"{"message":"bad max_tokens"}"#,
    );

    assert_eq!(error.kind(), ErrorKind::InvalidRequest);
    assert_eq!(error.code(), Some("ValidationException"));
    assert_eq!(error.message(), "bad max_tokens");
}
