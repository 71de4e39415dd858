use cogfer::error::{Delay, ErrorKind};
use cogfer::json::Json;
use cogfer::message::AssistantPart;
use cogfer::protocols::openai::chat::types::decode_openrouter_error;
use cogfer::protocols::openai::chat::ChatDialect;
use cogfer::protocols::openai::responses::types::decode_output_item;
use http::{header, HeaderMap, HeaderName, HeaderValue};

fn json(text: &str) -> Json {
    Json::parse(text).unwrap()
}

#[test]
fn only_openai_endpoints_get_the_full_wire_format() {
    for (url, expected) in [
        ("https://api.openai.com/v1", ChatDialect::OpenAi),
        (
            "https://res.openai.azure.com/openai/v1",
            ChatDialect::OpenAi,
        ),
        ("http://localhost:11434/v1", ChatDialect::Compatible),
        ("https://api.mistral.ai/v1", ChatDialect::Compatible),
    ] {
        assert_eq!(ChatDialect::OpenAi.for_endpoint(url), expected, "{url}");
        assert_eq!(ChatDialect::Xai.for_endpoint(url), ChatDialect::Xai);
    }
}

#[test]
fn non_json_openrouter_error_keeps_header_metadata() {
    let headers = HeaderMap::from_iter([
        (
            HeaderName::from_static("x-request-id"),
            HeaderValue::from_static("request-123"),
        ),
        (header::RETRY_AFTER, HeaderValue::from_static("4")),
    ]);
    let error = decode_openrouter_error(503, &headers, b"upstream unavailable");

    assert_eq!(error.request_id(), Some("request-123"));
    assert_eq!(error.retry_after(), Some(Delay { secs: 4, nanos: 0 }));
}

#[test]
fn malformed_output_item_is_an_error() {
    let error = decode_output_item(&json(r#"{"type": "message", "content": "invalid"}"#))
        .expect_err("invalid item must not be silently dropped");

    assert_eq!(error.kind(), ErrorKind::MalformedResponse);
}

#[test]
fn function_call_with_a_blank_id_has_no_item_id() {
    let parts = decode_output_item(&json(
        r#"{
            "type": "function_call", "id": "", "call_id": "call_1",
            "name": "lookup", "arguments": "{}", "status": "completed"
        }"#,
    ))
    .unwrap()
    .unwrap();

    let AssistantPart::ToolCall(call) = &parts[0] else {
        panic!("expected a tool call");
    };
    assert_eq!(call.item_id, None);
}

#[test]
fn function_call_without_call_id_is_an_error() {
    let error = decode_output_item(&json(
        r#"{"type": "function_call", "status": "completed", "name": "lookup"}"#,
    ))
    .expect_err("missing correlation id must not be silently dropped");

    assert_eq!(error.kind(), ErrorKind::MalformedResponse);
}
