use cogfer::error::{Error, ErrorKind};
use cogfer::protocols::runner::{
    decode_buffered_response, finish_generate, finish_verify, is_json_body, may_reauthenticate,
    opening_events, read_failure, replay_json, stream_body, BodyBuffer, StreamBody, StreamRunner,
};
use cogfer::protocols::ApiProfile;
use cogfer::response::{FinishReason, Warning};
use cogfer::stream::accumulator::collect_result;
use cogfer::stream::event::StreamEvent;
use cogfer::transport::event_stream::encode_message;
use http::{header, HeaderMap, HeaderName, HeaderValue};

const COMPLETION: &[u8] = br#"{"id":"c1","model":"m","choices":[{"index":0,"finish_reason":"stop","message":{"role":"assistant","content":"hello"}}],"usage":{"prompt_tokens":3,"completion_tokens":1,"total_tokens":4}}"#;

fn with_request_id() -> HeaderMap {
    HeaderMap::from_iter([(
        HeaderName::from_static("x-request-id"),
        HeaderValue::from_static("json-request"),
    )])
}

fn chat_runner(headers: &HeaderMap) -> StreamRunner {
    StreamRunner::new(
        ApiProfile::OpenAiChatCompletions,
        "custom-model",
        false,
        headers,
    )
}

fn last_is_finish(events: &[StreamEvent], reason: FinishReason) -> bool {
    match events.last() {
        Some(StreamEvent::Finish { finish, .. }) => finish.reason == reason,
        _ => false,
    }
}

#[test]
fn json_bodies_are_detected_case_insensitively_with_parameters() {
    let json = HeaderMap::from_iter([(
        header::CONTENT_TYPE,
        HeaderValue::from_static("Application/JSON; charset=utf-8"),
    )]);
    let sse = HeaderMap::from_iter([(
        header::CONTENT_TYPE,
        HeaderValue::from_static("text/event-stream"),
    )]);

    assert!(is_json_body(&json));
    assert!(!is_json_body(&sse));
    assert!(!is_json_body(&HeaderMap::new()));
}

/// Only `application/json` exactly: other media types sharing the prefix
/// must not be replayed as JSON bodies.
#[test]
fn json_lookalike_media_types_are_rejected() {
    for value in [
        "application/jsonp",
        "application/json-seq",
        "application/json5",
    ] {
        let headers = HeaderMap::from_iter([(
            header::CONTENT_TYPE,
            HeaderValue::from_str(value).unwrap(),
        )]);
        assert!(!is_json_body(&headers), "{value}");
    }
}

#[test]
fn json_stream_read_failure_preserves_transport_error() {
    for kind in [ErrorKind::Timeout, ErrorKind::Transport] {
        let error = read_failure(
            ApiProfile::OpenAiChatCompletions,
            "custom-model",
            200,
            &with_request_id(),
            Error::new(kind, "injected stream error").with_source("body read interrupted"),
        );

        assert_eq!(error.kind(), kind);
        assert!(error.retryable());
        assert_eq!(error.origin(), Some("openai-chat"));
        assert_eq!(error.model(), Some("custom-model"));
        assert_eq!(error.request_id(), Some("json-request"));
        assert_eq!(error.source().unwrap(), "body read interrupted");
    }
}

#[test]
fn json_body_collection_rejects_overflow_without_reading_the_remainder() {
    let mut whole = BodyBuffer::new(2);
    assert!(whole.push(b"{").is_ok());
    assert!(whole.push(b"}").is_ok());
    assert_eq!(whole.into_bytes(), b"{}");

    for chunks in [
        vec![b"{} ".as_slice()],
        vec![b"{".as_slice(), b"} ".as_slice()],
    ] {
        let mut oversized = BodyBuffer::new(2);
        let mut failure = None;
        for chunk in chunks {
            if let Err(error) = oversized.push(chunk) {
                failure = Some(error);
            }
        }
        let error = failure.unwrap();

        assert_eq!(error.kind(), ErrorKind::MalformedResponse);
        assert!(error.message().contains("byte limit"));
        assert_eq!(
            error.message(),
            "buffered response body exceeded the configured 2 byte limit"
        );
    }
}

#[test]
fn error_bodies_are_cut_at_the_limit() {
    let mut body = BodyBuffer::new(4);
    assert!(body.push_part(b"abc"));
    assert!(body.push_part(b"def"));
    assert!(!body.push_part(b"ghi"));
    assert_eq!(body.into_bytes(), b"abcd");
}

#[test]
fn rejected_credentials_are_tried_again_only_with_an_authenticator() {
    assert!(may_reauthenticate(401, true));
    assert!(may_reauthenticate(403, true));
    assert!(!may_reauthenticate(429, true));
    assert!(!may_reauthenticate(401, false));
}

#[test]
fn streaming_bodies_are_told_apart() {
    let json = HeaderMap::from_iter([(
        header::CONTENT_TYPE,
        HeaderValue::from_static("application/json"),
    )]);

    assert_eq!(stream_body(500, &json), StreamBody::Failure);
    assert_eq!(stream_body(200, &json), StreamBody::Json);
    assert_eq!(stream_body(200, &HeaderMap::new()), StreamBody::Frames);
}

#[test]
fn buffered_results_carry_warnings_and_the_request_id() {
    let result = finish_generate(
        ApiProfile::OpenAiChatCompletions,
        "custom-model",
        vec![Warning::other("lowering")],
        200,
        &with_request_id(),
        COMPLETION,
    )
    .unwrap();

    assert_eq!(result.text(), "hello");
    assert_eq!(result.warnings[0].message, "lowering");
    assert_eq!(result.response.request_id.as_deref(), Some("json-request"));
    assert_eq!(result.usage.total_tokens, Some(4));
}

#[test]
fn failed_responses_are_decoded_and_annotated() {
    let error = finish_generate(
        ApiProfile::OpenAiChatCompletions,
        "custom-model",
        Vec::new(),
        401,
        &with_request_id(),
        br#"{"error":{"message":"bad key"}}"#,
    )
    .unwrap_err();

    assert_eq!(error.kind(), ErrorKind::Authentication);
    assert_eq!(error.origin(), Some("openai-chat"));
    assert_eq!(error.model(), Some("custom-model"));
    assert_eq!(error.request_id(), Some("json-request"));
}

#[test]
fn undecodable_bodies_carry_the_context_of_the_exchange() {
    let error = decode_buffered_response(
        ApiProfile::AnthropicMessages,
        "custom-model",
        Vec::new(),
        200,
        &with_request_id(),
        b"not json",
    )
    .unwrap_err();

    assert_eq!(error.kind(), ErrorKind::MalformedResponse);
    assert_eq!(error.origin(), Some("anthropic"));
    assert_eq!(error.model(), Some("custom-model"));
    assert_eq!(error.request_id(), Some("json-request"));
}

#[test]
fn credential_checks_accept_success_only() {
    let none = HeaderMap::new();

    assert!(finish_verify(ApiProfile::OpenAiResponses, 204, &none, b"").is_ok());
    let error = finish_verify(ApiProfile::OpenAiResponses, 403, &none, b"{}").unwrap_err();
    assert_eq!(error.kind(), ErrorKind::Permission);
    assert_eq!(error.origin(), Some("openai-responses"));
}

#[test]
fn a_stream_opens_with_its_warnings_and_request_id() {
    let events = opening_events(vec![Warning::other("w")], Some("r".into()));

    assert_eq!(events.len(), 2);
    assert!(matches!(&events[0], StreamEvent::StreamStart { warnings } if warnings.len() == 1));
    assert!(matches!(
        &events[1],
        StreamEvent::ResponseMetadata(metadata) if metadata.request_id.as_deref() == Some("r")
    ));
    assert_eq!(opening_events(Vec::new(), None).len(), 1);
}

#[test]
fn a_whole_stream_ends_with_one_terminal_event() {
    let mut runner = chat_runner(&HeaderMap::new());
    let mut events = opening_events(Vec::new(), None);
    for chunk in [
        &b"data: {\"id\":\"c\",\"choices\":[{\"index\":0,\"delta\":{\"content\":\"he"[..],
        &b"llo\"}}]}\n\ndata: {\"choices\":[{\"index\":0,\"delta\":{},"[..],
        &b"\"finish_reason\":\"stop\"}]}\n\ndata: [DONE]\n\n"[..],
    ] {
        assert!(runner.has_room(chunk.len()));
        events.extend(runner.on_chunk(chunk));
    }
    events.extend(runner.on_end());

    assert!(runner.is_exhausted());
    assert!(last_is_finish(&events, FinishReason::Stop));
    let finishes = events
        .iter()
        .filter(|event| matches!(event, StreamEvent::Finish { .. }))
        .count();
    assert_eq!(finishes, 1);
    assert_eq!(collect_result(events).unwrap().text(), "hello");
    assert!(runner.on_chunk(b"data: {}\n\n").is_empty());
    assert!(runner.on_end().is_empty());
}

#[test]
fn a_body_without_a_terminal_event_is_truncated() {
    let mut runner = chat_runner(&with_request_id());
    let mut events = runner.on_chunk(
        b"data: {\"choices\":[{\"index\":0,\"delta\":{\"content\":\"par\"}}]}\n\n",
    );
    events.extend(runner.on_end());

    assert!(runner.is_exhausted());
    assert!(last_is_finish(&events, FinishReason::Error));
    let error = collect_result(events).unwrap_err();
    assert_eq!(error.kind(), ErrorKind::TruncatedStream);
    assert_eq!(error.origin(), Some("openai-chat"));
    assert_eq!(error.request_id(), Some("json-request"));
}

#[test]
fn a_failed_read_ends_the_stream_and_is_not_retryable() {
    let mut runner = chat_runner(&HeaderMap::new());
    let events = runner.on_read_error(Error::new(ErrorKind::Transport, "reset"));

    assert!(runner.is_exhausted());
    assert!(last_is_finish(&events, FinishReason::Error));
    let StreamEvent::Error { error } = &events[0] else {
        panic!("missing error");
    };
    assert_eq!(error.kind(), ErrorKind::Transport);
    assert!(!error.retryable());
}

#[test]
fn a_frame_that_is_no_event_ends_the_stream() {
    let mut runner = chat_runner(&HeaderMap::new());
    let events = runner.on_chunk(b"data: {broken\n\n");

    assert!(runner.is_exhausted());
    assert!(last_is_finish(&events, FinishReason::Error));
}

#[test]
fn corrupt_framing_ends_the_stream_after_the_frames_before_it() {
    let mut runner = StreamRunner::new(
        ApiProfile::BedrockAnthropic,
        "model",
        false,
        &HeaderMap::new(),
    );
    let mut message = encode_message(&[(":message-type", "event")], b"{}");
    let last = message.len() - 1;
    message[last] ^= 0xFF;
    let events = runner.on_chunk(&message);

    assert!(runner.is_exhausted());
    assert!(last_is_finish(&events, FinishReason::Error));
    let error = collect_result(events).unwrap_err();
    assert_eq!(error.kind(), ErrorKind::MalformedResponse);
    assert_eq!(
        error.message(),
        "provider stream contained a malformed event stream message"
    );
}

#[test]
fn stream_exceptions_fail_the_stream() {
    let mut runner = StreamRunner::new(
        ApiProfile::BedrockAnthropic,
        "model",
        false,
        &HeaderMap::new(),
    );
    let message = encode_message(
        &[
            (":exception-type", "throttlingException"),
            (":message-type", "exception"),
        ],
        br#"{"message":"slow down"}"#,
    );
    let events = runner.on_chunk(&message);

    assert!(runner.is_exhausted());
    let error = collect_result(events).unwrap_err();
    assert_eq!(error.kind(), ErrorKind::RateLimited);
    assert_eq!(error.message(), "slow down");
}

#[test]
fn a_json_answer_to_a_streaming_request_is_replayed() {
    let events = replay_json(
        ApiProfile::OpenAiChatCompletions,
        "custom-model",
        vec![Warning::other("lowering")],
        false,
        200,
        &with_request_id(),
        COMPLETION,
    )
    .unwrap();

    assert!(matches!(&events[0], StreamEvent::StreamStart { warnings } if warnings.len() == 1));
    assert!(last_is_finish(&events, FinishReason::Stop));
    let result = collect_result(events).unwrap();
    assert_eq!(result.text(), "hello");
    assert_eq!(result.usage.total_tokens, Some(4));
    assert_eq!(result.response.id.as_deref(), Some("c1"));
}
