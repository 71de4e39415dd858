use cogfer::error::ErrorKind;
use cogfer::protocols::runner::StreamRunner;
use cogfer::protocols::ApiProfile;
use cogfer::response::{FinishReason, GenerateResult};
use cogfer::stream::accumulator::collect_result;
use cogfer::stream::event::StreamEvent;
use cogfer::transport::event_stream::encode_message;
use http::HeaderMap;

fn sse(frames: &[&str]) -> Vec<u8> {
    let mut body = Vec::new();
    for frame in frames {
        body.extend_from_slice(b"data: ");
        body.extend_from_slice(frame.as_bytes());
        body.extend_from_slice(b"\n\n");
    }
    body
}

fn events_in(profile: ApiProfile, body: &[u8], size: usize) -> Vec<StreamEvent> {
    let mut runner = StreamRunner::new(profile, "model-x", false, &HeaderMap::new());
    let mut events = Vec::new();
    for chunk in body.chunks(size) {
        events.extend(runner.on_chunk(chunk));
    }
    events.extend(runner.on_end());
    assert!(runner.is_exhausted());
    events
}

fn events(profile: ApiProfile, body: &[u8]) -> Vec<StreamEvent> {
    events_in(profile, body, body.len().max(1))
}

fn result(profile: ApiProfile, body: &[u8]) -> GenerateResult {
    collect_result(events(profile, body)).unwrap()
}

fn anthropic_frames() -> [&'static str; 8] {
    [
        r#"{"type":"message_start","message":{"id":"msg_1","model":"model-y","usage":{"input_tokens":3}}}"#,
        r#"{"type":"content_block_start","index":0,"content_block":{"type":"text","text":""}}"#,
        r#"{"type":"content_block_delta","index":0,"delta":{"type":"text_delta","text":"hello"}}"#,
        r#"{"type":"content_block_stop","index":0}"#,
        r#"{"type":"content_block_start","index":1,"content_block":{"type":"tool_use","id":"call_1","name":"lookup","input":{}}}"#,
        r#"{"type":"content_block_delta","index":1,"delta":{"type":"input_json_delta","partial_json":"{\"q\":1}"}}"#,
        r#"{"type":"content_block_stop","index":1}"#,
        r#"{"type":"message_delta","delta":{"stop_reason":"tool_use"},"usage":{"output_tokens":7}}"#,
    ]
}

const MESSAGE_STOP: &str = r#"{"type":"message_stop"}"#;

#[test]
fn anthropic_streams_are_decoded() {
    let mut frames = anthropic_frames().to_vec();
    frames.push(MESSAGE_STOP);
    let result = result(ApiProfile::AnthropicMessages, &sse(&frames));

    assert_eq!(result.text(), "hello");
    assert_eq!(result.tool_calls()[0].arguments, r#"{"q":1}"#);
    assert_eq!(result.finish.reason, FinishReason::ToolCalls);
    assert_eq!(result.usage.input_tokens, Some(3));
    assert_eq!(result.usage.output_tokens, Some(7));
    assert_eq!(result.response.id.as_deref(), Some("msg_1"));
}

#[test]
fn bedrock_streams_wrap_the_same_events() {
    let mut body = Vec::new();
    let mut frames = anthropic_frames().to_vec();
    frames.push(MESSAGE_STOP);
    for frame in &frames {
        let bytes = base64::Engine::encode(&base64::engine::general_purpose::STANDARD, frame);
        body.extend(encode_message(
            &[(":event-type", "chunk"), (":message-type", "event")],
            format!("{{\"bytes\":\"{bytes}\"}}").as_bytes(),
        ));
    }
    let wrapped = result(ApiProfile::BedrockAnthropic, &body);

    assert_eq!(wrapped.text(), "hello");
    assert_eq!(wrapped.tool_calls()[0].name, "lookup");
}

#[test]
fn bedrock_chunks_must_be_base64() {
    let body = encode_message(
        &[(":event-type", "chunk"), (":message-type", "event")],
        br#"{"bytes":"?"}"#,
    );
    let error = collect_result(events(ApiProfile::BedrockAnthropic, &body)).unwrap_err();

    assert_eq!(error.kind(), ErrorKind::MalformedResponse);
}

#[test]
fn streams_do_not_depend_on_where_chunks_end() {
    let mut frames = anthropic_frames().to_vec();
    frames.push(MESSAGE_STOP);
    let body = sse(&frames);
    let whole = events(ApiProfile::AnthropicMessages, &body);

    for size in [1, 7, 64] {
        assert_eq!(
            events_in(ApiProfile::AnthropicMessages, &body, size),
            whole,
            "{size}"
        );
    }
}

#[test]
fn an_interrupted_call_never_comes_out() {
    let frames = anthropic_frames();
    let events = events(ApiProfile::AnthropicMessages, &sse(&frames[..6]));

    assert!(!events
        .iter()
        .any(|event| matches!(event, StreamEvent::ToolCall(_))));
    assert!(events
        .iter()
        .any(|event| matches!(event, StreamEvent::ToolInputEnd { .. })));
    assert_eq!(
        collect_result(events).unwrap_err().kind(),
        ErrorKind::TruncatedStream
    );
}

#[test]
fn anthropic_error_events_fail_the_stream() {
    let events = events(
        ApiProfile::AnthropicMessages,
        &sse(&[r#"{"type":"error","error":{"type":"overloaded_error","message":"busy"}}"#]),
    );
    let error = collect_result(events).unwrap_err();

    assert_eq!(error.kind(), ErrorKind::Overloaded);
    assert_eq!(error.message(), "busy");
    assert_eq!(error.origin(), Some("anthropic"));
}

#[test]
fn responses_streams_are_decoded() {
    let result = result(
        ApiProfile::OpenAiResponses,
        &sse(&[
            r#"{"type":"response.created","response":{"id":"resp_1","model":"model-y"}}"#,
            r#"{"type":"response.output_item.added","item":{"type":"message","id":"msg_1"}}"#,
            r#"{"type":"response.content_part.added","item_id":"msg_1","content_index":0,"part":{"type":"output_text"}}"#,
            r#"{"type":"response.output_text.delta","item_id":"msg_1","content_index":0,"delta":"hello"}"#,
            r#"{"type":"response.output_item.done","item":{"type":"message","id":"msg_1","content":[{"type":"output_text","text":"hello"}]}}"#,
            r#"{"type":"response.output_item.added","item":{"type":"function_call","id":"fc_1","call_id":"call_1","name":"lookup"}}"#,
            r#"{"type":"response.function_call_arguments.delta","item_id":"fc_1","delta":"{}"}"#,
            r#"{"type":"response.output_item.done","item":{"type":"function_call","id":"fc_1","call_id":"call_1","name":"lookup","arguments":"{}","status":"completed"}}"#,
            r#"{"type":"response.completed","response":{"id":"resp_1","status":"completed","usage":{"input_tokens":3,"output_tokens":5,"total_tokens":8}}}"#,
        ]),
    );

    assert_eq!(result.text(), "hello");
    assert_eq!(result.tool_calls()[0].call_id, "call_1");
    assert_eq!(result.tool_calls()[0].item_id.as_deref(), Some("fc_1"));
    assert_eq!(result.finish.reason, FinishReason::ToolCalls);
    assert_eq!(result.usage.total_tokens, Some(8));
    assert_eq!(result.response.id.as_deref(), Some("resp_1"));
}

#[test]
fn failed_responses_fail_the_stream() {
    let events = events(
        ApiProfile::OpenAiResponses,
        &sse(&[r#"{"type":"response.failed","response":{"status":"failed","error":{"code":"server_error","message":"it broke"}}}"#]),
    );

    assert!(matches!(
        events.last(),
        Some(StreamEvent::Finish { finish, .. }) if finish.reason == FinishReason::Error
    ));
    assert_eq!(collect_result(events).unwrap_err().message(), "it broke");
}

#[test]
fn chat_streams_collect_tool_calls() {
    let result = result(
        ApiProfile::OpenAiChatCompletions,
        &sse(&[
            r#"{"id":"c","choices":[{"index":0,"delta":{"tool_calls":[{"index":0,"id":"call_1","type":"function","function":{"name":"lookup","arguments":"{\"q\""}}]}}]}"#,
            r#"{"choices":[{"index":0,"delta":{"tool_calls":[{"index":0,"function":{"arguments":":1}"}}]}}]}"#,
            r#"{"choices":[{"index":0,"delta":{},"finish_reason":"tool_calls"}]}"#,
            r#"{"choices":[],"usage":{"prompt_tokens":3,"completion_tokens":1,"total_tokens":4}}"#,
            "[DONE]",
        ]),
    );

    assert_eq!(result.tool_calls()[0].arguments, r#"{"q":1}"#);
    assert_eq!(result.finish.reason, FinishReason::ToolCalls);
    assert_eq!(result.usage.total_tokens, Some(4));
}

#[test]
fn chat_error_frames_fail_the_stream() {
    let events = events(
        ApiProfile::OpenRouter,
        &sse(&[r#"{"error":{"code":429,"message":"slow down"}}"#]),
    );
    let error = collect_result(events).unwrap_err();

    assert_eq!(error.kind(), ErrorKind::RateLimited);
    assert_eq!(error.message(), "slow down");
}

#[test]
fn gemini_streams_are_decoded() {
    let result = result(
        ApiProfile::GeminiGenerateContent,
        &sse(&[
            r#"{"responseId":"r1","candidates":[{"content":{"parts":[{"text":"hel"}]}}]}"#,
            r#"{"candidates":[{"content":{"parts":[{"text":"lo"},{"functionCall":{"name":"lookup","args":{"q":1}}}]},"finishReason":"STOP"}],"usageMetadata":{"promptTokenCount":4,"candidatesTokenCount":2}}"#,
        ]),
    );

    assert_eq!(result.text(), "hello");
    assert_eq!(result.tool_calls()[0].arguments, r#"{"q":1}"#);
    assert_eq!(result.finish.reason, FinishReason::ToolCalls);
    assert_eq!(result.usage.input_tokens, Some(4));
}

#[test]
fn streamed_gemini_calls_get_ids_of_their_own() {
    let result = result(
        ApiProfile::GeminiGenerateContent,
        &sse(&[
            r#"{"candidates":[{"content":{"parts":[{"functionCall":{"name":"a","args":{}}},{"functionCall":{"name":"b","args":{}}}]}}]}"#,
            r#"{"candidates":[{"content":{"parts":[{"functionCall":{"name":"c","args":{}}}]},"finishReason":"STOP"}]}"#,
        ]),
    );
    let ids: Vec<&str> = result.tool_calls().iter().map(|call| call.call_id.as_str()).collect();

    assert_eq!(ids.len(), 3);
    for id in &ids {
        let uuid = id.strip_prefix("call_").unwrap();
        assert_eq!(uuid.len(), 32, "{id}");
        assert!(uuid.bytes().all(|b| b.is_ascii_digit() || (b'a'..=b'f').contains(&b)), "{id}");
    }
    assert_ne!(ids[0], ids[1]);
    assert_ne!(ids[1], ids[2]);
    assert_ne!(ids[0], ids[2]);
}

#[test]
fn raw_events_come_out_on_request_only() {
    let body = sse(&[r#"{"type":"response.novelty","x":1}"#]);
    let mut quiet = StreamRunner::new(
        ApiProfile::OpenAiResponses,
        "model-x",
        false,
        &HeaderMap::new(),
    );
    let mut raw = StreamRunner::new(
        ApiProfile::OpenAiResponses,
        "model-x",
        true,
        &HeaderMap::new(),
    );

    assert!(!quiet
        .on_chunk(&body)
        .iter()
        .any(|event| matches!(event, StreamEvent::Raw { .. })));
    assert!(raw
        .on_chunk(&body)
        .iter()
        .any(|event| matches!(event, StreamEvent::Raw { .. })));
}
