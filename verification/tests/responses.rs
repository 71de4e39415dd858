use cogfer::error::ErrorKind;
use cogfer::http_support::error_kind_for_status;
use cogfer::json::Json;
use cogfer::message::{AssistantPart, ReasoningContent};
use cogfer::protocols::gemini::types::decode_body_with;
use cogfer::protocols::handler::{decode_error, decode_response, decode_response_with};
use cogfer::protocols::openai::chat::types::merge_reasoning_details;
use cogfer::protocols::{foreign_origin, ApiProfile};
use cogfer::response::{FinishReason, GenerateResult};
use http::{HeaderMap, HeaderName, HeaderValue};

fn json(text: &str) -> Json {
    Json::parse(text).unwrap()
}

fn decode(profile: ApiProfile, body: &str) -> GenerateResult {
    decode_response(profile, "model-x", body.as_bytes()).unwrap()
}

fn refused(profile: ApiProfile, status: u16, body: &str) -> ErrorKind {
    decode_error(profile, status, &HeaderMap::new(), body.as_bytes()).kind()
}

#[test]
fn anthropic_messages_are_decoded() {
    let result = decode(
        ApiProfile::AnthropicMessages,
        r#"{
            "id": "msg_1", "model": "model-y", "stop_reason": "tool_use",
            "content": [
                {"type": "thinking", "thinking": "hm", "signature": "sig"},
                {"type": "text", "text": "hello"},
                {"type": "tool_use", "id": "call_1", "name": "lookup", "input": {"q": 1}}
            ],
            "usage": {"input_tokens": 3, "output_tokens": 5, "cache_read_input_tokens": 2}
        }"#,
    );

    assert_eq!(result.text(), "hello");
    assert_eq!(result.finish.reason, FinishReason::ToolCalls);
    assert_eq!(result.finish.raw.as_deref(), Some("tool_use"));
    assert_eq!(result.tool_calls()[0].arguments, r#"{"q":1}"#);
    assert_eq!(
        result.reasoning()[0].content[0],
        ReasoningContent::Text {
            text: "hm".into(),
            signature: Some("sig".into()),
        }
    );
    assert_eq!(result.usage.input_tokens, Some(3));
    assert_eq!(result.usage.cached_input_tokens, Some(2));
    assert_eq!(result.response.id.as_deref(), Some("msg_1"));
}

#[test]
fn responses_objects_are_decoded() {
    let result = decode(
        ApiProfile::OpenAiResponses,
        r#"{
            "id": "resp_1", "model": "model-y", "status": "completed",
            "output": [
                {"type": "reasoning", "id": "rs_1",
                    "summary": [{"type": "summary_text", "text": "thought"}],
                    "encrypted_content": "opaque"},
                {"type": "message", "id": "msg_1", "role": "assistant", "status": "completed",
                    "content": [{"type": "output_text", "text": "hello", "annotations": []}]}
            ],
            "usage": {"input_tokens": 3, "output_tokens": 5, "total_tokens": 8}
        }"#,
    );

    assert_eq!(result.text(), "hello");
    assert_eq!(result.finish.reason, FinishReason::Stop);
    assert_eq!(result.usage.total_tokens, Some(8));
    let AssistantPart::Reasoning(reasoning) = &result.content[0] else {
        panic!("missing reasoning");
    };
    assert_eq!(reasoning.id.as_deref(), Some("rs_1"));
    assert_eq!(reasoning.visible_text(), "thought");
    assert_eq!(
        foreign_origin(&result.provider_metadata, ApiProfile::XaiResponses),
        Some("openai-responses")
    );
}

#[test]
fn chat_completions_are_decoded() {
    let result = decode(
        ApiProfile::OpenAiChatCompletions,
        r#"{
            "id": "c1", "model": "model-y",
            "choices": [{"index": 0, "finish_reason": "stop", "message": {
                "role": "assistant", "content": null,
                "tool_calls": [{"id": "call_1", "type": "function",
                    "function": {"name": "lookup", "arguments": "  "}}]
            }}]
        }"#,
    );

    assert_eq!(result.finish.reason, FinishReason::ToolCalls);
    assert_eq!(result.tool_calls()[0].arguments, "{}");
    assert!(result.has_tool_calls());
}

#[test]
fn calls_with_broken_arguments_are_malformed() {
    let error = decode_response(
        ApiProfile::OpenAiChatCompletions,
        "model-x",
        br#"{"choices": [{"index": 0, "finish_reason": "tool_calls", "message": {
            "tool_calls": [{"id": "call_1", "type": "function",
                "function": {"name": "lookup", "arguments": "{"}}]}}]}"#,
    )
    .unwrap_err();

    assert_eq!(error.kind(), ErrorKind::MalformedResponse);
    assert!(error.message().contains("call_1"));
    assert!(error.source().unwrap().contains("EOF"), "{:?}", error.source());
}

#[test]
fn calls_of_a_cut_answer_are_dropped() {
    let result = decode(
        ApiProfile::OpenAiChatCompletions,
        r#"{"choices": [{"index": 0, "finish_reason": "length", "message": {
            "content": "par",
            "tool_calls": [{"id": "call_1", "type": "function",
                "function": {"name": "lookup", "arguments": "{"}}]}}]}"#,
    );

    assert_eq!(result.finish.reason, FinishReason::Length);
    assert!(!result.has_tool_calls());
    assert_eq!(result.text(), "par");
}

const GEMINI_CALL: &str = r#"{
    "responseId": "r1",
    "candidates": [{"finishReason": "STOP", "content": {"parts": [
        {"text": "so", "thought": true},
        {"text": "hello"},
        {"functionCall": {"name": "lookup", "args": {"q": 1}}},
        {"functionCall": {"id": "kept", "name": "lookup", "args": {}}}
    ]}}],
    "usageMetadata": {"promptTokenCount": 4, "candidatesTokenCount": 2, "thoughtsTokenCount": 3}
}"#;

#[test]
fn gemini_calls_without_an_id_get_one() {
    let result = decode(ApiProfile::GeminiGenerateContent, GEMINI_CALL);
    let again = decode(ApiProfile::GeminiGenerateContent, GEMINI_CALL);
    let calls = result.tool_calls();

    assert_eq!(result.text(), "hello");
    assert_eq!(calls.len(), 2);
    assert_ne!(calls[0].call_id, again.tool_calls()[0].call_id);
    assert_eq!(calls[0].provider_call_id, None);
    assert_eq!(calls[1].provider_call_id.as_deref(), Some("kept"));
    assert_eq!(result.finish.reason, FinishReason::ToolCalls);
    assert_eq!(result.usage.output_tokens, Some(5));
    assert_eq!(result.usage.reasoning_tokens, Some(3));
}

fn is_synthetic(id: &str) -> bool {
    id.strip_prefix("call_").is_some_and(|uuid| {
        uuid.len() == 32 && uuid.bytes().all(|b| b.is_ascii_digit() || (b'a'..=b'f').contains(&b))
    })
}

#[test]
fn parallel_gemini_calls_get_ids_of_their_own() {
    let result = decode(
        ApiProfile::GeminiGenerateContent,
        r#"{"candidates": [{"finishReason": "STOP", "content": {"parts": [
            {"functionCall": {"name": "a", "args": {}}},
            {"functionCall": {"name": "b", "args": {}}}
        ]}}]}"#,
    );
    let calls = result.tool_calls();

    assert!(is_synthetic(&calls[0].call_id), "{}", calls[0].call_id);
    assert!(is_synthetic(&calls[1].call_id), "{}", calls[1].call_id);
    assert_ne!(calls[0].call_id, calls[1].call_id);
}

#[test]
fn gemini_bodies_decode_the_same_with_given_ids() {
    let ids: Vec<String> = ["1", "2", "3", "4"].map(str::to_owned).to_vec();
    let direct = decode_body_with(GEMINI_CALL.as_bytes(), &ids).unwrap();
    let through = decode_response_with(
        ApiProfile::GeminiGenerateContent,
        "model-x",
        GEMINI_CALL.as_bytes(),
        &ids,
    )
    .unwrap();

    assert_eq!(direct, through);
    assert_eq!(direct.tool_calls()[0].call_id, "call_3");
    assert_eq!(direct.tool_calls()[1].call_id, "kept");
}

#[test]
fn chatgpt_transcripts_are_decoded() {
    let body = "event: response.output_text.delta\n\
        data: {\"type\":\"response.content_part.added\",\"item_id\":\"m\",\"content_index\":0,\"part\":{\"type\":\"output_text\"}}\n\n\
        data: {\"type\":\"response.output_text.delta\",\"item_id\":\"m\",\"content_index\":0,\"delta\":\"hello\"}\n\n\
        data: {\"type\":\"response.completed\",\"response\":{\"id\":\"r\",\"status\":\"completed\",\"output\":[]}}\n\n";
    let result = decode(ApiProfile::ChatGptResponses, body);

    assert_eq!(result.text(), "hello");
    assert_eq!(result.finish.reason, FinishReason::Stop);
}

#[test]
fn chatgpt_transcripts_need_a_terminal_event() {
    let error = decode_response(
        ApiProfile::ChatGptResponses,
        "model-x",
        b"data: {\"type\":\"response.created\"}\n\n",
    )
    .unwrap_err();

    assert_eq!(
        error.message(),
        "chatgpt: response transcript ended without a terminal response event"
    );
}

#[test]
fn chatgpt_error_events_win() {
    let error = decode_response(
        ApiProfile::ChatGptResponses,
        "model-x",
        b"data: {\"type\":\"error\",\"message\":\"no\",\"code\":\"content_filter\"}\n\n\
          data: {\"type\":\"response.completed\",\"response\":{\"status\":\"completed\",\"output\":[]}}\n\n",
    )
    .unwrap_err();

    assert_eq!(error.kind(), ErrorKind::ContentPolicy);
    assert_eq!(error.message(), "no");
}

#[test]
fn statuses_map_to_error_kinds() {
    for (status, kind) in [
        (401, ErrorKind::Authentication),
        (403, ErrorKind::Permission),
        (404, ErrorKind::NotFound),
        (408, ErrorKind::Timeout),
        (429, ErrorKind::RateLimited),
        (503, ErrorKind::Overloaded),
    ] {
        assert_eq!(error_kind_for_status(status), kind, "{status}");
    }
}

#[test]
fn error_envelopes_refine_the_kind() {
    assert_eq!(
        refused(
            ApiProfile::OpenAiResponses,
            400,
            r#"{"error": {"message": "too long", "code": "context_length_exceeded"}}"#
        ),
        ErrorKind::ContextLength
    );
    assert_eq!(
        refused(
            ApiProfile::AnthropicMessages,
            529,
            r#"{"error": {"type": "overloaded_error", "message": "busy"}}"#
        ),
        ErrorKind::Overloaded
    );
    assert_eq!(
        refused(
            ApiProfile::GeminiGenerateContent,
            400,
            r#"{"error": {"status": "RESOURCE_EXHAUSTED", "message": "quota"}}"#
        ),
        ErrorKind::RateLimited
    );
    assert_eq!(
        refused(ApiProfile::OpenRouter, 403, "not json"),
        ErrorKind::Permission
    );
}

#[test]
fn error_headers_are_kept() {
    let headers = HeaderMap::from_iter([
        (
            HeaderName::from_static("x-request-id"),
            HeaderValue::from_static("request-9"),
        ),
        (
            HeaderName::from_static("retry-after"),
            HeaderValue::from_static("3"),
        ),
    ]);
    let error = decode_error(ApiProfile::AnthropicMessages, 429, &headers, b"{}");

    assert_eq!(error.status(), Some(429));
    assert_eq!(error.request_id(), Some("request-9"));
    assert_eq!(error.retry_after().unwrap().secs, 3);
    assert!(error.retryable());
}

#[test]
fn reasoning_deltas_of_one_block_are_merged() {
    let merged = merge_reasoning_details(&vec![
        json(r#"{"type": "reasoning.text", "text": "a", "index": 0}"#),
        json(r#"{"type": "reasoning.text", "text": "b", "index": 0, "signature": "s"}"#),
        json(r#"{"type": "reasoning.text", "text": "c", "index": 1}"#),
    ]);

    assert_eq!(
        merged,
        vec![
            json(r#"{"type": "reasoning.text", "text": "ab", "index": 0, "signature": "s"}"#),
            json(r#"{"type": "reasoning.text", "text": "c", "index": 1}"#),
        ]
    );
}

#[test]
fn signed_blocks_without_an_index_stay_separate() {
    let details = vec![
        json(r#"{"type": "reasoning.text", "text": "a", "signature": "s"}"#),
        json(r#"{"type": "reasoning.text", "text": "b", "signature": "t"}"#),
    ];

    assert_eq!(merge_reasoning_details(&details), details);
}
