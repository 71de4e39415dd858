use cogfer::capabilities::ModelCapabilities;
use cogfer::json::Json;
use cogfer::message::{Message, ToolResultPart};
use cogfer::protocols::handler::decode_response;
use cogfer::protocols::prepare::prepare_within_limits;
use cogfer::protocols::runner::{decode_buffered_with, replay_json};
use cogfer::protocols::ApiProfile;
use cogfer::request::Request;
use cogfer::response::Warning;
use cogfer::stream::accumulator::collect_result;
use http::HeaderMap;

fn json(text: &str) -> Json {
    Json::parse(text).unwrap()
}

/// The body of a request whose history holds an answer and a result for each of
/// its calls.
fn next_body(profile: ApiProfile, answer: &str) -> Json {
    let result = decode_response(profile, "model-x", answer.as_bytes()).unwrap();
    let results: Vec<ToolResultPart> = result
        .tool_calls()
        .iter()
        .map(|call| ToolResultPart::for_call(call, "42"))
        .collect();
    let mut builder = Request::builder()
        .message(Message::user("hi"))
        .message(result.to_assistant_message());
    for result in results {
        builder = builder.message(Message::tool_result(result));
    }
    prepare_within_limits(
        profile,
        "model-x",
        &ModelCapabilities::for_profile(profile),
        &builder.build(),
        profile.default_base_url(),
        &HeaderMap::new(),
        false,
    )
    .unwrap()
    .unwrap()
    .body
}

fn elements(value: Option<&Json>) -> &[Json] {
    match value {
        Some(Json::Array(items)) => items,
        other => panic!("not an array: {other:?}"),
    }
}

#[test]
fn responses_items_come_back_in_the_next_request() {
    let body = next_body(
        ApiProfile::OpenAiResponses,
        r#"{
            "id": "resp_1", "status": "completed",
            "output": [
                {"type": "reasoning", "id": "rs_1", "encrypted_content": "opaque",
                 "summary": [{"type": "summary_text", "text": "thought"}]},
                {"type": "message", "phase": "final", "content": [
                    {"type": "output_text", "text": "hello", "annotations": []}]},
                {"type": "web_search_call", "id": "ws_1", "status": "completed"},
                {"type": "function_call", "id": "fc_1", "call_id": "call_1", "name": "lookup",
                 "arguments": "{\"q\":1}", "status": "completed"}
            ]
        }"#,
    );
    let input = elements(body.get("input"));

    assert_eq!(
        input[1],
        json(
            r#"{"type": "reasoning", "id": "rs_1", "encrypted_content": "opaque",
                "summary": [{"type": "summary_text", "text": "thought"}]}"#
        )
    );
    assert_eq!(
        input[2],
        json(
            r#"{"type": "message", "role": "assistant", "phase": "final",
                "content": [{"type": "output_text", "text": "hello"}]}"#
        )
    );
    assert_eq!(
        input[3],
        json(r#"{"type": "web_search_call", "id": "ws_1", "status": "completed"}"#)
    );
    assert_eq!(
        input[4],
        json(
            r#"{"type": "function_call", "id": "fc_1", "call_id": "call_1", "name": "lookup",
                "arguments": "{\"q\":1}"}"#
        )
    );
}

#[test]
fn anthropic_blocks_come_back_in_the_next_request() {
    let content = r#"[
        {"type": "thinking", "thinking": "hm", "signature": "sig"},
        {"type": "redacted_thinking", "data": "opaque"},
        {"type": "text", "text": "hello"},
        {"type": "server_tool_use", "id": "st_1", "name": "web_search", "input": {"q": 2}},
        {"type": "tool_use", "id": "call_1", "name": "lookup", "input": {"q": 1}}
    ]"#;
    let body = next_body(
        ApiProfile::AnthropicMessages,
        &format!(r#"{{"id": "msg_1", "stop_reason": "tool_use", "content": {content}}}"#),
    );

    assert_eq!(
        elements(body.get("messages"))[1].get("content"),
        Some(&json(content))
    );
}

#[test]
fn gemini_signatures_come_back_in_the_next_request() {
    let parts = r#"[
        {"text": "thinking", "thought": true, "thoughtSignature": "s1"},
        {"text": "hello", "thoughtSignature": "s2"},
        {"functionCall": {"id": "fc_1", "name": "lookup", "args": {"q": 1}},
         "thoughtSignature": "s3"}
    ]"#;
    let body = next_body(
        ApiProfile::GeminiGenerateContent,
        &format!(
            r#"{{"candidates": [{{"finishReason": "STOP", "content": {{"parts": {parts}}}}}]}}"#
        ),
    );

    assert_eq!(
        elements(body.get("contents"))[1].get("parts"),
        Some(&json(parts))
    );
}

#[test]
fn openrouter_details_come_back_in_the_next_request() {
    let details = r#"[
        {"type": "reasoning.text", "text": "hm", "signature": "sig", "index": 0},
        {"type": "reasoning.unknown", "blob": 1}
    ]"#;
    let body = next_body(
        ApiProfile::OpenRouter,
        &format!(
            r#"{{"id": "c1", "choices": [{{"finish_reason": "stop", "message": {{
                "content": "hello", "reasoning_details": {details}}}}}]}}"#
        ),
    );
    let message = &elements(body.get("messages"))[1];

    assert_eq!(message.get("reasoning_details"), Some(&json(details)));
    assert_eq!(message.get("content"), Some(&json(r#""hello""#)));
}

#[test]
fn collecting_a_replayed_answer_gives_it_back() {
    let answer = r#"{
        "id": "msg_1", "model": "model-y", "stop_reason": "tool_use",
        "content": [
            {"type": "thinking", "thinking": "hm", "signature": "sig"},
            {"type": "tool_use", "id": "call_1", "name": "lookup", "input": {"q": 1}},
            {"type": "text", "text": "hello"},
            {"type": "tool_use", "id": "call_2", "name": "lookup", "input": {"q": 2}}
        ],
        "usage": {"input_tokens": 3, "output_tokens": 5}
    }"#;
    let profile = ApiProfile::AnthropicMessages;
    let expected = decode_response(profile, "model-x", answer.as_bytes()).unwrap();
    let events = replay_json(
        profile,
        "model-x",
        Vec::new(),
        false,
        200,
        &HeaderMap::new(),
        answer.as_bytes(),
    )
    .unwrap();

    assert_eq!(collect_result(events).unwrap(), expected);
}

#[test]
fn buffered_answers_carry_warnings_request_ids_and_given_call_ids() {
    let mut headers = HeaderMap::new();
    headers.insert("x-request-id", "req_1".parse().unwrap());
    let result = decode_buffered_with(
        ApiProfile::GeminiGenerateContent,
        "model-x",
        vec![Warning::other("lowering")],
        200,
        &headers,
        br#"{"candidates": [{"finishReason": "STOP", "content": {"parts": [
            {"functionCall": {"name": "lookup", "args": {}}}]}}]}"#,
        &vec!["0123".to_owned()],
    )
    .unwrap();

    assert_eq!(result.warnings, vec![Warning::other("lowering")]);
    assert_eq!(result.response.request_id.as_deref(), Some("req_1"));
    assert_eq!(result.tool_calls()[0].call_id, "call_0123");
}
