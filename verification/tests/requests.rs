use cogfer::capabilities::ModelCapabilities;
use cogfer::error::ErrorKind;
use cogfer::http_support::encode_path_segment;
use cogfer::json::{Float, Json};
use cogfer::message::{
    AssistantPart, Message, ReasoningContent, ReasoningPart, ToolCall, ToolResultPart,
};
use cogfer::metadata::ProviderMetadata;
use cogfer::protocols::handler::lower_with;
use cogfer::protocols::prepare::{prepare_within_limits, Prepared};
use cogfer::protocols::{foreign_origin, origin_metadata, ApiProfile};
use cogfer::request::{
    Real, ReasoningConfig, ReasoningEffort, Request, StructuredOutput, ToolChoice, ToolDefinition,
};
use http::{HeaderMap, HeaderName, HeaderValue};

fn json(text: &str) -> Json {
    Json::parse(text).unwrap()
}

fn hello() -> Request {
    Request::builder().message(Message::user("hi")).build()
}

fn prepared_at(profile: ApiProfile, request: &Request, base_url: &str, streaming: bool) -> Prepared {
    prepare_within_limits(
        profile,
        "model-x",
        &ModelCapabilities::for_profile(profile),
        request,
        base_url,
        &HeaderMap::new(),
        streaming,
    )
    .unwrap()
    .unwrap()
}

fn prepared(profile: ApiProfile, request: &Request) -> Prepared {
    prepared_at(profile, request, profile.default_base_url(), false)
}

fn body(profile: ApiProfile, request: &Request) -> Json {
    prepared(profile, request).body
}

fn header<'a>(headers: &'a HeaderMap, name: &str) -> Option<&'a str> {
    headers.get(name).map(|value| value.to_str().unwrap())
}

fn assistant(content: Vec<AssistantPart>, provider_metadata: ProviderMetadata) -> Message {
    Message::Assistant {
        content,
        provider_metadata,
    }
}

fn encrypted_reasoning() -> AssistantPart {
    AssistantPart::Reasoning(ReasoningPart {
        id: Some("rs_1".into()),
        content: vec![ReasoningContent::Encrypted {
            data: "opaque".into(),
        }],
        provider_metadata: ProviderMetadata::default(),
    })
}

fn call() -> ToolCall {
    ToolCall {
        call_id: "call_1".into(),
        item_id: Some("fc_1".into()),
        provider_call_id: None,
        name: "lookup".into(),
        arguments: r#"{"q":1}"#.into(),
        provider_metadata: ProviderMetadata::default(),
    }
}

#[test]
fn anthropic_requests_are_lowered() {
    let request = Request::builder()
        .system("be brief")
        .message(Message::user("hi"))
        .message(assistant(
            vec![AssistantPart::ToolCall(call())],
            ProviderMetadata::default(),
        ))
        .message(Message::tool_result(ToolResultPart::for_call(&call(), "42")))
        .build();
    let ready = prepared(ApiProfile::AnthropicMessages, &request);

    assert_eq!(ready.path, "messages");
    assert_eq!(
        ready.body,
        json(
            r#"{
                "model": "model-x",
                "max_tokens": 8192,
                "system": "be brief",
                "messages": [
                    {"role": "user", "content": [{"type": "text", "text": "hi"}]},
                    {"role": "assistant", "content": [
                        {"type": "tool_use", "id": "call_1", "name": "lookup", "input": {"q": 1}}
                    ]},
                    {"role": "user", "content": [
                        {"type": "tool_result", "tool_use_id": "call_1", "content": "42"}
                    ]}
                ]
            }"#
        )
    );
    assert_eq!(header(&ready.headers, "anthropic-version"), Some("2023-06-01"));
    assert_eq!(header(&ready.headers, "content-type"), Some("application/json"));
}

#[test]
fn bedrock_requests_name_the_model_in_the_path() {
    let ready = prepare_within_limits(
        ApiProfile::BedrockAnthropic,
        "vendor.model/1",
        &ModelCapabilities::for_profile(ApiProfile::BedrockAnthropic),
        &hello(),
        "https://bedrock-runtime.us-east-1.amazonaws.com",
        &HeaderMap::new(),
        true,
    )
    .unwrap()
    .unwrap();

    assert_eq!(
        ready.path,
        "model/vendor.model%2F1/invoke-with-response-stream"
    );
    assert_eq!(
        ready.body.get("anthropic_version"),
        Some(&json(r#""bedrock-2023-05-31""#))
    );
    assert!(ready.body.get("model").is_none());
}

#[test]
fn path_segments_keep_unreserved_characters_only() {
    assert_eq!(encode_path_segment("a-z_.~9"), "a-z_.~9");
    assert_eq!(encode_path_segment("a/b c"), "a%2Fb%20c");
    assert_eq!(encode_path_segment("é"), "%C3%A9");
}

#[test]
fn responses_requests_are_lowered() {
    let request = Request::builder()
        .system("be brief")
        .message(Message::user("hi"))
        .build();
    let ready = prepared(ApiProfile::OpenAiResponses, &request);

    assert_eq!(ready.path, "responses");
    assert_eq!(
        ready.body,
        json(
            r#"{
                "model": "model-x",
                "input": [
                    {"type": "message", "role": "system",
                        "content": [{"type": "input_text", "text": "be brief"}]},
                    {"type": "message", "role": "user",
                        "content": [{"type": "input_text", "text": "hi"}]}
                ],
                "store": false,
                "include": ["reasoning.encrypted_content"]
            }"#
        )
    );
}

#[test]
fn chatgpt_requests_carry_a_fresh_session() {
    let one = prepared(ApiProfile::ChatGptResponses, &hello());
    let two = prepared(ApiProfile::ChatGptResponses, &hello());
    let first = header(&one.headers, "session_id").unwrap().to_owned();
    let second = header(&two.headers, "session_id").unwrap().to_owned();

    assert_eq!(first.len(), 36);
    assert_eq!(first.as_bytes()[14], b'4');
    assert_ne!(first, second);
    assert_eq!(header(&one.headers, "originator"), Some("caido-ai"));
    assert_eq!(header(&one.headers, "user-agent"), Some("caido-ai/0.1.0"));
    assert_eq!(
        one.body.get("instructions"),
        Some(&json(r#""You are ChatGPT, a helpful AI assistant.""#))
    );
}

#[test]
fn lowering_with_a_given_session_is_repeatable() {
    let capabilities = ModelCapabilities::for_profile(ApiProfile::ChatGptResponses);
    let lowered = lower_with(
        ApiProfile::ChatGptResponses,
        &hello(),
        "model-x",
        &capabilities,
        None,
        "the-session",
        true,
    )
    .unwrap();

    assert!(lowered
        .headers
        .iter()
        .any(|(name, value)| name == "session_id" && value == "the-session"));
}

#[test]
fn chat_requests_speak_the_dialect_of_their_host() {
    let request = Request::builder()
        .message(Message::user("hi"))
        .max_output_tokens(7)
        .build();
    let official = body(ApiProfile::OpenAiChatCompletions, &request);
    let compatible = prepared_at(
        ApiProfile::OpenAiChatCompletions,
        &request,
        "http://localhost:11434/v1",
        false,
    )
    .body;

    assert_eq!(official.get("max_completion_tokens"), Some(&json("7")));
    assert_eq!(compatible.get("max_tokens"), Some(&json("7")));
    assert_eq!(
        official.get("messages"),
        Some(&json(r#"[{"role": "user", "content": "hi"}]"#))
    );
}

#[test]
fn gemini_requests_are_lowered() {
    let request = Request::builder()
        .system("be brief")
        .message(Message::user("hi"))
        .max_output_tokens(7)
        .build();
    let ready = prepared_at(
        ApiProfile::GeminiGenerateContent,
        &request,
        ApiProfile::GeminiGenerateContent.default_base_url(),
        true,
    );

    assert_eq!(ready.path, "models/model-x:streamGenerateContent");
    assert_eq!(ready.query, vec![("alt".to_owned(), "sse".to_owned())]);
    assert_eq!(
        ready.body,
        json(
            r#"{
                "contents": [{"role": "user", "parts": [{"text": "hi"}]}],
                "systemInstruction": {"parts": [{"text": "be brief"}]},
                "generationConfig": {"maxOutputTokens": 7}
            }"#
        )
    );
}

#[test]
fn provider_options_are_merged_into_the_body() {
    let request = Request::builder()
        .message(Message::user("hi"))
        .provider_option("openai", json(r#"{"store": true, "model": null}"#))
        .build();
    let lowered = body(ApiProfile::OpenAiChatCompletions, &request);

    assert_eq!(lowered.get("store"), Some(&json("true")));
    assert!(lowered.get("model").is_none());
}

#[test]
fn opaque_state_is_replayed_to_its_own_profile() {
    let request = Request::builder()
        .message(Message::user("hi"))
        .message(assistant(
            vec![encrypted_reasoning(), AssistantPart::ToolCall(call())],
            origin_metadata(ApiProfile::OpenAiResponses),
        ))
        .message(Message::tool_result(ToolResultPart::for_call(&call(), "42")))
        .build();
    let own = body(ApiProfile::OpenAiResponses, &request);
    let items = own.get("input").unwrap().as_array().unwrap();

    assert_eq!(
        items[1],
        json(r#"{"type": "reasoning", "summary": [], "id": "rs_1", "encrypted_content": "opaque"}"#)
    );
    assert_eq!(items[2].get("id"), Some(&json(r#""fc_1""#)));
}

#[test]
fn opaque_state_of_another_profile_is_dropped_with_one_warning() {
    let request = Request::builder()
        .message(Message::user("hi"))
        .message(assistant(
            vec![
                encrypted_reasoning(),
                encrypted_reasoning(),
                AssistantPart::ToolCall(call()),
            ],
            origin_metadata(ApiProfile::XaiResponses),
        ))
        .message(Message::tool_result(ToolResultPart::for_call(&call(), "42")))
        .build();
    let ready = prepared(ApiProfile::OpenAiResponses, &request);
    let items = ready.body.get("input").unwrap().as_array().unwrap();

    assert_eq!(items.len(), 3);
    assert_eq!(
        items[1],
        json(
            r#"{"type": "function_call", "call_id": "call_1", "name": "lookup",
                "arguments": "{\"q\":1}"}"#
        )
    );
    let about: Vec<_> = ready
        .warnings
        .iter()
        .filter(|warning| warning.message.contains("xai-responses"))
        .collect();
    assert_eq!(about.len(), 1);
}

#[test]
fn a_turn_is_foreign_to_every_other_profile() {
    let stamp = origin_metadata(ApiProfile::OpenRouter);

    assert_eq!(foreign_origin(&stamp, ApiProfile::OpenRouter), None);
    assert_eq!(
        foreign_origin(&stamp, ApiProfile::OpenAiResponses),
        Some("openrouter")
    );
    assert_eq!(
        foreign_origin(&ProviderMetadata::default(), ApiProfile::OpenRouter),
        None
    );
}

#[test]
fn openrouter_reasoning_of_another_profile_is_not_rebuilt() {
    let turn = |origin: ApiProfile| {
        Request::builder()
            .message(Message::user("hi"))
            .message(assistant(
                vec![
                    encrypted_reasoning(),
                    AssistantPart::Text {
                        text: "answer".into(),
                        provider_metadata: ProviderMetadata::default(),
                    },
                ],
                origin_metadata(origin),
            ))
            .message(Message::user("more"))
            .build()
    };
    let own = body(ApiProfile::OpenRouter, &turn(ApiProfile::OpenRouter));
    let other = body(ApiProfile::OpenRouter, &turn(ApiProfile::OpenAiResponses));
    let message = |v: &Json| v.get("messages").unwrap().as_array().unwrap()[1].clone();

    assert!(message(&own).get("reasoning_details").is_some());
    assert!(message(&other).get("reasoning_details").is_none());
    assert_eq!(message(&other).get("content"), Some(&json(r#""answer""#)));
}

#[test]
fn tools_and_schemas_are_lowered() {
    let request = Request::builder()
        .message(Message::user("hi"))
        .tool(ToolDefinition::new(
            "lookup",
            "finds",
            json(r#"{"type": "object"}"#),
        ))
        .tool_choice(ToolChoice::Required)
        .structured_output(StructuredOutput::new("out", json(r#"{"type": "object"}"#)))
        .build();
    let lowered = body(ApiProfile::OpenAiChatCompletions, &request);

    assert_eq!(lowered.get("tool_choice"), Some(&json(r#""required""#)));
    let tool = &lowered.get("tools").unwrap().as_array().unwrap()[0];
    assert_eq!(tool.get("type"), Some(&json(r#""function""#)));
    assert_eq!(
        tool.get("function").unwrap().get("name"),
        Some(&json(r#""lookup""#))
    );
    assert_eq!(
        lowered
            .get("response_format")
            .unwrap()
            .get("json_schema")
            .unwrap()
            .get("name"),
        Some(&json(r#""out""#))
    );
}

#[test]
fn derived_thinking_budgets_fit_under_the_output_cap() {
    let request = Request::builder()
        .message(Message::user("hi"))
        .reasoning(ReasoningConfig::effort(ReasoningEffort::High))
        .max_output_tokens(2000)
        .build();
    let mut capabilities = ModelCapabilities::for_profile(ApiProfile::AnthropicMessages);
    capabilities.reasoning.efforts = Vec::new();
    capabilities.reasoning.budget = true;
    let ready = prepare_within_limits(
        ApiProfile::AnthropicMessages,
        "model-x",
        &capabilities,
        &request,
        ApiProfile::AnthropicMessages.default_base_url(),
        &HeaderMap::new(),
        false,
    )
    .unwrap()
    .unwrap();

    let budget = ready
        .body
        .get("thinking")
        .unwrap()
        .get("budget_tokens")
        .unwrap()
        .as_u64()
        .unwrap();
    assert!(budget < 2000);
}

#[test]
fn unsupported_settings_are_not_sent() {
    let temperature = Float::parse("0.5").unwrap();
    let request = Request::builder()
        .message(Message::user("hi"))
        .temperature(Real::Finite(temperature))
        .build();
    let mut capabilities = ModelCapabilities::for_profile(ApiProfile::OpenAiChatCompletions);
    capabilities.temperature = false;
    let ready = prepare_within_limits(
        ApiProfile::OpenAiChatCompletions,
        "model-x",
        &capabilities,
        &request,
        "https://api.openai.com/v1",
        &HeaderMap::new(),
        false,
    )
    .unwrap()
    .unwrap();

    assert!(ready.body.get("temperature").is_none());
    assert_eq!(ready.warnings[0].subject.as_deref(), Some("temperature"));
    assert!(ready.request.temperature.is_none());
    let sent = body(ApiProfile::OpenAiChatCompletions, &request);
    assert_eq!(sent.get("temperature"), Some(&json("0.5")));
}

#[test]
fn headers_are_applied_in_order_and_flags_are_merged() {
    let defaults = HeaderMap::from_iter([
        (
            HeaderName::from_static("anthropic-beta"),
            HeaderValue::from_static("one"),
        ),
        (
            HeaderName::from_static("x-team"),
            HeaderValue::from_static("provider"),
        ),
    ]);
    let request = Request::builder()
        .message(Message::user("hi"))
        .extra_header(
            HeaderName::from_static("anthropic-beta"),
            HeaderValue::from_static("two"),
        )
        .extra_header(
            HeaderName::from_static("x-team"),
            HeaderValue::from_static("request"),
        )
        .build();
    let ready = prepare_within_limits(
        ApiProfile::AnthropicMessages,
        "model-x",
        &ModelCapabilities::for_profile(ApiProfile::AnthropicMessages),
        &request,
        ApiProfile::AnthropicMessages.default_base_url(),
        &defaults,
        false,
    )
    .unwrap()
    .unwrap();

    assert_eq!(header(&ready.headers, "anthropic-beta"), Some("one,two"));
    assert_eq!(header(&ready.headers, "x-team"), Some("request"));
}

#[test]
fn known_flags_are_not_repeated() {
    let flags = HeaderMap::from_iter([(
        HeaderName::from_static("anthropic-beta"),
        HeaderValue::from_static("one"),
    )]);
    let request = Request::builder()
        .message(Message::user("hi"))
        .extra_header(
            HeaderName::from_static("anthropic-beta"),
            HeaderValue::from_static("one"),
        )
        .build();
    let ready = prepare_within_limits(
        ApiProfile::AnthropicMessages,
        "model-x",
        &ModelCapabilities::for_profile(ApiProfile::AnthropicMessages),
        &request,
        ApiProfile::AnthropicMessages.default_base_url(),
        &flags,
        false,
    )
    .unwrap()
    .unwrap();

    assert_eq!(header(&ready.headers, "anthropic-beta"), Some("one"));
}

fn with_defaults(count: usize) -> Option<Prepared> {
    let mut defaults = HeaderMap::new();
    for i in 0..count {
        defaults.insert(
            HeaderName::from_bytes(format!("x-{i}").as_bytes()).unwrap(),
            HeaderValue::from_static("v"),
        );
    }
    prepare_within_limits(
        ApiProfile::OpenAiResponses,
        "model-x",
        &ModelCapabilities::for_profile(ApiProfile::OpenAiResponses),
        &hello(),
        "https://api.openai.com/v1",
        &defaults,
        false,
    )
    .map(Result::unwrap)
}

#[test]
fn requests_hold_as_many_headers_as_a_map() {
    assert_eq!(with_defaults(6000).unwrap().headers["x-5999"], "v");
    assert_eq!(with_defaults(20_000).unwrap().headers["x-19999"], "v");
}

#[test]
fn requests_with_too_many_headers_are_not_prepared() {
    assert!(with_defaults(24_576).is_none());
}

#[test]
fn invalid_requests_are_refused_with_their_context() {
    let Err(error) = prepare_within_limits(
        ApiProfile::OpenAiResponses,
        "model-x",
        &ModelCapabilities::for_profile(ApiProfile::OpenAiResponses),
        &Request::default(),
        "https://api.openai.com/v1",
        &HeaderMap::new(),
        false,
    )
    .unwrap() else {
        panic!("an empty request was prepared");
    };

    assert_eq!(error.kind(), ErrorKind::InvalidRequest);
    assert_eq!(error.origin(), Some("openai-responses"));
    assert_eq!(error.model(), Some("model-x"));
}

#[test]
fn foreign_compactions_cannot_be_replayed() {
    let request = Request::builder()
        .message(Message::user("hi"))
        .message(assistant(
            vec![AssistantPart::Compaction(cogfer::message::CompactionPart {
                id: None,
                content: None,
                encrypted_content: Some("opaque".into()),
            })],
            origin_metadata(ApiProfile::ChatGptResponses),
        ))
        .build();
    let Err(error) = prepare_within_limits(
        ApiProfile::OpenAiResponses,
        "model-x",
        &ModelCapabilities::for_profile(ApiProfile::OpenAiResponses),
        &request,
        "https://api.openai.com/v1",
        &HeaderMap::new(),
        false,
    )
    .unwrap() else {
        panic!("a foreign compaction was replayed");
    };

    assert_eq!(error.kind(), ErrorKind::UnsupportedContent);
}

#[test]
fn prepared_requests_are_posted_as_json() {
    let request = prepared(ApiProfile::OpenAiResponses, &hello())
        .into_request("https://api.openai.com/v1")
        .unwrap();

    assert_eq!(request.url, "https://api.openai.com/v1/responses");
    assert_eq!(request.method, cogfer::transport::exchange::Method::Post);
    let sent = Json::parse_bytes(&request.body.unwrap()).unwrap();
    assert_eq!(sent.get("model"), Some(&json(r#""model-x""#)));
}
