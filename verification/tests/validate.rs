use cogfer::capabilities::ModelCapabilities;
use cogfer::error::{Error, ErrorKind};
use cogfer::json::{Float, Json};
use cogfer::message::{
    AssistantPart, CompactionPart, Message, ToolCall, ToolResultContent, ToolResultPart,
};
use cogfer::metadata::ProviderMetadata;
use cogfer::protocols::validate::validate;
use cogfer::protocols::ApiProfile;
use cogfer::request::{Compaction, Real, Request, StructuredOutput, ToolChoice, ToolDefinition};

type NumberSetter = fn(&mut Request, Real);

fn json(text: &str) -> Json {
    Json::parse(text).unwrap()
}

fn number(x: f64) -> Real {
    match Float::from_value(serde_json::Value::from(x)) {
        Some(float) => Real::Finite(float),
        None => Real::NonFinite,
    }
}

fn request() -> Request {
    Request::builder().message(Message::user("hi")).build()
}

fn tool(name: &str) -> ToolDefinition {
    ToolDefinition::new(name, "description", json(r#"{"type": "object"}"#))
}

fn call(call_id: &str, name: &str, arguments: &str) -> ToolCall {
    ToolCall {
        call_id: call_id.into(),
        item_id: Some(format!("item_{call_id}")),
        provider_call_id: None,
        name: name.into(),
        arguments: arguments.into(),
        provider_metadata: ProviderMetadata::default(),
    }
}

fn tool_result(call_id: &str) -> ToolResultPart {
    ToolResultPart {
        call_id: call_id.into(),
        item_id: Some(format!("item_{call_id}")),
        provider_call_id: None,
        name: Some("lookup".into()),
        content: ToolResultContent::Text { text: "ok".into() },
        is_error: false,
    }
}

fn validate_request(request: &Request) -> Result<(), Error> {
    validate(
        request,
        "model",
        ApiProfile::OpenAiChatCompletions,
        &ModelCapabilities::for_profile(ApiProfile::OpenAiChatCompletions),
    )
}

#[test]
fn invalid_request_envelopes_are_rejected() {
    let empty_tool = Request::builder()
        .message(Message::Tool { content: vec![] })
        .build();
    let cases = [
        ("model identifier", request(), " "),
        ("no messages", Request::default(), "model"),
        ("tool result", empty_tool, "model"),
    ];

    for (expected, request, model) in cases {
        let error = validate(
            &request,
            model,
            ApiProfile::OpenAiChatCompletions,
            &ModelCapabilities::for_profile(ApiProfile::OpenAiChatCompletions),
        )
        .unwrap_err();
        assert_eq!(error.kind(), ErrorKind::InvalidRequest);
        assert!(error.message().contains(expected), "{}", error.message());
    }
}

#[test]
fn empty_user_and_assistant_messages_are_accepted() {
    let requests = [
        Request::builder()
            .message(Message::User { content: vec![] })
            .build(),
        Request::builder()
            .message(Message::Assistant {
                content: vec![],
                provider_metadata: ProviderMetadata::default(),
            })
            .build(),
    ];

    for request in requests {
        assert!(validate_request(&request).is_ok());
    }
}

#[test]
fn non_finite_numbers_are_rejected() {
    let setters: [(&str, NumberSetter); 4] = [
        ("temperature", |request, value| {
            request.temperature = Some(value)
        }),
        ("top_p", |request, value| request.top_p = Some(value)),
        ("presence_penalty", |request, value| {
            request.presence_penalty = Some(value);
        }),
        ("frequency_penalty", |request, value| {
            request.frequency_penalty = Some(value);
        }),
    ];

    for (name, set) in setters {
        for value in [f64::NAN, f64::INFINITY, f64::NEG_INFINITY] {
            let mut request = request();
            set(&mut request, number(value));
            let error = validate_request(&request).unwrap_err();
            assert!(error.message().contains(name), "{}", error.message());
        }
    }
}

#[test]
fn zero_positive_counts_are_rejected() {
    let mut zero_output = request();
    zero_output.max_output_tokens = Some(0);
    let mut zero_top_k = request();
    zero_top_k.top_k = Some(0);

    for (expected, request) in [("max_output_tokens", zero_output), ("top_k", zero_top_k)] {
        let error = validate_request(&request).unwrap_err();
        assert!(error.message().contains(expected), "{}", error.message());
    }
}

#[test]
fn invalid_tool_definitions_are_rejected() {
    let mut blank = request();
    blank.tools.push(tool(" "));
    let mut duplicate = request();
    duplicate.tools = vec![tool("lookup"), tool("lookup")];
    let mut non_object = request();
    non_object
        .tools
        .push(ToolDefinition::new("lookup", "description", json("[]")));

    for (expected, request) in [
        ("name", blank),
        ("declared more than once", duplicate),
        ("parameters", non_object),
    ] {
        let error = validate_request(&request).unwrap_err();
        assert!(error.message().contains(expected), "{}", error.message());
    }

    let mut boolean_schema = request();
    boolean_schema
        .tools
        .push(ToolDefinition::new("lookup", "description", json("true")));
    assert!(validate_request(&boolean_schema).is_ok());
}

#[test]
fn invalid_tool_choices_are_rejected() {
    let mut required = request();
    required.tool_choice = Some(ToolChoice::Required);
    let mut blank = request();
    blank.tools.push(tool("lookup"));
    blank.tool_choice = Some(ToolChoice::Tool { name: " ".into() });
    let mut undeclared = request();
    undeclared.tools.push(tool("lookup"));
    undeclared.tool_choice = Some(ToolChoice::Tool {
        name: "missing".into(),
    });

    for (expected, request) in [
        ("at least one", required),
        ("must not be blank", blank),
        ("undeclared", undeclared),
    ] {
        let error = validate_request(&request).unwrap_err();
        assert!(error.message().contains(expected), "{}", error.message());
    }
}

#[test]
fn provider_options_can_supply_the_tool_registry() {
    let requests = [
        (
            ApiProfile::OpenAiChatCompletions,
            Request::builder()
                .message(Message::user("hi"))
                .tool_choice(ToolChoice::Required)
                .provider_option("openai", json(r#"{"tools": [{"type": "web_search"}]}"#))
                .build(),
        ),
        (
            ApiProfile::OpenAiChatCompletions,
            Request::builder()
                .message(Message::user("hi"))
                .tool_choice(ToolChoice::Tool {
                    name: "native_lookup".into(),
                })
                .provider_option(
                    "openai",
                    json(
                        r#"{
                            "tools": [{
                                "type": "function",
                                "function": {"name": "native_lookup", "parameters": {}}
                            }]
                        }"#,
                    ),
                )
                .build(),
        ),
        (
            ApiProfile::OpenAiChatCompletions,
            Request::builder()
                .message(Message::user("hi"))
                .tool_choice(ToolChoice::Required)
                .provider_option("openai", json(r#"{"tool_choice": "none"}"#))
                .build(),
        ),
        (
            ApiProfile::GeminiGenerateContent,
            Request::builder()
                .message(Message::user("hi"))
                .tool_choice(ToolChoice::Required)
                .provider_option(
                    "gemini",
                    json(r#"{"toolConfig": {"functionCallingConfig": {"mode": "NONE"}}}"#),
                )
                .build(),
        ),
    ];

    for (profile, request) in requests {
        assert!(validate(
            &request,
            "model",
            profile,
            &ModelCapabilities::for_profile(profile)
        )
        .is_ok());
    }
}

#[test]
fn structured_output_schema_must_be_an_object_or_boolean() {
    let mut request = request();
    request.structured_output = Some(StructuredOutput::new("result", json("[]")));

    let error = validate_request(&request).unwrap_err();

    assert!(error.message().contains("structured_output.schema"));

    request.structured_output = Some(StructuredOutput::new("result", json("true")));
    assert!(validate_request(&request).is_ok());
}

#[test]
fn invalid_historical_tool_calls_are_rejected() {
    let mut blank_item_id = call("call_a", "lookup", "{}");
    blank_item_id.item_id = Some(" ".into());
    let cases = [
        ("call_id", call(" ", "lookup", "{}")),
        ("name", call("call_a", " ", "{}")),
        ("item_id", blank_item_id),
        ("valid JSON", call("call_a", "lookup", "{")),
        ("JSON object", call("call_a", "lookup", "[]")),
    ];
    for (expected, call) in cases {
        let request = Request::builder()
            .message(Message::Assistant {
                content: vec![AssistantPart::ToolCall(call)],
                provider_metadata: ProviderMetadata::default(),
            })
            .build();
        let error = validate_request(&request).unwrap_err();
        assert!(error.message().contains(expected), "{}", error.message());
    }

    let duplicate = call("call_a", "lookup", "{}");
    let request = Request::builder()
        .message(Message::Assistant {
            content: vec![
                AssistantPart::ToolCall(duplicate.clone()),
                AssistantPart::ToolCall(duplicate),
            ],
            provider_metadata: ProviderMetadata::default(),
        })
        .build();
    let error = validate_request(&request).unwrap_err();
    assert!(error.message().contains("unresolved"), "{}", error.message());
}

#[test]
fn invalid_historical_tool_results_are_rejected() {
    let call = call("call_a", "lookup", "{}");
    let valid = tool_result("call_a");
    let mut blank = valid.clone();
    blank.call_id = " ".into();
    let mut blank_name = valid.clone();
    blank_name.name = Some(" ".into());
    let mut blank_item = valid.clone();
    blank_item.item_id = Some(" ".into());
    let mut wrong_name = valid.clone();
    wrong_name.name = Some("other".into());
    let mut wrong_item = valid.clone();
    wrong_item.item_id = Some("other".into());
    let cases = [
        ("call_id", vec![blank]),
        ("name", vec![blank_name]),
        ("item_id", vec![blank_item]),
        ("name", vec![wrong_name]),
        ("item_id", vec![wrong_item]),
        ("more than one result", vec![valid.clone(), valid]),
    ];

    for (expected, results) in cases {
        let request = Request::builder()
            .message(Message::Assistant {
                content: vec![AssistantPart::ToolCall(call.clone())],
                provider_metadata: ProviderMetadata::default(),
            })
            .message(Message::Tool { content: results })
            .build();
        let error = validate_request(&request).unwrap_err();
        assert!(error.message().contains(expected), "{}", error.message());
    }
}

#[test]
fn valid_tool_request_is_accepted() {
    let call = call("call_a", "lookup", r#"{"query":"value"}"#);
    let result = ToolResultPart::for_call(&call, "ok");
    let request = Request::builder()
        .message(Message::Assistant {
            content: vec![AssistantPart::ToolCall(call)],
            provider_metadata: ProviderMetadata::default(),
        })
        .message(Message::tool_result(result))
        .tool(tool("lookup"))
        .tool_choice(ToolChoice::Tool {
            name: "lookup".into(),
        })
        .structured_output(StructuredOutput::new(
            "result",
            json(r#"{"type": "object"}"#),
        ))
        .build();

    assert!(validate_request(&request).is_ok());

    let orphan_result = Request::builder()
        .message(Message::tool_result(tool_result("orphan")))
        .build();
    assert!(validate_request(&orphan_result).is_ok());
}

#[test]
fn tool_call_ids_can_be_reused_after_resolution() {
    let first = call("call_0", "lookup", "{}");
    let second = call("call_0", "lookup", "{}");
    let request = Request::builder()
        .message(Message::Assistant {
            content: vec![AssistantPart::ToolCall(first.clone())],
            provider_metadata: ProviderMetadata::default(),
        })
        .message(Message::tool_result(ToolResultPart::for_call(
            &first, "first",
        )))
        .message(Message::Assistant {
            content: vec![AssistantPart::ToolCall(second.clone())],
            provider_metadata: ProviderMetadata::default(),
        })
        .message(Message::tool_result(ToolResultPart::for_call(
            &second, "second",
        )))
        .build();

    assert!(validate_request(&request).is_ok());
}

#[test]
fn result_before_same_id_call_remains_self_contained() {
    let mut result = tool_result("call_0");
    result.name = Some("external_lookup".into());
    result.item_id = Some("external_item".into());
    let request = Request::builder()
        .message(Message::tool_result(result))
        .message(Message::Assistant {
            content: vec![AssistantPart::ToolCall(call(
                "call_0",
                "local_lookup",
                "{}",
            ))],
            provider_metadata: ProviderMetadata::default(),
        })
        .build();

    assert!(validate_request(&request).is_ok());
}

#[test]
fn validation_errors_have_profile_and_model_context() {
    let mut request = request();
    request.max_output_tokens = Some(0);

    let error = validate(
        &request,
        "model",
        ApiProfile::OpenAiChatCompletions,
        &ModelCapabilities::for_profile(ApiProfile::OpenAiChatCompletions),
    )
    .unwrap_err();

    assert_eq!(
        error.origin(),
        Some(ApiProfile::OpenAiChatCompletions.as_str())
    );
    assert_eq!(error.model(), Some("model"));
}

#[test]
fn native_compaction_is_rejected_by_chat_protocol() {
    let request = Request::builder()
        .message(Message::user("hi"))
        .compaction(Compaction::enabled())
        .build();

    let error = validate_request(&request).unwrap_err();

    assert_eq!(error.kind(), ErrorKind::UnsupportedCapability);
}

#[test]
fn native_compaction_is_accepted_by_chatgpt_responses() {
    let request = Request::builder()
        .message(Message::user("hi"))
        .compaction(Compaction::enabled())
        .build();

    assert!(validate(
        &request,
        "model",
        ApiProfile::ChatGptResponses,
        &ModelCapabilities::for_profile(ApiProfile::ChatGptResponses)
    )
    .is_ok());
}

#[test]
fn opaque_compaction_history_is_rejected_by_chat_protocol() {
    let request = Request::builder()
        .message(Message::Assistant {
            content: vec![AssistantPart::Compaction(CompactionPart {
                id: None,
                content: None,
                encrypted_content: Some("opaque".into()),
            })],
            provider_metadata: ProviderMetadata::default(),
        })
        .build();

    let error = validate_request(&request).unwrap_err();

    assert_eq!(error.kind(), ErrorKind::UnsupportedCapability);
}

#[test]
fn provider_options_must_be_objects() {
    let request = Request::builder()
        .message(Message::user("hi"))
        .provider_option("openai", json("[1]"))
        .build();

    let error = validate_request(&request).unwrap_err();

    assert_eq!(error.kind(), ErrorKind::InvalidRequest);
    assert!(error.message().contains("openai"), "{}", error.message());
}

#[test]
fn finite_numbers_are_accepted() {
    let mut request = request();
    request.temperature = Some(number(0.7));
    request.top_p = Some(number(-1.5));

    assert!(validate_request(&request).is_ok());
}
