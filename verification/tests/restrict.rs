use cogfer::capabilities::ModelCapabilities;
use cogfer::json::{Float, Json};
use cogfer::message::Message;
use cogfer::protocols::restrict::restrict_request;
use cogfer::protocols::ApiProfile;
use cogfer::request::{Real, Request, ToolDefinition};

fn number(x: f64) -> Real {
    match Float::from_value(serde_json::Value::from(x)) {
        Some(float) => Real::Finite(float),
        None => Real::NonFinite,
    }
}

#[test]
fn unsupported_settings_are_cleared_with_one_warning_each() {
    let mut capabilities = ModelCapabilities::for_profile(ApiProfile::OpenAiChatCompletions);
    capabilities.temperature = false;
    capabilities.strict_tools = false;
    let mut tool = ToolDefinition::new("t", "tool", Json::parse("{}").unwrap());
    tool.strict = Some(true);
    let request = Request::builder()
        .message(Message::user("hi"))
        .temperature(number(0.2))
        .top_p(number(0.9))
        .tool(tool)
        .build();

    let (restricted, warnings) =
        restrict_request(&request, &capabilities, ApiProfile::OpenAiChatCompletions);

    assert_eq!(restricted.temperature, None);
    assert_eq!(restricted.top_p, Some(number(0.9)));
    assert_eq!(restricted.tools[0].strict, None);
    let subjects: Vec<_> = warnings
        .iter()
        .map(|warning| warning.subject.as_deref().unwrap())
        .collect();
    assert_eq!(subjects, ["temperature", "tools.strict"]);
}

#[test]
fn supported_settings_pass_through_untouched() {
    let capabilities = ModelCapabilities::for_profile(ApiProfile::OpenRouter);
    let request = Request::builder()
        .message(Message::user("hi"))
        .top_k(4)
        .seed(1)
        .build();

    let (restricted, warnings) = restrict_request(&request, &capabilities, ApiProfile::OpenRouter);

    assert!(restricted == request);
    assert!(warnings.is_empty());
}
