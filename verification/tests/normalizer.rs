use cogfer::error::{Error, ErrorKind};
use cogfer::response::{Finish, FinishReason};
use cogfer::stream::event::StreamEvent;
use cogfer::stream::normalizer::StreamNormalizer;

#[test]
fn normalizer_closes_uncompleted_tools_without_promoting_them() {
    let mut normalizer = StreamNormalizer::new(false);
    let mut out = Vec::new();
    normalizer.text_delta(&mut out, "t0".into(), "hello".into());
    normalizer.start_tool(&mut out, "call_1".into(), "search".into(), None);
    normalizer.tool_delta(&mut out, "call_1", "{\"q\":1}".into());
    normalizer.finish(&mut out, Finish::new(FinishReason::Stop));

    let kinds: Vec<&'static str> = out
        .iter()
        .map(|event| match event {
            StreamEvent::TextStart { .. } => "text-start",
            StreamEvent::TextDelta { .. } => "text-delta",
            StreamEvent::TextEnd { .. } => "text-end",
            StreamEvent::ToolInputStart { .. } => "tool-input-start",
            StreamEvent::ToolInputDelta { .. } => "tool-input-delta",
            StreamEvent::ToolInputEnd { .. } => "tool-input-end",
            StreamEvent::ToolCall(_) => "tool-call",
            StreamEvent::Finish { .. } => "finish",
            _ => "other",
        })
        .collect();
    assert_eq!(
        kinds,
        vec![
            "text-start",
            "text-delta",
            "tool-input-start",
            "tool-input-delta",
            "tool-input-end",
            "text-end",
            "finish",
        ]
    );
}

#[test]
fn truncated_tool_block_never_becomes_a_tool_call() {
    let mut normalizer = StreamNormalizer::new(false);
    let mut out = Vec::new();
    normalizer.start_tool(&mut out, "call_1".into(), "delete_all".into(), None);
    normalizer.tool_delta(&mut out, "call_1", "{\"path\":\"/ho".into());
    normalizer.on_eof(
        &mut out,
        Error::new(
            ErrorKind::TruncatedStream,
            "stream ended before a terminal event was received",
        )
        .with_origin("openai"),
    );
    assert!(out
        .iter()
        .any(|event| matches!(event, StreamEvent::ToolInputEnd { .. })));
    assert!(!out
        .iter()
        .any(|event| matches!(event, StreamEvent::ToolCall(_))));
    assert!(matches!(out[out.len() - 2], StreamEvent::Error { .. }));
}

#[test]
fn open_provider_tools_are_aborted_by_their_own_id() {
    let mut normalizer = StreamNormalizer::new(false);
    let mut out = Vec::new();
    normalizer.provider_tool_start(&mut out, "ws_1".into(), "web_search".into());
    normalizer.provider_tool_start(&mut out, "ws_2".into(), "web_search".into());
    normalizer.finish(&mut out, Finish::new(FinishReason::Stop));

    let aborted: Vec<&str> = out
        .iter()
        .filter_map(|event| match event {
            StreamEvent::ProviderToolAbort { id } => Some(id.as_str()),
            _ => None,
        })
        .collect();
    assert_eq!(aborted.len(), 2);
    assert!(aborted.contains(&"ws_1"));
    assert!(aborted.contains(&"ws_2"));
    assert!(matches!(out.last(), Some(StreamEvent::Finish { .. })));
}

#[test]
fn eof_without_finish_is_truncation() {
    let mut normalizer = StreamNormalizer::new(false);
    let mut out = Vec::new();
    normalizer.text_delta(&mut out, "t0".into(), "partial".into());
    normalizer.on_eof(
        &mut out,
        Error::new(
            ErrorKind::TruncatedStream,
            "stream ended before a terminal event was received",
        )
        .with_origin("openai"),
    );
    assert!(matches!(out[out.len() - 2], StreamEvent::Error { .. }));
    let Some(StreamEvent::Finish { finish, .. }) = out.last() else {
        panic!("missing finish");
    };
    assert_eq!(finish.reason, FinishReason::Error);
    assert!(out
        .iter()
        .any(|event| matches!(event, StreamEvent::TextEnd { .. })));
}

#[test]
fn finish_after_error_is_forced_to_error_reason() {
    let mut normalizer = StreamNormalizer::new(false);
    let mut out = Vec::new();
    normalizer.text_delta(&mut out, "t0".into(), "partial".into());
    normalizer.error(&mut out, Error::malformed("mid-stream failure"));
    normalizer.finish(&mut out, Finish::with_raw(FinishReason::Stop, "stop"));
    let Some(StreamEvent::Finish { finish, .. }) = out.last() else {
        panic!("missing finish");
    };
    assert_eq!(finish.reason, FinishReason::Error);
    assert_eq!(finish.raw.as_deref(), Some("stop"));
}

#[test]
fn length_finish_aborts_open_tool_blocks() {
    let mut normalizer = StreamNormalizer::new(false);
    let mut out = Vec::new();
    normalizer.start_tool(&mut out, "call_1".into(), "search".into(), None);
    normalizer.tool_delta(&mut out, "call_1", "{\"q\":\"trunc".into());
    normalizer.finish(&mut out, Finish::new(FinishReason::Length));
    assert!(out
        .iter()
        .any(|event| matches!(event, StreamEvent::ToolInputEnd { .. })));
    assert!(!out
        .iter()
        .any(|event| matches!(event, StreamEvent::ToolCall(_))));
    let Some(StreamEvent::Finish { finish, .. }) = out.last() else {
        panic!("missing finish");
    };
    assert_eq!(finish.reason, FinishReason::Length);
}

#[test]
fn completed_tools_are_promoted_even_when_the_provider_says_stop() {
    let mut normalizer = StreamNormalizer::new(false);
    let mut out = Vec::new();
    normalizer.start_tool(&mut out, "call_1".into(), "search".into(), None);
    normalizer.tool_delta(&mut out, "call_1", "{\"q\":1}".into());
    normalizer.complete_tool("call_1", None);
    normalizer.finish(&mut out, Finish::with_raw(FinishReason::Stop, "stop"));

    let position = out
        .iter()
        .position(|event| matches!(event, StreamEvent::ToolCall(call) if call.call_id == "call_1"))
        .expect("completed call is emitted");
    assert!(matches!(
        out[position - 1],
        StreamEvent::ToolInputEnd { ref call_id } if call_id == "call_1"
    ));
    let Some(StreamEvent::Finish { finish, .. }) = out.last() else {
        panic!("missing finish");
    };
    assert_eq!(finish.reason, FinishReason::ToolCalls);
    assert_eq!(finish.raw.as_deref(), Some("stop"));
}

#[test]
fn completed_tools_are_not_promoted_when_output_was_truncated() {
    let mut normalizer = StreamNormalizer::new(false);
    let mut out = Vec::new();
    normalizer.start_tool(&mut out, "call_1".into(), "search".into(), None);
    normalizer.tool_delta(&mut out, "call_1", "{\"q\":1}".into());
    normalizer.complete_tool("call_1", None);
    normalizer.finish(&mut out, Finish::with_raw(FinishReason::Length, "length"));

    assert!(out
        .iter()
        .any(|event| matches!(event, StreamEvent::ToolInputEnd { .. })));
    assert!(!out
        .iter()
        .any(|event| matches!(event, StreamEvent::ToolCall(_))));
    let Some(StreamEvent::Finish { finish, .. }) = out.last() else {
        panic!("missing finish");
    };
    assert_eq!(finish.reason, FinishReason::Length);
}

#[test]
fn final_arguments_override_accumulated_deltas() {
    let mut normalizer = StreamNormalizer::new(false);
    let mut out = Vec::new();
    normalizer.start_tool(&mut out, "call_1".into(), "search".into(), None);
    normalizer.tool_delta(&mut out, "call_1", "{\"q\":".into());
    normalizer.complete_tool("call_1", Some("{\"q\":1}".into()));
    normalizer.finish(&mut out, Finish::new(FinishReason::ToolCalls));

    let call = out
        .iter()
        .find_map(|event| match event {
            StreamEvent::ToolCall(call) => Some(call),
            _ => None,
        })
        .expect("tool call is emitted");
    assert_eq!(call.arguments, "{\"q\":1}");
}

#[test]
fn tool_calls_after_an_invalid_call_are_not_emitted() {
    let mut normalizer = StreamNormalizer::new(false);
    let mut out = Vec::new();
    for (id, arguments) in [("invalid", "{"), ("valid", "{}")] {
        normalizer.start_tool(&mut out, id.into(), "tool".into(), None);
        normalizer.tool_delta(&mut out, id, arguments.into());
    }

    normalizer.complete_tool("invalid", None);
    normalizer.complete_tool("valid", None);
    normalizer.finish(&mut out, Finish::new(FinishReason::ToolCalls));

    assert!(!out
        .iter()
        .any(|event| matches!(event, StreamEvent::ToolCall(_))));
    let Some(StreamEvent::Finish { finish, .. }) = out.last() else {
        panic!("missing finish");
    };
    assert_eq!(finish.reason, FinishReason::Error);
}

#[test]
fn a_finished_stream_is_fused() {
    let mut normalizer = StreamNormalizer::new(false);
    let mut out = Vec::new();
    normalizer.finish(&mut out, Finish::new(FinishReason::Stop));
    assert!(normalizer.is_finished());
    let n = out.len();
    normalizer.finish(&mut out, Finish::new(FinishReason::Stop));
    normalizer.on_eof(&mut out, Error::malformed("late"));

    assert_eq!(out.len(), n);
}

#[test]
fn errors_are_filled_in_with_the_context_of_the_stream() {
    let mut normalizer = StreamNormalizer::new(false).with_error_context(
        "openai-chat",
        "some-model",
        Some("request-1".into()),
    );
    let mut out = Vec::new();
    normalizer.fail(&mut out, Error::malformed("broken"));

    let StreamEvent::Error { error } = &out[0] else {
        panic!("missing error");
    };
    assert_eq!(error.origin(), Some("openai-chat"));
    assert_eq!(error.model(), Some("some-model"));
    assert_eq!(error.request_id(), Some("request-1"));
}
