use cogfer::error::{Error, ErrorKind};
use cogfer::json::Json;
use cogfer::message::{AssistantPart, ToolCall};
use cogfer::metadata::ProviderMetadata;
use cogfer::response::{Finish, FinishReason, ResponseMetadata};
use cogfer::stream::accumulator::{collect_result, StreamAccumulator};
use cogfer::stream::event::StreamEvent;
use cogfer::usage::Usage;

#[test]
fn accumulator_builds_result() {
    let mut accumulator = StreamAccumulator::new();
    accumulator.push(StreamEvent::StreamStart { warnings: vec![] });
    accumulator.push(StreamEvent::TextStart {
        id: "0".into(),
        provider_metadata: ProviderMetadata::default(),
    });
    accumulator.push(StreamEvent::TextDelta {
        id: "0".into(),
        delta: "Hello ".into(),
    });
    accumulator.push(StreamEvent::TextDelta {
        id: "0".into(),
        delta: "world".into(),
    });
    accumulator.push(StreamEvent::TextEnd {
        id: "0".into(),
        provider_metadata: ProviderMetadata::default(),
    });
    accumulator.push(StreamEvent::Finish {
        finish: Finish::with_raw(FinishReason::Stop, "stop"),
        usage: Usage {
            output_tokens: Some(2),
            ..Usage::default()
        },
    });
    let result = accumulator.into_result().unwrap();
    assert_eq!(result.text(), "Hello world");
    assert_eq!(result.finish.reason, FinishReason::Stop);
    assert_eq!(result.usage.output_tokens, Some(2));
}

#[test]
fn tool_calls_land_where_their_block_started() {
    let mut accumulator = StreamAccumulator::new();
    accumulator.push(StreamEvent::StreamStart { warnings: vec![] });
    for call_id in ["call_1", "call_2"] {
        accumulator.push(StreamEvent::ToolInputStart {
            call_id: call_id.into(),
            name: "search".into(),
            item_id: None,
            provider_call_id: None,
        });
    }
    accumulator.push(StreamEvent::TextStart {
        id: "0".into(),
        provider_metadata: ProviderMetadata::default(),
    });
    accumulator.push(StreamEvent::TextDelta {
        id: "0".into(),
        delta: "after".into(),
    });
    for call_id in ["call_1", "call_2"] {
        accumulator.push(StreamEvent::ToolInputEnd {
            call_id: call_id.into(),
        });
        accumulator.push(StreamEvent::ToolCall(ToolCall {
            call_id: call_id.into(),
            item_id: None,
            provider_call_id: None,
            name: "search".into(),
            arguments: "{}".into(),
            provider_metadata: ProviderMetadata::default(),
        }));
    }
    accumulator.push(StreamEvent::TextDelta {
        id: "0".into(),
        delta: " text".into(),
    });
    accumulator.push(StreamEvent::TextEnd {
        id: "0".into(),
        provider_metadata: ProviderMetadata::default(),
    });
    accumulator.push(StreamEvent::Finish {
        finish: Finish::new(FinishReason::ToolCalls),
        usage: Usage::default(),
    });

    let result = accumulator.into_result().unwrap();
    let kinds: Vec<&str> = result
        .content
        .iter()
        .map(|part| match part {
            AssistantPart::ToolCall(call) => call.call_id.as_str(),
            AssistantPart::Text { text, .. } => text.as_str(),
            _ => "other",
        })
        .collect();
    assert_eq!(kinds, vec!["call_1", "call_2", "after text"]);
}

#[test]
fn empty_text_blocks_without_metadata_are_dropped() {
    let mut accumulator = StreamAccumulator::new();
    accumulator.push(StreamEvent::StreamStart { warnings: vec![] });
    accumulator.push(StreamEvent::TextStart {
        id: "0".into(),
        provider_metadata: ProviderMetadata::default(),
    });
    accumulator.push(StreamEvent::TextEnd {
        id: "0".into(),
        provider_metadata: ProviderMetadata::default(),
    });
    accumulator.push(StreamEvent::TextStart {
        id: "1".into(),
        provider_metadata: ProviderMetadata::default(),
    });
    accumulator.push(StreamEvent::TextDelta {
        id: "1".into(),
        delta: "kept".into(),
    });
    accumulator.push(StreamEvent::TextEnd {
        id: "1".into(),
        provider_metadata: ProviderMetadata::default(),
    });
    accumulator.push(StreamEvent::TextStart {
        id: "2".into(),
        provider_metadata: ProviderMetadata::default(),
    });
    accumulator.push(StreamEvent::TextEnd {
        id: "2".into(),
        provider_metadata: ProviderMetadata::with("gemini", Json::parse(r#"{"sig": 1}"#).unwrap()),
    });
    accumulator.push(StreamEvent::Finish {
        finish: Finish::new(FinishReason::Stop),
        usage: Usage::default(),
    });

    let result = accumulator.into_result().unwrap();
    let texts: Vec<&str> = result
        .content
        .iter()
        .map(|part| match part {
            AssistantPart::Text { text, .. } => text.as_str(),
            _ => "other",
        })
        .collect();
    assert_eq!(texts, vec!["kept", ""]);
}

#[test]
fn accumulator_rejects_missing_finish() {
    let mut accumulator = StreamAccumulator::new();
    accumulator.push(StreamEvent::StreamStart { warnings: vec![] });
    accumulator.push(StreamEvent::ResponseMetadata(ResponseMetadata {
        id: Some("resp_56".into()),
        model: Some("gpt-5.6-sol".into()),
        request_id: Some("req_56".into()),
    }));

    let error = accumulator.into_result().unwrap_err();

    assert_eq!(error.kind(), ErrorKind::TruncatedStream);
    assert_eq!(error.model(), Some("gpt-5.6-sol"));
    assert_eq!(error.request_id(), Some("req_56"));
}

#[test]
fn the_first_stream_error_is_returned() {
    let error = collect_result(vec![
        StreamEvent::StreamStart { warnings: vec![] },
        StreamEvent::Error {
            error: Error::malformed("first"),
        },
        StreamEvent::Finish {
            finish: Finish::new(FinishReason::Error),
            usage: Usage::default(),
        },
    ])
    .unwrap_err();

    assert_eq!(error.kind(), ErrorKind::MalformedResponse);
    assert_eq!(error.message(), "first");
}

fn start(id: &str) -> StreamEvent {
    StreamEvent::TextStart {
        id: id.into(),
        provider_metadata: ProviderMetadata::default(),
    }
}

fn delta(id: &str, text: &str) -> StreamEvent {
    StreamEvent::TextDelta {
        id: id.into(),
        delta: text.into(),
    }
}

fn end(id: &str, provider_metadata: ProviderMetadata) -> StreamEvent {
    StreamEvent::TextEnd {
        id: id.into(),
        provider_metadata,
    }
}

#[test]
fn interleaved_texts_are_made_of_their_own_deltas() {
    let signed = || ProviderMetadata::with("gemini", Json::parse(r#"{"sig":1}"#).unwrap());
    let result = collect_result(vec![
        start("a"),
        delta("b", "stray"),
        start("b"),
        delta("a", "one "),
        start("c"),
        delta("b", "three"),
        end("c", ProviderMetadata::default()),
        delta("a", "two"),
        end("b", signed()),
        delta("b", "late"),
        end("a", ProviderMetadata::default()),
        end("a", signed()),
        StreamEvent::Finish {
            finish: Finish::new(FinishReason::Stop),
            usage: Usage::default(),
        },
    ])
    .unwrap();

    assert_eq!(
        result.content,
        vec![
            AssistantPart::Text {
                text: "one two".into(),
                provider_metadata: ProviderMetadata::default(),
            },
            AssistantPart::Text {
                text: "three".into(),
                provider_metadata: signed(),
            },
        ]
    );
}
