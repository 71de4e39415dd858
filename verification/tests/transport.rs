use cogfer::error::ErrorKind;
use cogfer::json::Json;
use cogfer::transport::aws_event_stream::AwsEventStreamParser;
use cogfer::transport::exchange::{
    declares_too_much, transport_error_kind, HttpRequest, Method,
};
use cogfer::transport::framing::StreamFrame;
use cogfer::transport::mock::MockTransport;
use cogfer::transport::sse::{SseParser, MAX_LINE_BYTES};
use http::HeaderMap;

fn frames(body: &[u8]) -> Vec<StreamFrame> {
    let mut parser = SseParser::new();
    let mut frames = parser.push(body);
    frames.extend(parser.finish());
    frames
}

fn data(text: &str) -> StreamFrame {
    StreamFrame::Data(text.into())
}

fn get() -> HttpRequest {
    HttpRequest::get("https://example.com/models".into())
}

#[test]
fn server_sent_events_are_split_at_blank_lines() {
    assert_eq!(
        frames(b"data: one\n\nevent: x\ndata: two\ndata: lines\n\n: comment\n\n"),
        vec![data("one"), data("two\nlines")]
    );
}

#[test]
fn every_line_ending_ends_a_line() {
    assert_eq!(
        frames(b"data: a\r\n\r\ndata: b\r\rdata: c\n\n"),
        vec![data("a"), data("b"), data("c")]
    );
}

#[test]
fn a_last_event_needs_no_blank_line() {
    assert_eq!(frames(b"data: tail"), vec![data("tail")]);
}

#[test]
fn chunks_may_end_anywhere() {
    let body = "data: h\u{e9}llo\r\n\r\ndata: two\n\n".as_bytes();
    let whole = frames(body);
    let mut parser = SseParser::new();
    let mut split = Vec::new();
    for byte in body {
        split.extend(parser.push(&[*byte]));
    }
    split.extend(parser.finish());

    assert_eq!(split, whole);
    assert_eq!(whole, vec![data("h\u{e9}llo"), data("two")]);
}

#[test]
fn invalid_text_stops_the_parser() {
    let mut parser = SseParser::new();
    let before = parser.push(b"data: ok\n\ndata: \xff\n\n");

    assert_eq!(before, vec![data("ok")]);
    assert!(parser.saw_invalid_utf8());
    assert!(!parser.overflowed());
    assert!(parser.corruption().is_some());
    assert!(parser.push(b"data: late\n\n").is_empty());
}

#[test]
fn lines_over_the_limit_stop_the_parser() {
    let mut parser = SseParser::new();
    let chunk = vec![b'x'; MAX_LINE_BYTES + 1];

    assert!(parser.push(&chunk).is_empty());
    assert!(parser.overflowed());
    assert!(!parser.saw_invalid_utf8());
}

#[test]
fn requests_know_their_kind() {
    let request = HttpRequest::post_json(
        "https://example.com/v1".into(),
        &Json::parse(r#"{"a": 1}"#).unwrap(),
    );

    assert_eq!(request.method, Method::Post);
    assert_eq!(request.headers["content-type"], "application/json");
    assert_eq!(request.body.as_deref(), Some(&br#"{"a":1}"#[..]));
    assert_eq!(get().headers["accept"], "application/json");
    assert_eq!(get().bearer_token(), None);
}

#[test]
fn declared_lengths_are_held_against_the_limit() {
    assert!(!declares_too_much(None, 0));
    assert!(!declares_too_much(Some(10), 10));
    assert!(declares_too_much(Some(11), 10));
}

#[test]
fn transport_failures_are_classified() {
    assert_eq!(transport_error_kind(true, true), ErrorKind::Timeout);
    assert_eq!(transport_error_kind(false, true), ErrorKind::InvalidRequest);
    assert_eq!(transport_error_kind(false, false), ErrorKind::Transport);
}

#[test]
fn canned_replies_come_in_order_and_requests_are_recorded() {
    let mut mock = MockTransport::new();
    mock.push_json(201, &Json::parse(r#"{"n": 1}"#).unwrap());
    mock.push_response(500, HeaderMap::new(), b"oops".to_vec());
    let first = mock.execute(get()).unwrap();
    let second = mock.execute(HttpRequest::post_json(
        "https://example.com".into(),
        &Json::parse("[2]").unwrap(),
    ));

    assert_eq!(first.status, 201);
    assert_eq!(first.body, br#"{"n":1}"#);
    assert_eq!(second.unwrap().body, b"oops");
    assert_eq!(mock.requests().len(), 2);
    assert_eq!(mock.request_json(0), None);
    assert_eq!(mock.request_json(1), Some(Json::parse("[2]").unwrap()));
    assert_eq!(mock.request_json(2), None);
}

#[test]
fn an_empty_queue_is_a_transport_error() {
    let mut mock = MockTransport::default();
    let Err(error) = mock.execute(get()) else {
        panic!("an unqueued reply came");
    };

    assert_eq!(error.kind(), ErrorKind::Transport);
    assert_eq!(mock.requests().len(), 1);
}

#[test]
fn sse_replies_are_chunked_by_frame() {
    let mut mock = MockTransport::new();
    mock.push_sse(&["{}", "event: x\ndata: 1", ": ping"]);
    let Ok(stream) = mock.stream(get()) else {
        panic!("no stream");
    };

    assert_eq!(stream.status, 200);
    assert_eq!(stream.headers["content-type"], "text/event-stream");
    assert_eq!(
        stream.chunks,
        vec![
            b"data: {}\n\n".to_vec(),
            b"event: x\ndata: 1\n\n".to_vec(),
            b": ping\n\n".to_vec(),
        ]
    );
    assert!(stream.error.is_none());
}

#[test]
fn injected_errors_follow_the_chunks() {
    let mut mock = MockTransport::new();
    mock.push_stream_then_error(vec![b"abc".to_vec()], ErrorKind::Timeout);
    mock.push_stream_then_error(Vec::new(), ErrorKind::Transport);
    let Ok(stream) = mock.stream(get()) else {
        panic!("no stream");
    };

    assert_eq!(stream.chunks, vec![b"abc".to_vec()]);
    assert_eq!(stream.error.unwrap().kind(), ErrorKind::Timeout);
    let Err(error) = mock.execute(get()) else {
        panic!("an injected error was lost");
    };
    assert_eq!(error.kind(), ErrorKind::Transport);
}

#[test]
fn streamed_replies_can_be_buffered() {
    let mut mock = MockTransport::new();
    mock.push_stream_chunks(200, HeaderMap::new(), vec![b"ab".to_vec(), b"cd".to_vec()]);

    assert_eq!(mock.execute(get()).unwrap().body, b"abcd");
}

#[test]
fn mocked_event_streams_can_be_parsed() {
    let mut mock = MockTransport::new();
    mock.push_event_stream(&[("chunk", b"one")]);
    mock.push_event_stream_then_exception(&[], "throttlingException", b"{}");
    mock.push_event_stream_then_error(&[("chunk", b"two")], "Internal", "it broke");
    let mut parsed = Vec::new();
    for _ in 0..3 {
        let Ok(stream) = mock.stream(get()) else {
            panic!("no stream");
        };
        assert_eq!(
            stream.headers["content-type"],
            "application/vnd.amazon.eventstream"
        );
        let mut parser = AwsEventStreamParser::new();
        for chunk in &stream.chunks {
            parsed.extend(parser.push(chunk));
        }
    }

    assert_eq!(
        parsed,
        vec![
            data("one"),
            StreamFrame::Exception {
                kind: "throttlingException".into(),
                payload: "{}".into(),
            },
            data("two"),
            StreamFrame::Exception {
                kind: "Internal".into(),
                payload: "it broke".into(),
            },
        ]
    );
}
