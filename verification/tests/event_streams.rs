use aws_smithy_eventstream::frame::write_message_to;
use aws_smithy_types::event_stream::{Header, HeaderValue, Message};
use cogfer::transport::aws_event_stream::{AwsEventStreamParser, MALFORMED_MESSAGE};
use cogfer::transport::event_stream::{
    decode_message, encode_message, EventStreamParser, MAX_MESSAGE_BYTES, OVERHEAD,
};
use cogfer::transport::framing::{StreamFrame, INVALID_UTF8};
use cogfer::util::crc32;

fn event(payload: &str) -> Vec<u8> {
    encode_message(
        &[
            (":event-type", "chunk"),
            (":content-type", "application/json"),
            (":message-type", "event"),
        ],
        payload.as_bytes(),
    )
}

fn data(text: &str) -> cogfer::transport::event_stream::StreamFrame {
    cogfer::transport::event_stream::StreamFrame::data(text)
}

#[test]
fn event_stream_decodes_events_split_across_chunks() {
    let message = event(r#"{"bytes":"e30="}"#);
    let (head, tail) = message.split_at(20);
    let mut parser = EventStreamParser::new();

    assert!(parser.push(head).is_empty());
    let frames = parser.push(tail);

    assert_eq!(frames, vec![data(r#"{"bytes":"e30="}"#)]);
    assert!(parser.finish().is_none());
    assert_eq!(parser.corruption(), None);
}

#[test]
fn event_stream_decodes_two_messages_in_one_chunk() {
    let mut bytes = event("1");
    bytes.extend(event("2"));

    let frames = EventStreamParser::new().push(&bytes);

    assert_eq!(frames, vec![data("1"), data("2")]);
}

#[test]
fn event_stream_exceptions_carry_their_type() {
    let message = encode_message(
        &[
            (":exception-type", "throttlingException"),
            (":content-type", "application/json"),
            (":message-type", "exception"),
        ],
        br#"{"message":"slow down"}"#,
    );

    let frames = EventStreamParser::new().push(&message);

    assert_eq!(
        frames,
        vec![cogfer::transport::event_stream::StreamFrame {
            data: r#"{"message":"slow down"}"#.into(),
            exception: Some("throttlingException".into()),
        }]
    );
}

#[test]
fn event_stream_non_string_headers_are_skipped() {
    let mut headers = Vec::new();
    for (name, value_type, value) in [
        (":flag", 0u8, &[][..]),
        (":byte", 2, &[7][..]),
        (":stamp", 8, &[0; 8][..]),
    ] {
        headers.push(name.len() as u8);
        headers.extend_from_slice(name.as_bytes());
        headers.push(value_type);
        headers.extend_from_slice(value);
    }
    let name = ":message-type";
    headers.push(name.len() as u8);
    headers.extend_from_slice(name.as_bytes());
    headers.push(7);
    headers.extend_from_slice(&5u16.to_be_bytes());
    headers.extend_from_slice(b"event");
    let total = (OVERHEAD + headers.len() + 2) as u32;
    let mut message = Vec::new();
    message.extend_from_slice(&total.to_be_bytes());
    message.extend_from_slice(&(headers.len() as u32).to_be_bytes());
    let prelude_crc = crc32(&message);
    message.extend_from_slice(&prelude_crc.to_be_bytes());
    message.extend_from_slice(&headers);
    message.extend_from_slice(b"{}");
    let message_crc = crc32(&message);
    message.extend_from_slice(&message_crc.to_be_bytes());

    let frames = EventStreamParser::new().push(&message);

    assert_eq!(frames, vec![data("{}")]);
}

#[test]
fn event_stream_a_bad_message_checksum_is_corruption() {
    let mut message = event("{}");
    let last = message.len() - 1;
    message[last] ^= 0xFF;
    let mut parser = EventStreamParser::new();

    assert!(parser.push(&message).is_empty());
    assert!(parser.corruption().unwrap().contains("checksum"));
    assert!(parser.push(&event("{}")).is_empty(), "stays failed");
}

#[test]
fn a_bad_prelude_is_corruption_before_the_body_arrives() {
    let mut message = event("{}");
    message[0..4].copy_from_slice(&(MAX_MESSAGE_BYTES + 1).to_be_bytes());
    let mut parser = EventStreamParser::new();

    assert!(parser.push(&message[..OVERHEAD]).is_empty());
    assert!(parser.corruption().unwrap().contains("length"));
}

#[test]
fn event_stream_frames_before_corruption_are_delivered() {
    let mut bytes = event("1");
    let mut broken = event("2");
    let last = broken.len() - 1;
    broken[last] ^= 0xFF;
    bytes.extend(broken);
    let mut parser = EventStreamParser::new();

    let frames = parser.push(&bytes);

    assert_eq!(frames, vec![data("1")]);
    assert!(parser.corruption().is_some());
}

#[test]
fn event_stream_messages_without_a_type_are_skipped() {
    let message = encode_message(&[(":content-type", "application/json")], b"{}");

    assert!(EventStreamParser::new().push(&message).is_empty());
}

#[test]
fn aws_event_stream_decodes_events_split_across_chunks() {
    let message = event(r#"{"bytes":"e30="}"#);
    let (head, tail) = message.split_at(20);
    let mut parser = AwsEventStreamParser::new();

    assert!(parser.push(head).is_empty());
    let frames = parser.push(tail);

    assert_eq!(
        frames,
        vec![StreamFrame::Data(r#"{"bytes":"e30="}"#.into())]
    );
    assert!(parser.finish().is_none());
    assert_eq!(parser.corruption(), None);
}

/// The decoder keeps the prelude once it has read it, so a message
/// arriving one byte at a time must still decode exactly once.
#[test]
fn decodes_an_event_delivered_one_byte_at_a_time() {
    let message = event("{}");
    let mut parser = AwsEventStreamParser::new();
    let mut frames = Vec::new();

    for byte in &message {
        frames.extend(parser.push(&[*byte]));
    }

    assert_eq!(frames, vec![StreamFrame::Data("{}".into())]);
    assert_eq!(parser.corruption(), None);
}

#[test]
fn aws_event_stream_decodes_two_messages_in_one_chunk() {
    let mut bytes = event("1");
    bytes.extend(event("2"));

    let frames = AwsEventStreamParser::new().push(&bytes);

    assert_eq!(
        frames,
        vec![StreamFrame::Data("1".into()), StreamFrame::Data("2".into())]
    );
}

#[test]
fn aws_event_stream_exceptions_carry_their_type() {
    let message = encode_message(
        &[
            (":exception-type", "throttlingException"),
            (":content-type", "application/json"),
            (":message-type", "exception"),
        ],
        br#"{"message":"slow down"}"#,
    );

    let frames = AwsEventStreamParser::new().push(&message);

    assert_eq!(
        frames,
        vec![StreamFrame::Exception {
            kind: "throttlingException".into(),
            payload: r#"{"message":"slow down"}"#.into(),
        }]
    );
}

#[test]
fn aws_event_stream_non_string_headers_are_skipped() {
    let message = Message::new(&b"{}"[..])
        .add_header(Header::new(":flag", HeaderValue::Bool(true)))
        .add_header(Header::new(":byte", HeaderValue::Byte(7)))
        .add_header(Header::new(":number", HeaderValue::Int64(0)))
        .add_header(Header::new(
            ":message-type",
            HeaderValue::String("event".into()),
        ));
    let mut bytes = Vec::new();
    write_message_to(&message, &mut bytes).expect("test event stream message should be valid");

    let frames = AwsEventStreamParser::new().push(&bytes);

    assert_eq!(frames, vec![StreamFrame::Data("{}".into())]);
}

#[test]
fn aws_event_stream_a_bad_message_checksum_is_corruption() {
    let mut message = event("{}");
    let last = message.len() - 1;
    message[last] ^= 0xFF;
    let mut parser = AwsEventStreamParser::new();

    assert!(parser.push(&message).is_empty());
    assert_eq!(parser.corruption(), Some(MALFORMED_MESSAGE));
    assert!(parser.push(&event("{}")).is_empty(), "stays failed");
}

#[test]
fn a_bad_prelude_checksum_is_corruption() {
    let mut message = event("{}");
    message[8..12].copy_from_slice(&0u32.to_be_bytes());
    let mut parser = AwsEventStreamParser::new();

    assert!(parser.push(&message).is_empty());
    assert_eq!(parser.corruption(), Some(MALFORMED_MESSAGE));
}

#[test]
fn aws_event_stream_frames_before_corruption_are_delivered() {
    let mut bytes = event("1");
    let mut broken = event("2");
    let last = broken.len() - 1;
    broken[last] ^= 0xFF;
    bytes.extend(broken);
    let mut parser = AwsEventStreamParser::new();

    let frames = parser.push(&bytes);

    assert_eq!(frames, vec![StreamFrame::Data("1".into())]);
    assert!(parser.corruption().is_some());
}

#[test]
fn aws_event_stream_messages_without_a_type_are_skipped() {
    let message = encode_message(&[(":content-type", "application/json")], b"{}");

    assert!(AwsEventStreamParser::new().push(&message).is_empty());
}

#[test]
fn an_invalid_utf8_payload_is_corruption() {
    let message = encode_message(&[(":message-type", "event")], &[0xFF, 0xFE]);

    let mut parser = AwsEventStreamParser::new();
    assert!(parser.push(&message).is_empty());
    assert_eq!(parser.corruption(), Some(INVALID_UTF8));
}

#[test]
fn error_messages_have_their_cause_in_a_header() {
    let message = encode_message(
        &[
            (":error-code", "InternalError"),
            (":error-message", "it broke"),
            (":message-type", "error"),
        ],
        b"",
    );

    assert_eq!(
        AwsEventStreamParser::new().push(&message),
        vec![StreamFrame::Exception {
            kind: "InternalError".into(),
            payload: "it broke".into(),
        }]
    );
}

#[test]
fn both_decoders_agree_on_encoded_messages() {
    let message = event("agreed");
    let own = EventStreamParser::new().push(&message);
    let outside = AwsEventStreamParser::new().push(&message);

    assert_eq!(own.len(), 1);
    assert_eq!(outside, vec![StreamFrame::Data("agreed".into())]);
    for frame in own {
        assert_eq!(frame.into_frame(), StreamFrame::Data("agreed".into()));
    }
}

#[test]
fn a_parser_has_room_for_ordinary_chunks() {
    let mut parser = AwsEventStreamParser::new();
    parser.push(&event("pending")[..30]);

    assert!(parser.has_room(1 << 20));
    assert!(!parser.has_room(usize::MAX));
}

fn round_trip(
    headers: &[(&str, &str)],
    payload: &[u8],
) -> Result<Option<cogfer::transport::event_stream::StreamFrame>, &'static str> {
    decode_message(&encode_message(headers, payload))
}

#[test]
fn decoding_a_message_inverts_encoding_it() {
    assert_eq!(round_trip(&[(":message-type", "event")], b"hi"), Ok(Some(data("hi"))));
    let exception = round_trip(&[(":message-type", "exception")], b"why").unwrap().unwrap();
    assert_eq!(exception.data, "why");
    assert_eq!(exception.exception.as_deref(), Some("exception"));
    let error = round_trip(
        &[
            (":message-type", "error"),
            (":error-code", "500"),
            (":error-message", "down"),
            (":error-code", "501"),
        ],
        b"ignored",
    )
    .unwrap()
    .unwrap();
    assert_eq!(error.data, "down");
    assert_eq!(error.exception.as_deref(), Some("500"));
    assert_eq!(round_trip(&[(":message-type", "other")], b"hi"), Ok(None));
    assert_eq!(round_trip(&[], b""), Ok(None));
    assert_eq!(round_trip(&[(":message-type", "event")], b"\xff"), Err(INVALID_UTF8));
}

#[test]
fn messages_over_the_limit_of_a_stream_can_be_decoded() {
    let payload = "a".repeat(MAX_MESSAGE_BYTES as usize);

    assert_eq!(
        round_trip(&[(":message-type", "event")], payload.as_bytes()),
        Ok(Some(data(&payload)))
    );
}
