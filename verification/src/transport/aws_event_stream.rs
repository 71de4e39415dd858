//! The AWS event stream encoding (`application/vnd.amazon.eventstream`).
//!
//! Framing and checksums are `aws_smithy_eventstream`. This module feeds it
//! body chunks and maps the messages it returns onto [`StreamFrame`]. Bedrock
//! marks messages with `:message-type`: `event` becomes
//! [`StreamFrame::Data`], while `exception` and `error` become
//! [`StreamFrame::Exception`] so the decoder can fail the stream.
use vstd::prelude::*;
use vstd::utf8::*;

use super::event_stream::{be32, optional, text_or, text_or_else};
use super::framing::{StreamFrame, StreamFrameView, INVALID_UTF8};
use crate::model::{opt, views};
use crate::text::{same, utf8_text};

verus! {

broadcast use crate::model::group_views;

pub const MALFORMED_MESSAGE: &'static str =
    "provider stream contained a malformed event stream message";

/// The streaming decoder of `aws_smithy_eventstream`.
#[verifier::external_type_specification]
#[verifier::external_body]
pub struct ExMessageFrameDecoder(aws_smithy_eventstream::frame::MessageFrameDecoder);

/// The byte buffer of `bytes`.
#[verifier::external_type_specification]
#[verifier::external_body]
pub struct ExBytesMut(bytes::BytesMut);

/// The bytes that the decoder has taken from its buffer and not yet returned in
/// a message: the prelude of the next message, or nothing.
pub uninterp spec fn decoder_bytes(d: aws_smithy_eventstream::frame::MessageFrameDecoder) -> Seq<
    u8,
>;

/// The bytes of a buffer.
pub uninterp spec fn buffer_bytes(b: bytes::BytesMut) -> Seq<u8>;

/// What `aws_smithy_eventstream` makes of the bytes of one complete message;
/// `None` where they are no valid message.
pub uninterp spec fn smithy_message(bytes: Seq<u8>) -> Option<MessageView>;

/// A header: its name, and its value where it is a text.
#[verifier::ext_equal]
pub struct NamedHeaderView {
    pub name: Seq<char>,
    pub value: Option<Seq<char>>,
}

/// A message.
#[verifier::ext_equal]
pub struct MessageView {
    pub headers: Seq<NamedHeaderView>,
    pub payload: Seq<u8>,
}

/// A header: its name, and its value where it is a text.
pub struct NamedHeader {
    pub name: String,
    pub value: Option<String>,
}

impl View for NamedHeader {
    type V = NamedHeaderView;

    open spec fn view(&self) -> NamedHeaderView {
        NamedHeaderView { name: self.name@, value: opt(self.value) }
    }
}

/// What the decoder made of the bytes it has.
enum Decoded {
    Incomplete,
    Complete { headers: Vec<NamedHeader>, payload: Vec<u8> },
    Failed,
}

/// `MessageFrameDecoder::new` has taken no bytes.
#[verifier::external_body]
fn new_decoder() -> (r: aws_smithy_eventstream::frame::MessageFrameDecoder)
    ensures
        decoder_bytes(r) == Seq::<u8>::empty(),
{
    aws_smithy_eventstream::frame::MessageFrameDecoder::new()
}

/// `BytesMut::new` is empty.
#[verifier::external_body]
fn new_buffer() -> (r: bytes::BytesMut)
    ensures
        buffer_bytes(r) == Seq::<u8>::empty(),
{
    bytes::BytesMut::new()
}

/// `BytesMut::extend_from_slice` appends the bytes. It panics where what it
/// allocates would not fit, which may be several times the length.
#[verifier::external_body]
fn buffer_append(buffer: &mut bytes::BytesMut, more: &[u8])
    requires
        buffer_bytes(*old(buffer)).len() + more@.len() <= isize::MAX / 8,
    ensures
        buffer_bytes(*final(buffer)) == buffer_bytes(*old(buffer)) + more@,
{
    buffer.extend_from_slice(more)
}

/// `BytesMut::len` is the number of bytes.
#[verifier::external_body]
fn buffer_len(buffer: &bytes::BytesMut) -> (r: usize)
    ensures
        r == buffer_bytes(*buffer).len(),
{
    buffer.len()
}

/// `BytesMut::clear` removes all bytes.
#[verifier::external_body]
fn buffer_clear(buffer: &mut bytes::BytesMut)
    ensures
        buffer_bytes(*final(buffer)) == Seq::<u8>::empty(),
{
    buffer.clear()
}

/// `MessageFrameDecoder::decode_frame` looks at the bytes it has taken before
/// and those in the buffer. Fewer than a prelude, or than the length that the
/// prelude states, are incomplete, and stay. A complete message is decoded and
/// taken off. A length below that of a prelude, and a message that is not
/// valid, are errors.
#[verifier::external_body]
fn decode_next(
    decoder: &mut aws_smithy_eventstream::frame::MessageFrameDecoder,
    buffer: &mut bytes::BytesMut,
) -> (r: Decoded)
    ensures
        ({
            let held = decoder_bytes(*old(decoder)) + buffer_bytes(*old(buffer));
            let left = decoder_bytes(*final(decoder)) + buffer_bytes(*final(buffer));
            let total = be32(held.take(4)) as int;
            match r {
                Decoded::Incomplete => left == held && (held.len() < 12 || 12 <= total
                    && held.len() < total),
                Decoded::Complete { headers, payload } => 12 <= total <= held.len() && left
                    == held.skip(total) && smithy_message(held.take(total)) == Some(
                    MessageView { headers: views(headers@), payload: payload@ },
                ),
                Decoded::Failed => held.len() >= 12 && (total < 12 || total <= held.len()
                    && smithy_message(held.take(total)) is None),
            }
        }),
{
    match decoder.decode_frame(buffer) {
        Ok(aws_smithy_eventstream::frame::DecodedFrame::Incomplete) => Decoded::Incomplete,
        Ok(aws_smithy_eventstream::frame::DecodedFrame::Complete(m)) => Decoded::Complete {
            headers: m.headers().iter().map(|h| NamedHeader {
                name: h.name().as_str().to_owned(),
                value: h.value().as_string().ok().map(|s| s.as_str().to_owned()),
            }).collect(),
            payload: m.payload().to_vec(),
        },
        Err(_) => Decoded::Failed,
    }
}

/// The value of the first header of a name, where it is a text.
pub open spec fn named_value(headers: Seq<NamedHeaderView>, name: Seq<char>) -> Option<Seq<char>>
    decreases headers.len(),
{
    if headers.len() == 0 {
        None
    } else if headers[0].name == name {
        headers[0].value
    } else {
        named_value(headers.skip(1), name)
    }
}

/// The frame of a message, or why it is corrupt. Messages without a known
/// `:message-type` have none.
pub open spec fn frame_of_message(m: MessageView) -> Result<Option<StreamFrameView>, Seq<char>> {
    match named_value(m.headers, ":message-type"@) {
        Some(kind) => if kind == "event"@ {
            if valid_utf8(m.payload) {
                Ok(Some(StreamFrameView::Data(decode_utf8(m.payload))))
            } else {
                Err(INVALID_UTF8@)
            }
        } else if kind == "exception"@ {
            if valid_utf8(m.payload) {
                Ok(
                    Some(
                        StreamFrameView::Exception {
                            kind: text_or(
                                named_value(m.headers, ":exception-type"@),
                                "exception"@,
                            ),
                            payload: decode_utf8(m.payload),
                        },
                    ),
                )
            } else {
                Err(INVALID_UTF8@)
            }
        } else if kind == "error"@ {
            Ok(
                Some(
                    StreamFrameView::Exception {
                        kind: text_or(named_value(m.headers, ":error-code"@), "error"@),
                        payload: text_or(named_value(m.headers, ":error-message"@), Seq::empty()),
                    },
                ),
            )
        } else {
            Ok(None)
        },
        None => Ok(None),
    }
}

/// What a run of bytes holds: the frames of the complete messages, the bytes
/// that are left, and why framing stopped, where it did.
#[verifier::ext_equal]
pub struct AwsScan {
    pub frames: Seq<StreamFrameView>,
    pub rest: Seq<u8>,
    pub corruption: Option<Seq<char>>,
}

/// Framing that has stopped.
pub open spec fn stopped(reason: Seq<char>) -> AwsScan {
    AwsScan { frames: Seq::empty(), rest: Seq::empty(), corruption: Some(reason) }
}

/// What a run of bytes holds.
pub open spec fn aws_scan(b: Seq<u8>) -> AwsScan
    decreases b.len(),
{
    let total = be32(b.take(4)) as int;
    if b.len() < 12 || 12 <= total && b.len() < total {
        AwsScan { frames: Seq::empty(), rest: b, corruption: None }
    } else if total < 12 {
        stopped(MALFORMED_MESSAGE@)
    } else {
        match smithy_message(b.take(total)) {
            Some(m) => match frame_of_message(m) {
                Ok(frame) => {
                    let more = aws_scan(b.skip(total));
                    AwsScan {
                        frames: optional(frame) + more.frames,
                        rest: more.rest,
                        corruption: more.corruption,
                    }
                },
                Err(reason) => stopped(reason),
            },
            None => stopped(MALFORMED_MESSAGE@),
        }
    }
}

/// A frame source for the binary event stream encoding.
pub struct AwsEventStreamParser {
    decoder: aws_smithy_eventstream::frame::MessageFrameDecoder,
    buffer: bytes::BytesMut,
    corruption: Option<&'static str>,
}

/// The state of a parser: the bytes of the message that is not complete yet,
/// and why framing stopped, where it did.
#[verifier::ext_equal]
pub struct AwsParserView {
    pub pending: Seq<u8>,
    pub corruption: Option<Seq<char>>,
}

impl View for AwsEventStreamParser {
    type V = AwsParserView;

    closed spec fn view(&self) -> AwsParserView {
        AwsParserView {
            pending: if self.corruption is Some {
                Seq::empty()
            } else {
                decoder_bytes(self.decoder) + buffer_bytes(self.buffer)
            },
            corruption: opt(self.corruption),
        }
    }
}

/// What comes of more bytes: the frames, and the next state. A parser that has
/// stopped stays so.
pub open spec fn aws_pushed(p: AwsParserView, bytes: Seq<u8>) -> (
    Seq<StreamFrameView>,
    AwsParserView,
) {
    if p.corruption is Some {
        (Seq::empty(), p)
    } else {
        let s = aws_scan(p.pending + bytes);
        (s.frames, AwsParserView { pending: s.rest, corruption: s.corruption })
    }
}

fn find_named<'a>(headers: &'a Vec<NamedHeader>, name: &str) -> (r: Option<&'a str>)
    ensures
        opt(r) == named_value(views(headers@), name@),
{
    let mut i: usize = 0;
    assert(views(headers@).skip(0) =~= views(headers@));
    while i < headers.len()
        invariant
            i <= headers@.len(),
            named_value(views(headers@), name@) == named_value(
                views(headers@).skip(i as int),
                name@,
            ),
        decreases headers@.len() - i,
    {
        assert(views(headers@).skip(i as int)[0] == headers@[i as int]@);
        if same(headers[i].name.as_str(), name) {
            return match &headers[i].value {
                Some(value) => Some(value.as_str()),
                None => None,
            };
        }
        assert(views(headers@).skip(i as int).skip(1) =~= views(headers@).skip(i + 1));
        i += 1;
    }
    None
}

/// Map one decoded message onto a frame. Messages without a `:message-type`
/// header are not Bedrock's and are skipped.
pub fn frame_from(headers: &Vec<NamedHeader>, payload: &[u8]) -> (r: Result<
    Option<StreamFrame>,
    &'static str,
>)
    ensures
        ({
            let m = MessageView { headers: views(headers@), payload: payload@ };
            match r {
                Ok(frame) => frame_of_message(m) == Ok::<Option<StreamFrameView>, Seq<char>>(
                    opt(frame),
                ),
                Err(reason) => frame_of_message(m) == Err::<Option<StreamFrameView>, Seq<char>>(
                    reason@,
                ),
            }
        }),
{
    match find_named(headers, ":message-type") {
        Some(kind) => {
            if same(kind, "event") {
                match utf8_text(payload) {
                    Some(data) => Ok(Some(StreamFrame::Data(data))),
                    None => Err(INVALID_UTF8),
                }
            } else if same(kind, "exception") {
                match utf8_text(payload) {
                    Some(payload) => Ok(
                        Some(
                            StreamFrame::Exception {
                                kind: text_or_else(
                                    find_named(headers, ":exception-type"),
                                    "exception",
                                ),
                                payload,
                            },
                        ),
                    ),
                    None => Err(INVALID_UTF8),
                }
            } else if same(kind, "error") {
                Ok(
                    Some(
                        StreamFrame::Exception {
                            kind: text_or_else(find_named(headers, ":error-code"), "error"),
                            payload: match find_named(headers, ":error-message") {
                                Some(message) => message.to_owned(),
                                None => String::new(),
                            },
                        },
                    ),
                )
            } else {
                Ok(None)
            }
        },
        None => Ok(None),
    }
}

impl AwsEventStreamParser {
    pub fn new() -> (r: AwsEventStreamParser)
        ensures
            r@ == (AwsParserView { pending: Seq::empty(), corruption: None }),
            forall|n: nat| n <= isize::MAX / 8 ==> #[trigger] r.fits(n),
    {
        let r = AwsEventStreamParser {
            decoder: new_decoder(),
            buffer: new_buffer(),
            corruption: None,
        };
        assert(r@.pending =~= Seq::empty());
        r
    }

    /// Whether there is room for so many bytes besides those of the message
    /// that is not complete yet.
    pub closed spec fn fits(&self, n: nat) -> bool {
        buffer_bytes(self.buffer).len() + n <= isize::MAX / 8
    }

    /// Whether there is room for so many bytes besides those of the message
    /// that is not complete yet.
    pub fn has_room(&self, n: usize) -> (r: bool)
        ensures
            r == self.fits(n as nat),
    {
        let limit: usize = isize::MAX as usize / 8;
        n <= limit && buffer_len(&self.buffer) <= limit - n
    }

    fn fail(&mut self, reason: &'static str)
        ensures
            final(self)@ == (AwsParserView { pending: Seq::empty(), corruption: Some(reason@) }),
    {
        self.corruption = Some(reason);
        buffer_clear(&mut self.buffer);
    }

    /// Push bytes and return every frame they complete.
    pub fn push(&mut self, bytes: &[u8]) -> (r: Vec<StreamFrame>)
        requires
            old(self).fits(bytes@.len()),
        ensures
            views(r@) == aws_pushed(old(self)@, bytes@).0,
            final(self)@ == aws_pushed(old(self)@, bytes@).1,
    {
        let mut frames: Vec<StreamFrame> = Vec::new();
        if self.corruption.is_some() {
            return frames;
        }
        buffer_append(&mut self.buffer, bytes);
        let ghost all = old(self)@.pending + bytes@;
        assert(self@.pending =~= all);
        loop
            invariant
                old(self)@.corruption is None,
                all == old(self)@.pending + bytes@,
                self.corruption is None,
                aws_scan(all) == (AwsScan {
                    frames: views(frames@) + aws_scan(self@.pending).frames,
                    rest: aws_scan(self@.pending).rest,
                    corruption: aws_scan(self@.pending).corruption,
                }),
            decreases self@.pending.len(),
        {
            let ghost b = self@.pending;
            let ghost total = be32(b.take(4)) as int;
            let ghost before = views(frames@);
            // The decoder keeps the prelude it consumed, so a partial message
            // resumes on the next call rather than restarting.
            match decode_next(&mut self.decoder, &mut self.buffer) {
                Decoded::Complete { headers, payload } => {
                    let ghost more = aws_scan(b.skip(total));
                    match frame_from(&headers, payload.as_slice()) {
                        Ok(frame) => {
                            let ghost f = opt(frame);
                            if let Some(frame) = frame {
                                frames.push(frame);
                            }
                            assert(views(frames@) =~= before + optional(f));
                            assert(before + (optional(f) + more.frames) =~= views(frames@)
                                + more.frames);
                        },
                        Err(reason) => {
                            self.fail(reason);
                            assert(views(frames@) + Seq::empty() =~= views(frames@));
                            return frames;
                        },
                    }
                },
                Decoded::Incomplete => {
                    assert(views(frames@) + Seq::empty() =~= views(frames@));
                    return frames;
                },
                Decoded::Failed => {
                    self.fail(MALFORMED_MESSAGE);
                    assert(views(frames@) + Seq::empty() =~= views(frames@));
                    return frames;
                },
            }
        }
    }

    /// A partial trailing message is a truncated stream, not a frame.
    pub fn finish(&mut self) -> (r: Option<StreamFrame>)
        ensures
            r is None,
            *final(self) == *old(self),
    {
        None
    }

    /// The reason framing stopped, once it has.
    pub fn corruption(&self) -> (r: Option<&'static str>)
        ensures
            opt(r) == self@.corruption,
    {
        self.corruption
    }
}

proof fn lemma_aws_scan_append(a: Seq<u8>, b: Seq<u8>)
    ensures
        aws_scan(a).corruption is Some ==> aws_scan(a + b) == aws_scan(a) && aws_scan(
            a,
        ).rest.len() == 0,
        aws_scan(a).corruption is None ==> aws_scan(a + b) == (AwsScan {
            frames: aws_scan(a).frames + aws_scan(aws_scan(a).rest + b).frames,
            rest: aws_scan(aws_scan(a).rest + b).rest,
            corruption: aws_scan(aws_scan(a).rest + b).corruption,
        }),
    decreases a.len(),
{
    let total = be32(a.take(4)) as int;
    let none = Seq::<StreamFrameView>::empty();
    if a.len() < 12 || 12 <= total && a.len() < total {
        assert(none + aws_scan(a + b).frames =~= aws_scan(a + b).frames);
    } else {
        assert((a + b).take(4) =~= a.take(4));
        if total >= 12 {
            assert((a + b).take(total) =~= a.take(total));
            assert((a + b).skip(total) =~= a.skip(total) + b);
            if let Some(m) = smithy_message(a.take(total)) {
                if let Ok(frame) = frame_of_message(m) {
                    lemma_aws_scan_append(a.skip(total), b);
                    let more = aws_scan(a.skip(total));
                    if more.corruption is None {
                        assert(optional(frame) + (more.frames + aws_scan(more.rest + b).frames)
                            =~= (optional(frame) + more.frames) + aws_scan(more.rest + b).frames);
                    }
                }
            }
        }
    }
}

/// Where a body is cut into chunks makes no difference: two chunks give the
/// frames that they give as one, and leave the parser in the same state.
pub proof fn aws_chunking_makes_no_difference(p: AwsParserView, a: Seq<u8>, b: Seq<u8>)
    ensures
        aws_pushed(p, a + b).0 == aws_pushed(p, a).0 + aws_pushed(aws_pushed(p, a).1, b).0,
        aws_pushed(p, a + b).1 == aws_pushed(aws_pushed(p, a).1, b).1,
{
    if p.corruption is None {
        lemma_aws_scan_append(p.pending + a, b);
        assert(p.pending + a + b =~= p.pending + (a + b));
        assert(aws_scan(p.pending + a).frames + Seq::empty() =~= aws_scan(p.pending + a).frames);
    }
}

} // verus!
