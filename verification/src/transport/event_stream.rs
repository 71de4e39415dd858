//! The AWS event stream encoding (`application/vnd.amazon.eventstream`).
//!
//! Each message is a prelude (total length, headers length, prelude CRC),
//! typed headers, a payload, and a CRC over everything before it. Bedrock
//! marks messages with `:message-type` (`event`, `exception`, or `error`) and
//! names them with `:event-type` or `:exception-type`. Events become
//! [`StreamFrame`]s carrying the payload; exceptions and errors become frames
//! with [`StreamFrame::exception`] set so the decoder can fail the stream.
use vstd::prelude::*;
use vstd::utf8::*;

use super::framing;
use crate::model::{opt, views};
use crate::text::{same, utf8_text};
use crate::util::{crc32, crc_of};

verus! {

broadcast use crate::model::group_views;

/// Maximum accepted message size. Bedrock payloads are far smaller; the limit
/// bounds buffering when the length prelude is corrupt.
pub const MAX_MESSAGE_BYTES: u32 = 16_777_216;

/// Prelude plus both checksums.
pub const OVERHEAD: usize = 16;

pub const BAD_LENGTH: &'static str =
    "provider stream contained an event stream message with an invalid length";

pub const BAD_PRELUDE: &'static str =
    "provider stream contained an event stream message with a bad prelude checksum";

pub const BAD_CHECKSUM: &'static str =
    "provider stream contained an event stream message with a bad checksum";

pub const BAD_HEADER_LENGTH: &'static str =
    "provider stream contained an event stream message with an invalid header length";

pub const MALFORMED: &'static str =
    "provider stream contained an event stream message with malformed headers";

/// One frame: a payload, and the name of the exception it belongs to.
#[derive(Debug, Clone, PartialEq, Eq)]
pub struct StreamFrame {
    pub data: String,
    pub exception: Option<String>,
}

/// What a frame is.
#[verifier::ext_equal]
pub struct FrameView {
    pub data: Seq<char>,
    pub exception: Option<Seq<char>>,
}

impl View for StreamFrame {
    type V = FrameView;

    open spec fn view(&self) -> FrameView {
        FrameView { data: self.data@, exception: opt(self.exception) }
    }
}

impl StreamFrame {
    /// A payload.
    pub fn data(data: &str) -> (r: StreamFrame)
        ensures
            r@ == (FrameView { data: data@, exception: None }),
    {
        StreamFrame { data: data.to_owned(), exception: None }
    }

    /// The frame that protocol decoders take.
    pub fn into_frame(self) -> (r: framing::StreamFrame)
        ensures
            r@ == match self@.exception {
                Some(kind) => framing::StreamFrameView::Exception { kind, payload: self@.data },
                None => framing::StreamFrameView::Data(self@.data),
            },
    {
        match self.exception {
            Some(kind) => framing::StreamFrame::Exception { kind, payload: self.data },
            None => framing::StreamFrame::Data(self.data),
        }
    }
}

/// A header of a message.
pub type HeaderView = (Seq<char>, Seq<char>);

/// The number that four bytes stand for, the most significant first.
pub open spec fn be32(b: Seq<u8>) -> u32 {
    (b[0] * 16777216 + b[1] * 65536 + b[2] * 256 + b[3]) as u32
}

/// The number that two bytes stand for, the most significant first.
pub open spec fn be16(b: Seq<u8>) -> u16 {
    (b[0] * 256 + b[1]) as u16
}

/// The four bytes of a number, the most significant first.
pub open spec fn bytes32(n: u32) -> Seq<u8> {
    seq![(n / 16777216) as u8, (n / 65536 % 256) as u8, (n / 256 % 256) as u8, (n % 256) as u8]
}

/// The two bytes of a number, the most significant first.
pub open spec fn bytes16(n: u16) -> Seq<u8> {
    seq![(n / 256) as u8, (n % 256) as u8]
}

/// How many bytes a header value of a type takes; `None` for a type whose values
/// come with their length, and for an unknown one.
pub open spec fn fixed_size(value_type: u8) -> Option<int> {
    if value_type == 0 || value_type == 1 {
        Some(0)
    } else if value_type == 2 {
        Some(1)
    } else if value_type == 3 {
        Some(2)
    } else if value_type == 4 {
        Some(4)
    } else if value_type == 5 || value_type == 8 {
        Some(8)
    } else if value_type == 9 {
        Some(16)
    } else {
        None
    }
}

/// Where the value of a header stands in the bytes after its type.
pub open spec fn value_range(value_type: u8, rest: Seq<u8>) -> Option<(int, int)> {
    if value_type == 6 || value_type == 7 {
        if rest.len() < 2 {
            None
        } else {
            let end = 2 + be16(rest.take(2));
            if rest.len() < end {
                None
            } else {
                Some((2int, end as int))
            }
        }
    } else {
        match fixed_size(value_type) {
            Some(n) => if rest.len() < n {
                None
            } else {
                Some((0int, n))
            },
            None => None,
        }
    }
}

/// One header at the start of a header block: the header itself, where its
/// value is a text, and the length it takes.
#[verifier::opaque]
pub open spec fn first_header(b: Seq<u8>) -> Option<(Option<HeaderView>, int)> {
    let n = b[0] as int;
    if b.len() < 1 + n + 1 || !valid_utf8(b.subrange(1, 1 + n)) {
        None
    } else {
        let value_type = b[1 + n];
        let rest = b.skip(2 + n);
        match value_range(value_type, rest) {
            Some((from, to)) => if value_type == 7 {
                if valid_utf8(rest.subrange(from, to)) {
                    Some(
                        (
                            Some(
                                (
                                    decode_utf8(b.subrange(1, 1 + n)),
                                    decode_utf8(rest.subrange(from, to)),
                                ),
                            ),
                            2 + n + to,
                        ),
                    )
                } else {
                    None
                }
            } else {
                Some((None, 2 + n + to))
            },
            None => None,
        }
    }
}

/// The text headers of a header block; `None` where it is malformed.
pub open spec fn headers_of(b: Seq<u8>) -> Option<Seq<HeaderView>>
    decreases b.len(),
{
    if b.len() == 0 {
        Some(Seq::empty())
    } else {
        match first_header(b) {
            Some((header, len)) => if 0 < len <= b.len() {
                match headers_of(b.skip(len)) {
                    Some(more) => match header {
                        Some(h) => Some(seq![h] + more),
                        None => Some(more),
                    },
                    None => None,
                }
            } else {
                None
            },
            None => None,
        }
    }
}

/// The value of the first header of a name.
pub open spec fn header_value(headers: Seq<HeaderView>, name: Seq<char>) -> Option<Seq<char>>
    decreases headers.len(),
{
    if headers.len() == 0 {
        None
    } else if headers[0].0 == name {
        Some(headers[0].1)
    } else {
        header_value(headers.skip(1), name)
    }
}

/// An optional text, or another.
pub open spec fn text_or(o: Option<Seq<char>>, other: Seq<char>) -> Seq<char> {
    match o {
        Some(s) => s,
        None => other,
    }
}

/// The frame of a message with the given headers and payload. Messages without
/// a known `:message-type` have none.
pub open spec fn frame_of(headers: Seq<HeaderView>, payload: Seq<char>) -> Option<FrameView> {
    match header_value(headers, ":message-type"@) {
        Some(kind) => if kind == "event"@ {
            Some(FrameView { data: payload, exception: None })
        } else if kind == "exception"@ {
            Some(
                FrameView {
                    data: payload,
                    exception: Some(
                        text_or(header_value(headers, ":exception-type"@), "exception"@),
                    ),
                },
            )
        } else if kind == "error"@ {
            Some(
                FrameView {
                    data: text_or(header_value(headers, ":error-message"@), Seq::empty()),
                    exception: Some(text_or(header_value(headers, ":error-code"@), "error"@)),
                },
            )
        } else {
            None
        },
        None => None,
    }
}

/// The frame of one complete message whose prelude is good, or why it is
/// corrupt.
#[verifier::opaque]
pub open spec fn message_frame(m: Seq<u8>) -> Result<Option<FrameView>, Seq<char>> {
    let total = m.len() as int;
    let headers_len = be32(m.subrange(4, 8)) as int;
    if crc_of(m.take(total - 4)) != be32(m.skip(total - 4)) {
        Err(BAD_CHECKSUM@)
    } else if headers_len > total - 16 {
        Err(BAD_HEADER_LENGTH@)
    } else {
        let payload = m.subrange(12 + headers_len, total - 4);
        match headers_of(m.subrange(12, 12 + headers_len)) {
            Some(headers) => if valid_utf8(payload) {
                Ok(frame_of(headers, decode_utf8(payload)))
            } else {
                Err(framing::INVALID_UTF8@)
            },
            None => Err(MALFORMED@),
        }
    }
}

/// What a run of bytes holds: the frames of the complete messages, the bytes
/// that are left, and why framing stopped, where it did.
#[verifier::ext_equal]
pub struct Scan {
    pub frames: Seq<FrameView>,
    pub rest: Seq<u8>,
    pub corruption: Option<Seq<char>>,
}

/// An optional element as a sequence.
pub open spec fn optional<T>(o: Option<T>) -> Seq<T> {
    match o {
        Some(x) => seq![x],
        None => Seq::empty(),
    }
}

/// What a run of bytes holds.
pub open spec fn scan(b: Seq<u8>) -> Scan
    decreases b.len(),
{
    let total = be32(b.take(4)) as int;
    if b.len() < 16 {
        Scan { frames: Seq::empty(), rest: b, corruption: None }
    } else if total > MAX_MESSAGE_BYTES || total < 16 {
        Scan { frames: Seq::empty(), rest: Seq::empty(), corruption: Some(BAD_LENGTH@) }
    } else if crc_of(b.take(8)) != be32(b.subrange(8, 12)) {
        Scan { frames: Seq::empty(), rest: Seq::empty(), corruption: Some(BAD_PRELUDE@) }
    } else if b.len() < total {
        Scan { frames: Seq::empty(), rest: b, corruption: None }
    } else {
        match message_frame(b.take(total)) {
            Ok(frame) => {
                let more = scan(b.skip(total));
                Scan {
                    frames: optional(frame) + more.frames,
                    rest: more.rest,
                    corruption: more.corruption,
                }
            },
            Err(reason) => Scan {
                frames: Seq::empty(),
                rest: Seq::empty(),
                corruption: Some(reason),
            },
        }
    }
}

/// A frame source for the binary event stream encoding.
#[derive(Debug, Clone)]
pub struct EventStreamParser {
    buffer: Vec<u8>,
    corruption: Option<&'static str>,
}

/// The state of a parser: the bytes of the message that is not complete yet,
/// and why framing stopped, where it did.
#[verifier::ext_equal]
pub struct ParserView {
    pub pending: Seq<u8>,
    pub corruption: Option<Seq<char>>,
}

impl View for EventStreamParser {
    type V = ParserView;

    closed spec fn view(&self) -> ParserView {
        ParserView { pending: self.buffer@, corruption: opt(self.corruption) }
    }
}

/// What comes of more bytes: the frames, and the next state. A parser that has
/// stopped stays so.
pub open spec fn pushed(p: ParserView, bytes: Seq<u8>) -> (Seq<FrameView>, ParserView) {
    if p.corruption is Some {
        (Seq::empty(), p)
    } else {
        let s = scan(p.pending + bytes);
        (s.frames, ParserView { pending: s.rest, corruption: s.corruption })
    }
}

fn read32(b: &[u8], at: usize) -> (r: u32)
    requires
        at + 4 <= b@.len(),
    ensures
        r == be32(b@.subrange(at as int, at + 4)),
{
    (b[at] as u32) * 16777216 + (b[at + 1] as u32) * 65536 + (b[at + 2] as u32) * 256 + (b[at
        + 3] as u32)
}

fn range(b: &[u8], from: usize, to: usize) -> (r: &[u8])
    requires
        from <= to <= b@.len(),
    ensures
        r@ == b@.subrange(from as int, to as int),
{
    vstd::slice::slice_subrange(b, from, to)
}

/// A header of a message.
struct Header {
    name: String,
    value: String,
}

impl View for Header {
    type V = HeaderView;

    closed spec fn view(&self) -> HeaderView {
        (self.name@, self.value@)
    }
}

/// Parse one header: the header itself, where its value is a text, and the
/// length it takes.
fn decode_header(bytes: &[u8]) -> (r: Option<(Option<Header>, usize)>)
    requires
        bytes@.len() > 0,
    ensures
        match r {
            Some((header, len)) => first_header(bytes@) == Some((opt(header), len as int)) && 0
                < len <= bytes@.len(),
            None => first_header(bytes@) is None,
        },
{
    reveal(first_header);
    let name_len: usize = bytes[0] as usize;
    if bytes.len() < 2 + name_len {
        return None;
    }
    let name: String = match utf8_text(range(bytes, 1, 1 + name_len)) {
        Some(name) => name,
        None => {
            return None;
        },
    };
    let value_type: u8 = bytes[1 + name_len];
    let rest: &[u8] = range(bytes, 2 + name_len, bytes.len());
    assert(rest@ =~= bytes@.skip(2 + name_len));
    let (from, to): (usize, usize) = match value_bounds(value_type, rest) {
        Some(bounds) => bounds,
        None => {
            return None;
        },
    };
    if value_type == 7 {
        match utf8_text(range(rest, from, to)) {
            Some(value) => Some((Some(Header { name, value }), 2 + name_len + to)),
            None => None,
        }
    } else {
        Some((None, 2 + name_len + to))
    }
}

/// Where the value of a header stands in the bytes after its type.
fn value_bounds(value_type: u8, rest: &[u8]) -> (r: Option<(usize, usize)>)
    ensures
        match r {
            Some((from, to)) => value_range(value_type, rest@) == Some((from as int, to as int))
                && from <= to <= rest@.len(),
            None => value_range(value_type, rest@) is None,
        },
{
    let len: usize = if value_type == 0 || value_type == 1 {
        0
    } else if value_type == 2 {
        1
    } else if value_type == 3 {
        2
    } else if value_type == 4 {
        4
    } else if value_type == 5 || value_type == 8 {
        8
    } else if value_type == 9 {
        16
    } else if value_type == 6 || value_type == 7 {
        if rest.len() < 2 {
            return None;
        }
        let end: usize = 2 + (rest[0] as usize) * 256 + (rest[1] as usize);
        if rest.len() < end {
            return None;
        }
        return Some((2, end));
    } else {
        return None;
    };
    if rest.len() < len {
        None
    } else {
        Some((0, len))
    }
}

/// Parse the header block. Only string values are meaningful here; the other
/// types are skipped by their fixed or prefixed sizes.
fn decode_headers(bytes: &[u8]) -> (r: Result<Vec<Header>, &'static str>)
    ensures
        match r {
            Ok(headers) => headers_of(bytes@) == Some(views(headers@)),
            Err(reason) => headers_of(bytes@) is None && reason@ == MALFORMED@,
        },
{
    let mut headers: Vec<Header> = Vec::new();
    let mut at: usize = 0;
    assert(bytes@.skip(0) =~= bytes@);
    while at < bytes.len()
        invariant
            at <= bytes@.len(),
            headers_of(bytes@) == match headers_of(bytes@.skip(at as int)) {
                Some(more) => Some(views(headers@) + more),
                None => None,
            },
        decreases bytes@.len() - at,
    {
        let rest: &[u8] = range(bytes, at, bytes.len());
        assert(rest@ =~= bytes@.skip(at as int));
        match decode_header(rest) {
            Some((header, len)) => {
                let ghost before = views(headers@);
                let ghost h = opt(header);
                if let Some(header) = header {
                    headers.push(header);
                }
                assert(rest@.skip(len as int) =~= bytes@.skip(at + len));
                proof {
                    if let Some(more) = headers_of(bytes@.skip(at + len)) {
                        if let Some(h) = h {
                            assert(before + (seq![h] + more) =~= before.push(h) + more);
                        }
                    }
                }
                at += len;
            },
            None => {
                return Err(MALFORMED);
            },
        }
    }
    assert(bytes@.skip(at as int) =~= Seq::empty());
    assert(views(headers@) + Seq::empty() =~= views(headers@));
    Ok(headers)
}

fn find_header<'a>(headers: &'a Vec<Header>, name: &str) -> (r: Option<&'a str>)
    ensures
        opt(r) == header_value(views(headers@), name@),
{
    let mut i: usize = 0;
    assert(views(headers@).skip(0) =~= views(headers@));
    while i < headers.len()
        invariant
            i <= headers@.len(),
            header_value(views(headers@), name@) == header_value(
                views(headers@).skip(i as int),
                name@,
            ),
        decreases headers@.len() - i,
    {
        assert(views(headers@).skip(i as int)[0] == headers@[i as int]@);
        if same(headers[i].name.as_str(), name) {
            return Some(headers[i].value.as_str());
        }
        assert(views(headers@).skip(i as int).skip(1) =~= views(headers@).skip(i + 1));
        i += 1;
    }
    None
}

/// An optional text, or another.
pub fn text_or_else(o: Option<&str>, other: &str) -> (r: String)
    ensures
        r@ == text_or(opt(o), other@),
{
    match o {
        Some(s) => s.to_owned(),
        None => other.to_owned(),
    }
}

/// Decode one complete message whose prelude has been verified. Messages
/// without a `:message-type` header are not Bedrock's and are skipped.
pub fn decode_message(message: &[u8]) -> (r: Result<Option<StreamFrame>, &'static str>)
    requires
        message@.len() >= 16,
    ensures
        match r {
            Ok(frame) => message_frame(message@) == Ok::<Option<FrameView>, Seq<char>>(opt(frame)),
            Err(reason) => message_frame(message@) == Err::<Option<FrameView>, Seq<char>>(reason@),
        },
{
    reveal(message_frame);
    let total: usize = message.len();
    let checksum: u32 = read32(message, total - 4);
    assert(message@.subrange(total - 4, total as int) =~= message@.skip(total - 4));
    assert(message@.subrange(0, total - 4) =~= message@.take(total - 4));
    if crc32(range(message, 0, total - 4)) != checksum {
        return Err(BAD_CHECKSUM);
    }
    let headers_len: u32 = read32(message, 4);
    if headers_len as usize > total - OVERHEAD {
        return Err(BAD_HEADER_LENGTH);
    }
    let body: usize = 12 + headers_len as usize;
    let headers: Vec<Header> = match decode_headers(range(message, 12, body)) {
        Ok(headers) => headers,
        Err(reason) => {
            return Err(reason);
        },
    };
    let data: String = match utf8_text(range(message, body, total - 4)) {
        Some(data) => data,
        None => {
            return Err(framing::INVALID_UTF8);
        },
    };
    match find_header(&headers, ":message-type") {
        Some(kind) => {
            if same(kind, "event") {
                Ok(Some(StreamFrame { data, exception: None }))
            } else if same(kind, "exception") {
                let name: String = text_or_else(
                    find_header(&headers, ":exception-type"),
                    "exception",
                );
                Ok(Some(StreamFrame { data, exception: Some(name) }))
            } else if same(kind, "error") {
                let data: String = match find_header(&headers, ":error-message") {
                    Some(message) => message.to_owned(),
                    None => String::new(),
                };
                let name: String = text_or_else(find_header(&headers, ":error-code"), "error");
                Ok(Some(StreamFrame { data, exception: Some(name) }))
            } else {
                Ok(None)
            }
        },
        None => Ok(None),
    }
}

/// The bytes after a position.
fn tail(b: &Vec<u8>, from: usize) -> (r: Vec<u8>)
    requires
        from <= b@.len(),
    ensures
        r@ == b@.skip(from as int),
{
    let mut r: Vec<u8> = Vec::new();
    append_bytes(&mut r, range(b.as_slice(), from, b.len()));
    assert(r@ =~= b@.skip(from as int));
    r
}

fn append_bytes(v: &mut Vec<u8>, more: &[u8])
    ensures
        final(v)@ == old(v)@ + more@,
{
    let ghost start = v@;
    let mut i: usize = 0;
    while i < more.len()
        invariant
            i <= more@.len(),
            v@ == start + more@.take(i as int),
        decreases more@.len() - i,
    {
        v.push(more[i]);
        assert(more@.take(i + 1) =~= more@.take(i as int).push(more@[i as int]));
        i += 1;
    }
    assert(more@.take(i as int) =~= more@);
}

impl EventStreamParser {
    pub fn new() -> (r: EventStreamParser)
        ensures
            r@ == (ParserView { pending: Seq::empty(), corruption: None }),
    {
        EventStreamParser { buffer: Vec::new(), corruption: None }
    }

    fn fail(&mut self, reason: &'static str)
        ensures
            final(self)@ == (ParserView { pending: Seq::empty(), corruption: Some(reason@) }),
    {
        self.corruption = Some(reason);
        self.buffer.clear();
    }

    /// Push bytes and return every frame they complete.
    pub fn push(&mut self, bytes: &[u8]) -> (r: Vec<StreamFrame>)
        ensures
            views(r@) == pushed(old(self)@, bytes@).0,
            final(self)@ == pushed(old(self)@, bytes@).1,
    {
        let mut frames: Vec<StreamFrame> = Vec::new();
        if self.corruption.is_some() {
            return frames;
        }
        append_bytes(&mut self.buffer, bytes);
        let ghost all = self.buffer@;
        let mut offset: usize = 0;
        assert(all.skip(0) =~= all);
        while self.buffer.len() - offset >= OVERHEAD
            invariant
                self.buffer@ == all,
                self.corruption is None,
                offset <= all.len(),
                scan(all) == (Scan {
                    frames: views(frames@) + scan(all.skip(offset as int)).frames,
                    rest: scan(all.skip(offset as int)).rest,
                    corruption: scan(all.skip(offset as int)).corruption,
                }),
                old(self)@.corruption is None,
                all == old(self)@.pending + bytes@,
            decreases all.len() - offset,
        {
            let ghost b = all.skip(offset as int);
            let total: u32 = read32(self.buffer.as_slice(), offset);
            assert(all.subrange(offset as int, offset + 4) =~= b.take(4));
            if total > MAX_MESSAGE_BYTES || total < 16 {
                self.fail(BAD_LENGTH);
                assert(views(frames@) + Seq::empty() =~= views(frames@));
                return frames;
            }
            assert(all.subrange(offset as int, offset + 8) =~= b.take(8));
            assert(all.subrange(offset + 8, offset + 12) =~= b.subrange(8, 12));
            if crc32(range(self.buffer.as_slice(), offset, offset + 8)) != read32(
                self.buffer.as_slice(),
                offset + 8,
            ) {
                self.fail(BAD_PRELUDE);
                assert(views(frames@) + Seq::empty() =~= views(frames@));
                return frames;
            }
            let total: usize = total as usize;
            if self.buffer.len() - offset < total {
                self.buffer = tail(&self.buffer, offset);
                assert(views(frames@) + Seq::empty() =~= views(frames@));
                return frames;
            }
            assert(all.subrange(offset as int, offset + total) =~= b.take(total as int));
            let ghost before = views(frames@);
            let ghost more = scan(b.skip(total as int));
            match decode_message(range(self.buffer.as_slice(), offset, offset + total)) {
                Ok(frame) => {
                    let ghost f = opt(frame);
                    if let Some(frame) = frame {
                        frames.push(frame);
                    }
                    assert(views(frames@) =~= before + optional(f));
                    assert(before + (optional(f) + more.frames) =~= views(frames@) + more.frames);
                },
                Err(reason) => {
                    self.fail(reason);
                    assert(views(frames@) + Seq::empty() =~= views(frames@));
                    return frames;
                },
            }
            assert(b.skip(total as int) =~= all.skip(offset + total));
            offset += total;
        }
        self.buffer = tail(&self.buffer, offset);
        assert(views(frames@) + Seq::empty() =~= views(frames@));
        frames
    }

    /// A partial trailing message is a truncated stream, not a frame.
    pub fn finish(&mut self) -> (r: Option<StreamFrame>)
        ensures
            r is None,
            *final(self) == *old(self),
    {
        None
    }

    /// The reason framing stopped, once it has.
    pub fn corruption(&self) -> (r: Option<&'static str>)
        ensures
            opt(r) == self@.corruption,
    {
        self.corruption
    }
}

impl Default for EventStreamParser {
    fn default() -> (r: EventStreamParser)
        ensures
            r@ == (ParserView { pending: Seq::empty(), corruption: None }),
    {
        EventStreamParser::new()
    }
}

/// The bytes of one text header.
pub open spec fn encoded_header(h: HeaderView) -> Seq<u8> {
    seq![encode_utf8(h.0).len() as u8] + encode_utf8(h.0) + seq![7u8] + bytes16(
        encode_utf8(h.1).len() as u16,
    ) + encode_utf8(h.1)
}

/// The bytes of text headers.
pub open spec fn encoded_headers(headers: Seq<HeaderView>) -> Seq<u8>
    decreases headers.len(),
{
    if headers.len() == 0 {
        Seq::empty()
    } else {
        encoded_headers(headers.drop_last()) + encoded_header(headers.last())
    }
}

/// The bytes of a message before its last checksum.
pub open spec fn unsigned_message(headers: Seq<HeaderView>, payload: Seq<u8>) -> Seq<u8> {
    let h = encoded_headers(headers);
    let prelude = bytes32((16 + h.len() + payload.len()) as u32) + bytes32(h.len() as u32);
    prelude + bytes32(crc_of(prelude)) + h + payload
}

/// The bytes of a message.
pub open spec fn encoded_message(headers: Seq<HeaderView>, payload: Seq<u8>) -> Seq<u8> {
    unsigned_message(headers, payload) + bytes32(crc_of(unsigned_message(headers, payload)))
}

fn append32(v: &mut Vec<u8>, n: u32)
    ensures
        final(v)@ == old(v)@ + bytes32(n),
{
    v.push((n / 16777216) as u8);
    v.push((n / 65536 % 256) as u8);
    v.push((n / 256 % 256) as u8);
    v.push((n % 256) as u8);
    assert(v@ =~= old(v)@ + bytes32(n));
}

fn append16(v: &mut Vec<u8>, n: u16)
    ensures
        final(v)@ == old(v)@ + bytes16(n),
{
    v.push((n / 256) as u8);
    v.push((n % 256) as u8);
    assert(v@ =~= old(v)@ + bytes16(n));
}

/// The views of headers given as texts.
pub open spec fn header_views(headers: Seq<(&str, &str)>) -> Seq<HeaderView> {
    Seq::new(headers.len(), |i: int| (headers[i].0@, headers[i].1@))
}

/// Encode one message with string headers, the inverse of decoding one.
pub fn encode_message(headers: &[(&str, &str)], payload: &[u8]) -> (r: Vec<u8>)
    requires
        16 + encoded_headers(header_views(headers@)).len() + payload@.len() <= usize::MAX,
    ensures
        r@ == encoded_message(header_views(headers@), payload@),
{
    let ghost hs = header_views(headers@);
    let mut header_bytes: Vec<u8> = Vec::new();
    let mut i: usize = 0;
    assert(hs.take(0) =~= Seq::empty());
    while i < headers.len()
        invariant
            i <= headers@.len(),
            hs == header_views(headers@),
            header_bytes@ == encoded_headers(hs.take(i as int)),
        decreases headers@.len() - i,
    {
        let name: &str = headers[i].0;
        let value: &str = headers[i].1;
        let name_bytes: &[u8] = name.as_bytes();
        let value_bytes: &[u8] = value.as_bytes();
        let ghost before = header_bytes@;
        header_bytes.push(#[verifier::truncate] (name_bytes.len() as u8));
        append_bytes(&mut header_bytes, name_bytes);
        header_bytes.push(7);
        append16(&mut header_bytes, #[verifier::truncate] (value_bytes.len() as u16));
        append_bytes(&mut header_bytes, value_bytes);
        assert(header_bytes@ =~= before + encoded_header(hs[i as int]));
        assert(hs.take(i + 1).drop_last() =~= hs.take(i as int));
        i += 1;
    }
    assert(hs.take(i as int) =~= hs);
    let total: u32 = #[verifier::truncate] ((OVERHEAD + header_bytes.len() + payload.len()) as u32);
    let mut message: Vec<u8> = Vec::new();
    append32(&mut message, total);
    append32(&mut message, #[verifier::truncate] (header_bytes.len() as u32));
    let ghost prelude = bytes32(total) + bytes32(header_bytes@.len() as u32);
    assert(message@ =~= prelude);
    let prelude_crc: u32 = crc32(message.as_slice());
    append32(&mut message, prelude_crc);
    append_bytes(&mut message, header_bytes.as_slice());
    append_bytes(&mut message, payload);
    assert(message@ =~= unsigned_message(hs, payload@));
    let message_crc: u32 = crc32(message.as_slice());
    append32(&mut message, message_crc);
    message
}

/// What more bytes after some bytes hold.
proof fn lemma_scan_append(a: Seq<u8>, b: Seq<u8>)
    ensures
        scan(a).corruption is Some ==> scan(a + b) == scan(a),
        scan(a).corruption is None ==> scan(a + b) == (Scan {
            frames: scan(a).frames + scan(scan(a).rest + b).frames,
            rest: scan(scan(a).rest + b).rest,
            corruption: scan(scan(a).rest + b).corruption,
        }),
    decreases a.len(),
{
    let s = scan(a);
    let total = be32(a.take(4)) as int;
    let none = Seq::<FrameView>::empty();
    if a.len() < 16 {
        assert(none + scan(a + b).frames =~= scan(a + b).frames);
    } else {
        assert((a + b).take(4) =~= a.take(4));
        assert((a + b).take(8) =~= a.take(8));
        assert((a + b).subrange(8, 12) =~= a.subrange(8, 12));
        if total > MAX_MESSAGE_BYTES || total < 16 {
        } else if crc_of(a.take(8)) != be32(a.subrange(8, 12)) {
        } else if a.len() < total {
            assert(none + scan(a + b).frames =~= scan(a + b).frames);
        } else {
            assert((a + b).take(total) =~= a.take(total));
            assert((a + b).skip(total) =~= a.skip(total) + b);
            if let Ok(frame) = message_frame(a.take(total)) {
                lemma_scan_append(a.skip(total), b);
                let more = scan(a.skip(total));
                if more.corruption is None {
                    assert(optional(frame) + (more.frames + scan(more.rest + b).frames) =~= (
                    optional(frame) + more.frames) + scan(more.rest + b).frames);
                }
            }
        }
    }
}

/// Where a body is cut into chunks makes no difference: two chunks give the
/// frames that they give as one, and leave the parser in the same state.
pub proof fn chunking_makes_no_difference(p: ParserView, a: Seq<u8>, b: Seq<u8>)
    ensures
        pushed(p, a + b).0 == pushed(p, a).0 + pushed(pushed(p, a).1, b).0,
        pushed(p, a + b).1 == pushed(pushed(p, a).1, b).1,
{
    if p.corruption is None {
        lemma_scan_append(p.pending + a, b);
        assert(p.pending + a + b =~= p.pending + (a + b));
        assert(scan(p.pending + a).frames + Seq::empty() =~= scan(p.pending + a).frames);
    }
}

/// A parser that has stopped yields nothing more and stays stopped.
pub proof fn a_stopped_parser_stays_stopped(p: ParserView, bytes: Seq<u8>)
    requires
        p.corruption is Some,
    ensures
        pushed(p, bytes).0.len() == 0,
        pushed(p, bytes).1 == p,
{
}

proof fn lemma_numbers(n: u32, k: u16)
    ensures
        bytes32(n).len() == 4,
        be32(bytes32(n)) == n,
        bytes16(k).len() == 2,
        be16(bytes16(k)) == k,
{
    let b = bytes32(n);
    assert(b[0] == n / 16777216 && b[1] == n / 65536 % 256 && b[2] == n / 256 % 256 && b[3] == n
        % 256);
    assert(n == n / 16777216 * 16777216 + n / 65536 % 256 * 65536 + n / 256 % 256 * 256 + n % 256);
}

/// Whether a header can be encoded: its name takes at most 255 bytes and its
/// value at most 65535.
pub open spec fn fits(h: HeaderView) -> bool {
    encode_utf8(h.0).len() <= 255 && encode_utf8(h.1).len() <= 65535
}

proof fn lemma_header_round_trip(h: HeaderView, more: Seq<u8>)
    requires
        fits(h),
    ensures
        first_header(encoded_header(h) + more) == Some(
            (Some(h), encoded_header(h).len() as int),
        ),
        encoded_header(h).len() > 0,
{
    reveal(first_header);
    let name = encode_utf8(h.0);
    let value = encode_utf8(h.1);
    let k = value.len() as u16;
    lemma_numbers(0, k);
    encode_utf8_valid_utf8(h.0);
    encode_utf8_valid_utf8(h.1);
    encode_utf8_decode_utf8(h.0);
    encode_utf8_decode_utf8(h.1);
    let e = encoded_header(h);
    let b = e + more;
    let n = name.len() as int;
    assert(e.len() == 1 + n + 1 + 2 + value.len());
    assert(b[0] == name.len() as u8);
    assert(b.subrange(1, 1 + n) =~= name);
    assert(b[1 + n] == 7);
    let rest = b.skip(2 + n);
    assert(rest.take(2) =~= bytes16(k));
    assert(rest.subrange(2, (2 + value.len()) as int) =~= value);
}

proof fn lemma_headers_cons(hs: Seq<HeaderView>)
    requires
        hs.len() > 0,
    ensures
        encoded_headers(hs) == encoded_header(hs[0]) + encoded_headers(hs.skip(1)),
    decreases hs.len(),
{
    if hs.len() == 1 {
        assert(hs.drop_last() =~= Seq::empty());
        assert(hs.skip(1) =~= Seq::empty());
        assert(encoded_headers(hs) =~= encoded_header(hs[0]) + encoded_headers(hs.skip(1)));
    } else {
        lemma_headers_cons(hs.drop_last());
        assert(hs.drop_last().skip(1) =~= hs.skip(1).drop_last());
        assert(encoded_headers(hs) =~= encoded_header(hs[0]) + encoded_headers(hs.skip(1)));
    }
}

proof fn lemma_headers_round_trip(hs: Seq<HeaderView>)
    requires
        forall|i: int| 0 <= i < hs.len() ==> fits(#[trigger] hs[i]),
    ensures
        headers_of(encoded_headers(hs)) == Some(hs),
    decreases hs.len(),
{
    if hs.len() == 0 {
        assert(hs =~= Seq::empty());
    } else {
        let tail = hs.skip(1);
        assert forall|i: int| 0 <= i < tail.len() implies fits(#[trigger] tail[i]) by {
            assert(fits(hs[i + 1]));
        }
        lemma_headers_round_trip(tail);
        lemma_headers_cons(hs);
        let e = encoded_header(hs[0]);
        lemma_header_round_trip(hs[0], encoded_headers(tail));
        assert((e + encoded_headers(tail)).skip(e.len() as int) =~= encoded_headers(tail));
        assert(seq![hs[0]] + tail =~= hs);
    }
}

/// The bytes of an encoded message, taken apart.
proof fn lemma_message_layout(hs: Seq<HeaderView>, payload: Seq<u8>)
    requires
        16 + encoded_headers(hs).len() + payload.len() <= u32::MAX,
    ensures
        ({
            let h = encoded_headers(hs);
            let total = 16 + h.len() + payload.len();
            let m = encoded_message(hs, payload);
            &&& m.len() == total
            &&& be32(m.take(4)) == total
            &&& be32(m.subrange(4, 8)) == h.len()
            &&& be32(m.subrange(8, 12)) == crc_of(m.take(8))
            &&& m.subrange(12, (12 + h.len()) as int) == h
            &&& m.subrange((12 + h.len()) as int, total - 4) == payload
            &&& be32(m.skip(total - 4)) == crc_of(m.take(total - 4))
        }),
{
    let h = encoded_headers(hs);
    let total = 16 + h.len() + payload.len();
    let size = total as u32;
    let prelude = bytes32(size) + bytes32(h.len() as u32);
    let u = unsigned_message(hs, payload);
    let m = encoded_message(hs, payload);
    lemma_numbers(size, 0);
    lemma_numbers(h.len() as u32, 0);
    lemma_numbers(crc_of(prelude), 0);
    lemma_numbers(crc_of(u), 0);
    assert(prelude.len() == 8);
    assert(u.len() == total - 4);
    assert(m.take(4) =~= bytes32(size));
    assert(m.take(8) =~= prelude);
    assert(m.subrange(4, 8) =~= bytes32(h.len() as u32));
    assert(m.subrange(8, 12) =~= bytes32(crc_of(prelude)));
    assert(m.take(total - 4) =~= u);
    assert(m.skip(total - 4) =~= bytes32(crc_of(u)));
    assert(m.subrange(12, (12 + h.len()) as int) =~= h);
    assert(m.subrange((12 + h.len()) as int, total - 4) =~= payload);
}

/// Decoding an encoded message gives back what its headers and its payload say:
/// an event is its payload; an exception is its payload and the first
/// `:exception-type`; an error is the first `:error-message` and `:error-code`;
/// and a message of no type or of another one is no frame. A payload that is no
/// text is refused.
pub proof fn messages_survive_encoding(hs: Seq<HeaderView>, payload: Seq<u8>)
    requires
        forall|i: int| 0 <= i < hs.len() ==> fits(#[trigger] hs[i]),
        16 + encoded_headers(hs).len() + payload.len() <= u32::MAX,
    ensures
        ({
            let decoded = message_frame(encoded_message(hs, payload));
            let kind = header_value(hs, ":message-type"@);
            let text = decode_utf8(payload);
            if !valid_utf8(payload) {
                decoded == Err::<Option<FrameView>, Seq<char>>(framing::INVALID_UTF8@)
            } else {
                &&& decoded == Ok::<Option<FrameView>, Seq<char>>(frame_of(hs, text))
                &&& kind == Some("event"@) ==> decoded == Ok::<Option<FrameView>, Seq<char>>(
                    Some(FrameView { data: text, exception: None }),
                )
                &&& kind == Some("exception"@) ==> decoded == Ok::<Option<FrameView>, Seq<char>>(
                    Some(
                        FrameView {
                            data: text,
                            exception: Some(
                                text_or(header_value(hs, ":exception-type"@), "exception"@),
                            ),
                        },
                    ),
                )
                &&& kind == Some("error"@) ==> decoded == Ok::<Option<FrameView>, Seq<char>>(
                    Some(
                        FrameView {
                            data: text_or(header_value(hs, ":error-message"@), Seq::empty()),
                            exception: Some(text_or(header_value(hs, ":error-code"@), "error"@)),
                        },
                    ),
                )
                &&& kind != Some("event"@) && kind != Some("exception"@) && kind != Some("error"@)
                    ==> decoded == Ok::<Option<FrameView>, Seq<char>>(None)
            }
        }),
{
    reveal(message_frame);
    lemma_message_layout(hs, payload);
    lemma_headers_round_trip(hs);
    reveal_strlit("event");
    reveal_strlit("exception");
    reveal_strlit("error");
    assert("event"@[1] != "error"@[1]);
}

/// Decoding a run of bytes gives back what was encoded: a message is taken off
/// the front of the bytes, and its frame is that of its headers and payload.
pub proof fn decoding_inverts_encoding(hs: Seq<HeaderView>, payload: Seq<u8>, more: Seq<u8>)
    requires
        forall|i: int| 0 <= i < hs.len() ==> fits(#[trigger] hs[i]),
        16 + encoded_headers(hs).len() + payload.len() <= MAX_MESSAGE_BYTES,
        valid_utf8(payload),
    ensures
        scan(encoded_message(hs, payload) + more) == (Scan {
            frames: optional(frame_of(hs, decode_utf8(payload))) + scan(more).frames,
            rest: scan(more).rest,
            corruption: scan(more).corruption,
        }),
{
    let total = 16 + encoded_headers(hs).len() + payload.len();
    let m = encoded_message(hs, payload);
    let b = m + more;
    lemma_message_layout(hs, payload);
    messages_survive_encoding(hs, payload);
    assert(b.take(4) =~= m.take(4));
    assert(b.take(8) =~= m.take(8));
    assert(b.subrange(8, 12) =~= m.subrange(8, 12));
    assert(b.take(total as int) =~= m);
    assert(b.skip(total as int) =~= more);
}

} // verus!
