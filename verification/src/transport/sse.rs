//! Server-Sent Events framing.
//!
//! A body is a sequence of lines, each ended by a line feed, a carriage return
//! or both. The `data` lines up to a blank line make up one frame. Comments and
//! other fields carry nothing that a protocol decodes.
use vstd::prelude::*;
use vstd::utf8::*;

use super::framing::{StreamFrame, StreamFrameView, INVALID_UTF8};
use crate::model::{opt, views};
use crate::text::{cat3, part, same, utf8_text};

verus! {

broadcast use crate::model::group_views;

/// How long a line may be. A body that exceeds it is not framed any further.
pub const MAX_LINE_BYTES: usize = 16777216;

/// Why framing stopped where a line is too long.
pub const OVERSIZED_LINE: &'static str =
    "provider stream exceeded the maximum SSE frame size";

/// Why framing stopped.
#[derive(Debug, Clone, Copy, PartialEq, Eq, Structural)]
pub enum SseFault {
    InvalidUtf8,
    Oversized,
}

/// What a parser has read of the frame that comes next.
#[verifier::ext_equal]
pub struct SseView {
    /// The line so far.
    pub line: Seq<u8>,
    /// The data of the frame so far.
    pub data: Option<Seq<char>>,
    /// Whether the byte before was a carriage return.
    pub after_return: bool,
    pub fault: Option<SseFault>,
}

/// A parser at the start of a body.
pub open spec fn fresh_parser() -> SseView {
    SseView { line: Seq::empty(), data: None, after_return: false, fault: None }
}

/// The position of the first colon of a line.
pub open spec fn colon_at(line: Seq<char>) -> int
    decreases line.len(),
{
    if line.len() == 0 || line[0] == ':' {
        0
    } else {
        1 + colon_at(line.skip(1))
    }
}

/// The name of a line's field.
pub open spec fn field_name(line: Seq<char>) -> Seq<char> {
    line.take(colon_at(line))
}

/// The value of a line's field: what follows the colon, without one space.
pub open spec fn field_value(line: Seq<char>) -> Seq<char> {
    let from = colon_at(line) + 1;
    if from >= line.len() {
        Seq::empty()
    } else if line[from] == ' ' {
        line.skip(from + 1)
    } else {
        line.skip(from)
    }
}

/// The data of a frame with one more line.
pub open spec fn data_after(data: Option<Seq<char>>, line: Seq<char>) -> Option<Seq<char>> {
    if field_name(line) == "data"@ {
        Some(
            match data {
                Some(data) => data + "\n"@ + field_value(line),
                None => field_value(line),
            },
        )
    } else {
        data
    }
}

/// The frame that some data is: nothing where there is no text.
pub open spec fn frames_of(data: Option<Seq<char>>) -> Seq<StreamFrameView> {
    match data {
        Some(data) => if data.len() > 0 {
            seq![StreamFrameView::Data(data)]
        } else {
            Seq::empty()
        },
        None => Seq::empty(),
    }
}

/// A parser and the frames that some bytes complete.
#[verifier::ext_equal]
pub struct Scan {
    pub state: SseView,
    pub frames: Seq<StreamFrameView>,
}

impl SseView {
    /// The end of a line.
    pub open spec fn end_line(self) -> Scan {
        if !valid_utf8(self.line) {
            Scan {
                state: SseView { fault: Some(SseFault::InvalidUtf8), ..self },
                frames: Seq::empty(),
            }
        } else if self.line.len() == 0 {
            Scan { state: SseView { data: None, ..self }, frames: frames_of(self.data) }
        } else {
            Scan {
                state: SseView {
                    line: Seq::empty(),
                    data: data_after(self.data, decode_utf8(self.line)),
                    ..self
                },
                frames: Seq::empty(),
            }
        }
    }

    /// One more byte.
    pub open spec fn byte(self, b: u8) -> Scan {
        if self.fault is Some {
            Scan { state: self, frames: Seq::empty() }
        } else if b == 10 && self.after_return {
            Scan { state: SseView { after_return: false, ..self }, frames: Seq::empty() }
        } else if b == 10 || b == 13 {
            SseView { after_return: b == 13, ..self }.end_line()
        } else if self.line.len() >= MAX_LINE_BYTES {
            Scan {
                state: SseView { fault: Some(SseFault::Oversized), ..self },
                frames: Seq::empty(),
            }
        } else {
            Scan {
                state: SseView { line: self.line.push(b), after_return: false, ..self },
                frames: Seq::empty(),
            }
        }
    }

    /// Some more bytes.
    pub open spec fn bytes(self, bytes: Seq<u8>) -> Scan
        decreases bytes.len(),
    {
        if bytes.len() == 0 {
            Scan { state: self, frames: Seq::empty() }
        } else {
            let before = self.bytes(bytes.drop_last());
            let last = before.state.byte(bytes.last());
            Scan { state: last.state, frames: before.frames + last.frames }
        }
    }

    /// The end of the body: a last line and a last frame need no end of their
    /// own.
    pub open spec fn end(self) -> Scan {
        if self.fault is Some {
            Scan { state: self, frames: Seq::empty() }
        } else if self.line.len() == 0 {
            Scan { state: SseView { data: None, ..self }, frames: frames_of(self.data) }
        } else {
            let told = self.end_line();
            if told.state.fault is Some {
                told
            } else {
                Scan {
                    state: SseView { data: None, ..told.state },
                    frames: frames_of(told.state.data),
                }
            }
        }
    }
}

/// Where a body is cut into chunks makes no difference: two chunks give the
/// frames that they give as one, and leave the parser in the same state.
pub proof fn sse_chunking_makes_no_difference(p: SseView, a: Seq<u8>, b: Seq<u8>)
    ensures
        p.bytes(a + b).state == p.bytes(a).state.bytes(b).state,
        p.bytes(a + b).frames == p.bytes(a).frames + p.bytes(a).state.bytes(b).frames,
    decreases b.len(),
{
    if b.len() == 0 {
        assert(a + b =~= a);
        assert(p.bytes(a).frames + Seq::<StreamFrameView>::empty() =~= p.bytes(a).frames);
    } else {
        sse_chunking_makes_no_difference(p, a, b.drop_last());
        assert((a + b).drop_last() =~= a + b.drop_last());
        assert((a + b).last() == b.last());
        let mid = p.bytes(a).state.bytes(b.drop_last());
        let last = mid.state.byte(b.last());
        assert(p.bytes(a).frames + mid.frames + last.frames =~= p.bytes(a).frames + (mid.frames
            + last.frames));
    }
}

/// Once framing has stopped, no more frames come.
pub proof fn sse_faults_are_final(p: SseView, bytes: Seq<u8>)
    requires
        p.fault is Some,
    ensures
        p.bytes(bytes).state == p,
        p.bytes(bytes).frames == Seq::<StreamFrameView>::empty(),
        p.end() == (Scan { state: p, frames: Seq::empty() }),
    decreases bytes.len(),
{
    if bytes.len() > 0 {
        sse_faults_are_final(p, bytes.drop_last());
    }
}

/// Splits a body of Server-Sent Events into frames.
pub struct SseParser {
    line: Vec<u8>,
    data: Option<String>,
    after_return: bool,
    fault: Option<SseFault>,
}

impl View for SseParser {
    type V = SseView;

    closed spec fn view(&self) -> SseView {
        SseView {
            line: self.line@,
            data: opt(self.data),
            after_return: self.after_return,
            fault: self.fault,
        }
    }
}

fn find_colon(line: &str) -> (r: usize)
    ensures
        r == colon_at(line@),
        r <= line@.len(),
{
    let n: usize = line.unicode_len();
    let mut i: usize = 0;
    assert(line@.skip(0) =~= line@);
    while i < n
        invariant
            i <= n,
            n == line@.len(),
            colon_at(line@) == i + colon_at(line@.skip(i as int)),
        decreases n - i,
    {
        assert(line@.skip(i as int)[0] == line@[i as int]);
        assert(line@.skip(i as int).skip(1) =~= line@.skip(i + 1));
        if line.get_char(i) == ':' {
            return i;
        }
        i += 1;
    }
    i
}

fn add_line(data: Option<String>, line: &str) -> (r: Option<String>)
    ensures
        opt(r) == data_after(opt(data), line@),
{
    let n: usize = line.unicode_len();
    let colon: usize = find_colon(line);
    let name: String = part(line, 0, colon);
    assert(name@ =~= field_name(line@));
    if !same(name.as_str(), "data") {
        return data;
    }
    let value: String = if colon >= n || colon + 1 >= n {
        String::new()
    } else if line.get_char(colon + 1) == ' ' {
        part(line, colon + 2, n)
    } else {
        part(line, colon + 1, n)
    };
    assert(value@ =~= field_value(line@));
    match data {
        Some(data) => Some(cat3(data.as_str(), "\n", value.as_str())),
        None => Some(value),
    }
}

fn frame_from(data: Option<String>) -> (r: Option<StreamFrame>)
    ensures
        match r {
            Some(frame) => frames_of(opt(data)) == seq![frame@],
            None => frames_of(opt(data)) == Seq::<StreamFrameView>::empty(),
        },
{
    match data {
        Some(data) => if data.as_str().is_empty() {
            None
        } else {
            Some(StreamFrame::Data(data))
        },
        None => None,
    }
}

impl SseParser {
    /// A parser at the start of a body.
    pub fn new() -> (r: SseParser)
        ensures
            r@ == fresh_parser(),
    {
        let r: SseParser = SseParser {
            line: Vec::new(),
            data: None,
            after_return: false,
            fault: None,
        };
        assert(r@ =~= fresh_parser());
        r
    }

    fn take_frame(&mut self) -> (r: Option<StreamFrame>)
        ensures
            final(self)@ == (SseView { data: None, ..old(self)@ }),
            match r {
                Some(frame) => frames_of(old(self)@.data) == seq![frame@],
                None => frames_of(old(self)@.data) == Seq::<StreamFrameView>::empty(),
            },
    {
        let mut data: Option<String> = None;
        std::mem::swap(&mut data, &mut self.data);
        frame_from(data)
    }

    fn end_line(&mut self) -> (r: Option<StreamFrame>)
        ensures
            final(self)@ == old(self)@.end_line().state,
            match r {
                Some(frame) => old(self)@.end_line().frames == seq![frame@],
                None => old(self)@.end_line().frames == Seq::<StreamFrameView>::empty(),
            },
    {
        match utf8_text(self.line.as_slice()) {
            Some(text) => {
                if self.line.len() == 0 {
                    return self.take_frame();
                }
                self.line = Vec::new();
                let mut data: Option<String> = None;
                std::mem::swap(&mut data, &mut self.data);
                self.data = add_line(data, text.as_str());
                assert(self@ =~= old(self)@.end_line().state);
                None
            },
            None => {
                self.fault = Some(SseFault::InvalidUtf8);
                None
            },
        }
    }

    fn push_byte(&mut self, b: u8) -> (r: Option<StreamFrame>)
        ensures
            final(self)@ == old(self)@.byte(b).state,
            match r {
                Some(frame) => old(self)@.byte(b).frames == seq![frame@],
                None => old(self)@.byte(b).frames == Seq::<StreamFrameView>::empty(),
            },
    {
        if self.fault.is_some() {
            return None;
        }
        if b == 10 && self.after_return {
            self.after_return = false;
            return None;
        }
        if b == 10 || b == 13 {
            self.after_return = b == 13;
            return self.end_line();
        }
        if self.line.len() >= MAX_LINE_BYTES {
            self.fault = Some(SseFault::Oversized);
            return None;
        }
        self.line.push(b);
        self.after_return = false;
        None
    }

    /// Push bytes and return every frame they complete.
    pub fn push(&mut self, bytes: &[u8]) -> (r: Vec<StreamFrame>)
        ensures
            views(r@) == old(self)@.bytes(bytes@).frames,
            final(self)@ == old(self)@.bytes(bytes@).state,
    {
        let ghost start = self@;
        let mut frames: Vec<StreamFrame> = Vec::new();
        let mut i: usize = 0;
        assert(bytes@.take(0) =~= Seq::empty());
        while i < bytes.len()
            invariant
                i <= bytes@.len(),
                start == old(self)@,
                self@ == start.bytes(bytes@.take(i as int)).state,
                views(frames@) == start.bytes(bytes@.take(i as int)).frames,
            decreases bytes@.len() - i,
        {
            let ghost before = views(frames@);
            assert(bytes@.take(i + 1).drop_last() =~= bytes@.take(i as int));
            if let Some(frame) = self.push_byte(bytes[i]) {
                frames.push(frame);
                assert(views(frames@) =~= before + seq![frame@]);
            } else {
                assert(before + Seq::<StreamFrameView>::empty() =~= before);
            }
            i += 1;
        }
        assert(bytes@.take(i as int) =~= bytes@);
        frames
    }

    /// Flush a final frame at end of stream.
    pub fn finish(&mut self) -> (r: Option<StreamFrame>)
        ensures
            final(self)@ == old(self)@.end().state,
            match r {
                Some(frame) => old(self)@.end().frames == seq![frame@],
                None => old(self)@.end().frames == Seq::<StreamFrameView>::empty(),
            },
    {
        if self.fault.is_some() {
            return None;
        }
        if self.line.len() > 0 {
            let _ = self.end_line();
            if self.fault.is_some() {
                return None;
            }
        }
        self.take_frame()
    }

    /// The reason framing stopped, once it has.
    pub fn corruption(&self) -> (r: Option<&'static str>)
        ensures
            opt(r) == sse_corruption(self@),
    {
        match self.fault {
            Some(SseFault::InvalidUtf8) => Some(INVALID_UTF8),
            Some(SseFault::Oversized) => Some(OVERSIZED_LINE),
            None => None,
        }
    }

    /// Whether framing stopped at bytes that are no text.
    pub fn saw_invalid_utf8(&self) -> (r: bool)
        ensures
            r == (self@.fault == Some(SseFault::InvalidUtf8)),
    {
        self.fault == Some(SseFault::InvalidUtf8)
    }

    /// Whether framing stopped at a line that is too long.
    pub fn overflowed(&self) -> (r: bool)
        ensures
            r == (self@.fault == Some(SseFault::Oversized)),
    {
        self.fault == Some(SseFault::Oversized)
    }
}

/// The reason framing stopped, once it has.
pub open spec fn sse_corruption(p: SseView) -> Option<Seq<char>> {
    match p.fault {
        Some(SseFault::InvalidUtf8) => Some(INVALID_UTF8@),
        Some(SseFault::Oversized) => Some(OVERSIZED_LINE@),
        None => None,
    }
}

} // verus!
