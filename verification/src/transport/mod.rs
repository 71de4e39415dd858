//! Splitting response bodies into frames.
use vstd::prelude::*;

use self::aws_event_stream::{aws_pushed, AwsEventStreamParser, AwsParserView};
use self::framing::{StreamFrame, StreamFrameView};
use self::sse::{sse_corruption, SseParser, SseView};
use crate::model::{opt, views};

pub mod aws_event_stream;
pub mod event_stream;
pub mod exchange;
pub mod framing;
pub mod mock;
pub mod sse;

verus! {

broadcast use crate::model::group_views;

/// Incremental framing of a streamed body.
///
/// Corruption (invalid UTF-8, a frame over the size limit, a failed checksum)
/// is not an item: the source stops producing frames, and its reader ends the
/// stream with an error after delivering the frames that preceded it.
pub enum FrameSource {
    /// Server-Sent Events.
    Sse(SseParser),
    /// The AWS event stream encoding.
    Aws(AwsEventStreamParser),
}

/// What a frame source has read of the frame that comes next.
#[verifier::ext_equal]
pub enum SourceView {
    Sse(SseView),
    Aws(AwsParserView),
}

impl View for FrameSource {
    type V = SourceView;

    open spec fn view(&self) -> SourceView {
        match *self {
            FrameSource::Sse(p) => SourceView::Sse(p@),
            FrameSource::Aws(p) => SourceView::Aws(p@),
        }
    }
}

impl SourceView {
    /// The source after some bytes.
    pub open spec fn pushed(self, bytes: Seq<u8>) -> SourceView {
        match self {
            SourceView::Sse(p) => SourceView::Sse(p.bytes(bytes).state),
            SourceView::Aws(p) => SourceView::Aws(aws_pushed(p, bytes).1),
        }
    }

    /// The frames that some bytes complete.
    pub open spec fn frames(self, bytes: Seq<u8>) -> Seq<StreamFrameView> {
        match self {
            SourceView::Sse(p) => p.bytes(bytes).frames,
            SourceView::Aws(p) => aws_pushed(p, bytes).0,
        }
    }

    /// The source after the end of the body.
    pub open spec fn ended(self) -> SourceView {
        match self {
            SourceView::Sse(p) => SourceView::Sse(p.end().state),
            SourceView::Aws(p) => SourceView::Aws(p),
        }
    }

    /// The frames that the end of the body completes, at most one. A partial
    /// message of the AWS encoding is a truncated stream, not a frame.
    pub open spec fn last_frames(self) -> Seq<StreamFrameView> {
        match self {
            SourceView::Sse(p) => p.end().frames,
            SourceView::Aws(p) => Seq::empty(),
        }
    }

    /// The reason framing stopped, once it has.
    pub open spec fn corruption(self) -> Option<Seq<char>> {
        match self {
            SourceView::Sse(p) => sse_corruption(p),
            SourceView::Aws(p) => p.corruption,
        }
    }
}

impl FrameSource {
    /// Whether there is room for so many bytes besides those that are pending.
    pub open spec fn fits(&self, n: nat) -> bool {
        match *self {
            FrameSource::Sse(_) => true,
            FrameSource::Aws(p) => p.fits(n),
        }
    }

    /// Whether there is room for so many bytes besides those that are pending.
    pub fn has_room(&self, n: usize) -> (r: bool)
        ensures
            r == self.fits(n as nat),
    {
        match self {
            FrameSource::Sse(_) => true,
            FrameSource::Aws(p) => p.has_room(n),
        }
    }

    /// Push bytes and return every frame they complete.
    pub fn push(&mut self, bytes: &[u8]) -> (r: Vec<StreamFrame>)
        requires
            old(self).fits(bytes@.len()),
        ensures
            views(r@) == old(self)@.frames(bytes@),
            final(self)@ == old(self)@.pushed(bytes@),
    {
        match self {
            FrameSource::Sse(p) => p.push(bytes),
            FrameSource::Aws(p) => p.push(bytes),
        }
    }

    /// Flush a final frame at end of stream, where the framing allows one.
    pub fn finish(&mut self) -> (r: Option<StreamFrame>)
        ensures
            final(self)@ == old(self)@.ended(),
            match r {
                Some(frame) => old(self)@.last_frames() == seq![frame@],
                None => old(self)@.last_frames() == Seq::<StreamFrameView>::empty(),
            },
    {
        match self {
            FrameSource::Sse(p) => p.finish(),
            FrameSource::Aws(p) => p.finish(),
        }
    }

    /// The reason framing stopped, once it has.
    pub fn corruption(&self) -> (r: Option<&'static str>)
        ensures
            opt(r) == self@.corruption(),
    {
        match self {
            FrameSource::Sse(p) => p.corruption(),
            FrameSource::Aws(p) => p.corruption(),
        }
    }
}

/// Where a body is cut into chunks makes no difference: two chunks give the
/// frames that they give as one, and leave the source in the same state.
pub proof fn chunking_makes_no_difference(s: SourceView, a: Seq<u8>, b: Seq<u8>)
    ensures
        s.frames(a + b) == s.frames(a) + s.pushed(a).frames(b),
        s.pushed(a + b) == s.pushed(a).pushed(b),
{
    match s {
        SourceView::Sse(p) => sse::sse_chunking_makes_no_difference(p, a, b),
        SourceView::Aws(p) => aws_event_stream::aws_chunking_makes_no_difference(p, a, b),
    }
}

/// Framing that has stopped yields no more frames, and stays stopped.
pub proof fn corruption_stops_frames(s: SourceView, bytes: Seq<u8>)
    requires
        s.corruption() is Some,
    ensures
        s.frames(bytes).len() == 0,
        s.pushed(bytes).corruption() == s.corruption(),
{
    match s {
        SourceView::Sse(p) => sse::sse_faults_are_final(p, bytes),
        SourceView::Aws(p) => {},
    }
}

} // verus!
