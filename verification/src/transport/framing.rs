//! Splitting a streamed response body into the frames a protocol decodes.
//!
//! Providers stream either Server-Sent Events or, on AWS, the binary event
//! stream encoding. Both deliver a sequence of self-contained payloads, and a
//! frame source turns raw body chunks into those payloads so the protocol
//! decoders never see the framing.
use vstd::prelude::*;

verus! {

/// One frame from a streamed response.
#[derive(Debug, Clone, PartialEq, Eq)]
pub enum StreamFrame {
    /// A payload for the protocol decoder, normally one JSON document.
    Data(String),
    /// An error the framing layer itself carried (an AWS event stream
    /// exception, for example), named by `kind` with its error payload.
    Exception { kind: String, payload: String },
}

/// What a frame is.
#[verifier::ext_equal]
pub enum StreamFrameView {
    Data(Seq<char>),
    Exception { kind: Seq<char>, payload: Seq<char> },
}

impl View for StreamFrame {
    type V = StreamFrameView;

    open spec fn view(&self) -> StreamFrameView {
        match *self {
            StreamFrame::Data(data) => StreamFrameView::Data(data@),
            StreamFrame::Exception { kind, payload } => StreamFrameView::Exception {
                kind: kind@,
                payload: payload@,
            },
        }
    }
}

/// Why framing stopped where bytes that should be text are not.
pub const INVALID_UTF8: &'static str =
    "provider stream contained invalid UTF-8; output would be corrupted";

} // verus!
