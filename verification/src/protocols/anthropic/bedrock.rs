//! Anthropic models served by Amazon Bedrock's `InvokeModel` operations.
//!
//! Bedrock speaks the Messages API with a few differences: the model is in
//! the URL, `anthropic_version` replaces the version header, streaming uses
//! the AWS event stream encoding with each Anthropic event base64-encoded
//! inside a `chunk`, and errors use the AWS envelopes.
use vstd::prelude::*;
use vstd::utf8::*;

use super::stream::{AnthropicStreamDecoder, AnthropicView, Reply};
use crate::error::{new_error, Error, ErrorKind, ErrorView};
use crate::json::{field, json_parse, Json, JsonView};
use crate::protocols::bedrock::{
    bedrock_error_kind, class_of, envelope_message, exception_kind, exception_message,
};
use crate::protocols::ApiProfile;
use crate::stream::action::{does, ends_last, quiet, fails, Decoded, DecodedView, StreamAction};
use crate::stream::contract::Action;
use crate::text::{blank, cat, is_blank, trim, trimmed, utf8_text};
use crate::wire::UNEXPECTED_TYPE;

verus! {

broadcast use crate::model::group_views;

/// What the standard base64 engine decodes a text to.
pub uninterp spec fn standard_base64(text: Seq<char>) -> Option<Seq<u8>>;

/// `base64::engine::general_purpose::STANDARD.decode`: the bytes of a text in
/// the standard alphabet with its padding, or nothing where the text is not
/// valid. The result is a function of the text.
#[verifier::external_body]
fn decode_standard(text: &str) -> (r: Option<Vec<u8>>)
    ensures
        match r {
            Some(bytes) => standard_base64(text@) == Some(bytes@),
            None => standard_base64(text@) is None,
        },
{
    base64::Engine::decode(&base64::engine::general_purpose::STANDARD, text).ok()
}

/// The message for a stream exception.
pub open spec fn exception_text(kind: Seq<char>, payload: Seq<char>) -> Seq<char> {
    match envelope_message(encode_utf8(payload)) {
        Some(message) => message,
        None => if is_blank(payload) {
            "bedrock stream failed with "@ + kind
        } else {
            trimmed(payload)
        },
    }
}

/// The message for a stream exception. The payload is a JSON envelope for
/// `:message-type: exception` but bare `:error-message` text for
/// `:message-type: error`, so both shapes have to be handled.
pub fn stream_exception_message(kind: &str, payload: &str) -> (r: String)
    ensures
        r@ == exception_text(kind@, payload@),
{
    match exception_message(payload.as_bytes()) {
        Some(message) => message,
        None => if blank(payload) {
            cat("bedrock stream failed with ", kind)
        } else {
            trim(payload)
        },
    }
}

/// Unwraps Bedrock's stream envelope around the Anthropic events.
pub struct BedrockStreamDecoder {
    inner: AnthropicStreamDecoder,
}

impl View for BedrockStreamDecoder {
    type V = AnthropicView;

    closed spec fn view(&self) -> AnthropicView {
        self.inner@
    }
}

/// A malformed chunk.
pub open spec fn bad_chunk(what: Seq<char>) -> DecodedView {
    fails(new_error(ErrorKind::MalformedResponse, what))
}

/// What a decoded chunk does.
pub open spec fn event_bytes(d: AnthropicView, bytes: Option<Seq<u8>>) -> Reply {
    match bytes {
        Some(bytes) => if valid_utf8(bytes) {
            d.frame(decode_utf8(bytes))
        } else {
            Reply {
                state: d,
                decoded: bad_chunk("bedrock: stream chunk is not valid UTF-8"@),
            }
        },
        None => Reply {
            state: d,
            decoded: bad_chunk("bedrock: stream chunk is not valid base64"@),
        },
    }
}

/// What a chunk does.
pub open spec fn chunk(d: AnthropicView, data: Seq<char>) -> Reply {
    match json_parse(data) {
        Ok(v) => match field(v, "bytes"@) {
            Some(JsonView::String(text)) => event_bytes(d, standard_base64(text)),
            _ => Reply {
                state: d,
                decoded: bad_chunk("bedrock: invalid stream chunk: "@ + UNEXPECTED_TYPE@),
            },
        },
        Err(e) => Reply {
            state: d,
            decoded: bad_chunk("bedrock: invalid stream chunk: "@ + e),
        },
    }
}

/// The error that a stream exception reports.
pub open spec fn exception_error(kind: Seq<char>, payload: Seq<char>) -> ErrorView {
    new_error(
        exception_kind(class_of(Some(kind)), 200),
        exception_text(kind, payload),
    ).with_origin("bedrock-anthropic"@).with_code(kind)
}

impl BedrockStreamDecoder {
    pub fn new() -> (r: BedrockStreamDecoder)
        ensures
            r@ == (AnthropicView {
                profile: ApiProfile::BedrockAnthropic,
                blocks: Seq::empty(),
                finish: None,
                done: false,
            }),
    {
        BedrockStreamDecoder { inner: AnthropicStreamDecoder::new(ApiProfile::BedrockAnthropic) }
    }

    /// Decodes the event in the bytes of a chunk.
    pub fn on_bytes(&mut self, bytes: Option<Vec<u8>>) -> (r: Decoded)
        ensures
            (Reply { state: final(self)@, decoded: r@ }) == event_bytes(
                old(self)@,
                match bytes {
                    Some(bytes) => Some(bytes@),
                    None => None,
                },
            ),
    {
        match bytes {
            Some(bytes) => match utf8_text(bytes.as_slice()) {
                Some(event) => self.inner.on_frame(event.as_str()),
                None => Decoded::failed(
                    Error::malformed("bedrock: stream chunk is not valid UTF-8"),
                ),
            },
            None => Decoded::failed(Error::malformed("bedrock: stream chunk is not valid base64")),
        }
    }

    /// Decodes one frame of the stream.
    pub fn on_frame(&mut self, data: &str) -> (r: Decoded)
        ensures
            (Reply { state: final(self)@, decoded: r@ }) == chunk(old(self)@, data@),
    {
        match Json::parse(data) {
            Ok(v) => match v.get("bytes") {
                Some(Json::String(text)) => self.on_bytes(decode_standard(text.as_str())),
                _ => Decoded::failed(
                    Error::malformed(
                        cat("bedrock: invalid stream chunk: ", UNEXPECTED_TYPE).as_str(),
                    ),
                ),
            },
            Err(e) => Decoded::failed(
                Error::malformed(cat("bedrock: invalid stream chunk: ", e.as_str()).as_str()),
            ),
        }
    }

    /// A stream exception ends the stream.
    pub fn on_exception(&mut self, kind: &str, payload: &str) -> (r: Decoded)
        ensures
            final(self)@ == old(self)@,
            r@ == does(seq![Action::Fail(exception_error(kind@, payload@))]),
    {
        let error: Error = Error::new(
            bedrock_error_kind(Some(kind), 200),
            stream_exception_message(kind, payload).as_str(),
        ).with_origin(ApiProfile::BedrockAnthropic.as_str()).with_code(kind);
        Decoded::one(StreamAction::Fail(error))
    }

    /// The end of the provider's stream.
    pub fn on_eof(&mut self) -> (r: Decoded)
        ensures
            (Reply { state: final(self)@, decoded: r@ }) == old(self)@.eof(),
    {
        self.inner.on_eof()
    }
}

/// Nothing follows the end of the stream in what a chunk or the end of the body
/// does.
pub proof fn frames_end_at_most_once(d: AnthropicView, data: Seq<char>)
    ensures
        ends_last(chunk(d, data).decoded.actions),
        ends_last(d.eof().decoded.actions),
        chunk(d, data).decoded.error is Some ==> quiet(chunk(d, data).decoded.actions),
        d.eof().decoded.error is Some ==> quiet(d.eof().decoded.actions),
{
    crate::protocols::anthropic::stream::frames_end_at_most_once(d, data);
    if let Ok(v) = json_parse(data) {
        if let Some(JsonView::String(text)) = field(v, "bytes"@) {
            if let Some(bytes) = standard_base64(text) {
                crate::protocols::anthropic::stream::frames_end_at_most_once(
                    d,
                    decode_utf8(bytes),
                );
            }
        }
    }
}

} // verus!
