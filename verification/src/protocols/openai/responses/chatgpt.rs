//! ChatGPT subscription backend (`POST {base}/responses`).
//!
//! This is the Responses dialect served at
//! `https://chatgpt.com/backend-api/codex`, authenticated with a ChatGPT OAuth
//! token. Unlike the public Responses API, system messages use top-level
//! `instructions`, sampling parameters and output caps are rejected, and every
//! request streams. Blocking generation decodes the buffered transcript.
use vstd::prelude::*;

use super::request::{lower_body, lowered_body};
use super::stream::{fresh_decoder, ResponsesStreamDecoder, ResponsesView};
use super::types::{
    decode_response_object, decoded_response, error_event_ok, event_error, into_error,
    may_be_error_event, may_be_response, response_ok,
};
use super::ResponsesDialect;
use crate::error::{new_error, Error, ErrorKind, ErrorView};
use crate::json::{field, json_parse, Json, JsonView};
use crate::model::{opt, views};
use crate::protocols::lower::{pair, LoweredRequest, LoweredView};
use crate::protocols::validate::bad_option;
use crate::protocols::ApiProfile;
use crate::request::{Request, RequestView};
use crate::response::{GenerateResult, GenerateResultView};
use crate::stream::accumulator::{collect_result, nothing_accumulated};
use crate::stream::action::{settle, settled};
use crate::stream::event::{StreamEvent, StreamEventView};
use crate::stream::normalizer::{NormalizerView, StreamNormalizer};
use crate::text::{cat, is_blank, same, text_is, trim, trimmed};
use crate::transport::framing::{StreamFrame, StreamFrameView};
use crate::transport::sse::{fresh_parser, SseFault, SseParser};
use crate::usage::no_usage;
use crate::util::merge;
use crate::wire;
use crate::wire::{items_at, text_at, UNEXPECTED_TYPE};

verus! {

broadcast use {crate::model::group_views, crate::json::array_view};

/// The instructions of a request that has none.
pub const DEFAULT_INSTRUCTIONS: &'static str = "You are ChatGPT, a helpful AI assistant.";

/// Identifies the calling application.
pub const ORIGINATOR: &'static str = "caido-ai";

/// The user agent of every request.
pub const USER_AGENT: &'static str = "caido-ai/0.1.0";

// ---------------------------------------------------------------------------
// Requests
// ---------------------------------------------------------------------------

/// A body with instructions: the backend requires them, and the default only
/// fills a gap.
pub open spec fn instructed(body: JsonView) -> JsonView {
    match body {
        JsonView::Object(m) => match text_at(body, "instructions"@) {
            Some(text) => if is_blank(text) {
                JsonView::Object(
                    m.insert("instructions"@, JsonView::String(DEFAULT_INSTRUCTIONS@)),
                )
            } else {
                body
            },
            None => JsonView::Object(
                m.insert("instructions"@, JsonView::String(DEFAULT_INSTRUCTIONS@)),
            ),
        },
        other => other,
    }
}

/// A request in the format of the ChatGPT backend.
pub open spec fn lowered(
    r: RequestView,
    model: Seq<char>,
    profile: ApiProfile,
    streaming: bool,
    session_id: Seq<char>,
) -> Result<LoweredView, ErrorView> {
    match lowered_body(r, model, profile, streaming, true) {
        Ok((body, warnings)) => Ok(
            LoweredView {
                path: "responses"@,
                query: Seq::empty(),
                headers: seq![
                    ("accept"@, "text/event-stream"@),
                    ("originator"@, ORIGINATOR@),
                    ("user-agent"@, USER_AGENT@),
                    ("session_id"@, session_id),
                ],
                body: instructed(body),
                warnings,
            },
        ),
        Err(e) => Err(e),
    }
}

fn add_instructions(body: Json) -> (r: Json)
    ensures
        r@ == instructed(body@),
{
    let missing: bool = match wire::text(&body, "instructions") {
        Some(text) => crate::text::blank(text),
        None => true,
    };
    match body {
        Json::Object(object) => if missing {
            Json::Object(object.put("instructions", Json::text(DEFAULT_INSTRUCTIONS)))
        } else {
            Json::Object(object)
        },
        other => other,
    }
}

/// Lower a request for the ChatGPT backend, within a given session.
pub fn lower_chatgpt_with(
    request: &Request,
    model: &str,
    profile: ApiProfile,
    streaming: bool,
    session_id: &str,
) -> (r: Result<LoweredRequest, Error>)
    requires
        !bad_option(request@.provider_options, "openai"@),
    ensures
        match r {
            Ok(l) => lowered(request@, model@, profile, streaming, session_id@) == Ok::<
                LoweredView,
                ErrorView,
            >(l@),
            Err(e) => lowered(request@, model@, profile, streaming, session_id@) == Err::<
                LoweredView,
                ErrorView,
            >(e@),
        },
{
    let (body, warnings) = match lower_body(
        request,
        model,
        profile,
        streaming,
        ResponsesDialect::ChatGpt,
    ) {
        Ok(lowered) => lowered,
        Err(e) => return Err(e),
    };
    let mut headers: Vec<(String, String)> = Vec::new();
    headers.push(pair("accept", "text/event-stream"));
    headers.push(pair("originator", ORIGINATOR));
    headers.push(pair("user-agent", USER_AGENT));
    headers.push(pair("session_id", session_id));
    assert(views(headers@) =~= seq![
        ("accept"@, "text/event-stream"@),
        ("originator"@, ORIGINATOR@),
        ("user-agent"@, USER_AGENT@),
        ("session_id"@, session_id@),
    ]);
    Ok(
        LoweredRequest {
            path: "responses".to_owned(),
            query: Vec::new(),
            headers,
            body: add_instructions(body),
            warnings,
        },
    )
}

/// A request of the ChatGPT backend always has instructions.
pub proof fn instructions_are_never_missing(
    r: RequestView,
    model: Seq<char>,
    profile: ApiProfile,
    streaming: bool,
    session_id: Seq<char>,
)
    requires
        !bad_option(r.provider_options, "openai"@),
        lowered(r, model, profile, streaming, session_id) is Ok,
    ensures
        text_at(
            lowered(r, model, profile, streaming, session_id)->Ok_0.body,
            "instructions"@,
        ) matches Some(text) && !is_blank(text),
{
    lemma_default_is_text();
    let body = lowered_body(r, model, profile, streaming, true)->Ok_0.0;
    if r.provider_options.contains_key("openai"@) {
        reveal_with_fuel(merge, 2);
    }
    assert(body is Object);
}

proof fn lemma_default_is_text()
    ensures
        !is_blank(DEFAULT_INSTRUCTIONS@),
{
    reveal_strlit("You are ChatGPT, a helpful AI assistant.");
    assert(DEFAULT_INSTRUCTIONS@[0] == 'Y');
    assert(!crate::text::is_white(DEFAULT_INSTRUCTIONS@[0]));
}

// ---------------------------------------------------------------------------
// Transcripts
// ---------------------------------------------------------------------------

/// A failure of a transcript.
pub open spec fn malformed(message: Seq<char>) -> ErrorView {
    new_error(ErrorKind::MalformedResponse, message)
}

/// The frames of a buffered transcript.
pub open spec fn transcript(body: Seq<u8>) -> Result<Seq<StreamFrameView>, ErrorView> {
    let read = fresh_parser().bytes(body);
    let ended = read.state.end();
    match ended.state.fault {
        Some(SseFault::InvalidUtf8) => Err(
            malformed("chatgpt: response transcript contained invalid UTF-8"@),
        ),
        Some(SseFault::Oversized) => Err(
            malformed("chatgpt: response transcript exceeded the maximum SSE frame size"@),
        ),
        None => Ok(read.frames + ended.frames),
    }
}

/// Parse a buffered transcript. The parser bounds one line, not the total
/// body.
pub fn transcript_frames(body: &[u8]) -> (r: Result<Vec<StreamFrame>, Error>)
    ensures
        match r {
            Ok(frames) => transcript(body@) == Ok::<Seq<StreamFrameView>, ErrorView>(
                views(frames@),
            ),
            Err(e) => transcript(body@) == Err::<Seq<StreamFrameView>, ErrorView>(e@),
        },
{
    let mut parser: SseParser = SseParser::new();
    let mut frames: Vec<StreamFrame> = parser.push(body);
    let ghost read = fresh_parser().bytes(body@);
    let ghost ended = read.state.end();
    if let Some(frame) = parser.finish() {
        frames.push(frame);
    }
    assert(views(frames@) =~= read.frames + ended.frames);
    if parser.saw_invalid_utf8() {
        return Err(Error::malformed("chatgpt: response transcript contained invalid UTF-8"));
    }
    if parser.overflowed() {
        return Err(
            Error::malformed(
                "chatgpt: response transcript exceeded the maximum SSE frame size",
            ),
        );
    }
    Ok(frames)
}

/// What a transcript ends with: the last terminal response object, and the last
/// error event.
#[verifier::ext_equal]
pub struct Ending {
    pub terminal: Option<JsonView>,
    pub error: Option<ErrorView>,
}

/// The ending with one more event.
pub open spec fn with_event(e: Ending, v: JsonView) -> Result<Ending, ErrorView> {
    let kind = text_at(v, "type"@);
    if kind == Some("response.completed"@) || kind == Some("response.failed"@) || kind == Some(
        "response.incomplete"@,
    ) {
        match field(v, "response"@) {
            Some(r) => if response_ok(r) {
                Ok(Ending { terminal: Some(r), ..e })
            } else {
                Err(
                    malformed(
                        "chatgpt: invalid terminal response object: "@ + UNEXPECTED_TYPE@,
                    ),
                )
            },
            None => Err(malformed("chatgpt: terminal event carried no response object"@)),
        }
    } else if kind == Some("error"@) {
        if error_event_ok(v) {
            Ok(Ending { error: Some(event_error(v, ApiProfile::ChatGptResponses)), ..e })
        } else {
            Err(malformed("chatgpt: invalid stream error event: "@ + UNEXPECTED_TYPE@))
        }
    } else {
        Ok(e)
    }
}

/// The ending with one more frame.
pub open spec fn with_frame(e: Ending, frame: StreamFrameView) -> Result<Ending, ErrorView> {
    match frame {
        StreamFrameView::Data(data) => if trimmed(data).len() == 0 || trimmed(data)
            == "[DONE]"@ {
            Ok(e)
        } else {
            match json_parse(trimmed(data)) {
                Ok(v) => with_event(e, v),
                Err(_) => Ok(e),
            }
        },
        StreamFrameView::Exception { .. } => Ok(e),
    }
}

/// The ending of the first `n` frames.
pub open spec fn ending_upto(frames: Seq<StreamFrameView>, n: int) -> Result<Ending, ErrorView>
    decreases n,
{
    if n <= 0 {
        Ok(Ending { terminal: None, error: None })
    } else {
        match ending_upto(frames, n - 1) {
            Ok(e) => with_frame(e, frames[n - 1]),
            Err(error) => Err(error),
        }
    }
}

proof fn lemma_ending_failure(frames: Seq<StreamFrameView>, i: int)
    requires
        0 <= i <= frames.len(),
        ending_upto(frames, i) is Err,
    ensures
        ending_upto(frames, frames.len() as int) == ending_upto(frames, i),
    decreases frames.len() - i,
{
    if i < frames.len() {
        lemma_ending_failure(frames, i + 1);
    }
}

/// What a transcript ends with.
struct TranscriptEnd {
    terminal: Option<Json>,
    error: Option<Error>,
}

impl View for TranscriptEnd {
    type V = Ending;

    closed spec fn view(&self) -> Ending {
        Ending { terminal: opt(self.terminal), error: opt(self.error) }
    }
}

fn scan_event(e: TranscriptEnd, v: &Json) -> (r: Result<TranscriptEnd, Error>)
    ensures
        match r {
            Ok(next) => with_event(e@, v@) == Ok::<Ending, ErrorView>(next@),
            Err(error) => with_event(e@, v@) == Err::<Ending, ErrorView>(error@),
        },
{
    let kind: Option<&str> = wire::text(v, "type");
    let mut next: TranscriptEnd = e;
    if text_is(kind, "response.completed") || text_is(kind, "response.failed") || text_is(
        kind,
        "response.incomplete",
    ) {
        match v.get("response") {
            Some(response) => {
                if !may_be_response(response) {
                    return Err(
                        Error::malformed(
                            cat(
                                "chatgpt: invalid terminal response object: ",
                                UNEXPECTED_TYPE,
                            ).as_str(),
                        ),
                    );
                }
                next.terminal = Some(response.clone());
            },
            None => return Err(
                Error::malformed("chatgpt: terminal event carried no response object"),
            ),
        }
    } else if text_is(kind, "error") {
        if !may_be_error_event(v) {
            return Err(
                Error::malformed(
                    cat("chatgpt: invalid stream error event: ", UNEXPECTED_TYPE).as_str(),
                ),
            );
        }
        next.error = Some(into_error(v, ApiProfile::ChatGptResponses));
    }
    Ok(next)
}

fn scan_frame(e: TranscriptEnd, frame: &StreamFrame) -> (r: Result<TranscriptEnd, Error>)
    ensures
        match r {
            Ok(next) => with_frame(e@, frame@) == Ok::<Ending, ErrorView>(next@),
            Err(error) => with_frame(e@, frame@) == Err::<Ending, ErrorView>(error@),
        },
{
    match frame {
        StreamFrame::Data(data) => {
            let text: String = trim(data.as_str());
            if text.as_str().is_empty() || same(text.as_str(), "[DONE]") {
                return Ok(e);
            }
            match Json::parse(text.as_str()) {
                Ok(v) => scan_event(e, &v),
                Err(_) => Ok(e),
            }
        },
        StreamFrame::Exception { .. } => Ok(e),
    }
}

fn scan_terminal(frames: &Vec<StreamFrame>) -> (r: Result<TranscriptEnd, Error>)
    ensures
        match r {
            Ok(e) => ending_upto(views(frames@), frames@.len() as int) == Ok::<Ending, ErrorView>(
                e@,
            ),
            Err(error) => ending_upto(views(frames@), frames@.len() as int) == Err::<
                Ending,
                ErrorView,
            >(error@),
        },
{
    let ghost all = views(frames@);
    let mut e: TranscriptEnd = TranscriptEnd { terminal: None, error: None };
    let mut i: usize = 0;
    while i < frames.len()
        invariant
            i <= frames@.len(),
            all == views(frames@),
            all.len() == frames@.len(),
            ending_upto(all, i as int) == Ok::<Ending, ErrorView>(e@),
        decreases frames@.len() - i,
    {
        assert(all[i as int] == frames@[i as int]@);
        match scan_frame(e, &frames[i]) {
            Ok(next) => {
                e = next;
            },
            Err(error) => {
                proof {
                    lemma_ending_failure(all, i + 1);
                }
                return Err(error);
            },
        }
        i += 1;
    }
    Ok(e)
}

/// A transcript that is replayed so far: its decoder, and the stream with the
/// events in it.
#[verifier::ext_equal]
pub struct Replay {
    pub decoder: ResponsesView,
    pub normalizer: NormalizerView,
    pub events: Seq<StreamEventView>,
}

/// A stream at its start, without the context of a request.
pub open spec fn plain_stream() -> NormalizerView {
    NormalizerView {
        open: Seq::empty(),
        usage: no_usage(),
        finished: false,
        errored: false,
        error_context: None,
        include_raw: false,
    }
}

/// The first `n` frames of a transcript, replayed up to the end of the stream.
pub open spec fn replayed_upto(frames: Seq<StreamFrameView>, n: int) -> Replay
    decreases n,
{
    if n <= 0 {
        Replay {
            decoder: fresh_decoder(ApiProfile::ChatGptResponses),
            normalizer: plain_stream(),
            events: Seq::empty(),
        }
    } else {
        let before = replayed_upto(frames, n - 1);
        match frames[n - 1] {
            StreamFrameView::Data(data) => if before.normalizer.finished {
                before
            } else {
                let reply = before.decoder.frame(data);
                let step = settled(before.normalizer, reply.decoded);
                Replay {
                    decoder: reply.state,
                    normalizer: step.state,
                    events: before.events + step.events,
                }
            },
            StreamFrameView::Exception { .. } => before,
        }
    }
}

/// The failure of a stream that ends without a terminal event.
pub open spec fn truncation() -> ErrorView {
    new_error(
        ErrorKind::TruncatedStream,
        "stream ended before a terminal event was received"@,
    ).with_origin(ApiProfile::ChatGptResponses.text())
}

/// The events of a whole transcript.
pub open spec fn transcript_events(frames: Seq<StreamFrameView>) -> Seq<StreamEventView> {
    let r = replayed_upto(frames, frames.len() as int);
    r.events + r.normalizer.on_eof(truncation()).events
}

/// The result of a transcript that is replayed.
pub open spec fn reconstructed(frames: Seq<StreamFrameView>) -> Result<
    GenerateResultView,
    ErrorView,
> {
    nothing_accumulated().after(transcript_events(frames)).result()
}

/// The result of a transcript. An error event wins even when a successful
/// terminal event also appears, as it does in a live stream. The backend often
/// leaves the terminal output empty; the incremental events are replayed then,
/// so that text, reasoning and tool calls are not lost.
pub open spec fn decoded_transcript(
    frames: Seq<StreamFrameView>,
    model: Seq<char>,
    profile: ApiProfile,
) -> Result<GenerateResultView, ErrorView> {
    match ending_upto(frames, frames.len() as int) {
        Ok(e) => match e.error {
            Some(error) => Err(error),
            None => match e.terminal {
                Some(r) => if items_at(r, "output"@).len() > 0 {
                    decoded_response(r, model, profile)
                } else {
                    reconstructed(frames)
                },
                None => Err(
                    malformed(
                        "chatgpt: response transcript ended without a terminal response event"@,
                    ),
                ),
            },
        },
        Err(error) => Err(error),
    }
}

/// The result that a response body holds.
pub open spec fn decoded_body(body: Seq<u8>, model: Seq<char>, profile: ApiProfile) -> Result<
    GenerateResultView,
    ErrorView,
> {
    match transcript(body) {
        Ok(frames) => decoded_transcript(frames, model, profile),
        Err(e) => Err(e),
    }
}

/// Replay a transcript through the stream decoder.
fn replay_events(frames: &Vec<StreamFrame>) -> (r: Vec<StreamEvent>)
    ensures
        views(r@) == transcript_events(views(frames@)),
{
    let ghost all = views(frames@);
    let mut decoder: ResponsesStreamDecoder = ResponsesStreamDecoder::new(
        ApiProfile::ChatGptResponses,
    );
    let mut normalizer: StreamNormalizer = StreamNormalizer::new(false);
    let mut events: Vec<StreamEvent> = Vec::new();
    assert((Replay {
        decoder: decoder@,
        normalizer: normalizer@,
        events: views(events@),
    }) =~= replayed_upto(all, 0));
    let mut i: usize = 0;
    while i < frames.len()
        invariant
            i <= frames@.len(),
            all == views(frames@),
            (Replay { decoder: decoder@, normalizer: normalizer@, events: views(events@) })
                == replayed_upto(all, i as int),
        decreases frames@.len() - i,
    {
        assert(all[i as int] == frames@[i as int]@);
        if let StreamFrame::Data(data) = &frames[i] {
            if !normalizer.is_finished() {
                settle(&mut normalizer, &mut events, decoder.on_frame(data.as_str()));
            }
        }
        i += 1;
    }
    assert(all.len() == frames@.len());
    normalizer.on_eof(
        &mut events,
        Error::new(
            ErrorKind::TruncatedStream,
            "stream ended before a terminal event was received",
        ).with_origin(ApiProfile::ChatGptResponses.as_str()),
    );
    events
}

/// Build a blocking result by replaying the transcript through the stream decoder.
pub fn reconstruct_from_transcript(frames: &Vec<StreamFrame>) -> (r: Result<
    GenerateResult,
    Error,
>)
    ensures
        match r {
            Ok(result) => reconstructed(views(frames@)) == Ok::<GenerateResultView, ErrorView>(
                result@,
            ),
            Err(e) => reconstructed(views(frames@)) == Err::<GenerateResultView, ErrorView>(e@),
        },
{
    collect_result(replay_events(frames))
}

/// The result of a transcript.
pub fn decode_transcript(frames: &Vec<StreamFrame>, model: &str, profile: ApiProfile) -> (r:
    Result<GenerateResult, Error>)
    ensures
        match r {
            Ok(result) => decoded_transcript(views(frames@), model@, profile) == Ok::<
                GenerateResultView,
                ErrorView,
            >(result@),
            Err(e) => decoded_transcript(views(frames@), model@, profile) == Err::<
                GenerateResultView,
                ErrorView,
            >(e@),
        },
{
    assert(views(frames@).len() == frames@.len());
    let end: TranscriptEnd = match scan_terminal(frames) {
        Ok(end) => end,
        Err(e) => return Err(e),
    };
    if let Some(error) = end.error {
        return Err(error);
    }
    match &end.terminal {
        Some(response) => {
            let has_output: bool = match wire::list(response, "output") {
                Some(output) => {
                    assert(views(output@).len() == output@.len());
                    output.len() > 0
                },
                None => false,
            };
            if has_output {
                decode_response_object(response, model, profile)
            } else {
                reconstruct_from_transcript(frames)
            }
        },
        None => Err(
            Error::malformed(
                "chatgpt: response transcript ended without a terminal response event",
            ),
        ),
    }
}

/// Decode a buffered response body.
pub fn decode_chatgpt_response(body: &[u8], model: &str, profile: ApiProfile) -> (r: Result<
    GenerateResult,
    Error,
>)
    ensures
        match r {
            Ok(result) => decoded_body(body@, model@, profile) == Ok::<
                GenerateResultView,
                ErrorView,
            >(result@),
            Err(e) => decoded_body(body@, model@, profile) == Err::<
                GenerateResultView,
                ErrorView,
            >(e@),
        },
{
    match transcript_frames(body) {
        Ok(frames) => decode_transcript(&frames, model, profile),
        Err(e) => Err(e),
    }
}

} // verus!
