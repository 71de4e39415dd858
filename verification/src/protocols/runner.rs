//! What becomes of responses: buffered results, and streams of events.
use vstd::prelude::*;

use crate::error::{new_error, Error, ErrorKind, ErrorView};
use crate::headers::{header_text, headers_view, text_of_header, HeadersView};
use crate::http_support::{
    enrich_error_from_headers, enriched, find_request_id, is_success, request_id_of,
};
use crate::json::json_parse_bytes;
use crate::model::{opt, views};
use crate::protocols::gemini::types::{are_body_ids, some_ids_for};
use crate::protocols::handler::{
    are_frame_ids, decode_error, decode_response, decode_response_with, decoded, error_of, fresh_decoder,
    failures_end_by_themselves, frames_end_at_most_once, fresh_source, new_frame_source,
    some_frame_ids, DecoderView, Reply, StreamDecoder,
};
use crate::protocols::prepare::{annotate, annotate_origin, annotated, placed};
use crate::protocols::ApiProfile;
use crate::response::{
    FinishReason, FinishView, GenerateResult, GenerateResultView, ResponseMetadata,
    ResponseMetadataView, Warning, WarningView,
};
use crate::stream::accumulator::nothing_accumulated;
use crate::stream::action::{all_actions, settle, settled, settling_is_running, Decoded};
use crate::stream::contract::{
    act, calls_in_order, error_count, finish_count, finishing_is_final, follow_all, is_fresh,
    lemma_concat, lemma_one_event, run, running_in_parts, terminal_contract, Action, Block,
};
use crate::stream::event::{StreamEvent, StreamEventView};
use crate::stream::normalizer::{ErrorContextView, NormalizerView, StreamNormalizer};
use crate::stream::replay::{is_lasting_result, lemma_after, replayed_results_come_back};
use crate::text::{
    before_first, cat3, cut_at, decimal, decimal_text, lower, same, to_lower, trim, trimmed,
};
use crate::transport::framing::{StreamFrame, StreamFrameView};
use crate::transport::{
    chunking_makes_no_difference, corruption_stops_frames, FrameSource, SourceView,
};
use crate::usage::no_usage;
use vstd::multiset::Multiset;

verus! {

broadcast use crate::model::group_views;

// ---------------------------------------------------------------------------
// Buffered responses
// ---------------------------------------------------------------------------

/// How many bytes of an error body are read: enough to decode the envelope.
pub const ERROR_BODY_LIMIT: usize = 262144;

/// How many bytes of a JSON body are read.
pub const JSON_BODY_LIMIT: usize = 16777216;

/// Whether rejected credentials are worth another attempt: 401 comes from
/// OAuth-style bearers, 403 from request signers, and only an authenticator can
/// do better than the same credentials again.
pub fn may_reauthenticate(status: u16, has_authenticator: bool) -> (r: bool)
    ensures
        r == (has_authenticator && (status == 401 || status == 403)),
{
    has_authenticator && (status == 401 || status == 403)
}

/// The result with what the exchange adds to it: the warnings about the
/// request, and the request id.
pub open spec fn completed(
    result: GenerateResultView,
    warnings: Seq<WarningView>,
    headers: HeadersView,
) -> GenerateResultView {
    GenerateResultView {
        warnings: warnings + result.warnings,
        response: ResponseMetadataView {
            request_id: if result.response.request_id is None {
                request_id_of(headers)
            } else {
                result.response.request_id
            },
            ..result.response
        },
        ..result
    }
}

/// What a buffered body of a successful response comes to: `ids` are for the
/// calls that come without one.
pub open spec fn buffered(
    profile: ApiProfile,
    model: Seq<char>,
    warnings: Seq<WarningView>,
    status: u16,
    headers: HeadersView,
    body: Seq<u8>,
    ids: Seq<Seq<char>>,
) -> Result<GenerateResultView, ErrorView> {
    match decoded(profile, model, body, ids) {
        Ok(result) => Ok(completed(result, warnings, headers)),
        Err(e) => Err(annotated(enriched(e, status, headers), profile, model)),
    }
}

/// What a buffered response comes to.
pub open spec fn generated(
    profile: ApiProfile,
    model: Seq<char>,
    warnings: Seq<WarningView>,
    status: u16,
    headers: HeadersView,
    body: Seq<u8>,
    ids: Seq<Seq<char>>,
) -> Result<GenerateResultView, ErrorView> {
    if is_success(status) {
        buffered(profile, model, warnings, status, headers, body, ids)
    } else {
        Err(annotated(error_of(profile, status, headers, body), profile, model))
    }
}

fn complete_result(
    decoding: Result<GenerateResult, Error>,
    profile: ApiProfile,
    model: &str,
    warnings: Vec<Warning>,
    status: u16,
    headers: &http::HeaderMap<http::HeaderValue>,
) -> (r: Result<GenerateResult, Error>)
    ensures
        match decoding {
            Ok(result) => r matches Ok(done) && done@ == completed(
                result@,
                views(warnings@),
                headers_view(*headers),
            ),
            Err(e) => r matches Err(f) && f@ == annotated(
                enriched(e@, status, headers_view(*headers)),
                profile,
                model@,
            ),
        },
{
    match decoding {
        Ok(result) => {
            let mut result: GenerateResult = result;
            let mut all: Vec<Warning> = warnings;
            all.append(&mut result.warnings);
            result.warnings = all;
            if result.response.request_id.is_none() {
                result.response.request_id = find_request_id(headers);
            }
            Ok(result)
        },
        Err(e) => Err(annotate(enrich_error_from_headers(e, status, headers), profile, model)),
    }
}

/// Decode a buffered body of a successful response, attaching request
/// diagnostics to decoder errors, with ids for the calls that come without one.
pub fn decode_buffered_with(
    profile: ApiProfile,
    model: &str,
    warnings: Vec<Warning>,
    status: u16,
    headers: &http::HeaderMap<http::HeaderValue>,
    body: &[u8],
    ids: &Vec<String>,
) -> (r: Result<GenerateResult, Error>)
    ensures
        match r {
            Ok(result) => buffered(
                profile,
                model@,
                views(warnings@),
                status,
                headers_view(*headers),
                body@,
                views(ids@),
            ) == Ok::<GenerateResultView, ErrorView>(result@),
            Err(e) => buffered(
                profile,
                model@,
                views(warnings@),
                status,
                headers_view(*headers),
                body@,
                views(ids@),
            ) == Err::<GenerateResultView, ErrorView>(e@),
        },
{
    let decoding: Result<GenerateResult, Error> = decode_response_with(profile, model, body, ids);
    complete_result(decoding, profile, model, warnings, status, headers)
}

/// Decode a buffered body of a successful response, attaching request
/// diagnostics to decoder errors.
pub fn decode_buffered_response(
    profile: ApiProfile,
    model: &str,
    warnings: Vec<Warning>,
    status: u16,
    headers: &http::HeaderMap<http::HeaderValue>,
    body: &[u8],
) -> (r: Result<GenerateResult, Error>)
    ensures
        exists|ids: Seq<Seq<char>>| #[trigger]
            are_body_ids(body@, ids) && match r {
                Ok(result) => buffered(
                    profile,
                    model@,
                    views(warnings@),
                    status,
                    headers_view(*headers),
                    body@,
                    ids,
                ) == Ok::<GenerateResultView, ErrorView>(result@),
                Err(e) => buffered(
                    profile,
                    model@,
                    views(warnings@),
                    status,
                    headers_view(*headers),
                    body@,
                    ids,
                ) == Err::<GenerateResultView, ErrorView>(e@),
            },
{
    let decoding: Result<GenerateResult, Error> = decode_response(profile, model, body);
    let ghost ids = choose|ids: Seq<Seq<char>>| #[trigger]
        are_body_ids(body@, ids) && match decoding {
            Ok(result) => decoded(profile, model@, body@, ids) == Ok::<
                GenerateResultView,
                ErrorView,
            >(result@),
            Err(e) => decoded(profile, model@, body@, ids) == Err::<GenerateResultView, ErrorView>(
                e@,
            ),
        };
    assert(are_body_ids(body@, ids));
    complete_result(decoding, profile, model, warnings, status, headers)
}

/// What a buffered response comes to: a result, or the error that it reports.
pub fn finish_generate(
    profile: ApiProfile,
    model: &str,
    warnings: Vec<Warning>,
    status: u16,
    headers: &http::HeaderMap<http::HeaderValue>,
    body: &[u8],
) -> (r: Result<GenerateResult, Error>)
    ensures
        exists|ids: Seq<Seq<char>>| #[trigger]
            are_body_ids(body@, ids) && match r {
                Ok(result) => generated(
                    profile,
                    model@,
                    views(warnings@),
                    status,
                    headers_view(*headers),
                    body@,
                    ids,
                ) == Ok::<GenerateResultView, ErrorView>(result@),
                Err(e) => generated(
                    profile,
                    model@,
                    views(warnings@),
                    status,
                    headers_view(*headers),
                    body@,
                    ids,
                ) == Err::<GenerateResultView, ErrorView>(e@),
            },
{
    if status < 200 || status >= 300 {
        let ghost unused = some_ids_for(json_parse_bytes(body@));
        assert(are_body_ids(body@, unused));
        return Err(annotate(decode_error(profile, status, headers, body), profile, model));
    }
    decode_buffered_response(profile, model, warnings, status, headers, body)
}

/// What the answer to a credential check comes to.
pub fn finish_verify(
    profile: ApiProfile,
    status: u16,
    headers: &http::HeaderMap<http::HeaderValue>,
    body: &[u8],
) -> (r: Result<(), Error>)
    ensures
        match r {
            Ok(_) => is_success(status),
            Err(e) => !is_success(status) && e@ == placed(
                error_of(profile, status, headers_view(*headers), body@),
                profile,
            ),
        },
{
    if 200 <= status && status < 300 {
        Ok(())
    } else {
        Err(annotate_origin(decode_error(profile, status, headers, body), profile))
    }
}

// ---------------------------------------------------------------------------
// Bodies
// ---------------------------------------------------------------------------

/// What is read of a body so far.
pub struct BodyBuffer {
    bytes: Vec<u8>,
    limit: usize,
}

impl BodyBuffer {
    /// What is read so far.
    pub closed spec fn read(&self) -> Seq<u8> {
        self.bytes@
    }

    /// How many bytes may be read.
    pub closed spec fn most(&self) -> nat {
        self.limit as nat
    }

    #[verifier::type_invariant]
    spec fn within_limit(&self) -> bool {
        self.bytes@.len() <= self.limit
    }

    /// Nothing read yet.
    pub fn new(limit: usize) -> (r: BodyBuffer)
        ensures
            r.read() == Seq::<u8>::empty(),
            r.most() == limit,
    {
        let r: BodyBuffer = BodyBuffer { bytes: Vec::new(), limit };
        assert(r.read() =~= Seq::empty());
        r
    }

    /// Adds a chunk of a body that is needed whole: one that exceeds the limit
    /// is refused, and nothing more needs to be read.
    pub fn push(&mut self, chunk: &[u8]) -> (r: Result<(), Error>)
        ensures
            final(self).most() == old(self).most(),
            match r {
                Ok(_) => old(self).read().len() + chunk@.len() <= old(self).most() && final(self).read() == old(self).read() + chunk@,
                Err(e) => old(self).read().len() + chunk@.len() > old(self).most() && final(self).read() == old(self).read() && e@ == oversized(old(self).most()),
            },
    {
        proof {
            use_type_invariant(&*self);
        }
        if chunk.len() > self.limit - self.bytes.len() {
            let message: String = cat3(
                "buffered response body exceeded the configured ",
                decimal_text(self.limit as u64).as_str(),
                " byte limit",
            );
            return Err(Error::malformed(message.as_str()));
        }
        let mut bytes: Vec<u8> = Vec::new();
        std::mem::swap(&mut bytes, &mut self.bytes);
        let ghost before = bytes@;
        bytes.extend_from_slice(chunk);
        assert(bytes@ =~= before + chunk@);
        self.bytes = bytes;
        Ok(())
    }

    /// Adds a chunk of a body of which a part is enough, as far as the limit
    /// allows. Returns whether more needs to be read.
    pub fn push_part(&mut self, chunk: &[u8]) -> (r: bool)
        ensures
            final(self).most() == old(self).most(),
            r == (old(self).read().len() < old(self).most()),
            final(self).read() == if old(self).read().len() + chunk@.len() <= old(self).most() {
                old(self).read() + chunk@
            } else {
                (old(self).read() + chunk@).take(old(self).most() as int)
            },
    {
        proof {
            use_type_invariant(&*self);
        }
        let remaining: usize = self.limit - self.bytes.len();
        let ghost before = self.bytes@;
        if remaining == 0 {
            assert((before + chunk@).take(before.len() as int) =~= before);
            assert(chunk@.len() == 0 ==> before + chunk@ =~= before);
            return false;
        }
        let mut bytes: Vec<u8> = Vec::new();
        std::mem::swap(&mut bytes, &mut self.bytes);
        let n: usize = if chunk.len() < remaining {
            chunk.len()
        } else {
            remaining
        };
        bytes.extend_from_slice(vstd::slice::slice_subrange(chunk, 0, n));
        assert(bytes@ =~= before + chunk@.take(n as int));
        assert(before + chunk@.take(n as int) =~= (before + chunk@).take(before.len() + n));
        assert(n == chunk@.len() ==> before + chunk@.take(n as int) =~= before + chunk@);
        self.bytes = bytes;
        true
    }

    /// What was read.
    pub fn into_bytes(self) -> (r: Vec<u8>)
        ensures
            r@ == self.read(),
            r@.len() <= self.most(),
    {
        proof {
            use_type_invariant(&self);
        }
        self.bytes
    }
}

/// The failure of a body that is too long.
pub open spec fn oversized(limit: nat) -> ErrorView {
    new_error(
        ErrorKind::MalformedResponse,
        "buffered response body exceeded the configured "@ + decimal(limit) + " byte limit"@,
    )
}

/// Whether the response declares a JSON body rather than an event stream.
pub open spec fn declares_json(headers: HeadersView) -> bool {
    match header_text(headers, "content-type"@) {
        Some(value) => lower(trimmed(before_first(value, ';'))) == "application/json"@,
        None => false,
    }
}

/// Whether the response declares a JSON body rather than an event stream.
pub fn is_json_body(headers: &http::HeaderMap<http::HeaderValue>) -> (r: bool)
    ensures
        r == declares_json(headers_view(*headers)),
{
    proof {
        reveal_strlit("content-type");
        assert(lower("content-type"@) =~= "content-type"@);
    }
    match text_of_header(headers, "content-type") {
        Some(value) => {
            let mime: String = cut_at(value.as_str(), ';');
            same(to_lower(trim(mime.as_str()).as_str()).as_str(), "application/json")
        },
        None => false,
    }
}

/// How the body of a streaming response is read.
#[derive(Debug, Clone, Copy, PartialEq, Eq, Structural)]
pub enum StreamBody {
    /// As an error envelope.
    Failure,
    /// As one JSON body: servers that ignore a request to stream answer so.
    Json,
    /// As a sequence of frames.
    Frames,
}

/// How the body of a streaming response is read.
pub fn stream_body(status: u16, headers: &http::HeaderMap<http::HeaderValue>) -> (r: StreamBody)
    ensures
        r == if !is_success(status) {
            StreamBody::Failure
        } else if declares_json(headers_view(*headers)) {
            StreamBody::Json
        } else {
            StreamBody::Frames
        },
{
    if status < 200 || status >= 300 {
        StreamBody::Failure
    } else if is_json_body(headers) {
        StreamBody::Json
    } else {
        StreamBody::Frames
    }
}

/// The error of a streaming response whose body is an error envelope.
pub fn stream_failure(
    profile: ApiProfile,
    model: &str,
    status: u16,
    headers: &http::HeaderMap<http::HeaderValue>,
    body: &[u8],
) -> (r: Error)
    ensures
        r@ == annotated(
            error_of(profile, status, headers_view(*headers), body@),
            profile,
            model@,
        ),
{
    annotate(decode_error(profile, status, headers, body), profile, model)
}

/// The error of a JSON body that could not be read whole.
pub fn read_failure(
    profile: ApiProfile,
    model: &str,
    status: u16,
    headers: &http::HeaderMap<http::HeaderValue>,
    error: Error,
) -> (r: Error)
    ensures
        r@ == annotated(enriched(error@, status, headers_view(*headers)), profile, model@),
{
    annotate(enrich_error_from_headers(error, status, headers), profile, model)
}

// ---------------------------------------------------------------------------
// Streams
// ---------------------------------------------------------------------------

/// The events that a stream starts with.
pub open spec fn opening(
    warnings: Seq<WarningView>,
    request_id: Option<Seq<char>>,
) -> Seq<StreamEventView> {
    let start = seq![StreamEventView::StreamStart { warnings }];
    match request_id {
        Some(_) => start.push(
            StreamEventView::ResponseMetadata(
                ResponseMetadataView { id: None, model: None, request_id },
            ),
        ),
        None => start,
    }
}

/// A stream at its start, with the context of its errors.
pub open spec fn fresh_stream(
    include_raw: bool,
    profile: ApiProfile,
    model: Seq<char>,
    request_id: Option<Seq<char>>,
) -> NormalizerView {
    NormalizerView {
        open: Seq::empty(),
        usage: no_usage(),
        finished: false,
        errored: false,
        error_context: Some(
            ErrorContextView { origin: profile.text(), model, request_id },
        ),
        include_raw,
    }
}

/// The events that a stream starts with.
pub fn opening_events(warnings: Vec<Warning>, request_id: Option<String>) -> (r: Vec<StreamEvent>)
    ensures
        views(r@) == opening(views(warnings@), opt(request_id)),
{
    let ghost about = views(warnings@);
    let ghost id = opt(request_id);
    let mut events: Vec<StreamEvent> = Vec::new();
    events.push(StreamEvent::StreamStart { warnings });
    if request_id.is_some() {
        events.push(
            StreamEvent::ResponseMetadata(ResponseMetadata { id: None, model: None, request_id }),
        );
    }
    assert(views(events@) =~= opening(about, id));
    events
}

/// What a JSON body that answers a request to stream comes to: the result is
/// replayed as events, so that callers see the provider's content or error
/// instead of a truncated stream. The opening carries the warnings.
pub open spec fn replayed(
    profile: ApiProfile,
    model: Seq<char>,
    warnings: Seq<WarningView>,
    include_raw: bool,
    status: u16,
    headers: HeadersView,
    body: Seq<u8>,
    ids: Seq<Seq<char>>,
) -> Result<Seq<StreamEventView>, ErrorView> {
    match buffered(profile, model, Seq::empty(), status, headers, body, ids) {
        Ok(result) => Ok(
            opening(warnings, request_id_of(headers)) + fresh_stream(
                include_raw,
                profile,
                model,
                request_id_of(headers),
            ).replay(result).events,
        ),
        Err(e) => Err(e),
    }
}

/// The events of a JSON body that answers a request to stream.
pub fn replay_json(
    profile: ApiProfile,
    model: &str,
    warnings: Vec<Warning>,
    include_raw: bool,
    status: u16,
    headers: &http::HeaderMap<http::HeaderValue>,
    body: &[u8],
) -> (r: Result<Vec<StreamEvent>, Error>)
    ensures
        exists|ids: Seq<Seq<char>>| #[trigger]
            are_body_ids(body@, ids) && match r {
                Ok(events) => replayed(
                    profile,
                    model@,
                    views(warnings@),
                    include_raw,
                    status,
                    headers_view(*headers),
                    body@,
                    ids,
                ) == Ok::<Seq<StreamEventView>, ErrorView>(views(events@)),
                Err(e) => replayed(
                    profile,
                    model@,
                    views(warnings@),
                    include_raw,
                    status,
                    headers_view(*headers),
                    body@,
                    ids,
                ) == Err::<Seq<StreamEventView>, ErrorView>(e@),
            },
{
    let no_warnings: Vec<Warning> = Vec::new();
    assert(views(no_warnings@) =~= Seq::empty());
    let decoding: Result<GenerateResult, Error> = decode_buffered_response(
        profile,
        model,
        no_warnings,
        status,
        headers,
        body,
    );
    let ghost ids = choose|ids: Seq<Seq<char>>| #[trigger]
        are_body_ids(body@, ids) && match decoding {
            Ok(result) => buffered(
                profile,
                model@,
                Seq::empty(),
                status,
                headers_view(*headers),
                body@,
                ids,
            ) == Ok::<GenerateResultView, ErrorView>(result@),
            Err(e) => buffered(
                profile,
                model@,
                Seq::empty(),
                status,
                headers_view(*headers),
                body@,
                ids,
            ) == Err::<GenerateResultView, ErrorView>(e@),
        };
    assert(are_body_ids(body@, ids));
    match decoding {
        Ok(result) => {
            let mut events: Vec<StreamEvent> = opening_events(warnings, find_request_id(headers));
            let mut normalizer: StreamNormalizer = StreamNormalizer::new(
                include_raw,
            ).with_error_context(profile.as_str(), model, find_request_id(headers));
            normalizer.replay(&mut events, result);
            Ok(events)
        },
        Err(e) => Err(e),
    }
}

/// A stream that is being read: what was read of the next frame, what the
/// decoder knows, and what is open.
#[verifier::ext_equal]
pub struct RunnerView {
    pub source: SourceView,
    pub decoder: DecoderView,
    pub normalizer: NormalizerView,
    /// Whether nothing more comes.
    pub exhausted: bool,
}

/// A stream after some input, and the events in it.
#[verifier::ext_equal]
pub struct RunStep {
    pub state: RunnerView,
    pub events: Seq<StreamEventView>,
}

/// What comes next in the body of a stream. The ids are for calls that come
/// without one, by frame.
pub enum Input {
    Chunk { bytes: Seq<u8>, ids: Seq<Seq<Seq<char>>> },
    ReadError(ErrorView),
    End { ids: Seq<Seq<Seq<char>>> },
}

/// The ids for the calls of a frame.
pub open spec fn ids_at(ids: Seq<Seq<Seq<char>>>, i: int) -> Seq<Seq<char>> {
    if 0 <= i < ids.len() {
        ids[i]
    } else {
        Seq::empty()
    }
}

/// Whether texts are random ids for the calls in some frames, by frame.
pub open spec fn are_stream_ids(
    frames: Seq<StreamFrameView>,
    ids: Seq<Seq<Seq<char>>>,
) -> bool {
    &&& ids.len() == frames.len()
    &&& forall|i: int| 0 <= i < ids.len() ==> are_frame_ids(frames[i], #[trigger] ids[i])
}

/// There are ids for all frames.
pub proof fn some_stream_ids(frames: Seq<StreamFrameView>) -> (r: Seq<Seq<Seq<char>>>)
    ensures
        are_stream_ids(frames, r),
    decreases frames.len(),
{
    if frames.len() == 0 {
        Seq::empty()
    } else {
        let before = some_stream_ids(frames.drop_last());
        let last = some_frame_ids(frames.last());
        let all = before.push(last);
        assert forall|i: int| 0 <= i < all.len() implies are_frame_ids(
            frames[i],
            #[trigger] all[i],
        ) by {
            if i < before.len() {
                assert(all[i] == before[i]);
                assert(frames.drop_last()[i] == frames[i]);
            }
        }
        all
    }
}

/// The failure of a stream that ends without a terminal event.
pub open spec fn truncation() -> ErrorView {
    new_error(
        ErrorKind::TruncatedStream,
        "stream ended before a terminal event was received"@,
    )
}

/// The stream that a successful response opens.
pub open spec fn fresh_runner(
    profile: ApiProfile,
    model: Seq<char>,
    include_raw: bool,
    request_id: Option<Seq<char>>,
) -> RunnerView {
    RunnerView {
        source: fresh_source(profile),
        decoder: fresh_decoder(profile),
        normalizer: fresh_stream(include_raw, profile, model, request_id),
        exhausted: false,
    }
}

impl RunnerView {
    /// No event.
    pub open spec fn idle(self) -> RunStep {
        RunStep { state: self, events: Seq::empty() }
    }

    /// What a decoded frame does.
    pub open spec fn reply(self, reply: Reply) -> RunStep {
        let s = settled(self.normalizer, reply.decoded);
        RunStep {
            state: RunnerView { decoder: reply.state, normalizer: s.state, ..self },
            events: s.events,
        }
    }

    /// A frame, with ids for the calls that come without one.
    #[verifier::opaque]
    pub open spec fn given(self, frame: StreamFrameView, ids: Seq<Seq<char>>) -> RunStep {
        self.reply(self.decoder.frame(frame, ids))
    }

    /// The end of the frames: the decoder closes what it holds back.
    pub open spec fn closed(self) -> RunStep {
        if self.normalizer.finished {
            self.idle()
        } else {
            self.reply(self.decoder.eof())
        }
    }

    /// The first `n` of some frames, up to the end of the stream.
    pub open spec fn frames_upto(
        self,
        frames: Seq<StreamFrameView>,
        ids: Seq<Seq<Seq<char>>>,
        n: int,
    ) -> RunStep
        decreases n,
    {
        if n <= 0 {
            self.idle()
        } else {
            let before = self.frames_upto(frames, ids, n - 1);
            if before.state.normalizer.finished {
                before
            } else {
                let next = before.state.given(frames[n - 1], ids_at(ids, n - 1));
                RunStep { state: next.state, events: before.events + next.events }
            }
        }
    }

    /// The end of a stream by a failure.
    pub open spec fn failing(self, error: ErrorView) -> RunStep {
        let s = self.normalizer.fail(error);
        RunStep {
            state: RunnerView { normalizer: s.state, exhausted: true, ..self },
            events: s.events,
        }
    }

    /// The end of a stream whose framing stopped, where it has: the frames
    /// that preceded come first.
    pub open spec fn checked(self) -> RunStep {
        if self.normalizer.finished {
            RunStep { state: RunnerView { exhausted: true, ..self }, events: Seq::empty() }
        } else {
            match self.source.corruption() {
                Some(message) => self.failing(
                    new_error(ErrorKind::MalformedResponse, message),
                ),
                None => self.idle(),
            }
        }
    }

    /// A chunk of the body.
    pub open spec fn chunk(self, bytes: Seq<u8>, ids: Seq<Seq<Seq<char>>>) -> RunStep {
        if self.exhausted {
            self.idle()
        } else {
            let frames = self.source.frames(bytes);
            let told = RunnerView { source: self.source.pushed(bytes), ..self }.frames_upto(
                frames,
                ids,
                frames.len() as int,
            );
            let last = told.state.checked();
            RunStep { state: last.state, events: told.events + last.events }
        }
    }

    /// A failure to read the body. Output may already have been consumed, so a
    /// retry is the host's decision, like that of a truncated stream.
    pub open spec fn read_error(self, error: ErrorView) -> RunStep {
        if self.exhausted {
            self.idle()
        } else {
            self.failing(error.with_retryable(false))
        }
    }

    /// The end of the body where framing did not stop: a frame may still be
    /// pending, then the decoder ends, and a stream that has not finished by
    /// then is truncated.
    pub open spec fn ending(
        self,
        frames: Seq<StreamFrameView>,
        ids: Seq<Seq<Seq<char>>>,
    ) -> RunStep {
        let told = self.frames_upto(frames, ids, frames.len() as int);
        let ended = told.state.closed();
        let last = ended.state.normalizer.on_eof(truncation());
        RunStep {
            state: RunnerView { normalizer: last.state, exhausted: true, ..ended.state },
            events: told.events + ended.events + last.events,
        }
    }

    /// The end of the body.
    pub open spec fn end(self, ids: Seq<Seq<Seq<char>>>) -> RunStep {
        if self.exhausted {
            self.idle()
        } else {
            let flushed = RunnerView { source: self.source.ended(), ..self };
            match flushed.source.corruption() {
                Some(message) => flushed.failing(
                    new_error(ErrorKind::MalformedResponse, message),
                ),
                None => flushed.ending(self.source.last_frames(), ids),
            }
        }
    }

    /// What comes next.
    pub open spec fn input(self, input: Input) -> RunStep {
        match input {
            Input::Chunk { bytes, ids } => self.chunk(bytes, ids),
            Input::ReadError(error) => self.read_error(error),
            Input::End { ids } => self.end(ids),
        }
    }

    /// All that comes.
    pub open spec fn inputs(self, inputs: Seq<Input>) -> RunStep
        decreases inputs.len(),
    {
        if inputs.len() == 0 {
            self.idle()
        } else {
            let before = self.inputs(inputs.drop_last());
            let next = before.state.input(inputs.last());
            RunStep { state: next.state, events: before.events + next.events }
        }
    }
}

/// Reads the body of a stream.
pub struct StreamRunner {
    source: FrameSource,
    decoder: StreamDecoder,
    normalizer: StreamNormalizer,
    exhausted: bool,
}

impl View for StreamRunner {
    type V = RunnerView;

    closed spec fn view(&self) -> RunnerView {
        RunnerView {
            source: self.source@,
            decoder: self.decoder@,
            normalizer: self.normalizer@,
            exhausted: self.exhausted,
        }
    }
}

impl StreamRunner {
    /// A reader of the body of a successful response.
    pub fn new(
        profile: ApiProfile,
        model: &str,
        include_raw: bool,
        headers: &http::HeaderMap<http::HeaderValue>,
    ) -> (r: StreamRunner)
        ensures
            r@ == fresh_runner(
                profile,
                model@,
                include_raw,
                request_id_of(headers_view(*headers)),
            ),
            forall|n: nat| n <= isize::MAX / 8 ==> #[trigger] r.fits(n),
    {
        StreamRunner {
            source: new_frame_source(profile),
            decoder: StreamDecoder::new(profile),
            normalizer: StreamNormalizer::new(include_raw).with_error_context(
                profile.as_str(),
                model,
                find_request_id(headers),
            ),
            exhausted: false,
        }
    }

    /// Whether there is room for so many bytes besides those that are pending.
    pub closed spec fn fits(&self, n: nat) -> bool {
        self.source.fits(n)
    }

    /// Whether there is room for so many bytes besides those that are pending.
    pub fn has_room(&self, n: usize) -> (r: bool)
        ensures
            r == self.fits(n as nat),
    {
        self.source.has_room(n)
    }

    /// Whether nothing more comes.
    pub fn is_exhausted(&self) -> (r: bool)
        ensures
            r == self@.exhausted,
    {
        self.exhausted
    }

    fn dispatch(&mut self, frame: &StreamFrame, out: &mut Vec<StreamEvent>)
        ensures
            exists|ids: Seq<Seq<char>>| #[trigger]
                are_frame_ids(frame@, ids) && final(self)@ == old(self)@.given(frame@, ids).state
                    && views(final(out)@) == views(old(out)@) + old(self)@.given(frame@, ids).events,
    {
        let ghost was = self@;
        let decoded: Decoded = self.decoder.on_frame(frame);
        let ghost ids = choose|ids: Seq<Seq<char>>| #[trigger]
            are_frame_ids(frame@, ids) && (Reply { state: self.decoder@, decoded: decoded@ })
                == was.decoder.frame(frame@, ids);
        settle(&mut self.normalizer, out, decoded);
        reveal(RunnerView::given);
        assert(self@ =~= was.given(frame@, ids).state);
        assert(are_frame_ids(frame@, ids));
    }

    fn dispatch_all(&mut self, frames: &Vec<StreamFrame>, out: &mut Vec<StreamEvent>)
        ensures
            exists|ids: Seq<Seq<Seq<char>>>| #[trigger]
                are_stream_ids(views(frames@), ids) && final(self)@ == old(self)@.frames_upto(
                    views(frames@),
                    ids,
                    frames@.len() as int,
                ).state && views(final(out)@) == views(old(out)@) + old(self)@.frames_upto(
                    views(frames@),
                    ids,
                    frames@.len() as int,
                ).events,
    {
        let ghost start = self@;
        let ghost before = views(out@);
        let ghost all = views(frames@);
        let ghost mut ids: Seq<Seq<Seq<char>>> = Seq::empty();
        assert(before + Seq::<StreamEventView>::empty() =~= before);
        let mut i: usize = 0;
        while i < frames.len()
            invariant
                i <= frames@.len(),
                all == views(frames@),
                ids.len() == i,
                are_stream_ids(all.take(i as int), ids),
                self@ == start.frames_upto(all, ids, i as int).state,
                views(out@) == before + start.frames_upto(all, ids, i as int).events,
            decreases frames@.len() - i,
        {
            assert(all[i as int] == frames@[i as int]@);
            let ghost was = self@;
            let ghost so_far = views(out@);
            let ghost told = start.frames_upto(all, ids, i as int);
            let ghost mut more: Seq<Seq<char>> = some_frame_ids(all[i as int]);
            if !self.normalizer.is_finished() {
                self.dispatch(&frames[i], out);
                proof {
                    more = choose|names: Seq<Seq<char>>| #[trigger]
                        are_frame_ids(all[i as int], names) && self@ == was.given(all[i as int], names).state
                            && views(out@) == so_far + was.given(all[i as int], names).events;
                }
                let ghost next = was.given(all[i as int], more);
                assert(before + told.events + next.events =~= before + (told.events
                    + next.events));
            }
            proof {
                let longer = ids.push(more);
                lemma_frames_ids(start, all, ids, longer, i as int);
                assert(ids_at(longer, i as int) == more);
                assert forall|k: int| 0 <= k < longer.len() implies are_frame_ids(
                    all.take(i + 1)[k],
                    #[trigger] longer[k],
                ) by {
                    if k < i {
                        assert(longer[k] == ids[k]);
                        assert(all.take(i as int)[k] == all[k]);
                    }
                }
                ids = longer;
            }
            i += 1;
        }
        assert(all.take(all.len() as int) =~= all);
        assert(are_stream_ids(all, ids));
    }

    fn fail(&mut self, error: Error, out: &mut Vec<StreamEvent>)
        ensures
            final(self)@ == old(self)@.failing(error@).state,
            views(final(out)@) == views(old(out)@) + old(self)@.failing(error@).events,
    {
        self.normalizer.fail(out, error);
        self.exhausted = true;
    }

    fn check(&mut self, out: &mut Vec<StreamEvent>)
        ensures
            final(self)@ == old(self)@.checked().state,
            views(final(out)@) == views(old(out)@) + old(self)@.checked().events,
    {
        assert(views(out@) + Seq::<StreamEventView>::empty() =~= views(out@));
        if self.normalizer.is_finished() {
            self.exhausted = true;
            return;
        }
        if let Some(message) = self.source.corruption() {
            self.fail(Error::malformed(message), out);
        }
    }

    /// The events of a chunk of the body.
    pub fn on_chunk(&mut self, bytes: &[u8]) -> (r: Vec<StreamEvent>)
        requires
            old(self).fits(bytes@.len()),
        ensures
            exists|ids: Seq<Seq<Seq<char>>>| #[trigger]
                are_stream_ids(old(self)@.source.frames(bytes@), ids) && final(self)@ == old(self)@.chunk(bytes@, ids).state && views(r@)
                    == old(self)@.chunk(bytes@, ids).events,
    {
        let mut out: Vec<StreamEvent> = Vec::new();
        assert(views(out@) =~= Seq::empty());
        if self.exhausted {
            let ghost unused = some_stream_ids(self@.source.frames(bytes@));
            assert(are_stream_ids(self@.source.frames(bytes@), unused));
            return out;
        }
        let ghost start = self@;
        let frames: Vec<StreamFrame> = self.source.push(bytes);
        let ghost read = self@;
        assert(read =~= RunnerView { source: start.source.pushed(bytes@), ..start });
        assert(views(frames@).len() == frames@.len());
        self.dispatch_all(&frames, &mut out);
        let ghost ids = choose|ids: Seq<Seq<Seq<char>>>| #[trigger]
            are_stream_ids(views(frames@), ids) && self@ == read.frames_upto(
                views(frames@),
                ids,
                frames@.len() as int,
            ).state && views(out@) == Seq::<StreamEventView>::empty() + read.frames_upto(
                views(frames@),
                ids,
                frames@.len() as int,
            ).events;
        let ghost told = read.frames_upto(views(frames@), ids, frames@.len() as int);
        assert(views(out@) =~= told.events);
        self.check(&mut out);
        assert(are_stream_ids(start.source.frames(bytes@), ids));
        out
    }

    /// The events of a failure to read the body.
    pub fn on_read_error(&mut self, error: Error) -> (r: Vec<StreamEvent>)
        ensures
            final(self)@ == old(self)@.read_error(error@).state,
            views(r@) == old(self)@.read_error(error@).events,
    {
        let mut out: Vec<StreamEvent> = Vec::new();
        assert(views(out@) =~= Seq::empty());
        if !self.exhausted {
            self.fail(error.with_retryable(false), &mut out);
        }
        assert(views(out@) =~= old(self)@.read_error(error@).events);
        out
    }

    /// The events of the end of the body.
    pub fn on_end(&mut self) -> (r: Vec<StreamEvent>)
        ensures
            exists|ids: Seq<Seq<Seq<char>>>| #[trigger]
                are_stream_ids(old(self)@.source.last_frames(), ids) && final(self)@ == old(
                    self,
                )@.end(ids).state && views(r@) == old(self)@.end(ids).events,
    {
        let ghost unused = some_stream_ids(self@.source.last_frames());
        assert(are_stream_ids(self@.source.last_frames(), unused));
        let mut out: Vec<StreamEvent> = Vec::new();
        assert(views(out@) =~= Seq::empty());
        if self.exhausted {
            return out;
        }
        let ghost start = self@;
        // Flushing can discover corruption in a pending frame.
        let last: Option<StreamFrame> = self.source.finish();
        let ghost flushed = self@;
        assert(flushed =~= RunnerView { source: start.source.ended(), ..start });
        if let Some(message) = self.source.corruption() {
            self.fail(Error::malformed(message), &mut out);
            assert(views(out@) =~= flushed.failing(
                new_error(ErrorKind::MalformedResponse, message@),
            ).events);
            return out;
        }
        let mut frames: Vec<StreamFrame> = Vec::new();
        if let Some(frame) = last {
            frames.push(frame);
        }
        assert(views(frames@) =~= start.source.last_frames());
        assert(views(frames@).len() == frames@.len());
        self.dispatch_all(&frames, &mut out);
        let ghost ids = choose|ids: Seq<Seq<Seq<char>>>| #[trigger]
            are_stream_ids(views(frames@), ids) && self@ == flushed.frames_upto(
                views(frames@),
                ids,
                frames@.len() as int,
            ).state && views(out@) == Seq::<StreamEventView>::empty() + flushed.frames_upto(
                views(frames@),
                ids,
                frames@.len() as int,
            ).events;
        let ghost told = flushed.frames_upto(views(frames@), ids, frames@.len() as int);
        assert(views(out@) =~= told.events);
        if !self.normalizer.is_finished() {
            let decoded = self.decoder.on_eof();
            settle(&mut self.normalizer, &mut out, decoded);
        }
        let ghost ended = told.state.closed();
        assert(self@ =~= ended.state);
        assert(views(out@) =~= told.events + ended.events);
        self.normalizer.on_eof(
            &mut out,
            Error::new(
                ErrorKind::TruncatedStream,
                "stream ended before a terminal event was received",
            ),
        );
        self.exhausted = true;
        assert(self@ =~= flushed.ending(start.source.last_frames(), ids).state);
        assert(are_stream_ids(start.source.last_frames(), ids));
        out
    }
}

// ---------------------------------------------------------------------------
// The terminal contract
// ---------------------------------------------------------------------------

/// Whether the events are those of a whole stream: it starts with the opening;
/// blocks start, go on and end in order, and all that started have ended; there
/// is exactly one terminal event, and it comes last; where an error was
/// reported, exactly one, the terminal event says so; and every tool call has
/// JSON arguments and comes right after the end of its block.
pub open spec fn is_whole(events: Seq<StreamEventView>) -> bool {
    &&& events.len() > 0
    &&& events[0] is StreamStart
    &&& follow_all(Multiset::empty(), events, Multiset::<Block>::empty())
    &&& finish_count(events) == 1
    &&& events.last() is Finish
    &&& error_count(events) <= 1
    &&& error_count(events) == 1 ==> events.last()->finish.reason is Error
    &&& calls_in_order(events)
}

/// Whether the rest of the stream is that of some actions.
spec fn comes_of(n: NormalizerView, s: RunStep, actions: Seq<Action>) -> bool {
    s.state.normalizer == run(n, actions).state && s.events == run(n, actions).events
}

proof fn lemma_no_action(r: RunnerView)
    ensures
        comes_of(r.normalizer, r.idle(), Seq::empty()),
{
}

proof fn lemma_one_action(n: NormalizerView, action: Action)
    requires
        !n.finished,
    ensures
        run(n, seq![action]).state == act(n, action).state,
        run(n, seq![action]).events == act(n, action).events,
{
    assert(seq![action].drop_last() =~= Seq::empty());
    assert(run(n, seq![action].drop_last()) == n.idle());
    assert(Seq::<StreamEventView>::empty() + act(n, action).events =~= act(n, action).events);
}

proof fn lemma_then(
    n: NormalizerView,
    first: RunStep,
    a: Seq<Action>,
    second: RunStep,
    b: Seq<Action>,
)
    requires
        comes_of(n, first, a),
        comes_of(first.state.normalizer, second, b),
    ensures
        comes_of(
            n,
            (RunStep { state: second.state, events: first.events + second.events }),
            a + b,
        ),
{
    running_in_parts(n, a, b);
}

proof fn lemma_given_runs(r: RunnerView, frame: StreamFrameView, ids: Seq<Seq<char>>) -> (actions:
    Seq<Action>)
    requires
        !r.normalizer.finished,
    ensures
        comes_of(r.normalizer, r.given(frame, ids), actions),
        r.given(frame, ids).state.exhausted == r.exhausted,
{
    reveal(RunnerView::given);
    let d = r.decoder.frame(frame, ids).decoded;
    frames_end_at_most_once(r.decoder, frame, ids);
    failures_end_by_themselves(r.decoder, frame, ids);
    settling_is_running(r.normalizer, d);
    all_actions(d)
}

proof fn lemma_closed_runs(r: RunnerView) -> (actions: Seq<Action>)
    ensures
        comes_of(r.normalizer, r.closed(), actions),
{
    if r.normalizer.finished {
        lemma_no_action(r);
        Seq::empty()
    } else {
        let d = r.decoder.eof().decoded;
        frames_end_at_most_once(r.decoder, StreamFrameView::Data(Seq::empty()), Seq::empty());
        failures_end_by_themselves(r.decoder, StreamFrameView::Data(Seq::empty()), Seq::empty());
        settling_is_running(r.normalizer, d);
        all_actions(d)
    }
}

proof fn lemma_frames_run(
    r: RunnerView,
    frames: Seq<StreamFrameView>,
    ids: Seq<Seq<Seq<char>>>,
    n: int,
) -> (actions: Seq<Action>)
    requires
        !r.normalizer.finished,
    ensures
        comes_of(r.normalizer, r.frames_upto(frames, ids, n), actions),
        r.frames_upto(frames, ids, n).state.exhausted == r.exhausted,
    decreases n,
{
    if n <= 0 {
        lemma_no_action(r);
        Seq::empty()
    } else {
        let a = lemma_frames_run(r, frames, ids, n - 1);
        let before = r.frames_upto(frames, ids, n - 1);
        if before.state.normalizer.finished {
            a
        } else {
            let b = lemma_given_runs(before.state, frames[n - 1], ids_at(ids, n - 1));
            let next = before.state.given(frames[n - 1], ids_at(ids, n - 1));
            lemma_then(r.normalizer, before, a, next, b);
            a + b
        }
    }
}

proof fn lemma_fails(r: RunnerView, error: ErrorView) -> (actions: Seq<Action>)
    requires
        !r.normalizer.finished,
    ensures
        comes_of(r.normalizer, r.failing(error), actions),
        r.failing(error).state.exhausted,
        r.failing(error).state.normalizer.finished,
{
    lemma_one_action(r.normalizer, Action::Fail(error));
    assert(act(r.normalizer, Action::Fail(error)) == r.normalizer.fail(error)) by {
        reveal(act);
    }
    seq![Action::Fail(error)]
}

/// Whether a stream is exhausted just when its terminal event has come.
pub open spec fn in_step(r: RunnerView) -> bool {
    r.exhausted == r.normalizer.finished
}

proof fn lemma_chunk_runs(r: RunnerView, bytes: Seq<u8>, ids: Seq<Seq<Seq<char>>>) -> (actions: Seq<
    Action,
>)
    requires
        in_step(r),
        !r.exhausted,
    ensures
        comes_of(r.normalizer, r.chunk(bytes, ids), actions),
        in_step(r.chunk(bytes, ids).state),
{
    let frames = r.source.frames(bytes);
    let read = RunnerView { source: r.source.pushed(bytes), ..r };
    let a = lemma_frames_run(read, frames, ids, frames.len() as int);
    let told = read.frames_upto(frames, ids, frames.len() as int);
    let b = if told.state.normalizer.finished {
        Seq::empty()
    } else {
        match told.state.source.corruption() {
            Some(message) => lemma_fails(
                told.state,
                new_error(ErrorKind::MalformedResponse, message),
            ),
            None => Seq::empty(),
        }
    };
    lemma_no_action(told.state);
    lemma_then(r.normalizer, told, a, told.state.checked(), b);
    a + b
}

proof fn lemma_ending_runs(
    r: RunnerView,
    frames: Seq<StreamFrameView>,
    ids: Seq<Seq<Seq<char>>>,
) -> (actions: Seq<Action>)
    requires
        !r.normalizer.finished,
    ensures
        comes_of(r.normalizer, r.ending(frames, ids), actions),
        r.ending(frames, ids).state.exhausted,
        r.ending(frames, ids).state.normalizer.finished,
{
    let a = lemma_frames_run(r, frames, ids, frames.len() as int);
    let told = r.frames_upto(frames, ids, frames.len() as int);
    let b = lemma_closed_runs(told.state);
    let ended = told.state.closed();
    lemma_then(r.normalizer, told, a, ended, b);
    let both = RunStep { state: ended.state, events: told.events + ended.events };
    let c = if ended.state.normalizer.finished {
        Seq::empty()
    } else {
        seq![Action::Eof(truncation())]
    };
    let last = ended.state.normalizer.on_eof(truncation());
    let end = RunStep {
        state: RunnerView { normalizer: last.state, exhausted: true, ..ended.state },
        events: last.events,
    };
    if ended.state.normalizer.finished {
        lemma_no_action(ended.state);
    } else {
        lemma_one_action(ended.state.normalizer, Action::Eof(truncation()));
        assert(act(ended.state.normalizer, Action::Eof(truncation())) == last) by {
            reveal(act);
        }
    }
    lemma_then(r.normalizer, both, a + b, end, c);
    finishing_is_final(
        ended.state.normalizer,
        FinishView { reason: FinishReason::Stop, raw: None },
        truncation(),
    );
    a + b + c
}

proof fn lemma_input_runs(r: RunnerView, input: Input) -> (actions: Seq<Action>)
    requires
        in_step(r),
        !r.exhausted,
    ensures
        comes_of(r.normalizer, r.input(input), actions),
        in_step(r.input(input).state),
        !(input is Chunk) ==> r.input(input).state.exhausted,
{
    match input {
        Input::Chunk { bytes, ids } => lemma_chunk_runs(r, bytes, ids),
        Input::ReadError(error) => lemma_fails(r, error.with_retryable(false)),
        Input::End { ids } => {
            let flushed = RunnerView { source: r.source.ended(), ..r };
            match flushed.source.corruption() {
                Some(message) => lemma_fails(
                    flushed,
                    new_error(ErrorKind::MalformedResponse, message),
                ),
                None => lemma_ending_runs(flushed, r.source.last_frames(), ids),
            }
        },
    }
}

proof fn lemma_inputs_run(r: RunnerView, inputs: Seq<Input>) -> (actions: Seq<Action>)
    requires
        in_step(r),
        !r.exhausted,
    ensures
        comes_of(r.normalizer, r.inputs(inputs), actions),
        in_step(r.inputs(inputs).state),
        inputs.len() > 0 && !(inputs.last() is Chunk) ==> r.inputs(inputs).state.exhausted,
    decreases inputs.len(),
{
    if inputs.len() == 0 {
        lemma_no_action(r);
        Seq::empty()
    } else {
        let a = lemma_inputs_run(r, inputs.drop_last());
        let before = r.inputs(inputs.drop_last());
        let b = if before.state.exhausted {
            lemma_no_action(before.state);
            Seq::empty()
        } else {
            lemma_input_runs(before.state, inputs.last())
        };
        lemma_then(r.normalizer, before, a, before.state.input(inputs.last()), b);
        a + b
    }
}

/// The terminal contract of a stream: whatever the body holds, however it comes
/// in and whether or not it can be read to its end, the stream is exhausted
/// just when its terminal event has come, it is exhausted once the body has
/// ended or could not be read, and what it yields by then is a whole stream.
pub proof fn streams_keep_the_terminal_contract(
    r: RunnerView,
    warnings: Seq<WarningView>,
    request_id: Option<Seq<char>>,
    inputs: Seq<Input>,
)
    requires
        is_fresh(r.normalizer),
        !r.exhausted,
    ensures
        r.inputs(inputs).state.exhausted == r.inputs(inputs).state.normalizer.finished,
        inputs.len() > 0 && !(inputs.last() is Chunk) ==> r.inputs(inputs).state.exhausted,
        r.inputs(inputs).state.exhausted ==> is_whole(
            opening(warnings, request_id) + r.inputs(inputs).events,
        ),
{
    let actions = lemma_inputs_run(r, inputs);
    terminal_contract(r.normalizer, actions);
    lemma_opening(warnings, request_id, r.inputs(inputs).events);
}

proof fn lemma_opening(
    warnings: Seq<WarningView>,
    request_id: Option<Seq<char>>,
    events: Seq<StreamEventView>,
)
    ensures
        ({
            let all = opening(warnings, request_id) + events;
            &&& all.len() > events.len()
            &&& all[0] is StreamStart
            &&& forall|x: Multiset<Block>| #[trigger]
                follow_all(Multiset::empty(), events, x) ==> follow_all(
                    Multiset::empty(),
                    all,
                    x,
                )
            &&& finish_count(all) == finish_count(events)
            &&& error_count(all) == error_count(events)
            &&& events.len() > 0 ==> all.last() == events.last()
            &&& calls_in_order(events) ==> calls_in_order(all)
        }),
{
    let first = StreamEventView::StreamStart { warnings };
    let m = Multiset::<Block>::empty();
    lemma_one_event(m, first);
    assert(calls_in_order(seq![first]));
    if request_id is Some {
        let second = StreamEventView::ResponseMetadata(
            ResponseMetadataView { id: None, model: None, request_id },
        );
        lemma_one_event(m, second);
        assert(follow_all(m, seq![first], m) && follow_all(m, seq![second], m));
        lemma_concat(m, seq![first], seq![second]);
        assert(calls_in_order(seq![second]));
        assert(seq![first] + seq![second] =~= opening(warnings, request_id));
    }
    assert(follow_all(m, opening(warnings, request_id), m));
    lemma_concat(m, opening(warnings, request_id), events);
}

proof fn lemma_source_aside(
    r: RunnerView,
    source: SourceView,
    frames: Seq<StreamFrameView>,
    ids: Seq<Seq<Seq<char>>>,
    n: int,
)
    ensures
        ({
            let moved = RunnerView { source, ..r }.frames_upto(frames, ids, n);
            let told = r.frames_upto(frames, ids, n);
            &&& moved.state == RunnerView { source, ..told.state }
            &&& moved.events == told.events
            &&& told.state.source == r.source
            &&& told.state.exhausted == r.exhausted
        }),
    decreases n,
{
    if n > 0 {
        lemma_source_aside(r, source, frames, ids, n - 1);
        reveal(RunnerView::given);
    }
}

proof fn lemma_frames_in_parts(
    r: RunnerView,
    a: Seq<StreamFrameView>,
    b: Seq<StreamFrameView>,
    ids: Seq<Seq<Seq<char>>>,
    n: int,
)
    requires
        0 <= n <= b.len(),
        ids.len() == a.len() + b.len(),
    ensures
        ({
            let k = a.len() as int;
            let first = r.frames_upto(a, ids.take(k), k);
            let second = first.state.frames_upto(b, ids.skip(k), n);
            let all = r.frames_upto(a + b, ids, k + n);
            &&& all.state == second.state
            &&& all.events == first.events + second.events
        }),
    decreases n,
{
    let k = a.len() as int;
    let first = r.frames_upto(a, ids.take(k), k);
    if n == 0 {
        lemma_frames_prefix(r, a, b, ids, k);
        assert(first.events + Seq::<StreamEventView>::empty() =~= first.events);
    } else {
        lemma_frames_in_parts(r, a, b, ids, n - 1);
        let second = first.state.frames_upto(b, ids.skip(k), n - 1);
        assert((a + b)[k + n - 1] == b[n - 1]);
        assert(ids_at(ids, k + n - 1) == ids_at(ids.skip(k), n - 1));
        if !second.state.normalizer.finished {
            let next = second.state.given(b[n - 1], ids_at(ids.skip(k), n - 1));
            assert(first.events + second.events + next.events =~= first.events + (second.events
                + next.events));
        }
    }
}

proof fn lemma_frames_prefix(
    r: RunnerView,
    a: Seq<StreamFrameView>,
    b: Seq<StreamFrameView>,
    ids: Seq<Seq<Seq<char>>>,
    n: int,
)
    requires
        n <= a.len(),
        ids.len() == a.len() + b.len(),
    ensures
        r.frames_upto(a + b, ids, n) == r.frames_upto(a, ids.take(a.len() as int), n),
    decreases n,
{
    if n > 0 {
        lemma_frames_prefix(r, a, b, ids, n - 1);
        assert((a + b)[n - 1] == a[n - 1]);
        assert(ids_at(ids, n - 1) == ids_at(ids.take(a.len() as int), n - 1));
    }
}

proof fn lemma_finished_frames(
    r: RunnerView,
    frames: Seq<StreamFrameView>,
    ids: Seq<Seq<Seq<char>>>,
    n: int,
)
    requires
        r.normalizer.finished,
    ensures
        r.frames_upto(frames, ids, n) == r.idle(),
    decreases n,
{
    if n > 0 {
        lemma_finished_frames(r, frames, ids, n - 1);
    }
}

/// Where a body is cut into chunks makes no difference: two chunks yield the
/// events that they yield as one, and leave the stream as far. The ids are
/// those of the frames of the first chunk, then those of the second.
pub proof fn streams_do_not_depend_on_chunks(
    r: RunnerView,
    a: Seq<u8>,
    b: Seq<u8>,
    ids: Seq<Seq<Seq<char>>>,
)
    requires
        in_step(r),
        ids.len() == r.source.frames(a + b).len(),
    ensures
        ({
            let k = r.source.frames(a).len() as int;
            let first = r.chunk(a, ids.take(k));
            let second = first.state.chunk(b, ids.skip(k));
            let all = r.chunk(a + b, ids);
            &&& all.events == first.events + second.events
            &&& all.state.normalizer == second.state.normalizer
            &&& all.state.exhausted == second.state.exhausted
            &&& !all.state.exhausted ==> all.state == second.state
        }),
{
    let none = Seq::<StreamEventView>::empty();
    if r.exhausted {
        assert(none + none =~= none);
    } else {
        chunking_makes_no_difference(r.source, a, b);
        if r.source.pushed(a).corruption() is Some {
            corruption_stops_frames(r.source.pushed(a), b);
        }
        let fa = r.source.frames(a);
        let k = fa.len() as int;
        let fb = r.source.pushed(a).frames(b);
        let one = RunnerView { source: r.source.pushed(a), ..r };
        let both = RunnerView { source: r.source.pushed(a + b), ..r };
        let told = one.frames_upto(fa, ids.take(k), k);
        let all = both.frames_upto(fa + fb, ids, k + fb.len());
        lemma_source_aside(one, both.source, fa, ids.take(k), k);
        lemma_frames_in_parts(both, fa, fb, ids, fb.len() as int);
        let mid = both.frames_upto(fa, ids.take(k), k);
        assert((RunnerView { source: both.source, ..one }) == both);
        assert(mid.state == RunnerView { source: both.source, ..told.state });
        assert(mid.events == told.events);
        let rest = mid.state.frames_upto(fb, ids.skip(k), fb.len() as int);
        assert(all.state == rest.state && all.events == told.events + rest.events);
        if told.state.normalizer.finished {
            lemma_finished_frames(mid.state, fb, ids.skip(k), fb.len() as int);
            assert(rest == mid.state.idle());
            assert(told.events + none + none =~= told.events + none);
            assert(told.events + none =~= told.events);
        } else if let Some(message) = one.source.corruption() {
            assert(fb.len() == 0);
            assert(rest == mid.state.idle());
            assert(told.events + none =~= told.events);
            let error = new_error(ErrorKind::MalformedResponse, message);
            let failed = told.state.failing(error);
            assert(told.events + failed.events + none =~= told.events + failed.events);
        } else {
            assert(told.state.checked() == told.state.idle());
            let read = RunnerView {
                source: one.source.pushed(b),
                ..told.state
            };
            assert(read == mid.state);
            let last = rest.state.checked();
            assert(told.events + none =~= told.events);
            assert(told.events + rest.events + last.events =~= told.events + (rest.events
                + last.events));
        }
    }
}

/// The terminal contract of a stream whose body is one JSON value.
pub proof fn replays_keep_the_terminal_contract(
    profile: ApiProfile,
    model: Seq<char>,
    warnings: Seq<WarningView>,
    include_raw: bool,
    status: u16,
    headers: HeadersView,
    body: Seq<u8>,
    ids: Seq<Seq<char>>,
)
    ensures
        match replayed(profile, model, warnings, include_raw, status, headers, body, ids) {
            Ok(events) => is_whole(events),
            Err(_) => true,
        },
{
    if let Ok(result) = buffered(profile, model, Seq::empty(), status, headers, body, ids) {
        let n = fresh_stream(include_raw, profile, model, request_id_of(headers));
        let action = Action::Replay(result);
        lemma_one_action(n, action);
        assert(act(n, action) == n.replay(result)) by {
            reveal(act);
        }
        terminal_contract(n, seq![action]);
        lemma_opening(warnings, request_id_of(headers), n.replay(result).events);
    }
}

/// Collecting the events of a JSON body gives the result that the body holds,
/// with the warnings and the request id of the stream.
pub proof fn replays_can_be_collected(
    profile: ApiProfile,
    model: Seq<char>,
    warnings: Seq<WarningView>,
    include_raw: bool,
    status: u16,
    headers: HeadersView,
    body: Seq<u8>,
    ids: Seq<Seq<char>>,
)
    requires
        match decoded(profile, model, body, ids) {
            Ok(result) => is_lasting_result(result),
            Err(_) => true,
        },
    ensures
        match (
            decoded(profile, model, body, ids),
            replayed(profile, model, warnings, include_raw, status, headers, body, ids),
        ) {
            (Ok(result), Ok(events)) => nothing_accumulated().after(events).result() == Ok::<
                GenerateResultView,
                ErrorView,
            >(
                GenerateResultView {
                    warnings,
                    response: ResponseMetadataView {
                        request_id: request_id_of(headers),
                        ..result.response
                    },
                    ..result
                },
            ),
            (Err(_), Err(_)) => true,
            _ => false,
        },
{
    if let Ok(result) = buffered(profile, model, Seq::empty(), status, headers, body, ids) {
        let request_id = request_id_of(headers);
        let n = fresh_stream(include_raw, profile, model, request_id);
        let none = nothing_accumulated();
        let start = StreamEventView::StreamStart { warnings };
        let a = none.next(start);
        assert(none.warnings + warnings =~= warnings);
        assert(none.after(seq![start]) == a) by {
            assert(seq![start].drop_last() =~= Seq::empty());
            assert(none.after(seq![start].drop_last()) == none);
        }
        let b = none.after(opening(warnings, request_id));
        if request_id is Some {
            let about = StreamEventView::ResponseMetadata(
                ResponseMetadataView { id: None, model: None, request_id },
            );
            assert(seq![start].push(about).drop_last() =~= seq![start]);
            assert(b == a.next(about));
        }
        replayed_results_come_back(n, result, b);
        lemma_after(none, opening(warnings, request_id), n.replay(result).events);
    }
}

/// An exhausted stream yields nothing more, whatever comes.
pub proof fn nothing_follows_the_end(r: RunnerView, inputs: Seq<Input>)
    requires
        r.exhausted,
    ensures
        r.inputs(inputs) == r.idle(),
    decreases inputs.len(),
{
    if inputs.len() > 0 {
        nothing_follows_the_end(r, inputs.drop_last());
        assert(Seq::<StreamEventView>::empty() + Seq::<StreamEventView>::empty() =~= Seq::empty());
    }
}

proof fn lemma_frames_ids(
    r: RunnerView,
    frames: Seq<StreamFrameView>,
    a: Seq<Seq<Seq<char>>>,
    b: Seq<Seq<Seq<char>>>,
    n: int,
)
    requires
        forall|i: int| 0 <= i < n ==> ids_at(a, i) == #[trigger] ids_at(b, i),
    ensures
        r.frames_upto(frames, a, n) == r.frames_upto(frames, b, n),
    decreases n,
{
    if n > 0 {
        lemma_frames_ids(r, frames, a, b, n - 1);
        assert(ids_at(a, n - 1) == ids_at(b, n - 1));
    }
}

} // verus!
