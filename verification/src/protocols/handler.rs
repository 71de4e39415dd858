//! What each profile makes of requests, responses and streams.
use vstd::prelude::*;
use vstd::utf8::*;

use crate::address::{join_url, joined_url, url_host};
use crate::capabilities::{ModelCapabilities, ReasoningSupportView};
use crate::error::{Error, ErrorView};
use crate::headers::{
    first_value, headers_view, insert_value, name_from, value_from, HeadersView,
};
use crate::ids::{hyphenated_uuid, is_hyphenated_uuid};
use crate::json::{json_parse, json_parse_bytes};
use crate::model::{opt, views};
use crate::protocols::anthropic;
use crate::protocols::anthropic::bedrock::{chunk, exception_error, BedrockStreamDecoder};
use crate::protocols::anthropic::request::lower_anthropic_request;
use crate::protocols::anthropic::stream::{AnthropicStreamDecoder, AnthropicView};
use crate::protocols::anthropic::types::{
    anthropic_error, decode_anthropic_error, decode_anthropic_response,
};
use crate::protocols::anthropic::{AnthropicDialect, VERSION, VERSION_HEADER};
use crate::protocols::bedrock::{bedrock_error, decode_bedrock_error, ERROR_TYPE};
use crate::protocols::gemini;
use crate::protocols::gemini::request::lower_gemini_request;
use crate::protocols::gemini::stream::{GeminiStreamDecoder, GeminiView};
use crate::protocols::gemini::types::{
    are_body_ids, are_data_ids, decode_body_with, decode_gemini_error, decode_gemini_response, gemini_error,
    some_ids_for,
};
use crate::protocols::lower::{LoweredRequest, LoweredView};
use crate::protocols::openai::chat;
use crate::protocols::openai::chat::request::{lower_chat, lower_chat_for};
use crate::protocols::openai::chat::stream::{ChatStreamDecoder, ChatView};
use crate::protocols::openai::chat::types::{
    decode_chat_response, decode_openrouter_error, openrouter_error,
};
use crate::protocols::openai::chat::ChatDialect;
use crate::protocols::openai::responses;
use crate::protocols::openai::responses::chatgpt;
use crate::protocols::openai::responses::chatgpt::{decode_chatgpt_response, lower_chatgpt_with};
use crate::protocols::openai::responses::request::{lower_body, lowered_body};
use crate::protocols::openai::responses::stream::{ResponsesStreamDecoder, ResponsesView};
use crate::protocols::openai::responses::types::decode_openai_response;
use crate::protocols::openai::responses::ResponsesDialect;
use crate::protocols::openai::shared::{decode_openai_error, openai_error};
use crate::protocols::validate::bad_option;
use crate::protocols::ApiProfile;
use crate::request::{Request, RequestView};
use crate::response::{GenerateResult, GenerateResultView};
use crate::stream::action::{does, ends_last, quiet, Decoded, DecodedView};
use crate::stream::contract::Action;
use crate::text::lower;
use crate::transport::aws_event_stream::{AwsEventStreamParser, AwsParserView};
use crate::transport::exchange::{
    lemma_plain_value, one_header, HttpRequest, HttpRequestView, Method,
};
use crate::transport::framing::{StreamFrame, StreamFrameView};
use crate::transport::sse::{fresh_parser, SseParser};
use crate::transport::{FrameSource, SourceView};

verus! {

broadcast use crate::model::group_views;

// ---------------------------------------------------------------------------
// Requests
// ---------------------------------------------------------------------------

/// A request to a Responses endpoint.
pub open spec fn responses_request(
    r: RequestView,
    model: Seq<char>,
    profile: ApiProfile,
    streaming: bool,
) -> Result<LoweredView, ErrorView> {
    match lowered_body(r, model, profile, streaming, false) {
        Ok((body, warnings)) => Ok(
            LoweredView {
                path: "responses"@,
                query: Seq::empty(),
                headers: Seq::empty(),
                body,
                warnings,
            },
        ),
        Err(e) => Err(e),
    }
}

/// The Chat Completions dialect of a profile.
pub open spec fn chat_dialect(profile: ApiProfile) -> ChatDialect {
    match profile {
        ApiProfile::XaiChatCompletions => ChatDialect::Xai,
        ApiProfile::OpenRouter => ChatDialect::OpenRouter,
        _ => ChatDialect::OpenAi,
    }
}

/// A request in the wire format of a profile: `host` is the host of the base
/// URL, and `session_id` names the session of the ChatGPT backend.
pub open spec fn lowered(
    profile: ApiProfile,
    r: RequestView,
    model: Seq<char>,
    support: ReasoningSupportView,
    host: Option<Seq<char>>,
    session_id: Seq<char>,
    streaming: bool,
) -> Result<LoweredView, ErrorView> {
    match profile {
        ApiProfile::OpenAiResponses | ApiProfile::XaiResponses
        | ApiProfile::BedrockOpenAiResponses => responses_request(r, model, profile, streaming),
        ApiProfile::ChatGptResponses => chatgpt::lowered(r, model, profile, streaming, session_id),
        ApiProfile::OpenAiChatCompletions | ApiProfile::XaiChatCompletions
        | ApiProfile::OpenRouter => Ok(
            chat::request::lowered(
                r,
                model,
                profile,
                support,
                host,
                streaming,
                chat_dialect(profile),
            ),
        ),
        ApiProfile::AnthropicMessages => anthropic::request::lowered(
            r,
            model,
            profile,
            support,
            streaming,
            AnthropicDialect::Direct,
        ),
        ApiProfile::BedrockAnthropic => anthropic::request::lowered(
            r,
            model,
            profile,
            support,
            streaming,
            AnthropicDialect::Bedrock,
        ),
        ApiProfile::GeminiGenerateContent => gemini::request::lowered(
            r,
            model,
            profile,
            support,
            streaming,
        ),
    }
}

/// Whether the options of a request can be merged into the body of a profile
/// that reads the body again afterwards.
pub open spec fn can_lower(profile: ApiProfile, r: RequestView) -> bool {
    profile is ChatGptResponses ==> !bad_option(r.provider_options, "openai"@)
}

fn lower_responses(request: &Request, model: &str, profile: ApiProfile, streaming: bool) -> (r:
    Result<LoweredRequest, Error>)
    ensures
        match r {
            Ok(l) => responses_request(request@, model@, profile, streaming) == Ok::<
                LoweredView,
                ErrorView,
            >(l@),
            Err(e) => responses_request(request@, model@, profile, streaming) == Err::<
                LoweredView,
                ErrorView,
            >(e@),
        },
{
    match lower_body(request, model, profile, streaming, ResponsesDialect::OpenAi) {
        Ok((body, warnings)) => Ok(
            LoweredRequest {
                path: "responses".to_owned(),
                query: Vec::new(),
                headers: Vec::new(),
                body,
                warnings,
            },
        ),
        Err(e) => Err(e),
    }
}

fn dialect_of(profile: ApiProfile) -> (r: ChatDialect)
    ensures
        r == chat_dialect(profile),
{
    match profile {
        ApiProfile::XaiChatCompletions => ChatDialect::Xai,
        ApiProfile::OpenRouter => ChatDialect::OpenRouter,
        _ => ChatDialect::OpenAi,
    }
}

/// Lower a request to the wire format of a profile, for a given host and
/// session.
pub fn lower_with(
    profile: ApiProfile,
    request: &Request,
    model: &str,
    capabilities: &ModelCapabilities,
    host: Option<&str>,
    session_id: &str,
    streaming: bool,
) -> (r: Result<LoweredRequest, Error>)
    requires
        can_lower(profile, request@),
    ensures
        match r {
            Ok(l) => lowered(
                profile,
                request@,
                model@,
                capabilities@.reasoning,
                opt(host),
                session_id@,
                streaming,
            ) == Ok::<LoweredView, ErrorView>(l@),
            Err(e) => lowered(
                profile,
                request@,
                model@,
                capabilities@.reasoning,
                opt(host),
                session_id@,
                streaming,
            ) == Err::<LoweredView, ErrorView>(e@),
        },
{
    match profile {
        ApiProfile::OpenAiResponses | ApiProfile::XaiResponses
        | ApiProfile::BedrockOpenAiResponses => lower_responses(
            request,
            model,
            profile,
            streaming,
        ),
        ApiProfile::ChatGptResponses => lower_chatgpt_with(
            request,
            model,
            profile,
            streaming,
            session_id,
        ),
        ApiProfile::OpenAiChatCompletions | ApiProfile::XaiChatCompletions
        | ApiProfile::OpenRouter => Ok(
            lower_chat_for(
                request,
                model,
                profile,
                &capabilities.reasoning,
                host,
                streaming,
                dialect_of(profile),
            ),
        ),
        ApiProfile::AnthropicMessages => lower_anthropic_request(
            request,
            model,
            profile,
            &capabilities.reasoning,
            streaming,
            AnthropicDialect::Direct,
        ),
        ApiProfile::BedrockAnthropic => lower_anthropic_request(
            request,
            model,
            profile,
            &capabilities.reasoning,
            streaming,
            AnthropicDialect::Bedrock,
        ),
        ApiProfile::GeminiGenerateContent => lower_gemini_request(
            request,
            model,
            profile,
            &capabilities.reasoning,
            streaming,
        ),
    }
}

/// Lower a request to the wire format of a profile.
pub fn lower_request(
    profile: ApiProfile,
    request: &Request,
    model: &str,
    capabilities: &ModelCapabilities,
    base_url: &str,
    streaming: bool,
) -> (r: Result<LoweredRequest, Error>)
    requires
        can_lower(profile, request@),
    ensures
        exists|session_id: Seq<char>| #[trigger]
            is_hyphenated_uuid(session_id) && match r {
                Ok(l) => lowered(
                    profile,
                    request@,
                    model@,
                    capabilities@.reasoning,
                    url_host(base_url@),
                    session_id,
                    streaming,
                ) == Ok::<LoweredView, ErrorView>(l@),
                Err(e) => lowered(
                    profile,
                    request@,
                    model@,
                    capabilities@.reasoning,
                    url_host(base_url@),
                    session_id,
                    streaming,
                ) == Err::<LoweredView, ErrorView>(e@),
            },
{
    let session_id: String = hyphenated_uuid();
    match profile {
        ApiProfile::OpenAiChatCompletions | ApiProfile::XaiChatCompletions
        | ApiProfile::OpenRouter => {
            assert(is_hyphenated_uuid(session_id@));
            Ok(
                lower_chat(
                    request,
                    model,
                    profile,
                    &capabilities.reasoning,
                    base_url,
                    streaming,
                    dialect_of(profile),
                ),
            )
        },
        _ => {
            assert(is_hyphenated_uuid(session_id@));
            lower_with(
                profile,
                request,
                model,
                capabilities,
                None,
                session_id.as_str(),
                streaming,
            )
        },
    }
}

/// The header that takes a native API key, where a profile has one: bearer
/// tokens go to the others.
pub open spec fn native_key(profile: ApiProfile) -> Option<Seq<char>> {
    match profile {
        ApiProfile::AnthropicMessages => Some("x-api-key"@),
        ApiProfile::GeminiGenerateContent => Some("x-goog-api-key"@),
        _ => None,
    }
}

/// The header that takes a native API key, where a profile has one.
pub fn native_key_header(profile: ApiProfile) -> (r: Option<&'static str>)
    ensures
        opt(r) == native_key(profile),
{
    match profile {
        ApiProfile::AnthropicMessages => Some("x-api-key"),
        ApiProfile::GeminiGenerateContent => Some("x-goog-api-key"),
        _ => None,
    }
}

/// The path that answers whether credentials are accepted, for the profiles
/// that have one.
pub open spec fn verification(profile: ApiProfile) -> Option<Seq<char>> {
    match profile {
        ApiProfile::OpenAiResponses | ApiProfile::XaiResponses
        | ApiProfile::AnthropicMessages => Some("models"@),
        _ => None,
    }
}

/// The path that answers whether credentials are accepted, for the profiles
/// that have one.
pub fn verify_path(profile: ApiProfile) -> (r: Option<&'static str>)
    ensures
        opt(r) == verification(profile),
{
    match profile {
        ApiProfile::OpenAiResponses | ApiProfile::XaiResponses
        | ApiProfile::AnthropicMessages => Some("models"),
        _ => None,
    }
}

/// The headers of a request that checks credentials.
pub open spec fn verification_headers(profile: ApiProfile) -> HeadersView {
    let plain = one_header("accept"@, "application/json"@);
    if profile == ApiProfile::AnthropicMessages {
        plain.insert(VERSION_HEADER@, seq![encode_utf8(VERSION@)])
    } else {
        plain
    }
}

/// The request that checks credentials: there is none where the profile has no
/// such path, or where the base is no URL.
pub open spec fn verification_request(profile: ApiProfile, base: Seq<char>) -> Option<
    HttpRequestView,
> {
    match verification(profile) {
        Some(path) => match joined_url(base, path, Seq::empty()) {
            Some(url) => Some(
                HttpRequestView {
                    method: Method::Get,
                    url,
                    headers: verification_headers(profile),
                    body: None,
                },
            ),
            None => None,
        },
        None => None,
    }
}

/// A request that checks credentials, at the URL of [`verify_path`].
pub fn new_verify_request(profile: ApiProfile, base_url: &str) -> (r: Option<HttpRequest>)
    ensures
        opt(r) == verification_request(profile, base_url@),
{
    let path: &str = verify_path(profile)?;
    let query: Vec<(String, String)> = Vec::new();
    assert(views(query@) =~= Seq::empty());
    let url: String = join_url(base_url, path, &query)?;
    let mut request: HttpRequest = HttpRequest::get(url);
    if profile == ApiProfile::AnthropicMessages {
        proof {
            reveal_strlit("anthropic-version");
            reveal_strlit("2023-06-01");
            assert(lower(VERSION_HEADER@) =~= VERSION_HEADER@);
            lemma_plain_value(VERSION@);
        }
        if let Some(name) = name_from(VERSION_HEADER) {
            if let Some(value) = value_from(VERSION) {
                insert_value(&mut request.headers, name, value);
            }
        }
    }
    Some(request)
}

// ---------------------------------------------------------------------------
// Responses
// ---------------------------------------------------------------------------

/// The result that a response body of a profile holds: `ids` are for the calls
/// that come without one.
pub open spec fn decoded(
    profile: ApiProfile,
    model: Seq<char>,
    body: Seq<u8>,
    ids: Seq<Seq<char>>,
) -> Result<GenerateResultView, ErrorView> {
    match profile {
        ApiProfile::OpenAiResponses | ApiProfile::XaiResponses
        | ApiProfile::BedrockOpenAiResponses => responses::types::decoded_body(
            body,
            model,
            profile,
        ),
        ApiProfile::ChatGptResponses => chatgpt::decoded_body(body, model, profile),
        ApiProfile::OpenAiChatCompletions | ApiProfile::XaiChatCompletions
        | ApiProfile::OpenRouter => chat::types::decoded_body(body, chat_dialect(profile)),
        ApiProfile::AnthropicMessages | ApiProfile::BedrockAnthropic =>
            anthropic::types::decoded_body(body),
        ApiProfile::GeminiGenerateContent => gemini::types::decoded_body(body, ids),
    }
}

/// Decode a buffered response body of a profile, with ids for the calls that
/// come without one.
pub fn decode_response_with(profile: ApiProfile, model: &str, body: &[u8], ids: &Vec<String>) -> (r:
    Result<GenerateResult, Error>)
    ensures
        match r {
            Ok(result) => decoded(profile, model@, body@, views(ids@)) == Ok::<
                GenerateResultView,
                ErrorView,
            >(result@),
            Err(e) => decoded(profile, model@, body@, views(ids@)) == Err::<
                GenerateResultView,
                ErrorView,
            >(e@),
        },
{
    match profile {
        ApiProfile::OpenAiResponses | ApiProfile::XaiResponses
        | ApiProfile::BedrockOpenAiResponses => decode_openai_response(body, model, profile),
        ApiProfile::ChatGptResponses => decode_chatgpt_response(body, model, profile),
        ApiProfile::OpenAiChatCompletions | ApiProfile::XaiChatCompletions
        | ApiProfile::OpenRouter => decode_chat_response(body, dialect_of(profile)),
        ApiProfile::AnthropicMessages | ApiProfile::BedrockAnthropic => decode_anthropic_response(
            body,
        ),
        ApiProfile::GeminiGenerateContent => decode_body_with(body, ids),
    }
}

/// Decode a buffered response body of a profile.
pub fn decode_response(profile: ApiProfile, model: &str, body: &[u8]) -> (r: Result<
    GenerateResult,
    Error,
>)
    ensures
        exists|ids: Seq<Seq<char>>| #[trigger]
            are_body_ids(body@, ids) && match r {
                Ok(result) => decoded(profile, model@, body@, ids) == Ok::<
                    GenerateResultView,
                    ErrorView,
                >(result@),
                Err(e) => decoded(profile, model@, body@, ids) == Err::<
                    GenerateResultView,
                    ErrorView,
                >(e@),
            },
{
    if let ApiProfile::GeminiGenerateContent = profile {
        decode_gemini_response(body)
    } else {
        let ids: Vec<String> = Vec::new();
        let ghost unused = some_ids_for(json_parse_bytes(body@));
        assert(are_body_ids(body@, unused));
        decode_response_with(profile, model, body, &ids)
    }
}

/// The error that an error response of a profile reports. Bedrock answers
/// endpoint-level failures with an AWS envelope and model-level failures with
/// the envelope of the model's own API; the exception-class header tells them
/// apart.
pub open spec fn error_of(
    profile: ApiProfile,
    status: u16,
    headers: HeadersView,
    body: Seq<u8>,
) -> ErrorView {
    match profile {
        ApiProfile::BedrockOpenAiResponses => if headers.contains_key(ERROR_TYPE@) {
            bedrock_error(profile, status, headers, body)
        } else {
            openai_error(profile, status, headers, body)
        },
        ApiProfile::BedrockAnthropic => bedrock_error(profile, status, headers, body),
        ApiProfile::OpenRouter => openrouter_error(status, headers, body),
        ApiProfile::AnthropicMessages => anthropic_error(status, headers, body),
        ApiProfile::GeminiGenerateContent => gemini_error(status, headers, body),
        _ => openai_error(profile, status, headers, body),
    }
}

fn has_error_type(headers: &http::HeaderMap<http::HeaderValue>) -> (r: bool)
    ensures
        r == headers_view(*headers).contains_key(ERROR_TYPE@),
{
    proof {
        reveal_strlit("x-amzn-errortype");
        assert(lower("x-amzn-errortype"@) =~= "x-amzn-errortype"@);
    }
    first_value(headers, ERROR_TYPE).is_some()
}

/// Decode an error response of a profile.
pub fn decode_error(
    profile: ApiProfile,
    status: u16,
    headers: &http::HeaderMap<http::HeaderValue>,
    body: &[u8],
) -> (r: Error)
    ensures
        r@ == error_of(profile, status, headers_view(*headers), body@),
{
    match profile {
        ApiProfile::BedrockOpenAiResponses => if has_error_type(headers) {
            decode_bedrock_error(profile, status, headers, body)
        } else {
            decode_openai_error(profile, status, headers, body)
        },
        ApiProfile::BedrockAnthropic => decode_bedrock_error(profile, status, headers, body),
        ApiProfile::OpenRouter => decode_openrouter_error(status, headers, body),
        ApiProfile::AnthropicMessages => decode_anthropic_error(status, headers, body),
        ApiProfile::GeminiGenerateContent => decode_gemini_error(status, headers, body),
        _ => decode_openai_error(profile, status, headers, body),
    }
}

// ---------------------------------------------------------------------------
// Streams
// ---------------------------------------------------------------------------

/// Decodes the frames of a stream.
pub enum StreamDecoder {
    Responses(ResponsesStreamDecoder),
    Chat(ChatStreamDecoder),
    Anthropic(AnthropicStreamDecoder),
    Bedrock(BedrockStreamDecoder),
    Gemini(GeminiStreamDecoder),
}

/// What a decoder knows of its stream so far.
#[verifier::ext_equal]
pub enum DecoderView {
    Responses(ResponsesView),
    Chat(ChatView),
    Anthropic(AnthropicView),
    Bedrock(AnthropicView),
    Gemini(GeminiView),
}

impl View for StreamDecoder {
    type V = DecoderView;

    open spec fn view(&self) -> DecoderView {
        match *self {
            StreamDecoder::Responses(d) => DecoderView::Responses(d@),
            StreamDecoder::Chat(d) => DecoderView::Chat(d@),
            StreamDecoder::Anthropic(d) => DecoderView::Anthropic(d@),
            StreamDecoder::Bedrock(d) => DecoderView::Bedrock(d@),
            StreamDecoder::Gemini(d) => DecoderView::Gemini(d@),
        }
    }
}

/// What a frame does: the decoder after it, and what it decodes to.
#[verifier::ext_equal]
pub struct Reply {
    pub state: DecoderView,
    pub decoded: DecodedView,
}

/// A decoder at the start of a stream.
pub open spec fn fresh_decoder(profile: ApiProfile) -> DecoderView {
    match profile {
        ApiProfile::OpenAiResponses | ApiProfile::XaiResponses | ApiProfile::BedrockOpenAiResponses
        | ApiProfile::ChatGptResponses => DecoderView::Responses(
            responses::stream::fresh_decoder(profile),
        ),
        ApiProfile::OpenAiChatCompletions | ApiProfile::XaiChatCompletions
        | ApiProfile::OpenRouter => DecoderView::Chat(
            chat::stream::fresh_decoder(chat_dialect(profile)),
        ),
        ApiProfile::AnthropicMessages => DecoderView::Anthropic(
            AnthropicView { profile, blocks: Seq::empty(), finish: None, done: false },
        ),
        ApiProfile::BedrockAnthropic => DecoderView::Bedrock(
            AnthropicView { profile, blocks: Seq::empty(), finish: None, done: false },
        ),
        ApiProfile::GeminiGenerateContent => DecoderView::Gemini(
            gemini::stream::fresh_decoder(),
        ),
    }
}

impl DecoderView {
    /// A payload for the decoder, with ids for the calls that come without one.
    pub open spec fn data(self, data: Seq<char>, ids: Seq<Seq<char>>) -> Reply {
        match self {
            DecoderView::Responses(d) => Reply {
                state: DecoderView::Responses(d.frame(data).state),
                decoded: d.frame(data).decoded,
            },
            DecoderView::Chat(d) => Reply {
                state: DecoderView::Chat(d.frame(data).state),
                decoded: d.frame(data).decoded,
            },
            DecoderView::Anthropic(d) => Reply {
                state: DecoderView::Anthropic(d.frame(data).state),
                decoded: d.frame(data).decoded,
            },
            DecoderView::Bedrock(d) => Reply {
                state: DecoderView::Bedrock(chunk(d, data).state),
                decoded: chunk(d, data).decoded,
            },
            DecoderView::Gemini(d) => Reply {
                state: DecoderView::Gemini(d.frame(data, ids).state),
                decoded: d.frame(data, ids).decoded,
            },
        }
    }

    /// A frame of the stream. Only the AWS encoding carries exceptions of its
    /// own, and only Bedrock speaks it.
    pub open spec fn frame(self, frame: StreamFrameView, ids: Seq<Seq<char>>) -> Reply {
        match frame {
            StreamFrameView::Data(data) => self.data(data, ids),
            StreamFrameView::Exception { kind, payload } => Reply {
                state: self,
                decoded: if self is Bedrock {
                    does(seq![Action::Fail(exception_error(kind, payload))])
                } else {
                    does(Seq::empty())
                },
            },
        }
    }

    /// The end of the body.
    pub open spec fn eof(self) -> Reply {
        match self {
            DecoderView::Responses(d) => Reply { state: self, decoded: does(Seq::empty()) },
            DecoderView::Chat(d) => Reply {
                state: DecoderView::Chat(d.eof().state),
                decoded: does(d.eof().actions),
            },
            DecoderView::Anthropic(d) => Reply {
                state: DecoderView::Anthropic(d.eof().state),
                decoded: d.eof().decoded,
            },
            DecoderView::Bedrock(d) => Reply {
                state: DecoderView::Bedrock(d.eof().state),
                decoded: d.eof().decoded,
            },
            DecoderView::Gemini(d) => Reply {
                state: DecoderView::Gemini(d.eof().state),
                decoded: does(d.eof().actions),
            },
        }
    }
}

/// Nothing follows the end of the stream in what a frame or the end of the
/// body does, whatever the profile.
pub proof fn frames_end_at_most_once(d: DecoderView, frame: StreamFrameView, ids: Seq<Seq<char>>)
    ensures
        ends_last(d.frame(frame, ids).decoded.actions),
        ends_last(d.eof().decoded.actions),
{
    let data = match frame {
        StreamFrameView::Data(data) => data,
        StreamFrameView::Exception { kind, .. } => kind,
    };
    match d {
        DecoderView::Responses(e) => responses::stream::frames_end_at_most_once(e, data),
        DecoderView::Chat(e) => chat::stream::frames_end_at_most_once(e, data),
        DecoderView::Anthropic(e) => anthropic::stream::frames_end_at_most_once(e, data),
        DecoderView::Bedrock(e) => {
            anthropic::bedrock::frames_end_at_most_once(e, data);
        },
        DecoderView::Gemini(e) => gemini::stream::frames_end_at_most_once(e, data, ids),
    }
}

/// What precedes a failure does not end the stream, whatever the profile.
pub proof fn failures_end_by_themselves(d: DecoderView, frame: StreamFrameView, ids: Seq<Seq<char>>)
    ensures
        d.frame(frame, ids).decoded.error is Some ==> quiet(d.frame(frame, ids).decoded.actions),
        d.eof().decoded.error is Some ==> quiet(d.eof().decoded.actions),
{
    let data = match frame {
        StreamFrameView::Data(data) => data,
        StreamFrameView::Exception { kind, .. } => kind,
    };
    match d {
        DecoderView::Responses(e) => responses::stream::failures_end_by_themselves(e, data),
        DecoderView::Chat(e) => chat::stream::failures_end_by_themselves(e, data),
        DecoderView::Anthropic(e) => anthropic::stream::frames_end_at_most_once(e, data),
        DecoderView::Bedrock(e) => anthropic::bedrock::frames_end_at_most_once(e, data),
        DecoderView::Gemini(e) => gemini::stream::failures_end_by_themselves(e, data, ids),
    }
}

/// A frame source at the start of a body. Server-Sent Events unless the
/// profile speaks the AWS encoding.
pub open spec fn fresh_source(profile: ApiProfile) -> SourceView {
    match profile {
        ApiProfile::BedrockAnthropic => SourceView::Aws(
            AwsParserView { pending: Seq::empty(), corruption: None },
        ),
        _ => SourceView::Sse(fresh_parser()),
    }
}

/// A frame source at the start of a body.
pub fn new_frame_source(profile: ApiProfile) -> (r: FrameSource)
    ensures
        r@ == fresh_source(profile),
        forall|n: nat| n <= isize::MAX / 8 ==> #[trigger] r.fits(n),
{
    match profile {
        ApiProfile::BedrockAnthropic => FrameSource::Aws(AwsEventStreamParser::new()),
        _ => FrameSource::Sse(SseParser::new()),
    }
}

/// Whether texts are random ids for the calls in a frame.
pub open spec fn are_frame_ids(frame: StreamFrameView, ids: Seq<Seq<char>>) -> bool {
    match frame {
        StreamFrameView::Data(data) => are_data_ids(data, ids),
        StreamFrameView::Exception { .. } => ids.len() == 0,
    }
}

/// There are ids for every frame.
pub proof fn some_frame_ids(frame: StreamFrameView) -> (r: Seq<Seq<char>>)
    ensures
        are_frame_ids(frame, r),
{
    match frame {
        StreamFrameView::Data(data) => some_ids_for(json_parse(data)),
        StreamFrameView::Exception { .. } => Seq::empty(),
    }
}

impl StreamDecoder {
    /// A decoder at the start of a stream.
    pub fn new(profile: ApiProfile) -> (r: StreamDecoder)
        ensures
            r@ == fresh_decoder(profile),
    {
        match profile {
            ApiProfile::OpenAiResponses | ApiProfile::XaiResponses
            | ApiProfile::BedrockOpenAiResponses
            | ApiProfile::ChatGptResponses => StreamDecoder::Responses(
                ResponsesStreamDecoder::new(profile),
            ),
            ApiProfile::OpenAiChatCompletions | ApiProfile::XaiChatCompletions
            | ApiProfile::OpenRouter => StreamDecoder::Chat(
                ChatStreamDecoder::new(dialect_of(profile)),
            ),
            ApiProfile::AnthropicMessages => StreamDecoder::Anthropic(
                AnthropicStreamDecoder::new(profile),
            ),
            ApiProfile::BedrockAnthropic => StreamDecoder::Bedrock(BedrockStreamDecoder::new()),
            ApiProfile::GeminiGenerateContent => StreamDecoder::Gemini(
                GeminiStreamDecoder::new(),
            ),
        }
    }

    /// Decodes one frame of the stream, with ids for the calls that come
    /// without one.
    pub fn on_frame_with(&mut self, frame: &StreamFrame, ids: &Vec<String>) -> (r: Decoded)
        ensures
            (Reply { state: final(self)@, decoded: r@ }) == old(self)@.frame(frame@, views(ids@)),
    {
        match frame {
            StreamFrame::Data(data) => match self {
                StreamDecoder::Responses(d) => d.on_frame(data.as_str()),
                StreamDecoder::Chat(d) => d.on_frame(data.as_str()),
                StreamDecoder::Anthropic(d) => d.on_frame(data.as_str()),
                StreamDecoder::Bedrock(d) => d.on_frame(data.as_str()),
                StreamDecoder::Gemini(d) => d.on_frame_with(data.as_str(), ids),
            },
            StreamFrame::Exception { kind, payload } => match self {
                StreamDecoder::Bedrock(d) => d.on_exception(kind.as_str(), payload.as_str()),
                _ => Decoded::nothing(),
            },
        }
    }

    /// Decodes one frame of the stream. A call without an id gets a random one.
    pub fn on_frame(&mut self, frame: &StreamFrame) -> (r: Decoded)
        ensures
            exists|ids: Seq<Seq<char>>| #[trigger]
                are_frame_ids(frame@, ids) && (Reply { state: final(self)@, decoded: r@ }) == old(
                    self,
                )@.frame(frame@, ids),
    {
        match frame {
            StreamFrame::Data(data) => {
                if let StreamDecoder::Gemini(d) = self {
                    let ghost before = d@;
                    let r: Decoded = d.on_frame(data.as_str());
                    let ghost ids = choose|ids: Seq<Seq<char>>| #[trigger]
                        are_data_ids(data@, ids) && (gemini::stream::Reply {
                            state: d@,
                            decoded: r@,
                        }) == before.frame(data@, ids);
                    assert(are_frame_ids(frame@, ids));
                    return r;
                }
            },
            _ => {},
        }
        let ids: Vec<String> = Vec::new();
        let ghost unused = some_frame_ids(frame@);
        assert(are_frame_ids(frame@, unused));
        self.on_frame_with(frame, &ids)
    }

    /// Decodes the end of the body.
    pub fn on_eof(&mut self) -> (r: Decoded)
        ensures
            (Reply { state: final(self)@, decoded: r@ }) == old(self)@.eof(),
    {
        match self {
            StreamDecoder::Responses(_) => Decoded::nothing(),
            StreamDecoder::Chat(d) => Decoded::done(d.on_eof()),
            StreamDecoder::Anthropic(d) => d.on_eof(),
            StreamDecoder::Bedrock(d) => d.on_eof(),
            StreamDecoder::Gemini(d) => Decoded::done(d.on_eof()),
        }
    }
}

} // verus!
