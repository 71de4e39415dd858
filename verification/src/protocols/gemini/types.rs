//! Decoding of GenerateContent output.
use vstd::prelude::*;

use super::SIGNATURE_KEY;
use crate::error::{new_error, Delay, Error, ErrorKind, ErrorView};
use crate::headers::{headers_view, HeadersView};
use crate::http_support::{enrich_error_from_headers, enriched, error_kind_for_status, status_kind};
use crate::ids::{are_simple_uuids, is_simple_uuid, simple_uuids, some_simple_uuids};
use crate::json::{
    json_parse, json_parse_bytes, json_text, no_members, text_value, with_member, Json, JsonObject, JsonView,
};
use crate::message::{
    AssistantPart, AssistantPartView, ReasoningContent, ReasoningContentView, ReasoningPart,
    ReasoningPartView, ToolCall, ToolCallView,
};
use crate::metadata::{no_metadata, MetadataView, ProviderMetadata};
use crate::model::{opt, views};
use crate::protocols::error::{
    content_policy_kind, fallback_error, fallback_provider_error, policy_kind,
};
use crate::protocols::normalize::{normalize_usage, normalized_usage};
use crate::protocols::{finalize_tool_calls, finalized, ApiProfile};
use crate::response::{
    Finish, FinishReason, FinishView, GenerateResult, GenerateResultView, ResponseMetadata,
    ResponseMetadataView,
};
use crate::stream::event::either;
use crate::text::{cat, part, same, text_is};
use crate::usage::{no_usage, sum_of, Usage};
use crate::util::merge_objects;
use crate::wire;
use crate::wire::{
    count_at, count_ok, filled, flag_at, flag_ok, items_at, items_ok, list_ok, tag_at, text_at,
    text_ok, value_at, UNEXPECTED_TYPE,
};

verus! {

broadcast use {crate::model::group_views, crate::json::array_view};

// ---------------------------------------------------------------------------
// Wire types
// ---------------------------------------------------------------------------

/// Whether a value can be a part.
pub open spec fn part_ok(v: JsonView) -> bool {
    &&& v is Object
    &&& text_ok(v, "text"@)
    &&& flag_ok(v, "thought"@)
    &&& text_ok(v, "thoughtSignature"@)
    &&& match value_at(v, "functionCall"@) {
        Some(f) => f is Object && text_ok(f, "id"@) && text_ok(f, "name"@),
        None => true,
    }
}

/// The parts of a candidate.
pub open spec fn parts_of(candidate: JsonView) -> Seq<JsonView> {
    match value_at(candidate, "content"@) {
        Some(content) => items_at(content, "parts"@),
        None => Seq::empty(),
    }
}

/// Whether a value can be a candidate.
pub open spec fn candidate_ok(v: JsonView) -> bool {
    &&& v is Object
    &&& text_ok(v, "finishReason"@)
    &&& text_ok(v, "finishMessage"@)
    &&& match value_at(v, "content"@) {
        Some(c) => c is Object && list_ok(c, "parts"@),
        None => true,
    }
    &&& forall|i: int| 0 <= i < parts_of(v).len() ==> part_ok(#[trigger] parts_of(v)[i])
}

/// Whether a value can be a usage report.
pub open spec fn usage_ok(v: JsonView) -> bool {
    &&& v is Object
    &&& count_ok(v, "promptTokenCount"@)
    &&& count_ok(v, "candidatesTokenCount"@)
    &&& count_ok(v, "totalTokenCount"@)
    &&& count_ok(v, "thoughtsTokenCount"@)
    &&& count_ok(v, "cachedContentTokenCount"@)
    &&& count_ok(v, "toolUsePromptTokenCount"@)
}

/// Whether a value can be a Google RPC status.
pub open spec fn status_ok(v: JsonView) -> bool {
    &&& v is Object
    &&& count_ok(v, "code"@)
    &&& count_at(v, "code"@) is Some ==> count_at(v, "code"@)->0 <= u16::MAX
    &&& text_ok(v, "message"@)
    &&& text_ok(v, "status"@)
    &&& items_ok(v, "details"@)
}

/// Whether a value can be a response, apart from its candidates.
pub open spec fn frame_ok(v: JsonView) -> bool {
    &&& v is Object
    &&& text_ok(v, "modelVersion"@)
    &&& text_ok(v, "responseId"@)
    &&& match value_at(v, "error"@) {
        Some(e) => status_ok(e),
        None => true,
    }
    &&& match value_at(v, "promptFeedback"@) {
        Some(f) => f is Object && text_ok(f, "blockReason"@),
        None => true,
    }
    &&& match value_at(v, "usageMetadata"@) {
        Some(u) => usage_ok(u),
        None => true,
    }
}

/// Whether a value can be a response.
pub open spec fn response_ok(v: JsonView) -> bool {
    &&& frame_ok(v)
    &&& list_ok(v, "candidates"@)
    &&& forall|i: int|
        0 <= i < items_at(v, "candidates"@).len() ==> candidate_ok(
            #[trigger] items_at(v, "candidates"@)[i],
        )
}

fn may_be_part(v: &Json) -> (r: bool)
    ensures
        r == part_ok(v@),
{
    let call_fits: bool = match wire::value(v, "functionCall") {
        Some(f) => matches!(f, Json::Object(_)) && wire::may_be_text(f, "id")
            && wire::may_be_text(f, "name"),
        None => true,
    };
    matches!(v, Json::Object(_)) && wire::may_be_text(v, "text") && wire::may_be_flag(
        v,
        "thought",
    ) && wire::may_be_text(v, "thoughtSignature") && call_fits
}

/// The parts of a candidate.
pub fn parts(candidate: &Json) -> (r: Option<&Vec<Json>>)
    ensures
        match r {
            Some(list) => parts_of(candidate@) == views(list@),
            None => parts_of(candidate@) == Seq::<JsonView>::empty(),
        },
{
    match wire::value(candidate, "content") {
        Some(content) => wire::list(content, "parts"),
        None => None,
    }
}

fn may_be_candidate(v: &Json) -> (r: bool)
    ensures
        r == candidate_ok(v@),
{
    let content_fits: bool = match wire::value(v, "content") {
        Some(c) => matches!(c, Json::Object(_)) && wire::may_be_list(c, "parts"),
        None => true,
    };
    if !(matches!(v, Json::Object(_)) && wire::may_be_text(v, "finishReason") && wire::may_be_text(
        v,
        "finishMessage",
    ) && content_fits) {
        return false;
    }
    let list: &Vec<Json> = match parts(v) {
        Some(list) => list,
        None => return true,
    };
    let mut i: usize = 0;
    while i < list.len()
        invariant
            i <= list@.len(),
            parts_of(v@) == views(list@),
            forall|k: int| 0 <= k < i ==> part_ok(#[trigger] parts_of(v@)[k]),
        decreases list@.len() - i,
    {
        assert(parts_of(v@)[i as int] == list@[i as int]@);
        if !may_be_part(&list[i]) {
            return false;
        }
        i += 1;
    }
    true
}

fn may_be_usage(v: &Json) -> (r: bool)
    ensures
        r == usage_ok(v@),
{
    matches!(v, Json::Object(_)) && wire::may_be_count(v, "promptTokenCount")
        && wire::may_be_count(v, "candidatesTokenCount") && wire::may_be_count(
        v,
        "totalTokenCount",
    ) && wire::may_be_count(v, "thoughtsTokenCount") && wire::may_be_count(
        v,
        "cachedContentTokenCount",
    ) && wire::may_be_count(v, "toolUsePromptTokenCount")
}

fn may_be_status(v: &Json) -> (r: bool)
    ensures
        r == status_ok(v@),
{
    let code_fits: bool = match wire::count(v, "code") {
        Some(code) => code <= 65535,
        None => true,
    };
    matches!(v, Json::Object(_)) && wire::may_be_count(v, "code") && code_fits
        && wire::may_be_text(v, "message") && wire::may_be_text(v, "status") && wire::may_be_items(
        v,
        "details",
    )
}

fn may_be_frame(v: &Json) -> (r: bool)
    ensures
        r == frame_ok(v@),
{
    let error_fits: bool = match wire::value(v, "error") {
        Some(e) => may_be_status(e),
        None => true,
    };
    let feedback_fits: bool = match wire::value(v, "promptFeedback") {
        Some(f) => matches!(f, Json::Object(_)) && wire::may_be_text(f, "blockReason"),
        None => true,
    };
    let usage_fits: bool = match wire::value(v, "usageMetadata") {
        Some(u) => may_be_usage(u),
        None => true,
    };
    matches!(v, Json::Object(_)) && wire::may_be_text(v, "modelVersion") && wire::may_be_text(
        v,
        "responseId",
    ) && error_fits && feedback_fits && usage_fits
}

/// Whether a value can be a response.
pub fn may_be_response(v: &Json) -> (r: bool)
    ensures
        r == response_ok(v@),
{
    if !may_be_frame(v) || !wire::may_be_list(v, "candidates") {
        return false;
    }
    let list: &Vec<Json> = match wire::list(v, "candidates") {
        Some(list) => list,
        None => return true,
    };
    let mut i: usize = 0;
    while i < list.len()
        invariant
            i <= list@.len(),
            items_at(v@, "candidates"@) == views(list@),
            forall|k: int|
                0 <= k < i ==> candidate_ok(#[trigger] items_at(v@, "candidates"@)[k]),
        decreases list@.len() - i,
    {
        assert(items_at(v@, "candidates"@)[i as int] == list@[i as int]@);
        if !may_be_candidate(&list[i]) {
            return false;
        }
        i += 1;
    }
    true
}

// ---------------------------------------------------------------------------
// Usage
// ---------------------------------------------------------------------------

/// The token counts that Gemini reports.
#[derive(Debug, Clone, Copy)]
pub struct UsageMetadata {
    pub prompt_token_count: Option<u64>,
    pub candidates_token_count: Option<u64>,
    pub total_token_count: Option<u64>,
    pub thoughts_token_count: Option<u64>,
    pub cached_content_token_count: Option<u64>,
    pub tool_use_prompt_token_count: Option<u64>,
}

/// The counts in a report.
pub open spec fn reported(v: JsonView) -> UsageMetadata {
    UsageMetadata {
        prompt_token_count: count_at(v, "promptTokenCount"@),
        candidates_token_count: count_at(v, "candidatesTokenCount"@),
        total_token_count: count_at(v, "totalTokenCount"@),
        thoughts_token_count: count_at(v, "thoughtsTokenCount"@),
        cached_content_token_count: count_at(v, "cachedContentTokenCount"@),
        tool_use_prompt_token_count: count_at(v, "toolUsePromptTokenCount"@),
    }
}

impl Default for UsageMetadata {
    fn default() -> (r: UsageMetadata)
        ensures
            r == (UsageMetadata {
                prompt_token_count: None,
                candidates_token_count: None,
                total_token_count: None,
                thoughts_token_count: None,
                cached_content_token_count: None,
                tool_use_prompt_token_count: None,
            }),
    {
        UsageMetadata {
            prompt_token_count: None,
            candidates_token_count: None,
            total_token_count: None,
            thoughts_token_count: None,
            cached_content_token_count: None,
            tool_use_prompt_token_count: None,
        }
    }
}

impl UsageMetadata {
    /// The usage that the counts stand for. Gemini excludes thinking tokens from
    /// its candidate count and includes cached content in its prompt count.
    pub open spec fn usage(self) -> Usage {
        Usage {
            tool_use_prompt_tokens: self.tool_use_prompt_token_count,
            ..normalized_usage(
                self.prompt_token_count,
                sum_of(self.candidates_token_count, self.thoughts_token_count),
                self.total_token_count,
                self.cached_content_token_count,
                None,
                self.thoughts_token_count,
            )
        }
    }

    /// The counts in a report.
    pub fn read(v: &Json) -> (r: UsageMetadata)
        ensures
            r == reported(v@),
    {
        UsageMetadata {
            prompt_token_count: wire::count(v, "promptTokenCount"),
            candidates_token_count: wire::count(v, "candidatesTokenCount"),
            total_token_count: wire::count(v, "totalTokenCount"),
            thoughts_token_count: wire::count(v, "thoughtsTokenCount"),
            cached_content_token_count: wire::count(v, "cachedContentTokenCount"),
            tool_use_prompt_token_count: wire::count(v, "toolUsePromptTokenCount"),
        }
    }

    /// The usage that the counts stand for.
    pub fn to_usage(&self) -> (r: Usage)
        ensures
            r == self.usage(),
    {
        reveal(sum_of);
        let output_tokens: Option<u64> = match (
            self.candidates_token_count,
            self.thoughts_token_count,
        ) {
            (Some(candidates), Some(thoughts)) => Some(candidates.saturating_add(thoughts)),
            (Some(candidates), None) => Some(candidates),
            (None, Some(thoughts)) => Some(thoughts),
            (None, None) => None,
        };
        let mut usage: Usage = normalize_usage(
            self.prompt_token_count,
            output_tokens,
            self.total_token_count,
            self.cached_content_token_count,
            None,
            self.thoughts_token_count,
        );
        usage.tool_use_prompt_tokens = self.tool_use_prompt_token_count;
        usage
    }
}

// ---------------------------------------------------------------------------
// Extras
// ---------------------------------------------------------------------------

/// An extra in the `gemini` namespace.
pub open spec fn gemini_member(key: Seq<char>, value: JsonView) -> MetadataView {
    no_metadata().insert("gemini"@, JsonView::Object(no_members().insert(key, value)))
}

/// The extras of a part with a thought signature.
pub open spec fn signature_extras(signature: Seq<char>) -> MetadataView {
    gemini_member(SIGNATURE_KEY@, JsonView::String(signature))
}

/// The extras of a part that may have a thought signature.
pub open spec fn signed_extras(signature: Option<Seq<char>>) -> MetadataView {
    match signature {
        Some(signature) => signature_extras(signature),
        None => no_metadata(),
    }
}

/// The extras of a candidate's safety ratings.
pub open spec fn safety_extras(candidate: JsonView) -> Option<MetadataView> {
    let ratings = value_at(candidate, "safetyRatings"@);
    let message = text_at(candidate, "finishMessage"@);
    if ratings is None && message is None {
        None
    } else {
        Some(
            no_metadata().insert(
                "gemini"@,
                JsonView::Object(
                    with_member(
                        with_member(no_members(), "safetyRatings"@, ratings),
                        "finishMessage"@,
                        text_value(message),
                    ),
                ),
            ),
        )
    }
}

/// The extras of feedback on the prompt.
pub open spec fn feedback_extras(feedback: JsonView) -> MetadataView {
    gemini_member(
        "promptFeedback"@,
        JsonView::Object(
            with_member(
                with_member(
                    no_members(),
                    "blockReason"@,
                    text_value(text_at(feedback, "blockReason"@)),
                ),
                "safetyRatings"@,
                value_at(feedback, "safetyRatings"@),
            ),
        ),
    )
}

/// An extra in the `gemini` namespace.
pub fn gemini_metadata(key: &str, value: Json) -> (r: ProviderMetadata)
    ensures
        r@ == gemini_member(key@, value@),
{
    ProviderMetadata::with("gemini", Json::Object(JsonObject::new().put(key, value)))
}

/// The extras of a part with a thought signature.
pub fn signature_metadata(signature: &str) -> (r: ProviderMetadata)
    ensures
        r@ == signature_extras(signature@),
{
    gemini_metadata(SIGNATURE_KEY, Json::text(signature))
}

fn signed_metadata(signature: Option<&str>) -> (r: ProviderMetadata)
    ensures
        r@ == signed_extras(opt(signature)),
{
    match signature {
        Some(signature) => signature_metadata(signature),
        None => ProviderMetadata::new(),
    }
}

fn cloned(v: Option<&Json>) -> (r: Option<Json>)
    ensures
        opt(r) == opt(v),
{
    match v {
        Some(v) => Some(v.clone()),
        None => None,
    }
}

/// The extras of a candidate's safety ratings.
pub fn safety_metadata(candidate: &Json) -> (r: Option<ProviderMetadata>)
    ensures
        opt(r) == safety_extras(candidate@),
{
    let ratings: Option<&Json> = wire::value(candidate, "safetyRatings");
    let message: Option<&str> = wire::text(candidate, "finishMessage");
    if ratings.is_none() && message.is_none() {
        return None;
    }
    let metadata: JsonObject = JsonObject::new().put_opt("safetyRatings", cloned(ratings)).put_opt(
        "finishMessage",
        Json::text_opt(message),
    );
    Some(ProviderMetadata::with("gemini", Json::Object(metadata)))
}

/// The extras of feedback on the prompt.
pub fn feedback_metadata(feedback: &Json) -> (r: ProviderMetadata)
    ensures
        r@ == feedback_extras(feedback@),
{
    let members: JsonObject = JsonObject::new().put_opt(
        "blockReason",
        Json::text_opt(wire::text(feedback, "blockReason")),
    ).put_opt("safetyRatings", cloned(wire::value(feedback, "safetyRatings")));
    gemini_metadata("promptFeedback", Json::Object(members))
}

// ---------------------------------------------------------------------------
// Parts
// ---------------------------------------------------------------------------

/// The id that a call without one gets.
pub open spec fn synthetic_id(ids: Seq<Seq<char>>, i: int) -> Seq<char> {
    "call_"@ + if 0 <= i < ids.len() {
        ids[i]
    } else {
        Seq::empty()
    }
}

/// The tool call of a `functionCall` part. Gemini may omit call ids, so one is
/// synthesized. The provider id, when present, doubles as item and call id for
/// replay.
pub open spec fn function_call(part: JsonView, call: JsonView, synthetic: Seq<char>) -> ToolCallView {
    let provider_id = filled(text_at(call, "id"@));
    ToolCallView {
        call_id: match provider_id {
            Some(id) => id,
            None => synthetic,
        },
        item_id: provider_id,
        provider_call_id: provider_id,
        name: tag_at(call, "name"@),
        arguments: match value_at(call, "args"@) {
            Some(arguments) => json_text(arguments),
            None => "{}"@,
        },
        provider_metadata: signed_extras(text_at(part, "thoughtSignature"@)),
    }
}

/// What the parts so far decode to.
#[verifier::ext_equal]
pub struct Parts {
    pub content: Seq<AssistantPartView>,
    pub thoughts: Seq<ReasoningContentView>,
    pub extras: MetadataView,
}

/// The parts with the thoughts that came last as a part of their own.
pub open spec fn flushed(p: Parts) -> Parts {
    if p.thoughts.len() == 0 && p.extras == no_metadata() {
        p
    } else {
        Parts {
            content: p.content.push(
                AssistantPartView::Reasoning(
                    ReasoningPartView {
                        id: None,
                        content: p.thoughts,
                        provider_metadata: p.extras,
                    },
                ),
            ),
            thoughts: Seq::empty(),
            extras: no_metadata(),
        }
    }
}

/// The text part of a part that is neither a thought nor a call. Gemini
/// requires standalone thought signatures on replay.
pub open spec fn text_of(part: JsonView) -> Option<AssistantPartView> {
    let signature = text_at(part, "thoughtSignature"@);
    match text_at(part, "text"@) {
        Some(text) => if text.len() == 0 && signature is None {
            None
        } else {
            Some(AssistantPartView::Text { text, provider_metadata: signed_extras(signature) })
        },
        None => match signature {
            Some(signature) => Some(
                AssistantPartView::Text {
                    text: Seq::empty(),
                    provider_metadata: signature_extras(signature),
                },
            ),
            None => None,
        },
    }
}

/// Whether a part is a thought.
pub open spec fn is_thought(part: JsonView) -> bool {
    flag_at(part, "thought"@) == Some(true)
}

/// The parts with one more.
pub open spec fn with_part(p: Parts, part: JsonView, synthetic: Seq<char>) -> Parts {
    if is_thought(part) {
        Parts {
            content: p.content,
            thoughts: match text_at(part, "text"@) {
                Some(text) => p.thoughts.push(ReasoningContentView::Summary { text }),
                None => p.thoughts,
            },
            extras: match text_at(part, "thoughtSignature"@) {
                Some(signature) => merge_objects(p.extras, signature_extras(signature)),
                None => p.extras,
            },
        }
    } else {
        let f = flushed(p);
        match value_at(part, "functionCall"@) {
            Some(call) => Parts {
                content: f.content.push(
                    AssistantPartView::ToolCall(function_call(part, call, synthetic)),
                ),
                ..f
            },
            None => match text_of(part) {
                Some(text) => Parts { content: f.content.push(text), ..f },
                None => f,
            },
        }
    }
}

/// What the first `n` parts decode to.
pub open spec fn parts_upto(parts: Seq<JsonView>, ids: Seq<Seq<char>>, n: int) -> Parts
    decreases n,
{
    if n <= 0 {
        Parts { content: Seq::empty(), thoughts: Seq::empty(), extras: no_metadata() }
    } else {
        with_part(parts_upto(parts, ids, n - 1), parts[n - 1], synthetic_id(ids, n - 1))
    }
}

/// The content that parts decode to.
pub open spec fn content_of(parts: Seq<JsonView>, ids: Seq<Seq<char>>) -> Seq<AssistantPartView> {
    flushed(parts_upto(parts, ids, parts.len() as int)).content
}

/// Whether every call among some parts has an id of its own.
pub open spec fn identified(parts: Seq<JsonView>) -> bool {
    forall|i: int|
        0 <= i < parts.len() ==> (value_at(#[trigger] parts[i], "functionCall"@) matches Some(call)
            ==> filled(text_at(call, "id"@)) is Some)
}

proof fn lemma_identified(parts: Seq<JsonView>, a: Seq<Seq<char>>, b: Seq<Seq<char>>, n: int)
    requires
        identified(parts),
        n <= parts.len(),
    ensures
        parts_upto(parts, a, n) == parts_upto(parts, b, n),
    decreases n,
{
    if n > 0 {
        lemma_identified(parts, a, b, n - 1);
        let part = parts[n - 1];
        assert(value_at(part, "functionCall"@) matches Some(call) ==> filled(
            text_at(call, "id"@),
        ) is Some);
    }
}

/// Where every call came with an id, the content does not depend on the
/// synthetic ones.
pub proof fn provider_ids_are_kept(parts: Seq<JsonView>, a: Seq<Seq<char>>, b: Seq<Seq<char>>)
    requires
        identified(parts),
    ensures
        content_of(parts, a) == content_of(parts, b),
{
    lemma_identified(parts, a, b, parts.len() as int);
}

/// The id that a call without one gets.
pub fn synthesized(ids: &Vec<String>, i: usize) -> (r: String)
    ensures
        r@ == synthetic_id(views(ids@), i as int),
{
    assert(views(ids@).len() == ids@.len());
    if i < ids.len() {
        assert(views(ids@)[i as int] == ids@[i as int]@);
        cat("call_", ids[i].as_str())
    } else {
        let r: String = "call_".to_owned();
        assert("call_"@ + Seq::<char>::empty() =~= "call_"@);
        r
    }
}

/// Build the tool call for a `functionCall` part.
pub fn decode_function_call(part: &Json, call: &Json, synthetic: &str) -> (r: ToolCall)
    ensures
        r@ == function_call(part@, call@, synthetic@),
{
    let provider_id: Option<String> = wire::unless_empty(wire::text(call, "id"));
    let call_id: String = match &provider_id {
        Some(id) => id.clone(),
        None => synthetic.to_owned(),
    };
    let arguments: String = match wire::value(call, "args") {
        Some(arguments) => arguments.to_text(),
        None => "{}".to_owned(),
    };
    ToolCall {
        call_id,
        item_id: provider_id.clone(),
        provider_call_id: provider_id,
        name: wire::tag(call, "name").to_owned(),
        arguments,
        provider_metadata: signed_metadata(wire::text(part, "thoughtSignature")),
    }
}

/// What the parts so far decode to.
struct PartDecoding {
    content: Vec<AssistantPart>,
    thoughts: Vec<ReasoningContent>,
    extras: ProviderMetadata,
}

impl View for PartDecoding {
    type V = Parts;

    closed spec fn view(&self) -> Parts {
        Parts {
            content: views(self.content@),
            thoughts: views(self.thoughts@),
            extras: self.extras@,
        }
    }
}

fn text_part(part: &Json) -> (r: Option<AssistantPart>)
    ensures
        opt(r) == text_of(part@),
{
    let signature: Option<&str> = wire::text(part, "thoughtSignature");
    match wire::text(part, "text") {
        Some(text) => {
            if text.is_empty() && signature.is_none() {
                return None;
            }
            Some(
                AssistantPart::Text {
                    text: text.to_owned(),
                    provider_metadata: signed_metadata(signature),
                },
            )
        },
        None => match signature {
            Some(signature) => Some(
                AssistantPart::Text {
                    text: String::new(),
                    provider_metadata: signature_metadata(signature),
                },
            ),
            None => None,
        },
    }
}

impl PartDecoding {
    fn flush_thoughts(&mut self)
        ensures
            final(self)@ == flushed(old(self)@),
    {
        assert(self@.thoughts.len() == self.thoughts@.len());
        if self.thoughts.len() == 0 && self.extras.is_empty() {
            return;
        }
        let mut content: Vec<ReasoningContent> = Vec::new();
        std::mem::swap(&mut content, &mut self.thoughts);
        let mut provider_metadata: ProviderMetadata = ProviderMetadata::new();
        std::mem::swap(&mut provider_metadata, &mut self.extras);
        self.content.push(
            AssistantPart::Reasoning(ReasoningPart { id: None, content, provider_metadata }),
        );
        assert(self@ =~= flushed(old(self)@));
    }

    fn decode_part(&mut self, part: &Json, synthetic: &str)
        ensures
            final(self)@ == with_part(old(self)@, part@, synthetic@),
    {
        if wire::flag(part, "thought") == Some(true) {
            if let Some(text) = wire::text(part, "text") {
                self.thoughts.push(ReasoningContent::Summary { text: text.to_owned() });
            }
            if let Some(signature) = wire::text(part, "thoughtSignature") {
                let mut extras: ProviderMetadata = ProviderMetadata::new();
                std::mem::swap(&mut extras, &mut self.extras);
                extras.merge(signature_metadata(signature));
                self.extras = extras;
            }
            assert(self@ =~= with_part(old(self)@, part@, synthetic@));
            return;
        }
        self.flush_thoughts();
        if let Some(call) = wire::value(part, "functionCall") {
            self.content.push(
                AssistantPart::ToolCall(decode_function_call(part, call, synthetic)),
            );
        } else if let Some(text) = text_part(part) {
            self.content.push(text);
        }
        assert(self@ =~= with_part(old(self)@, part@, synthetic@));
    }
}

fn decode_parts(list: &Vec<Json>, ids: &Vec<String>) -> (r: Vec<AssistantPart>)
    ensures
        views(r@) == content_of(views(list@), views(ids@)),
{
    let ghost all = views(list@);
    let mut p: PartDecoding = PartDecoding {
        content: Vec::new(),
        thoughts: Vec::new(),
        extras: ProviderMetadata::new(),
    };
    assert(p@ =~= parts_upto(all, views(ids@), 0));
    let mut i: usize = 0;
    while i < list.len()
        invariant
            i <= list@.len(),
            all == views(list@),
            p@ == parts_upto(all, views(ids@), i as int),
        decreases list@.len() - i,
    {
        assert(all[i as int] == list@[i as int]@);
        let id: String = synthesized(ids, i);
        p.decode_part(&list[i], id.as_str());
        i += 1;
    }
    assert(all.len() == list@.len());
    p.flush_thoughts();
    p.content
}

// ---------------------------------------------------------------------------
// Finish reasons
// ---------------------------------------------------------------------------

/// The finish reason that a reported one stands for.
pub open spec fn reason_of(reason: Seq<char>) -> FinishReason {
    if reason == "STOP"@ {
        FinishReason::Stop
    } else if reason == "MAX_TOKENS"@ {
        FinishReason::Length
    } else if reason == "SAFETY"@ || reason == "RECITATION"@ || reason == "BLOCKLIST"@ || reason
        == "PROHIBITED_CONTENT"@ || reason == "SPII"@ || reason == "IMAGE_SAFETY"@ || reason
        == "IMAGE_PROHIBITED_CONTENT"@ || reason == "ESCALATION"@ {
        FinishReason::ContentFilter
    } else if reason == "MALFORMED_FUNCTION_CALL"@ || reason == "MISSING_THOUGHT_SIGNATURE"@
        || reason == "MALFORMED_RESPONSE"@ {
        FinishReason::Error
    } else {
        FinishReason::Other
    }
}

/// The finish that a reported reason stands for.
pub open spec fn finish_of(reason: Option<Seq<char>>) -> FinishView {
    match reason {
        Some(reason) => FinishView { reason: reason_of(reason), raw: Some(reason) },
        None => FinishView { reason: FinishReason::Stop, raw: None },
    }
}

/// The finish that a reported reason stands for.
pub fn finish_from_reason(reason: Option<&str>) -> (r: Finish)
    ensures
        r@ == finish_of(opt(reason)),
{
    let reason: &str = match reason {
        Some(reason) => reason,
        None => return Finish::new(FinishReason::Stop),
    };
    let mapped: FinishReason = if same(reason, "STOP") {
        FinishReason::Stop
    } else if same(reason, "MAX_TOKENS") {
        FinishReason::Length
    } else if same(reason, "SAFETY") || same(reason, "RECITATION") || same(reason, "BLOCKLIST")
        || same(reason, "PROHIBITED_CONTENT") || same(reason, "SPII") || same(
        reason,
        "IMAGE_SAFETY",
    ) || same(reason, "IMAGE_PROHIBITED_CONTENT") || same(reason, "ESCALATION") {
        FinishReason::ContentFilter
    } else if same(reason, "MALFORMED_FUNCTION_CALL") || same(reason, "MISSING_THOUGHT_SIGNATURE")
        || same(reason, "MALFORMED_RESPONSE") {
        FinishReason::Error
    } else {
        FinishReason::Other
    };
    Finish::with_raw(mapped, reason)
}

/// The error for a candidate that finished with an error reason.
pub open spec fn finish_failure(finish: FinishView) -> ErrorView {
    new_error(
        ErrorKind::Provider,
        "gemini ended the response with "@ + match finish.raw {
            Some(raw) => raw,
            None => "an error finish reason"@,
        },
    ).with_origin(ApiProfile::GeminiGenerateContent.text())
}

/// The error for a candidate that finished with an error reason.
pub fn error_finish_error(finish: &Finish) -> (r: Error)
    ensures
        r@ == finish_failure(finish@),
{
    let raw: &str = match &finish.raw {
        Some(raw) => raw.as_str(),
        None => "an error finish reason",
    };
    Error::new(
        ErrorKind::Provider,
        cat("gemini ended the response with ", raw).as_str(),
    ).with_origin(ApiProfile::GeminiGenerateContent.as_str())
}

// ---------------------------------------------------------------------------
// Errors
// ---------------------------------------------------------------------------

/// The whole seconds and nanoseconds of a number of seconds in decimal
/// notation, where it is one that a duration can be.
pub uninterp spec fn seconds_of(text: Seq<char>) -> Option<(u64, u32)>;

/// `std::time::Duration::try_from_secs_f64` on a number in decimal notation:
/// the whole seconds and the nanoseconds of the duration, or nothing where the
/// text is no number or no duration is that long. The result is a function of
/// the text.
#[verifier::external_body]
fn parse_seconds(text: &str) -> (r: Option<(u64, u32)>)
    ensures
        r == seconds_of(text@),
{
    let duration = std::time::Duration::try_from_secs_f64(text.parse().ok()?).ok()?;
    Some((duration.as_secs(), duration.subsec_nanos()))
}

pub const ERROR_INFO: &'static str = "type.googleapis.com/google.rpc.ErrorInfo";

pub const RETRY_INFO: &'static str = "type.googleapis.com/google.rpc.RetryInfo";

/// A text of the first of some details that has a type and that text.
pub open spec fn detail_text(
    details: Seq<JsonView>,
    detail_type: Seq<char>,
    key: Seq<char>,
) -> Option<Seq<char>>
    decreases details.len(),
{
    if details.len() == 0 {
        None
    } else if text_at(details[0], "@type"@) == Some(detail_type) && text_at(
        details[0],
        key,
    ) is Some {
        text_at(details[0], key)
    } else {
        detail_text(details.skip(1), detail_type, key)
    }
}

/// A delay in its notation: a number of seconds and an `s`.
pub open spec fn delay_of(text: Seq<char>) -> Option<Delay> {
    if text.len() > 0 && text.last() == 's' {
        match seconds_of(text.drop_last()) {
            Some((secs, nanos)) => Some(Delay { secs, nanos }),
            None => None,
        }
    } else {
        None
    }
}

/// The delay that a delay of a number of seconds is.
pub fn delay_from(seconds: Option<(u64, u32)>) -> (r: Option<Delay>)
    ensures
        r == match seconds {
            Some((secs, nanos)) => Some(Delay { secs, nanos }),
            None => None,
        },
{
    match seconds {
        Some((secs, nanos)) => Some(Delay { secs, nanos }),
        None => None,
    }
}

/// Why a Google RPC status failed.
pub open spec fn status_reason(v: JsonView) -> Option<Seq<char>> {
    detail_text(items_at(v, "details"@), ERROR_INFO@, "reason"@)
}

/// How long to wait before trying again.
pub open spec fn status_delay(v: JsonView) -> Option<Delay> {
    match detail_text(items_at(v, "details"@), RETRY_INFO@, "retryDelay"@) {
        Some(text) => delay_of(text),
        None => None,
    }
}

/// The HTTP status that a status stands for.
pub open spec fn status_code(v: JsonView, http_status: Option<u16>) -> Option<u16> {
    match http_status {
        Some(status) => Some(status),
        None => match count_at(v, "code"@) {
            Some(code) => Some(code as u16),
            None => None,
        },
    }
}

/// The kind of failure that a status is.
pub open spec fn rpc_kind(
    status: Option<Seq<char>>,
    reason: Option<Seq<char>>,
    code: Option<u16>,
) -> ErrorKind {
    if status == Some("UNAUTHENTICATED"@) {
        ErrorKind::Authentication
    } else if status == Some("PERMISSION_DENIED"@) {
        if reason == Some("API_KEY_INVALID"@) {
            ErrorKind::Authentication
        } else {
            ErrorKind::Permission
        }
    } else if status == Some("INVALID_ARGUMENT"@) {
        if reason == Some("API_KEY_INVALID"@) {
            ErrorKind::Authentication
        } else {
            ErrorKind::InvalidRequest
        }
    } else if status == Some("FAILED_PRECONDITION"@) {
        ErrorKind::Permission
    } else if status == Some("NOT_FOUND"@) {
        ErrorKind::NotFound
    } else if status == Some("RESOURCE_EXHAUSTED"@) {
        ErrorKind::RateLimited
    } else if status == Some("UNAVAILABLE"@) {
        ErrorKind::Overloaded
    } else if status == Some("DEADLINE_EXCEEDED"@) {
        ErrorKind::Timeout
    } else if status == Some("INTERNAL"@) {
        ErrorKind::Provider
    } else {
        match code {
            Some(code) => status_kind(code),
            None => ErrorKind::Provider,
        }
    }
}

/// The error that a status reports, with how long to wait.
pub open spec fn status_error(
    v: JsonView,
    http_status: Option<u16>,
    delay: Option<Delay>,
) -> ErrorView {
    let code = status_code(v, http_status);
    let status = text_at(v, "status"@);
    let reason = status_reason(v);
    let message = match filled(text_at(v, "message"@)) {
        Some(message) => message,
        None => "gemini returned an error"@,
    };
    let base = new_error(
        policy_kind(either(reason, status), rpc_kind(status, reason, code)),
        message,
    ).with_origin(ApiProfile::GeminiGenerateContent.text());
    let placed = match code {
        Some(code) => base.with_status(code),
        None => base,
    };
    let coded = placed.with_code_opt(either(status, reason));
    match delay {
        Some(delay) => coded.with_retry_after(delay),
        None => coded,
    }
}

/// The error that a status reports. `http_status` is the transport status when
/// the envelope arrived as an HTTP error body; mid-stream frames rely on the
/// envelope's own code instead.
pub open spec fn rpc_error(v: JsonView, http_status: Option<u16>) -> ErrorView {
    status_error(v, http_status, status_delay(v))
}

fn find_detail<'a>(v: &'a Json, detail_type: &str, key: &str) -> (r: Option<&'a str>)
    ensures
        opt(r) == detail_text(items_at(v@, "details"@), detail_type@, key@),
{
    let details: &Vec<Json> = match wire::list(v, "details") {
        Some(details) => details,
        None => return None,
    };
    let ghost all = views(details@);
    assert(all.len() == details@.len());
    let mut i: usize = 0;
    assert(all.skip(0) =~= all);
    while i < details.len()
        invariant
            i <= details@.len(),
            all == views(details@),
            all.len() == details@.len(),
            items_at(v@, "details"@) == all,
            detail_text(all, detail_type@, key@) == detail_text(
                all.skip(i as int),
                detail_type@,
                key@,
            ),
        decreases details@.len() - i,
    {
        assert(all[i as int] == details@[i as int]@);
        assert(all.skip(i as int)[0] == all[i as int]);
        assert(all.skip(i as int).skip(1) =~= all.skip(i + 1));
        let detail: &Json = &details[i];
        if text_is(wire::text(detail, "@type"), detail_type) {
            if let Some(text) = wire::text(detail, key) {
                return Some(text);
            }
        }
        i += 1;
    }
    None
}

fn retry_delay(v: &Json) -> (r: Option<Delay>)
    ensures
        r == status_delay(v@),
{
    match find_detail(v, RETRY_INFO, "retryDelay") {
        Some(text) => {
            let n: usize = text.unicode_len();
            if n > 0 && text.get_char(n - 1) == 's' {
                let seconds: String = part(text, 0, n - 1);
                assert(seconds@ =~= text@.drop_last());
                delay_from(parse_seconds(seconds.as_str()))
            } else {
                None
            }
        },
        None => None,
    }
}

fn kind_of(status: Option<&str>, reason: Option<&str>, code: Option<u16>) -> (r: ErrorKind)
    ensures
        r == rpc_kind(opt(status), opt(reason), code),
{
    if text_is(status, "UNAUTHENTICATED") {
        ErrorKind::Authentication
    } else if text_is(status, "PERMISSION_DENIED") {
        if text_is(reason, "API_KEY_INVALID") {
            ErrorKind::Authentication
        } else {
            ErrorKind::Permission
        }
    } else if text_is(status, "INVALID_ARGUMENT") {
        if text_is(reason, "API_KEY_INVALID") {
            ErrorKind::Authentication
        } else {
            ErrorKind::InvalidRequest
        }
    } else if text_is(status, "FAILED_PRECONDITION") {
        ErrorKind::Permission
    } else if text_is(status, "NOT_FOUND") {
        ErrorKind::NotFound
    } else if text_is(status, "RESOURCE_EXHAUSTED") {
        ErrorKind::RateLimited
    } else if text_is(status, "UNAVAILABLE") {
        ErrorKind::Overloaded
    } else if text_is(status, "DEADLINE_EXCEEDED") {
        ErrorKind::Timeout
    } else if text_is(status, "INTERNAL") {
        ErrorKind::Provider
    } else {
        match code {
            Some(code) => error_kind_for_status(code),
            None => ErrorKind::Provider,
        }
    }
}

/// Classify and describe the failure of a status, with how long to wait.
pub fn error_with_delay(v: &Json, http_status: Option<u16>, delay: Option<Delay>) -> (r: Error)
    requires
        status_ok(v@),
    ensures
        r@ == status_error(v@, http_status, delay),
{
    let code: Option<u16> = match http_status {
        Some(status) => Some(status),
        None => match wire::count(v, "code") {
            Some(code) => Some(code as u16),
            None => None,
        },
    };
    let status: Option<&str> = wire::text(v, "status");
    let reason: Option<&str> = find_detail(v, ERROR_INFO, "reason");
    let policy: Option<&str> = match reason {
        Some(reason) => Some(reason),
        None => status,
    };
    let kind: ErrorKind = content_policy_kind(policy, kind_of(status, reason, code));
    let message: String = match wire::unless_empty(wire::text(v, "message")) {
        Some(message) => message,
        None => "gemini returned an error".to_owned(),
    };
    let mut error: Error = Error::new(kind, message.as_str()).with_origin(
        ApiProfile::GeminiGenerateContent.as_str(),
    );
    if let Some(code) = code {
        error = error.with_status(code);
    }
    let named: Option<&str> = match status {
        Some(status) => Some(status),
        None => reason,
    };
    error = error.with_code_opt(named);
    match delay {
        Some(delay) => error.with_retry_after(delay),
        None => error,
    }
}

/// Classify and describe the failure of a status.
pub fn into_error(v: &Json, http_status: Option<u16>) -> (r: Error)
    requires
        status_ok(v@),
    ensures
        r@ == rpc_error(v@, http_status),
{
    error_with_delay(v, http_status, retry_delay(v))
}

/// The status in an error body.
pub open spec fn envelope_status(body: Seq<u8>) -> Option<JsonView> {
    match json_parse_bytes(body) {
        Ok(v) => match value_at(v, "error"@) {
            Some(e) => if status_ok(e) {
                Some(e)
            } else {
                None
            },
            None => None,
        },
        Err(_) => None,
    }
}

/// The error that an error response reports.
pub open spec fn gemini_error(status: u16, headers: HeadersView, body: Seq<u8>) -> ErrorView {
    enriched(
        match envelope_status(body) {
            Some(e) => rpc_error(e, Some(status)),
            None => fallback_error(ApiProfile::GeminiGenerateContent, status, body),
        },
        status,
        headers,
    )
}

/// Decode an error response.
pub fn decode_gemini_error(
    status: u16,
    headers: &http::HeaderMap<http::HeaderValue>,
    body: &[u8],
) -> (r: Error)
    ensures
        r@ == gemini_error(status, headers_view(*headers), body@),
{
    let error: Error = match Json::parse_bytes(body) {
        Ok(v) => match wire::value(&v, "error") {
            Some(e) => if may_be_status(e) {
                into_error(e, Some(status))
            } else {
                fallback_provider_error(ApiProfile::GeminiGenerateContent, status, body)
            },
            None => fallback_provider_error(ApiProfile::GeminiGenerateContent, status, body),
        },
        Err(_) => fallback_provider_error(ApiProfile::GeminiGenerateContent, status, body),
    };
    enrich_error_from_headers(error, status, headers)
}

// ---------------------------------------------------------------------------
// Responses
// ---------------------------------------------------------------------------

/// The extras with a value of a candidate.
pub open spec fn with_extra(
    extras: MetadataView,
    candidate: JsonView,
    key: Seq<char>,
) -> MetadataView {
    match value_at(candidate, key) {
        Some(value) => merge_objects(extras, gemini_member(key, value)),
        None => extras,
    }
}

/// The extras of a candidate.
pub open spec fn candidate_extras(candidate: JsonView) -> MetadataView {
    let cited = with_extra(
        with_extra(no_metadata(), candidate, "groundingMetadata"@),
        candidate,
        "citationMetadata"@,
    );
    match safety_extras(candidate) {
        Some(more) => merge_objects(cited, more),
        None => cited,
    }
}

/// What a response says before the tool-call policy is applied.
#[verifier::ext_equal]
pub struct Outcome {
    pub content: Seq<AssistantPartView>,
    pub finish: FinishView,
    pub extras: MetadataView,
}

/// The outcome of a response: its first candidate, or else the feedback on the
/// prompt.
pub open spec fn outcome_of(v: JsonView, ids: Seq<Seq<char>>) -> Outcome {
    let candidates = items_at(v, "candidates"@);
    if candidates.len() > 0 {
        Outcome {
            content: content_of(parts_of(candidates[0]), ids),
            finish: finish_of(text_at(candidates[0], "finishReason"@)),
            extras: candidate_extras(candidates[0]),
        }
    } else {
        match value_at(v, "promptFeedback"@) {
            Some(feedback) => Outcome {
                content: Seq::empty(),
                finish: FinishView {
                    reason: FinishReason::ContentFilter,
                    raw: Some(
                        match text_at(feedback, "blockReason"@) {
                            Some(reason) => reason,
                            None => "BLOCKED"@,
                        },
                    ),
                },
                extras: merge_objects(no_metadata(), feedback_extras(feedback)),
            },
            None => Outcome {
                content: Seq::empty(),
                finish: FinishView { reason: FinishReason::Stop, raw: None },
                extras: no_metadata(),
            },
        }
    }
}

/// Whether a response has none of the fields that one has.
pub open spec fn unrecognizable(v: JsonView) -> bool {
    items_at(v, "candidates"@).len() == 0 && value_at(v, "promptFeedback"@) is None && value_at(
        v,
        "usageMetadata"@,
    ) is None && text_at(v, "responseId"@) is None
}

/// The result of a response.
pub open spec fn decoded_response(v: JsonView, ids: Seq<Seq<char>>) -> Result<
    GenerateResultView,
    ErrorView,
> {
    let outcome = outcome_of(v, ids);
    match value_at(v, "error"@) {
        Some(e) => Err(rpc_error(e, None)),
        None => if unrecognizable(v) {
            Err(
                new_error(
                    ErrorKind::MalformedResponse,
                    "gemini: response body has no recognizable fields"@,
                ),
            )
        } else if outcome.finish.reason is Error {
            Err(finish_failure(outcome.finish))
        } else {
            match finalized(outcome.content, outcome.finish, ApiProfile::GeminiGenerateContent) {
                Ok((content, finish)) => Ok(
                    GenerateResultView {
                        content,
                        finish,
                        usage: match value_at(v, "usageMetadata"@) {
                            Some(u) => reported(u).usage(),
                            None => no_usage(),
                        },
                        warnings: Seq::empty(),
                        response: ResponseMetadataView {
                            id: text_at(v, "responseId"@),
                            model: text_at(v, "modelVersion"@),
                            request_id: None,
                        },
                        provider_metadata: outcome.extras,
                    },
                ),
                Err(e) => Err(e),
            }
        },
    }
}

/// The result that a response body holds.
pub open spec fn decoded_body(body: Seq<u8>, ids: Seq<Seq<char>>) -> Result<
    GenerateResultView,
    ErrorView,
> {
    match json_parse_bytes(body) {
        Ok(v) => if response_ok(v) {
            decoded_response(v, ids)
        } else {
            Err(invalid_json(UNEXPECTED_TYPE@))
        },
        Err(e) => Err(invalid_json(e)),
    }
}

/// The failure of a body that is no response.
pub open spec fn invalid_json(reason: Seq<char>) -> ErrorView {
    new_error(ErrorKind::MalformedResponse, "gemini: invalid response JSON: "@ + reason)
}

fn add_extra(extras: &mut ProviderMetadata, candidate: &Json, key: &str)
    ensures
        final(extras)@ == with_extra(old(extras)@, candidate@, key@),
{
    if let Some(value) = wire::value(candidate, key) {
        extras.merge(gemini_metadata(key, value.clone()));
    }
}

fn candidate_metadata(candidate: &Json) -> (r: ProviderMetadata)
    ensures
        r@ == candidate_extras(candidate@),
{
    let mut extras: ProviderMetadata = ProviderMetadata::new();
    add_extra(&mut extras, candidate, "groundingMetadata");
    add_extra(&mut extras, candidate, "citationMetadata");
    if let Some(more) = safety_metadata(candidate) {
        extras.merge(more);
    }
    extras
}

/// The first candidate of a response.
pub fn first_candidate(v: &Json) -> (r: Option<&Json>)
    ensures
        match r {
            Some(c) => items_at(v@, "candidates"@).len() > 0 && items_at(v@, "candidates"@)[0]
                == c@,
            None => items_at(v@, "candidates"@).len() == 0,
        },
{
    match wire::list(v, "candidates") {
        Some(list) => {
            assert(views(list@).len() == list@.len());
            if list.len() > 0 {
                assert(views(list@)[0] == list@[0]@);
                Some(&list[0])
            } else {
                None
            }
        },
        None => None,
    }
}

fn decode_outcome(v: &Json, ids: &Vec<String>) -> (r: (
    Vec<AssistantPart>,
    Finish,
    ProviderMetadata,
))
    ensures
        (Outcome { content: views(r.0@), finish: r.1@, extras: r.2@ }) == outcome_of(
            v@,
            views(ids@),
        ),
{
    if let Some(candidate) = first_candidate(v) {
        let no_parts: Vec<Json> = Vec::new();
        assert(views(no_parts@) =~= Seq::empty());
        let content: Vec<AssistantPart> = match parts(candidate) {
            Some(list) => decode_parts(list, ids),
            None => decode_parts(&no_parts, ids),
        };
        return (
            content,
            finish_from_reason(wire::text(candidate, "finishReason")),
            candidate_metadata(candidate),
        );
    }
    let content: Vec<AssistantPart> = Vec::new();
    assert(views(content@) =~= Seq::empty());
    match wire::value(v, "promptFeedback") {
        Some(feedback) => {
            let raw: &str = match wire::text(feedback, "blockReason") {
                Some(reason) => reason,
                None => "BLOCKED",
            };
            let mut extras: ProviderMetadata = ProviderMetadata::new();
            extras.merge(feedback_metadata(feedback));
            (content, Finish::with_raw(FinishReason::ContentFilter, raw), extras)
        },
        None => (content, Finish::new(FinishReason::Stop), ProviderMetadata::new()),
    }
}

fn is_unrecognizable(v: &Json) -> (r: bool)
    ensures
        r == unrecognizable(v@),
{
    first_candidate(v).is_none() && wire::value(v, "promptFeedback").is_none() && wire::value(
        v,
        "usageMetadata",
    ).is_none() && wire::text(v, "responseId").is_none()
}

/// The result of a response, with ids for the calls that have none.
pub fn decode_response_with(v: &Json, ids: &Vec<String>) -> (r: Result<GenerateResult, Error>)
    requires
        response_ok(v@),
    ensures
        match r {
            Ok(result) => decoded_response(v@, views(ids@)) == Ok::<GenerateResultView, ErrorView>(
                result@,
            ),
            Err(e) => decoded_response(v@, views(ids@)) == Err::<GenerateResultView, ErrorView>(
                e@,
            ),
        },
{
    if let Some(e) = wire::value(v, "error") {
        return Err(into_error(e, None));
    }
    if is_unrecognizable(v) {
        return Err(Error::malformed("gemini: response body has no recognizable fields"));
    }
    let (parts, end, extras) = decode_outcome(v, ids);
    if end.reason == FinishReason::Error {
        return Err(error_finish_error(&end));
    }
    let (content, finish) = match finalize_tool_calls(
        parts,
        end,
        ApiProfile::GeminiGenerateContent,
    ) {
        Ok(done) => done,
        Err(e) => return Err(e),
    };
    let usage: Usage = match wire::value(v, "usageMetadata") {
        Some(u) => UsageMetadata::read(u).to_usage(),
        None => Usage::default(),
    };
    Ok(
        GenerateResult {
            content,
            finish,
            usage,
            warnings: Vec::new(),
            response: ResponseMetadata {
                id: wire::owned_text(v, "responseId"),
                model: wire::owned_text(v, "modelVersion"),
                request_id: None,
            },
            provider_metadata: extras,
        },
    )
}

/// How many calls a response may hold: as many as the first candidate has
/// parts.
pub open spec fn call_slots(v: JsonView) -> nat {
    if items_at(v, "candidates"@).len() > 0 {
        parts_of(items_at(v, "candidates"@)[0]).len()
    } else {
        0
    }
}

/// Whether texts are random ids for the calls of what was parsed, one for each
/// that it may hold.
pub open spec fn are_ids_for(parsed: Result<JsonView, Seq<char>>, ids: Seq<Seq<char>>) -> bool {
    are_simple_uuids(ids) && match parsed {
        Ok(v) => ids.len() == call_slots(v),
        Err(_) => ids.len() == 0,
    }
}

/// Whether texts are random ids for the calls in a body.
pub open spec fn are_body_ids(body: Seq<u8>, ids: Seq<Seq<char>>) -> bool {
    are_ids_for(json_parse_bytes(body), ids)
}

/// Whether texts are random ids for the calls in the data of a frame.
pub open spec fn are_data_ids(data: Seq<char>, ids: Seq<Seq<char>>) -> bool {
    are_ids_for(json_parse(data), ids)
}

/// There are ids for whatever was parsed.
pub proof fn some_ids_for(parsed: Result<JsonView, Seq<char>>) -> (r: Seq<Seq<char>>)
    ensures
        are_ids_for(parsed, r),
{
    match parsed {
        Ok(v) => some_simple_uuids(call_slots(v)),
        Err(_) => some_simple_uuids(0),
    }
}

/// Random ids for the calls among the parts of the first candidate.
pub fn fresh_ids(v: &Json) -> (r: Vec<String>)
    ensures
        are_simple_uuids(views(r@)),
        views(r@).len() == call_slots(v@),
{
    match first_candidate(v) {
        Some(candidate) => match parts(candidate) {
            Some(list) => {
                assert(views(list@).len() == list@.len());
                simple_uuids(list.len())
            },
            None => simple_uuids(0),
        },
        None => simple_uuids(0),
    }
}

/// Whether a text is the id that a call without one gets.
pub open spec fn is_synthetic(id: Seq<char>) -> bool {
    exists|uuid: Seq<char>| #[trigger] is_simple_uuid(uuid) && id == "call_"@ + uuid
}

proof fn lemma_named(parts: Seq<JsonView>, ids: Seq<Seq<char>>, n: int)
    requires
        n <= parts.len(),
        ids.len() == parts.len(),
        are_simple_uuids(ids),
    ensures
        forall|i: int|
            0 <= i < parts_upto(parts, ids, n).content.len() ==> ((#[trigger] parts_upto(
                parts,
                ids,
                n,
            ).content[i]) matches AssistantPartView::ToolCall(call) ==> call.item_id == Some(
                call.call_id,
            ) || call.item_id is None && is_synthetic(call.call_id)),
    decreases n,
{
    if n > 0 {
        lemma_named(parts, ids, n - 1);
        let before = parts_upto(parts, ids, n - 1);
        let now = parts_upto(parts, ids, n);
        assert(is_simple_uuid(ids[n - 1]));
        assert(is_synthetic(synthetic_id(ids, n - 1)));
        assert forall|i: int| 0 <= i < now.content.len() implies ((
        #[trigger] now.content[i]) matches AssistantPartView::ToolCall(call) ==> call.item_id
            == Some(call.call_id) || call.item_id is None && is_synthetic(call.call_id)) by {
            if i < before.content.len() {
                assert(now.content[i] == before.content[i]);
            }
        }
    }
}

/// Every call has an id: its own, or `call_` and the digits of a random UUID.
pub proof fn every_call_has_an_id(parts: Seq<JsonView>, ids: Seq<Seq<char>>)
    requires
        ids.len() == parts.len(),
        are_simple_uuids(ids),
    ensures
        forall|i: int|
            0 <= i < content_of(parts, ids).len() ==> ((#[trigger] content_of(
                parts,
                ids,
            )[i]) matches AssistantPartView::ToolCall(call) ==> call.item_id == Some(call.call_id)
                || call.item_id is None && is_synthetic(call.call_id)),
{
    let n = parts.len() as int;
    lemma_named(parts, ids, n);
    let p = parts_upto(parts, ids, n);
    assert forall|i: int| 0 <= i < flushed(p).content.len() implies ((
    #[trigger] flushed(p).content[i]) matches AssistantPartView::ToolCall(call) ==> call.item_id
        == Some(call.call_id) || call.item_id is None && is_synthetic(call.call_id)) by {
        if i < p.content.len() {
            assert(flushed(p).content[i] == p.content[i]);
        }
    }
}

/// Decode a buffered response body, with ids for the calls that have none.
pub fn decode_body_with(body: &[u8], ids: &Vec<String>) -> (r: Result<GenerateResult, Error>)
    ensures
        match r {
            Ok(result) => decoded_body(body@, views(ids@)) == Ok::<GenerateResultView, ErrorView>(
                result@,
            ),
            Err(e) => decoded_body(body@, views(ids@)) == Err::<GenerateResultView, ErrorView>(e@),
        },
{
    match Json::parse_bytes(body) {
        Ok(v) => if may_be_response(&v) {
            decode_response_with(&v, ids)
        } else {
            Err(unreadable(UNEXPECTED_TYPE))
        },
        Err(e) => Err(unreadable(e.as_str())),
    }
}

fn unreadable(reason: &str) -> (r: Error)
    ensures
        r@ == invalid_json(reason@),
{
    Error::malformed(cat("gemini: invalid response JSON: ", reason).as_str())
}

/// Decode a buffered response body. A call without an id gets a random one.
pub fn decode_gemini_response(body: &[u8]) -> (r: Result<GenerateResult, Error>)
    ensures
        exists|ids: Seq<Seq<char>>| #[trigger]
            are_body_ids(body@, ids) && match r {
                Ok(result) => decoded_body(body@, ids) == Ok::<GenerateResultView, ErrorView>(
                    result@,
                ),
                Err(e) => decoded_body(body@, ids) == Err::<GenerateResultView, ErrorView>(e@),
            },
{
    let ghost unused = some_ids_for(json_parse_bytes(body@));
    assert(are_body_ids(body@, unused));
    match Json::parse_bytes(body) {
        Ok(v) => {
            if may_be_response(&v) {
                let ids: Vec<String> = fresh_ids(&v);
                let r: Result<GenerateResult, Error> = decode_response_with(&v, &ids);
                assert(are_body_ids(body@, views(ids@)));
                return r;
            }
            Err(unreadable(UNEXPECTED_TYPE))
        },
        Err(e) => Err(unreadable(e.as_str())),
    }
}

} // verus!
