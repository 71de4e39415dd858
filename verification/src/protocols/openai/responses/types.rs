//! Decoding of Responses output.
use vstd::prelude::*;

use crate::error::{as_deref, new_error, Error, ErrorKind, ErrorView};
use crate::json::{json_parse_bytes, no_members, str_of, Json, JsonObject, JsonView};
use crate::message::{
    AssistantPart, AssistantPartView, CompactionPart, CompactionPartView, ProviderToolPart,
    ProviderToolPartView, ReasoningContent, ReasoningContentView, ReasoningPart,
    ReasoningPartView, ToolCall, ToolCallView,
};
use crate::metadata::{no_metadata, MetadataView, ProviderMetadata};
use crate::model::{opt, views};
use crate::protocols::error::{content_policy_kind, policy_kind};
use crate::protocols::normalize::{normalize_usage, normalized_usage};
use crate::protocols::openai::shared::{code_of, code_text};
use crate::protocols::{
    finalize_tool_calls, finalized, origin_metadata, origin_stamp, ApiProfile,
};
use crate::response::{
    Finish, FinishReason, FinishView, GenerateResult, GenerateResultView, ResponseMetadata,
    ResponseMetadataView,
};
use crate::text::{cat, cat3, ends_with, is_prefix, is_suffix, same, starts_with, text_is};
use crate::usage::{no_usage, Usage};
use crate::util::merge_objects;
use crate::wire;
use crate::wire::{
    count_at, count_ok, filled, items_at, items_ok, list_ok, tag_at, tag_ok, text_at, text_ok,
    unless_empty, value_at, UNEXPECTED_TYPE,
};

verus! {

broadcast use crate::model::group_views;

// ---------------------------------------------------------------------------
// Usage
// ---------------------------------------------------------------------------

/// Whether a member is missing or an object that holds counts.
pub open spec fn counts_ok(v: JsonView, key: Seq<char>, a: Seq<char>, b: Seq<char>) -> bool {
    match value_at(v, key) {
        Some(d) => d is Object && count_ok(d, a) && count_ok(d, b),
        None => true,
    }
}

/// A count of a member that is an object.
pub open spec fn inner_count(v: JsonView, key: Seq<char>, inner: Seq<char>) -> Option<u64> {
    match value_at(v, key) {
        Some(d) => count_at(d, inner),
        None => None,
    }
}

/// Whether a value can be a usage report.
pub open spec fn usage_ok(v: JsonView) -> bool {
    &&& v is Object
    &&& count_ok(v, "input_tokens"@)
    &&& count_ok(v, "output_tokens"@)
    &&& count_ok(v, "total_tokens"@)
    &&& counts_ok(v, "input_tokens_details"@, "cached_tokens"@, "cache_write_tokens"@)
    &&& counts_ok(v, "output_tokens_details"@, "reasoning_tokens"@, "reasoning_tokens"@)
}

/// The usage that a report stands for.
pub open spec fn usage_of(v: JsonView) -> Usage {
    normalized_usage(
        count_at(v, "input_tokens"@),
        count_at(v, "output_tokens"@),
        count_at(v, "total_tokens"@),
        inner_count(v, "input_tokens_details"@, "cached_tokens"@),
        inner_count(v, "input_tokens_details"@, "cache_write_tokens"@),
        inner_count(v, "output_tokens_details"@, "reasoning_tokens"@),
    )
}

pub(crate) fn may_hold_counts(v: &Json, key: &str, a: &str, b: &str) -> (r: bool)
    ensures
        r == counts_ok(v@, key@, a@, b@),
{
    match wire::value(v, key) {
        Some(d) => matches!(d, Json::Object(_)) && wire::may_be_count(d, a) && wire::may_be_count(
            d,
            b,
        ),
        None => true,
    }
}

pub(crate) fn count_inside(v: &Json, key: &str, inner: &str) -> (r: Option<u64>)
    ensures
        r == inner_count(v@, key@, inner@),
{
    match wire::value(v, key) {
        Some(d) => wire::count(d, inner),
        None => None,
    }
}

fn may_be_usage(v: &Json) -> (r: bool)
    ensures
        r == usage_ok(v@),
{
    matches!(v, Json::Object(_)) && wire::may_be_count(v, "input_tokens") && wire::may_be_count(
        v,
        "output_tokens",
    ) && wire::may_be_count(v, "total_tokens") && may_hold_counts(
        v,
        "input_tokens_details",
        "cached_tokens",
        "cache_write_tokens",
    ) && may_hold_counts(v, "output_tokens_details", "reasoning_tokens", "reasoning_tokens")
}

/// The usage that a report stands for.
pub fn to_usage(v: &Json) -> (r: Usage)
    ensures
        r == usage_of(v@),
{
    normalize_usage(
        wire::count(v, "input_tokens"),
        wire::count(v, "output_tokens"),
        wire::count(v, "total_tokens"),
        count_inside(v, "input_tokens_details", "cached_tokens"),
        count_inside(v, "input_tokens_details", "cache_write_tokens"),
        count_inside(v, "output_tokens_details", "reasoning_tokens"),
    )
}

// ---------------------------------------------------------------------------
// Errors
// ---------------------------------------------------------------------------

/// The error of a failed response: its code and message.
pub open spec fn failed_error(
    code: Option<Seq<char>>,
    message: Option<Seq<char>>,
    fallback: Seq<char>,
    profile: ApiProfile,
) -> ErrorView {
    new_error(
        policy_kind(code, ErrorKind::Provider),
        match message {
            Some(message) => message,
            None => fallback,
        },
    ).with_origin(profile.text()).with_code_opt(code)
}

/// The error that the `error` of a response object stands for.
pub open spec fn response_error(error: Option<JsonView>, profile: ApiProfile) -> ErrorView {
    match error {
        Some(e) => failed_error(
            text_at(e, "code"@),
            text_at(e, "message"@),
            "response generation failed"@,
            profile,
        ),
        None => failed_error(None, None, "response generation failed"@, profile),
    }
}

fn provider_error(
    code: Option<String>,
    message: Option<String>,
    fallback: &str,
    profile: ApiProfile,
) -> (r: Error)
    ensures
        r@ == failed_error(opt(code), opt(message), fallback@, profile),
{
    let kind: ErrorKind = content_policy_kind(as_deref(&code), ErrorKind::Provider);
    let message: String = match message {
        Some(message) => message,
        None => fallback.to_owned(),
    };
    let mut error: Error = Error::new(kind, message.as_str()).with_origin(profile.as_str());
    if let Some(code) = &code {
        error = error.with_code(code.as_str());
    }
    error
}

/// The error a response object carries when generation failed.
pub fn failed_response_error(error: Option<&Json>, profile: ApiProfile) -> (r: Error)
    ensures
        r@ == response_error(opt(error), profile),
{
    match error {
        Some(e) => provider_error(
            wire::owned_text(e, "code"),
            wire::owned_text(e, "message"),
            "response generation failed",
            profile,
        ),
        None => provider_error(None, None, "response generation failed", profile),
    }
}

/// Whether a value can be a top-level `error` event.
pub open spec fn error_event_ok(v: JsonView) -> bool {
    v is Object && text_ok(v, "message"@)
}

/// A member of the event, or of the error nested in it.
pub open spec fn event_member(v: JsonView, key: Seq<char>) -> Option<JsonView> {
    match value_at(v, key) {
        Some(x) => Some(x),
        None => match value_at(v, "error"@) {
            Some(nested) => value_at(nested, key),
            None => None,
        },
    }
}

/// The error that a top-level `error` event reports. The API keeps `code` and
/// `message` at the top level while the ChatGPT backend nests them under
/// `error`.
pub open spec fn event_error(v: JsonView, profile: ApiProfile) -> ErrorView {
    failed_error(
        code_text(event_member(v, "code"@)),
        match event_member(v, "message"@) {
            Some(message) => str_of(message),
            None => None,
        },
        "stream error event"@,
        profile,
    )
}

fn member<'a>(v: &'a Json, key: &str) -> (r: Option<&'a Json>)
    ensures
        opt(r) == event_member(v@, key@),
{
    match wire::value(v, key) {
        Some(x) => Some(x),
        None => match wire::value(v, "error") {
            Some(nested) => wire::value(nested, key),
            None => None,
        },
    }
}

/// The error that a top-level `error` event reports.
pub fn into_error(v: &Json, profile: ApiProfile) -> (r: Error)
    ensures
        r@ == event_error(v@, profile),
{
    let message: Option<String> = match member(v, "message") {
        Some(message) => match message.as_str() {
            Some(text) => Some(text.to_owned()),
            None => None,
        },
        None => None,
    };
    provider_error(code_of(member(v, "code")), message, "stream error event", profile)
}

/// Whether a value can be a top-level `error` event.
pub fn may_be_error_event(v: &Json) -> (r: bool)
    ensures
        r == error_event_ok(v@),
{
    matches!(v, Json::Object(_)) && wire::may_be_text(v, "message")
}

// ---------------------------------------------------------------------------
// Output items
// ---------------------------------------------------------------------------

/// Whether an item type is that of a tool that the provider runs.
pub open spec fn is_server_tool(kind: Seq<char>) -> bool {
    is_suffix("_call"@, kind) && kind != "function_call"@ || is_prefix("mcp_"@, kind)
}

/// Whether an item represents a provider-executed tool.
pub fn is_server_tool_item(kind: &str) -> (r: bool)
    ensures
        r == is_server_tool(kind@),
{
    (ends_with(kind, "_call") && !same(kind, "function_call")) || starts_with(kind, "mcp_")
}

/// Whether a value can be a part of an item's content.
pub open spec fn content_part_ok(v: JsonView) -> bool {
    v is Object && tag_ok(v, "type"@) && text_ok(v, "text"@) && text_ok(v, "refusal"@) && list_ok(
        v,
        "annotations"@,
    )
}

/// Whether a value can be a part of a reasoning summary.
pub open spec fn summary_part_ok(v: JsonView) -> bool {
    v is Object && text_ok(v, "text"@)
}

/// Whether a value can be an output item.
pub open spec fn item_ok(v: JsonView) -> bool {
    &&& v is Object
    &&& tag_ok(v, "type"@)
    &&& text_ok(v, "status"@)
    &&& text_ok(v, "id"@)
    &&& text_ok(v, "call_id"@)
    &&& text_ok(v, "name"@)
    &&& text_ok(v, "arguments"@)
    &&& text_ok(v, "encrypted_content"@)
    &&& text_ok(v, "phase"@)
    &&& list_ok(v, "content"@)
    &&& forall|i: int|
        0 <= i < items_at(v, "content"@).len() ==> content_part_ok(
            #[trigger] items_at(v, "content"@)[i],
        )
    &&& list_ok(v, "summary"@)
    &&& forall|i: int|
        0 <= i < items_at(v, "summary"@).len() ==> summary_part_ok(
            #[trigger] items_at(v, "summary"@)[i],
        )
}

fn are_content_parts(v: &Json) -> (r: bool)
    ensures
        r == (list_ok(v@, "content"@) && forall|i: int|
            0 <= i < items_at(v@, "content"@).len() ==> content_part_ok(
                #[trigger] items_at(v@, "content"@)[i],
            )),
{
    if !wire::may_be_list(v, "content") {
        return false;
    }
    let items: &Vec<Json> = match wire::list(v, "content") {
        Some(items) => items,
        None => return true,
    };
    let mut i: usize = 0;
    while i < items.len()
        invariant
            i <= items@.len(),
            items_at(v@, "content"@) == views(items@),
            forall|k: int|
                0 <= k < i ==> content_part_ok(#[trigger] items_at(v@, "content"@)[k]),
        decreases items@.len() - i,
    {
        let part: &Json = &items[i];
        assert(items_at(v@, "content"@)[i as int] == part@);
        if !(matches!(part, Json::Object(_)) && wire::may_be_tag(part, "type")
            && wire::may_be_text(part, "text") && wire::may_be_text(part, "refusal")
            && wire::may_be_list(part, "annotations")) {
            return false;
        }
        i += 1;
    }
    true
}

fn are_summary_parts(v: &Json) -> (r: bool)
    ensures
        r == (list_ok(v@, "summary"@) && forall|i: int|
            0 <= i < items_at(v@, "summary"@).len() ==> summary_part_ok(
                #[trigger] items_at(v@, "summary"@)[i],
            )),
{
    if !wire::may_be_list(v, "summary") {
        return false;
    }
    let items: &Vec<Json> = match wire::list(v, "summary") {
        Some(items) => items,
        None => return true,
    };
    let mut i: usize = 0;
    while i < items.len()
        invariant
            i <= items@.len(),
            items_at(v@, "summary"@) == views(items@),
            forall|k: int|
                0 <= k < i ==> summary_part_ok(#[trigger] items_at(v@, "summary"@)[k]),
        decreases items@.len() - i,
    {
        let part: &Json = &items[i];
        assert(items_at(v@, "summary"@)[i as int] == part@);
        if !(matches!(part, Json::Object(_)) && wire::may_be_text(part, "text")) {
            return false;
        }
        i += 1;
    }
    true
}

fn may_be_item(v: &Json) -> (r: bool)
    ensures
        r == item_ok(v@),
{
    matches!(v, Json::Object(_)) && wire::may_be_tag(v, "type") && wire::may_be_text(v, "status")
        && wire::may_be_text(v, "id") && wire::may_be_text(v, "call_id") && wire::may_be_text(
        v,
        "name",
    ) && wire::may_be_text(v, "arguments") && wire::may_be_text(v, "encrypted_content")
        && wire::may_be_text(v, "phase") && are_content_parts(v) && are_summary_parts(v)
}

/// An extra in the `openai` namespace.
pub open spec fn openai_member(key: Seq<char>, value: JsonView) -> MetadataView {
    no_metadata().insert("openai"@, JsonView::Object(no_members().insert(key, value)))
}

/// An extra in the `openai` namespace.
pub fn openai_metadata(key: &str, value: Json) -> (r: ProviderMetadata)
    ensures
        r@ == openai_member(key@, value@),
{
    ProviderMetadata::with("openai", Json::Object(JsonObject::new().put(key, value)))
}

/// The extras of a message with a phase.
pub open spec fn phase_extras(phase: Option<Seq<char>>) -> MetadataView {
    match phase {
        Some(phase) => openai_member("phase"@, JsonView::String(phase)),
        None => no_metadata(),
    }
}

/// The text part that a part of a message's content is, if it is one.
pub open spec fn message_part(v: JsonView, phase: Option<Seq<char>>) -> Option<AssistantPartView> {
    let kind = tag_at(v, "type"@);
    if kind == "output_text"@ {
        Some(
            AssistantPartView::Text {
                text: tag_at(v, "text"@),
                provider_metadata: if items_at(v, "annotations"@).len() > 0 {
                    merge_objects(
                        phase_extras(phase),
                        openai_member(
                            "annotations"@,
                            JsonView::Array(items_at(v, "annotations"@)),
                        ),
                    )
                } else {
                    phase_extras(phase)
                },
            },
        )
    } else if kind == "refusal"@ {
        Some(
            AssistantPartView::Text {
                text: tag_at(v, "refusal"@),
                provider_metadata: merge_objects(
                    phase_extras(phase),
                    openai_member("content_type"@, JsonView::String("refusal"@)),
                ),
            },
        )
    } else {
        None
    }
}

/// The text parts of the first `n` parts of a message's content.
pub open spec fn message_parts(
    content: Seq<JsonView>,
    phase: Option<Seq<char>>,
    n: int,
) -> Seq<AssistantPartView>
    decreases n,
{
    if n <= 0 {
        Seq::empty()
    } else {
        match message_part(content[n - 1], phase) {
            Some(part) => message_parts(content, phase, n - 1).push(part),
            None => message_parts(content, phase, n - 1),
        }
    }
}

fn decode_message_part(v: &Json, phase: Option<&str>) -> (r: Option<AssistantPart>)
    ensures
        opt(r) == message_part(v@, opt(phase)),
{
    broadcast use {crate::model::group_views, crate::json::array_view};

    let mut metadata: ProviderMetadata = match phase {
        Some(phase) => openai_metadata("phase", Json::text(phase)),
        None => ProviderMetadata::new(),
    };
    let kind: &str = wire::tag(v, "type");
    if same(kind, "output_text") {
        if let Some(annotations) = wire::list(v, "annotations") {
            if annotations.len() > 0 {
                let list: Vec<Json> = annotations.clone();
                assert(views(list@) =~= views(annotations@));
                metadata.merge(openai_metadata("annotations", Json::Array(list)));
            }
        }
        Some(
            AssistantPart::Text {
                text: wire::tag(v, "text").to_owned(),
                provider_metadata: metadata,
            },
        )
    } else if same(kind, "refusal") {
        metadata.merge(openai_metadata("content_type", Json::text("refusal")));
        Some(
            AssistantPart::Text {
                text: wire::tag(v, "refusal").to_owned(),
                provider_metadata: metadata,
            },
        )
    } else {
        None
    }
}

fn decode_message_item(v: &Json) -> (r: Vec<AssistantPart>)
    ensures
        views(r@) == message_parts(
            items_at(v@, "content"@),
            text_at(v@, "phase"@),
            items_at(v@, "content"@).len() as int,
        ),
{
    let mut parts: Vec<AssistantPart> = Vec::new();
    let phase: Option<&str> = wire::text(v, "phase");
    if let Some(content) = wire::list(v, "content") {
        let ghost all = views(content@);
        let mut i: usize = 0;
        while i < content.len()
            invariant
                i <= content@.len(),
                all == views(content@),
                opt(phase) == text_at(v@, "phase"@),
                views(parts@) == message_parts(all, opt(phase), i as int),
            decreases content@.len() - i,
        {
            assert(all[i as int] == content@[i as int]@);
            if let Some(part) = decode_message_part(&content[i], phase) {
                parts.push(part);
            }
            i += 1;
        }
    }
    parts
}

/// The summaries of the first `n` parts of a reasoning summary.
pub open spec fn summary_pieces(summary: Seq<JsonView>, n: int) -> Seq<ReasoningContentView>
    decreases n,
{
    if n <= 0 {
        Seq::empty()
    } else {
        match text_at(summary[n - 1], "text"@) {
            Some(text) => summary_pieces(summary, n - 1).push(
                ReasoningContentView::Summary { text },
            ),
            None => summary_pieces(summary, n - 1),
        }
    }
}

/// The visible texts of the first `n` parts of a reasoning item's content.
pub open spec fn text_pieces(content: Seq<JsonView>, n: int) -> Seq<ReasoningContentView>
    decreases n,
{
    if n <= 0 {
        Seq::empty()
    } else {
        match text_at(content[n - 1], "text"@) {
            Some(text) => if tag_at(content[n - 1], "type"@) == "reasoning_text"@ {
                text_pieces(content, n - 1).push(
                    ReasoningContentView::Text { text, signature: None },
                )
            } else {
                text_pieces(content, n - 1)
            },
            None => text_pieces(content, n - 1),
        }
    }
}

/// The reasoning that an item is.
pub open spec fn reasoning_of(v: JsonView) -> ReasoningPartView {
    let summary = items_at(v, "summary"@);
    let content = items_at(v, "content"@);
    let visible = summary_pieces(summary, summary.len() as int) + text_pieces(
        content,
        content.len() as int,
    );
    ReasoningPartView {
        id: text_at(v, "id"@),
        content: match filled(text_at(v, "encrypted_content"@)) {
            Some(data) => visible.push(ReasoningContentView::Encrypted { data }),
            None => visible,
        },
        provider_metadata: no_metadata(),
    }
}

fn decode_reasoning_item(v: &Json) -> (r: ReasoningPart)
    ensures
        r@ == reasoning_of(v@),
{
    let ghost summaries = items_at(v@, "summary"@);
    let ghost texts = items_at(v@, "content"@);
    let mut content: Vec<ReasoningContent> = Vec::new();
    if let Some(summary) = wire::list(v, "summary") {
        let mut i: usize = 0;
        while i < summary.len()
            invariant
                i <= summary@.len(),
                summaries == views(summary@),
                views(content@) == summary_pieces(summaries, i as int),
            decreases summary@.len() - i,
        {
            assert(summaries[i as int] == summary@[i as int]@);
            if let Some(text) = wire::text(&summary[i], "text") {
                content.push(ReasoningContent::Summary { text: text.to_owned() });
            }
            i += 1;
        }
    }
    let ghost first = views(content@);
    assert(first + Seq::empty() =~= first);
    if let Some(list) = wire::list(v, "content") {
        let mut i: usize = 0;
        while i < list.len()
            invariant
                i <= list@.len(),
                texts == views(list@),
                views(content@) == first + text_pieces(texts, i as int),
            decreases list@.len() - i,
        {
            assert(texts[i as int] == list@[i as int]@);
            if let Some(text) = wire::text(&list[i], "text") {
                if same(wire::tag(&list[i], "type"), "reasoning_text") {
                    content.push(
                        ReasoningContent::Text { text: text.to_owned(), signature: None },
                    );
                    assert(views(content@) =~= first + text_pieces(texts, i + 1));
                }
            }
            i += 1;
        }
    }
    if let Some(data) = unless_empty(wire::text(v, "encrypted_content")) {
        content.push(ReasoningContent::Encrypted { data });
    }
    ReasoningPart {
        id: wire::owned_text(v, "id"),
        content,
        provider_metadata: ProviderMetadata::new(),
    }
}

/// The call that an item is, with its call id.
pub open spec fn item_call(v: JsonView, call_id: Seq<char>) -> ToolCallView {
    ToolCallView {
        call_id,
        item_id: filled(text_at(v, "id"@)),
        provider_call_id: None,
        name: tag_at(v, "name"@),
        arguments: tag_at(v, "arguments"@),
        provider_metadata: no_metadata(),
    }
}

/// The item of a tool that the provider ran.
pub open spec fn server_tool_part(v: JsonView, id: Option<Seq<char>>) -> ProviderToolPartView {
    ProviderToolPartView {
        id,
        kind: tag_at(v, "type"@),
        namespace: "openai"@,
        payload: v,
    }
}

/// The compaction that an item is.
pub open spec fn item_compaction(v: JsonView) -> CompactionPartView {
    CompactionPartView {
        id: text_at(v, "id"@),
        content: None,
        encrypted_content: text_at(v, "encrypted_content"@),
    }
}

/// What an output item decodes to: its parts, or nothing where it carries
/// nothing to replay.
pub open spec fn decoded_item(v: JsonView) -> Result<Option<Seq<AssistantPartView>>, ErrorView> {
    let kind = tag_at(v, "type"@);
    if !item_ok(v) {
        Err(
            new_error(
                ErrorKind::MalformedResponse,
                "openai-responses: invalid output item"@,
            ).with_source(UNEXPECTED_TYPE@),
        )
    } else if kind == "message"@ {
        Ok(
            Some(
                message_parts(
                    items_at(v, "content"@),
                    text_at(v, "phase"@),
                    items_at(v, "content"@).len() as int,
                ),
            ),
        )
    } else if kind == "function_call"@ {
        // Drop only explicitly non-completed calls.
        if text_at(v, "status"@) is Some && text_at(v, "status"@) != Some("completed"@) {
            Ok(None)
        } else {
            match text_at(v, "call_id"@) {
                Some(call_id) => Ok(
                    Some(seq![AssistantPartView::ToolCall(item_call(v, call_id))]),
                ),
                None => Err(
                    new_error(
                        ErrorKind::MalformedResponse,
                        "openai-responses: function_call item missing call_id"@,
                    ),
                ),
            }
        }
    } else if kind == "reasoning"@ {
        Ok(Some(seq![AssistantPartView::Reasoning(reasoning_of(v))]))
    } else if kind == "compaction"@ {
        Ok(Some(seq![AssistantPartView::Compaction(item_compaction(v))]))
    } else if is_server_tool(kind) {
        Ok(
            Some(
                seq![
                    AssistantPartView::ProviderTool {
                        provider_tool: server_tool_part(v, text_at(v, "id"@)),
                    },
                ],
            ),
        )
    } else {
        Ok(None)
    }
}

/// What the items decode to that hold one part.
pub proof fn lemma_single_parts(v: JsonView)
    requires
        decoded_item(v) is Ok,
    ensures
        tag_at(v, "type"@) == "reasoning"@ ==> decoded_item(v)->Ok_0 == Some(
            seq![AssistantPartView::Reasoning(reasoning_of(v))],
        ),
        tag_at(v, "type"@) == "compaction"@ ==> decoded_item(v)->Ok_0 == Some(
            seq![AssistantPartView::Compaction(item_compaction(v))],
        ),
{
    reveal_strlit("message");
    reveal_strlit("function_call");
    reveal_strlit("reasoning");
    reveal_strlit("compaction");
    assert("message"@.len() == 7);
    assert("function_call"@.len() == 13);
    assert("reasoning"@.len() == 9);
    assert("compaction"@.len() == 10);
}

/// The views of some optional parts.
pub open spec fn parts_view(parts: Option<Vec<AssistantPart>>) -> Option<Seq<AssistantPartView>> {
    match parts {
        Some(parts) => Some(views(parts@)),
        None => None,
    }
}

fn one_part(part: AssistantPart) -> (r: Option<Vec<AssistantPart>>)
    ensures
        parts_view(r) == Some(seq![part@]),
{
    let mut parts: Vec<AssistantPart> = Vec::new();
    parts.push(part);
    assert(views(parts@) =~= seq![part@]);
    Some(parts)
}

/// Decode one output item, or `None` when it carries nothing to replay.
pub fn decode_output_item(v: &Json) -> (r: Result<Option<Vec<AssistantPart>>, Error>)
    ensures
        match r {
            Ok(parts) => decoded_item(v@) == Ok::<Option<Seq<AssistantPartView>>, ErrorView>(
                parts_view(parts),
            ),
            Err(e) => decoded_item(v@) == Err::<Option<Seq<AssistantPartView>>, ErrorView>(e@),
        },
{
    if !may_be_item(v) {
        return Err(
            Error::malformed("openai-responses: invalid output item").with_source(UNEXPECTED_TYPE),
        );
    }
    let kind: &str = wire::tag(v, "type");
    if same(kind, "message") {
        Ok(Some(decode_message_item(v)))
    } else if same(kind, "function_call") {
        // `status` is optional on the wire. Drop only explicitly
        // non-completed calls.
        if let Some(status) = wire::text(v, "status") {
            if !same(status, "completed") {
                return Ok(None);
            }
        }
        match wire::text(v, "call_id") {
            Some(call_id) => Ok(
                one_part(
                    AssistantPart::ToolCall(
                        ToolCall {
                            call_id: call_id.to_owned(),
                            item_id: unless_empty(wire::text(v, "id")),
                            provider_call_id: None,
                            name: wire::tag(v, "name").to_owned(),
                            arguments: wire::tag(v, "arguments").to_owned(),
                            provider_metadata: ProviderMetadata::new(),
                        },
                    ),
                ),
            ),
            None => Err(Error::malformed("openai-responses: function_call item missing call_id")),
        }
    } else if same(kind, "reasoning") {
        Ok(one_part(AssistantPart::Reasoning(decode_reasoning_item(v))))
    } else if same(kind, "compaction") {
        Ok(
            one_part(
                AssistantPart::Compaction(
                    CompactionPart {
                        id: wire::owned_text(v, "id"),
                        content: None,
                        encrypted_content: wire::owned_text(v, "encrypted_content"),
                    },
                ),
            ),
        )
    } else if is_server_tool_item(kind) {
        // Providers correlate server tool results with these raw items on replay.
        Ok(
            one_part(
                AssistantPart::ProviderTool {
                    provider_tool: ProviderToolPart {
                        id: wire::owned_text(v, "id"),
                        kind: kind.to_owned(),
                        namespace: "openai".to_owned(),
                        payload: v.clone(),
                    },
                },
            ),
        )
    } else {
        Ok(None)
    }
}

/// Whether a part is a refusal.
pub open spec fn is_refusal(part: AssistantPartView) -> bool {
    match part {
        AssistantPartView::Text { provider_metadata, .. } => provider_metadata.contains_key(
            "openai"@,
        ) && text_at(provider_metadata["openai"@], "content_type"@) == Some("refusal"@),
        _ => false,
    }
}

/// Whether a part is a refusal.
pub fn is_refusal_part(part: &AssistantPart) -> (r: bool)
    ensures
        r == is_refusal(part@),
{
    match part {
        AssistantPart::Text { provider_metadata, .. } => match provider_metadata.get("openai") {
            Some(namespace) => match wire::text(namespace, "content_type") {
                Some(kind) => same(kind, "refusal"),
                None => false,
            },
            None => false,
        },
        _ => false,
    }
}

// ---------------------------------------------------------------------------
// Responses
// ---------------------------------------------------------------------------

/// The finish of a response by its status and why it is incomplete.
pub open spec fn finish_of(status: Option<Seq<char>>, reason: Option<Seq<char>>) -> FinishView {
    match status {
        Some(status) => if status == "incomplete"@ {
            match reason {
                Some(reason) => FinishView {
                    reason: if reason == "max_output_tokens"@ || reason == "max_tokens"@ {
                        FinishReason::Length
                    } else if reason == "content_filter"@ {
                        FinishReason::ContentFilter
                    } else {
                        FinishReason::Other
                    },
                    raw: Some(reason),
                },
                None => FinishView { reason: FinishReason::Other, raw: Some("incomplete"@) },
            }
        } else if status == "completed"@ {
            FinishView { reason: FinishReason::Stop, raw: Some(status) }
        } else {
            FinishView { reason: FinishReason::Other, raw: Some(status) }
        },
        None => FinishView { reason: FinishReason::Stop, raw: None },
    }
}

/// The finish of a response by its status and why it is incomplete.
pub fn finish_from_status(status: Option<&str>, reason: Option<&str>) -> (r: Finish)
    ensures
        r@ == finish_of(opt(status), opt(reason)),
{
    match status {
        Some(status) => {
            if same(status, "incomplete") {
                match reason {
                    Some(reason) => {
                        if same(reason, "max_output_tokens") || same(reason, "max_tokens") {
                            Finish::with_raw(FinishReason::Length, reason)
                        } else if same(reason, "content_filter") {
                            Finish::with_raw(FinishReason::ContentFilter, reason)
                        } else {
                            Finish::with_raw(FinishReason::Other, reason)
                        }
                    },
                    None => Finish::with_raw(FinishReason::Other, "incomplete"),
                }
            } else if same(status, "completed") {
                Finish::with_raw(FinishReason::Stop, status)
            } else {
                Finish::with_raw(FinishReason::Other, status)
            }
        },
        None => Finish::new(FinishReason::Stop),
    }
}

/// Whether a value can be the `error` of a response.
pub open spec fn response_error_ok(error: Option<JsonView>) -> bool {
    match error {
        Some(e) => e is Object && text_ok(e, "code"@) && text_ok(e, "message"@),
        None => true,
    }
}

/// Whether a value can be a response object.
pub open spec fn response_ok(v: JsonView) -> bool {
    &&& v is Object
    &&& text_ok(v, "id"@)
    &&& text_ok(v, "model"@)
    &&& text_ok(v, "status"@)
    &&& response_error_ok(value_at(v, "error"@))
    &&& match value_at(v, "incomplete_details"@) {
        Some(d) => d is Object && text_ok(d, "reason"@),
        None => true,
    }
    &&& items_ok(v, "output"@)
    &&& match value_at(v, "usage"@) {
        Some(u) => usage_ok(u),
        None => true,
    }
}

/// Whether a value can be a response object.
pub fn may_be_response(v: &Json) -> (r: bool)
    ensures
        r == response_ok(v@),
{
    if !(matches!(v, Json::Object(_)) && wire::may_be_text(v, "id") && wire::may_be_text(
        v,
        "model",
    ) && wire::may_be_text(v, "status") && wire::may_be_items(v, "output")) {
        return false;
    }
    let error_ok: bool = match wire::value(v, "error") {
        Some(e) => matches!(e, Json::Object(_)) && wire::may_be_text(e, "code")
            && wire::may_be_text(e, "message"),
        None => true,
    };
    let details_ok: bool = match wire::value(v, "incomplete_details") {
        Some(d) => matches!(d, Json::Object(_)) && wire::may_be_text(d, "reason"),
        None => true,
    };
    let usage_ok: bool = match wire::value(v, "usage") {
        Some(u) => may_be_usage(u),
        None => true,
    };
    error_ok && details_ok && usage_ok
}

/// Why a response is incomplete.
pub open spec fn incomplete_reason(v: JsonView) -> Option<Seq<char>> {
    match value_at(v, "incomplete_details"@) {
        Some(d) => text_at(d, "reason"@),
        None => None,
    }
}

/// Why a response is incomplete.
pub fn why_incomplete(v: &Json) -> (r: Option<&str>)
    ensures
        opt(r) == incomplete_reason(v@),
{
    match wire::value(v, "incomplete_details") {
        Some(d) => wire::text(d, "reason"),
        None => None,
    }
}

/// The usage of a response.
pub open spec fn response_usage(v: JsonView) -> Usage {
    match value_at(v, "usage"@) {
        Some(u) => usage_of(u),
        None => no_usage(),
    }
}

/// The parts of the first `n` output items.
pub open spec fn output_parts(output: Seq<JsonView>, n: int) -> Result<
    Seq<AssistantPartView>,
    ErrorView,
>
    decreases n,
{
    if n <= 0 {
        Ok(Seq::empty())
    } else {
        match output_parts(output, n - 1) {
            Ok(parts) => match decoded_item(output[n - 1]) {
                Ok(Some(more)) => Ok(parts + more),
                Ok(None) => Ok(parts),
                Err(e) => Err(e),
            },
            Err(e) => Err(e),
        }
    }
}

/// Whether any part is a refusal.
pub open spec fn refuses(parts: Seq<AssistantPartView>) -> bool {
    exists|i: int| 0 <= i < parts.len() && is_refusal(#[trigger] parts[i])
}

/// The failure that a response object is, before its output is looked at.
pub open spec fn response_failure(v: JsonView, model: Seq<char>, profile: ApiProfile) -> Option<
    ErrorView,
> {
    let status = text_at(v, "status"@);
    let error = value_at(v, "error"@);
    if text_at(v, "id"@) is None && status is None && items_at(v, "output"@).len() == 0
        && value_at(v, "usage"@) is None && error is None {
        Some(
            new_error(
                ErrorKind::MalformedResponse,
                "openai-responses: response body has no recognizable fields"@,
            ).with_model(model),
        )
    } else if status == Some("queued"@) || status == Some("in_progress"@) {
        Some(
            new_error(
                ErrorKind::Provider,
                profile.text() + ": response is still `"@ + status->0
                    + "`; background responses are not supported"@,
            ).with_model(model),
        )
    } else if status == Some("failed"@) || error is Some {
        Some(response_error(error, profile).with_model(model))
    } else {
        None
    }
}

/// The finish of a response with some parts.
pub open spec fn response_finish(v: JsonView, parts: Seq<AssistantPartView>) -> FinishView {
    if refuses(parts) {
        FinishView { reason: FinishReason::ContentFilter, raw: Some("refusal"@) }
    } else {
        finish_of(text_at(v, "status"@), incomplete_reason(v))
    }
}

/// The result that a response object is.
pub open spec fn decoded_response(v: JsonView, model: Seq<char>, profile: ApiProfile) -> Result<
    GenerateResultView,
    ErrorView,
> {
    match response_failure(v, model, profile) {
        Some(e) => Err(e),
        None => {
            let output = items_at(v, "output"@);
            match output_parts(output, output.len() as int) {
                Ok(parts) => match finalized(parts, response_finish(v, parts), profile) {
                    Ok((content, finish)) => Ok(
                        GenerateResultView {
                            content,
                            finish,
                            usage: response_usage(v),
                            warnings: Seq::empty(),
                            response: ResponseMetadataView {
                                id: text_at(v, "id"@),
                                model: text_at(v, "model"@),
                                request_id: None,
                            },
                            provider_metadata: origin_stamp(profile),
                        },
                    ),
                    Err(e) => Err(e),
                },
                Err(e) => Err(e),
            }
        },
    }
}

proof fn lemma_output_failure(output: Seq<JsonView>, i: int)
    requires
        0 <= i <= output.len(),
        output_parts(output, i) is Err,
    ensures
        output_parts(output, output.len() as int) == output_parts(output, i),
    decreases output.len() - i,
{
    if i < output.len() {
        lemma_output_failure(output, i + 1);
    }
}

fn decode_output(v: &Json) -> (r: Result<Vec<AssistantPart>, Error>)
    ensures
        match r {
            Ok(parts) => output_parts(
                items_at(v@, "output"@),
                items_at(v@, "output"@).len() as int,
            ) == Ok::<Seq<AssistantPartView>, ErrorView>(views(parts@)),
            Err(e) => output_parts(
                items_at(v@, "output"@),
                items_at(v@, "output"@).len() as int,
            ) == Err::<Seq<AssistantPartView>, ErrorView>(e@),
        },
{
    let mut content: Vec<AssistantPart> = Vec::new();
    if let Some(output) = wire::list(v, "output") {
        let ghost all = views(output@);
        let mut i: usize = 0;
        while i < output.len()
            invariant
                i <= output@.len(),
                all == views(output@),
                items_at(v@, "output"@) == all,
                output_parts(all, i as int) == Ok::<Seq<AssistantPartView>, ErrorView>(
                    views(content@),
                ),
            decreases output@.len() - i,
        {
            assert(all[i as int] == output@[i as int]@);
            match decode_output_item(&output[i]) {
                Ok(Some(parts)) => {
                    let mut more: Vec<AssistantPart> = parts;
                    content.append(&mut more);
                },
                Ok(None) => {},
                Err(e) => {
                    proof {
                        lemma_output_failure(all, i + 1);
                    }
                    return Err(e);
                },
            }
            i += 1;
        }
    }
    Ok(content)
}

fn any_refusal(parts: &Vec<AssistantPart>) -> (r: bool)
    ensures
        r == refuses(views(parts@)),
{
    let mut i: usize = 0;
    while i < parts.len()
        invariant
            i <= parts@.len(),
            forall|k: int| 0 <= k < i ==> !is_refusal(#[trigger] views(parts@)[k]),
        decreases parts@.len() - i,
    {
        assert(views(parts@)[i as int] == parts@[i as int]@);
        if is_refusal_part(&parts[i]) {
            return true;
        }
        i += 1;
    }
    false
}

fn check_response(v: &Json, model: &str, profile: ApiProfile) -> (r: Option<Error>)
    ensures
        opt(r) == response_failure(v@, model@, profile),
{
    let status: Option<&str> = wire::text(v, "status");
    let error: Option<&Json> = wire::value(v, "error");
    let no_output: bool = match wire::list(v, "output") {
        Some(output) => output.len() == 0,
        None => true,
    };
    if wire::text(v, "id").is_none() && status.is_none() && no_output && wire::value(
        v,
        "usage",
    ).is_none() && error.is_none() {
        return Some(
            Error::malformed(
                "openai-responses: response body has no recognizable fields",
            ).with_model(model),
        );
    }
    if text_is(status, "queued") || text_is(status, "in_progress") {
        if let Some(status) = status {
            let message: String = cat3(
                cat(profile.as_str(), ": response is still `").as_str(),
                status,
                "`; background responses are not supported",
            );
            return Some(Error::new(ErrorKind::Provider, message.as_str()).with_model(model));
        }
    }
    // A populated error object means the generation failed even when a proxy
    // answered with a 200 and no `failed` status.
    if text_is(status, "failed") || error.is_some() {
        return Some(failed_response_error(error, profile).with_model(model));
    }
    None
}

/// The result that a response object is.
pub fn decode_response_object(v: &Json, model: &str, profile: ApiProfile) -> (r: Result<
    GenerateResult,
    Error,
>)
    ensures
        match r {
            Ok(result) => decoded_response(v@, model@, profile) == Ok::<
                GenerateResultView,
                ErrorView,
            >(result@),
            Err(e) => decoded_response(v@, model@, profile) == Err::<
                GenerateResultView,
                ErrorView,
            >(e@),
        },
{
    if let Some(e) = check_response(v, model, profile) {
        return Err(e);
    }
    let parts: Vec<AssistantPart> = match decode_output(v) {
        Ok(parts) => parts,
        Err(e) => return Err(e),
    };
    let finish: Finish = if any_refusal(&parts) {
        Finish::with_raw(FinishReason::ContentFilter, "refusal")
    } else {
        finish_from_status(wire::text(v, "status"), why_incomplete(v))
    };
    let (content, finish) = match finalize_tool_calls(parts, finish, profile) {
        Ok(done) => done,
        Err(e) => return Err(e),
    };
    let usage: Usage = match wire::value(v, "usage") {
        Some(u) => to_usage(u),
        None => Usage::default(),
    };
    Ok(
        GenerateResult {
            content,
            finish,
            usage,
            warnings: Vec::new(),
            response: ResponseMetadata {
                id: wire::owned_text(v, "id"),
                model: wire::owned_text(v, "model"),
                request_id: None,
            },
            provider_metadata: origin_metadata(profile),
        },
    )
}

/// The response object in a body, or what is wrong with the body.
pub open spec fn parsed_response(body: Seq<u8>) -> Result<JsonView, Seq<char>> {
    match json_parse_bytes(body) {
        Ok(v) => if response_ok(v) {
            Ok(v)
        } else {
            Err(UNEXPECTED_TYPE@)
        },
        Err(e) => Err(e),
    }
}

/// The result that a response body holds.
pub open spec fn decoded_body(body: Seq<u8>, model: Seq<char>, profile: ApiProfile) -> Result<
    GenerateResultView,
    ErrorView,
> {
    match parsed_response(body) {
        Ok(v) => decoded_response(v, model, profile),
        Err(e) => Err(
            new_error(
                ErrorKind::MalformedResponse,
                "openai-responses: invalid response JSON: "@ + e,
            ),
        ),
    }
}

fn parse_response(body: &[u8]) -> (r: Result<Json, String>)
    ensures
        match r {
            Ok(v) => parsed_response(body@) == Ok::<JsonView, Seq<char>>(v@),
            Err(e) => parsed_response(body@) == Err::<JsonView, Seq<char>>(e@),
        },
{
    match Json::parse_bytes(body) {
        Ok(v) => if may_be_response(&v) {
            Ok(v)
        } else {
            Err(UNEXPECTED_TYPE.to_owned())
        },
        Err(e) => Err(e),
    }
}

/// Decode a buffered response body.
pub fn decode_openai_response(body: &[u8], model: &str, profile: ApiProfile) -> (r: Result<
    GenerateResult,
    Error,
>)
    ensures
        match r {
            Ok(result) => decoded_body(body@, model@, profile) == Ok::<
                GenerateResultView,
                ErrorView,
            >(result@),
            Err(e) => decoded_body(body@, model@, profile) == Err::<
                GenerateResultView,
                ErrorView,
            >(e@),
        },
{
    match parse_response(body) {
        Ok(v) => decode_response_object(&v, model, profile),
        Err(e) => Err(
            Error::malformed(cat("openai-responses: invalid response JSON: ", e.as_str()).as_str()),
        ),
    }
}

} // verus!
