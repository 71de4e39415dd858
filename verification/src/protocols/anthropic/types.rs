//! Decoding of Messages output.
use vstd::prelude::*;

use crate::error::{as_deref, new_error, Error, ErrorKind, ErrorView};
use crate::headers::{headers_view, HeadersView};
use crate::http_support::{enrich_error_from_headers, enriched, error_kind_for_status, status_kind};
use crate::json::{json_parse_bytes, json_text, no_members, Json, JsonObject, JsonView};
use crate::message::{
    AssistantPart, AssistantPartView, CompactionPart, CompactionPartView, ProviderToolPart,
    ProviderToolPartView, ReasoningContent, ReasoningContentView, ReasoningPart,
    ReasoningPartView, ToolCall, ToolCallView,
};
use crate::metadata::{no_metadata, MetadataView, ProviderMetadata};
use crate::model::{opt, views};
use crate::protocols::error::{
    content_policy_kind, fallback_message, fallback_provider_error_message, policy_kind,
};
use crate::protocols::{finalize_tool_calls, finalized, ApiProfile};
use crate::response::{
    Finish, FinishReason, FinishView, GenerateResult, GenerateResultView, ResponseMetadata,
    ResponseMetadataView,
};
use crate::text::{cat, contains, ends_with, is_suffix, occurs, same};
use crate::usage::{no_usage, Usage};
use crate::util::merge_objects;
use crate::wire;
use crate::wire::{
    count_at, count_ok, filled, items_at, items_ok, list_ok, tag_at, tag_ok, text_at, text_ok,
    unless_empty, value_at, UNEXPECTED_TYPE,
};

verus! {

broadcast use {crate::model::group_views, crate::json::array_view};

// ---------------------------------------------------------------------------
// Usage
// ---------------------------------------------------------------------------

/// Whether the details of a usage report can be read.
pub open spec fn details_ok(v: JsonView) -> bool {
    match value_at(v, "output_tokens_details"@) {
        Some(d) => d is Object && count_ok(d, "thinking_tokens"@),
        None => true,
    }
}

/// The thinking tokens of a usage report.
pub open spec fn thinking_tokens(v: JsonView) -> Option<u64> {
    match value_at(v, "output_tokens_details"@) {
        Some(d) => count_at(d, "thinking_tokens"@),
        None => None,
    }
}

/// The passes of a usage report.
pub open spec fn passes(v: JsonView) -> Seq<JsonView> {
    match v {
        JsonView::Object(m) => if m.contains_key("iterations"@) {
            match m["iterations"@] {
                JsonView::Array(items) => items,
                _ => Seq::empty(),
            }
        } else {
            Seq::empty()
        },
        _ => Seq::empty(),
    }
}

/// The passes are smaller than the report, where there are any.
pub proof fn lemma_passes(v: JsonView)
    ensures
        passes(v).len() > 0 ==> decreases_to!(v => passes(v)),
        passes(v) == items_at(v, "iterations"@),
{
    if passes(v).len() > 0 {
        assert(decreases_to!(v => v->Object_0["iterations"@]));
        assert(decreases_to!(v->Object_0["iterations"@] => v->Object_0["iterations"@]->Array_0));
    }
}

/// Whether a value can be a usage report.
pub open spec fn usage_ok(v: JsonView) -> bool
    decreases v, 0int,
{
    &&& v is Object
    &&& count_ok(v, "input_tokens"@)
    &&& count_ok(v, "output_tokens"@)
    &&& count_ok(v, "cache_creation_input_tokens"@)
    &&& count_ok(v, "cache_read_input_tokens"@)
    &&& details_ok(v)
    &&& items_ok(v, "iterations"@)
    &&& (passes(v).len() > 0 ==> {
        proof {
            lemma_passes(v);
        }
        usages_ok(passes(v), passes(v).len() as int)
    })
}

/// Whether the first `n` values can be usage reports.
pub open spec fn usages_ok(items: Seq<JsonView>, n: int) -> bool
    decreases items, n,
{
    if n <= 0 || n > items.len() {
        true
    } else {
        usages_ok(items, n - 1) && usage_ok(items[n - 1])
    }
}

/// The usage that a report stands for. When there are passes, the top-level
/// counters describe only the final one, so the passes are summed.
pub open spec fn usage_of(v: JsonView) -> Usage
    decreases v, 0int,
{
    if passes(v).len() > 0 {
        proof {
            lemma_passes(v);
        }
        summed(passes(v), passes(v).len() as int)
    } else {
        Usage {
            input_tokens: count_at(v, "input_tokens"@),
            output_tokens: count_at(v, "output_tokens"@),
            total_tokens: None,
            cached_input_tokens: count_at(v, "cache_read_input_tokens"@),
            cache_creation_input_tokens: count_at(v, "cache_creation_input_tokens"@),
            reasoning_tokens: thinking_tokens(v),
            tool_use_prompt_tokens: None,
        }
    }
}

/// The sum of the first `n` reports.
pub open spec fn summed(items: Seq<JsonView>, n: int) -> Usage
    decreases items, n,
{
    if n <= 0 || n > items.len() {
        no_usage()
    } else {
        summed(items, n - 1).plus(usage_of(items[n - 1]))
    }
}

fn details_readable(v: &Json) -> (r: bool)
    ensures
        r == details_ok(v@),
{
    match wire::value(v, "output_tokens_details") {
        Some(d) => matches!(d, Json::Object(_)) && wire::may_be_count(d, "thinking_tokens"),
        None => true,
    }
}

proof fn lemma_usages_broken(items: Seq<JsonView>, i: int)
    requires
        0 <= i <= items.len(),
        !usages_ok(items, i),
    ensures
        !usages_ok(items, items.len() as int),
    decreases items.len() - i,
{
    if i < items.len() {
        lemma_usages_broken(items, i + 1);
    }
}

/// Whether a value can be a usage report.
pub fn may_be_usage(v: &Json) -> (r: bool)
    ensures
        r == usage_ok(v@),
    decreases v,
{
    proof {
        lemma_passes(v@);
    }
    if !(matches!(v, Json::Object(_)) && wire::may_be_count(v, "input_tokens")
        && wire::may_be_count(v, "output_tokens") && wire::may_be_count(
        v,
        "cache_creation_input_tokens",
    ) && wire::may_be_count(v, "cache_read_input_tokens") && details_readable(v)
        && wire::may_be_items(v, "iterations")) {
        return false;
    }
    if let Some(items) = wire::list(v, "iterations") {
        let ghost all = views(items@);
        let mut i: usize = 0;
        while i < items.len()
            invariant
                i <= items@.len(),
                all == views(items@),
                all == passes(v@),
                usages_ok(all, i as int),
                decreases_to!(*v => *items),
                usage_ok(v@) == usages_ok(all, all.len() as int),
            decreases items@.len() - i,
        {
            assert(decreases_to!(*items => items@[i as int]));
            assert(all[i as int] == items@[i as int]@);
            if !may_be_usage(&items[i]) {
                proof {
                    lemma_usages_broken(all, i + 1);
                }
                return false;
            }
            i += 1;
        }
    }
    true
}

/// The usage that a report stands for.
pub fn to_usage(v: &Json) -> (r: Usage)
    ensures
        r == usage_of(v@),
    decreases v,
{
    proof {
        lemma_passes(v@);
    }
    if let Some(items) = wire::list(v, "iterations") {
        if items.len() > 0 {
            let ghost all = views(items@);
            let mut total: Usage = Usage::default();
            let mut i: usize = 0;
            while i < items.len()
                invariant
                    i <= items@.len(),
                    all == views(items@),
                    total == summed(all, i as int),
                    decreases_to!(*v => *items),
                decreases items@.len() - i,
            {
                assert(decreases_to!(*items => items@[i as int]));
                assert(all[i as int] == items@[i as int]@);
                let pass: Usage = to_usage(&items[i]);
                total.add_from(&pass);
                i += 1;
            }
            return total;
        }
    }
    let reasoning_tokens: Option<u64> = match wire::value(v, "output_tokens_details") {
        Some(d) => wire::count(d, "thinking_tokens"),
        None => None,
    };
    Usage {
        input_tokens: wire::count(v, "input_tokens"),
        output_tokens: wire::count(v, "output_tokens"),
        total_tokens: None,
        cached_input_tokens: wire::count(v, "cache_read_input_tokens"),
        cache_creation_input_tokens: wire::count(v, "cache_creation_input_tokens"),
        reasoning_tokens,
        tool_use_prompt_tokens: None,
    }
}

// ---------------------------------------------------------------------------
// Content blocks
// ---------------------------------------------------------------------------

/// Whether a block type is that of a tool that the provider runs.
pub open spec fn is_server_tool(kind: Seq<char>) -> bool {
    is_suffix("_tool_use"@, kind) || is_suffix("_tool_result"@, kind)
}

/// Identify provider-executed content blocks by their type suffix.
pub fn is_server_tool_block(kind: &str) -> (r: bool)
    ensures
        r == is_server_tool(kind@),
{
    ends_with(kind, "_tool_use") || ends_with(kind, "_tool_result")
}

/// Whether a value can be a content block.
pub open spec fn block_ok(v: JsonView) -> bool {
    &&& v is Object
    &&& tag_ok(v, "type"@)
    &&& text_ok(v, "text"@)
    &&& text_ok(v, "thinking"@)
    &&& text_ok(v, "signature"@)
    &&& text_ok(v, "data"@)
    &&& text_ok(v, "id"@)
    &&& text_ok(v, "name"@)
    &&& list_ok(v, "citations"@)
}

/// Whether a value can be a content block.
pub fn may_be_block(v: &Json) -> (r: bool)
    ensures
        r == block_ok(v@),
{
    matches!(v, Json::Object(_)) && wire::may_be_tag(v, "type") && wire::may_be_text(v, "text")
        && wire::may_be_text(v, "thinking") && wire::may_be_text(v, "signature")
        && wire::may_be_text(v, "data") && wire::may_be_text(v, "id") && wire::may_be_text(
        v,
        "name",
    ) && wire::may_be_list(v, "citations")
}

/// An object without a member, where the member is null.
pub open spec fn without_null(m: Map<Seq<char>, JsonView>, key: Seq<char>) -> Map<
    Seq<char>,
    JsonView,
> {
    if m.contains_key(key) && m[key] is Null {
        m.remove(key)
    } else {
        m
    }
}

/// The raw provider JSON of a block that is kept for replay: all but the
/// fields of readable blocks, and without nulls in the known ones.
pub open spec fn raw_block(v: JsonView) -> JsonView {
    let m = v->Object_0;
    JsonView::Object(
        without_null(
            without_null(
                without_null(
                    without_null(
                        m.remove("text"@).remove("thinking"@).remove("signature"@).remove(
                            "data"@,
                        ).remove("citations"@),
                        "id"@,
                    ),
                    "name"@,
                ),
                "input"@,
            ),
            "content"@,
        ).insert("type"@, JsonView::String(tag_at(v, "type"@))),
    )
}

fn drop_null(object: &mut JsonObject, key: &str)
    ensures
        final(object)@ == without_null(old(object)@, key@),
{
    let null: bool = match object.get(key) {
        Some(v) => v.is_null(),
        None => false,
    };
    if null {
        let _ = object.remove(key);
    }
}

/// Rebuild the raw provider JSON of a block that is kept for replay.
pub fn to_raw(v: &Json) -> (r: Json)
    requires
        v@ is Object,
    ensures
        r@ == raw_block(v@),
{
    let mut object: JsonObject = match v {
        Json::Object(o) => o.clone(),
        _ => JsonObject::new(),
    };
    let _ = object.remove("text");
    let _ = object.remove("thinking");
    let _ = object.remove("signature");
    let _ = object.remove("data");
    let _ = object.remove("citations");
    drop_null(&mut object, "id");
    drop_null(&mut object, "name");
    drop_null(&mut object, "input");
    drop_null(&mut object, "content");
    Json::Object(object.put("type", Json::text(wire::tag(v, "type"))))
}

/// An extra in the `anthropic` namespace.
pub open spec fn anthropic_member(key: Seq<char>, value: JsonView) -> MetadataView {
    no_metadata().insert("anthropic"@, JsonView::Object(no_members().insert(key, value)))
}

/// An extra in the `anthropic` namespace.
pub fn anthropic_metadata(key: &str, value: Json) -> (r: ProviderMetadata)
    ensures
        r@ == anthropic_member(key@, value@),
{
    ProviderMetadata::with("anthropic", Json::Object(JsonObject::new().put(key, value)))
}

/// Reasoning of one piece.
pub open spec fn reasoning_piece(content: ReasoningContentView) -> ReasoningPartView {
    ReasoningPartView { id: None, content: seq![content], provider_metadata: no_metadata() }
}

/// Reasoning of one piece.
pub fn one_piece(content: ReasoningContent) -> (r: ReasoningPart)
    ensures
        r@ == reasoning_piece(content@),
{
    let mut pieces: Vec<ReasoningContent> = Vec::new();
    pieces.push(content);
    assert(views(pieces@) =~= seq![content@]);
    ReasoningPart { id: None, content: pieces, provider_metadata: ProviderMetadata::new() }
}

/// The extras of a text with citations.
pub open spec fn citation_extras(citations: Seq<JsonView>) -> MetadataView {
    if citations.len() > 0 {
        anthropic_member("citations"@, JsonView::Array(citations))
    } else {
        no_metadata()
    }
}

/// The arguments of a call, as text.
pub open spec fn input_text(input: Option<JsonView>) -> Seq<char> {
    match input {
        Some(input) => json_text(input),
        None => Seq::empty(),
    }
}

/// The part that a content block is, if it is one.
pub open spec fn block_part(v: JsonView) -> Option<AssistantPartView> {
    let kind = tag_at(v, "type"@);
    if kind == "text"@ {
        Some(
            AssistantPartView::Text {
                text: tag_at(v, "text"@),
                provider_metadata: citation_extras(items_at(v, "citations"@)),
            },
        )
    } else if kind == "thinking"@ {
        Some(
            AssistantPartView::Reasoning(
                reasoning_piece(
                    ReasoningContentView::Text {
                        text: tag_at(v, "thinking"@),
                        signature: filled(text_at(v, "signature"@)),
                    },
                ),
            ),
        )
    } else if kind == "redacted_thinking"@ {
        Some(
            AssistantPartView::Reasoning(
                reasoning_piece(ReasoningContentView::Redacted { data: tag_at(v, "data"@) }),
            ),
        )
    } else if kind == "tool_use"@ {
        Some(
            AssistantPartView::ToolCall(
                ToolCallView {
                    call_id: tag_at(v, "id"@),
                    item_id: None,
                    provider_call_id: None,
                    name: tag_at(v, "name"@),
                    arguments: input_text(value_at(v, "input"@)),
                    provider_metadata: no_metadata(),
                },
            ),
        )
    } else if kind == "compaction"@ {
        Some(
            AssistantPartView::Compaction(
                CompactionPartView {
                    id: None,
                    content: text_at(v, "content"@),
                    encrypted_content: None,
                },
            ),
        )
    } else if is_server_tool(kind) {
        Some(
            AssistantPartView::ProviderTool {
                provider_tool: ProviderToolPartView {
                    id: text_at(v, "id"@),
                    kind,
                    namespace: "anthropic"@,
                    payload: raw_block(v),
                },
            },
        )
    } else {
        None
    }
}

/// The part that a content block is, if it is one.
pub fn decode_content_block(v: &Json) -> (r: Option<AssistantPart>)
    requires
        v@ is Object,
    ensures
        opt(r) == block_part(v@),
{
    let kind: &str = wire::tag(v, "type");
    if same(kind, "text") {
        let mut metadata: ProviderMetadata = ProviderMetadata::new();
        if let Some(citations) = wire::list(v, "citations") {
            if citations.len() > 0 {
                let list: Vec<Json> = citations.clone();
                assert(views(list@) =~= views(citations@));
                metadata = anthropic_metadata("citations", Json::Array(list));
            }
        }
        Some(
            AssistantPart::Text {
                text: wire::tag(v, "text").to_owned(),
                provider_metadata: metadata,
            },
        )
    } else if same(kind, "thinking") {
        Some(
            AssistantPart::Reasoning(
                one_piece(
                    ReasoningContent::Text {
                        text: wire::tag(v, "thinking").to_owned(),
                        signature: unless_empty(wire::text(v, "signature")),
                    },
                ),
            ),
        )
    } else if same(kind, "redacted_thinking") {
        Some(
            AssistantPart::Reasoning(
                one_piece(ReasoningContent::Redacted { data: wire::tag(v, "data").to_owned() }),
            ),
        )
    } else if same(kind, "tool_use") {
        let arguments: String = match wire::value(v, "input") {
            Some(input) => input.to_text(),
            None => String::new(),
        };
        Some(
            AssistantPart::ToolCall(
                ToolCall {
                    call_id: wire::tag(v, "id").to_owned(),
                    item_id: None,
                    provider_call_id: None,
                    name: wire::tag(v, "name").to_owned(),
                    arguments,
                    provider_metadata: ProviderMetadata::new(),
                },
            ),
        )
    } else if same(kind, "compaction") {
        Some(
            AssistantPart::Compaction(
                CompactionPart {
                    id: None,
                    content: wire::owned_text(v, "content"),
                    encrypted_content: None,
                },
            ),
        )
    } else if is_server_tool_block(kind) {
        // Anthropic correlates server tool results with these blocks on replay.
        Some(
            AssistantPart::ProviderTool {
                provider_tool: ProviderToolPart {
                    id: wire::owned_text(v, "id"),
                    kind: kind.to_owned(),
                    namespace: "anthropic".to_owned(),
                    payload: to_raw(v),
                },
            },
        )
    } else {
        None
    }
}

// ---------------------------------------------------------------------------
// Messages
// ---------------------------------------------------------------------------

/// The finish for a stop reason.
pub open spec fn finish_of(reason: Option<Seq<char>>) -> FinishView {
    match reason {
        Some(reason) => FinishView {
            reason: if reason == "end_turn"@ || reason == "stop_sequence"@ {
                FinishReason::Stop
            } else if reason == "max_tokens"@ || reason == "model_context_window_exceeded"@ {
                FinishReason::Length
            } else if reason == "tool_use"@ {
                FinishReason::ToolCalls
            } else if reason == "refusal"@ {
                FinishReason::ContentFilter
            } else if reason == "pause_turn"@ || reason == "compaction"@ {
                FinishReason::Paused
            } else {
                FinishReason::Other
            },
            raw: Some(reason),
        },
        None => FinishView { reason: FinishReason::Stop, raw: None },
    }
}

/// The finish for a stop reason.
pub fn finish_from_stop_reason(reason: Option<&str>) -> (r: Finish)
    ensures
        r@ == finish_of(opt(reason)),
{
    let reason: &str = match reason {
        Some(reason) => reason,
        None => return Finish::new(FinishReason::Stop),
    };
    let mapped: FinishReason = if same(reason, "end_turn") || same(reason, "stop_sequence") {
        FinishReason::Stop
    } else if same(reason, "max_tokens") || same(reason, "model_context_window_exceeded") {
        FinishReason::Length
    } else if same(reason, "tool_use") {
        FinishReason::ToolCalls
    } else if same(reason, "refusal") {
        FinishReason::ContentFilter
    } else if same(reason, "pause_turn") || same(reason, "compaction") {
        FinishReason::Paused
    } else {
        FinishReason::Other
    };
    Finish::with_raw(mapped, reason)
}

/// Whether a value can be a message.
pub open spec fn message_ok(v: JsonView) -> bool {
    &&& v is Object
    &&& text_ok(v, "id"@)
    &&& text_ok(v, "model"@)
    &&& text_ok(v, "stop_reason"@)
    &&& items_ok(v, "content"@)
    &&& forall|i: int|
        0 <= i < items_at(v, "content"@).len() ==> block_ok(#[trigger] items_at(v, "content"@)[i])
    &&& match value_at(v, "usage"@) {
        Some(u) => usage_ok(u),
        None => true,
    }
}

/// Whether a value can be a message.
pub fn may_be_message(v: &Json) -> (r: bool)
    ensures
        r == message_ok(v@),
{
    if !(matches!(v, Json::Object(_)) && wire::may_be_text(v, "id") && wire::may_be_text(
        v,
        "model",
    ) && wire::may_be_text(v, "stop_reason") && wire::may_be_items(v, "content")) {
        return false;
    }
    let usage_readable: bool = match wire::value(v, "usage") {
        Some(u) => may_be_usage(u),
        None => true,
    };
    if !usage_readable {
        return false;
    }
    if let Some(items) = wire::list(v, "content") {
        let mut i: usize = 0;
        while i < items.len()
            invariant
                i <= items@.len(),
                items_at(v@, "content"@) == views(items@),
                forall|k: int| 0 <= k < i ==> block_ok(#[trigger] items_at(v@, "content"@)[k]),
            decreases items@.len() - i,
        {
            assert(items_at(v@, "content"@)[i as int] == items@[i as int]@);
            if !may_be_block(&items[i]) {
                return false;
            }
            i += 1;
        }
    }
    true
}

/// The parts of the first `n` content blocks.
pub open spec fn block_parts(content: Seq<JsonView>, n: int) -> Seq<AssistantPartView>
    decreases n,
{
    if n <= 0 {
        Seq::empty()
    } else {
        match block_part(content[n - 1]) {
            Some(part) => block_parts(content, n - 1).push(part),
            None => block_parts(content, n - 1),
        }
    }
}

fn decode_content(v: &Json) -> (r: Vec<AssistantPart>)
    requires
        message_ok(v@),
    ensures
        views(r@) == block_parts(
            items_at(v@, "content"@),
            items_at(v@, "content"@).len() as int,
        ),
{
    let mut parts: Vec<AssistantPart> = Vec::new();
    if let Some(content) = wire::list(v, "content") {
        let ghost all = views(content@);
        let mut i: usize = 0;
        while i < content.len()
            invariant
                i <= content@.len(),
                all == views(content@),
                all == items_at(v@, "content"@),
                message_ok(v@),
                views(parts@) == block_parts(all, i as int),
            decreases content@.len() - i,
        {
            assert(all[i as int] == content@[i as int]@);
            assert(block_ok(items_at(v@, "content"@)[i as int]));
            if let Some(part) = decode_content_block(&content[i]) {
                parts.push(part);
            }
            i += 1;
        }
    }
    parts
}

/// Extras with a member of a message, where it is there.
pub open spec fn with_extra(metadata: MetadataView, v: JsonView, key: Seq<char>) -> MetadataView {
    match value_at(v, key) {
        Some(value) => merge_objects(metadata, anthropic_member(key, value)),
        None => metadata,
    }
}

/// Whether a message has none of the fields that messages have.
pub open spec fn is_blank_message(v: JsonView) -> bool {
    text_at(v, "id"@) is None && items_at(v, "content"@).len() == 0 && text_at(v, "stop_reason"@)
        is None && value_at(v, "usage"@) is None
}

/// The result that a message is.
pub open spec fn decoded_message(v: JsonView) -> Result<GenerateResultView, ErrorView> {
    let content = items_at(v, "content"@);
    if is_blank_message(v) {
        Err(
            new_error(
                ErrorKind::MalformedResponse,
                "anthropic: response body has no recognizable fields"@,
            ),
        )
    } else {
        match finalized(
            block_parts(content, content.len() as int),
            finish_of(text_at(v, "stop_reason"@)),
            ApiProfile::AnthropicMessages,
        ) {
            Ok((content, finish)) => Ok(
                GenerateResultView {
                    content,
                    finish,
                    usage: match value_at(v, "usage"@) {
                        Some(u) => usage_of(u),
                        None => no_usage(),
                    },
                    warnings: Seq::empty(),
                    response: ResponseMetadataView {
                        id: text_at(v, "id"@),
                        model: text_at(v, "model"@),
                        request_id: None,
                    },
                    provider_metadata: with_extra(
                        with_extra(no_metadata(), v, "context_management"@),
                        v,
                        "stop_details"@,
                    ),
                },
            ),
            Err(e) => Err(e),
        }
    }
}

fn add_extra(metadata: &mut ProviderMetadata, v: &Json, key: &str)
    ensures
        final(metadata)@ == with_extra(old(metadata)@, v@, key@),
{
    if let Some(value) = wire::value(v, key) {
        metadata.merge(anthropic_metadata(key, value.clone()));
    }
}

fn decode_message(v: &Json) -> (r: Result<GenerateResult, Error>)
    requires
        message_ok(v@),
    ensures
        match r {
            Ok(result) => decoded_message(v@) == Ok::<GenerateResultView, ErrorView>(result@),
            Err(e) => decoded_message(v@) == Err::<GenerateResultView, ErrorView>(e@),
        },
{
    let no_content: bool = match wire::list(v, "content") {
        Some(content) => content.len() == 0,
        None => true,
    };
    if wire::text(v, "id").is_none() && no_content && wire::text(v, "stop_reason").is_none()
        && wire::value(v, "usage").is_none() {
        return Err(Error::malformed("anthropic: response body has no recognizable fields"));
    }
    let finish: Finish = finish_from_stop_reason(wire::text(v, "stop_reason"));
    let (content, finish) = match finalize_tool_calls(
        decode_content(v),
        finish,
        ApiProfile::AnthropicMessages,
    ) {
        Ok(done) => done,
        Err(e) => return Err(e),
    };
    let mut provider_metadata: ProviderMetadata = ProviderMetadata::new();
    add_extra(&mut provider_metadata, v, "context_management");
    add_extra(&mut provider_metadata, v, "stop_details");
    let usage: Usage = match wire::value(v, "usage") {
        Some(u) => to_usage(u),
        None => Usage::default(),
    };
    Ok(
        GenerateResult {
            content,
            finish,
            usage,
            warnings: Vec::new(),
            response: ResponseMetadata {
                id: wire::owned_text(v, "id"),
                model: wire::owned_text(v, "model"),
                request_id: None,
            },
            provider_metadata,
        },
    )
}

/// The result that a response body holds.
pub open spec fn decoded_body(body: Seq<u8>) -> Result<GenerateResultView, ErrorView> {
    match json_parse_bytes(body) {
        Ok(v) => if message_ok(v) {
            decoded_message(v)
        } else {
            Err(
                new_error(
                    ErrorKind::MalformedResponse,
                    "anthropic: invalid response JSON: "@ + UNEXPECTED_TYPE@,
                ),
            )
        },
        Err(e) => Err(
            new_error(
                ErrorKind::MalformedResponse,
                "anthropic: invalid response JSON: "@ + e,
            ),
        ),
    }
}

/// Decode a buffered response body.
pub fn decode_anthropic_response(body: &[u8]) -> (r: Result<GenerateResult, Error>)
    ensures
        match r {
            Ok(result) => decoded_body(body@) == Ok::<GenerateResultView, ErrorView>(result@),
            Err(e) => decoded_body(body@) == Err::<GenerateResultView, ErrorView>(e@),
        },
{
    match Json::parse_bytes(body) {
        Ok(v) => if may_be_message(&v) {
            decode_message(&v)
        } else {
            Err(
                Error::malformed(
                    cat("anthropic: invalid response JSON: ", UNEXPECTED_TYPE).as_str(),
                ),
            )
        },
        Err(e) => Err(
            Error::malformed(cat("anthropic: invalid response JSON: ", e.as_str()).as_str()),
        ),
    }
}

// ---------------------------------------------------------------------------
// Errors
// ---------------------------------------------------------------------------

/// Whether the message of an invalid request blames the length of the prompt.
pub open spec fn blames_length(message: Seq<char>) -> bool {
    occurs("prompt is too long"@, message) || occurs("context window"@, message) || occurs(
        "context length"@,
        message,
    )
}

/// The kind of an error by its type.
pub open spec fn error_kind(
    error_type: Option<Seq<char>>,
    message: Seq<char>,
    fallback: ErrorKind,
) -> ErrorKind {
    policy_kind(
        error_type,
        match error_type {
            Some(t) => if t == "authentication_error"@ {
                ErrorKind::Authentication
            } else if t == "permission_error"@ || t == "billing_error"@ {
                ErrorKind::Permission
            } else if t == "not_found_error"@ {
                ErrorKind::NotFound
            } else if t == "rate_limit_error"@ {
                ErrorKind::RateLimited
            } else if t == "overloaded_error"@ {
                ErrorKind::Overloaded
            } else if t == "timeout_error"@ {
                ErrorKind::Timeout
            } else if t == "api_error"@ {
                ErrorKind::Provider
            } else if t == "request_too_large"@ {
                ErrorKind::InvalidRequest
            } else if t == "invalid_request_error"@ {
                if blames_length(message) {
                    ErrorKind::ContextLength
                } else {
                    ErrorKind::InvalidRequest
                }
            } else {
                fallback
            },
            None => fallback,
        },
    )
}

/// Classify an Anthropic error object by its `type`, falling back to
/// `fallback` for unknown types. Shared by the HTTP and stream error paths so
/// both report the same kind for the same provider error.
pub fn anthropic_error_kind(
    error_type: Option<&str>,
    message: &str,
    fallback: ErrorKind,
) -> (r: ErrorKind)
    ensures
        r == error_kind(opt(error_type), message@, fallback),
{
    let kind: ErrorKind = match error_type {
        Some(t) => {
            if same(t, "authentication_error") {
                ErrorKind::Authentication
            } else if same(t, "permission_error") || same(t, "billing_error") {
                ErrorKind::Permission
            } else if same(t, "not_found_error") {
                ErrorKind::NotFound
            } else if same(t, "rate_limit_error") {
                ErrorKind::RateLimited
            } else if same(t, "overloaded_error") {
                ErrorKind::Overloaded
            } else if same(t, "timeout_error") {
                ErrorKind::Timeout
            } else if same(t, "api_error") {
                ErrorKind::Provider
            } else if same(t, "request_too_large") {
                ErrorKind::InvalidRequest
            } else if same(t, "invalid_request_error") {
                if contains(message, "prompt is too long") || contains(message, "context window")
                    || contains(message, "context length") {
                    ErrorKind::ContextLength
                } else {
                    ErrorKind::InvalidRequest
                }
            } else {
                fallback
            }
        },
        None => fallback,
    };
    content_policy_kind(error_type, kind)
}

/// Whether a value can be an error envelope.
pub open spec fn envelope_ok(v: JsonView) -> bool {
    &&& v is Object
    &&& text_ok(v, "request_id"@)
    &&& match value_at(v, "error"@) {
        Some(e) => e is Object && text_ok(e, "type"@) && text_ok(e, "message"@),
        None => true,
    }
}

/// The error envelope in a body, null where there is none.
pub open spec fn envelope_of(body: Seq<u8>) -> JsonView {
    match json_parse_bytes(body) {
        Ok(v) => if envelope_ok(v) {
            v
        } else {
            JsonView::Null
        },
        Err(_) => JsonView::Null,
    }
}

/// A text of the error in an envelope.
pub open spec fn error_text(envelope: JsonView, key: Seq<char>) -> Option<Seq<char>> {
    match value_at(envelope, "error"@) {
        Some(e) => text_at(e, key),
        None => None,
    }
}

/// The error that an answer reports.
pub open spec fn anthropic_error(status: u16, headers: HeadersView, body: Seq<u8>) -> ErrorView {
    let v = envelope_of(body);
    let error_type = error_text(v, "type"@);
    let message = error_text(v, "message"@);
    let kind = error_kind(
        error_type,
        match message {
            Some(message) => message,
            None => Seq::empty(),
        },
        status_kind(status),
    );
    let error = new_error(
        kind,
        match message {
            Some(message) => message,
            None => fallback_message(ApiProfile::AnthropicMessages, status, body),
        },
    ).with_origin("anthropic"@).with_code_opt(error_type);
    enriched(
        match text_at(v, "request_id"@) {
            Some(id) => error.with_request_id(id),
            None => error,
        },
        status,
        headers,
    )
}

fn parse_envelope(body: &[u8]) -> (r: Json)
    ensures
        r@ == envelope_of(body@),
{
    match Json::parse_bytes(body) {
        Ok(v) => {
            let error_readable: bool = match wire::value(&v, "error") {
                Some(e) => matches!(e, Json::Object(_)) && wire::may_be_text(e, "type")
                    && wire::may_be_text(e, "message"),
                None => true,
            };
            if matches!(v, Json::Object(_)) && wire::may_be_text(&v, "request_id")
                && error_readable {
                v
            } else {
                Json::Null
            }
        },
        Err(_) => Json::Null,
    }
}

fn text_of_error(v: &Json, key: &str) -> (r: Option<String>)
    ensures
        opt(r) == error_text(v@, key@),
{
    match wire::value(v, "error") {
        Some(e) => wire::owned_text(e, key),
        None => None,
    }
}

/// Decode the error that an answer reports.
pub fn decode_anthropic_error(
    status: u16,
    headers: &http::HeaderMap<http::HeaderValue>,
    body: &[u8],
) -> (r: Error)
    ensures
        r@ == anthropic_error(status, headers_view(*headers), body@),
{
    let v: Json = parse_envelope(body);
    let error_type: Option<String> = text_of_error(&v, "type");
    let parsed_message: Option<String> = text_of_error(&v, "message");
    let empty: String = String::new();
    let known: &str = match &parsed_message {
        Some(message) => message.as_str(),
        None => empty.as_str(),
    };
    let kind: ErrorKind = anthropic_error_kind(
        as_deref(&error_type),
        known,
        error_kind_for_status(status),
    );
    let message: String = match parsed_message {
        Some(message) => message,
        None => fallback_provider_error_message(ApiProfile::AnthropicMessages, status, body),
    };
    let mut error: Error = Error::new(kind, message.as_str()).with_origin(
        ApiProfile::AnthropicMessages.as_str(),
    );
    if let Some(error_type) = &error_type {
        error = error.with_code(error_type.as_str());
    }
    if let Some(request_id) = wire::text(&v, "request_id") {
        error = error.with_request_id(request_id);
    }
    enrich_error_from_headers(error, status, headers)
}

} // verus!
