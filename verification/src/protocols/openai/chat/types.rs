//! Decoding of Chat Completions output.
use vstd::prelude::*;

use super::{ChatDialect, OutputTokenAccounting};
use crate::error::{new_error, Error, ErrorKind, ErrorView};
use crate::headers::{headers_view, HeadersView};
use crate::http_support::{enrich_error_from_headers, enriched, error_kind_for_status, status_kind};
use crate::json::{
    distinct_keys, entries_view, json_parse_bytes, json_text, lemma_key, no_members, with_member,
    Json, JsonObject, JsonView,
};
use crate::message::{
    AssistantPart, AssistantPartView, ReasoningContent, ReasoningContentView, ReasoningPart,
    ReasoningPartView, ToolCall, ToolCallView,
};
use crate::metadata::{no_metadata, MetadataView, ProviderMetadata};
use crate::model::{opt, views};
use crate::protocols::error::{
    content_policy_kind, fallback_error, fallback_provider_error, policy_kind,
};
use crate::protocols::normalize::{normalize_usage, normalized_usage};
use crate::protocols::openai::responses::types::{
    count_inside, counts_ok, inner_count, may_hold_counts, openai_member, openai_metadata,
};
use crate::protocols::openai::shared::{code_of, code_text};
use crate::protocols::{finalize_tool_calls, finalized, ApiProfile};
use crate::response::{
    Finish, FinishReason, FinishView, GenerateResult, GenerateResultView, ResponseMetadata,
    ResponseMetadataView,
};
use crate::text::{cat, cat3, decimal, decimal_text, same, text_is};
use crate::usage::{count, no_usage, saturated, Usage};
use crate::util::{truncate_for_error, truncated};
use crate::wire;
use crate::wire::{
    count_at, count_ok, filled, items_at, items_ok, list_at, list_ok, tag_at, text_at, text_ok,
    value_at, UNEXPECTED_TYPE,
};

verus! {

broadcast use {crate::model::group_views, crate::json::array_view};

// ---------------------------------------------------------------------------
// Usage
// ---------------------------------------------------------------------------

/// Whether a value can be a usage report.
pub open spec fn usage_ok(v: JsonView) -> bool {
    &&& v is Object
    &&& count_ok(v, "prompt_tokens"@)
    &&& count_ok(v, "completion_tokens"@)
    &&& count_ok(v, "total_tokens"@)
    &&& counts_ok(v, "prompt_tokens_details"@, "cached_tokens"@, "cache_write_tokens"@)
    &&& counts_ok(v, "completion_tokens_details"@, "reasoning_tokens"@, "reasoning_tokens"@)
}

/// The tokens of the answer: those of a report without reasoning get the
/// reasoning added.
pub open spec fn output_count(
    completion: Option<u64>,
    reasoning: Option<u64>,
    accounting: OutputTokenAccounting,
) -> Option<u64> {
    match accounting {
        OutputTokenAccounting::IncludesReasoning => completion,
        OutputTokenAccounting::ExcludesReasoning => if completion is None && reasoning is None {
            None
        } else {
            Some(saturated(count(completion), count(reasoning)))
        },
    }
}

/// The usage that a report stands for.
pub open spec fn usage_of(v: JsonView, accounting: OutputTokenAccounting) -> Usage {
    let reasoning = inner_count(v, "completion_tokens_details"@, "reasoning_tokens"@);
    normalized_usage(
        count_at(v, "prompt_tokens"@),
        output_count(count_at(v, "completion_tokens"@), reasoning, accounting),
        count_at(v, "total_tokens"@),
        inner_count(v, "prompt_tokens_details"@, "cached_tokens"@),
        inner_count(v, "prompt_tokens_details"@, "cache_write_tokens"@),
        reasoning,
    )
}

/// Whether a value can be a usage report.
pub fn may_be_usage(v: &Json) -> (r: bool)
    ensures
        r == usage_ok(v@),
{
    matches!(v, Json::Object(_)) && wire::may_be_count(v, "prompt_tokens") && wire::may_be_count(
        v,
        "completion_tokens",
    ) && wire::may_be_count(v, "total_tokens") && may_hold_counts(
        v,
        "prompt_tokens_details",
        "cached_tokens",
        "cache_write_tokens",
    ) && may_hold_counts(v, "completion_tokens_details", "reasoning_tokens", "reasoning_tokens")
}

/// The usage that a report stands for.
pub fn to_usage(v: &Json, accounting: OutputTokenAccounting) -> (r: Usage)
    ensures
        r == usage_of(v@, accounting),
{
    let completion: Option<u64> = wire::count(v, "completion_tokens");
    let reasoning: Option<u64> = count_inside(v, "completion_tokens_details", "reasoning_tokens");
    let output: Option<u64> = match accounting {
        OutputTokenAccounting::IncludesReasoning => completion,
        OutputTokenAccounting::ExcludesReasoning => match (completion, reasoning) {
            (None, None) => None,
            (completion, reasoning) => {
                let a: u64 = match completion {
                    Some(n) => n,
                    None => 0,
                };
                let b: u64 = match reasoning {
                    Some(n) => n,
                    None => 0,
                };
                Some(a.saturating_add(b))
            },
        },
    };
    normalize_usage(
        wire::count(v, "prompt_tokens"),
        output,
        wire::count(v, "total_tokens"),
        count_inside(v, "prompt_tokens_details", "cached_tokens"),
        count_inside(v, "prompt_tokens_details", "cache_write_tokens"),
        reasoning,
    )
}

// ---------------------------------------------------------------------------
// Provider extras
// ---------------------------------------------------------------------------

/// Whether a member of a usage report has a meaning of its own.
pub open spec fn is_usage_key(key: Seq<char>) -> bool {
    key == "prompt_tokens"@ || key == "completion_tokens"@ || key == "total_tokens"@ || key
        == "prompt_tokens_details"@ || key == "completion_tokens_details"@
}

/// The other members of a usage report that are not null.
pub open spec fn other_members(m: Map<Seq<char>, JsonView>) -> Map<Seq<char>, JsonView> {
    Map::new(
        |k: Seq<char>| m.contains_key(k) && !is_usage_key(k) && !(m[k] is Null),
        |k: Seq<char>| m[k],
    )
}

/// The members of a usage report that are kept as extras.
pub open spec fn usage_extras(usage: Option<JsonView>) -> Map<Seq<char>, JsonView> {
    match usage {
        Some(JsonView::Object(m)) => other_members(m),
        _ => no_members(),
    }
}

/// The extras that OpenRouter reports of a response.
pub open spec fn response_extras(provider: Option<JsonView>, usage: Option<JsonView>) -> Map<
    Seq<char>,
    JsonView,
> {
    with_member(
        with_member(no_members(), "provider"@, provider),
        "usage"@,
        if usage_extras(usage) =~= no_members() {
            None
        } else {
            Some(JsonView::Object(usage_extras(usage)))
        },
    )
}

/// The extras of a response.
pub open spec fn result_extras(
    provider: Option<JsonView>,
    usage: Option<JsonView>,
    dialect: ChatDialect,
) -> MetadataView {
    if dialect is OpenRouter && response_extras(provider, usage) != no_members() {
        no_metadata().insert("openrouter"@, JsonView::Object(response_extras(provider, usage)))
    } else {
        no_metadata()
    }
}

fn has_usage_key(key: &str) -> (r: bool)
    ensures
        r == is_usage_key(key@),
{
    same(key, "prompt_tokens") || same(key, "completion_tokens") || same(key, "total_tokens")
        || same(key, "prompt_tokens_details") || same(key, "completion_tokens_details")
}

fn other_fields(object: &JsonObject) -> (r: JsonObject)
    ensures
        r@ == other_members(object@),
{
    let entries: &Vec<(String, Json)> = object.as_entries();
    let ghost all = entries@;
    let mut fields: JsonObject = JsonObject::new();
    assert(entries_view(all.take(0)) =~= no_members());
    assert(fields@ =~= other_members(entries_view(all.take(0))));
    let mut i: usize = 0;
    while i < entries.len()
        invariant
            i <= entries@.len(),
            all == entries@,
            distinct_keys(all),
            fields@ == other_members(entries_view(all.take(i as int))),
        decreases entries@.len() - i,
    {
        let ghost before = entries_view(all.take(i as int));
        let ghost key = all[i as int].0@;
        let ghost value = all[i as int].1@;
        proof {
            assert(all.take(i + 1).drop_last() =~= all.take(i as int));
            assert(entries_view(all.take(i + 1)) == before.insert(key, value));
            if before.contains_key(key) {
                let j = lemma_key(all.take(i as int), key);
                assert(all[j].0@ != all[i as int].0@);
            }
        }
        if !has_usage_key(entries[i].0.as_str()) && !entries[i].1.is_null() {
            fields.insert(entries[i].0.clone(), entries[i].1.clone());
            assert(fields@ =~= other_members(before.insert(key, value)));
        } else {
            assert(fields@ =~= other_members(before.insert(key, value)));
        }
        i += 1;
    }
    assert(all.take(all.len() as int) =~= all);
    fields
}

/// The extras of a response.
pub fn result_provider_metadata(
    provider: Option<&Json>,
    usage: Option<&Json>,
    dialect: ChatDialect,
) -> (r: ProviderMetadata)
    ensures
        r@ == result_extras(opt(provider), opt(usage), dialect),
{
    if dialect != ChatDialect::OpenRouter {
        return ProviderMetadata::new();
    }
    let mut metadata: JsonObject = JsonObject::new();
    if let Some(provider) = provider {
        metadata = metadata.put("provider", provider.clone());
    }
    let fields: JsonObject = match usage {
        Some(Json::Object(object)) => other_fields(object),
        _ => JsonObject::new(),
    };
    assert(fields@ == usage_extras(opt(usage)));
    if !fields.is_empty() {
        metadata = metadata.put("usage", Json::Object(fields));
    }
    assert(metadata@ == response_extras(opt(provider), opt(usage)));
    if metadata.is_empty() {
        ProviderMetadata::new()
    } else {
        ProviderMetadata::with("openrouter", Json::Object(metadata))
    }
}

// ---------------------------------------------------------------------------
// Finish reasons
// ---------------------------------------------------------------------------

/// The finish reason that a reported one stands for.
pub open spec fn reason_of(reason: Seq<char>) -> FinishReason {
    if reason == "stop"@ {
        FinishReason::Stop
    } else if reason == "length"@ {
        FinishReason::Length
    } else if reason == "tool_calls"@ || reason == "function_call"@ {
        FinishReason::ToolCalls
    } else if reason == "content_filter"@ {
        FinishReason::ContentFilter
    } else if reason == "error"@ {
        FinishReason::Error
    } else {
        FinishReason::Other
    }
}

/// The finish that a reported reason stands for; the provider's own spelling
/// is kept where there is one.
pub open spec fn finish_of(reason: Seq<char>, native: Option<Seq<char>>) -> FinishView {
    FinishView {
        reason: reason_of(reason),
        raw: Some(
            match native {
                Some(native) => native,
                None => reason,
            },
        ),
    }
}

/// The finish reason that a reported one stands for.
pub fn map_chat_finish_reason(reason: &str) -> (r: FinishReason)
    ensures
        r == reason_of(reason@),
{
    if same(reason, "stop") {
        FinishReason::Stop
    } else if same(reason, "length") {
        FinishReason::Length
    } else if same(reason, "tool_calls") || same(reason, "function_call") {
        FinishReason::ToolCalls
    } else if same(reason, "content_filter") {
        FinishReason::ContentFilter
    } else if same(reason, "error") {
        FinishReason::Error
    } else {
        FinishReason::Other
    }
}

/// The finish that a reported reason stands for.
pub fn reported_finish(reason: &str, native: Option<&str>) -> (r: Finish)
    ensures
        r@ == finish_of(reason@, opt(native)),
{
    let raw: &str = match native {
        Some(native) => native,
        None => reason,
    };
    Finish::with_raw(map_chat_finish_reason(reason), raw)
}

// ---------------------------------------------------------------------------
// Reasoning
// ---------------------------------------------------------------------------

/// The piece of reasoning that a detail is.
pub open spec fn detail_content(detail: JsonView) -> Option<ReasoningContentView> {
    let kind = tag_at(detail, "type"@);
    if kind == "reasoning.text"@ {
        Some(
            ReasoningContentView::Text {
                text: tag_at(detail, "text"@),
                signature: text_at(detail, "signature"@),
            },
        )
    } else if kind == "reasoning.summary"@ {
        Some(ReasoningContentView::Summary { text: tag_at(detail, "summary"@) })
    } else if kind == "reasoning.encrypted"@ {
        Some(ReasoningContentView::Encrypted { data: tag_at(detail, "data"@) })
    } else {
        None
    }
}

/// The pieces of reasoning that the first `n` details are.
pub open spec fn contents_upto(details: Seq<JsonView>, n: int) -> Seq<ReasoningContentView>
    decreases n,
{
    if n <= 0 {
        Seq::empty()
    } else {
        match detail_content(details[n - 1]) {
            Some(content) => contents_upto(details, n - 1).push(content),
            None => contents_upto(details, n - 1),
        }
    }
}

/// The details of reasoning, where there are any.
pub open spec fn given_details(details: Option<Seq<JsonView>>) -> Seq<JsonView> {
    match details {
        Some(details) => details,
        None => Seq::empty(),
    }
}

/// The pieces of reasoning: typed ones where there are any, otherwise the
/// plain text.
pub open spec fn reasoning_content(details: Seq<JsonView>, plaintext: Option<Seq<char>>) -> Seq<
    ReasoningContentView,
> {
    let typed = contents_upto(details, details.len() as int);
    if typed.len() > 0 {
        typed
    } else {
        match filled(plaintext) {
            Some(text) => seq![ReasoningContentView::Text { text, signature: None }],
            None => Seq::empty(),
        }
    }
}

/// The extras of reasoning that came as details: the details, verbatim.
pub open spec fn reasoning_extras(details: Seq<JsonView>, dialect: ChatDialect) -> MetadataView {
    if details.len() > 0 {
        no_metadata().insert(
            dialect.api().namespace_text(),
            JsonView::Object(
                no_members().insert("reasoning_details"@, JsonView::Array(details)),
            ),
        )
    } else {
        no_metadata()
    }
}

/// The reasoning part of details and plain text.
pub open spec fn reasoning_of(
    details: Option<Seq<JsonView>>,
    plaintext: Option<Seq<char>>,
    dialect: ChatDialect,
) -> Option<ReasoningPartView> {
    let given = given_details(details);
    let content = reasoning_content(given, plaintext);
    if content.len() == 0 && given.len() == 0 {
        None
    } else {
        Some(
            ReasoningPartView {
                id: None,
                content,
                provider_metadata: reasoning_extras(given, dialect),
            },
        )
    }
}

fn content_from_detail(detail: &Json) -> (r: Option<ReasoningContent>)
    ensures
        opt(r) == detail_content(detail@),
{
    let kind: &str = wire::tag(detail, "type");
    if same(kind, "reasoning.text") {
        Some(
            ReasoningContent::Text {
                text: wire::tag(detail, "text").to_owned(),
                signature: wire::owned_text(detail, "signature"),
            },
        )
    } else if same(kind, "reasoning.summary") {
        Some(ReasoningContent::Summary { text: wire::tag(detail, "summary").to_owned() })
    } else if same(kind, "reasoning.encrypted") {
        Some(ReasoningContent::Encrypted { data: wire::tag(detail, "data").to_owned() })
    } else {
        None
    }
}

fn content_from_details(details: &Vec<Json>) -> (r: Vec<ReasoningContent>)
    ensures
        views(r@) == contents_upto(views(details@), details@.len() as int),
{
    let ghost all = views(details@);
    let mut content: Vec<ReasoningContent> = Vec::new();
    assert(views(content@) =~= contents_upto(all, 0));
    let mut i: usize = 0;
    while i < details.len()
        invariant
            i <= details@.len(),
            all == views(details@),
            views(content@) == contents_upto(all, i as int),
        decreases details@.len() - i,
    {
        assert(all[i as int] == details@[i as int]@);
        if let Some(piece) = content_from_detail(&details[i]) {
            content.push(piece);
        }
        i += 1;
    }
    content
}

/// Build a reasoning part from OpenRouter `reasoning_details` plus plaintext fallbacks.
pub fn reasoning_part_from_details(
    details: Option<&Vec<Json>>,
    plaintext: Option<&str>,
    dialect: ChatDialect,
) -> (r: Option<ReasoningPart>)
    ensures
        opt(r) == reasoning_of(
            match details {
                Some(list) => Some(views(list@)),
                None => None,
            },
            opt(plaintext),
            dialect,
        ),
{
    let mut content: Vec<ReasoningContent> = Vec::new();
    let mut metadata: ProviderMetadata = ProviderMetadata::new();
    let mut has_details: bool = false;
    if let Some(details) = details {
        content = content_from_details(details);
        if details.len() > 0 {
            has_details = true;
            let copy: Vec<Json> = details.clone();
            assert(views(copy@) =~= views(details@));
            metadata = ProviderMetadata::with(
                dialect.profile().namespace(),
                Json::Object(JsonObject::new().put("reasoning_details", Json::Array(copy))),
            );
        }
    }
    if content.len() == 0 {
        if let Some(text) = plaintext {
            if !text.is_empty() {
                content.push(ReasoningContent::Text { text: text.to_owned(), signature: None });
            }
        }
    }
    if content.len() == 0 && !has_details {
        return None;
    }
    let part: ReasoningPart = ReasoningPart { id: None, content, provider_metadata: metadata };
    assert(Some(part@) == reasoning_of(
        match details {
            Some(list) => Some(views(list@)),
            None => None,
        },
        opt(plaintext),
        dialect,
    ));
    Some(part)
}

/// A value with a member set; a scalar or an array has no members to set.
pub open spec fn member_set(v: JsonView, key: Seq<char>, value: JsonView) -> JsonView {
    match v {
        JsonView::Object(m) => JsonView::Object(m.insert(key, value)),
        JsonView::Null => JsonView::Object(no_members().insert(key, value)),
        other => other,
    }
}

/// A detail with the text of a delta appended.
pub open spec fn text_joined(last: JsonView, delta: JsonView, key: Seq<char>) -> JsonView {
    match text_at(delta, key) {
        Some(more) => member_set(
            last,
            key,
            JsonView::String(
                match text_at(last, key) {
                    Some(text) => text + more,
                    None => more,
                },
            ),
        ),
        None => last,
    }
}

/// A detail with a value of a delta put in.
pub open spec fn value_joined(last: JsonView, delta: JsonView, key: Seq<char>) -> JsonView {
    match value_at(delta, key) {
        Some(value) => member_set(last, key, value),
        None => last,
    }
}

/// A detail with a delta of it.
pub open spec fn joined(last: JsonView, delta: JsonView) -> JsonView {
    let texts = text_joined(
        text_joined(text_joined(last, delta, "text"@), delta, "summary"@),
        delta,
        "data"@,
    );
    value_joined(
        value_joined(value_joined(texts, delta, "signature"@), delta, "id"@),
        delta,
        "format"@,
    )
}

/// Whether a delta belongs to the last detail. Signed entries without indices
/// are separate blocks.
pub open spec fn belongs(last: JsonView, delta: JsonView) -> bool {
    &&& text_at(last, "type"@) == text_at(delta, "type"@)
    &&& count_at(last, "index"@) == count_at(delta, "index"@)
    &&& !(count_at(delta, "index"@) is None && value_at(last, "signature"@) is Some && value_at(
        delta,
        "signature"@,
    ) is Some)
}

/// Some details with one more delta.
pub open spec fn with_delta(merged: Seq<JsonView>, delta: JsonView) -> Seq<JsonView> {
    if merged.len() > 0 && belongs(merged.last(), delta) {
        merged.drop_last().push(joined(merged.last(), delta))
    } else {
        merged.push(delta)
    }
}

/// The details that the first `n` deltas make up.
pub open spec fn merged_upto(deltas: Seq<JsonView>, n: int) -> Seq<JsonView>
    decreases n,
{
    if n <= 0 {
        Seq::empty()
    } else {
        with_delta(merged_upto(deltas, n - 1), deltas[n - 1])
    }
}

/// Merging keeps the first signature of each block apart: a delta that is
/// signed and has no index starts a new detail after a signed detail.
pub proof fn signed_deltas_stay_separate(merged: Seq<JsonView>, delta: JsonView)
    requires
        merged.len() > 0,
        value_at(merged.last(), "signature"@) is Some,
        value_at(delta, "signature"@) is Some,
        count_at(delta, "index"@) is None,
    ensures
        with_delta(merged, delta) == merged.push(delta),
{
}

fn set_member(v: &mut Json, key: &str, value: Json)
    ensures
        final(v)@ == member_set(old(v)@, key@, value@),
{
    let mut before: Json = Json::Null;
    std::mem::swap(&mut before, v);
    *v = match before {
        Json::Object(object) => Json::Object(object.put(key, value)),
        Json::Null => Json::Object(JsonObject::new().put(key, value)),
        other => other,
    };
}

fn join_text(last: &mut Json, delta: &Json, key: &str)
    ensures
        final(last)@ == text_joined(old(last)@, delta@, key@),
{
    if let Some(more) = wire::text(delta, key) {
        let text: String = match wire::text(last, key) {
            Some(text) => cat(text, more),
            None => more.to_owned(),
        };
        set_member(last, key, Json::String(text));
    }
}

fn join_value(last: &mut Json, delta: &Json, key: &str)
    ensures
        final(last)@ == value_joined(old(last)@, delta@, key@),
{
    if let Some(value) = wire::value(delta, key) {
        set_member(last, key, value.clone());
    }
}

fn same_text(a: Option<&str>, b: Option<&str>) -> (r: bool)
    ensures
        r == (opt(a) == opt(b)),
{
    match (a, b) {
        (Some(a), Some(b)) => same(a, b),
        (None, None) => true,
        _ => false,
    }
}

fn may_join(last: &Json, delta: &Json) -> (r: bool)
    ensures
        r == belongs(last@, delta@),
{
    let index: Option<u64> = wire::count(delta, "index");
    same_text(wire::text(last, "type"), wire::text(delta, "type")) && wire::count(last, "index")
        == index && !(index.is_none() && wire::value(last, "signature").is_some() && wire::value(
        delta,
        "signature",
    ).is_some())
}

/// Merge matching `reasoning_details` deltas into replayable signed blocks.
/// Two consecutive signed entries without indices always stay separate, so
/// provider-side signature validation cannot fail on replay.
pub fn merge_reasoning_details(details: &Vec<Json>) -> (r: Vec<Json>)
    ensures
        views(r@) == merged_upto(views(details@), details@.len() as int),
{
    let ghost all = views(details@);
    let mut merged: Vec<Json> = Vec::new();
    assert(views(merged@) =~= merged_upto(all, 0));
    let mut i: usize = 0;
    while i < details.len()
        invariant
            i <= details@.len(),
            all == views(details@),
            views(merged@) == merged_upto(all, i as int),
        decreases details@.len() - i,
    {
        assert(all[i as int] == details@[i as int]@);
        let delta: &Json = &details[i];
        let ghost before = views(merged@);
        assert(before.len() == merged@.len());
        if merged.len() > 0 && may_join(&merged[merged.len() - 1], delta) {
            assert(before.last() == merged@.last()@);
            if let Some(last) = merged.pop() {
                assert(views(merged@) =~= before.drop_last());
                let mut block: Json = last;
                join_text(&mut block, delta, "text");
                join_text(&mut block, delta, "summary");
                join_text(&mut block, delta, "data");
                join_value(&mut block, delta, "signature");
                join_value(&mut block, delta, "id");
                join_value(&mut block, delta, "format");
                assert(block@ == joined(before.last(), delta@));
                merged.push(block);
            }
        } else {
            assert(before.len() > 0 ==> before.last() == merged@.last()@);
            merged.push(delta.clone());
        }
        assert(views(merged@) =~= with_delta(before, delta@));
        i += 1;
    }
    merged
}

// ---------------------------------------------------------------------------
// Tool calls
// ---------------------------------------------------------------------------

/// The arguments of a call: raw argument JSON as a string or a compatible
/// gateway's object.
pub open spec fn arguments_of(function: JsonView) -> Option<Seq<char>> {
    match value_at(function, "arguments"@) {
        Some(JsonView::String(text)) => Some(text),
        Some(other) => Some(json_text(other)),
        None => None,
    }
}

/// Whether a member can be the function of a call.
pub open spec fn function_ok(v: JsonView, key: Seq<char>) -> bool {
    match value_at(v, key) {
        Some(f) => f is Object && text_ok(f, "name"@),
        None => true,
    }
}

/// Whether a value can be a tool call.
pub open spec fn call_ok(v: JsonView) -> bool {
    v is Object && text_ok(v, "id"@) && function_ok(v, "function"@)
}

/// The name of a function, where there is one.
pub open spec fn function_name(function: Option<JsonView>) -> Option<Seq<char>> {
    match function {
        Some(f) => text_at(f, "name"@),
        None => None,
    }
}

/// The arguments of a function, where there are any.
pub open spec fn function_arguments(function: Option<JsonView>) -> Option<Seq<char>> {
    match function {
        Some(f) => arguments_of(f),
        None => None,
    }
}

/// A text, empty where there is none.
pub open spec fn or_empty(text: Option<Seq<char>>) -> Seq<char> {
    match text {
        Some(text) => text,
        None => Seq::empty(),
    }
}

/// A call of a function.
pub open spec fn call_of(call_id: Seq<char>, function: Option<JsonView>) -> AssistantPartView {
    AssistantPartView::ToolCall(
        ToolCallView {
            call_id,
            item_id: None,
            provider_call_id: None,
            name: or_empty(function_name(function)),
            arguments: or_empty(function_arguments(function)),
            provider_metadata: no_metadata(),
        },
    )
}

/// The id of the call at an index that came without one.
pub open spec fn synthetic_id(index: nat) -> Seq<char> {
    "call_"@ + decimal(index)
}

/// The arguments of a function, where there are any.
pub fn arguments_text(function: Option<&Json>) -> (r: Option<String>)
    ensures
        opt(r) == function_arguments(opt(function)),
{
    match function {
        Some(f) => match wire::value(f, "arguments") {
            Some(value) => match value {
                Json::String(text) => Some(text.clone()),
                _ => Some(value.to_text()),
            },
            None => None,
        },
        None => None,
    }
}

/// The name of a function, where there is one.
pub fn name_text(function: Option<&Json>) -> (r: Option<&str>)
    ensures
        opt(r) == function_name(opt(function)),
{
    match function {
        Some(f) => wire::text(f, "name"),
        None => None,
    }
}

/// Whether a member can be the function of a call.
pub fn may_be_function(v: &Json, key: &str) -> (r: bool)
    ensures
        r == function_ok(v@, key@),
{
    match wire::value(v, key) {
        Some(f) => matches!(f, Json::Object(_)) && wire::may_be_text(f, "name"),
        None => true,
    }
}

fn tool_call(call_id: String, function: Option<&Json>) -> (r: AssistantPart)
    ensures
        r@ == call_of(call_id@, opt(function)),
{
    let name: String = match name_text(function) {
        Some(name) => name.to_owned(),
        None => String::new(),
    };
    let arguments: String = match arguments_text(function) {
        Some(arguments) => arguments,
        None => String::new(),
    };
    AssistantPart::ToolCall(
        ToolCall {
            call_id,
            item_id: None,
            provider_call_id: None,
            name,
            arguments,
            provider_metadata: ProviderMetadata::new(),
        },
    )
}

/// The id of the call at an index that came without one.
pub fn indexed_call(index: u64) -> (r: String)
    ensures
        r@ == synthetic_id(index as nat),
{
    cat("call_", decimal_text(index).as_str())
}

// ---------------------------------------------------------------------------
// Messages
// ---------------------------------------------------------------------------

/// Whether the members that a message shares with a delta have their types.
pub open spec fn texts_ok(v: JsonView) -> bool {
    &&& v is Object
    &&& text_ok(v, "content"@)
    &&& text_ok(v, "refusal"@)
    &&& text_ok(v, "reasoning_content"@)
    &&& text_ok(v, "reasoning"@)
    &&& list_ok(v, "annotations"@)
    &&& list_ok(v, "reasoning_details"@)
    &&& function_ok(v, "function_call"@)
}

/// Whether a value can be a message.
pub open spec fn message_ok(v: JsonView) -> bool {
    &&& texts_ok(v)
    &&& list_ok(v, "tool_calls"@)
    &&& forall|i: int|
        0 <= i < items_at(v, "tool_calls"@).len() ==> call_ok(
            #[trigger] items_at(v, "tool_calls"@)[i],
        )
}

/// The plain text of the reasoning in a message or a delta.
pub open spec fn plaintext_of(v: JsonView) -> Option<Seq<char>> {
    match text_at(v, "reasoning_content"@) {
        Some(text) => Some(text),
        None => text_at(v, "reasoning"@),
    }
}

/// The extras of a refusal.
pub open spec fn refusal_extras() -> MetadataView {
    openai_member("content_type"@, JsonView::String("refusal"@))
}

/// The extras of a text with annotations.
pub open spec fn annotation_extras(annotations: Seq<JsonView>) -> MetadataView {
    if annotations.len() > 0 {
        openai_member("annotations"@, JsonView::Array(annotations))
    } else {
        no_metadata()
    }
}

/// The reasoning of a message.
pub open spec fn reasoning_parts(v: JsonView, dialect: ChatDialect) -> Seq<AssistantPartView> {
    match reasoning_of(list_at(v, "reasoning_details"@), plaintext_of(v), dialect) {
        Some(part) => seq![AssistantPartView::Reasoning(part)],
        None => Seq::empty(),
    }
}

/// The text of a message.
pub open spec fn text_parts(v: JsonView) -> Seq<AssistantPartView> {
    match filled(text_at(v, "content"@)) {
        Some(text) => seq![
            AssistantPartView::Text {
                text,
                provider_metadata: annotation_extras(items_at(v, "annotations"@)),
            },
        ],
        None => Seq::empty(),
    }
}

/// The refusal of a message.
pub open spec fn refusal_parts(v: JsonView) -> Seq<AssistantPartView> {
    match filled(text_at(v, "refusal"@)) {
        Some(text) => seq![
            AssistantPartView::Text { text, provider_metadata: refusal_extras() },
        ],
        None => Seq::empty(),
    }
}

/// The tool call at a position.
pub open spec fn indexed_part(call: JsonView, i: int) -> AssistantPartView {
    call_of(
        match text_at(call, "id"@) {
            Some(id) => id,
            None => synthetic_id(i as nat),
        },
        value_at(call, "function"@),
    )
}

/// The calls of a message: the deprecated single-call form counts where there
/// is no list of calls.
pub open spec fn call_parts(v: JsonView) -> Seq<AssistantPartView> {
    match list_at(v, "tool_calls"@) {
        Some(calls) => Seq::new(calls.len(), |i: int| indexed_part(calls[i], i)),
        None => match value_at(v, "function_call"@) {
            Some(function) => seq![call_of("call_0"@, Some(function))],
            None => Seq::empty(),
        },
    }
}

/// The parts of a message.
pub open spec fn message_parts(v: JsonView, dialect: ChatDialect) -> Seq<AssistantPartView> {
    reasoning_parts(v, dialect) + text_parts(v) + refusal_parts(v) + call_parts(v)
}

fn are_calls(v: &Json) -> (r: bool)
    ensures
        r == (list_ok(v@, "tool_calls"@) && forall|i: int|
            0 <= i < items_at(v@, "tool_calls"@).len() ==> call_ok(
                #[trigger] items_at(v@, "tool_calls"@)[i],
            )),
{
    if !wire::may_be_list(v, "tool_calls") {
        return false;
    }
    let items: &Vec<Json> = match wire::list(v, "tool_calls") {
        Some(items) => items,
        None => return true,
    };
    let mut i: usize = 0;
    while i < items.len()
        invariant
            i <= items@.len(),
            items_at(v@, "tool_calls"@) == views(items@),
            forall|k: int| 0 <= k < i ==> call_ok(#[trigger] items_at(v@, "tool_calls"@)[k]),
        decreases items@.len() - i,
    {
        let call: &Json = &items[i];
        assert(items_at(v@, "tool_calls"@)[i as int] == call@);
        if !(matches!(call, Json::Object(_)) && wire::may_be_text(call, "id") && may_be_function(
            call,
            "function",
        )) {
            return false;
        }
        i += 1;
    }
    true
}

/// Whether the members that a message shares with a delta have their types.
pub fn may_hold_texts(v: &Json) -> (r: bool)
    ensures
        r == texts_ok(v@),
{
    matches!(v, Json::Object(_)) && wire::may_be_text(v, "content") && wire::may_be_text(
        v,
        "refusal",
    ) && wire::may_be_text(v, "reasoning_content") && wire::may_be_text(v, "reasoning")
        && wire::may_be_list(v, "annotations") && wire::may_be_list(v, "reasoning_details")
        && may_be_function(v, "function_call")
}

/// The plain text of the reasoning in a message or a delta.
pub fn plaintext(v: &Json) -> (r: Option<&str>)
    ensures
        opt(r) == plaintext_of(v@),
{
    match wire::text(v, "reasoning_content") {
        Some(text) => Some(text),
        None => wire::text(v, "reasoning"),
    }
}

/// The extras of a refusal.
pub fn refusal_metadata() -> (r: ProviderMetadata)
    ensures
        r@ == refusal_extras(),
{
    openai_metadata("content_type", Json::text("refusal"))
}

fn decode_calls(v: &Json) -> (r: Vec<AssistantPart>)
    ensures
        views(r@) == call_parts(v@),
{
    let mut parts: Vec<AssistantPart> = Vec::new();
    match wire::list(v, "tool_calls") {
        Some(calls) => {
            let ghost all = views(calls@);
            let mut i: usize = 0;
            while i < calls.len()
                invariant
                    i <= calls@.len(),
                    all == views(calls@),
                    parts@.len() == i,
                    forall|k: int|
                        0 <= k < i ==> (#[trigger] parts@[k])@ == indexed_part(all[k], k),
                decreases calls@.len() - i,
            {
                assert(all[i as int] == calls@[i as int]@);
                let call: &Json = &calls[i];
                let call_id: String = match wire::text(call, "id") {
                    Some(id) => id.to_owned(),
                    None => indexed_call(i as u64),
                };
                parts.push(tool_call(call_id, wire::value(call, "function")));
                i += 1;
            }
            assert(all.len() == calls@.len());
            assert(views(parts@) =~= Seq::new(all.len(), |i: int| indexed_part(all[i], i)));
        },
        None => {
            if let Some(function) = wire::value(v, "function_call") {
                parts.push(tool_call("call_0".to_owned(), Some(function)));
            }
            assert(views(parts@) =~= call_parts(v@));
        },
    }
    parts
}

fn text_metadata(v: &Json) -> (r: ProviderMetadata)
    ensures
        r@ == annotation_extras(items_at(v@, "annotations"@)),
{
    match wire::list(v, "annotations") {
        Some(annotations) => {
            assert(views(annotations@).len() == annotations@.len());
            if annotations.len() > 0 {
                let copy: Vec<Json> = annotations.clone();
                assert(views(copy@) =~= views(annotations@));
                openai_metadata("annotations", Json::Array(copy))
            } else {
                ProviderMetadata::new()
            }
        },
        None => ProviderMetadata::new(),
    }
}

fn decode_chat_message(v: &Json, dialect: ChatDialect) -> (r: Vec<AssistantPart>)
    ensures
        views(r@) == message_parts(v@, dialect),
{
    let mut content: Vec<AssistantPart> = Vec::new();
    if let Some(part) = reasoning_part_from_details(
        wire::list(v, "reasoning_details"),
        plaintext(v),
        dialect,
    ) {
        content.push(AssistantPart::Reasoning(part));
    }
    assert(views(content@) =~= reasoning_parts(v@, dialect));
    if let Some(text) = wire::unless_empty(wire::text(v, "content")) {
        content.push(AssistantPart::Text { text, provider_metadata: text_metadata(v) });
    }
    assert(views(content@) =~= reasoning_parts(v@, dialect) + text_parts(v@));
    if let Some(text) = wire::unless_empty(wire::text(v, "refusal")) {
        content.push(AssistantPart::Text { text, provider_metadata: refusal_metadata() });
    }
    assert(views(content@) =~= reasoning_parts(v@, dialect) + text_parts(v@) + refusal_parts(v@));
    let mut calls: Vec<AssistantPart> = decode_calls(v);
    content.append(&mut calls);
    content
}

// ---------------------------------------------------------------------------
// Errors
// ---------------------------------------------------------------------------

/// The message of an inline error. OpenRouter often stores useful upstream
/// details behind a generic message.
pub open spec fn inline_message(error: JsonView) -> Seq<char> {
    let base = match text_at(error, "message"@) {
        Some(message) => message,
        None => "provider returned an error"@,
    };
    match value_at(error, "metadata"@) {
        Some(metadata) => {
            let detailed = match text_at(metadata, "raw"@) {
                Some(raw) => base + ": "@ + truncated(raw, 300),
                None => base,
            };
            match text_at(metadata, "provider_name"@) {
                Some(name) => detailed + " (provider: "@ + name + ")"@,
                None => detailed,
            }
        },
        None => base,
    }
}

/// The HTTP status in the code of an inline error. Gateways also use this
/// field for opaque numeric codes.
pub open spec fn inline_status(error: JsonView) -> Option<u16> {
    match count_at(error, "code"@) {
        Some(code) => if 100 <= code <= 599 {
            Some(code as u16)
        } else {
            None
        },
        None => None,
    }
}

/// The error type in the metadata of an inline error.
pub open spec fn inline_type(error: JsonView) -> Option<Seq<char>> {
    match value_at(error, "metadata"@) {
        Some(metadata) => text_at(metadata, "error_type"@),
        None => None,
    }
}

/// The kind of an error by its type, or else by its status.
pub open spec fn typed_kind(error_type: Option<Seq<char>>, status: Option<u16>) -> ErrorKind {
    if error_type == Some("context_length_exceeded"@) || error_type == Some(
        "max_tokens_exceeded"@,
    ) || error_type == Some("token_limit_exceeded"@) {
        ErrorKind::ContextLength
    } else if error_type == Some("authentication"@) {
        ErrorKind::Authentication
    } else if error_type == Some("permission_denied"@) || error_type == Some("payment_required"@) {
        ErrorKind::Permission
    } else if error_type == Some("rate_limit_exceeded"@) {
        ErrorKind::RateLimited
    } else if error_type == Some("provider_overloaded"@) || error_type == Some(
        "provider_unavailable"@,
    ) {
        ErrorKind::Overloaded
    } else if error_type == Some("timeout"@) {
        ErrorKind::Timeout
    } else {
        match status {
            Some(status) => status_kind(status),
            None => ErrorKind::Provider,
        }
    }
}

/// The error that an error object inside a body or a chunk reports.
pub open spec fn inline_error(error: JsonView, dialect: ChatDialect) -> ErrorView {
    let error_type = inline_type(error);
    let kind = policy_kind(
        match error_type {
            Some(t) => Some(t),
            None => text_at(error, "code"@),
        },
        typed_kind(error_type, inline_status(error)),
    );
    let base = new_error(kind, inline_message(error)).with_origin(dialect.api().text());
    let placed = match inline_status(error) {
        Some(status) => base.with_status(status),
        None => base,
    };
    placed.with_code_opt(code_text(value_at(error, "code"@))).with_code_opt(error_type)
}

fn kind_by_type(error_type: Option<&str>, status: Option<u16>) -> (r: ErrorKind)
    ensures
        r == typed_kind(opt(error_type), status),
{
    if text_is(error_type, "context_length_exceeded") || text_is(error_type, "max_tokens_exceeded")
        || text_is(error_type, "token_limit_exceeded") {
        ErrorKind::ContextLength
    } else if text_is(error_type, "authentication") {
        ErrorKind::Authentication
    } else if text_is(error_type, "permission_denied") || text_is(error_type, "payment_required") {
        ErrorKind::Permission
    } else if text_is(error_type, "rate_limit_exceeded") {
        ErrorKind::RateLimited
    } else if text_is(error_type, "provider_overloaded") || text_is(
        error_type,
        "provider_unavailable",
    ) {
        ErrorKind::Overloaded
    } else if text_is(error_type, "timeout") {
        ErrorKind::Timeout
    } else {
        match status {
            Some(status) => error_kind_for_status(status),
            None => ErrorKind::Provider,
        }
    }
}

fn message_of(error: &Json) -> (r: String)
    ensures
        r@ == inline_message(error@),
{
    let mut message: String = match wire::text(error, "message") {
        Some(message) => message.to_owned(),
        None => "provider returned an error".to_owned(),
    };
    if let Some(metadata) = wire::value(error, "metadata") {
        if let Some(raw) = wire::text(metadata, "raw") {
            message = cat3(message.as_str(), ": ", truncate_for_error(raw, 300).as_str());
        }
        if let Some(provider_name) = wire::text(metadata, "provider_name") {
            message = cat(
                cat3(message.as_str(), " (provider: ", provider_name).as_str(),
                ")",
            );
        }
    }
    message
}

/// Decode an error object found inside an HTTP 200 body or stream chunk.
pub fn decode_inline_error(error: &Json, dialect: ChatDialect) -> (r: Error)
    ensures
        r@ == inline_error(error@, dialect),
{
    let message: String = message_of(error);
    let status: Option<u16> = match wire::count(error, "code") {
        Some(code) => if 100 <= code && code <= 599 {
            Some(code as u16)
        } else {
            None
        },
        None => None,
    };
    let error_type: Option<&str> = match wire::value(error, "metadata") {
        Some(metadata) => wire::text(metadata, "error_type"),
        None => None,
    };
    let policy: Option<&str> = match error_type {
        Some(t) => Some(t),
        None => wire::text(error, "code"),
    };
    let kind: ErrorKind = content_policy_kind(policy, kind_by_type(error_type, status));
    let mut out: Error = Error::new(kind, message.as_str()).with_origin(
        dialect.profile().as_str(),
    );
    if let Some(status) = status {
        out = out.with_status(status);
    }
    let code: Option<String> = code_of(wire::value(error, "code"));
    out.with_code_opt(crate::error::as_deref(&code)).with_code_opt(error_type)
}

/// The error that an OpenRouter error response reports.
pub open spec fn openrouter_error(status: u16, headers: HeadersView, body: Seq<u8>) -> ErrorView {
    let inline = match json_parse_bytes(body) {
        Ok(v) => value_at(v, "error"@),
        Err(_) => None,
    };
    enriched(
        match inline {
            Some(error) => inline_error(error, ChatDialect::OpenRouter),
            None => fallback_error(ApiProfile::OpenRouter, status, body),
        },
        status,
        headers,
    )
}

/// Decode an OpenRouter error response, whose `error` object carries
/// upstream details the shared OpenAI decoder does not know about.
pub fn decode_openrouter_error(
    status: u16,
    headers: &http::HeaderMap<http::HeaderValue>,
    body: &[u8],
) -> (r: Error)
    ensures
        r@ == openrouter_error(status, headers_view(*headers), body@),
{
    let error: Error = match Json::parse_bytes(body) {
        Ok(v) => match wire::value(&v, "error") {
            Some(error) => decode_inline_error(error, ChatDialect::OpenRouter),
            None => fallback_provider_error(ApiProfile::OpenRouter, status, body),
        },
        Err(_) => fallback_provider_error(ApiProfile::OpenRouter, status, body),
    };
    enrich_error_from_headers(error, status, headers)
}

// ---------------------------------------------------------------------------
// Responses
// ---------------------------------------------------------------------------

/// Whether a value can be a choice.
pub open spec fn choice_ok(v: JsonView) -> bool {
    &&& v is Object
    &&& text_ok(v, "finish_reason"@)
    &&& text_ok(v, "native_finish_reason"@)
    &&& match value_at(v, "message"@) {
        Some(m) => message_ok(m),
        None => true,
    }
}

/// Whether a member can be a usage report.
pub open spec fn holds_usage(v: JsonView) -> bool {
    match value_at(v, "usage"@) {
        Some(u) => usage_ok(u),
        None => true,
    }
}

/// Whether a value can be a completion.
pub open spec fn completion_ok(v: JsonView) -> bool {
    &&& v is Object
    &&& text_ok(v, "id"@)
    &&& text_ok(v, "model"@)
    &&& holds_usage(v)
    &&& items_ok(v, "choices"@)
    &&& forall|i: int|
        0 <= i < items_at(v, "choices"@).len() ==> choice_ok(
            #[trigger] items_at(v, "choices"@)[i],
        )
}

/// The parts of a choice.
pub open spec fn choice_parts(choice: JsonView, dialect: ChatDialect) -> Seq<AssistantPartView> {
    match value_at(choice, "message"@) {
        Some(message) => message_parts(message, dialect),
        None => Seq::empty(),
    }
}

/// Whether a choice refuses.
pub open spec fn choice_refuses(choice: JsonView) -> bool {
    match value_at(choice, "message"@) {
        Some(message) => filled(text_at(message, "refusal"@)) is Some,
        None => false,
    }
}

/// The finish of a choice.
pub open spec fn choice_finish(choice: JsonView) -> FinishView {
    if choice_refuses(choice) {
        FinishView { reason: FinishReason::ContentFilter, raw: Some("refusal"@) }
    } else {
        match text_at(choice, "finish_reason"@) {
            Some(reason) => finish_of(reason, text_at(choice, "native_finish_reason"@)),
            None => FinishView { reason: FinishReason::Stop, raw: None },
        }
    }
}

/// The result of a completion: its first choice.
pub open spec fn decoded_completion(v: JsonView, dialect: ChatDialect) -> Result<
    GenerateResultView,
    ErrorView,
> {
    let choices = items_at(v, "choices"@);
    match value_at(v, "error"@) {
        Some(error) => Err(inline_error(error, dialect)),
        None => if choices.len() == 0 {
            Err(new_error(ErrorKind::MalformedResponse, "chat completion has no choices"@))
        } else {
            match value_at(choices[0], "error"@) {
                Some(error) => Err(inline_error(error, dialect)),
                None => match finalized(
                    choice_parts(choices[0], dialect),
                    choice_finish(choices[0]),
                    dialect.api(),
                ) {
                    Ok((content, finish)) => Ok(
                        GenerateResultView {
                            content,
                            finish,
                            usage: match value_at(v, "usage"@) {
                                Some(u) => usage_of(u, accounting_of(dialect)),
                                None => no_usage(),
                            },
                            warnings: Seq::empty(),
                            response: ResponseMetadataView {
                                id: text_at(v, "id"@),
                                model: text_at(v, "model"@),
                                request_id: None,
                            },
                            provider_metadata: result_extras(
                                value_at(v, "provider"@),
                                value_at(v, "usage"@),
                                dialect,
                            ),
                        },
                    ),
                    Err(e) => Err(e),
                },
            }
        },
    }
}

/// How a dialect counts the tokens of the answer.
pub open spec fn accounting_of(dialect: ChatDialect) -> OutputTokenAccounting {
    if dialect is Xai {
        OutputTokenAccounting::ExcludesReasoning
    } else {
        OutputTokenAccounting::IncludesReasoning
    }
}

/// The result that a response body holds.
pub open spec fn decoded_body(body: Seq<u8>, dialect: ChatDialect) -> Result<
    GenerateResultView,
    ErrorView,
> {
    let invalid = |reason: Seq<char>|
        new_error(
            ErrorKind::MalformedResponse,
            dialect.api().text() + ": invalid response JSON: "@ + reason,
        );
    match json_parse_bytes(body) {
        Ok(v) => if completion_ok(v) {
            decoded_completion(v, dialect)
        } else {
            Err(invalid(UNEXPECTED_TYPE@))
        },
        Err(e) => Err(invalid(e)),
    }
}

fn are_choices(v: &Json) -> (r: bool)
    ensures
        r == (items_ok(v@, "choices"@) && forall|i: int|
            0 <= i < items_at(v@, "choices"@).len() ==> choice_ok(
                #[trigger] items_at(v@, "choices"@)[i],
            )),
{
    if !wire::may_be_items(v, "choices") {
        return false;
    }
    let items: &Vec<Json> = match wire::list(v, "choices") {
        Some(items) => items,
        None => return true,
    };
    let mut i: usize = 0;
    while i < items.len()
        invariant
            i <= items@.len(),
            items_at(v@, "choices"@) == views(items@),
            forall|k: int| 0 <= k < i ==> choice_ok(#[trigger] items_at(v@, "choices"@)[k]),
        decreases items@.len() - i,
    {
        let choice: &Json = &items[i];
        assert(items_at(v@, "choices"@)[i as int] == choice@);
        let message_ok: bool = match wire::value(choice, "message") {
            Some(message) => may_hold_texts(message) && are_calls(message),
            None => true,
        };
        if !(matches!(choice, Json::Object(_)) && wire::may_be_text(choice, "finish_reason")
            && wire::may_be_text(choice, "native_finish_reason") && message_ok) {
            return false;
        }
        i += 1;
    }
    true
}

/// Whether a member can be a usage report.
pub fn may_hold_usage(v: &Json) -> (r: bool)
    ensures
        r == holds_usage(v@),
{
    match wire::value(v, "usage") {
        Some(u) => may_be_usage(u),
        None => true,
    }
}

fn decode_choice(choice: &Json, dialect: ChatDialect) -> (r: (Vec<AssistantPart>, Finish))
    ensures
        views(r.0@) == choice_parts(choice@, dialect),
        r.1@ == choice_finish(choice@),
{
    let mut saw_refusal: bool = false;
    let mut content: Vec<AssistantPart> = Vec::new();
    assert(views(content@) =~= Seq::empty());
    if let Some(message) = wire::value(choice, "message") {
        saw_refusal = wire::unless_empty(wire::text(message, "refusal")).is_some();
        content = decode_chat_message(message, dialect);
    }
    let finish: Finish = if saw_refusal {
        Finish::with_raw(FinishReason::ContentFilter, "refusal")
    } else {
        match wire::text(choice, "finish_reason") {
            Some(reason) => reported_finish(reason, wire::text(choice, "native_finish_reason")),
            None => Finish::new(FinishReason::Stop),
        }
    };
    (content, finish)
}

/// The result of a completion: its first choice.
pub fn decode_completion(v: &Json, dialect: ChatDialect) -> (r: Result<GenerateResult, Error>)
    ensures
        match r {
            Ok(result) => decoded_completion(v@, dialect) == Ok::<GenerateResultView, ErrorView>(
                result@,
            ),
            Err(e) => decoded_completion(v@, dialect) == Err::<GenerateResultView, ErrorView>(e@),
        },
{
    if let Some(error) = wire::value(v, "error") {
        return Err(decode_inline_error(error, dialect));
    }
    let choice: &Json = match wire::list(v, "choices") {
        Some(choices) => {
            assert(views(choices@).len() == choices@.len());
            if choices.len() == 0 {
                return Err(Error::malformed("chat completion has no choices"));
            }
            assert(views(choices@)[0] == choices@[0]@);
            &choices[0]
        },
        None => return Err(Error::malformed("chat completion has no choices")),
    };
    if let Some(error) = wire::value(choice, "error") {
        return Err(decode_inline_error(error, dialect));
    }
    let (parts, end) = decode_choice(choice, dialect);
    let (content, finish) = match finalize_tool_calls(parts, end, dialect.profile()) {
        Ok(done) => done,
        Err(e) => return Err(e),
    };
    let usage: Usage = match wire::value(v, "usage") {
        Some(u) => to_usage(u, dialect.output_token_accounting()),
        None => Usage::default(),
    };
    Ok(
        GenerateResult {
            content,
            finish,
            usage,
            warnings: Vec::new(),
            response: ResponseMetadata {
                id: wire::owned_text(v, "id"),
                model: wire::owned_text(v, "model"),
                request_id: None,
            },
            provider_metadata: result_provider_metadata(
                wire::value(v, "provider"),
                wire::value(v, "usage"),
                dialect,
            ),
        },
    )
}

/// Decode a buffered response body.
pub fn decode_chat_response(body: &[u8], dialect: ChatDialect) -> (r: Result<
    GenerateResult,
    Error,
>)
    ensures
        match r {
            Ok(result) => decoded_body(body@, dialect) == Ok::<GenerateResultView, ErrorView>(
                result@,
            ),
            Err(e) => decoded_body(body@, dialect) == Err::<GenerateResultView, ErrorView>(e@),
        },
{
    let reason: String = match Json::parse_bytes(body) {
        Ok(v) => {
            if matches!(v, Json::Object(_)) && wire::may_be_text(&v, "id") && wire::may_be_text(
                &v,
                "model",
            ) && may_hold_usage(&v) && are_choices(&v) {
                return decode_completion(&v, dialect);
            }
            UNEXPECTED_TYPE.to_owned()
        },
        Err(e) => e,
    };
    Err(
        Error::malformed(
            cat3(
                dialect.profile().as_str(),
                ": invalid response JSON: ",
                reason.as_str(),
            ).as_str(),
        ),
    )
}

} // verus!
