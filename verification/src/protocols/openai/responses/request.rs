//! Lowering of requests to the Responses wire format.
use vstd::prelude::*;

use super::ResponsesDialect;
use crate::error::{as_deref, new_error, Error, ErrorKind, ErrorView};
use crate::json::{no_members, text_value, with_member, Json, JsonObject, JsonView, NumberView};
use crate::message::{
    result_text, AssistantPart, AssistantPartView, CompactionPart, CompactionPartView, Message,
    MessageView, ReasoningContent, ReasoningContentView, ReasoningPart, ReasoningPartView,
    ToolCall, ToolCallView, ToolResultPart, ToolResultPartView, UserPart, UserPartView,
};
use crate::metadata::{MetadataView, ProviderMetadata};
use crate::model::{opt, views};
use crate::protocols::lower::with_options;
use crate::protocols::openai::shared::{
    insert_tools, json_schema_format, schema_format, with_tools, ToolShape,
};
use crate::protocols::{foreign, foreign_origin, ApiProfile};
use crate::request::{
    real_json, Compaction, CompactionView, ReasoningConfig, ReasoningOutput, Request, RequestView,
};
use crate::response::{note, noted, other_warning, Warning, WarningView};
use crate::text::{cat3, decimal, decimal_text, insert_name, name_inserted, same};
use crate::util::json_merge;
use crate::wire::text_at;

verus! {

broadcast use {crate::model::group_views, crate::json::array_view};

/// A typed object with a text, such as `{"type": "input_text", "text": ...}`.
pub open spec fn typed_text(kind: Seq<char>, key: Seq<char>, text: Seq<char>) -> JsonView {
    JsonView::Object(
        no_members().insert("type"@, JsonView::String(kind)).insert(key, JsonView::String(text)),
    )
}

/// A message item with content.
pub open spec fn message_item(role: Seq<char>, content: JsonView) -> Map<Seq<char>, JsonView> {
    no_members().insert("type"@, JsonView::String("message"@)).insert(
        "role"@,
        JsonView::String(role),
    ).insert("content"@, content)
}

/// What the history is lowered to so far: the items, the other profiles whose
/// opaque items were dropped, the warnings, and the id that the provider knows
/// each call by.
#[verifier::ext_equal]
pub struct InputView {
    pub items: Seq<JsonView>,
    pub origins: Seq<Seq<char>>,
    pub warnings: Seq<WarningView>,
    pub calls: Map<Seq<char>, Seq<char>>,
}

impl InputView {
    pub open spec fn item(self, item: JsonView) -> InputView {
        InputView { items: self.items.push(item), ..self }
    }

    pub open spec fn dropped(self, origin: Seq<char>) -> InputView {
        InputView { origins: name_inserted(self.origins, origin), ..self }
    }
}

/// The extra of a text part in the `openai` namespace.
pub open spec fn openai_extra(metadata: MetadataView, key: Seq<char>) -> Option<Seq<char>> {
    if metadata.contains_key("openai"@) {
        text_at(metadata["openai"@], key)
    } else {
        None
    }
}

/// The item of a text.
pub open spec fn text_item(
    text: Seq<char>,
    metadata: MetadataView,
    origin: Option<Seq<char>>,
) -> JsonView {
    let content = if openai_extra(metadata, "content_type"@) == Some("refusal"@) {
        typed_text("refusal"@, "refusal"@, text)
    } else {
        typed_text("output_text"@, "text"@, text)
    };
    JsonView::Object(
        with_member(
            message_item("assistant"@, JsonView::Array(seq![content])),
            "phase"@,
            if origin is None {
                text_value(openai_extra(metadata, "phase"@))
            } else {
                None
            },
        ),
    )
}

/// The summaries among the first `n` pieces of reasoning.
pub open spec fn summaries(content: Seq<ReasoningContentView>, n: int) -> Seq<JsonView>
    decreases n,
{
    if n <= 0 {
        Seq::empty()
    } else {
        match content[n - 1] {
            ReasoningContentView::Summary { text } => summaries(content, n - 1).push(
                typed_text("summary_text"@, "text"@, text),
            ),
            _ => summaries(content, n - 1),
        }
    }
}

/// The visible texts among the first `n` pieces of reasoning.
pub open spec fn reasoning_texts(content: Seq<ReasoningContentView>, n: int) -> Seq<JsonView>
    decreases n,
{
    if n <= 0 {
        Seq::empty()
    } else {
        match content[n - 1] {
            ReasoningContentView::Text { text, .. } => reasoning_texts(content, n - 1).push(
                typed_text("reasoning_text"@, "text"@, text),
            ),
            _ => reasoning_texts(content, n - 1),
        }
    }
}

/// The last opaque piece among the first `n` pieces of reasoning.
pub open spec fn last_encrypted(content: Seq<ReasoningContentView>, n: int) -> Option<Seq<char>>
    decreases n,
{
    if n <= 0 {
        None
    } else {
        match content[n - 1] {
            ReasoningContentView::Encrypted { data } => Some(data),
            _ => last_encrypted(content, n - 1),
        }
    }
}

/// The profile that produced reasoning, where it is another one. OpenRouter
/// reasoning is recognizable by its verbatim `reasoning_details` metadata even
/// on an unstamped turn.
pub open spec fn reasoning_origin(part: ReasoningPartView, origin: Option<Seq<char>>) -> Option<
    Seq<char>,
> {
    if origin is None && part.provider_metadata.contains_key("openrouter"@) {
        Some("openrouter"@)
    } else {
        origin
    }
}

/// The item of reasoning.
pub open spec fn reasoning_item(part: ReasoningPartView) -> JsonView {
    let n = part.content.len() as int;
    let texts = reasoning_texts(part.content, n);
    JsonView::Object(
        with_member(
            with_member(
                with_member(
                    no_members().insert("type"@, JsonView::String("reasoning"@)).insert(
                        "summary"@,
                        JsonView::Array(summaries(part.content, n)),
                    ),
                    "id"@,
                    text_value(part.id),
                ),
                "content"@,
                if texts.len() > 0 {
                    Some(JsonView::Array(texts))
                } else {
                    None
                },
            ),
            "encrypted_content"@,
            text_value(last_encrypted(part.content, n)),
        ),
    )
}

/// Whether reasoning can be replayed at all.
pub open spec fn replayable(part: ReasoningPartView) -> bool {
    part.id is Some || last_encrypted(part.content, part.content.len() as int) is Some
}

/// The id that the provider knows a call by.
pub open spec fn wire_call_id(call: ToolCallView) -> Seq<char> {
    match call.provider_call_id {
        Some(id) => id,
        None => call.call_id,
    }
}

/// The item of a tool call.
pub open spec fn call_item(call: ToolCallView, origin: Option<Seq<char>>) -> JsonView {
    JsonView::Object(
        with_member(
            no_members().insert("type"@, JsonView::String("function_call"@)).insert(
                "call_id"@,
                JsonView::String(wire_call_id(call)),
            ).insert("name"@, JsonView::String(call.name)).insert(
                "arguments"@,
                JsonView::String(call.arguments),
            ),
            "id"@,
            if origin is None {
                text_value(call.item_id)
            } else {
                None
            },
        ),
    )
}

/// Says that a summary was flattened.
pub open spec fn flattened_warning() -> WarningView {
    other_warning(
        "compaction summary was flattened to plain assistant text: this protocol replays only encrypted compaction items"@,
    )
}

/// The failure of an opaque compaction of another profile.
pub open spec fn foreign_compaction(origin: Seq<char>, profile: ApiProfile) -> ErrorView {
    new_error(
        ErrorKind::UnsupportedContent,
        "history contains an opaque compaction item from `"@ + origin + "`; `"@ + profile.text()
            + "` cannot replay it"@,
    )
}

/// The lowering after a compaction.
pub open spec fn lower_compaction(
    s: InputView,
    part: CompactionPartView,
    origin: Option<Seq<char>>,
    profile: ApiProfile,
) -> Result<InputView, ErrorView> {
    match part.encrypted_content {
        Some(encrypted) => match origin {
            Some(origin) => Err(foreign_compaction(origin, profile)),
            None => Ok(
                s.item(
                    JsonView::Object(
                        with_member(
                            no_members().insert("type"@, JsonView::String("compaction"@)).insert(
                                "encrypted_content"@,
                                JsonView::String(encrypted),
                            ),
                            "id"@,
                            text_value(part.id),
                        ),
                    ),
                ),
            ),
        },
        None => match part.content {
            Some(summary) => Ok(
                InputView {
                    items: s.items.push(
                        JsonView::Object(
                            message_item(
                                "assistant"@,
                                JsonView::Array(
                                    seq![typed_text("output_text"@, "text"@, summary)],
                                ),
                            ),
                        ),
                    ),
                    warnings: s.warnings.push(flattened_warning()),
                    ..s
                },
            ),
            None => Ok(s),
        },
    }
}

/// The lowering after an assistant part. `origin` names the part's producing
/// profile when it differs from the serving profile.
pub open spec fn lower_part(
    s: InputView,
    part: AssistantPartView,
    origin: Option<Seq<char>>,
    profile: ApiProfile,
) -> Result<InputView, ErrorView> {
    match part {
        AssistantPartView::Text { text, provider_metadata } => Ok(
            s.item(text_item(text, provider_metadata, origin)),
        ),
        AssistantPartView::Reasoning(part) => Ok(
            match reasoning_origin(part, origin) {
                Some(origin) => if replayable(part) {
                    s.dropped(origin)
                } else {
                    s
                },
                None => if replayable(part) {
                    s.item(reasoning_item(part))
                } else {
                    s
                },
            },
        ),
        AssistantPartView::ToolCall(call) => Ok(s.item(call_item(call, origin))),
        AssistantPartView::Compaction(part) => lower_compaction(s, part, origin, profile),
        AssistantPartView::ProviderTool { provider_tool } => Ok(
            if provider_tool.namespace != "openai"@ {
                s
            } else {
                match origin {
                    Some(origin) => s.dropped(origin),
                    None => s.item(provider_tool.payload),
                }
            },
        ),
    }
}

/// The lowering before an assistant part, with the call indexed that it is.
pub open spec fn indexed(s: InputView, part: AssistantPartView) -> InputView {
    match part {
        AssistantPartView::ToolCall(call) => InputView {
            calls: s.calls.insert(call.call_id, wire_call_id(call)),
            ..s
        },
        _ => s,
    }
}

/// The lowering after the first `n` parts of an assistant message.
pub open spec fn parts_upto(
    s: InputView,
    content: Seq<AssistantPartView>,
    origin: Option<Seq<char>>,
    profile: ApiProfile,
    n: int,
) -> Result<InputView, ErrorView>
    decreases n,
{
    if n <= 0 {
        Ok(s)
    } else {
        match parts_upto(s, content, origin, profile, n - 1) {
            Ok(t) => lower_part(indexed(t, content[n - 1]), content[n - 1], origin, profile),
            Err(e) => Err(e),
        }
    }
}

/// The id that a result is sent under.
pub open spec fn result_call_id(s: InputView, result: ToolResultPartView) -> Seq<char> {
    match result.provider_call_id {
        Some(id) => id,
        None => if s.calls.contains_key(result.call_id) {
            s.calls[result.call_id]
        } else {
            result.call_id
        },
    }
}

/// The item of a tool result.
pub open spec fn result_item(s: InputView, result: ToolResultPartView) -> JsonView {
    JsonView::Object(
        no_members().insert("type"@, JsonView::String("function_call_output"@)).insert(
            "call_id"@,
            JsonView::String(result_call_id(s, result)),
        ).insert("output"@, JsonView::String(result_text(result.content))),
    )
}

/// The lowering after the first `n` results of a tool message.
pub open spec fn results_upto(
    s: InputView,
    content: Seq<ToolResultPartView>,
    n: int,
) -> InputView
    decreases n,
{
    if n <= 0 {
        s
    } else {
        let t = results_upto(s, content, n - 1);
        t.item(result_item(t, content[n - 1]))
    }
}

/// The item of a user message.
pub open spec fn user_item(content: Seq<UserPartView>) -> JsonView {
    JsonView::Object(
        message_item(
            "user"@,
            JsonView::Array(
                Seq::new(
                    content.len(),
                    |i: int| typed_text("input_text"@, "text"@, content[i]->text),
                ),
            ),
        ),
    )
}

/// The lowering after a message.
pub open spec fn lower_message(s: InputView, message: MessageView, profile: ApiProfile) -> Result<
    InputView,
    ErrorView,
> {
    match message {
        MessageView::User { content } => Ok(s.item(user_item(content))),
        MessageView::Assistant { content, provider_metadata } => parts_upto(
            s,
            content,
            foreign(provider_metadata, profile),
            profile,
            content.len() as int,
        ),
        MessageView::Tool { content } => Ok(results_upto(s, content, content.len() as int)),
    }
}

/// The lowering of the first `n` messages.
pub open spec fn messages_upto(messages: Seq<MessageView>, profile: ApiProfile, n: int) -> Result<
    InputView,
    ErrorView,
>
    decreases n,
{
    if n <= 0 {
        Ok(
            InputView {
                items: Seq::empty(),
                origins: Seq::empty(),
                warnings: Seq::empty(),
                calls: Map::empty(),
            },
        )
    } else {
        match messages_upto(messages, profile, n - 1) {
            Ok(s) => lower_message(s, messages[n - 1], profile),
            Err(e) => Err(e),
        }
    }
}

/// Says that opaque items of another profile were dropped.
pub open spec fn dropped_warning(origin: Seq<char>, profile: ApiProfile) -> WarningView {
    other_warning(
        "dropped opaque reasoning or tool items produced by `"@ + origin + "`; `"@
            + profile.text() + "` cannot verify state from another provider"@,
    )
}

/// The items and warnings of a history.
pub open spec fn lowered_input(messages: Seq<MessageView>, profile: ApiProfile) -> Result<
    (Seq<JsonView>, Seq<WarningView>),
    ErrorView,
> {
    match messages_upto(messages, profile, messages.len() as int) {
        Ok(s) => Ok(
            (
                s.items,
                s.warnings + Seq::new(
                    s.origins.len(),
                    |i: int| dropped_warning(s.origins[i], profile),
                ),
            ),
        ),
        Err(e) => Err(e),
    }
}

/// The map of a list of pairs, where a later pair replaces an earlier one.
spec fn index_view(pairs: Seq<(&str, &str)>) -> Map<Seq<char>, Seq<char>>
    decreases pairs.len(),
{
    if pairs.len() == 0 {
        Map::empty()
    } else {
        index_view(pairs.drop_last()).insert(pairs.last().0@, pairs.last().1@)
    }
}

/// History lowering state: emitted items plus the foreign profiles whose
/// opaque items were dropped, for one warning each.
struct InputLowering<'a> {
    profile: ApiProfile,
    items: Vec<Json>,
    foreign_origins: Vec<String>,
    warnings: Vec<Warning>,
    calls: Vec<(&'a str, &'a str)>,
}

impl<'a> View for InputLowering<'a> {
    type V = InputView;

    closed spec fn view(&self) -> InputView {
        InputView {
            items: views(self.items@),
            origins: views(self.foreign_origins@),
            warnings: views(self.warnings@),
            calls: index_view(self.calls@),
        }
    }
}

fn typed(kind: &str, key: &str, text: &str) -> (r: Json)
    ensures
        r@ == typed_text(kind@, key@, text@),
{
    Json::Object(JsonObject::new().put("type", Json::text(kind)).put(key, Json::text(text)))
}

fn message_object(role: &str, content: Json) -> (r: JsonObject)
    ensures
        r@ == message_item(role@, content@),
{
    JsonObject::new().put("type", Json::text("message")).put("role", Json::text(role)).put(
        "content",
        content,
    )
}

fn extra_text<'a>(metadata: &'a ProviderMetadata, key: &str) -> (r: Option<&'a str>)
    ensures
        opt(r) == openai_extra(metadata@, key@),
{
    match metadata.get("openai") {
        Some(openai) => crate::wire::text(openai, key),
        None => None,
    }
}

fn lower_text(text: &str, metadata: &ProviderMetadata, native: bool) -> (r: Json)
    ensures
        forall|origin: Option<Seq<char>>| #[trigger]
            text_item(text@, metadata@, origin) == r@ || native != (origin is None),
{
    let refusal: bool = match extra_text(metadata, "content_type") {
        Some(kind) => same(kind, "refusal"),
        None => false,
    };
    let content: Json = if refusal {
        typed("refusal", "refusal", text)
    } else {
        typed("output_text", "text", text)
    };
    let item: JsonObject = message_object("assistant", Json::one(content));
    // The phase marker only round-trips to the backend that emitted it.
    let phase: Option<Json> = if native {
        Json::text_opt(extra_text(metadata, "phase"))
    } else {
        None
    };
    Json::Object(item.put_opt("phase", phase))
}

fn lower_reasoning(part: &ReasoningPart) -> (r: Option<Json>)
    ensures
        match r {
            Some(item) => replayable(part@) && item@ == reasoning_item(part@),
            None => !replayable(part@),
        },
{
    let ghost all = views(part.content@);
    let mut summary: Vec<Json> = Vec::new();
    let mut texts: Vec<Json> = Vec::new();
    let mut encrypted: Option<&str> = None;
    let mut i: usize = 0;
    while i < part.content.len()
        invariant
            i <= part.content@.len(),
            all == views(part.content@),
            views(summary@) == summaries(all, i as int),
            views(texts@) == reasoning_texts(all, i as int),
            opt(encrypted) == last_encrypted(all, i as int),
        decreases part.content@.len() - i,
    {
        assert(all[i as int] == part.content@[i as int]@);
        match &part.content[i] {
            ReasoningContent::Summary { text } => {
                summary.push(typed("summary_text", "text", text.as_str()));
            },
            ReasoningContent::Text { text, .. } => {
                texts.push(typed("reasoning_text", "text", text.as_str()));
            },
            ReasoningContent::Encrypted { data } => {
                encrypted = Some(data.as_str());
            },
            ReasoningContent::Redacted { .. } => {},
        }
        i += 1;
    }
    if part.id.is_none() && encrypted.is_none() {
        return None;
    }
    let content: Option<Json> = if texts.len() > 0 {
        Some(Json::Array(texts))
    } else {
        None
    };
    Some(
        Json::Object(
            JsonObject::new().put("type", Json::text("reasoning")).put(
                "summary",
                Json::Array(summary),
            ).put_opt("id", Json::text_opt(as_deref(&part.id))).put_opt("content", content).put_opt(
                "encrypted_content",
                Json::text_opt(encrypted),
            ),
        ),
    )
}

fn provider_id(call: &ToolCall) -> (r: &str)
    ensures
        r@ == wire_call_id(call@),
{
    match &call.provider_call_id {
        Some(id) => id.as_str(),
        None => call.call_id.as_str(),
    }
}

fn lower_call(call: &ToolCall, native: bool) -> (r: Json)
    ensures
        forall|origin: Option<Seq<char>>| #[trigger]
            call_item(call@, origin) == r@ || native != (origin is None),
{
    // A foreign item id is omitted without a warning: the call itself still
    // replays through `call_id`, so nothing is lost.
    let item_id: Option<Json> = if native {
        Json::text_opt(as_deref(&call.item_id))
    } else {
        None
    };
    Json::Object(
        JsonObject::new().put("type", Json::text("function_call")).put(
            "call_id",
            Json::text(provider_id(call)),
        ).put("name", Json::text(call.name.as_str())).put(
            "arguments",
            Json::text(call.arguments.as_str()),
        ).put_opt("id", item_id),
    )
}

/// What a step of the lowering has come to.
spec fn stepped(r: Result<(), Error>, s: InputView, next: Result<InputView, ErrorView>) -> bool {
    match r {
        Ok(_) => next == Ok::<InputView, ErrorView>(s),
        Err(e) => next == Err::<InputView, ErrorView>(e@),
    }
}

impl<'a> InputLowering<'a> {
    fn lower_compaction(&mut self, part: &CompactionPart, origin: Option<&str>) -> (r: Result<
        (),
        Error,
    >)
        ensures
            final(self).profile == old(self).profile,
            stepped(
                r,
                final(self)@,
                lower_compaction(old(self)@, part@, opt(origin), old(self).profile),
            ),
    {
        if let Some(encrypted) = &part.encrypted_content {
            if let Some(origin) = origin {
                // Skipping would silently lose the history the item replaced.
                let head: String = cat3(
                    "history contains an opaque compaction item from `",
                    origin,
                    "`; `",
                );
                let message: String = cat3(
                    head.as_str(),
                    self.profile.as_str(),
                    "` cannot replay it",
                );
                return Err(Error::new(ErrorKind::UnsupportedContent, message.as_str()));
            }
            self.items.push(
                Json::Object(
                    JsonObject::new().put("type", Json::text("compaction")).put(
                        "encrypted_content",
                        Json::text(encrypted.as_str()),
                    ).put_opt("id", Json::text_opt(as_deref(&part.id))),
                ),
            );
        } else if let Some(summary) = &part.content {
            // A readable summary has no native item here; keep the summarized
            // history as plain text.
            self.items.push(
                Json::Object(
                    message_object(
                        "assistant",
                        Json::one(typed("output_text", "text", summary.as_str())),
                    ),
                ),
            );
            self.warnings.push(
                Warning::other(
                    "compaction summary was flattened to plain assistant text: this protocol replays only encrypted compaction items",
                ),
            );
        }
        Ok(())
    }

    /// Lower one assistant part. `origin` names the part's producing profile
    /// when it differs from the serving profile.
    fn lower_assistant_part(&mut self, part: &AssistantPart, origin: Option<&str>) -> (r: Result<
        (),
        Error,
    >)
        ensures
            final(self).profile == old(self).profile,
            stepped(
                r,
                final(self)@,
                lower_part(old(self)@, part@, opt(origin), old(self).profile),
            ),
    {
        match part {
            AssistantPart::Text { text, provider_metadata } => {
                let item: Json = lower_text(text.as_str(), provider_metadata, origin.is_none());
                assert(item@ == text_item(text@, provider_metadata@, opt(origin)));
                self.items.push(item);
            },
            AssistantPart::Reasoning(reasoning) => {
                let origin: Option<&str> = if origin.is_none() && reasoning.provider_metadata.get(
                    "openrouter",
                ).is_some() {
                    Some("openrouter")
                } else {
                    origin
                };
                let item: Option<Json> = lower_reasoning(reasoning);
                match origin {
                    Some(origin) => {
                        if item.is_some() {
                            insert_name(&mut self.foreign_origins, origin);
                        }
                    },
                    None => {
                        if let Some(item) = item {
                            self.items.push(item);
                        }
                    },
                }
            },
            AssistantPart::ToolCall(call) => {
                let item: Json = lower_call(call, origin.is_none());
                assert(item@ == call_item(call@, opt(origin)));
                self.items.push(item);
            },
            AssistantPart::Compaction(compaction) => {
                return self.lower_compaction(compaction, origin);
            },
            AssistantPart::ProviderTool { provider_tool: tool } => {
                if !same(tool.namespace.as_str(), "openai") {
                    return Ok(());
                }
                match origin {
                    Some(origin) => insert_name(&mut self.foreign_origins, origin),
                    None => self.items.push(tool.payload.clone()),
                }
            },
        }
        Ok(())
    }

    /// The id that the provider knows a call by, as far as the history tells.
    fn known_call(&self, call_id: &str) -> (r: Option<&'a str>)
        ensures
            match r {
                Some(id) => self@.calls.contains_key(call_id@) && self@.calls[call_id@] == id@,
                None => !self@.calls.contains_key(call_id@),
            },
    {
        let mut i: usize = self.calls.len();
        assert(self.calls@.take(i as int) =~= self.calls@);
        while i > 0
            invariant
                i <= self.calls@.len(),
                self@.calls.contains_key(call_id@) == index_view(
                    self.calls@.take(i as int),
                ).contains_key(call_id@),
                self@.calls.contains_key(call_id@) ==> self@.calls[call_id@] == index_view(
                    self.calls@.take(i as int),
                )[call_id@],
            decreases i,
        {
            assert(self.calls@.take(i as int).drop_last() =~= self.calls@.take(i - 1));
            if same(self.calls[i - 1].0, call_id) {
                return Some(self.calls[i - 1].1);
            }
            i -= 1;
        }
        None
    }

    fn lower_result(&mut self, result: &ToolResultPart)
        ensures
            final(self).profile == old(self).profile,
            final(self)@ == old(self)@.item(result_item(old(self)@, result@)),
    {
        let call_id: &str = match &result.provider_call_id {
            Some(id) => id.as_str(),
            None => match self.known_call(result.call_id.as_str()) {
                Some(id) => id,
                None => result.call_id.as_str(),
            },
        };
        self.items.push(
            Json::Object(
                JsonObject::new().put("type", Json::text("function_call_output")).put(
                    "call_id",
                    Json::text(call_id),
                ).put("output", Json::text(result.content.to_text().as_str())),
            ),
        );
    }

    fn lower_message(&mut self, message: &'a Message) -> (r: Result<(), Error>)
        ensures
            final(self).profile == old(self).profile,
            stepped(r, final(self)@, lower_message(old(self)@, message@, old(self).profile)),
    {
        let ghost start = self@;
        let ghost p = self.profile;
        match message {
            Message::User { content } => {
                let ghost all = views(content@);
                let mut parts: Vec<Json> = Vec::new();
                let mut i: usize = 0;
                while i < content.len()
                    invariant
                        i <= content@.len(),
                        all == views(content@),
                        parts@.len() == i,
                        forall|k: int|
                            0 <= k < i ==> (#[trigger] parts@[k])@ == typed_text(
                                "input_text"@,
                                "text"@,
                                all[k]->text,
                            ),
                    decreases content@.len() - i,
                {
                    assert(all[i as int] == content@[i as int]@);
                    let UserPart::Text { text } = &content[i];
                    parts.push(typed("input_text", "text", text.as_str()));
                    i += 1;
                }
                assert(views(parts@) =~= Seq::new(
                    all.len(),
                    |i: int| typed_text("input_text"@, "text"@, all[i]->text),
                ));
                self.items.push(Json::Object(message_object("user", Json::Array(parts))));
                Ok(())
            },
            Message::Assistant { content, provider_metadata } => {
                let origin: Option<&str> = foreign_origin(provider_metadata, self.profile);
                let ghost all = views(content@);
                let mut i: usize = 0;
                while i < content.len()
                    invariant
                        i <= content@.len(),
                        all == views(content@),
                        self.profile == p,
                        p == old(self).profile,
                        start == old(self)@,
                        opt(origin) == foreign(provider_metadata@, p),
                        message@ == (MessageView::Assistant {
                            content: all,
                            provider_metadata: provider_metadata@,
                        }),
                        parts_upto(start, all, opt(origin), p, i as int) == Ok::<
                            InputView,
                            ErrorView,
                        >(self@),
                    decreases content@.len() - i,
                {
                    assert(all[i as int] == content@[i as int]@);
                    let ghost before = self@;
                    if let AssistantPart::ToolCall(call) = &content[i] {
                        let ghost pairs = self.calls@;
                        self.calls.push((call.call_id.as_str(), provider_id(call)));
                        assert(self.calls@.drop_last() =~= pairs);
                    }
                    assert(self@ =~= indexed(before, all[i as int]));
                    if let Err(e) = self.lower_assistant_part(&content[i], origin) {
                        proof {
                            lemma_parts_failure(start, all, opt(origin), p, i + 1);
                        }
                        return Err(e);
                    }
                    i += 1;
                }
                Ok(())
            },
            Message::Tool { content } => {
                let ghost all = views(content@);
                let mut i: usize = 0;
                while i < content.len()
                    invariant
                        i <= content@.len(),
                        all == views(content@),
                        self.profile == p,
                        self@ == results_upto(start, all, i as int),
                    decreases content@.len() - i,
                {
                    assert(all[i as int] == content@[i as int]@);
                    self.lower_result(&content[i]);
                    i += 1;
                }
                Ok(())
            },
        }
    }
}

proof fn lemma_parts_failure(
    s: InputView,
    content: Seq<AssistantPartView>,
    origin: Option<Seq<char>>,
    profile: ApiProfile,
    i: int,
)
    requires
        0 <= i <= content.len(),
        parts_upto(s, content, origin, profile, i) is Err,
    ensures
        parts_upto(s, content, origin, profile, content.len() as int) == parts_upto(
            s,
            content,
            origin,
            profile,
            i,
        ),
    decreases content.len() - i,
{
    if i < content.len() {
        lemma_parts_failure(s, content, origin, profile, i + 1);
    }
}

proof fn lemma_messages_failure(messages: Seq<MessageView>, profile: ApiProfile, i: int)
    requires
        0 <= i <= messages.len(),
        messages_upto(messages, profile, i) is Err,
    ensures
        messages_upto(messages, profile, messages.len() as int) == messages_upto(
            messages,
            profile,
            i,
        ),
    decreases messages.len() - i,
{
    if i < messages.len() {
        lemma_messages_failure(messages, profile, i + 1);
    }
}

/// Lower the message history (without the system prompt, which uses
/// `instructions` or [`system_item`]) into Responses `input` items.
///
/// Opaque provider state in the history (reasoning items, encrypted content,
/// item ids, server tool payloads) is replayed only to the profile that
/// produced it; other backends cannot verify it and reject the request.
pub fn lower_input(messages: &Vec<Message>, profile: ApiProfile) -> (r: Result<
    (Vec<Json>, Vec<Warning>),
    Error,
>)
    ensures
        match r {
            Ok((items, warnings)) => lowered_input(views(messages@), profile) == Ok::<
                (Seq<JsonView>, Seq<WarningView>),
                ErrorView,
            >((views(items@), views(warnings@))),
            Err(e) => lowered_input(views(messages@), profile) == Err::<
                (Seq<JsonView>, Seq<WarningView>),
                ErrorView,
            >(e@),
        },
{
    let ghost all = views(messages@);
    let mut lowering: InputLowering = InputLowering {
        profile,
        items: Vec::new(),
        foreign_origins: Vec::new(),
        warnings: Vec::new(),
        calls: Vec::new(),
    };
    assert(lowering@ =~= messages_upto(all, profile, 0)->Ok_0);
    let mut i: usize = 0;
    while i < messages.len()
        invariant
            i <= messages@.len(),
            all == views(messages@),
            lowering.profile == profile,
            messages_upto(all, profile, i as int) == Ok::<InputView, ErrorView>(lowering@),
        decreases messages@.len() - i,
    {
        assert(all[i as int] == messages@[i as int]@);
        if let Err(e) = lowering.lower_message(&messages[i]) {
            proof {
                lemma_messages_failure(all, profile, i + 1);
            }
            return Err(e);
        }
        i += 1;
    }
    let ghost done = lowering@;
    let origins: Vec<String> = lowering.foreign_origins;
    let mut warnings: Vec<Warning> = lowering.warnings;
    let mut k: usize = 0;
    assert(Seq::new(0, |i: int| dropped_warning(done.origins[i], profile)) =~= Seq::empty());
    assert(done.warnings + Seq::empty() =~= done.warnings);
    while k < origins.len()
        invariant
            k <= origins@.len(),
            views(origins@) == done.origins,
            views(warnings@) == done.warnings + Seq::new(
                k as nat,
                |i: int| dropped_warning(done.origins[i], profile),
            ),
        decreases origins@.len() - k,
    {
        let head: String = cat3(
            "dropped opaque reasoning or tool items produced by `",
            origins[k].as_str(),
            "`; `",
        );
        let message: String = cat3(
            head.as_str(),
            profile.as_str(),
            "` cannot verify state from another provider",
        );
        warnings.push(Warning::other(message.as_str()));
        assert(views(warnings@) =~= done.warnings + Seq::new(
            (k + 1) as nat,
            |i: int| dropped_warning(done.origins[i], profile),
        ));
        k += 1;
    }
    Ok((lowering.items, warnings))
}

/// The system prompt as a leading `input` item.
pub open spec fn system_json(system: Seq<char>) -> JsonView {
    JsonView::Object(
        message_item("system"@, JsonView::Array(seq![typed_text("input_text"@, "text"@, system)])),
    )
}

/// The system prompt as a leading `input` item.
pub fn system_item(system: &str) -> (r: Json)
    ensures
        r@ == system_json(system@),
{
    Json::Object(message_object("system", Json::one(typed("input_text", "text", system))))
}

/// Whether visible reasoning is asked for, as a member of its configuration.
pub open spec fn summary_member(output: Option<ReasoningOutput>) -> Option<JsonView> {
    if output == Some(ReasoningOutput::Include) {
        Some(JsonView::String("auto"@))
    } else {
        None
    }
}

/// The reasoning configuration on the wire.
pub open spec fn reasoning_json(config: Option<ReasoningConfig>) -> Option<JsonView> {
    match config {
        None => None,
        Some(ReasoningConfig::Disabled) => Some(
            JsonView::Object(no_members().insert("effort"@, JsonView::String("none"@))),
        ),
        Some(ReasoningConfig::Effort { effort, output }) => Some(
            JsonView::Object(
                with_member(
                    no_members().insert("effort"@, JsonView::String(effort.text())),
                    "summary"@,
                    summary_member(output),
                ),
            ),
        ),
        Some(ReasoningConfig::Budget { output, .. }) => if output == Some(
            ReasoningOutput::Include,
        ) {
            Some(JsonView::Object(no_members().insert("summary"@, JsonView::String("auto"@))))
        } else {
            None
        },
    }
}

/// The warnings about the reasoning configuration.
pub open spec fn reasoning_warnings(config: Option<ReasoningConfig>) -> Seq<WarningView> {
    noted(
        config is Some && config->0 is Budget,
        "reasoning.budget"@,
        "openai-responses uses discrete reasoning efforts, not token budgets"@,
    )
}

fn reasoning_configuration(config: &Option<ReasoningConfig>, warnings: &mut Vec<Warning>) -> (r:
    Option<Json>)
    ensures
        opt(r) == reasoning_json(*config),
        views(final(warnings)@) == views(old(warnings)@) + reasoning_warnings(*config),
{
    let budget: bool = match config {
        Some(ReasoningConfig::Budget { .. }) => true,
        _ => false,
    };
    note(
        warnings,
        budget,
        "reasoning.budget",
        "openai-responses uses discrete reasoning efforts, not token budgets",
    );
    match config {
        None => None,
        Some(ReasoningConfig::Disabled) => Some(
            Json::Object(JsonObject::new().put("effort", Json::text("none"))),
        ),
        Some(ReasoningConfig::Effort { effort, output }) => {
            let summary: Option<Json> = match output {
                Some(ReasoningOutput::Include) => Some(Json::text("auto")),
                _ => None,
            };
            Some(
                Json::Object(
                    JsonObject::new().put("effort", Json::text(effort.as_str())).put_opt(
                        "summary",
                        summary,
                    ),
                ),
            )
        },
        Some(ReasoningConfig::Budget { output, .. }) => match output {
            Some(ReasoningOutput::Include) => Some(
                Json::Object(JsonObject::new().put("summary", Json::text("auto"))),
            ),
            _ => None,
        },
    }
}

/// The least threshold that the API accepts.
pub const MIN_COMPACT_THRESHOLD: u64 = 1000;

/// The threshold that is sent for one.
pub open spec fn threshold(requested: u64) -> u64 {
    if requested < MIN_COMPACT_THRESHOLD {
        MIN_COMPACT_THRESHOLD
    } else {
        requested
    }
}

/// The compaction configuration on the wire.
pub open spec fn compaction_json(compaction: Option<CompactionView>) -> Option<JsonView> {
    match compaction {
        Some(c) => Some(
            JsonView::Array(
                seq![
                    JsonView::Object(
                        with_member(
                            no_members().insert("type"@, JsonView::String("compaction"@)),
                            "compact_threshold"@,
                            match c.trigger_input_tokens {
                                Some(n) => Some(JsonView::Number(NumberView::U(threshold(n)))),
                                None => None,
                            },
                        ),
                    ),
                ],
            ),
        ),
        None => None,
    }
}

/// The warning about a threshold.
pub open spec fn threshold_warnings(requested: Option<u64>) -> Seq<WarningView> {
    match requested {
        Some(n) => if threshold(n) != n {
            seq![
                other_warning(
                    "compact_threshold raised to the API minimum 1000 (requested "@ + decimal(
                        n as nat,
                    ) + ")"@,
                ),
            ]
        } else {
            Seq::empty()
        },
        None => Seq::empty(),
    }
}

/// The warnings about the compaction configuration.
pub open spec fn compaction_warnings(compaction: Option<CompactionView>) -> Seq<WarningView> {
    match compaction {
        Some(c) => threshold_warnings(c.trigger_input_tokens) + noted(
            c.pause_after_compaction == Some(true),
            "compaction.pause_after_compaction"@,
            "openai-responses compaction cannot pause the turn"@,
        ) + noted(
            c.instructions is Some,
            "compaction.instructions"@,
            "openai-responses compaction does not accept custom instructions"@,
        ),
        None => Seq::empty(),
    }
}

fn compaction_configuration(compaction: &Option<Compaction>) -> (r: (Option<Json>, Vec<Warning>))
    ensures
        opt(r.0) == compaction_json(opt(*compaction)),
        views(r.1@) == compaction_warnings(opt(*compaction)),
{
    let mut warnings: Vec<Warning> = Vec::new();
    let compaction: &Compaction = match compaction {
        Some(compaction) => compaction,
        None => return (None, warnings),
    };
    let mut entry: JsonObject = JsonObject::new().put("type", Json::text("compaction"));
    if let Some(requested) = compaction.trigger_input_tokens {
        let clamped: u64 = if requested < MIN_COMPACT_THRESHOLD {
            MIN_COMPACT_THRESHOLD
        } else {
            requested
        };
        if clamped != requested {
            let message: String = cat3(
                "compact_threshold raised to the API minimum 1000 (requested ",
                decimal_text(requested).as_str(),
                ")",
            );
            warnings.push(Warning::other(message.as_str()));
        }
        entry = entry.put("compact_threshold", Json::number(clamped));
    }
    assert(views(warnings@) =~= threshold_warnings(compaction@.trigger_input_tokens));
    let pause: bool = match compaction.pause_after_compaction {
        Some(pause) => pause,
        None => false,
    };
    note(
        &mut warnings,
        pause,
        "compaction.pause_after_compaction",
        "openai-responses compaction cannot pause the turn",
    );
    note(
        &mut warnings,
        compaction.instructions.is_some(),
        "compaction.instructions",
        "openai-responses compaction does not accept custom instructions",
    );
    (Some(Json::one(Json::Object(entry))), warnings)
}

/// The warning about a setting that the ChatGPT backend rejects.
pub open spec fn chatgpt_note(present: bool, setting: Seq<char>) -> Seq<WarningView> {
    noted(present, setting, "the chatgpt backend does not accept `"@ + setting + "`"@)
}

/// The warning about a setting that the format cannot express.
pub open spec fn format_note(present: bool, setting: Seq<char>) -> Seq<WarningView> {
    noted(present, setting, "openai-responses does not support `"@ + setting + "`"@)
}

/// The warnings about settings that the ChatGPT backend rejects.
pub open spec fn chatgpt_warnings(r: RequestView) -> Seq<WarningView> {
    chatgpt_note(r.max_output_tokens is Some, "max_output_tokens"@) + chatgpt_note(
        r.temperature is Some,
        "temperature"@,
    ) + chatgpt_note(r.top_p is Some, "top_p"@)
}

/// The warnings about settings that the format cannot express.
pub open spec fn format_warnings(r: RequestView) -> Seq<WarningView> {
    format_note(r.top_k is Some, "top_k"@) + format_note(
        r.stop_sequences.len() > 0,
        "stop_sequences"@,
    ) + format_note(r.presence_penalty is Some, "presence_penalty"@) + format_note(
        r.frequency_penalty is Some,
        "frequency_penalty"@,
    ) + format_note(r.seed is Some, "seed"@)
}

/// A body with the sampling settings that the format can express.
pub open spec fn with_sampling(
    body: Map<Seq<char>, JsonView>,
    r: RequestView,
) -> Map<Seq<char>, JsonView> {
    with_member(
        with_member(
            with_member(
                body,
                "max_output_tokens"@,
                match r.max_output_tokens {
                    Some(n) => Some(JsonView::Number(NumberView::U(n as u64))),
                    None => None,
                },
            ),
            "temperature"@,
            match r.temperature {
                Some(v) => Some(real_json(v)),
                None => None,
            },
        ),
        "top_p"@,
        match r.top_p {
            Some(v) => Some(real_json(v)),
            None => None,
        },
    )
}

fn note_chatgpt(warnings: &mut Vec<Warning>, present: bool, setting: &str)
    ensures
        views(final(warnings)@) == views(old(warnings)@) + chatgpt_note(present, setting@),
{
    let message: String = cat3("the chatgpt backend does not accept `", setting, "`");
    note(warnings, present, setting, message.as_str());
}

fn note_format(warnings: &mut Vec<Warning>, present: bool, setting: &str)
    ensures
        views(final(warnings)@) == views(old(warnings)@) + format_note(present, setting@),
{
    let message: String = cat3("openai-responses does not support `", setting, "`");
    note(warnings, present, setting, message.as_str());
}

fn chatgpt_notes(r: &Request) -> (w: Vec<Warning>)
    ensures
        views(w@) == chatgpt_warnings(r@),
{
    let mut w: Vec<Warning> = Vec::new();
    note_chatgpt(&mut w, r.max_output_tokens.is_some(), "max_output_tokens");
    note_chatgpt(&mut w, r.temperature.is_some(), "temperature");
    note_chatgpt(&mut w, r.top_p.is_some(), "top_p");
    w
}

fn format_notes(r: &Request) -> (w: Vec<Warning>)
    ensures
        views(w@) == format_warnings(r@),
{
    let mut w: Vec<Warning> = Vec::new();
    note_format(&mut w, r.top_k.is_some(), "top_k");
    note_format(&mut w, r.stop_sequences.len() > 0, "stop_sequences");
    note_format(&mut w, r.presence_penalty.is_some(), "presence_penalty");
    note_format(&mut w, r.frequency_penalty.is_some(), "frequency_penalty");
    note_format(&mut w, r.seed.is_some(), "seed");
    w
}

fn insert_sampling_configuration(request: &Request, object: JsonObject) -> (r: JsonObject)
    ensures
        r@ == with_sampling(object@, request@),
{
    let max: Option<Json> = match request.max_output_tokens {
        Some(max) => Some(Json::number(max as u64)),
        None => None,
    };
    let temperature: Option<Json> = match &request.temperature {
        Some(v) => Some(v.to_json()),
        None => None,
    };
    let top_p: Option<Json> = match &request.top_p {
        Some(v) => Some(v.to_json()),
        None => None,
    };
    object.put_opt("max_output_tokens", max).put_opt("temperature", temperature).put_opt(
        "top_p",
        top_p,
    )
}

/// A body with what asks for a stream.
pub open spec fn with_streaming(
    body: Map<Seq<char>, JsonView>,
    streaming: bool,
    chatgpt: bool,
) -> Map<Seq<char>, JsonView> {
    if chatgpt {
        body.insert("stream"@, JsonView::Bool(true))
    } else if streaming {
        body.insert("stream"@, JsonView::Bool(true)).insert(
            "stream_options"@,
            JsonView::Object(no_members().insert("include_obfuscation"@, JsonView::Bool(false))),
        )
    } else {
        body
    }
}

fn insert_streaming_configuration(object: JsonObject, streaming: bool, chatgpt: bool) -> (r:
    JsonObject)
    ensures
        r@ == with_streaming(object@, streaming, chatgpt),
{
    if chatgpt {
        object.put("stream", Json::Bool(true))
    } else if streaming {
        object.put("stream", Json::Bool(true)).put(
            "stream_options",
            Json::Object(JsonObject::new().put("include_obfuscation", Json::Bool(false))),
        )
    } else {
        object
    }
}

/// The items of the history, behind the system prompt where it is an item.
pub open spec fn input_items(r: RequestView, items: Seq<JsonView>, chatgpt: bool) -> Seq<JsonView> {
    match r.system_prompt() {
        Some(system) => if chatgpt {
            items
        } else {
            seq![system_json(system)] + items
        },
        None => items,
    }
}

/// The structured-output configuration on the wire.
pub open spec fn format_json(r: RequestView) -> Option<JsonView> {
    match r.structured_output {
        Some(output) => Some(
            JsonView::Object(
                no_members().insert(
                    "format"@,
                    JsonView::Object(
                        schema_format(output).insert("type"@, JsonView::String("json_schema"@)),
                    ),
                ),
            ),
        ),
        None => None,
    }
}

/// The body without the provider options.
pub open spec fn plain_body(
    r: RequestView,
    model: Seq<char>,
    items: Seq<JsonView>,
    streaming: bool,
    chatgpt: bool,
) -> Map<Seq<char>, JsonView> {
    let base = no_members().insert("model"@, JsonView::String(model)).insert(
        "input"@,
        JsonView::Array(input_items(r, items, chatgpt)),
    ).insert("store"@, JsonView::Bool(false)).insert(
        "include"@,
        JsonView::Array(seq![JsonView::String("reasoning.encrypted_content"@)]),
    );
    let instructed = with_member(
        base,
        "instructions"@,
        if chatgpt {
            text_value(r.system_prompt())
        } else {
            None
        },
    );
    let configured = with_member(
        with_member(
            with_member(
                with_tools(instructed, r, ToolShape::Flat),
                "text"@,
                format_json(r),
            ),
            "reasoning"@,
            reasoning_json(r.reasoning),
        ),
        "context_management"@,
        compaction_json(r.compaction),
    );
    with_streaming(
        if chatgpt {
            configured
        } else {
            with_sampling(configured, r)
        },
        streaming,
        chatgpt,
    )
}

/// The warnings about the configuration of a request.
pub open spec fn configuration_warnings(r: RequestView, chatgpt: bool) -> Seq<WarningView> {
    reasoning_warnings(r.reasoning) + compaction_warnings(r.compaction) + if chatgpt {
        chatgpt_warnings(r)
    } else {
        Seq::empty()
    } + format_warnings(r)
}

/// The request body and the warnings about it.
pub open spec fn lowered_body(
    r: RequestView,
    model: Seq<char>,
    profile: ApiProfile,
    streaming: bool,
    chatgpt: bool,
) -> Result<(JsonView, Seq<WarningView>), ErrorView> {
    match lowered_input(r.messages, profile) {
        Ok((items, warnings)) => Ok(
            (
                with_options(
                    JsonView::Object(plain_body(r, model, items, streaming, chatgpt)),
                    r.provider_options,
                    "openai"@,
                ),
                warnings + configuration_warnings(r, chatgpt),
            ),
        ),
        Err(e) => Err(e),
    }
}

fn configuration_notes(request: &Request, chatgpt: bool) -> (r: (
    Option<Json>,
    Option<Json>,
    Vec<Warning>,
))
    ensures
        opt(r.0) == reasoning_json(request@.reasoning),
        opt(r.1) == compaction_json(request@.compaction),
        views(r.2@) == configuration_warnings(request@, chatgpt),
{
    let mut warnings: Vec<Warning> = Vec::new();
    let reasoning: Option<Json> = reasoning_configuration(&request.reasoning, &mut warnings);
    assert(views(warnings@) =~= reasoning_warnings(request@.reasoning));
    let (compaction, mut about_compaction) = compaction_configuration(&request.compaction);
    warnings.append(&mut about_compaction);
    if chatgpt {
        let mut rejected: Vec<Warning> = chatgpt_notes(request);
        warnings.append(&mut rejected);
    } else {
        assert(views(warnings@) + Seq::empty() =~= views(warnings@));
    }
    let mut inexpressible: Vec<Warning> = format_notes(request);
    warnings.append(&mut inexpressible);
    (reasoning, compaction, warnings)
}

/// Build the Responses request body plus lowering warnings.
pub fn lower_body(
    request: &Request,
    model: &str,
    profile: ApiProfile,
    streaming: bool,
    dialect: ResponsesDialect,
) -> (r: Result<(Json, Vec<Warning>), Error>)
    ensures
        match r {
            Ok((body, warnings)) => lowered_body(
                request@,
                model@,
                profile,
                streaming,
                dialect is ChatGpt,
            ) == Ok::<(JsonView, Seq<WarningView>), ErrorView>((body@, views(warnings@))),
            Err(e) => lowered_body(request@, model@, profile, streaming, dialect is ChatGpt)
                == Err::<(JsonView, Seq<WarningView>), ErrorView>(e@),
        },
{
    let chatgpt: bool = dialect.is_chatgpt();
    let (mut input, mut warnings) = match lower_input(&request.messages, profile) {
        Ok(lowered) => lowered,
        Err(e) => return Err(e),
    };
    let ghost items = views(input@);
    let system: Option<&str> = request.system_prompt();
    let mut instructions: Option<Json> = None;
    if let Some(system) = system {
        if chatgpt {
            instructions = Some(Json::text(system));
        } else {
            input.insert(0, system_item(system));
        }
    }
    assert(views(input@) =~= input_items(request@, items, chatgpt));
    let base: JsonObject = JsonObject::new().put("model", Json::text(model)).put(
        "input",
        Json::Array(input),
    ).put("store", Json::Bool(false)).put(
        "include",
        Json::one(Json::text("reasoning.encrypted_content")),
    ).put_opt("instructions", instructions);
    let text: Option<Json> = match &request.structured_output {
        Some(output) => Some(
            Json::Object(
                JsonObject::new().put(
                    "format",
                    Json::Object(json_schema_format(output).put("type", Json::text("json_schema"))),
                ),
            ),
        ),
        None => None,
    };
    let (reasoning, compaction, mut notes) = configuration_notes(request, chatgpt);
    warnings.append(&mut notes);
    let configured: JsonObject = insert_tools(request, base, ToolShape::Flat).put_opt(
        "text",
        text,
    ).put_opt("reasoning", reasoning).put_opt("context_management", compaction);
    let sampled: JsonObject = if chatgpt {
        configured
    } else {
        insert_sampling_configuration(request, configured)
    };
    let mut body: Json = Json::Object(
        insert_streaming_configuration(sampled, streaming, chatgpt),
    );
    assert(body@ == JsonView::Object(plain_body(request@, model@, items, streaming, chatgpt)));
    if let Some(options) = request.provider_options.get("openai") {
        json_merge(&mut body, options.clone());
    }
    Ok((body, warnings))
}

/// Whether an item holds nothing that only the backend that produced it can
/// verify: it is a message or a call, without a phase marker, an item id or
/// encrypted content.
pub open spec fn is_plain(item: JsonView) -> bool {
    &&& item is Object
    &&& ({
        let m = item->Object_0;
        &&& m.contains_key("type"@)
        &&& m["type"@] == JsonView::String("message"@) || m["type"@] == JsonView::String(
            "function_call"@,
        )
        &&& !m.contains_key("id"@)
        &&& !m.contains_key("phase"@)
        &&& !m.contains_key("encrypted_content"@)
    })
}

proof fn lemma_member_names()
    ensures
        "type"@.len() == 4,
        "role"@.len() == 4,
        "name"@.len() == 4,
        "content"@.len() == 7,
        "call_id"@.len() == 7,
        "arguments"@.len() == 9,
        "id"@.len() == 2,
        "phase"@.len() == 5,
        "encrypted_content"@.len() == 17,
        "type"@ != "role"@,
        "type"@ != "name"@,
{
    reveal_strlit("type");
    reveal_strlit("role");
    reveal_strlit("name");
    reveal_strlit("content");
    reveal_strlit("call_id");
    reveal_strlit("arguments");
    reveal_strlit("id");
    reveal_strlit("phase");
    reveal_strlit("encrypted_content");
    assert("type"@[0] != "role"@[0]);
    assert("type"@[0] != "name"@[0]);
}

proof fn lemma_plain_parts(
    s: InputView,
    content: Seq<AssistantPartView>,
    origin: Seq<char>,
    profile: ApiProfile,
    n: int,
)
    requires
        0 <= n <= content.len(),
        parts_upto(s, content, Some(origin), profile, n) is Ok,
    ensures
        ({
            let t = parts_upto(s, content, Some(origin), profile, n)->Ok_0;
            &&& s.items.len() <= t.items.len()
            &&& t.items.take(s.items.len() as int) == s.items
            &&& forall|i: int| s.items.len() <= i < t.items.len() ==> is_plain(#[trigger] t.items[i])
        }),
    decreases n,
{
    if n <= 0 {
        assert(s.items.take(s.items.len() as int) =~= s.items);
    } else {
        lemma_plain_parts(s, content, origin, profile, n - 1);
        let before = parts_upto(s, content, Some(origin), profile, n - 1)->Ok_0;
        let t = parts_upto(s, content, Some(origin), profile, n)->Ok_0;
        lemma_member_names();
        assert(t.items.len() == before.items.len() || t.items.len() == before.items.len() + 1);
        assert(t.items.take(before.items.len() as int) =~= before.items);
        assert(t.items.take(s.items.len() as int) =~= before.items.take(s.items.len() as int));
        assert forall|i: int| s.items.len() <= i < t.items.len() implies is_plain(
            #[trigger] t.items[i],
        ) by {
            if i < before.items.len() {
                assert(t.items[i] == before.items[i]);
            }
        }
    }
}

/// Opaque state is replayed only to the profile that produced it: what a turn of
/// another profile adds is plain, and what precedes it stays.
pub proof fn foreign_state_is_not_replayed(
    s: InputView,
    content: Seq<AssistantPartView>,
    provider_metadata: MetadataView,
    profile: ApiProfile,
)
    requires
        foreign(provider_metadata, profile) is Some,
    ensures
        match lower_message(s, MessageView::Assistant { content, provider_metadata }, profile) {
            Ok(t) => {
                &&& s.items.len() <= t.items.len()
                &&& t.items.take(s.items.len() as int) == s.items
                &&& forall|i: int|
                    s.items.len() <= i < t.items.len() ==> is_plain(#[trigger] t.items[i])
            },
            Err(_) => true,
        },
{
    let origin = foreign(provider_metadata, profile)->0;
    if parts_upto(s, content, Some(origin), profile, content.len() as int) is Ok {
        lemma_plain_parts(s, content, origin, profile, content.len() as int);
    }
}

} // verus!
