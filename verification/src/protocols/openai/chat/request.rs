//! Lowering of requests to the Chat Completions wire format.
use vstd::prelude::*;

use super::ChatDialect;
use crate::address::url_host;
use crate::capabilities::{ReasoningSupport, ReasoningSupportView};
use crate::json::{
    no_members, text_value, with_member, Json, JsonObject, JsonView, NumberView,
};
use crate::message::{
    result_text, AssistantPart, AssistantPartView, Message, MessageView, ReasoningContent,
    ReasoningContentView, ReasoningPart, ReasoningPartView, ToolCall, ToolCallView,
    ToolResultPart, ToolResultPartView, UserPart, UserPartView,
};
use crate::metadata::MetadataView;
use crate::model::{opt, views};
use crate::protocols::lower::{texts, texts_json, with_options, LoweredRequest, LoweredView};
use crate::protocols::openai::shared::{
    insert_tools, json_schema_format, schema_format, with_tools, ToolShape,
};
use crate::protocols::reasoning::{
    resolution_warnings, resolve, resolved, ResolvedReasoning, ResolvedView,
};
use crate::protocols::{foreign, foreign_origin, ApiProfile};
use crate::request::{
    real_json, Real, RealView, ReasoningConfig, ReasoningOutput, Request, RequestView,
};
use crate::response::{approximated, other_warning, unsupported, Warning, WarningView};
use crate::text::{cat, cat3, same};
use crate::util::json_merge;
use crate::wire;
use crate::wire::{list_at, text_at};

verus! {

broadcast use {crate::model::group_views, crate::json::array_view};

// ---------------------------------------------------------------------------
// Messages
// ---------------------------------------------------------------------------

/// A text part.
pub open spec fn text_part(text: Seq<char>) -> JsonView {
    JsonView::Object(
        no_members().insert("type"@, JsonView::String("text"@)).insert(
            "text"@,
            JsonView::String(text),
        ),
    )
}

/// A message of plain content.
pub open spec fn plain_message(role: Seq<char>, content: JsonView) -> JsonView {
    JsonView::Object(
        no_members().insert("role"@, JsonView::String(role)).insert("content"@, content),
    )
}

/// A user message. A single text part uses the plain-string form every server
/// accepts; several parts stay separate content parts instead of being fused.
pub open spec fn user_message(content: Seq<UserPartView>) -> JsonView {
    plain_message(
        "user"@,
        if content.len() == 1 {
            JsonView::String(content[0]->text)
        } else {
            JsonView::Array(Seq::new(content.len(), |i: int| text_part(content[i]->text)))
        },
    )
}

/// A tool message.
pub open spec fn tool_message(result: ToolResultPartView) -> JsonView {
    JsonView::Object(
        no_members().insert("role"@, JsonView::String("tool"@)).insert(
            "tool_call_id"@,
            JsonView::String(result.call_id),
        ).insert("content"@, JsonView::String(result_text(result.content))),
    )
}

/// A tool call.
pub open spec fn call_json(call: ToolCallView) -> JsonView {
    JsonView::Object(
        no_members().insert("id"@, JsonView::String(call.call_id)).insert(
            "type"@,
            JsonView::String("function"@),
        ).insert(
            "function"@,
            JsonView::Object(
                no_members().insert("name"@, JsonView::String(call.name)).insert(
                    "arguments"@,
                    JsonView::String(call.arguments),
                ),
            ),
        ),
    )
}

/// The details and the visible text that OpenRouter reasoning is replayed as.
#[verifier::ext_equal]
pub struct Details {
    pub details: Seq<JsonView>,
    pub text: Seq<char>,
}

/// The detail of a piece of reasoning.
pub open spec fn detail_json(content: ReasoningContentView) -> JsonView {
    match content {
        ReasoningContentView::Text { text, signature } => JsonView::Object(
            with_member(
                no_members().insert("type"@, JsonView::String("reasoning.text"@)).insert(
                    "text"@,
                    JsonView::String(text),
                ),
                "signature"@,
                text_value(signature),
            ),
        ),
        ReasoningContentView::Summary { text } => JsonView::Object(
            no_members().insert("type"@, JsonView::String("reasoning.summary"@)).insert(
                "summary"@,
                JsonView::String(text),
            ),
        ),
        ReasoningContentView::Encrypted { data } => JsonView::Object(
            no_members().insert("type"@, JsonView::String("reasoning.encrypted"@)).insert(
                "data"@,
                JsonView::String(data),
            ),
        ),
        ReasoningContentView::Redacted { data } => JsonView::Object(
            no_members().insert("type"@, JsonView::String("reasoning.encrypted"@)).insert(
                "data"@,
                JsonView::String(data),
            ),
        ),
    }
}

/// The details with those of the first `n` pieces of reasoning.
pub open spec fn pieces_upto(d: Details, content: Seq<ReasoningContentView>, n: int) -> Details
    decreases n,
{
    if n <= 0 {
        d
    } else {
        let before = pieces_upto(d, content, n - 1);
        Details {
            details: before.details.push(detail_json(content[n - 1])),
            text: before.text + crate::message::visible_piece(content[n - 1]),
        }
    }
}

/// The verbatim details in the extras of reasoning.
pub open spec fn verbatim_details(metadata: MetadataView) -> Option<Seq<JsonView>> {
    if metadata.contains_key("openrouter"@) {
        list_at(metadata["openrouter"@], "reasoning_details"@)
    } else {
        None
    }
}

/// The details with those of OpenRouter reasoning: verbatim provider metadata
/// when present, otherwise reconstructed from typed content.
pub open spec fn collected(d: Details, part: ReasoningPartView) -> Details {
    match verbatim_details(part.provider_metadata) {
        Some(details) => Details { details: d.details + details, text: d.text },
        None => pieces_upto(d, part.content, part.content.len() as int),
    }
}

/// What an assistant message is lowered to so far.
#[verifier::ext_equal]
pub struct AssistantView {
    pub text: Seq<char>,
    pub calls: Seq<JsonView>,
    pub reasoning: Details,
    pub reasoning_content: Option<Seq<char>>,
    pub reasoning_field: Option<Seq<char>>,
    pub warnings: Seq<WarningView>,
}

/// The field that plaintext reasoning came in.
pub open spec fn plain_field(metadata: MetadataView) -> Option<Seq<char>> {
    if metadata.contains_key("openai"@) {
        text_at(metadata["openai"@], "reasoning_field"@)
    } else {
        None
    }
}

/// A text with more of it.
pub open spec fn grown(text: Option<Seq<char>>, more: Seq<char>) -> Option<Seq<char>> {
    match text {
        Some(text) => Some(text + more),
        None => Some(more),
    }
}

/// Whether any piece of reasoning is opaque.
pub open spec fn has_encrypted(content: Seq<ReasoningContentView>) -> bool {
    exists|i: int| 0 <= i < content.len() && #[trigger] content[i] is Encrypted
}

/// The lowering after reasoning.
pub open spec fn with_reasoning(
    s: AssistantView,
    part: ReasoningPartView,
    dialect: ChatDialect,
    origin: Option<Seq<char>>,
) -> AssistantView {
    match dialect {
        ChatDialect::Compatible => if origin is Some {
            s
        } else if plain_field(part.provider_metadata) == Some("reasoning_content"@) {
            AssistantView {
                reasoning_content: grown(s.reasoning_content, part.visible_text()),
                ..s
            }
        } else if plain_field(part.provider_metadata) == Some("reasoning"@) {
            AssistantView { reasoning_field: grown(s.reasoning_field, part.visible_text()), ..s }
        } else {
            s
        },
        ChatDialect::OpenRouter => match origin {
            // Reasoning from another profile is not rebuilt: its encrypted
            // payloads cannot be verified by this backend.
            Some(origin) => if has_encrypted(part.content) {
                AssistantView {
                    warnings: s.warnings.push(
                        other_warning(
                            "dropped opaque reasoning items produced by `"@ + origin + "`; `"@
                                + dialect.api().text()
                                + "` cannot verify state from another provider"@,
                        ),
                    ),
                    ..s
                }
            } else {
                s
            },
            None => AssistantView { reasoning: collected(s.reasoning, part), ..s },
        },
        _ => s,
    }
}

/// The lowering after a part.
pub open spec fn with_part(
    s: AssistantView,
    part: AssistantPartView,
    dialect: ChatDialect,
    origin: Option<Seq<char>>,
) -> AssistantView {
    match part {
        AssistantPartView::Text { text, .. } => AssistantView { text: s.text + text, ..s },
        AssistantPartView::ToolCall(call) => AssistantView {
            calls: s.calls.push(call_json(call)),
            ..s
        },
        AssistantPartView::Reasoning(part) => with_reasoning(s, part, dialect, origin),
        AssistantPartView::Compaction(part) => match part.content {
            Some(summary) => AssistantView {
                text: s.text + summary,
                warnings: s.warnings.push(
                    other_warning(
                        "compaction summary was flattened to plain assistant text: this protocol has no native compaction item"@,
                    ),
                ),
                ..s
            },
            None => s,
        },
        AssistantPartView::ProviderTool { .. } => AssistantView {
            warnings: s.warnings.push(
                other_warning(
                    "server-tool item dropped: this protocol cannot replay provider-executed tool items"@,
                ),
            ),
            ..s
        },
    }
}

/// The lowering of the first `n` parts of an assistant message.
pub open spec fn parts_upto(
    content: Seq<AssistantPartView>,
    dialect: ChatDialect,
    origin: Option<Seq<char>>,
    n: int,
) -> AssistantView
    decreases n,
{
    if n <= 0 {
        AssistantView {
            text: Seq::empty(),
            calls: Seq::empty(),
            reasoning: Details { details: Seq::empty(), text: Seq::empty() },
            reasoning_content: None,
            reasoning_field: None,
            warnings: Seq::empty(),
        }
    } else {
        with_part(parts_upto(content, dialect, origin, n - 1), content[n - 1], dialect, origin)
    }
}

impl AssistantView {
    /// Whether nothing is left to send.
    pub open spec fn is_empty(self) -> bool {
        self.text.len() == 0 && self.calls.len() == 0 && self.reasoning.details.len() == 0
            && self.reasoning.text.len() == 0 && self.reasoning_content is None
            && self.reasoning_field is None
    }

    /// The message on the wire.
    pub open spec fn message(self) -> JsonView {
        let base = no_members().insert("role"@, JsonView::String("assistant"@)).insert(
            "content"@,
            if self.text.len() == 0 {
                JsonView::Null
            } else {
                JsonView::String(self.text)
            },
        );
        let called = with_member(
            base,
            "tool_calls"@,
            if self.calls.len() > 0 {
                Some(JsonView::Array(self.calls))
            } else {
                None
            },
        );
        let reasoned = if self.reasoning.details.len() > 0 {
            called.insert("reasoning_details"@, JsonView::Array(self.reasoning.details))
        } else if self.reasoning.text.len() > 0 {
            called.insert("reasoning"@, JsonView::String(self.reasoning.text))
        } else {
            called
        };
        JsonView::Object(
            with_member(
                with_member(
                    reasoned,
                    "reasoning"@,
                    text_value(self.reasoning_field),
                ),
                "reasoning_content"@,
                text_value(self.reasoning_content),
            ),
        )
    }
}

/// Some messages and the warnings about them.
#[verifier::ext_equal]
pub struct Messages {
    pub messages: Seq<JsonView>,
    pub warnings: Seq<WarningView>,
}

/// Some messages with an assistant message, unless nothing of it is left.
pub open spec fn with_assistant(m: Messages, s: AssistantView) -> Messages {
    Messages {
        messages: if s.is_empty() {
            m.messages
        } else {
            m.messages.push(s.message())
        },
        warnings: m.warnings + s.warnings,
    }
}

/// Some messages with one more.
pub open spec fn with_message(m: Messages, message: MessageView, dialect: ChatDialect) -> Messages {
    match message {
        MessageView::User { content } => Messages {
            messages: m.messages.push(user_message(content)),
            ..m
        },
        MessageView::Assistant { content, provider_metadata } => with_assistant(
            m,
            parts_upto(
                content,
                dialect,
                foreign(provider_metadata, dialect.api()),
                content.len() as int,
            ),
        ),
        MessageView::Tool { content } => Messages {
            messages: m.messages + Seq::new(content.len(), |i: int| tool_message(content[i])),
            ..m
        },
    }
}

/// The system message and the first `n` messages on the wire.
pub open spec fn messages_upto(r: RequestView, dialect: ChatDialect, n: int) -> Messages
    decreases n,
{
    if n <= 0 {
        Messages {
            messages: match r.system_prompt() {
                Some(system) => seq![plain_message("system"@, JsonView::String(system))],
                None => Seq::empty(),
            },
            warnings: Seq::empty(),
        }
    } else {
        with_message(messages_upto(r, dialect, n - 1), r.messages[n - 1], dialect)
    }
}

fn typed_text(kind: &str, key: &str, text: &str) -> (r: JsonObject)
    ensures
        r@ == no_members().insert("type"@, JsonView::String(kind@)).insert(
            key@,
            JsonView::String(text@),
        ),
{
    JsonObject::new().put("type", Json::text(kind)).put(key, Json::text(text))
}

fn message_object(role: &str, content: Json) -> (r: Json)
    ensures
        r@ == plain_message(role@, content@),
{
    Json::Object(JsonObject::new().put("role", Json::text(role)).put("content", content))
}

fn lower_user_message(content: &Vec<UserPart>) -> (r: Json)
    ensures
        r@ == user_message(views(content@)),
{
    let ghost all = views(content@);
    if content.len() == 1 {
        assert(all[0] == content@[0]@);
        let UserPart::Text { text } = &content[0];
        return message_object("user", Json::text(text.as_str()));
    }
    let mut parts: Vec<Json> = Vec::new();
    let mut i: usize = 0;
    while i < content.len()
        invariant
            i <= content@.len(),
            all == views(content@),
            parts@.len() == i,
            forall|k: int| 0 <= k < i ==> (#[trigger] parts@[k])@ == text_part(all[k]->text),
        decreases content@.len() - i,
    {
        assert(all[i as int] == content@[i as int]@);
        let UserPart::Text { text } = &content[i];
        parts.push(Json::Object(typed_text("text", "text", text.as_str())));
        i += 1;
    }
    assert(views(parts@) =~= Seq::new(all.len(), |i: int| text_part(all[i]->text)));
    message_object("user", Json::Array(parts))
}

fn lower_detail(content: &ReasoningContent) -> (r: Json)
    ensures
        r@ == detail_json(content@),
{
    match content {
        ReasoningContent::Text { text, signature } => Json::Object(
            typed_text("reasoning.text", "text", text.as_str()).put_opt(
                "signature",
                Json::text_opt(crate::error::as_deref(signature)),
            ),
        ),
        ReasoningContent::Summary { text } => Json::Object(
            typed_text("reasoning.summary", "summary", text.as_str()),
        ),
        ReasoningContent::Encrypted { data } => Json::Object(
            typed_text("reasoning.encrypted", "data", data.as_str()),
        ),
        ReasoningContent::Redacted { data } => Json::Object(
            typed_text("reasoning.encrypted", "data", data.as_str()),
        ),
    }
}

/// Rebuild OpenRouter `reasoning_details` for replay: verbatim provider
/// metadata when present, otherwise reconstructed from typed content.
pub fn collect_openrouter_reasoning(
    reasoning: &ReasoningPart,
    details_out: &mut Vec<Json>,
    text_out: &mut String,
)
    ensures
        (Details { details: views(final(details_out)@), text: final(text_out)@ }) == collected(
            Details { details: views(old(details_out)@), text: old(text_out)@ },
            reasoning@,
        ),
{
    if let Some(namespace) = reasoning.provider_metadata.get("openrouter") {
        if let Some(details) = wire::list(namespace, "reasoning_details") {
            let mut copy: Vec<Json> = details.clone();
            assert(views(copy@) =~= views(details@));
            details_out.append(&mut copy);
            return;
        }
    }
    let ghost all = reasoning@.content;
    let ghost before = Details { details: views(details_out@), text: text_out@ };
    let mut i: usize = 0;
    while i < reasoning.content.len()
        invariant
            i <= reasoning.content@.len(),
            all == views(reasoning.content@),
            (Details { details: views(details_out@), text: text_out@ }) == pieces_upto(
                before,
                all,
                i as int,
            ),
        decreases reasoning.content@.len() - i,
    {
        assert(all[i as int] == reasoning.content@[i as int]@);
        details_out.push(lower_detail(&reasoning.content[i]));
        match &reasoning.content[i] {
            ReasoningContent::Text { text, .. } => text_out.append(text.as_str()),
            ReasoningContent::Summary { text } => text_out.append(text.as_str()),
            _ => {},
        }
        assert((Details { details: views(details_out@), text: text_out@ }) =~= pieces_upto(
            before,
            all,
            i + 1,
        ));
        i += 1;
    }
}

/// What an assistant message is lowered to so far.
struct AssistantLowering {
    text: String,
    calls: Vec<Json>,
    details: Vec<Json>,
    reasoning_text: String,
    reasoning_content: Option<String>,
    reasoning_field: Option<String>,
    warnings: Vec<Warning>,
}

impl View for AssistantLowering {
    type V = AssistantView;

    closed spec fn view(&self) -> AssistantView {
        AssistantView {
            text: self.text@,
            calls: views(self.calls@),
            reasoning: Details { details: views(self.details@), text: self.reasoning_text@ },
            reasoning_content: opt(self.reasoning_content),
            reasoning_field: opt(self.reasoning_field),
            warnings: views(self.warnings@),
        }
    }
}

fn encrypted(content: &Vec<ReasoningContent>) -> (r: bool)
    ensures
        r == has_encrypted(views(content@)),
{
    let mut i: usize = 0;
    while i < content.len()
        invariant
            i <= content@.len(),
            forall|k: int| 0 <= k < i ==> !(#[trigger] views(content@)[k] is Encrypted),
        decreases content@.len() - i,
    {
        assert(views(content@)[i as int] == content@[i as int]@);
        if let ReasoningContent::Encrypted { .. } = &content[i] {
            assert(views(content@)[i as int] is Encrypted);
            return true;
        }
        i += 1;
    }
    false
}

fn grow(text: &Option<String>, more: &str) -> (r: Option<String>)
    ensures
        opt(r) == grown(opt(*text), more@),
{
    match text {
        Some(text) => Some(cat(text.as_str(), more)),
        None => Some(more.to_owned()),
    }
}

impl AssistantLowering {
    fn lower_reasoning(&mut self, part: &ReasoningPart, dialect: ChatDialect, origin: Option<&str>)
        ensures
            final(self)@ == with_reasoning(old(self)@, part@, dialect, opt(origin)),
    {
        match dialect {
            ChatDialect::Compatible => {
                if origin.is_some() {
                    return;
                }
                let field: Option<&str> = match part.provider_metadata.get("openai") {
                    Some(openai) => wire::text(openai, "reasoning_field"),
                    None => None,
                };
                if let Some(field) = field {
                    if same(field, "reasoning_content") {
                        self.reasoning_content = grow(
                            &self.reasoning_content,
                            part.visible_text().as_str(),
                        );
                    } else if same(field, "reasoning") {
                        self.reasoning_field = grow(
                            &self.reasoning_field,
                            part.visible_text().as_str(),
                        );
                    }
                }
            },
            ChatDialect::OpenRouter => match origin {
                Some(origin) => {
                    if encrypted(&part.content) {
                        let head: String = cat3(
                            "dropped opaque reasoning items produced by `",
                            origin,
                            "`; `",
                        );
                        let message: String = cat3(
                            head.as_str(),
                            dialect.profile().as_str(),
                            "` cannot verify state from another provider",
                        );
                        self.warnings.push(Warning::other(message.as_str()));
                    }
                },
                None => collect_openrouter_reasoning(
                    part,
                    &mut self.details,
                    &mut self.reasoning_text,
                ),
            },
            _ => {},
        }
    }

    fn lower_part(&mut self, part: &AssistantPart, dialect: ChatDialect, origin: Option<&str>)
        ensures
            final(self)@ == with_part(old(self)@, part@, dialect, opt(origin)),
    {
        match part {
            AssistantPart::Text { text, .. } => self.text.append(text.as_str()),
            AssistantPart::ToolCall(call) => self.calls.push(
                Json::Object(
                    JsonObject::new().put("id", Json::text(call.call_id.as_str())).put(
                        "type",
                        Json::text("function"),
                    ).put(
                        "function",
                        Json::Object(
                            JsonObject::new().put("name", Json::text(call.name.as_str())).put(
                                "arguments",
                                Json::text(call.arguments.as_str()),
                            ),
                        ),
                    ),
                ),
            ),
            AssistantPart::Reasoning(reasoning) => self.lower_reasoning(
                reasoning,
                dialect,
                origin,
            ),
            AssistantPart::Compaction(compaction) => {
                if let Some(summary) = &compaction.content {
                    self.text.append(summary.as_str());
                    self.warnings.push(
                        Warning::other(
                            "compaction summary was flattened to plain assistant text: this protocol has no native compaction item",
                        ),
                    );
                }
            },
            AssistantPart::ProviderTool { .. } => self.warnings.push(
                Warning::other(
                    "server-tool item dropped: this protocol cannot replay provider-executed tool items",
                ),
            ),
        }
    }

    fn is_empty(&self) -> (r: bool)
        ensures
            r == self@.is_empty(),
    {
        self.text.as_str().is_empty() && self.calls.len() == 0 && self.details.len() == 0
            && self.reasoning_text.as_str().is_empty() && self.reasoning_content.is_none()
            && self.reasoning_field.is_none()
    }
}

fn assistant_message(s: AssistantLowering) -> (r: Json)
    ensures
        r@ == s@.message(),
{
    let content: Json = if s.text.as_str().is_empty() {
        Json::Null
    } else {
        Json::String(s.text)
    };
    let calls: Option<Json> = if s.calls.len() > 0 {
        Some(Json::Array(s.calls))
    } else {
        None
    };
    let called: JsonObject = JsonObject::new().put("role", Json::text("assistant")).put(
        "content",
        content,
    ).put_opt("tool_calls", calls);
    let reasoned: JsonObject = if s.details.len() > 0 {
        called.put("reasoning_details", Json::Array(s.details))
    } else if !s.reasoning_text.as_str().is_empty() {
        called.put("reasoning", Json::String(s.reasoning_text))
    } else {
        called
    };
    Json::Object(
        reasoned.put_opt(
            "reasoning",
            Json::text_opt(crate::error::as_deref(&s.reasoning_field)),
        ).put_opt(
            "reasoning_content",
            Json::text_opt(crate::error::as_deref(&s.reasoning_content)),
        ),
    )
}

fn lower_assistant_message(
    content: &Vec<AssistantPart>,
    dialect: ChatDialect,
    origin: Option<&str>,
) -> (r: AssistantLowering)
    ensures
        r@ == parts_upto(views(content@), dialect, opt(origin), content@.len() as int),
{
    let ghost all = views(content@);
    let mut s: AssistantLowering = AssistantLowering {
        text: String::new(),
        calls: Vec::new(),
        details: Vec::new(),
        reasoning_text: String::new(),
        reasoning_content: None,
        reasoning_field: None,
        warnings: Vec::new(),
    };
    assert(s@ =~= parts_upto(all, dialect, opt(origin), 0));
    let mut i: usize = 0;
    while i < content.len()
        invariant
            i <= content@.len(),
            all == views(content@),
            s@ == parts_upto(all, dialect, opt(origin), i as int),
        decreases content@.len() - i,
    {
        assert(all[i as int] == content@[i as int]@);
        s.lower_part(&content[i], dialect, origin);
        i += 1;
    }
    s
}

fn lower_results(content: &Vec<ToolResultPart>) -> (r: Vec<Json>)
    ensures
        views(r@) == Seq::new(content@.len(), |i: int| tool_message(views(content@)[i])),
{
    let ghost all = views(content@);
    let mut messages: Vec<Json> = Vec::new();
    let mut i: usize = 0;
    while i < content.len()
        invariant
            i <= content@.len(),
            all == views(content@),
            messages@.len() == i,
            forall|k: int| 0 <= k < i ==> (#[trigger] messages@[k])@ == tool_message(all[k]),
        decreases content@.len() - i,
    {
        assert(all[i as int] == content@[i as int]@);
        let result: &ToolResultPart = &content[i];
        messages.push(
            Json::Object(
                JsonObject::new().put("role", Json::text("tool")).put(
                    "tool_call_id",
                    Json::text(result.call_id.as_str()),
                ).put("content", Json::text(result.content.to_text().as_str())),
            ),
        );
        i += 1;
    }
    assert(views(messages@) =~= Seq::new(all.len(), |i: int| tool_message(all[i])));
    messages
}

/// Lower the system prompt and the message history.
pub fn lower_messages(request: &Request, dialect: ChatDialect) -> (r: (Vec<Json>, Vec<Warning>))
    ensures
        (Messages { messages: views(r.0@), warnings: views(r.1@) }) == messages_upto(
            request@,
            dialect,
            request@.messages.len() as int,
        ),
{
    let ghost all = request@.messages;
    let mut messages: Vec<Json> = Vec::new();
    let mut warnings: Vec<Warning> = Vec::new();
    if let Some(system) = request.system_prompt() {
        messages.push(message_object("system", Json::text(system)));
    }
    assert((Messages { messages: views(messages@), warnings: views(warnings@) }) =~= messages_upto(
        request@,
        dialect,
        0,
    ));
    let mut i: usize = 0;
    while i < request.messages.len()
        invariant
            i <= request.messages@.len(),
            all == views(request.messages@),
            all == request@.messages,
            (Messages { messages: views(messages@), warnings: views(warnings@) })
                == messages_upto(request@, dialect, i as int),
        decreases request.messages@.len() - i,
    {
        assert(all[i as int] == request.messages@[i as int]@);
        match &request.messages[i] {
            Message::User { content } => messages.push(lower_user_message(content)),
            Message::Assistant { content, provider_metadata } => {
                let origin: Option<&str> = foreign_origin(provider_metadata, dialect.profile());
                let mut s: AssistantLowering = lower_assistant_message(content, dialect, origin);
                let ghost lowered = s@;
                let mut about: Vec<Warning> = Vec::new();
                std::mem::swap(&mut about, &mut s.warnings);
                warnings.append(&mut about);
                if !s.is_empty() {
                    let message: Json = assistant_message(s);
                    assert(message@ == lowered.message());
                    messages.push(message);
                }
            },
            Message::Tool { content } => {
                let mut results: Vec<Json> = lower_results(content);
                messages.append(&mut results);
            },
        }
        assert((Messages { messages: views(messages@), warnings: views(warnings@) })
            =~= messages_upto(request@, dialect, i + 1));
        i += 1;
    }
    (messages, warnings)
}

// ---------------------------------------------------------------------------
// Reasoning
// ---------------------------------------------------------------------------

/// The reasoning member that is sent, by its name, and the warnings about it.
#[verifier::ext_equal]
pub struct ReasoningPlan {
    pub effort: Option<JsonView>,
    pub config: Option<JsonView>,
    pub warnings: Seq<WarningView>,
}

/// The OpenRouter reasoning configuration.
pub open spec fn router_config(control: ResolvedView, output: Option<ReasoningOutput>) -> JsonView {
    JsonView::Object(
        with_member(
            match control {
                ResolvedView::Disabled => no_members().insert(
                    "effort"@,
                    JsonView::String("none"@),
                ),
                ResolvedView::Effort(effort) => no_members().insert(
                    "effort"@,
                    JsonView::String(effort.text()),
                ),
                ResolvedView::Budget(tokens) => no_members().insert(
                    "max_tokens"@,
                    JsonView::Number(NumberView::U(tokens as u64)),
                ),
            },
            "exclude"@,
            match output {
                Some(output) => Some(JsonView::Bool(output is Omit)),
                None => None,
            },
        ),
    )
}

/// What a dialect sends for a resolved setting.
pub open spec fn reasoning_member(
    control: ResolvedView,
    output: Option<ReasoningOutput>,
    dialect: ChatDialect,
    profile: ApiProfile,
) -> ReasoningPlan {
    if dialect is OpenRouter {
        ReasoningPlan {
            effort: None,
            config: Some(router_config(control, output)),
            warnings: Seq::empty(),
        }
    } else {
        match control {
            ResolvedView::Disabled => ReasoningPlan {
                effort: Some(JsonView::String("none"@)),
                config: None,
                warnings: Seq::empty(),
            },
            ResolvedView::Effort(effort) => ReasoningPlan {
                effort: Some(JsonView::String(effort.text())),
                config: None,
                warnings: Seq::empty(),
            },
            ResolvedView::Budget(_) => ReasoningPlan {
                effort: None,
                config: None,
                warnings: seq![
                    unsupported(
                        "reasoning.budget"@,
                        profile.text() + " has no reasoning token budget"@,
                    ),
                ],
            },
        }
    }
}

/// What is sent for the reasoning setting of a request.
pub open spec fn reasoning_plan(
    config: Option<ReasoningConfig>,
    support: ReasoningSupportView,
    dialect: ChatDialect,
    profile: ApiProfile,
) -> ReasoningPlan {
    match config {
        None => ReasoningPlan { effort: None, config: None, warnings: Seq::empty() },
        Some(config) => {
            let about = resolution_warnings(config, support, profile);
            match resolved(config, support, profile) {
                Some((control, output)) => {
                    let m = reasoning_member(control, output, dialect, profile);
                    ReasoningPlan { warnings: about + m.warnings, ..m }
                },
                None => ReasoningPlan { effort: None, config: None, warnings: about },
            }
        },
    }
}

fn openrouter_config(resolved: ResolvedReasoning, output: Option<ReasoningOutput>) -> (r: Json)
    ensures
        r@ == router_config(resolved@, output),
{
    let config: JsonObject = match resolved {
        ResolvedReasoning::Disabled => JsonObject::new().put("effort", Json::text("none")),
        ResolvedReasoning::Effort(effort) => JsonObject::new().put(
            "effort",
            Json::text(effort.as_str()),
        ),
        ResolvedReasoning::Budget(tokens) => JsonObject::new().put(
            "max_tokens",
            Json::number(tokens.get() as u64),
        ),
    };
    let exclude: Option<Json> = match output {
        Some(ReasoningOutput::Omit) => Some(Json::Bool(true)),
        Some(ReasoningOutput::Include) => Some(Json::Bool(false)),
        None => None,
    };
    Json::Object(config.put_opt("exclude", exclude))
}

fn plan_reasoning(
    config: Option<ReasoningConfig>,
    support: &ReasoningSupport,
    dialect: ChatDialect,
    profile: ApiProfile,
) -> (r: (Option<Json>, Option<Json>, Vec<Warning>))
    ensures
        (ReasoningPlan { effort: opt(r.0), config: opt(r.1), warnings: views(r.2@) })
            == reasoning_plan(config, support@, dialect, profile),
{
    let mut warnings: Vec<Warning> = Vec::new();
    let config: ReasoningConfig = match config {
        Some(config) => config,
        None => return (None, None, warnings),
    };
    let resolution = resolve(config, support, profile, &mut warnings);
    let ghost about = resolution_warnings(config, support@, profile);
    assert(views(warnings@) =~= about);
    assert(about + Seq::empty() =~= about);
    match resolution {
        Some((control, output)) => {
            if dialect == ChatDialect::OpenRouter {
                return (None, Some(openrouter_config(control, output)), warnings);
            }
            match control {
                ResolvedReasoning::Disabled => (Some(Json::text("none")), None, warnings),
                ResolvedReasoning::Effort(effort) => (
                    Some(Json::text(effort.as_str())),
                    None,
                    warnings,
                ),
                ResolvedReasoning::Budget(_) => {
                    warnings.push(
                        Warning::unsupported_setting(
                            "reasoning.budget",
                            cat(profile.as_str(), " has no reasoning token budget").as_str(),
                        ),
                    );
                    assert(views(warnings@) =~= about + seq![
                        unsupported(
                            "reasoning.budget"@,
                            profile.text() + " has no reasoning token budget"@,
                        ),
                    ]);
                    (None, None, warnings)
                },
            }
        },
        None => (None, None, warnings),
    }
}

// ---------------------------------------------------------------------------
// Generation settings
// ---------------------------------------------------------------------------

/// The name of the output cap. OpenAI deprecated `max_tokens` in favour of
/// `max_completion_tokens`, but other servers still spell it the original way.
pub open spec fn cap_name(dialect: ChatDialect) -> Seq<char> {
    match dialect {
        ChatDialect::OpenAi => "max_completion_tokens"@,
        ChatDialect::Xai => "max_completion_tokens"@,
        _ => "max_tokens"@,
    }
}

/// A number on the wire, where it is set.
pub open spec fn real_member(v: Option<RealView>) -> Option<JsonView> {
    match v {
        Some(v) => Some(real_json(v)),
        None => None,
    }
}

/// A body with the generation settings.
pub open spec fn with_settings(
    body: Map<Seq<char>, JsonView>,
    r: RequestView,
    dialect: ChatDialect,
) -> Map<Seq<char>, JsonView> {
    let capped = with_member(
        body,
        cap_name(dialect),
        match r.max_output_tokens {
            Some(n) => Some(JsonView::Number(NumberView::U(n as u64))),
            None => None,
        },
    );
    let sampled = with_member(
        with_member(
            with_member(capped, "temperature"@, real_member(r.temperature)),
            "top_p"@,
            real_member(r.top_p),
        ),
        "top_k"@,
        match r.top_k {
            Some(n) => Some(JsonView::Number(NumberView::U(n as u64))),
            None => None,
        },
    );
    with_member(
        with_member(
            with_member(
                with_member(
                    sampled,
                    "stop"@,
                    if r.stop_sequences.len() > 0 {
                        Some(texts_json(r.stop_sequences))
                    } else {
                        None
                    },
                ),
                "presence_penalty"@,
                real_member(r.presence_penalty),
            ),
            "frequency_penalty"@,
            real_member(r.frequency_penalty),
        ),
        "seed"@,
        match r.seed {
            Some(n) => Some(JsonView::Number(NumberView::U(n))),
            None => None,
        },
    )
}

/// The warning that another dialect was used than the one asked for: it
/// changes the output-cap spelling, which OpenAI itself rejects.
pub open spec fn downgrade_warnings(r: RequestView, downgraded: bool) -> Seq<WarningView> {
    if downgraded && r.max_output_tokens is Some {
        seq![
            approximated(
                "max_output_tokens"@,
                "base URL is not an OpenAI endpoint, so the generic Chat Completions dialect was used: `max_tokens` was sent instead of `max_completion_tokens`"@,
            ),
        ]
    } else {
        Seq::empty()
    }
}

/// A sampling setting, where it is there.
pub fn wire_real(v: &Option<Real>) -> (r: Option<Json>)
    ensures
        opt(r) == real_member(opt(*v)),
{
    match v {
        Some(v) => Some(v.to_json()),
        None => None,
    }
}

fn insert_generation_settings(request: &Request, dialect: ChatDialect, object: JsonObject) -> (r:
    JsonObject)
    ensures
        r@ == with_settings(object@, request@, dialect),
{
    let key: &str = match dialect {
        ChatDialect::OpenAi | ChatDialect::Xai => "max_completion_tokens",
        ChatDialect::Compatible | ChatDialect::OpenRouter => "max_tokens",
    };
    let max: Option<Json> = match request.max_output_tokens {
        Some(n) => Some(Json::number(n as u64)),
        None => None,
    };
    let top_k: Option<Json> = match request.top_k {
        Some(n) => Some(Json::number(n as u64)),
        None => None,
    };
    let stop: Option<Json> = if request.stop_sequences.len() > 0 {
        Some(texts(&request.stop_sequences))
    } else {
        None
    };
    let seed: Option<Json> = match request.seed {
        Some(n) => Some(Json::number(n)),
        None => None,
    };
    object.put_opt(key, max).put_opt("temperature", wire_real(&request.temperature)).put_opt(
        "top_p",
        wire_real(&request.top_p),
    ).put_opt("top_k", top_k).put_opt("stop", stop).put_opt(
        "presence_penalty",
        wire_real(&request.presence_penalty),
    ).put_opt("frequency_penalty", wire_real(&request.frequency_penalty)).put_opt("seed", seed)
}

// ---------------------------------------------------------------------------
// The whole
// ---------------------------------------------------------------------------

/// The structured-output configuration on the wire.
pub open spec fn format_json(r: RequestView) -> Option<JsonView> {
    match r.structured_output {
        Some(output) => Some(
            JsonView::Object(
                no_members().insert("type"@, JsonView::String("json_schema"@)).insert(
                    "json_schema"@,
                    JsonView::Object(schema_format(output)),
                ),
            ),
        ),
        None => None,
    }
}

/// A body with what asks for a stream. Obfuscation padding is an OpenAI
/// extension.
pub open spec fn with_streaming(
    body: Map<Seq<char>, JsonView>,
    streaming: bool,
    dialect: ChatDialect,
) -> Map<Seq<char>, JsonView> {
    if streaming {
        body.insert("stream"@, JsonView::Bool(true)).insert(
            "stream_options"@,
            JsonView::Object(
                with_member(
                    no_members().insert("include_usage"@, JsonView::Bool(true)),
                    "include_obfuscation"@,
                    if dialect is Compatible {
                        None
                    } else {
                        Some(JsonView::Bool(false))
                    },
                ),
            ),
        )
    } else {
        body
    }
}

/// The body without the provider options.
pub open spec fn plain_body(
    r: RequestView,
    model: Seq<char>,
    messages: Seq<JsonView>,
    plan: ReasoningPlan,
    streaming: bool,
    dialect: ChatDialect,
) -> Map<Seq<char>, JsonView> {
    let base = no_members().insert("model"@, JsonView::String(model)).insert(
        "messages"@,
        JsonView::Array(messages),
    );
    let configured = with_member(
        with_member(
            with_member(
                with_tools(base, r, ToolShape::Nested),
                "response_format"@,
                format_json(r),
            ),
            "reasoning_effort"@,
            plan.effort,
        ),
        "reasoning"@,
        plan.config,
    );
    with_streaming(with_settings(configured, r, dialect), streaming, dialect)
}

/// A request in the Chat Completions format, for a declared dialect and the
/// host that it goes to.
pub open spec fn lowered(
    r: RequestView,
    model: Seq<char>,
    profile: ApiProfile,
    support: ReasoningSupportView,
    host: Option<Seq<char>>,
    streaming: bool,
    declared: ChatDialect,
) -> LoweredView {
    let dialect = declared.at_host(host);
    let m = messages_upto(r, dialect, r.messages.len() as int);
    let plan = reasoning_plan(r.reasoning, support, dialect, profile);
    LoweredView {
        path: "chat/completions"@,
        query: Seq::empty(),
        headers: Seq::empty(),
        body: with_options(
            JsonView::Object(plain_body(r, model, m.messages, plan, streaming, dialect)),
            r.provider_options,
            dialect.api().namespace_text(),
        ),
        warnings: m.warnings + plan.warnings + downgrade_warnings(
            r,
            declared is OpenAi && dialect is Compatible,
        ),
    }
}

fn insert_streaming(object: JsonObject, streaming: bool, dialect: ChatDialect) -> (r: JsonObject)
    ensures
        r@ == with_streaming(object@, streaming, dialect),
{
    if !streaming {
        return object;
    }
    let obfuscation: Option<Json> = if dialect == ChatDialect::Compatible {
        None
    } else {
        Some(Json::Bool(false))
    };
    object.put("stream", Json::Bool(true)).put(
        "stream_options",
        Json::Object(
            JsonObject::new().put("include_usage", Json::Bool(true)).put_opt(
                "include_obfuscation",
                obfuscation,
            ),
        ),
    )
}

/// Lower a request to the Chat Completions format that a host speaks.
pub fn lower_chat_for(
    request: &Request,
    model: &str,
    profile: ApiProfile,
    support: &ReasoningSupport,
    host: Option<&str>,
    streaming: bool,
    declared: ChatDialect,
) -> (r: LoweredRequest)
    ensures
        r@ == lowered(request@, model@, profile, support@, opt(host), streaming, declared),
{
    lower_chat_as(request, model, profile, support, streaming, declared, declared.for_host(host))
}

fn lower_chat_as(
    request: &Request,
    model: &str,
    profile: ApiProfile,
    support: &ReasoningSupport,
    streaming: bool,
    declared: ChatDialect,
    dialect: ChatDialect,
) -> (r: LoweredRequest)
    ensures
        forall|host: Option<Seq<char>>| #[trigger]
            declared.at_host(host) == dialect ==> r@ == lowered(
                request@,
                model@,
                profile,
                support@,
                host,
                streaming,
                declared,
            ),
{
    let downgraded: bool = declared == ChatDialect::OpenAi && dialect == ChatDialect::Compatible;
    let (messages, mut warnings) = lower_messages(request, dialect);
    let (effort, config, mut about_reasoning) = plan_reasoning(
        request.reasoning,
        support,
        dialect,
        profile,
    );
    warnings.append(&mut about_reasoning);
    let ghost so_far = views(warnings@);
    if downgraded && request.max_output_tokens.is_some() {
        warnings.push(
            Warning::approximated_setting(
                "max_output_tokens",
                "base URL is not an OpenAI endpoint, so the generic Chat Completions dialect was used: `max_tokens` was sent instead of `max_completion_tokens`",
            ),
        );
    }
    assert(views(warnings@) =~= so_far + downgrade_warnings(request@, downgraded));
    let format: Option<Json> = match &request.structured_output {
        Some(output) => Some(
            Json::Object(
                JsonObject::new().put("type", Json::text("json_schema")).put(
                    "json_schema",
                    Json::Object(json_schema_format(output)),
                ),
            ),
        ),
        None => None,
    };
    let base: JsonObject = JsonObject::new().put("model", Json::text(model)).put(
        "messages",
        Json::Array(messages),
    );
    let configured: JsonObject = insert_tools(request, base, ToolShape::Nested).put_opt(
        "response_format",
        format,
    ).put_opt("reasoning_effort", effort).put_opt("reasoning", config);
    let mut body: Json = Json::Object(
        insert_streaming(
            insert_generation_settings(request, dialect, configured),
            streaming,
            dialect,
        ),
    );
    if let Some(options) = request.provider_options.get(dialect.profile().namespace()) {
        json_merge(&mut body, options.clone());
    }
    LoweredRequest {
        path: "chat/completions".to_owned(),
        query: Vec::new(),
        headers: Vec::new(),
        body,
        warnings,
    }
}

/// Lower a request to the Chat Completions format that `base_url` speaks.
pub fn lower_chat(
    request: &Request,
    model: &str,
    profile: ApiProfile,
    support: &ReasoningSupport,
    base_url: &str,
    streaming: bool,
    declared: ChatDialect,
) -> (r: LoweredRequest)
    ensures
        r@ == lowered(
            request@,
            model@,
            profile,
            support@,
            url_host(base_url@),
            streaming,
            declared,
        ),
{
    lower_chat_as(
        request,
        model,
        profile,
        support,
        streaming,
        declared,
        declared.for_endpoint(base_url),
    )
}

proof fn lemma_no_foreign_reasoning(
    content: Seq<AssistantPartView>,
    dialect: ChatDialect,
    origin: Seq<char>,
    n: int,
)
    ensures
        ({
            let s = parts_upto(content, dialect, Some(origin), n);
            &&& s.reasoning.details.len() == 0
            &&& s.reasoning.text.len() == 0
            &&& s.reasoning_content is None
            &&& s.reasoning_field is None
        }),
    decreases n,
{
    if n > 0 {
        lemma_no_foreign_reasoning(content, dialect, origin, n - 1);
    }
}

/// Reasoning is replayed only to the profile that produced it: the message of a
/// turn of another profile holds none.
pub proof fn foreign_reasoning_is_not_replayed(
    content: Seq<AssistantPartView>,
    dialect: ChatDialect,
    origin: Seq<char>,
)
    ensures
        ({
            let message = parts_upto(content, dialect, Some(origin), content.len() as int).message();
            &&& message is Object
            &&& !message->Object_0.contains_key("reasoning_details"@)
            &&& !message->Object_0.contains_key("reasoning"@)
            &&& !message->Object_0.contains_key("reasoning_content"@)
        }),
{
    lemma_no_foreign_reasoning(content, dialect, origin, content.len() as int);
    reveal_strlit("role");
    reveal_strlit("content");
    reveal_strlit("tool_calls");
    reveal_strlit("reasoning_details");
    reveal_strlit("reasoning");
    reveal_strlit("reasoning_content");
    let s = parts_upto(content, dialect, Some(origin), content.len() as int);
    let m = s.message()->Object_0;
    assert("role"@.len() == 4 && "content"@.len() == 7 && "tool_calls"@.len() == 10);
    assert("reasoning_details"@.len() == 17 && "reasoning"@.len() == 9);
    assert("reasoning_content"@.len() == 17);
    assert forall|key: Seq<char>| #[trigger] m.contains_key(key) implies key.len() == 4
        || key.len() == 7 || key.len() == 10 by {}
}

} // verus!
