//! Lowering of requests to Gemini GenerateContent.
use vstd::prelude::*;

use super::SIGNATURE_KEY;
use crate::capabilities::{ReasoningSupport, ReasoningSupportView};
use crate::error::{new_error, Error, ErrorKind, ErrorView};
use crate::json::{
    field, json_parse, no_members, text_value, with_member, Json, JsonObject, JsonView, NumberView,
};
use crate::message::{
    result_text, AssistantPart, AssistantPartView, Message, MessageView, ToolCall, ToolCallView,
    ToolResultContent, ToolResultContentView, ToolResultPart, ToolResultPartView, UserPart,
};
use crate::metadata::{MetadataView, ProviderMetadata};
use crate::model::{opt, views};
use crate::protocols::lower::{
    pair, texts, texts_json, with_options, LoweredRequest, LoweredView,
};
use crate::protocols::openai::chat::request::{real_member, wire_real};
use crate::protocols::reasoning::{
    resolution_warnings, resolve, resolved, ResolvedReasoning, ResolvedView,
};
use crate::protocols::ApiProfile;
use crate::request::{
    ReasoningConfig, ReasoningOutput, Request, RequestView, ToolChoice, ToolChoiceView,
    ToolDefinition, ToolDefinitionView,
};
use crate::response::{other_warning, Warning, WarningView};
use crate::table::Table;
use crate::text::{cat, cat3, is_prefix, part, starts_with};
use crate::util::json_merge;
use crate::wire;
use crate::wire::text_at;

verus! {

broadcast use {crate::model::group_views, crate::json::array_view};

// ---------------------------------------------------------------------------
// Contents
// ---------------------------------------------------------------------------

/// The thought signature in the extras of a part.
pub open spec fn signature_in(metadata: MetadataView) -> Option<Seq<char>> {
    if metadata.contains_key("gemini"@) {
        text_at(metadata["gemini"@], SIGNATURE_KEY@)
    } else {
        None
    }
}

/// The thought signature in the extras of a part.
pub fn signature_of(metadata: &ProviderMetadata) -> (r: Option<String>)
    ensures
        opt(r) == signature_in(metadata@),
{
    match metadata.get("gemini") {
        Some(namespace) => wire::owned_text(namespace, SIGNATURE_KEY),
        None => None,
    }
}

/// What a call is answered by: the name of its function and its own id.
pub struct CallEntry {
    pub name: String,
    pub item_id: Option<String>,
}

#[verifier::ext_equal]
pub struct CallEntryView {
    pub name: Seq<char>,
    pub item_id: Option<Seq<char>>,
}

impl View for CallEntry {
    type V = CallEntryView;

    open spec fn view(&self) -> CallEntryView {
        CallEntryView { name: self.name@, item_id: opt(self.item_id) }
    }
}

/// The calls so far, by call id.
pub type CallIndex = Map<Seq<char>, CallEntryView>;

/// A turn of the conversation.
pub struct Turn {
    /// Whether it is the model's turn, not the user's.
    pub model: bool,
    pub parts: Vec<Json>,
}

#[verifier::ext_equal]
pub struct TurnView {
    pub model: bool,
    pub parts: Seq<JsonView>,
}

impl View for Turn {
    type V = TurnView;

    open spec fn view(&self) -> TurnView {
        TurnView { model: self.model, parts: views(self.parts@) }
    }
}

/// A turn on the wire.
pub open spec fn turn_json(turn: TurnView) -> JsonView {
    JsonView::Object(
        no_members().insert(
            "role"@,
            JsonView::String(
                if turn.model {
                    "model"@
                } else {
                    "user"@
                },
            ),
        ).insert("parts"@, JsonView::Array(turn.parts)),
    )
}

/// A part of plain text.
pub open spec fn text_members(text: Seq<char>) -> Map<Seq<char>, JsonView> {
    no_members().insert("text"@, JsonView::String(text))
}

/// A part with its thought signature.
pub open spec fn signed(
    members: Map<Seq<char>, JsonView>,
    signature: Option<Seq<char>>,
) -> JsonView {
    JsonView::Object(with_member(members, "thoughtSignature"@, text_value(signature)))
}

/// A tool call with its arguments.
pub open spec fn call_json(call: ToolCallView, arguments: JsonView) -> JsonView {
    signed(
        no_members().insert(
            "functionCall"@,
            JsonView::Object(
                with_member(
                    no_members().insert("name"@, JsonView::String(call.name)).insert(
                        "args"@,
                        arguments,
                    ),
                    "id"@,
                    text_value(call.item_id),
                ),
            ),
        ),
        signature_in(call.provider_metadata),
    )
}

/// The failure of a call whose arguments are no JSON.
pub open spec fn invalid_arguments(call: ToolCallView, reason: Seq<char>) -> ErrorView {
    new_error(
        ErrorKind::InvalidRequest,
        "gemini tool call `"@ + call.call_id + "` has invalid JSON arguments: "@ + reason,
    ).with_source(reason)
}

/// What an assistant turn is lowered to so far.
#[verifier::ext_equal]
pub struct AssistantView {
    pub parts: Seq<JsonView>,
    pub calls: CallIndex,
    pub warnings: Seq<WarningView>,
}

/// The lowering after a part.
pub open spec fn with_part(s: AssistantView, part: AssistantPartView) -> Result<
    AssistantView,
    ErrorView,
> {
    match part {
        AssistantPartView::Text { text, provider_metadata } => Ok(
            AssistantView {
                parts: s.parts.push(signed(text_members(text), signature_in(provider_metadata))),
                ..s
            },
        ),
        AssistantPartView::ToolCall(call) => match json_parse(call.arguments) {
            Ok(arguments) => Ok(
                AssistantView {
                    parts: s.parts.push(call_json(call, arguments)),
                    calls: s.calls.insert(
                        call.call_id,
                        CallEntryView { name: call.name, item_id: call.item_id },
                    ),
                    ..s
                },
            ),
            Err(e) => Err(invalid_arguments(call, e)),
        },
        AssistantPartView::Reasoning(part) => match signature_in(part.provider_metadata) {
            Some(signature) => Ok(
                AssistantView {
                    parts: s.parts.push(
                        JsonView::Object(
                            text_members(part.visible_text()).insert(
                                "thought"@,
                                JsonView::Bool(true),
                            ).insert("thoughtSignature"@, JsonView::String(signature)),
                        ),
                    ),
                    ..s
                },
            ),
            None => Ok(s),
        },
        AssistantPartView::Compaction(part) => match part.content {
            Some(summary) => Ok(
                AssistantView {
                    parts: s.parts.push(JsonView::Object(text_members(summary))),
                    warnings: s.warnings.push(
                        other_warning(
                            "compaction summary was flattened to plain assistant text: this protocol has no native compaction item"@,
                        ),
                    ),
                    ..s
                },
            ),
            None => Ok(s),
        },
        AssistantPartView::ProviderTool { .. } => Ok(
            AssistantView {
                warnings: s.warnings.push(
                    other_warning(
                        "server-tool item dropped: this protocol cannot replay provider-executed tool items"@,
                    ),
                ),
                ..s
            },
        ),
    }
}

/// The lowering of the first `n` parts of an assistant turn.
pub open spec fn parts_upto(
    calls: CallIndex,
    warnings: Seq<WarningView>,
    content: Seq<AssistantPartView>,
    n: int,
) -> Result<AssistantView, ErrorView>
    decreases n,
{
    if n <= 0 {
        Ok(AssistantView { parts: Seq::empty(), calls, warnings })
    } else {
        match parts_upto(calls, warnings, content, n - 1) {
            Ok(s) => with_part(s, content[n - 1]),
            Err(e) => Err(e),
        }
    }
}

/// The name of the function that a result answers.
pub open spec fn answered_name(result: ToolResultPartView, calls: CallIndex) -> Seq<char> {
    match result.name {
        Some(name) => name,
        None => if calls.contains_key(result.call_id) {
            calls[result.call_id].name
        } else {
            Seq::empty()
        },
    }
}

/// The provider's id of the call that a result answers.
pub open spec fn answered_id(result: ToolResultPartView, calls: CallIndex) -> Option<Seq<char>> {
    if calls.contains_key(result.call_id) && calls[result.call_id].item_id is Some {
        calls[result.call_id].item_id
    } else {
        result.item_id
    }
}

/// The response in a result.
pub open spec fn response_json(result: ToolResultPartView) -> JsonView {
    if result.is_error {
        JsonView::Object(
            no_members().insert(
                "error"@,
                match result.content {
                    ToolResultContentView::Json { value } => value,
                    ToolResultContentView::Text { text } => JsonView::String(text),
                },
            ),
        )
    } else {
        match result.content {
            ToolResultContentView::Json { value: JsonView::Object(m) } => JsonView::Object(m),
            _ => JsonView::Object(
                no_members().insert("result"@, JsonView::String(result_text(result.content))),
            ),
        }
    }
}

/// A tool result on the wire.
pub open spec fn result_json(result: ToolResultPartView, calls: CallIndex) -> Result<
    JsonView,
    ErrorView,
> {
    let name = answered_name(result, calls);
    if name.len() == 0 {
        Err(
            new_error(
                ErrorKind::InvalidRequest,
                "gemini requires the function name on tool results; none found for call `"@
                    + result.call_id + "`"@,
            ),
        )
    } else {
        Ok(
            JsonView::Object(
                no_members().insert(
                    "functionResponse"@,
                    JsonView::Object(
                        with_member(
                            no_members().insert("name"@, JsonView::String(name)).insert(
                                "response"@,
                                response_json(result),
                            ),
                            "id"@,
                            text_value(answered_id(result, calls)),
                        ),
                    ),
                ),
            ),
        )
    }
}

/// The first `n` tool results on the wire.
pub open spec fn results_upto(
    content: Seq<ToolResultPartView>,
    calls: CallIndex,
    n: int,
) -> Result<Seq<JsonView>, ErrorView>
    decreases n,
{
    if n <= 0 {
        Ok(Seq::empty())
    } else {
        match results_upto(content, calls, n - 1) {
            Ok(parts) => match result_json(content[n - 1], calls) {
                Ok(part) => Ok(parts.push(part)),
                Err(e) => Err(e),
            },
            Err(e) => Err(e),
        }
    }
}

/// Whether a part answers a call.
pub open spec fn is_response(part: JsonView) -> bool {
    field(part, "functionResponse"@) is Some
}

/// Whether a turn holds nothing but answers to calls.
pub open spec fn is_response_turn(turn: TurnView) -> bool {
    !turn.model && forall|i: int|
        0 <= i < turn.parts.len() ==> is_response(#[trigger] turn.parts[i])
}

/// The turns with more answers: Gemini requires one user turn for all function
/// responses.
pub open spec fn with_responses(turns: Seq<TurnView>, parts: Seq<JsonView>) -> Seq<TurnView> {
    if turns.len() > 0 && is_response_turn(turns.last()) {
        turns.drop_last().push(
            TurnView { model: false, parts: turns.last().parts + parts },
        )
    } else {
        turns.push(TurnView { model: false, parts })
    }
}

/// The turns so far, the calls in them and the warnings about them.
#[verifier::ext_equal]
pub struct Contents {
    pub turns: Seq<TurnView>,
    pub calls: CallIndex,
    pub warnings: Seq<WarningView>,
}

/// The contents with one more message.
pub open spec fn with_message(c: Contents, message: MessageView) -> Result<Contents, ErrorView> {
    match message {
        MessageView::User { content } => Ok(
            Contents {
                turns: c.turns.push(
                    TurnView {
                        model: false,
                        parts: Seq::new(
                            content.len(),
                            |i: int| JsonView::Object(text_members(content[i]->text)),
                        ),
                    },
                ),
                ..c
            },
        ),
        MessageView::Assistant { content, .. } => match parts_upto(
            c.calls,
            c.warnings,
            content,
            content.len() as int,
        ) {
            Ok(s) => Ok(
                Contents {
                    turns: if s.parts.len() > 0 {
                        c.turns.push(TurnView { model: true, parts: s.parts })
                    } else {
                        c.turns
                    },
                    calls: s.calls,
                    warnings: s.warnings,
                },
            ),
            Err(e) => Err(e),
        },
        MessageView::Tool { content } => match results_upto(
            content,
            c.calls,
            content.len() as int,
        ) {
            Ok(parts) => Ok(Contents { turns: with_responses(c.turns, parts), ..c }),
            Err(e) => Err(e),
        },
    }
}

/// The contents of the first `n` messages.
pub open spec fn contents_upto(messages: Seq<MessageView>, n: int) -> Result<Contents, ErrorView>
    decreases n,
{
    if n <= 0 {
        Ok(Contents { turns: Seq::empty(), calls: Map::empty(), warnings: Seq::empty() })
    } else {
        match contents_upto(messages, n - 1) {
            Ok(c) => with_message(c, messages[n - 1]),
            Err(e) => Err(e),
        }
    }
}

/// Consecutive tool messages share one user turn: the answers of the second
/// follow those of the first.
pub proof fn answers_share_a_turn(
    turns: Seq<TurnView>,
    first: Seq<JsonView>,
    second: Seq<JsonView>,
)
    requires
        forall|i: int| 0 <= i < first.len() ==> is_response(#[trigger] first[i]),
    ensures
        with_responses(with_responses(turns, first), second) == with_responses(
            turns,
            first + second,
        ),
{
    let once = with_responses(turns, first);
    let last = once.last();
    if turns.len() > 0 && is_response_turn(turns.last()) {
        let before = turns.last().parts;
        assert forall|i: int| 0 <= i < last.parts.len() implies is_response(
            #[trigger] last.parts[i],
        ) by {
            if i < before.len() {
                assert(last.parts[i] == before[i]);
            } else {
                assert(last.parts[i] == first[i - before.len()]);
            }
        }
        assert(before + first + second =~= before + (first + second));
        assert(once.drop_last() =~= turns.drop_last());
    } else {
        assert(once.drop_last() =~= turns);
    }
    assert(is_response_turn(last));
}

fn signed_part(members: JsonObject, signature: Option<String>) -> (r: Json)
    ensures
        r@ == signed(members@, opt(signature)),
{
    Json::Object(
        members.put_opt(
            "thoughtSignature",
            Json::text_opt(crate::error::as_deref(&signature)),
        ),
    )
}

fn text_object(text: &str) -> (r: JsonObject)
    ensures
        r@ == text_members(text@),
{
    JsonObject::new().put("text", Json::text(text))
}

fn lower_user_parts(content: &Vec<UserPart>) -> (r: Vec<Json>)
    ensures
        views(r@) == Seq::new(
            views(content@).len(),
            |i: int| JsonView::Object(text_members(views(content@)[i]->text)),
        ),
{
    let ghost all = views(content@);
    let mut parts: Vec<Json> = Vec::new();
    let mut i: usize = 0;
    while i < content.len()
        invariant
            i <= content@.len(),
            all == views(content@),
            parts@.len() == i,
            forall|k: int|
                0 <= k < i ==> (#[trigger] parts@[k])@ == JsonView::Object(
                    text_members(all[k]->text),
                ),
        decreases content@.len() - i,
    {
        assert(all[i as int] == content@[i as int]@);
        let UserPart::Text { text } = &content[i];
        parts.push(Json::Object(text_object(text.as_str())));
        i += 1;
    }
    assert(all.len() == content@.len());
    assert(views(parts@) =~= Seq::new(
        all.len(),
        |i: int| JsonView::Object(text_members(all[i]->text)),
    ));
    parts
}

/// What an assistant turn is lowered to so far.
struct AssistantLowering {
    parts: Vec<Json>,
    calls: Table<CallEntry>,
    warnings: Vec<Warning>,
}

impl View for AssistantLowering {
    type V = AssistantView;

    closed spec fn view(&self) -> AssistantView {
        AssistantView {
            parts: views(self.parts@),
            calls: self.calls@,
            warnings: views(self.warnings@),
        }
    }
}

fn lower_call(call: &ToolCall, arguments: Json) -> (r: Json)
    ensures
        r@ == call_json(call@, arguments@),
{
    let function_call: JsonObject = JsonObject::new().put(
        "name",
        Json::text(call.name.as_str()),
    ).put("args", arguments).put_opt(
        "id",
        Json::text_opt(crate::error::as_deref(&call.item_id)),
    );
    signed_part(
        JsonObject::new().put("functionCall", Json::Object(function_call)),
        signature_of(&call.provider_metadata),
    )
}

impl AssistantLowering {
    fn lower_part(&mut self, part: &AssistantPart) -> (r: Result<(), Error>)
        ensures
            match r {
                Ok(_) => with_part(old(self)@, part@) == Ok::<AssistantView, ErrorView>(
                    final(self)@,
                ),
                Err(e) => with_part(old(self)@, part@) == Err::<AssistantView, ErrorView>(e@),
            },
    {
        match part {
            AssistantPart::Text { text, provider_metadata } => {
                self.parts.push(
                    signed_part(text_object(text.as_str()), signature_of(provider_metadata)),
                );
            },
            AssistantPart::ToolCall(call) => {
                let arguments: Json = match call.arguments_value() {
                    Ok(arguments) => arguments,
                    Err(source) => {
                        let message: String = cat(
                            cat3(
                                "gemini tool call `",
                                call.call_id.as_str(),
                                "` has invalid JSON arguments: ",
                            ).as_str(),
                            source.as_str(),
                        );
                        return Err(
                            Error::invalid_request(message.as_str()).with_source(source.as_str()),
                        );
                    },
                };
                self.calls.insert(
                    call.call_id.as_str(),
                    CallEntry { name: call.name.clone(), item_id: call.item_id.clone() },
                );
                self.parts.push(lower_call(call, arguments));
            },
            AssistantPart::Reasoning(reasoning) => {
                if let Some(signature) = signature_of(&reasoning.provider_metadata) {
                    self.parts.push(
                        Json::Object(
                            text_object(reasoning.visible_text().as_str()).put(
                                "thought",
                                Json::Bool(true),
                            ).put("thoughtSignature", Json::String(signature)),
                        ),
                    );
                }
            },
            AssistantPart::Compaction(compaction) => {
                if let Some(summary) = &compaction.content {
                    self.parts.push(Json::Object(text_object(summary.as_str())));
                    self.warnings.push(
                        Warning::other(
                            "compaction summary was flattened to plain assistant text: this protocol has no native compaction item",
                        ),
                    );
                }
            },
            AssistantPart::ProviderTool { .. } => {
                self.warnings.push(
                    Warning::other(
                        "server-tool item dropped: this protocol cannot replay provider-executed tool items",
                    ),
                );
            },
        }
        Ok(())
    }
}

proof fn lemma_parts_failure(
    calls: CallIndex,
    warnings: Seq<WarningView>,
    content: Seq<AssistantPartView>,
    i: int,
)
    requires
        0 <= i <= content.len(),
        parts_upto(calls, warnings, content, i) is Err,
    ensures
        parts_upto(calls, warnings, content, content.len() as int) == parts_upto(
            calls,
            warnings,
            content,
            i,
        ),
    decreases content.len() - i,
{
    if i < content.len() {
        lemma_parts_failure(calls, warnings, content, i + 1);
    }
}

fn lower_assistant_parts(
    content: &Vec<AssistantPart>,
    calls: Table<CallEntry>,
    warnings: Vec<Warning>,
) -> (r: Result<AssistantLowering, Error>)
    ensures
        match r {
            Ok(s) => parts_upto(
                calls@,
                views(warnings@),
                views(content@),
                content@.len() as int,
            ) == Ok::<AssistantView, ErrorView>(s@),
            Err(e) => parts_upto(
                calls@,
                views(warnings@),
                views(content@),
                content@.len() as int,
            ) == Err::<AssistantView, ErrorView>(e@),
        },
{
    let ghost all = views(content@);
    let ghost index = calls@;
    let ghost about = views(warnings@);
    let mut s: AssistantLowering = AssistantLowering { parts: Vec::new(), calls, warnings };
    assert(s@ =~= AssistantView { parts: Seq::empty(), calls: index, warnings: about });
    let mut i: usize = 0;
    while i < content.len()
        invariant
            i <= content@.len(),
            all == views(content@),
            all.len() == content@.len(),
            index == calls@,
            about == views(warnings@),
            parts_upto(index, about, all, i as int) == Ok::<AssistantView, ErrorView>(s@),
        decreases content@.len() - i,
    {
        assert(all[i as int] == content@[i as int]@);
        if let Err(e) = s.lower_part(&content[i]) {
            proof {
                lemma_parts_failure(index, about, all, i + 1);
            }
            return Err(e);
        }
        i += 1;
    }
    Ok(s)
}

fn lower_response(result: &ToolResultPart) -> (r: Json)
    ensures
        r@ == response_json(result@),
{
    if result.is_error {
        let error: Json = match &result.content {
            ToolResultContent::Json { value } => value.clone(),
            ToolResultContent::Text { text } => Json::text(text.as_str()),
        };
        return Json::Object(JsonObject::new().put("error", error));
    }
    if let ToolResultContent::Json { value } = &result.content {
        if let Json::Object(map) = value {
            return Json::Object(map.clone());
        }
    }
    Json::Object(
        JsonObject::new().put("result", Json::text(result.content.to_text().as_str())),
    )
}

fn lower_result(result: &ToolResultPart, calls: &Table<CallEntry>) -> (r: Result<Json, Error>)
    ensures
        match r {
            Ok(part) => result_json(result@, calls@) == Ok::<JsonView, ErrorView>(part@),
            Err(e) => result_json(result@, calls@) == Err::<JsonView, ErrorView>(e@),
        },
{
    let entry: Option<&CallEntry> = calls.get(result.call_id.as_str());
    let name: String = match &result.name {
        Some(name) => name.clone(),
        None => match entry {
            Some(entry) => entry.name.clone(),
            None => String::new(),
        },
    };
    if name.as_str().is_empty() {
        let message: String = cat3(
            "gemini requires the function name on tool results; none found for call `",
            result.call_id.as_str(),
            "`",
        );
        return Err(Error::invalid_request(message.as_str()));
    }
    let mut id: Option<String> = result.item_id.clone();
    if let Some(entry) = entry {
        if entry.item_id.is_some() {
            id = entry.item_id.clone();
        }
    }
    let function_response: JsonObject = JsonObject::new().put("name", Json::String(name)).put(
        "response",
        lower_response(result),
    ).put_opt("id", Json::text_opt(crate::error::as_deref(&id)));
    Ok(
        Json::Object(
            JsonObject::new().put("functionResponse", Json::Object(function_response)),
        ),
    )
}

proof fn lemma_results_failure(content: Seq<ToolResultPartView>, calls: CallIndex, i: int)
    requires
        0 <= i <= content.len(),
        results_upto(content, calls, i) is Err,
    ensures
        results_upto(content, calls, content.len() as int) == results_upto(content, calls, i),
    decreases content.len() - i,
{
    if i < content.len() {
        lemma_results_failure(content, calls, i + 1);
    }
}

fn lower_tool_parts(content: &Vec<ToolResultPart>, calls: &Table<CallEntry>) -> (r: Result<
    Vec<Json>,
    Error,
>)
    ensures
        match r {
            Ok(parts) => results_upto(views(content@), calls@, content@.len() as int) == Ok::<
                Seq<JsonView>,
                ErrorView,
            >(views(parts@)),
            Err(e) => results_upto(views(content@), calls@, content@.len() as int) == Err::<
                Seq<JsonView>,
                ErrorView,
            >(e@),
        },
{
    let ghost all = views(content@);
    let mut parts: Vec<Json> = Vec::new();
    assert(views(parts@) =~= Seq::empty());
    let mut i: usize = 0;
    while i < content.len()
        invariant
            i <= content@.len(),
            all == views(content@),
            all.len() == content@.len(),
            results_upto(all, calls@, i as int) == Ok::<Seq<JsonView>, ErrorView>(views(parts@)),
        decreases content@.len() - i,
    {
        assert(all[i as int] == content@[i as int]@);
        match lower_result(&content[i], calls) {
            Ok(part) => parts.push(part),
            Err(e) => {
                proof {
                    lemma_results_failure(all, calls@, i + 1);
                }
                return Err(e);
            },
        }
        i += 1;
    }
    Ok(parts)
}

fn answers_only(turn: &Turn) -> (r: bool)
    ensures
        r == is_response_turn(turn@),
{
    if turn.model {
        return false;
    }
    let mut i: usize = 0;
    while i < turn.parts.len()
        invariant
            i <= turn.parts@.len(),
            !turn.model,
            forall|k: int| 0 <= k < i ==> is_response(#[trigger] turn@.parts[k]),
        decreases turn.parts@.len() - i,
    {
        assert(turn@.parts[i as int] == turn.parts@[i as int]@);
        if turn.parts[i].get("functionResponse").is_none() {
            return false;
        }
        i += 1;
    }
    true
}

fn append_tool_content(turns: &mut Vec<Turn>, parts: Vec<Json>)
    ensures
        views(final(turns)@) == with_responses(views(old(turns)@), views(parts@)),
{
    let ghost before = views(turns@);
    let ghost added = views(parts@);
    assert(before.len() == turns@.len());
    if turns.len() > 0 {
        let last: usize = turns.len() - 1;
        assert(before.last() == turns@[last as int]@);
        if answers_only(&turns[last]) {
            if let Some(turn) = turns.pop() {
                assert(views(turns@) =~= before.drop_last());
                let mut turn: Turn = turn;
                let mut more: Vec<Json> = parts;
                turn.parts.append(&mut more);
                assert(turn@ =~= TurnView { model: false, parts: before.last().parts + added });
                turns.push(turn);
            }
            assert(views(turns@) =~= with_responses(before, added));
            return;
        }
    }
    turns.push(Turn { model: false, parts });
    assert(views(turns@) =~= with_responses(before, added));
}

/// The turns so far, the calls in them and the warnings about them.
struct ContentsLowering {
    turns: Vec<Turn>,
    calls: Table<CallEntry>,
    warnings: Vec<Warning>,
}

impl View for ContentsLowering {
    type V = Contents;

    closed spec fn view(&self) -> Contents {
        Contents {
            turns: views(self.turns@),
            calls: self.calls@,
            warnings: views(self.warnings@),
        }
    }
}

fn lower_message(c: ContentsLowering, message: &Message) -> (r: Result<ContentsLowering, Error>)
    ensures
        match r {
            Ok(next) => with_message(c@, message@) == Ok::<Contents, ErrorView>(next@),
            Err(e) => with_message(c@, message@) == Err::<Contents, ErrorView>(e@),
        },
{
    let mut c: ContentsLowering = c;
    let ghost before = c@;
    match message {
        Message::User { content } => {
            let parts: Vec<Json> = lower_user_parts(content);
            c.turns.push(Turn { model: false, parts });
            assert(Ok::<Contents, ErrorView>(c@) == with_message(before, message@));
            Ok(c)
        },
        Message::Assistant { content, .. } => {
            let ContentsLowering { mut turns, calls, warnings } = c;
            assert(views(content@).len() == content@.len());
            match lower_assistant_parts(content, calls, warnings) {
                Ok(s) => {
                    let AssistantLowering { parts, calls, warnings } = s;
                    assert(views(parts@).len() == parts@.len());
                    if parts.len() > 0 {
                        turns.push(Turn { model: true, parts });
                    }
                    let next: ContentsLowering = ContentsLowering { turns, calls, warnings };
                    assert(Ok::<Contents, ErrorView>(next@) == with_message(before, message@));
                    Ok(next)
                },
                Err(e) => Err(e),
            }
        },
        Message::Tool { content } => {
            assert(views(content@).len() == content@.len());
            match lower_tool_parts(content, &c.calls) {
                Ok(parts) => {
                    append_tool_content(&mut c.turns, parts);
                    Ok(c)
                },
                Err(e) => Err(e),
            }
        },
    }
}

proof fn lemma_contents_failure(messages: Seq<MessageView>, i: int)
    requires
        0 <= i <= messages.len(),
        contents_upto(messages, i) is Err,
    ensures
        contents_upto(messages, messages.len() as int) == contents_upto(messages, i),
    decreases messages.len() - i,
{
    if i < messages.len() {
        lemma_contents_failure(messages, i + 1);
    }
}

/// The turns of some messages on the wire.
pub open spec fn turns_json(turns: Seq<TurnView>) -> JsonView {
    JsonView::Array(Seq::new(turns.len(), |i: int| turn_json(turns[i])))
}

fn lower_turns(turns: Vec<Turn>) -> (r: Json)
    ensures
        r@ == turns_json(views(turns@)),
{
    let ghost list = turns@;
    let ghost all = views(turns@);
    let mut contents: Vec<Json> = Vec::new();
    for turn in it: turns.into_iter()
        invariant
            it.seq() == list,
            all == views(list),
            contents@.len() == it.index(),
            forall|k: int|
                0 <= k < it.index() ==> (#[trigger] contents@[k])@ == turn_json(all[k]),
    {
        assert(turn@ == all[it.index() as int]);
        let role: &str = if turn.model {
            "model"
        } else {
            "user"
        };
        contents.push(
            Json::Object(
                JsonObject::new().put("role", Json::text(role)).put(
                    "parts",
                    Json::Array(turn.parts),
                ),
            ),
        );
    }
    assert(all.len() == list.len());
    assert(views(contents@) =~= Seq::new(all.len(), |i: int| turn_json(all[i])));
    Json::Array(contents)
}

/// Lower the message history.
pub fn lower_contents(messages: &Vec<Message>) -> (r: Result<(Vec<Turn>, Vec<Warning>), Error>)
    ensures
        match r {
            Ok((turns, warnings)) => contents_upto(
                views(messages@),
                messages@.len() as int,
            ) matches Ok(c) && c.turns == views(turns@) && c.warnings == views(warnings@),
            Err(e) => contents_upto(views(messages@), messages@.len() as int) == Err::<
                Contents,
                ErrorView,
            >(e@),
        },
{
    let ghost all = views(messages@);
    let mut c: ContentsLowering = ContentsLowering {
        turns: Vec::new(),
        calls: Table::new(),
        warnings: Vec::new(),
    };
    assert(Ok::<Contents, ErrorView>(c@) == contents_upto(all, 0));
    let mut i: usize = 0;
    while i < messages.len()
        invariant
            i <= messages@.len(),
            all == views(messages@),
            all.len() == messages@.len(),
            contents_upto(all, i as int) == Ok::<Contents, ErrorView>(c@),
        decreases messages@.len() - i,
    {
        assert(all[i as int] == messages@[i as int]@);
        match lower_message(c, &messages[i]) {
            Ok(next) => {
                c = next;
            },
            Err(e) => {
                proof {
                    lemma_contents_failure(all, i + 1);
                }
                return Err(e);
            },
        }
        i += 1;
    }
    Ok((c.turns, c.warnings))
}

// ---------------------------------------------------------------------------
// Settings
// ---------------------------------------------------------------------------

/// The system instruction on the wire.
pub open spec fn system_json(r: RequestView) -> Option<JsonView> {
    match r.system_prompt() {
        Some(system) => Some(
            JsonView::Object(
                no_members().insert(
                    "parts"@,
                    JsonView::Array(seq![JsonView::Object(text_members(system))]),
                ),
            ),
        ),
        None => None,
    }
}

/// A tool declaration on the wire.
pub open spec fn declaration_json(tool: ToolDefinitionView) -> JsonView {
    JsonView::Object(
        with_member(
            no_members().insert("name"@, JsonView::String(tool.name)).insert(
                "parametersJsonSchema"@,
                tool.parameters,
            ),
            "description"@,
            text_value(tool.description),
        ),
    )
}

/// The tool declarations on the wire.
pub open spec fn declarations_json(tools: Seq<ToolDefinitionView>) -> Option<JsonView> {
    if tools.len() > 0 {
        Some(
            JsonView::Array(
                seq![
                    JsonView::Object(
                        no_members().insert(
                            "functionDeclarations"@,
                            JsonView::Array(
                                Seq::new(tools.len(), |i: int| declaration_json(tools[i])),
                            ),
                        ),
                    ),
                ],
            ),
        )
    } else {
        None
    }
}

/// The calling mode of a tool choice.
pub open spec fn mode_members(choice: ToolChoiceView) -> Map<Seq<char>, JsonView> {
    match choice {
        ToolChoiceView::Auto => no_members().insert("mode"@, JsonView::String("AUTO"@)),
        ToolChoiceView::Never => no_members().insert("mode"@, JsonView::String("NONE"@)),
        ToolChoiceView::Required => no_members().insert("mode"@, JsonView::String("ANY"@)),
        ToolChoiceView::Tool { name } => no_members().insert(
            "mode"@,
            JsonView::String("ANY"@),
        ).insert("allowedFunctionNames"@, JsonView::Array(seq![JsonView::String(name)])),
    }
}

/// The tool configuration on the wire.
pub open spec fn choice_json(choice: Option<ToolChoiceView>) -> Option<JsonView> {
    match choice {
        Some(choice) => Some(
            JsonView::Object(
                no_members().insert(
                    "functionCallingConfig"@,
                    JsonView::Object(mode_members(choice)),
                ),
            ),
        ),
        None => None,
    }
}

/// The thinking configuration of a resolved setting.
pub open spec fn thinking_json(
    control: ResolvedView,
    output: Option<ReasoningOutput>,
) -> JsonView {
    JsonView::Object(
        with_member(
            match control {
                ResolvedView::Disabled => no_members().insert(
                    "thinkingBudget"@,
                    JsonView::Number(NumberView::U(0)),
                ),
                ResolvedView::Effort(effort) => no_members().insert(
                    "thinkingLevel"@,
                    JsonView::String(effort.text()),
                ),
                ResolvedView::Budget(tokens) => no_members().insert(
                    "thinkingBudget"@,
                    JsonView::Number(NumberView::U(tokens as u64)),
                ),
            },
            "includeThoughts"@,
            match output {
                Some(output) => Some(JsonView::Bool(output is Include)),
                None => None,
            },
        ),
    )
}

/// The thinking configuration of a request.
pub open spec fn thinking_of(
    config: Option<ReasoningConfig>,
    support: ReasoningSupportView,
    profile: ApiProfile,
) -> Option<JsonView> {
    match config {
        Some(config) => match resolved(config, support, profile) {
            Some((control, output)) => Some(thinking_json(control, output)),
            None => None,
        },
        None => None,
    }
}

/// The warnings about the reasoning setting of a request.
pub open spec fn thinking_warnings(
    config: Option<ReasoningConfig>,
    support: ReasoningSupportView,
    profile: ApiProfile,
) -> Seq<WarningView> {
    match config {
        Some(config) => resolution_warnings(config, support, profile),
        None => Seq::empty(),
    }
}

/// A whole number on the wire, where it is set.
pub open spec fn count_member(n: Option<u32>) -> Option<JsonView> {
    match n {
        Some(n) => Some(JsonView::Number(NumberView::U(n as u64))),
        None => None,
    }
}

/// The generation settings on the wire.
pub open spec fn generation_members(r: RequestView, thinking: Option<JsonView>) -> Map<
    Seq<char>,
    JsonView,
> {
    let sampled = with_member(
        with_member(
            with_member(
                with_member(no_members(), "temperature"@, real_member(r.temperature)),
                "topP"@,
                real_member(r.top_p),
            ),
            "topK"@,
            count_member(r.top_k),
        ),
        "maxOutputTokens"@,
        count_member(r.max_output_tokens),
    );
    let bounded = with_member(
        with_member(
            sampled,
            "stopSequences"@,
            if r.stop_sequences.len() > 0 {
                Some(texts_json(r.stop_sequences))
            } else {
                None
            },
        ),
        "seed"@,
        match r.seed {
            Some(n) => Some(JsonView::Number(NumberView::U(n))),
            None => None,
        },
    );
    let penalized = with_member(
        with_member(bounded, "presencePenalty"@, real_member(r.presence_penalty)),
        "frequencyPenalty"@,
        real_member(r.frequency_penalty),
    );
    let formatted = match r.structured_output {
        Some(output) => penalized.insert(
            "responseMimeType"@,
            JsonView::String("application/json"@),
        ).insert("responseJsonSchema"@, output.schema),
        None => penalized,
    };
    with_member(formatted, "thinkingConfig"@, thinking)
}

/// The body without the provider options.
pub open spec fn plain_body(
    r: RequestView,
    contents: JsonView,
    thinking: Option<JsonView>,
) -> Map<Seq<char>, JsonView> {
    let generation = generation_members(r, thinking);
    with_member(
        with_member(
            with_member(
                with_member(
                    no_members().insert("contents"@, contents),
                    "systemInstruction"@,
                    system_json(r),
                ),
                "tools"@,
                declarations_json(r.tools),
            ),
            "toolConfig"@,
            choice_json(r.tool_choice),
        ),
        "generationConfig"@,
        if generation == no_members() {
            None
        } else {
            Some(JsonView::Object(generation))
        },
    )
}

/// A model name without its resource prefix.
pub open spec fn bare_model(model: Seq<char>) -> Seq<char> {
    if is_prefix("models/"@, model) {
        model.skip("models/"@.len() as int)
    } else {
        model
    }
}

/// The path of a request below the base URL.
pub open spec fn generate_path(model: Seq<char>, streaming: bool) -> Seq<char> {
    "models/"@ + bare_model(model) + ":"@ + if streaming {
        "streamGenerateContent"@
    } else {
        "generateContent"@
    }
}

/// A request in the GenerateContent format.
pub open spec fn lowered(
    r: RequestView,
    model: Seq<char>,
    profile: ApiProfile,
    support: ReasoningSupportView,
    streaming: bool,
) -> Result<LoweredView, ErrorView> {
    match contents_upto(r.messages, r.messages.len() as int) {
        Ok(c) => Ok(
            LoweredView {
                path: generate_path(model, streaming),
                query: if streaming {
                    seq![("alt"@, "sse"@)]
                } else {
                    Seq::empty()
                },
                headers: Seq::empty(),
                body: with_options(
                    JsonView::Object(
                        plain_body(
                            r,
                            turns_json(c.turns),
                            thinking_of(r.reasoning, support, profile),
                        ),
                    ),
                    r.provider_options,
                    "gemini"@,
                ),
                warnings: c.warnings + thinking_warnings(r.reasoning, support, profile),
            },
        ),
        Err(e) => Err(e),
    }
}

fn system_instruction(request: &Request) -> (r: Option<Json>)
    ensures
        opt(r) == system_json(request@),
{
    match request.system_prompt() {
        Some(system) => Some(
            Json::Object(
                JsonObject::new().put("parts", Json::one(Json::Object(text_object(system)))),
            ),
        ),
        None => None,
    }
}

fn tool_declarations(tools: &Vec<ToolDefinition>) -> (r: Option<Json>)
    ensures
        opt(r) == declarations_json(views(tools@)),
{
    let ghost all = views(tools@);
    assert(all.len() == tools@.len());
    if tools.len() == 0 {
        return None;
    }
    let mut declarations: Vec<Json> = Vec::new();
    let mut i: usize = 0;
    while i < tools.len()
        invariant
            i <= tools@.len(),
            all == views(tools@),
            declarations@.len() == i,
            forall|k: int|
                0 <= k < i ==> (#[trigger] declarations@[k])@ == declaration_json(all[k]),
        decreases tools@.len() - i,
    {
        assert(all[i as int] == tools@[i as int]@);
        let tool: &ToolDefinition = &tools[i];
        declarations.push(
            Json::Object(
                JsonObject::new().put("name", Json::text(tool.name.as_str())).put(
                    "parametersJsonSchema",
                    tool.parameters.clone(),
                ).put_opt(
                    "description",
                    Json::text_opt(crate::error::as_deref(&tool.description)),
                ),
            ),
        );
        i += 1;
    }
    assert(views(declarations@) =~= Seq::new(all.len(), |i: int| declaration_json(all[i])));
    Some(
        Json::one(
            Json::Object(
                JsonObject::new().put("functionDeclarations", Json::Array(declarations)),
            ),
        ),
    )
}

fn tool_config(choice: &Option<ToolChoice>) -> (r: Option<Json>)
    ensures
        opt(r) == choice_json(opt(*choice)),
{
    let config: JsonObject = match choice {
        Some(ToolChoice::Auto) => JsonObject::new().put("mode", Json::text("AUTO")),
        Some(ToolChoice::Never) => JsonObject::new().put("mode", Json::text("NONE")),
        Some(ToolChoice::Required) => JsonObject::new().put("mode", Json::text("ANY")),
        Some(ToolChoice::Tool { name }) => JsonObject::new().put("mode", Json::text("ANY")).put(
            "allowedFunctionNames",
            Json::one(Json::text(name.as_str())),
        ),
        None => return None,
    };
    Some(Json::Object(JsonObject::new().put("functionCallingConfig", Json::Object(config))))
}

fn thinking_config(
    config: Option<ReasoningConfig>,
    support: &ReasoningSupport,
    profile: ApiProfile,
    warnings: &mut Vec<Warning>,
) -> (r: Option<Json>)
    ensures
        opt(r) == thinking_of(config, support@, profile),
        views(final(warnings)@) == views(old(warnings)@) + thinking_warnings(
            config,
            support@,
            profile,
        ),
{
    let config: ReasoningConfig = match config {
        Some(config) => config,
        None => {
            assert(views(warnings@) + Seq::<WarningView>::empty() =~= views(warnings@));
            return None;
        },
    };
    let (control, output) = match resolve(config, support, profile, warnings) {
        Some(resolution) => resolution,
        None => return None,
    };
    let thinking: JsonObject = match control {
        ResolvedReasoning::Disabled => JsonObject::new().put("thinkingBudget", Json::number(0)),
        ResolvedReasoning::Effort(effort) => JsonObject::new().put(
            "thinkingLevel",
            Json::text(effort.as_str()),
        ),
        ResolvedReasoning::Budget(tokens) => JsonObject::new().put(
            "thinkingBudget",
            Json::number(tokens.get() as u64),
        ),
    };
    let shown: Option<Json> = match output {
        Some(ReasoningOutput::Include) => Some(Json::Bool(true)),
        Some(ReasoningOutput::Omit) => Some(Json::Bool(false)),
        None => None,
    };
    Some(Json::Object(thinking.put_opt("includeThoughts", shown)))
}

fn wire_count(n: Option<u32>) -> (r: Option<Json>)
    ensures
        opt(r) == count_member(n),
{
    match n {
        Some(n) => Some(Json::number(n as u64)),
        None => None,
    }
}

fn generation_config(request: &Request, thinking: Option<Json>) -> (r: JsonObject)
    ensures
        r@ == generation_members(request@, opt(thinking)),
{
    let stop: Option<Json> = if request.stop_sequences.len() > 0 {
        Some(texts(&request.stop_sequences))
    } else {
        None
    };
    let seed: Option<Json> = match request.seed {
        Some(n) => Some(Json::number(n)),
        None => None,
    };
    let mut generation: JsonObject = JsonObject::new().put_opt(
        "temperature",
        wire_real(&request.temperature),
    ).put_opt("topP", wire_real(&request.top_p)).put_opt("topK", wire_count(request.top_k)).put_opt(
        "maxOutputTokens",
        wire_count(request.max_output_tokens),
    ).put_opt("stopSequences", stop).put_opt("seed", seed).put_opt(
        "presencePenalty",
        wire_real(&request.presence_penalty),
    ).put_opt("frequencyPenalty", wire_real(&request.frequency_penalty));
    if let Some(output) = &request.structured_output {
        generation = generation.put("responseMimeType", Json::text("application/json")).put(
            "responseJsonSchema",
            output.schema.clone(),
        );
    }
    generation.put_opt("thinkingConfig", thinking)
}

fn path_for(model: &str, streaming: bool) -> (r: String)
    ensures
        r@ == generate_path(model@, streaming),
{
    let bare: String = if starts_with(model, "models/") {
        proof {
            reveal_strlit("models/");
        }
        let count: usize = model.unicode_len();
        let tail: String = part(model, 7, count);
        assert(tail@ =~= model@.skip("models/"@.len() as int));
        tail
    } else {
        model.to_owned()
    };
    let method: &str = if streaming {
        "streamGenerateContent"
    } else {
        "generateContent"
    };
    cat3(cat("models/", bare.as_str()).as_str(), ":", method)
}

/// Lower a request to the GenerateContent format.
pub fn lower_gemini_request(
    request: &Request,
    model: &str,
    profile: ApiProfile,
    support: &ReasoningSupport,
    streaming: bool,
) -> (r: Result<LoweredRequest, Error>)
    ensures
        match r {
            Ok(l) => lowered(request@, model@, profile, support@, streaming) == Ok::<
                LoweredView,
                ErrorView,
            >(l@),
            Err(e) => lowered(request@, model@, profile, support@, streaming) == Err::<
                LoweredView,
                ErrorView,
            >(e@),
        },
{
    let (turns, mut warnings) = match lower_contents(&request.messages) {
        Ok(contents) => contents,
        Err(e) => return Err(e),
    };
    let contents: Json = lower_turns(turns);
    let thinking: Option<Json> = thinking_config(
        request.reasoning,
        support,
        profile,
        &mut warnings,
    );
    let generation: JsonObject = generation_config(request, thinking);
    let settings: Option<Json> = if generation.is_empty() {
        None
    } else {
        Some(Json::Object(generation))
    };
    let mut body: Json = Json::Object(
        JsonObject::new().put("contents", contents).put_opt(
            "systemInstruction",
            system_instruction(request),
        ).put_opt("tools", tool_declarations(&request.tools)).put_opt(
            "toolConfig",
            tool_config(&request.tool_choice),
        ).put_opt("generationConfig", settings),
    );
    if let Some(options) = request.provider_options.get("gemini") {
        json_merge(&mut body, options.clone());
    }
    let mut query: Vec<(String, String)> = Vec::new();
    if streaming {
        query.push(pair("alt", "sse"));
    }
    assert(views(query@) =~= if streaming {
        seq![("alt"@, "sse"@)]
    } else {
        Seq::empty()
    });
    Ok(
        LoweredRequest {
            path: path_for(model, streaming),
            query,
            headers: Vec::new(),
            body,
            warnings,
        },
    )
}

} // verus!
