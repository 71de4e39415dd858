//! Lowering of requests to the Messages wire format.
use vstd::prelude::*;

use super::{AnthropicDialect, ANTHROPIC_VERSION, VERSION, VERSION_HEADER};
use crate::capabilities::{ReasoningSupport, ReasoningSupportView};
use crate::error::{as_deref, new_error, Error, ErrorKind, ErrorView};
use crate::http_support::{encode_path_segment, path_segment};
use crate::json::{
    field, json_parse, no_members, text_value, with_member, Json, JsonObject, JsonView, NumberView,
};
use crate::message::{
    result_text, AssistantPart, AssistantPartView, Message, MessageView, ReasoningContent,
    ReasoningContentView, ReasoningPart, ToolCall, ToolCallView, ToolResultPart,
    ToolResultPartView, UserPart, UserPartView,
};
use crate::model::{opt, views};
use crate::protocols::lower::{pair, texts, texts_json, with_options, LoweredRequest, LoweredView};
use crate::protocols::reasoning::{
    resolution_view, resolution_warnings, resolve, resolved, ResolvedReasoning, ResolvedView,
};
use crate::protocols::ApiProfile;
use crate::request::{
    real_json, Compaction, CompactionView, ReasoningConfig, ReasoningOutput, Request, RequestView,
    TokenCount, ToolChoice, ToolChoiceView, ToolDefinition, ToolDefinitionView,
};
use crate::response::{approximated, note, noted, other_warning, unsupported, Warning, WarningView};
use crate::text::{cat, cat3, decimal, decimal_text, same};
use crate::util::json_merge;

verus! {

broadcast use {crate::model::group_views, crate::json::array_view};

/// Anthropic's `max_tokens` is mandatory. This is the value used when the
/// caller leaves the output cap to the library.
pub const FALLBACK_MAX_TOKENS: u32 = 8192;

/// The least thinking budget.
pub const MIN_BUDGET: u32 = 1024;

// ---------------------------------------------------------------------------
// Messages
// ---------------------------------------------------------------------------

/// A text block; Anthropic rejects empty ones.
pub open spec fn text_block(text: Seq<char>) -> Option<JsonView> {
    if text.len() > 0 {
        Some(
            JsonView::Object(
                no_members().insert("type"@, JsonView::String("text"@)).insert(
                    "text"@,
                    JsonView::String(text),
                ),
            ),
        )
    } else {
        None
    }
}

/// Some blocks with one more, where there is one.
pub open spec fn with_block(blocks: Seq<JsonView>, block: Option<JsonView>) -> Seq<JsonView> {
    match block {
        Some(block) => blocks.push(block),
        None => blocks,
    }
}

/// The blocks of the first `n` parts of a user message.
pub open spec fn user_blocks(content: Seq<UserPartView>, n: int) -> Seq<JsonView>
    decreases n,
{
    if n <= 0 {
        Seq::empty()
    } else {
        with_block(user_blocks(content, n - 1), text_block(content[n - 1]->text))
    }
}

/// The block of a piece of reasoning. Unsigned or foreign reasoning content is
/// skipped because Anthropic rejects it on replay.
pub open spec fn thinking_block(content: ReasoningContentView) -> Option<JsonView> {
    match content {
        ReasoningContentView::Text { text, signature: Some(signature) } => Some(
            JsonView::Object(
                no_members().insert("type"@, JsonView::String("thinking"@)).insert(
                    "thinking"@,
                    JsonView::String(text),
                ).insert("signature"@, JsonView::String(signature)),
            ),
        ),
        ReasoningContentView::Redacted { data } => Some(
            JsonView::Object(
                no_members().insert("type"@, JsonView::String("redacted_thinking"@)).insert(
                    "data"@,
                    JsonView::String(data),
                ),
            ),
        ),
        _ => None,
    }
}

/// Some blocks with those of the first `n` pieces of reasoning.
pub open spec fn with_thinking(
    blocks: Seq<JsonView>,
    content: Seq<ReasoningContentView>,
    n: int,
) -> Seq<JsonView>
    decreases n,
{
    if n <= 0 {
        blocks
    } else {
        with_block(with_thinking(blocks, content, n - 1), thinking_block(content[n - 1]))
    }
}

/// The failure of a call whose arguments are not JSON.
pub open spec fn input_failure(call: ToolCallView, reason: Seq<char>) -> ErrorView {
    new_error(
        ErrorKind::InvalidRequest,
        "anthropic tool call `"@ + call.call_id + "` has invalid JSON arguments: "@ + reason,
    ).with_source(reason)
}

/// The block of a tool call with its input.
pub open spec fn tool_use_block(call: ToolCallView, input: JsonView) -> JsonView {
    JsonView::Object(
        no_members().insert("type"@, JsonView::String("tool_use"@)).insert(
            "id"@,
            JsonView::String(call.call_id),
        ).insert("name"@, JsonView::String(call.name)).insert("input"@, input),
    )
}

/// Says that a compaction cannot be replayed.
pub open spec fn opaque_compaction() -> ErrorView {
    new_error(
        ErrorKind::UnsupportedContent,
        "history contains a compaction item without summary content; anthropic can only replay summary compactions"@,
    )
}

/// Some blocks with those of an assistant part.
pub open spec fn with_part(blocks: Seq<JsonView>, part: AssistantPartView) -> Result<
    Seq<JsonView>,
    ErrorView,
> {
    match part {
        AssistantPartView::Text { text, .. } => Ok(with_block(blocks, text_block(text))),
        AssistantPartView::Reasoning(part) => Ok(
            with_thinking(blocks, part.content, part.content.len() as int),
        ),
        AssistantPartView::ToolCall(call) => match json_parse(call.arguments) {
            Ok(input) => Ok(blocks.push(tool_use_block(call, input))),
            Err(e) => Err(input_failure(call, e)),
        },
        AssistantPartView::Compaction(part) => match part.content {
            Some(text) => Ok(
                blocks.push(
                    JsonView::Object(
                        no_members().insert("type"@, JsonView::String("compaction"@)).insert(
                            "content"@,
                            JsonView::String(text),
                        ),
                    ),
                ),
            ),
            None => Err(opaque_compaction()),
        },
        // Foreign server tool items have no Anthropic representation.
        AssistantPartView::ProviderTool { provider_tool } => Ok(
            if provider_tool.namespace == "anthropic"@ {
                blocks.push(provider_tool.payload)
            } else {
                blocks
            },
        ),
    }
}

/// The blocks of the first `n` parts of an assistant message.
pub open spec fn assistant_blocks(content: Seq<AssistantPartView>, n: int) -> Result<
    Seq<JsonView>,
    ErrorView,
>
    decreases n,
{
    if n <= 0 {
        Ok(Seq::empty())
    } else {
        match assistant_blocks(content, n - 1) {
            Ok(blocks) => with_part(blocks, content[n - 1]),
            Err(e) => Err(e),
        }
    }
}

/// The block of a tool result.
pub open spec fn result_block(result: ToolResultPartView) -> JsonView {
    JsonView::Object(
        with_member(
            no_members().insert("type"@, JsonView::String("tool_result"@)).insert(
                "tool_use_id"@,
                JsonView::String(result.call_id),
            ).insert("content"@, JsonView::String(result_text(result.content))),
            "is_error"@,
            if result.is_error {
                Some(JsonView::Bool(true))
            } else {
                None
            },
        ),
    )
}

/// The blocks of a tool message.
pub open spec fn result_blocks(content: Seq<ToolResultPartView>) -> Seq<JsonView> {
    Seq::new(content.len(), |i: int| result_block(content[i]))
}

/// A message with blocks.
pub open spec fn message_json(role: Seq<char>, blocks: Seq<JsonView>) -> JsonView {
    JsonView::Object(
        no_members().insert("role"@, JsonView::String(role)).insert(
            "content"@,
            JsonView::Array(blocks),
        ),
    )
}

/// Whether a block is a tool result.
pub open spec fn is_result(block: JsonView) -> bool {
    field(block, "type"@) == Some(JsonView::String("tool_result"@))
}

/// Whether all blocks are tool results.
pub open spec fn are_results(blocks: Seq<JsonView>) -> bool {
    forall|i: int| 0 <= i < blocks.len() ==> is_result(#[trigger] blocks[i])
}

/// Whether a message is a user message of nothing but tool results.
pub open spec fn holds_results(message: JsonView) -> bool {
    field(message, "role"@) == Some(JsonView::String("user"@)) && match field(
        message,
        "content"@,
    ) {
        Some(JsonView::Array(blocks)) => are_results(blocks),
        _ => false,
    }
}

/// A message with more blocks.
pub open spec fn extended(message: JsonView, more: Seq<JsonView>) -> JsonView {
    JsonView::Object(
        message->Object_0.insert(
            "content"@,
            JsonView::Array(message->Object_0["content"@]->Array_0 + more),
        ),
    )
}

/// Some messages with a message of blocks, unless it has none.
pub open spec fn with_message(
    messages: Seq<JsonView>,
    role: Seq<char>,
    blocks: Seq<JsonView>,
) -> Seq<JsonView> {
    if blocks.len() > 0 {
        messages.push(message_json(role, blocks))
    } else {
        messages
    }
}

/// Some messages with tool results: Anthropic requires one user message for all
/// results from a tool turn.
pub open spec fn with_results(messages: Seq<JsonView>, blocks: Seq<JsonView>) -> Seq<JsonView> {
    if messages.len() > 0 && holds_results(messages.last()) {
        messages.drop_last().push(extended(messages.last(), blocks))
    } else {
        messages.push(message_json("user"@, blocks))
    }
}

/// The first `n` messages on the wire.
pub open spec fn wire_messages(messages: Seq<MessageView>, n: int) -> Result<
    Seq<JsonView>,
    ErrorView,
>
    decreases n,
{
    if n <= 0 {
        Ok(Seq::empty())
    } else {
        match wire_messages(messages, n - 1) {
            Ok(sent) => match messages[n - 1] {
                MessageView::User { content } => Ok(
                    with_message(sent, "user"@, user_blocks(content, content.len() as int)),
                ),
                MessageView::Assistant { content, .. } => match assistant_blocks(
                    content,
                    content.len() as int,
                ) {
                    Ok(blocks) => Ok(with_message(sent, "assistant"@, blocks)),
                    Err(e) => Err(e),
                },
                MessageView::Tool { content } => Ok(with_results(sent, result_blocks(content))),
            },
            Err(e) => Err(e),
        }
    }
}

fn typed(kind: &str) -> (r: JsonObject)
    ensures
        r@ == no_members().insert("type"@, JsonView::String(kind@)),
{
    JsonObject::new().put("type", Json::text(kind))
}

fn push_text(blocks: &mut Vec<Json>, text: &str)
    ensures
        views(final(blocks)@) == with_block(views(old(blocks)@), text_block(text@)),
{
    if !text.is_empty() {
        blocks.push(Json::Object(typed("text").put("text", Json::text(text))));
    }
}

/// Replay Anthropic thinking verbatim. Unsigned or foreign reasoning content
/// is skipped because Anthropic rejects it on replay.
pub fn lower_reasoning(reasoning: &ReasoningPart, blocks: &mut Vec<Json>)
    ensures
        views(final(blocks)@) == with_thinking(
            views(old(blocks)@),
            reasoning@.content,
            reasoning@.content.len() as int,
        ),
{
    let ghost all = reasoning@.content;
    let ghost before = views(blocks@);
    let mut i: usize = 0;
    while i < reasoning.content.len()
        invariant
            i <= reasoning.content@.len(),
            all == views(reasoning.content@),
            views(blocks@) == with_thinking(before, all, i as int),
        decreases reasoning.content@.len() - i,
    {
        assert(all[i as int] == reasoning.content@[i as int]@);
        match &reasoning.content[i] {
            ReasoningContent::Text { text, signature: Some(signature) } => {
                blocks.push(
                    Json::Object(
                        typed("thinking").put("thinking", Json::text(text.as_str())).put(
                            "signature",
                            Json::text(signature.as_str()),
                        ),
                    ),
                );
            },
            ReasoningContent::Redacted { data } => {
                blocks.push(
                    Json::Object(typed("redacted_thinking").put("data", Json::text(data.as_str()))),
                );
            },
            _ => {},
        }
        i += 1;
    }
}

/// Replayed tool-call arguments as the `tool_use` input object. Request
/// validation already guarantees they parse as a JSON object.
fn tool_input(call: &ToolCall) -> (r: Result<Json, Error>)
    ensures
        match r {
            Ok(input) => json_parse(call@.arguments) == Ok::<JsonView, Seq<char>>(input@),
            Err(e) => match json_parse(call@.arguments) {
                Ok(_) => false,
                Err(reason) => e@ == input_failure(call@, reason),
            },
        },
{
    match call.arguments_value() {
        Ok(input) => Ok(input),
        Err(source) => {
            let head: String = cat3(
                "anthropic tool call `",
                call.call_id.as_str(),
                "` has invalid JSON arguments: ",
            );
            let message: String = cat(head.as_str(), source.as_str());
            Err(Error::invalid_request(message.as_str()).with_source(source.as_str()))
        },
    }
}

/// What a step of the lowering has come to.
spec fn stepped(
    r: Result<(), Error>,
    now: Seq<JsonView>,
    next: Result<Seq<JsonView>, ErrorView>,
) -> bool {
    match r {
        Ok(_) => next == Ok::<Seq<JsonView>, ErrorView>(now),
        Err(e) => next == Err::<Seq<JsonView>, ErrorView>(e@),
    }
}

fn lower_part(blocks: &mut Vec<Json>, part: &AssistantPart) -> (r: Result<(), Error>)
    ensures
        stepped(r, views(final(blocks)@), with_part(views(old(blocks)@), part@)),
{
    match part {
        AssistantPart::Text { text, .. } => push_text(blocks, text.as_str()),
        AssistantPart::Reasoning(reasoning) => lower_reasoning(reasoning, blocks),
        AssistantPart::ToolCall(call) => {
            let input: Json = match tool_input(call) {
                Ok(input) => input,
                Err(e) => return Err(e),
            };
            blocks.push(
                Json::Object(
                    typed("tool_use").put("id", Json::text(call.call_id.as_str())).put(
                        "name",
                        Json::text(call.name.as_str()),
                    ).put("input", input),
                ),
            );
        },
        AssistantPart::Compaction(compaction) => match &compaction.content {
            Some(text) => blocks.push(
                Json::Object(typed("compaction").put("content", Json::text(text.as_str()))),
            ),
            // Without summary text there is nothing to replay: the item is
            // either another provider's opaque state or a compaction that
            // produced no content.
            None => {
                return Err(
                    Error::new(
                        ErrorKind::UnsupportedContent,
                        "history contains a compaction item without summary content; anthropic can only replay summary compactions",
                    ),
                );
            },
        },
        AssistantPart::ProviderTool { provider_tool: tool } => {
            if same(tool.namespace.as_str(), "anthropic") {
                blocks.push(tool.payload.clone());
            }
        },
    }
    Ok(())
}

proof fn lemma_assistant_failure(content: Seq<AssistantPartView>, i: int)
    requires
        0 <= i <= content.len(),
        assistant_blocks(content, i) is Err,
    ensures
        assistant_blocks(content, content.len() as int) == assistant_blocks(content, i),
    decreases content.len() - i,
{
    if i < content.len() {
        lemma_assistant_failure(content, i + 1);
    }
}

fn lower_assistant(content: &Vec<AssistantPart>) -> (r: Result<Vec<Json>, Error>)
    ensures
        match r {
            Ok(blocks) => assistant_blocks(views(content@), content@.len() as int) == Ok::<
                Seq<JsonView>,
                ErrorView,
            >(views(blocks@)),
            Err(e) => assistant_blocks(views(content@), content@.len() as int) == Err::<
                Seq<JsonView>,
                ErrorView,
            >(e@),
        },
{
    let ghost all = views(content@);
    let mut blocks: Vec<Json> = Vec::new();
    let mut i: usize = 0;
    while i < content.len()
        invariant
            i <= content@.len(),
            all == views(content@),
            assistant_blocks(all, i as int) == Ok::<Seq<JsonView>, ErrorView>(views(blocks@)),
        decreases content@.len() - i,
    {
        assert(all[i as int] == content@[i as int]@);
        if let Err(e) = lower_part(&mut blocks, &content[i]) {
            proof {
                lemma_assistant_failure(all, i + 1);
            }
            return Err(e);
        }
        i += 1;
    }
    Ok(blocks)
}

fn lower_user(content: &Vec<UserPart>) -> (r: Vec<Json>)
    ensures
        views(r@) == user_blocks(views(content@), content@.len() as int),
{
    let ghost all = views(content@);
    let mut blocks: Vec<Json> = Vec::new();
    let mut i: usize = 0;
    while i < content.len()
        invariant
            i <= content@.len(),
            all == views(content@),
            views(blocks@) == user_blocks(all, i as int),
        decreases content@.len() - i,
    {
        assert(all[i as int] == content@[i as int]@);
        let UserPart::Text { text } = &content[i];
        push_text(&mut blocks, text.as_str());
        i += 1;
    }
    blocks
}

fn lower_results(content: &Vec<ToolResultPart>) -> (r: Vec<Json>)
    ensures
        views(r@) == result_blocks(views(content@)),
{
    let ghost all = views(content@);
    let mut blocks: Vec<Json> = Vec::new();
    let mut i: usize = 0;
    while i < content.len()
        invariant
            i <= content@.len(),
            all == views(content@),
            blocks@.len() == i,
            forall|k: int| 0 <= k < i ==> (#[trigger] blocks@[k])@ == result_block(all[k]),
        decreases content@.len() - i,
    {
        assert(all[i as int] == content@[i as int]@);
        let result: &ToolResultPart = &content[i];
        let is_error: Option<Json> = if result.is_error {
            Some(Json::Bool(true))
        } else {
            None
        };
        blocks.push(
            Json::Object(
                typed("tool_result").put("tool_use_id", Json::text(result.call_id.as_str())).put(
                    "content",
                    Json::text(result.content.to_text().as_str()),
                ).put_opt("is_error", is_error),
            ),
        );
        i += 1;
    }
    assert(views(blocks@) =~= result_blocks(all));
    blocks
}

fn all_results(blocks: &Vec<Json>) -> (r: bool)
    ensures
        r == are_results(views(blocks@)),
{
    let mut i: usize = 0;
    while i < blocks.len()
        invariant
            i <= blocks@.len(),
            forall|k: int| 0 <= k < i ==> is_result(#[trigger] views(blocks@)[k]),
        decreases blocks@.len() - i,
    {
        assert(views(blocks@)[i as int] == blocks@[i as int]@);
        let result: bool = match blocks[i].get("type") {
            Some(Json::String(kind)) => same(kind.as_str(), "tool_result"),
            _ => false,
        };
        if !result {
            return false;
        }
        i += 1;
    }
    true
}

fn is_result_message(message: &Json) -> (r: bool)
    ensures
        r == holds_results(message@),
{
    let user: bool = match message.get("role") {
        Some(Json::String(role)) => same(role.as_str(), "user"),
        _ => false,
    };
    if !user {
        return false;
    }
    match message.get("content") {
        Some(content) => match content.as_array() {
            Some(blocks) => all_results(blocks),
            None => false,
        },
        None => false,
    }
}

fn message_object(role: &str, blocks: Vec<Json>) -> (r: Json)
    ensures
        r@ == message_json(role@, views(blocks@)),
{
    Json::Object(
        JsonObject::new().put("role", Json::text(role)).put("content", Json::Array(blocks)),
    )
}

fn extend_message(message: Json, more: Vec<Json>) -> (r: Json)
    requires
        holds_results(message@),
    ensures
        r@ == extended(message@, views(more@)),
{
    match message {
        Json::Object(o) => {
            let mut object: JsonObject = o;
            let ghost members = object@;
            let mut blocks: Vec<Json> = match object.remove("content") {
                Some(Json::Array(blocks)) => blocks,
                _ => Vec::new(),
            };
            let mut rest: Vec<Json> = more;
            blocks.append(&mut rest);
            object.insert("content".to_owned(), Json::Array(blocks));
            assert(object@ =~= extended(message@, views(more@))->Object_0);
            Json::Object(object)
        },
        other => other,
    }
}

fn push_results(messages: &mut Vec<Json>, blocks: Vec<Json>)
    ensures
        views(final(messages)@) == with_results(views(old(messages)@), views(blocks@)),
{
    let ghost before = views(messages@);
    match messages.pop() {
        Some(last) => {
            assert(before.last() == last@);
            assert(views(messages@) =~= before.drop_last());
            if is_result_message(&last) {
                messages.push(extend_message(last, blocks));
            } else {
                messages.push(last);
                messages.push(message_object("user", blocks));
                assert(views(messages@) =~= before.push(message_json("user"@, views(blocks@))));
            }
        },
        None => messages.push(message_object("user", blocks)),
    }
}

fn push_message(messages: &mut Vec<Json>, role: &str, blocks: Vec<Json>)
    ensures
        views(final(messages)@) == with_message(views(old(messages)@), role@, views(blocks@)),
{
    if blocks.len() > 0 {
        messages.push(message_object(role, blocks));
    }
}

proof fn lemma_messages_failure(messages: Seq<MessageView>, i: int)
    requires
        0 <= i <= messages.len(),
        wire_messages(messages, i) is Err,
    ensures
        wire_messages(messages, messages.len() as int) == wire_messages(messages, i),
    decreases messages.len() - i,
{
    if i < messages.len() {
        lemma_messages_failure(messages, i + 1);
    }
}

/// Lower the message history.
pub fn lower_messages(messages: &Vec<Message>) -> (r: Result<Vec<Json>, Error>)
    ensures
        match r {
            Ok(sent) => wire_messages(views(messages@), messages@.len() as int) == Ok::<
                Seq<JsonView>,
                ErrorView,
            >(views(sent@)),
            Err(e) => wire_messages(views(messages@), messages@.len() as int) == Err::<
                Seq<JsonView>,
                ErrorView,
            >(e@),
        },
{
    let ghost all = views(messages@);
    let mut sent: Vec<Json> = Vec::new();
    let mut i: usize = 0;
    while i < messages.len()
        invariant
            i <= messages@.len(),
            all == views(messages@),
            wire_messages(all, i as int) == Ok::<Seq<JsonView>, ErrorView>(views(sent@)),
        decreases messages@.len() - i,
    {
        assert(all[i as int] == messages@[i as int]@);
        match &messages[i] {
            Message::User { content } => {
                push_message(&mut sent, "user", lower_user(content));
            },
            Message::Assistant { content, .. } => match lower_assistant(content) {
                Ok(blocks) => push_message(&mut sent, "assistant", blocks),
                Err(e) => {
                    proof {
                        lemma_messages_failure(all, i + 1);
                    }
                    return Err(e);
                },
            },
            Message::Tool { content } => push_results(&mut sent, lower_results(content)),
        }
        i += 1;
    }
    Ok(sent)
}

// ---------------------------------------------------------------------------
// Reasoning
// ---------------------------------------------------------------------------

/// A resolved reasoning setting.
pub type Reasoning = Option<(ResolvedView, Option<ReasoningOutput>)>;

/// A budget and the warnings about it.
#[verifier::ext_equal]
pub struct Fitted {
    pub reasoning: Reasoning,
    pub warnings: Seq<WarningView>,
}

/// A budget derived from a requested effort must still fit under the caller's
/// output cap (Anthropic requires `budget_tokens < max_tokens`). The caller
/// never chose the number, so shrink it, or drop reasoning when even the
/// minimum cannot fit, instead of failing the request.
pub open spec fn fitted(r: RequestView, reasoning: Reasoning) -> Fitted {
    let kept = Fitted { reasoning, warnings: Seq::empty() };
    match (reasoning, r.max_output_tokens) {
        (Some((ResolvedView::Budget(tokens), output)), Some(max)) => {
            if !(r.reasoning is Some && r.reasoning->0 is Effort) || tokens < max {
                kept
            } else if max > MIN_BUDGET {
                Fitted {
                    reasoning: Some((ResolvedView::Budget((max - 1) as u32), output)),
                    warnings: seq![
                        approximated(
                            "reasoning.effort"@,
                            "thinking budget reduced to "@ + decimal((max - 1) as nat)
                                + " tokens to stay below max_output_tokens "@ + decimal(
                                max as nat,
                            ),
                        ),
                    ],
                }
            } else {
                Fitted {
                    reasoning: None,
                    warnings: seq![
                        unsupported(
                            "reasoning.effort"@,
                            "the approximated thinking budget was dropped: max_output_tokens "@
                                + decimal(max as nat) + " cannot fit the 1024-token minimum"@,
                        ),
                    ],
                }
            }
        },
        _ => kept,
    }
}

fn fit_derived_budget_to_output_cap(
    request: &Request,
    reasoning: Option<(ResolvedReasoning, Option<ReasoningOutput>)>,
    warnings: &mut Vec<Warning>,
) -> (r: Option<(ResolvedReasoning, Option<ReasoningOutput>)>)
    ensures
        resolution_view(r) == fitted(request@, resolution_view(reasoning)).reasoning,
        views(final(warnings)@) == views(old(warnings)@) + fitted(
            request@,
            resolution_view(reasoning),
        ).warnings,
{
    let (tokens, output) = match reasoning {
        Some((ResolvedReasoning::Budget(tokens), output)) => (tokens, output),
        _ => return reasoning,
    };
    let max: u32 = match request.max_output_tokens {
        Some(max) => max,
        None => return reasoning,
    };
    let derived: bool = match request.reasoning {
        Some(ReasoningConfig::Effort { .. }) => true,
        _ => false,
    };
    if !derived || tokens.get() < max {
        return reasoning;
    }
    if max > MIN_BUDGET {
        let available: u32 = max - 1;
        let head: String = cat3(
            "thinking budget reduced to ",
            decimal_text(available as u64).as_str(),
            " tokens to stay below max_output_tokens ",
        );
        let message: String = cat(head.as_str(), decimal_text(max as u64).as_str());
        warnings.push(Warning::approximated_setting("reasoning.effort", message.as_str()));
        return Some((ResolvedReasoning::Budget(TokenCount::new(available).unwrap()), output));
    }
    let message: String = cat3(
        "the approximated thinking budget was dropped: max_output_tokens ",
        decimal_text(max as u64).as_str(),
        " cannot fit the 1024-token minimum",
    );
    warnings.push(Warning::unsupported_setting("reasoning.effort", message.as_str()));
    None
}

/// A budget that was derived from an effort stays below the output cap and
/// above the minimum, or is dropped.
pub proof fn derived_budgets_fit(r: RequestView, reasoning: Reasoning)
    requires
        r.reasoning is Some && r.reasoning->0 is Effort,
        r.max_output_tokens is Some,
        reasoning matches Some((ResolvedView::Budget(tokens), _)) ==> tokens >= MIN_BUDGET,
    ensures
        fitted(r, reasoning).reasoning matches Some((ResolvedView::Budget(tokens), _)) ==> (
        MIN_BUDGET <= tokens < r.max_output_tokens->0),
        fitted(r, reasoning).reasoning != reasoning ==> fitted(r, reasoning).warnings.len() == 1,
{
}

/// The `max_tokens` to send: the caller's cap, or the fallback plus any
/// thinking budget so the budget never starves the visible answer.
pub open spec fn max_tokens(r: RequestView, reasoning: Reasoning) -> u32 {
    match r.max_output_tokens {
        Some(max) => max,
        None => match reasoning {
            Some((ResolvedView::Budget(tokens), _)) => if FALLBACK_MAX_TOKENS + tokens
                > u32::MAX {
                u32::MAX
            } else {
                (FALLBACK_MAX_TOKENS + tokens) as u32
            },
            _ => FALLBACK_MAX_TOKENS,
        },
    }
}

fn effective_max_tokens(
    request: &Request,
    reasoning: &Option<(ResolvedReasoning, Option<ReasoningOutput>)>,
) -> (r: u32)
    ensures
        r == max_tokens(request@, resolution_view(*reasoning)),
{
    if let Some(max) = request.max_output_tokens {
        return max;
    }
    match reasoning {
        Some((ResolvedReasoning::Budget(tokens), _)) => FALLBACK_MAX_TOKENS.saturating_add(
            tokens.get(),
        ),
        _ => FALLBACK_MAX_TOKENS,
    }
}

/// How thinking is shown.
pub open spec fn display_member(output: Option<ReasoningOutput>) -> Option<JsonView> {
    match output {
        Some(ReasoningOutput::Include) => Some(JsonView::String("summarized"@)),
        Some(ReasoningOutput::Omit) => Some(JsonView::String("omitted"@)),
        None => None,
    }
}

/// The thinking configuration on the wire.
pub open spec fn thinking_json(reasoning: Reasoning) -> Option<JsonView> {
    match reasoning {
        None => None,
        Some((ResolvedView::Disabled, _)) => Some(
            JsonView::Object(no_members().insert("type"@, JsonView::String("disabled"@))),
        ),
        Some((ResolvedView::Effort(_), output)) => Some(
            JsonView::Object(
                with_member(
                    no_members().insert("type"@, JsonView::String("adaptive"@)),
                    "display"@,
                    display_member(output),
                ),
            ),
        ),
        Some((ResolvedView::Budget(tokens), output)) => Some(
            JsonView::Object(
                with_member(
                    no_members().insert("type"@, JsonView::String("enabled"@)).insert(
                        "budget_tokens"@,
                        JsonView::Number(NumberView::U(tokens as u64)),
                    ),
                    "display"@,
                    display_member(output),
                ),
            ),
        ),
    }
}

/// The failure of an explicit budget that the API rejects.
pub open spec fn budget_failure(r: RequestView, reasoning: Reasoning) -> Option<ErrorView> {
    match reasoning {
        Some((ResolvedView::Budget(tokens), _)) => if tokens < MIN_BUDGET {
            Some(
                new_error(
                    ErrorKind::InvalidRequest,
                    "anthropic reasoning budgets must be at least 1024 tokens"@,
                ),
            )
        } else if r.max_output_tokens is Some && tokens >= r.max_output_tokens->0 {
            Some(
                new_error(
                    ErrorKind::InvalidRequest,
                    "anthropic reasoning budget "@ + decimal(tokens as nat)
                        + " must be less than max_output_tokens "@ + decimal(
                        max_tokens(r, reasoning) as nat,
                    ),
                ),
            )
        } else {
            None
        },
        _ => None,
    }
}

/// The output configuration on the wire: the effort, and the schema.
pub open spec fn output_config(r: RequestView, reasoning: Reasoning) -> Option<JsonView> {
    let effort = match reasoning {
        Some((ResolvedView::Effort(effort), _)) => Some(JsonView::String(effort.text())),
        _ => None,
    };
    let format = match r.structured_output {
        Some(output) => Some(
            JsonView::Object(
                no_members().insert("type"@, JsonView::String("json_schema"@)).insert(
                    "schema"@,
                    output.schema,
                ),
            ),
        ),
        None => None,
    };
    if effort is None && format is None {
        None
    } else {
        Some(
            JsonView::Object(
                with_member(with_member(no_members(), "effort"@, effort), "format"@, format),
            ),
        )
    }
}

fn display(output: &Option<ReasoningOutput>) -> (r: Option<Json>)
    ensures
        opt(r) == display_member(*output),
{
    match output {
        Some(ReasoningOutput::Include) => Some(Json::text("summarized")),
        Some(ReasoningOutput::Omit) => Some(Json::text("omitted")),
        None => None,
    }
}

fn check_budget(
    request: &Request,
    reasoning: &Option<(ResolvedReasoning, Option<ReasoningOutput>)>,
    max: u32,
) -> (r: Result<(), Error>)
    requires
        max == max_tokens(request@, resolution_view(*reasoning)),
    ensures
        match r {
            Ok(_) => budget_failure(request@, resolution_view(*reasoning)) is None,
            Err(e) => budget_failure(request@, resolution_view(*reasoning)) == Some(e@),
        },
{
    match reasoning {
        Some((ResolvedReasoning::Budget(tokens), _)) => {
            let tokens: u32 = tokens.get();
            if tokens < MIN_BUDGET {
                return Err(
                    Error::invalid_request(
                        "anthropic reasoning budgets must be at least 1024 tokens",
                    ),
                );
            }
            let too_large: bool = match request.max_output_tokens {
                Some(cap) => tokens >= cap,
                None => false,
            };
            if too_large {
                let head: String = cat3(
                    "anthropic reasoning budget ",
                    decimal_text(tokens as u64).as_str(),
                    " must be less than max_output_tokens ",
                );
                let message: String = cat(head.as_str(), decimal_text(max as u64).as_str());
                return Err(Error::invalid_request(message.as_str()));
            }
            Ok(())
        },
        _ => Ok(()),
    }
}

fn thinking(reasoning: &Option<(ResolvedReasoning, Option<ReasoningOutput>)>) -> (r: Option<Json>)
    ensures
        opt(r) == thinking_json(resolution_view(*reasoning)),
{
    match reasoning {
        None => None,
        Some((ResolvedReasoning::Disabled, _)) => Some(Json::Object(typed("disabled"))),
        Some((ResolvedReasoning::Effort(_), output)) => Some(
            Json::Object(typed("adaptive").put_opt("display", display(output))),
        ),
        Some((ResolvedReasoning::Budget(tokens), output)) => Some(
            Json::Object(
                typed("enabled").put("budget_tokens", Json::number(tokens.get() as u64)).put_opt(
                    "display",
                    display(output),
                ),
            ),
        ),
    }
}

fn output_configuration(
    request: &Request,
    reasoning: &Option<(ResolvedReasoning, Option<ReasoningOutput>)>,
) -> (r: Option<Json>)
    ensures
        opt(r) == output_config(request@, resolution_view(*reasoning)),
{
    let effort: Option<Json> = match reasoning {
        Some((ResolvedReasoning::Effort(effort), _)) => Some(Json::text(effort.as_str())),
        _ => None,
    };
    let format: Option<Json> = match &request.structured_output {
        Some(output) => Some(
            Json::Object(typed("json_schema").put("schema", output.schema.clone())),
        ),
        None => None,
    };
    if effort.is_none() && format.is_none() {
        return None;
    }
    Some(Json::Object(JsonObject::new().put_opt("effort", effort).put_opt("format", format)))
}

// ---------------------------------------------------------------------------
// Compaction
// ---------------------------------------------------------------------------

/// Anthropic rejects compaction triggers below this many input tokens.
pub const MIN_COMPACTION_TRIGGER: u64 = 50_000;

/// The beta feature that compaction takes.
pub const COMPACTION_BETA: &'static str = "compact-2026-01-12";

/// Whether a part is a readable compaction.
pub open spec fn is_summary(part: AssistantPartView) -> bool {
    part matches AssistantPartView::Compaction(compaction) && compaction.content is Some
}

/// Whether a message holds a readable compaction.
pub open spec fn holds_summary(message: MessageView) -> bool {
    message matches MessageView::Assistant { content, .. } && exists|i: int|
        0 <= i < content.len() && is_summary(#[trigger] content[i])
}

/// Whether a request takes compaction.
pub open spec fn compacts(r: RequestView) -> bool {
    r.compaction is Some || exists|i: int|
        0 <= i < r.messages.len() && holds_summary(#[trigger] r.messages[i])
}

/// The trigger that is sent for one.
pub open spec fn trigger(requested: u64) -> u64 {
    if requested < MIN_COMPACTION_TRIGGER {
        MIN_COMPACTION_TRIGGER
    } else {
        requested
    }
}

/// The compaction edit on the wire.
pub open spec fn compaction_edit(compaction: Option<CompactionView>) -> JsonView {
    let edit = no_members().insert("type"@, JsonView::String("compact_20260112"@));
    match compaction {
        Some(c) => JsonView::Object(
            with_member(
                with_member(
                    with_member(
                        edit,
                        "trigger"@,
                        match c.trigger_input_tokens {
                            Some(n) => Some(
                                JsonView::Object(
                                    no_members().insert(
                                        "type"@,
                                        JsonView::String("input_tokens"@),
                                    ).insert(
                                        "value"@,
                                        JsonView::Number(NumberView::U(trigger(n))),
                                    ),
                                ),
                            ),
                            None => None,
                        },
                    ),
                    "pause_after_compaction"@,
                    match c.pause_after_compaction {
                        Some(pause) => Some(JsonView::Bool(pause)),
                        None => None,
                    },
                ),
                "instructions"@,
                text_value(c.instructions),
            ),
        ),
        None => JsonView::Object(edit),
    }
}

/// The context management on the wire.
pub open spec fn context_management(r: RequestView) -> Option<JsonView> {
    if compacts(r) {
        Some(
            JsonView::Object(
                no_members().insert(
                    "edits"@,
                    JsonView::Array(seq![compaction_edit(r.compaction)]),
                ),
            ),
        )
    } else {
        None
    }
}

/// The warning about a trigger.
pub open spec fn trigger_warnings(compaction: Option<CompactionView>) -> Seq<WarningView> {
    match compaction {
        Some(c) => match c.trigger_input_tokens {
            Some(n) => if trigger(n) != n {
                seq![
                    other_warning(
                        "compaction trigger raised to the API minimum 50000 (requested "@
                            + decimal(n as nat) + ")"@,
                    ),
                ]
            } else {
                Seq::empty()
            },
            None => Seq::empty(),
        },
        None => Seq::empty(),
    }
}

fn summarizes(message: &Message) -> (r: bool)
    ensures
        r == holds_summary(message@),
{
    match message {
        Message::Assistant { content, .. } => {
            let mut i: usize = 0;
            while i < content.len()
                invariant
                    i <= content@.len(),
                    message@ matches MessageView::Assistant { content: all, .. } && all == views(
                        content@,
                    ),
                    forall|k: int| 0 <= k < i ==> !is_summary(#[trigger] views(content@)[k]),
                decreases content@.len() - i,
            {
                assert(views(content@)[i as int] == content@[i as int]@);
                if let AssistantPart::Compaction(compaction) = &content[i] {
                    if compaction.content.is_some() {
                        assert(is_summary(views(content@)[i as int]));
                        return true;
                    }
                }
                i += 1;
            }
            false
        },
        _ => false,
    }
}

fn takes_compaction(request: &Request) -> (r: bool)
    ensures
        r == compacts(request@),
{
    if request.compaction.is_some() {
        return true;
    }
    let mut i: usize = 0;
    while i < request.messages.len()
        invariant
            i <= request.messages@.len(),
            request@.compaction is None,
            forall|k: int| 0 <= k < i ==> !holds_summary(#[trigger] request@.messages[k]),
        decreases request.messages@.len() - i,
    {
        assert(request@.messages[i as int] == request.messages@[i as int]@);
        if summarizes(&request.messages[i]) {
            return true;
        }
        i += 1;
    }
    false
}

fn lower_compaction(request: &Request, warnings: &mut Vec<Warning>) -> (r: Option<Json>)
    ensures
        opt(r) == context_management(request@),
        views(final(warnings)@) == views(old(warnings)@) + trigger_warnings(request@.compaction),
{
    if !takes_compaction(request) {
        return None;
    }
    let mut edit: JsonObject = typed("compact_20260112");
    if let Some(compaction) = &request.compaction {
        let mut wire_trigger: Option<Json> = None;
        if let Some(requested) = compaction.trigger_input_tokens {
            let clamped: u64 = if requested < MIN_COMPACTION_TRIGGER {
                MIN_COMPACTION_TRIGGER
            } else {
                requested
            };
            if clamped != requested {
                let message: String = cat3(
                    "compaction trigger raised to the API minimum 50000 (requested ",
                    decimal_text(requested).as_str(),
                    ")",
                );
                warnings.push(Warning::other(message.as_str()));
            }
            wire_trigger = Some(
                Json::Object(typed("input_tokens").put("value", Json::number(clamped))),
            );
        }
        let pause: Option<Json> = match compaction.pause_after_compaction {
            Some(pause) => Some(Json::Bool(pause)),
            None => None,
        };
        edit = edit.put_opt("trigger", wire_trigger).put_opt(
            "pause_after_compaction",
            pause,
        ).put_opt("instructions", Json::text_opt(as_deref(&compaction.instructions)));
    }
    assert(views(warnings@) =~= views(old(warnings)@) + trigger_warnings(request@.compaction));
    Some(Json::Object(JsonObject::new().put("edits", Json::one(Json::Object(edit)))))
}

// ---------------------------------------------------------------------------
// Tools
// ---------------------------------------------------------------------------

/// A tool on the wire.
pub open spec fn tool_json(tool: ToolDefinitionView) -> JsonView {
    JsonView::Object(
        with_member(
            with_member(
                no_members().insert("name"@, JsonView::String(tool.name)).insert(
                    "input_schema"@,
                    tool.parameters,
                ),
                "description"@,
                text_value(tool.description),
            ),
            "strict"@,
            if tool.strict == Some(true) {
                Some(JsonView::Bool(true))
            } else {
                None
            },
        ),
    )
}

/// The tools on the wire.
pub open spec fn tools_json(tools: Seq<ToolDefinitionView>) -> Option<JsonView> {
    if tools.len() > 0 {
        Some(JsonView::Array(Seq::new(tools.len(), |i: int| tool_json(tools[i]))))
    } else {
        None
    }
}

fn lower_tool(tool: &ToolDefinition) -> (r: Json)
    ensures
        r@ == tool_json(tool@),
{
    let strict: Option<Json> = match tool.strict {
        Some(true) => Some(Json::Bool(true)),
        _ => None,
    };
    Json::Object(
        JsonObject::new().put("name", Json::text(tool.name.as_str())).put(
            "input_schema",
            tool.parameters.clone(),
        ).put_opt("description", Json::text_opt(as_deref(&tool.description))).put_opt(
            "strict",
            strict,
        ),
    )
}

fn lower_tools(tools: &Vec<ToolDefinition>) -> (r: Option<Json>)
    ensures
        opt(r) == tools_json(views(tools@)),
{
    if tools.len() == 0 {
        return None;
    }
    let ghost all = views(tools@);
    let mut items: Vec<Json> = Vec::new();
    let mut i: usize = 0;
    while i < tools.len()
        invariant
            i <= tools@.len(),
            all == views(tools@),
            items@.len() == i,
            forall|k: int| 0 <= k < i ==> (#[trigger] items@[k])@ == tool_json(all[k]),
        decreases tools@.len() - i,
    {
        assert(all[i as int] == tools@[i as int]@);
        items.push(lower_tool(&tools[i]));
        i += 1;
    }
    assert(views(items@) =~= Seq::new(all.len(), |i: int| tool_json(all[i])));
    Some(Json::Array(items))
}

/// Whether a thinking budget is sent.
pub open spec fn is_budget(reasoning: Reasoning) -> bool {
    reasoning is Some && (reasoning->0).0 is Budget
}

/// Whether thinking is on.
pub open spec fn is_thinking(reasoning: Reasoning) -> bool {
    reasoning is Some && !((reasoning->0).0 is Disabled)
}

/// Whether a tool choice forces a call.
pub open spec fn forces_call(choice: Option<ToolChoiceView>) -> bool {
    choice is Some && (choice->0 is Required || choice->0 is Tool)
}

/// The tool choice on the wire.
pub open spec fn choice_json(r: RequestView) -> Option<JsonView> {
    let disable_parallel = r.parallel_tool_calls == Some(false);
    let choice = match r.tool_choice {
        Some(ToolChoiceView::Auto) => Some(
            no_members().insert("type"@, JsonView::String("auto"@)),
        ),
        Some(ToolChoiceView::Never) => Some(
            no_members().insert("type"@, JsonView::String("none"@)),
        ),
        Some(ToolChoiceView::Required) => Some(
            no_members().insert("type"@, JsonView::String("any"@)),
        ),
        Some(ToolChoiceView::Tool { name }) => Some(
            no_members().insert("type"@, JsonView::String("tool"@)).insert(
                "name"@,
                JsonView::String(name),
            ),
        ),
        None => if disable_parallel {
            Some(no_members().insert("type"@, JsonView::String("auto"@)))
        } else {
            None
        },
    };
    match choice {
        Some(choice) => Some(
            JsonView::Object(
                with_member(
                    choice,
                    "disable_parallel_tool_use"@,
                    if disable_parallel && r.tool_choice != Some(ToolChoiceView::Never) {
                        Some(JsonView::Bool(true))
                    } else {
                        None
                    },
                ),
            ),
        ),
        None => None,
    }
}

/// The failure of a forced tool choice beside a thinking budget.
pub open spec fn choice_failure(r: RequestView, reasoning: Reasoning) -> Option<ErrorView> {
    if is_budget(reasoning) && forces_call(r.tool_choice) {
        Some(
            new_error(
                ErrorKind::InvalidRequest,
                "anthropic manual reasoning budgets cannot be combined with forced tool choice"@,
            ),
        )
    } else {
        None
    }
}

fn lower_tool_choice(request: &Request) -> (r: Option<Json>)
    ensures
        opt(r) == choice_json(request@),
{
    let disable_parallel: bool = match request.parallel_tool_calls {
        Some(parallel) => !parallel,
        None => false,
    };
    let mut never: bool = false;
    let choice: JsonObject = match &request.tool_choice {
        Some(ToolChoice::Auto) => typed("auto"),
        Some(ToolChoice::Never) => {
            never = true;
            typed("none")
        },
        Some(ToolChoice::Required) => typed("any"),
        Some(ToolChoice::Tool { name }) => typed("tool").put("name", Json::text(name.as_str())),
        None => {
            if !disable_parallel {
                return None;
            }
            typed("auto")
        },
    };
    let disable: Option<Json> = if disable_parallel && !never {
        Some(Json::Bool(true))
    } else {
        None
    };
    Some(Json::Object(choice.put_opt("disable_parallel_tool_use", disable)))
}

// ---------------------------------------------------------------------------
// Sampling
// ---------------------------------------------------------------------------

/// The warning about a sampling setting beside thinking.
pub open spec fn sampling_note(present: bool, setting: Seq<char>) -> Seq<WarningView> {
    noted(present, setting, "cogfer omits `"@ + setting + "` when thinking is enabled"@)
}

/// The warnings about sampling settings beside thinking.
pub open spec fn sampling_warnings(r: RequestView, thinking: bool) -> Seq<WarningView> {
    sampling_note(thinking && r.temperature is Some, "temperature"@) + sampling_note(
        thinking && r.top_p is Some,
        "top_p"@,
    ) + sampling_note(thinking && r.top_k is Some, "top_k"@)
}

/// A body with the sampling settings.
pub open spec fn with_sampling(
    body: Map<Seq<char>, JsonView>,
    r: RequestView,
) -> Map<Seq<char>, JsonView> {
    with_member(
        with_member(
            with_member(
                body,
                "temperature"@,
                match r.temperature {
                    Some(v) => Some(real_json(v)),
                    None => None,
                },
            ),
            "top_p"@,
            match r.top_p {
                Some(v) => Some(real_json(v)),
                None => None,
            },
        ),
        "top_k"@,
        match r.top_k {
            Some(n) => Some(JsonView::Number(NumberView::U(n as u64))),
            None => None,
        },
    )
}

fn note_sampling(warnings: &mut Vec<Warning>, present: bool, setting: &str)
    ensures
        views(final(warnings)@) == views(old(warnings)@) + sampling_note(present, setting@),
{
    let message: String = cat3("cogfer omits `", setting, "` when thinking is enabled");
    note(warnings, present, setting, message.as_str());
}

// Some models allow a narrow sampling range during thinking. All sampling
// settings are omitted to keep the behavior consistent across models.
fn sampling_notes(r: &Request, thinking: bool) -> (w: Vec<Warning>)
    ensures
        views(w@) == sampling_warnings(r@, thinking),
{
    let mut w: Vec<Warning> = Vec::new();
    note_sampling(&mut w, thinking && r.temperature.is_some(), "temperature");
    note_sampling(&mut w, thinking && r.top_p.is_some(), "top_p");
    note_sampling(&mut w, thinking && r.top_k.is_some(), "top_k");
    w
}

fn lower_sampling(request: &Request, object: JsonObject) -> (r: JsonObject)
    ensures
        r@ == with_sampling(object@, request@),
{
    let temperature: Option<Json> = match &request.temperature {
        Some(v) => Some(v.to_json()),
        None => None,
    };
    let top_p: Option<Json> = match &request.top_p {
        Some(v) => Some(v.to_json()),
        None => None,
    };
    let top_k: Option<Json> = match request.top_k {
        Some(n) => Some(Json::number(n as u64)),
        None => None,
    };
    object.put_opt("temperature", temperature).put_opt("top_p", top_p).put_opt("top_k", top_k)
}

// ---------------------------------------------------------------------------
// The whole
// ---------------------------------------------------------------------------

/// The reasoning setting that is sent, and the warnings about it.
pub open spec fn reasoning_plan(
    r: RequestView,
    support: ReasoningSupportView,
    profile: ApiProfile,
) -> Fitted {
    match r.reasoning {
        Some(config) => {
            let f = fitted(r, resolved(config, support, profile));
            Fitted {
                reasoning: f.reasoning,
                warnings: resolution_warnings(config, support, profile) + f.warnings,
            }
        },
        None => Fitted { reasoning: None, warnings: Seq::empty() },
    }
}

/// The body without the provider options.
pub open spec fn plain_body(
    r: RequestView,
    model: Seq<char>,
    reasoning: Reasoning,
    messages: Seq<JsonView>,
    streaming: bool,
    dialect: AnthropicDialect,
) -> Map<Seq<char>, JsonView> {
    let base = no_members().insert(
        "max_tokens"@,
        JsonView::Number(NumberView::U(max_tokens(r, reasoning) as u64)),
    ).insert("messages"@, JsonView::Array(messages));
    // Bedrock takes the model from the URL and the API version from the body.
    let addressed = match dialect {
        AnthropicDialect::Direct => base.insert("model"@, JsonView::String(model)),
        AnthropicDialect::Bedrock => base.insert(
            "anthropic_version"@,
            JsonView::String("bedrock-2023-05-31"@),
        ),
    };
    let configured = with_member(
        with_member(
            with_member(
                with_member(
                    with_member(
                        with_member(addressed, "system"@, text_value(r.system_prompt())),
                        "tools"@,
                        tools_json(r.tools),
                    ),
                    "thinking"@,
                    thinking_json(reasoning),
                ),
                "output_config"@,
                output_config(r, reasoning),
            ),
            "tool_choice"@,
            choice_json(r),
        ),
        "context_management"@,
        context_management(r),
    );
    // Bedrock takes beta opt-ins in the body; the direct API takes them in the
    // `anthropic-beta` header.
    let opted = with_member(
        configured,
        "anthropic_beta"@,
        if dialect is Bedrock && compacts(r) {
            Some(JsonView::Array(seq![JsonView::String("compact-2026-01-12"@)]))
        } else {
            None
        },
    );
    let sampled = if is_thinking(reasoning) {
        opted
    } else {
        with_sampling(opted, r)
    };
    // Bedrock selects streaming by endpoint rather than a body flag.
    with_member(
        with_member(
            sampled,
            "stop_sequences"@,
            if r.stop_sequences.len() > 0 {
                Some(texts_json(r.stop_sequences))
            } else {
                None
            },
        ),
        "stream"@,
        if streaming && dialect is Direct {
            Some(JsonView::Bool(true))
        } else {
            None
        },
    )
}

/// Where a request is sent below the base URL.
pub open spec fn endpoint(model: Seq<char>, streaming: bool, dialect: AnthropicDialect) -> Seq<
    char,
> {
    match dialect {
        AnthropicDialect::Direct => "messages"@,
        AnthropicDialect::Bedrock => "model/"@ + path_segment(model) + "/"@ + if streaming {
            "invoke-with-response-stream"@
        } else {
            "invoke"@
        },
    }
}

/// The headers of a request.
pub open spec fn headers(r: RequestView, dialect: AnthropicDialect) -> Seq<
    (Seq<char>, Seq<char>),
> {
    match dialect {
        AnthropicDialect::Direct => {
            let version = seq![("anthropic-version"@, "2023-06-01"@)];
            if compacts(r) {
                version.push(("anthropic-beta"@, "compact-2026-01-12"@))
            } else {
                version
            }
        },
        AnthropicDialect::Bedrock => seq![("accept"@, "application/json"@)],
    }
}

/// A request in the Messages format.
pub open spec fn lowered(
    r: RequestView,
    model: Seq<char>,
    profile: ApiProfile,
    support: ReasoningSupportView,
    streaming: bool,
    dialect: AnthropicDialect,
) -> Result<LoweredView, ErrorView> {
    let plan = reasoning_plan(r, support, profile);
    match wire_messages(r.messages, r.messages.len() as int) {
        Err(e) => Err(e),
        Ok(messages) => match budget_failure(r, plan.reasoning) {
            Some(e) => Err(e),
            None => match choice_failure(r, plan.reasoning) {
                Some(e) => Err(e),
                None => Ok(
                    LoweredView {
                        path: endpoint(model, streaming, dialect),
                        query: Seq::empty(),
                        headers: headers(r, dialect),
                        body: with_options(
                            JsonView::Object(
                                plain_body(r, model, plan.reasoning, messages, streaming, dialect),
                            ),
                            r.provider_options,
                            "anthropic"@,
                        ),
                        warnings: plan.warnings + trigger_warnings(r.compaction)
                            + sampling_warnings(r, is_thinking(plan.reasoning)),
                    },
                ),
            },
        },
    }
}

fn plan_reasoning(
    request: &Request,
    support: &ReasoningSupport,
    profile: ApiProfile,
    warnings: &mut Vec<Warning>,
) -> (r: Option<(ResolvedReasoning, Option<ReasoningOutput>)>)
    ensures
        resolution_view(r) == reasoning_plan(request@, support@, profile).reasoning,
        views(final(warnings)@) == views(old(warnings)@) + reasoning_plan(
            request@,
            support@,
            profile,
        ).warnings,
{
    match request.reasoning {
        Some(config) => {
            let reasoning = resolve(config, support, profile, warnings);
            let fit = fit_derived_budget_to_output_cap(request, reasoning, warnings);
            assert(views(warnings@) =~= views(old(warnings)@) + reasoning_plan(
                request@,
                support@,
                profile,
            ).warnings);
            fit
        },
        None => None,
    }
}

fn lower_headers(request: &Request, dialect: AnthropicDialect) -> (r: Vec<(String, String)>)
    ensures
        views(r@) == headers(request@, dialect),
{
    let mut list: Vec<(String, String)> = Vec::new();
    match dialect {
        AnthropicDialect::Direct => {
            list.push(pair(VERSION_HEADER, VERSION));
            if takes_compaction(request) {
                list.push(pair("anthropic-beta", COMPACTION_BETA));
            }
        },
        AnthropicDialect::Bedrock => list.push(pair("accept", "application/json")),
    }
    assert(views(list@) =~= headers(request@, dialect));
    list
}

fn lower_path(model: &str, streaming: bool, dialect: AnthropicDialect) -> (r: String)
    ensures
        r@ == endpoint(model@, streaming, dialect),
{
    match dialect {
        AnthropicDialect::Direct => "messages".to_owned(),
        AnthropicDialect::Bedrock => {
            let operation: &str = if streaming {
                "invoke-with-response-stream"
            } else {
                "invoke"
            };
            let head: String = cat3("model/", encode_path_segment(model).as_str(), "/");
            cat(head.as_str(), operation)
        },
    }
}

fn lower_plain_body(
    request: &Request,
    model: &str,
    reasoning: &Option<(ResolvedReasoning, Option<ReasoningOutput>)>,
    messages: Vec<Json>,
    context: Option<Json>,
    streaming: bool,
    dialect: AnthropicDialect,
) -> (r: JsonObject)
    requires
        opt(context) == context_management(request@),
    ensures
        r@ == plain_body(
            request@,
            model@,
            resolution_view(*reasoning),
            views(messages@),
            streaming,
            dialect,
        ),
{
    let max: u32 = effective_max_tokens(request, reasoning);
    let base: JsonObject = JsonObject::new().put("max_tokens", Json::number(max as u64)).put(
        "messages",
        Json::Array(messages),
    );
    let addressed: JsonObject = match dialect {
        AnthropicDialect::Direct => base.put("model", Json::text(model)),
        AnthropicDialect::Bedrock => base.put("anthropic_version", Json::text(ANTHROPIC_VERSION)),
    };
    let beta: Option<Json> = if dialect == AnthropicDialect::Bedrock && takes_compaction(request) {
        Some(Json::one(Json::text(COMPACTION_BETA)))
    } else {
        None
    };
    let opted: JsonObject = addressed.put_opt(
        "system",
        Json::text_opt(request.system_prompt()),
    ).put_opt("tools", lower_tools(&request.tools)).put_opt(
        "thinking",
        thinking(reasoning),
    ).put_opt("output_config", output_configuration(request, reasoning)).put_opt(
        "tool_choice",
        lower_tool_choice(request),
    ).put_opt("context_management", context).put_opt("anthropic_beta", beta);
    let sampled: JsonObject = if thinks(reasoning) {
        opted
    } else {
        lower_sampling(request, opted)
    };
    let stop: Option<Json> = if request.stop_sequences.len() > 0 {
        Some(texts(&request.stop_sequences))
    } else {
        None
    };
    let stream: Option<Json> = if streaming && dialect == AnthropicDialect::Direct {
        Some(Json::Bool(true))
    } else {
        None
    };
    sampled.put_opt("stop_sequences", stop).put_opt("stream", stream)
}

fn thinks(reasoning: &Option<(ResolvedReasoning, Option<ReasoningOutput>)>) -> (r: bool)
    ensures
        r == is_thinking(resolution_view(*reasoning)),
{
    match reasoning {
        Some((ResolvedReasoning::Disabled, _)) => false,
        Some(_) => true,
        None => false,
    }
}

fn check_choice(
    request: &Request,
    reasoning: &Option<(ResolvedReasoning, Option<ReasoningOutput>)>,
) -> (r: Result<(), Error>)
    ensures
        match r {
            Ok(_) => choice_failure(request@, resolution_view(*reasoning)) is None,
            Err(e) => choice_failure(request@, resolution_view(*reasoning)) == Some(e@),
        },
{
    let budget: bool = match reasoning {
        Some((ResolvedReasoning::Budget(_), _)) => true,
        _ => false,
    };
    let forced: bool = match &request.tool_choice {
        Some(ToolChoice::Required) => true,
        Some(ToolChoice::Tool { .. }) => true,
        _ => false,
    };
    if budget && forced {
        return Err(
            Error::invalid_request(
                "anthropic manual reasoning budgets cannot be combined with forced tool choice",
            ),
        );
    }
    Ok(())
}

/// Lower a request to the Messages format.
pub fn lower_anthropic_request(
    request: &Request,
    model: &str,
    profile: ApiProfile,
    support: &ReasoningSupport,
    streaming: bool,
    dialect: AnthropicDialect,
) -> (r: Result<LoweredRequest, Error>)
    ensures
        match r {
            Ok(sent) => lowered(request@, model@, profile, support@, streaming, dialect) == Ok::<
                LoweredView,
                ErrorView,
            >(sent@),
            Err(e) => lowered(request@, model@, profile, support@, streaming, dialect) == Err::<
                LoweredView,
                ErrorView,
            >(e@),
        },
{
    let mut warnings: Vec<Warning> = Vec::new();
    let reasoning = plan_reasoning(request, support, profile, &mut warnings);
    let ghost plan = reasoning_plan(request@, support@, profile);
    assert(views(warnings@) =~= plan.warnings);
    let messages: Vec<Json> = match lower_messages(&request.messages) {
        Ok(messages) => messages,
        Err(e) => return Err(e),
    };
    let max: u32 = effective_max_tokens(request, &reasoning);
    if let Err(e) = check_budget(request, &reasoning, max) {
        return Err(e);
    }
    if let Err(e) = check_choice(request, &reasoning) {
        return Err(e);
    }
    let context: Option<Json> = lower_compaction(request, &mut warnings);
    let mut about_sampling: Vec<Warning> = sampling_notes(request, thinks(&reasoning));
    warnings.append(&mut about_sampling);
    let mut body: Json = Json::Object(
        lower_plain_body(request, model, &reasoning, messages, context, streaming, dialect),
    );
    if let Some(options) = request.provider_options.get("anthropic") {
        json_merge(&mut body, options.clone());
    }
    Ok(
        LoweredRequest {
            path: lower_path(model, streaming, dialect),
            query: Vec::new(),
            headers: lower_headers(request, dialect),
            body,
            warnings,
        },
    )
}

} // verus!
