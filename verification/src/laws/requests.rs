//! What requests look like on the wire.
use vstd::prelude::*;

use crate::capabilities::ReasoningSupportView;
use crate::json::{json_parse, json_text, with_member, JsonView, NumberView};
use crate::laws::{carries, says};
use crate::message::{MessageView, ToolResultContentView, ToolResultPartView};
use crate::protocols::anthropic;
use crate::protocols::anthropic::AnthropicDialect;
use crate::protocols::gemini;
use crate::protocols::lower::LoweredView;
use crate::protocols::openai::chat;
use crate::protocols::openai::chat::ChatDialect;
use crate::protocols::openai::responses;
use crate::protocols::openai::shared::ToolShape;
use crate::protocols::ApiProfile;
use crate::request::{RealView, RequestView, ToolChoiceView, ToolDefinitionView};
use crate::text::is_blank;

verus! {

/// A sampling setting on the wire.
pub open spec fn setting(v: Option<RealView>) -> Option<JsonView> {
    match v {
        Some(RealView::Finite(text)) => Some(JsonView::Number(NumberView::F(text))),
        Some(RealView::NonFinite) => Some(JsonView::Null),
        None => None,
    }
}

/// A limit on the wire.
pub open spec fn limit(n: Option<u32>) -> Option<JsonView> {
    match n {
        Some(n) => Some(JsonView::Number(NumberView::U(n as u64))),
        None => None,
    }
}

/// A seed on the wire.
pub open spec fn seed(n: Option<u64>) -> Option<JsonView> {
    match n {
        Some(n) => Some(JsonView::Number(NumberView::U(n))),
        None => None,
    }
}

/// A text on the wire.
pub open spec fn text(s: Option<Seq<char>>) -> Option<JsonView> {
    match s {
        Some(s) => Some(JsonView::String(s)),
        None => None,
    }
}

/// A flag on the wire.
pub open spec fn flag(b: Option<bool>) -> Option<JsonView> {
    match b {
        Some(b) => Some(JsonView::Bool(b)),
        None => None,
    }
}

/// Whether a key holds the texts of a list, in order, and is absent where the
/// list is empty.
pub open spec fn carries_texts(
    m: Map<Seq<char>, JsonView>,
    key: Seq<char>,
    list: Seq<Seq<char>>,
) -> bool {
    if list.len() == 0 {
        !m.contains_key(key)
    } else {
        &&& m.contains_key(key)
        &&& m[key] is Array
        &&& m[key]->Array_0.len() == list.len()
        &&& forall|i: int|
            0 <= i < list.len() ==> (#[trigger] m[key]->Array_0[i]) == JsonView::String(list[i])
    }
}

/// Whether nothing in the provider options is for a namespace.
pub open spec fn untouched(r: RequestView, namespace: Seq<char>) -> bool {
    !r.provider_options.contains_key(namespace)
}

/// The system instructions of a request that are sent: those that are not blank.
pub open spec fn instructions(r: RequestView) -> Option<Seq<char>> {
    match r.system {
        Some(text) => if is_blank(text) {
            None
        } else {
            Some(text)
        },
        None => None,
    }
}

/// The text of a tool result.
pub open spec fn outcome(content: ToolResultContentView) -> Seq<char> {
    match content {
        ToolResultContentView::Text { text } => text,
        ToolResultContentView::Json { value } => json_text(value),
    }
}

/// Whether a value tells of a tool: its name, its schema under a key, and its
/// description.
pub open spec fn tells_tool(v: JsonView, tool: ToolDefinitionView, schema: Seq<char>) -> bool {
    &&& v is Object
    &&& says(v, "name"@, tool.name)
    &&& carries(v->Object_0, schema, Some(tool.parameters))
    &&& carries(v->Object_0, "description"@, text(tool.description))
}

// ---------------------------------------------------------------------------
// Chat Completions
// ---------------------------------------------------------------------------

/// A chat request carries every setting of the request under its own key, as it
/// is, and no setting that the request does not have; its tools in order; and
/// the tool choice.
pub proof fn chat_requests_carry_what_was_asked(
    r: RequestView,
    model: Seq<char>,
    profile: ApiProfile,
    support: ReasoningSupportView,
    host: Option<Seq<char>>,
    streaming: bool,
    declared: ChatDialect,
)
    requires
        untouched(r, "openai"@),
        untouched(r, "openrouter"@),
    ensures
        ({
            let sent = chat::request::lowered(
                r,
                model,
                profile,
                support,
                host,
                streaming,
                declared,
            );
            let b = sent.body->Object_0;
            let dialect = declared.at_host(host);
            let modern = dialect is OpenAi || dialect is Xai;
            &&& sent.path == "chat/completions"@
            &&& sent.body is Object
            &&& says(sent.body, "model"@, model)
            &&& carries(b, "temperature"@, setting(r.temperature))
            &&& carries(b, "top_p"@, setting(r.top_p))
            &&& carries(b, "top_k"@, limit(r.top_k))
            &&& carries(b, "presence_penalty"@, setting(r.presence_penalty))
            &&& carries(b, "frequency_penalty"@, setting(r.frequency_penalty))
            &&& carries(b, "seed"@, seed(r.seed))
            &&& carries_texts(b, "stop"@, r.stop_sequences)
            &&& carries(
                b,
                "max_completion_tokens"@,
                if modern {
                    limit(r.max_output_tokens)
                } else {
                    None
                },
            )
            &&& carries(
                b,
                "max_tokens"@,
                if modern {
                    None
                } else {
                    limit(r.max_output_tokens)
                },
            )
            &&& carries(b, "parallel_tool_calls"@, flag(r.parallel_tool_calls))
            &&& b.contains_key("stream"@) <==> streaming
            &&& streaming ==> b["stream"@] == JsonView::Bool(true)
            &&& b.contains_key("tools"@) <==> r.tools.len() > 0
            &&& r.tools.len() > 0 ==> b["tools"@] is Array && b["tools"@]->Array_0.len()
                == r.tools.len() && forall|i: int|
                0 <= i < r.tools.len() ==> says(
                    #[trigger] b["tools"@]->Array_0[i],
                    "type"@,
                    "function"@,
                ) && tells_tool(
                    b["tools"@]->Array_0[i]->Object_0["function"@],
                    r.tools[i],
                    "parameters"@,
                )
            &&& b.contains_key("tool_choice"@) <==> r.tool_choice is Some
            &&& r.tool_choice matches Some(choice) ==> match choice {
                ToolChoiceView::Auto => b["tool_choice"@] == JsonView::String("auto"@),
                ToolChoiceView::Never => b["tool_choice"@] == JsonView::String("none"@),
                ToolChoiceView::Required => b["tool_choice"@] == JsonView::String("required"@),
                ToolChoiceView::Tool { name } => says(
                    b["tool_choice"@]->Object_0["function"@],
                    "name"@,
                    name,
                ),
            }
            &&& b.contains_key("response_format"@) <==> r.structured_output is Some
            &&& r.structured_output matches Some(output) ==> {
                let format = b["response_format"@]->Object_0["json_schema"@];
                &&& format is Object
                &&& says(format, "name"@, output.name)
                &&& carries(format->Object_0, "schema"@, Some(output.schema))
                &&& carries(format->Object_0, "strict"@, Some(JsonView::Bool(output.strict)))
            }
        }),
{
    let dialect = declared.at_host(host);
    lemma_namespaces(dialect.api());
    let plan = chat::request::reasoning_plan(r.reasoning, support, dialect, profile);
    let messages = chat::request::messages_upto(r, dialect, r.messages.len() as int).messages;
    let base = crate::json::no_members().insert("model"@, JsonView::String(model)).insert(
        "messages"@,
        JsonView::Array(messages),
    );
    let tooled = crate::protocols::openai::shared::with_tools(base, r, ToolShape::Nested);
    let configured = with_member(
        with_member(
            with_member(tooled, "response_format"@, chat::request::format_json(r)),
            "reasoning_effort"@,
            plan.effort,
        ),
        "reasoning"@,
        plan.config,
    );
    let set = chat::request::with_settings(configured, r, dialect);
    let sent = chat::request::with_streaming(set, streaming, dialect);
    assert(sent == chat::request::plain_body(r, model, messages, plan, streaming, dialect));
    lemma_base(model, JsonView::Array(messages));
    lemma_tools_added(base, r);
    lemma_configured(tooled, r, plan.effort, plan.config);
    lemma_settings_added(configured, r, dialect);
    lemma_streaming_added(set, streaming, dialect);
    lemma_chat_tools(r, sent);
    lemma_chat_format(r, sent);
}

/// Whether two objects say the same under a key.
spec fn agree(a: Map<Seq<char>, JsonView>, b: Map<Seq<char>, JsonView>, key: Seq<char>) -> bool {
    a.contains_key(key) == b.contains_key(key) && (b.contains_key(key) ==> a[key] == b[key])
}

/// Whether an object says nothing of the sampling.
spec fn unset(m: Map<Seq<char>, JsonView>) -> bool {
    &&& !m.contains_key("max_completion_tokens"@)
    &&& !m.contains_key("max_tokens"@)
    &&& !m.contains_key("temperature"@)
    &&& !m.contains_key("top_p"@)
    &&& !m.contains_key("top_k"@)
    &&& !m.contains_key("stop"@)
    &&& !m.contains_key("presence_penalty"@)
    &&& !m.contains_key("frequency_penalty"@)
    &&& !m.contains_key("seed"@)
}

proof fn lemma_base(model: Seq<char>, messages: JsonView)
    ensures
        ({
            let m = crate::json::no_members().insert("model"@, JsonView::String(model)).insert(
                "messages"@,
                messages,
            );
            &&& unset(m)
            &&& carries(m, "model"@, Some(JsonView::String(model)))
            &&& !m.contains_key("tools"@)
            &&& !m.contains_key("tool_choice"@)
            &&& !m.contains_key("parallel_tool_calls"@)
            &&& !m.contains_key("response_format"@)
            &&& !m.contains_key("stream"@)
        }),
{
    lemma_chat_keys();
}

proof fn lemma_tools_added(base: Map<Seq<char>, JsonView>, r: RequestView)
    requires
        unset(base),
        !base.contains_key("tools"@),
        !base.contains_key("tool_choice"@),
        !base.contains_key("parallel_tool_calls"@),
        !base.contains_key("response_format"@),
        !base.contains_key("stream"@),
    ensures
        ({
            let m = crate::protocols::openai::shared::with_tools(base, r, ToolShape::Nested);
            &&& unset(m)
            &&& agree(m, base, "model"@)
            &&& !m.contains_key("response_format"@)
            &&& !m.contains_key("stream"@)
            &&& carries(m, "parallel_tool_calls"@, flag(r.parallel_tool_calls))
            &&& carries(
                m,
                "tools"@,
                if r.tools.len() > 0 {
                    Some(
                        crate::protocols::openai::shared::tools_json(r.tools, ToolShape::Nested),
                    )
                } else {
                    None
                },
            )
            &&& carries(
                m,
                "tool_choice"@,
                match r.tool_choice {
                    Some(choice) => Some(
                        crate::protocols::openai::shared::choice_json(choice, ToolShape::Nested),
                    ),
                    None => None,
                },
            )
        }),
{
    lemma_chat_keys();
}

proof fn lemma_configured(
    tooled: Map<Seq<char>, JsonView>,
    r: RequestView,
    effort: Option<JsonView>,
    config: Option<JsonView>,
)
    requires
        unset(tooled),
        !tooled.contains_key("response_format"@),
        !tooled.contains_key("stream"@),
    ensures
        ({
            let m = with_member(
                with_member(
                    with_member(tooled, "response_format"@, chat::request::format_json(r)),
                    "reasoning_effort"@,
                    effort,
                ),
                "reasoning"@,
                config,
            );
            &&& unset(m)
            &&& agree(m, tooled, "model"@)
            &&& agree(m, tooled, "tools"@)
            &&& agree(m, tooled, "tool_choice"@)
            &&& agree(m, tooled, "parallel_tool_calls"@)
            &&& !m.contains_key("stream"@)
            &&& carries(m, "response_format"@, chat::request::format_json(r))
        }),
{
    lemma_chat_keys();
}

#[verifier::rlimit(40)]
proof fn lemma_settings_added(
    configured: Map<Seq<char>, JsonView>,
    r: RequestView,
    dialect: ChatDialect,
)
    requires
        unset(configured),
        !configured.contains_key("stream"@),
    ensures
        ({
            let m = chat::request::with_settings(configured, r, dialect);
            let modern = dialect is OpenAi || dialect is Xai;
            &&& agree(m, configured, "model"@)
            &&& agree(m, configured, "tools"@)
            &&& agree(m, configured, "tool_choice"@)
            &&& agree(m, configured, "parallel_tool_calls"@)
            &&& agree(m, configured, "response_format"@)
            &&& !m.contains_key("stream"@)
            &&& carries(m, "temperature"@, setting(r.temperature))
            &&& carries(m, "top_p"@, setting(r.top_p))
            &&& carries(m, "top_k"@, limit(r.top_k))
            &&& carries(m, "presence_penalty"@, setting(r.presence_penalty))
            &&& carries(m, "frequency_penalty"@, setting(r.frequency_penalty))
            &&& carries(m, "seed"@, seed(r.seed))
            &&& carries_texts(m, "stop"@, r.stop_sequences)
            &&& carries(
                m,
                "max_completion_tokens"@,
                if modern {
                    limit(r.max_output_tokens)
                } else {
                    None
                },
            )
            &&& carries(
                m,
                "max_tokens"@,
                if modern {
                    None
                } else {
                    limit(r.max_output_tokens)
                },
            )
        }),
{
    lemma_chat_keys();
}

proof fn lemma_streaming_added(set: Map<Seq<char>, JsonView>, streaming: bool, dialect: ChatDialect)
    ensures
        ({
            let m = chat::request::with_streaming(set, streaming, dialect);
            &&& forall|key: Seq<char>|
                key != "stream"@ && key != "stream_options"@ ==> #[trigger] m.contains_key(key)
                    == set.contains_key(key)
            &&& forall|key: Seq<char>|
                key != "stream"@ && key != "stream_options"@ && set.contains_key(key)
                    ==> #[trigger] m[key] == set[key]
            &&& streaming ==> m.contains_key("stream"@) && m["stream"@] == JsonView::Bool(true)
            &&& !streaming ==> m == set
        }),
        "stream"@ != "stream_options"@,
        "model"@ != "stream"@ && "model"@ != "stream_options"@,
        "tools"@ != "stream"@ && "tools"@ != "stream_options"@,
        "tool_choice"@ != "stream"@ && "tool_choice"@ != "stream_options"@,
        "parallel_tool_calls"@ != "stream"@ && "parallel_tool_calls"@ != "stream_options"@,
        "response_format"@ != "stream"@ && "response_format"@ != "stream_options"@,
        "temperature"@ != "stream"@ && "temperature"@ != "stream_options"@,
        "top_p"@ != "stream"@ && "top_p"@ != "stream_options"@,
        "top_k"@ != "stream"@ && "top_k"@ != "stream_options"@,
        "stop"@ != "stream"@ && "stop"@ != "stream_options"@,
        "seed"@ != "stream"@ && "seed"@ != "stream_options"@,
        "presence_penalty"@ != "stream"@ && "presence_penalty"@ != "stream_options"@,
        "frequency_penalty"@ != "stream"@ && "frequency_penalty"@ != "stream_options"@,
        "max_tokens"@ != "stream"@ && "max_tokens"@ != "stream_options"@,
        "max_completion_tokens"@ != "stream"@ && "max_completion_tokens"@ != "stream_options"@,
{
    lemma_chat_keys();
}

proof fn lemma_chat_tools(r: RequestView, b: Map<Seq<char>, JsonView>)
    requires
        r.tools.len() > 0 ==> b.contains_key("tools"@) && b["tools"@]
            == crate::protocols::openai::shared::tools_json(r.tools, ToolShape::Nested),
        r.tool_choice matches Some(choice) ==> b.contains_key("tool_choice"@) && b["tool_choice"@]
            == crate::protocols::openai::shared::choice_json(choice, ToolShape::Nested),
    ensures
        r.tools.len() > 0 ==> b["tools"@] is Array && b["tools"@]->Array_0.len() == r.tools.len()
            && forall|i: int|
            0 <= i < r.tools.len() ==> says(
                #[trigger] b["tools"@]->Array_0[i],
                "type"@,
                "function"@,
            ) && tells_tool(
                b["tools"@]->Array_0[i]->Object_0["function"@],
                r.tools[i],
                "parameters"@,
            ),
        r.tool_choice matches Some(choice) ==> match choice {
            ToolChoiceView::Auto => b["tool_choice"@] == JsonView::String("auto"@),
            ToolChoiceView::Never => b["tool_choice"@] == JsonView::String("none"@),
            ToolChoiceView::Required => b["tool_choice"@] == JsonView::String("required"@),
            ToolChoiceView::Tool { name } => says(
                b["tool_choice"@]->Object_0["function"@],
                "name"@,
                name,
            ),
        },
{
    lemma_tool_keys();
}

proof fn lemma_chat_format(r: RequestView, b: Map<Seq<char>, JsonView>)
    requires
        r.structured_output is Some ==> b.contains_key("response_format"@)
            && chat::request::format_json(r) == Some(b["response_format"@]),
    ensures
        r.structured_output matches Some(output) ==> {
            let format = b["response_format"@]->Object_0["json_schema"@];
            &&& format is Object
            &&& says(format, "name"@, output.name)
            &&& carries(format->Object_0, "schema"@, Some(output.schema))
            &&& carries(format->Object_0, "strict"@, Some(JsonView::Bool(output.strict)))
        },
{
    lemma_tool_keys();
}

proof fn lemma_namespaces(profile: ApiProfile)
    ensures
        profile.namespace_text() == "openai"@ || profile.namespace_text() == "openrouter"@
            || profile.namespace_text() == "anthropic"@ || profile.namespace_text() == "gemini"@,
        profile is OpenAiChatCompletions || profile is XaiChatCompletions || profile is OpenRouter
            ==> profile.namespace_text() == "openai"@ || profile.namespace_text()
            == "openrouter"@,
{
}

/// Messages go to a chat API in order: the instructions first, then each
/// message; a user's text as it is, and each tool result as a message of its
/// own that names the call and holds the text.
pub proof fn chat_messages_are_sent_as_they_are(
    r: RequestView,
    dialect: ChatDialect,
    n: int,
)
    requires
        0 < n <= r.messages.len(),
    ensures
        ({
            let start = chat::request::messages_upto(r, dialect, 0).messages;
            match instructions(r) {
                Some(system) => start.len() == 1 && says(start[0], "role"@, "system"@) && says(
                    start[0],
                    "content"@,
                    system,
                ),
                None => start.len() == 0,
            }
        }),
        ({
            let before = chat::request::messages_upto(r, dialect, n - 1).messages;
            let after = chat::request::messages_upto(r, dialect, n).messages;
            &&& before.len() <= after.len()
            &&& forall|i: int| 0 <= i < before.len() ==> (#[trigger] after[i]) == before[i]
            &&& r.messages[n - 1] matches MessageView::User { content } ==> {
                &&& after.len() == before.len() + 1
                &&& says(after.last(), "role"@, "user"@)
                &&& content.len() == 1 ==> says(after.last(), "content"@, content[0]->text)
                &&& content.len() != 1 ==> {
                    let parts = after.last()->Object_0["content"@]->Array_0;
                    &&& parts.len() == content.len()
                    &&& forall|i: int|
                        0 <= i < content.len() ==> says(
                            #[trigger] parts[i],
                            "type"@,
                            "text"@,
                        ) && says(parts[i], "text"@, content[i]->text)
                }
            }
            &&& r.messages[n - 1] matches MessageView::Tool { content } ==> {
                &&& after.len() == before.len() + content.len()
                &&& forall|i: int|
                    0 <= i < content.len() ==> says(
                        #[trigger] after[before.len() + i],
                        "role"@,
                        "tool"@,
                    ) && says(after[before.len() + i], "tool_call_id"@, content[i].call_id)
                        && says(
                        after[before.len() + i],
                        "content"@,
                        outcome(content[i].content),
                    )
            }
        }),
{
    lemma_chat_keys();
    lemma_tool_keys();
}

// ---------------------------------------------------------------------------
// Messages
// ---------------------------------------------------------------------------

/// Each tool result goes to the Messages API as a block that names the call,
/// holds the text, and is marked as an error exactly where it is one.
pub proof fn message_results_tell_success_from_failure(result: ToolResultPartView)
    ensures
        ({
            let sent = anthropic::request::result_block(result);
            &&& says(sent, "type"@, "tool_result"@)
            &&& says(sent, "tool_use_id"@, result.call_id)
            &&& says(sent, "content"@, outcome(result.content))
            &&& carries(
                sent->Object_0,
                "is_error"@,
                if result.is_error {
                    Some(JsonView::Bool(true))
                } else {
                    None
                },
            )
        }),
{
    lemma_tool_keys();
}

/// Results of tools stand in the order in which they were given, in one user
/// message, after what was sent before.
pub proof fn message_results_are_sent_in_order(messages: Seq<MessageView>, n: int)
    requires
        0 < n <= messages.len(),
        messages[n - 1] is Tool,
        anthropic::request::wire_messages(messages, n - 1) is Ok,
    ensures
        ({
            let content = messages[n - 1]->Tool_content;
            let after = anthropic::request::wire_messages(messages, n)->Ok_0;
            let blocks = after.last()->Object_0["content"@]->Array_0;
            &&& anthropic::request::wire_messages(messages, n) is Ok
            &&& after.len() > 0
            &&& says(after.last(), "role"@, "user"@)
            &&& blocks.len() >= content.len()
            &&& forall|i: int|
                0 <= i < content.len() ==> (#[trigger] blocks[blocks.len() - content.len() + i])
                    == anthropic::request::result_block(content[i])
        }),
{
    lemma_tool_keys();
}

/// A Messages request carries every setting of the request under its own key,
/// as it is, its instructions, its tools in order, and the tool choice.
#[verifier::rlimit(60)]
pub proof fn message_requests_carry_what_was_asked(
    r: RequestView,
    model: Seq<char>,
    profile: ApiProfile,
    support: ReasoningSupportView,
    streaming: bool,
    sent: LoweredView,
)
    requires
        untouched(r, "anthropic"@),
        r.reasoning is None,
        anthropic::request::lowered(
            r,
            model,
            profile,
            support,
            streaming,
            AnthropicDialect::Direct,
        ) == Ok::<LoweredView, crate::error::ErrorView>(sent),
    ensures
        ({
            let b = sent.body->Object_0;
            &&& sent.body is Object
            &&& says(sent.body, "model"@, model)
            &&& carries(b, "temperature"@, setting(r.temperature))
            &&& carries(b, "top_p"@, setting(r.top_p))
            &&& carries(b, "top_k"@, limit(r.top_k))
            &&& carries_texts(b, "stop_sequences"@, r.stop_sequences)
            &&& carries(b, "system"@, text(instructions(r)))
            &&& r.max_output_tokens matches Some(n) ==> carries(
                b,
                "max_tokens"@,
                limit(Some(n)),
            )
            &&& b.contains_key("max_tokens"@)
            &&& carries(
                b,
                "stream"@,
                if streaming {
                    Some(JsonView::Bool(true))
                } else {
                    None
                },
            )
            &&& b.contains_key("tools"@) <==> r.tools.len() > 0
            &&& r.tools.len() > 0 ==> b["tools"@] is Array && b["tools"@]->Array_0.len()
                == r.tools.len() && forall|i: int|
                0 <= i < r.tools.len() ==> tells_tool(
                    #[trigger] b["tools"@]->Array_0[i],
                    r.tools[i],
                    "input_schema"@,
                )
            &&& r.tool_choice matches Some(choice) ==> b.contains_key("tool_choice"@) && match choice {
                ToolChoiceView::Auto => says(b["tool_choice"@], "type"@, "auto"@),
                ToolChoiceView::Never => says(b["tool_choice"@], "type"@, "none"@),
                ToolChoiceView::Required => says(b["tool_choice"@], "type"@, "any"@),
                ToolChoiceView::Tool { name } => says(b["tool_choice"@], "type"@, "tool"@) && says(
                    b["tool_choice"@],
                    "name"@,
                    name,
                ),
            }
        }),
{
    lemma_message_keys();
    lemma_tool_keys();
}

// ---------------------------------------------------------------------------
// Responses
// ---------------------------------------------------------------------------

/// A Responses request carries every setting of the request under its own key,
/// as it is, its tools in order, and the tool choice; nothing is stored.
#[verifier::rlimit(60)]
pub proof fn response_requests_carry_what_was_asked(
    r: RequestView,
    model: Seq<char>,
    profile: ApiProfile,
    streaming: bool,
    body: JsonView,
    warnings: Seq<crate::response::WarningView>,
)
    requires
        untouched(r, "openai"@),
        responses::request::lowered_body(r, model, profile, streaming, false) == Ok::<
            (JsonView, Seq<crate::response::WarningView>),
            crate::error::ErrorView,
        >((body, warnings)),
    ensures
        ({
            let b = body->Object_0;
            &&& body is Object
            &&& says(body, "model"@, model)
            &&& carries(b, "temperature"@, setting(r.temperature))
            &&& carries(b, "top_p"@, setting(r.top_p))
            &&& carries(b, "max_output_tokens"@, limit(r.max_output_tokens))
            &&& carries(b, "parallel_tool_calls"@, flag(r.parallel_tool_calls))
            &&& carries(b, "store"@, Some(JsonView::Bool(false)))
            &&& carries(
                b,
                "stream"@,
                if streaming {
                    Some(JsonView::Bool(true))
                } else {
                    None
                },
            )
            &&& b.contains_key("tools"@) <==> r.tools.len() > 0
            &&& r.tools.len() > 0 ==> b["tools"@] is Array && b["tools"@]->Array_0.len()
                == r.tools.len() && forall|i: int|
                0 <= i < r.tools.len() ==> says(
                    #[trigger] b["tools"@]->Array_0[i],
                    "type"@,
                    "function"@,
                ) && tells_tool(b["tools"@]->Array_0[i], r.tools[i], "parameters"@)
            &&& b.contains_key("tool_choice"@) <==> r.tool_choice is Some
            &&& r.tool_choice matches Some(choice) ==> match choice {
                ToolChoiceView::Auto => b["tool_choice"@] == JsonView::String("auto"@),
                ToolChoiceView::Never => b["tool_choice"@] == JsonView::String("none"@),
                ToolChoiceView::Required => b["tool_choice"@] == JsonView::String("required"@),
                ToolChoiceView::Tool { name } => says(b["tool_choice"@], "name"@, name),
            }
            &&& b["input"@] is Array
            &&& instructions(r) matches Some(system) ==> b["input"@]->Array_0.len() > 0 && says(
                b["input"@]->Array_0[0],
                "role"@,
                "system"@,
            ) && says(
                b["input"@]->Array_0[0]->Object_0["content"@]->Array_0[0],
                "text"@,
                system,
            )
            &&& b.contains_key("text"@) <==> r.structured_output is Some
            &&& r.structured_output matches Some(output) ==> {
                let format = b["text"@]->Object_0["format"@];
                &&& format is Object
                &&& says(format, "type"@, "json_schema"@)
                &&& says(format, "name"@, output.name)
                &&& carries(format->Object_0, "schema"@, Some(output.schema))
                &&& carries(format->Object_0, "strict"@, Some(JsonView::Bool(output.strict)))
            }
        }),
{
    lemma_response_keys();
    lemma_tool_keys();
}

/// Messages go to a Responses API in order: a user's text as it is, and each
/// tool result as an item that names the call and holds the text.
pub proof fn response_items_are_sent_as_they_are(
    messages: Seq<MessageView>,
    profile: ApiProfile,
    n: int,
)
    requires
        0 < n <= messages.len(),
        responses::request::messages_upto(messages, profile, n - 1) is Ok,
    ensures
        ({
            let before = responses::request::messages_upto(messages, profile, n - 1)->Ok_0;
            let lowered = responses::request::messages_upto(messages, profile, n);
            let after = lowered->Ok_0.items;
            &&& messages[n - 1] matches MessageView::User { content } ==> {
                let parts = after.last()->Object_0["content"@]->Array_0;
                &&& lowered is Ok
                &&& after.len() == before.items.len() + 1
                &&& says(after.last(), "type"@, "message"@)
                &&& says(after.last(), "role"@, "user"@)
                &&& parts.len() == content.len()
                &&& forall|i: int|
                    0 <= i < content.len() ==> says(
                        #[trigger] parts[i],
                        "type"@,
                        "input_text"@,
                    ) && says(parts[i], "text"@, content[i]->text)
            }
            &&& messages[n - 1] matches MessageView::Tool { content } ==> {
                &&& lowered is Ok
                &&& after.len() == before.items.len() + content.len()
                &&& forall|i: int|
                    0 <= i < content.len() ==> answers(
                        #[trigger] after[before.items.len() + i],
                        before.calls,
                        content[i],
                    )
            }
        }),
{
    lemma_response_keys();
    lemma_tool_keys();
    if let MessageView::Tool { content } = messages[n - 1] {
        lemma_result_items(
            responses::request::messages_upto(messages, profile, n - 1)->Ok_0,
            content,
            content.len() as int,
        );
    }
}

/// Whether an item answers a call: under the id that the provider knows it by.
pub open spec fn answers(
    item: JsonView,
    calls: Map<Seq<char>, Seq<char>>,
    result: ToolResultPartView,
) -> bool {
    &&& says(item, "type"@, "function_call_output"@)
    &&& says(item, "output"@, outcome(result.content))
    &&& says(
        item,
        "call_id"@,
        match result.provider_call_id {
            Some(id) => id,
            None => if calls.contains_key(result.call_id) {
                calls[result.call_id]
            } else {
                result.call_id
            },
        },
    )
}

proof fn lemma_result_items(
    s: responses::request::InputView,
    content: Seq<ToolResultPartView>,
    n: int,
)
    requires
        0 <= n <= content.len(),
    ensures
        ({
            let t = responses::request::results_upto(s, content, n);
            &&& t.items.len() == s.items.len() + n
            &&& t.calls == s.calls
            &&& forall|i: int|
                0 <= i < n ==> answers(
                    #[trigger] t.items[s.items.len() + i],
                    s.calls,
                    content[i],
                )
        }),
    decreases n,
{
    lemma_tool_keys();
    if n > 0 {
        lemma_result_items(s, content, n - 1);
        let before = responses::request::results_upto(s, content, n - 1);
        let t = responses::request::results_upto(s, content, n);
        assert forall|i: int| 0 <= i < n implies answers(
            #[trigger] t.items[s.items.len() + i],
            s.calls,
            content[i],
        ) by {
            if i < n - 1 {
                assert(t.items[s.items.len() + i] == before.items[s.items.len() + i]);
            }
        }
    }
}

// ---------------------------------------------------------------------------
// Gemini
// ---------------------------------------------------------------------------

/// A Gemini request carries every setting of the request under its own key, as
/// it is, its instructions, its tools in order, and the tool choice.
#[verifier::rlimit(60)]
pub proof fn gemini_requests_carry_what_was_asked(
    r: RequestView,
    model: Seq<char>,
    profile: ApiProfile,
    support: ReasoningSupportView,
    streaming: bool,
    sent: LoweredView,
)
    requires
        untouched(r, "gemini"@),
        gemini::request::lowered(r, model, profile, support, streaming) == Ok::<
            LoweredView,
            crate::error::ErrorView,
        >(sent),
    ensures
        ({
            let b = sent.body->Object_0;
            let g = if b.contains_key("generationConfig"@) {
                b["generationConfig"@]->Object_0
            } else {
                Map::empty()
            };
            &&& sent.body is Object
            &&& carries(g, "temperature"@, setting(r.temperature))
            &&& carries(g, "topP"@, setting(r.top_p))
            &&& carries(g, "topK"@, limit(r.top_k))
            &&& carries(g, "maxOutputTokens"@, limit(r.max_output_tokens))
            &&& carries_texts(g, "stopSequences"@, r.stop_sequences)
            &&& carries(g, "seed"@, seed(r.seed))
            &&& carries(g, "presencePenalty"@, setting(r.presence_penalty))
            &&& carries(g, "frequencyPenalty"@, setting(r.frequency_penalty))
            &&& match r.structured_output {
                Some(output) => carries(
                    g,
                    "responseMimeType"@,
                    Some(JsonView::String("application/json"@)),
                ) && carries(g, "responseJsonSchema"@, Some(output.schema)),
                None => !g.contains_key("responseMimeType"@) && !g.contains_key(
                    "responseJsonSchema"@,
                ),
            }
            &&& b.contains_key("systemInstruction"@) <==> instructions(r) is Some
            &&& instructions(r) matches Some(system) ==> says(
                b["systemInstruction"@]->Object_0["parts"@]->Array_0[0],
                "text"@,
                system,
            )
            &&& b.contains_key("tools"@) <==> r.tools.len() > 0
            &&& r.tools.len() > 0 ==> {
                let tools = b["tools"@]->Array_0[0]->Object_0["functionDeclarations"@]->Array_0;
                &&& tools.len() == r.tools.len()
                &&& forall|i: int|
                    0 <= i < r.tools.len() ==> tells_tool(
                        #[trigger] tools[i],
                        r.tools[i],
                        "parametersJsonSchema"@,
                    )
            }
            &&& b.contains_key("toolConfig"@) <==> r.tool_choice is Some
            &&& r.tool_choice matches Some(choice) ==> {
                let config = b["toolConfig"@]->Object_0["functionCallingConfig"@];
                match choice {
                    ToolChoiceView::Auto => says(config, "mode"@, "AUTO"@),
                    ToolChoiceView::Never => says(config, "mode"@, "NONE"@),
                    ToolChoiceView::Required => says(config, "mode"@, "ANY"@)
                        && !config->Object_0.contains_key("allowedFunctionNames"@),
                    ToolChoiceView::Tool { name } => says(config, "mode"@, "ANY"@)
                        && carries_texts(
                        config->Object_0,
                        "allowedFunctionNames"@,
                        seq![name],
                    ),
                }
            }
        }),
{
    lemma_gemini_keys();
    lemma_tool_keys();
}

/// Messages go to Gemini in order: a user's texts as they are, in one turn, and
/// what the model said and called with the arguments that were parsed.
pub proof fn gemini_turns_are_sent_as_they_are(
    c: gemini::request::Contents,
    message: MessageView,
    lowered: gemini::request::Contents,
)
    requires
        gemini::request::with_message(c, message) == Ok::<
            gemini::request::Contents,
            crate::error::ErrorView,
        >(lowered),
    ensures
        message matches MessageView::User { content } ==> {
            let turn = lowered.turns.last();
            &&& lowered.turns.len() == c.turns.len() + 1
            &&& !turn.model
            &&& turn.parts.len() == content.len()
            &&& forall|i: int|
                0 <= i < content.len() ==> says(
                    #[trigger] turn.parts[i],
                    "text"@,
                    content[i]->text,
                )
        },
        message matches MessageView::Assistant { content, .. } ==> (content.len() == 1 && content[0]
            is ToolCall ==> {
            let call = content[0]->ToolCall_0;
            let turn = lowered.turns.last();
            let sent = turn.parts[0]->Object_0["functionCall"@];
            &&& lowered.turns.len() == c.turns.len() + 1
            &&& turn.model
            &&& turn.parts.len() == 1
            &&& says(sent, "name"@, call.name)
            &&& json_parse(call.arguments) is Ok
            &&& carries(sent->Object_0, "args"@, Some(json_parse(call.arguments)->Ok_0))
            &&& carries(sent->Object_0, "id"@, text(call.item_id))
        }),
{
    reveal_with_fuel(gemini::request::parts_upto, 3);
    lemma_gemini_keys();
    lemma_tool_keys();
}

proof fn lemma_chat_keys()
    ensures
        "model"@ != "messages"@,
        "model"@ != "tools"@,
        "model"@ != "tool_choice"@,
        "model"@ != "parallel_tool_calls"@,
        "model"@ != "response_format"@,
        "model"@ != "reasoning_effort"@,
        "model"@ != "reasoning"@,
        "model"@ != "max_completion_tokens"@,
        "model"@ != "max_tokens"@,
        "model"@ != "temperature"@,
        "model"@ != "top_p"@,
        "model"@ != "top_k"@,
        "model"@ != "stop"@,
        "model"@ != "presence_penalty"@,
        "model"@ != "frequency_penalty"@,
        "model"@ != "seed"@,
        "model"@ != "stream"@,
        "model"@ != "stream_options"@,
        "messages"@ != "tools"@,
        "messages"@ != "tool_choice"@,
        "messages"@ != "parallel_tool_calls"@,
        "messages"@ != "response_format"@,
        "messages"@ != "reasoning_effort"@,
        "messages"@ != "reasoning"@,
        "messages"@ != "max_completion_tokens"@,
        "messages"@ != "max_tokens"@,
        "messages"@ != "temperature"@,
        "messages"@ != "top_p"@,
        "messages"@ != "top_k"@,
        "messages"@ != "stop"@,
        "messages"@ != "presence_penalty"@,
        "messages"@ != "frequency_penalty"@,
        "messages"@ != "seed"@,
        "messages"@ != "stream"@,
        "messages"@ != "stream_options"@,
        "tools"@ != "tool_choice"@,
        "tools"@ != "parallel_tool_calls"@,
        "tools"@ != "response_format"@,
        "tools"@ != "reasoning_effort"@,
        "tools"@ != "reasoning"@,
        "tools"@ != "max_completion_tokens"@,
        "tools"@ != "max_tokens"@,
        "tools"@ != "temperature"@,
        "tools"@ != "top_p"@,
        "tools"@ != "top_k"@,
        "tools"@ != "stop"@,
        "tools"@ != "presence_penalty"@,
        "tools"@ != "frequency_penalty"@,
        "tools"@ != "seed"@,
        "tools"@ != "stream"@,
        "tools"@ != "stream_options"@,
        "tool_choice"@ != "parallel_tool_calls"@,
        "tool_choice"@ != "response_format"@,
        "tool_choice"@ != "reasoning_effort"@,
        "tool_choice"@ != "reasoning"@,
        "tool_choice"@ != "max_completion_tokens"@,
        "tool_choice"@ != "max_tokens"@,
        "tool_choice"@ != "temperature"@,
        "tool_choice"@ != "top_p"@,
        "tool_choice"@ != "top_k"@,
        "tool_choice"@ != "stop"@,
        "tool_choice"@ != "presence_penalty"@,
        "tool_choice"@ != "frequency_penalty"@,
        "tool_choice"@ != "seed"@,
        "tool_choice"@ != "stream"@,
        "tool_choice"@ != "stream_options"@,
        "parallel_tool_calls"@ != "response_format"@,
        "parallel_tool_calls"@ != "reasoning_effort"@,
        "parallel_tool_calls"@ != "reasoning"@,
        "parallel_tool_calls"@ != "max_completion_tokens"@,
        "parallel_tool_calls"@ != "max_tokens"@,
        "parallel_tool_calls"@ != "temperature"@,
        "parallel_tool_calls"@ != "top_p"@,
        "parallel_tool_calls"@ != "top_k"@,
        "parallel_tool_calls"@ != "stop"@,
        "parallel_tool_calls"@ != "presence_penalty"@,
        "parallel_tool_calls"@ != "frequency_penalty"@,
        "parallel_tool_calls"@ != "seed"@,
        "parallel_tool_calls"@ != "stream"@,
        "parallel_tool_calls"@ != "stream_options"@,
        "response_format"@ != "reasoning_effort"@,
        "response_format"@ != "reasoning"@,
        "response_format"@ != "max_completion_tokens"@,
        "response_format"@ != "max_tokens"@,
        "response_format"@ != "temperature"@,
        "response_format"@ != "top_p"@,
        "response_format"@ != "top_k"@,
        "response_format"@ != "stop"@,
        "response_format"@ != "presence_penalty"@,
        "response_format"@ != "frequency_penalty"@,
        "response_format"@ != "seed"@,
        "response_format"@ != "stream"@,
        "response_format"@ != "stream_options"@,
        "reasoning_effort"@ != "reasoning"@,
        "reasoning_effort"@ != "max_completion_tokens"@,
        "reasoning_effort"@ != "max_tokens"@,
        "reasoning_effort"@ != "temperature"@,
        "reasoning_effort"@ != "top_p"@,
        "reasoning_effort"@ != "top_k"@,
        "reasoning_effort"@ != "stop"@,
        "reasoning_effort"@ != "presence_penalty"@,
        "reasoning_effort"@ != "frequency_penalty"@,
        "reasoning_effort"@ != "seed"@,
        "reasoning_effort"@ != "stream"@,
        "reasoning_effort"@ != "stream_options"@,
        "reasoning"@ != "max_completion_tokens"@,
        "reasoning"@ != "max_tokens"@,
        "reasoning"@ != "temperature"@,
        "reasoning"@ != "top_p"@,
        "reasoning"@ != "top_k"@,
        "reasoning"@ != "stop"@,
        "reasoning"@ != "presence_penalty"@,
        "reasoning"@ != "frequency_penalty"@,
        "reasoning"@ != "seed"@,
        "reasoning"@ != "stream"@,
        "reasoning"@ != "stream_options"@,
        "max_completion_tokens"@ != "max_tokens"@,
        "max_completion_tokens"@ != "temperature"@,
        "max_completion_tokens"@ != "top_p"@,
        "max_completion_tokens"@ != "top_k"@,
        "max_completion_tokens"@ != "stop"@,
        "max_completion_tokens"@ != "presence_penalty"@,
        "max_completion_tokens"@ != "frequency_penalty"@,
        "max_completion_tokens"@ != "seed"@,
        "max_completion_tokens"@ != "stream"@,
        "max_completion_tokens"@ != "stream_options"@,
        "max_tokens"@ != "temperature"@,
        "max_tokens"@ != "top_p"@,
        "max_tokens"@ != "top_k"@,
        "max_tokens"@ != "stop"@,
        "max_tokens"@ != "presence_penalty"@,
        "max_tokens"@ != "frequency_penalty"@,
        "max_tokens"@ != "seed"@,
        "max_tokens"@ != "stream"@,
        "max_tokens"@ != "stream_options"@,
        "temperature"@ != "top_p"@,
        "temperature"@ != "top_k"@,
        "temperature"@ != "stop"@,
        "temperature"@ != "presence_penalty"@,
        "temperature"@ != "frequency_penalty"@,
        "temperature"@ != "seed"@,
        "temperature"@ != "stream"@,
        "temperature"@ != "stream_options"@,
        "top_p"@ != "top_k"@,
        "top_p"@ != "stop"@,
        "top_p"@ != "presence_penalty"@,
        "top_p"@ != "frequency_penalty"@,
        "top_p"@ != "seed"@,
        "top_p"@ != "stream"@,
        "top_p"@ != "stream_options"@,
        "top_k"@ != "stop"@,
        "top_k"@ != "presence_penalty"@,
        "top_k"@ != "frequency_penalty"@,
        "top_k"@ != "seed"@,
        "top_k"@ != "stream"@,
        "top_k"@ != "stream_options"@,
        "stop"@ != "presence_penalty"@,
        "stop"@ != "frequency_penalty"@,
        "stop"@ != "seed"@,
        "stop"@ != "stream"@,
        "stop"@ != "stream_options"@,
        "presence_penalty"@ != "frequency_penalty"@,
        "presence_penalty"@ != "seed"@,
        "presence_penalty"@ != "stream"@,
        "presence_penalty"@ != "stream_options"@,
        "frequency_penalty"@ != "seed"@,
        "frequency_penalty"@ != "stream"@,
        "frequency_penalty"@ != "stream_options"@,
        "seed"@ != "stream"@,
        "seed"@ != "stream_options"@,
        "stream"@ != "stream_options"@,
{
    reveal_strlit("model");
    reveal_strlit("messages");
    reveal_strlit("tools");
    reveal_strlit("tool_choice");
    reveal_strlit("parallel_tool_calls");
    reveal_strlit("response_format");
    reveal_strlit("reasoning_effort");
    reveal_strlit("reasoning");
    reveal_strlit("max_completion_tokens");
    reveal_strlit("max_tokens");
    reveal_strlit("temperature");
    reveal_strlit("top_p");
    reveal_strlit("top_k");
    reveal_strlit("stop");
    reveal_strlit("presence_penalty");
    reveal_strlit("frequency_penalty");
    reveal_strlit("seed");
    reveal_strlit("stream");
    reveal_strlit("stream_options");
    assert("model"@.len() == 5 && "messages"@.len() == 8 && "tools"@.len() == 5 && "tool_choice"@.len() == 11 && "parallel_tool_calls"@.len() == 19 && "response_format"@.len() == 15 && "reasoning_effort"@.len() == 16 && "reasoning"@.len() == 9 && "max_completion_tokens"@.len() == 21 && "max_tokens"@.len() == 10 && "temperature"@.len() == 11 && "top_p"@.len() == 5 && "top_k"@.len() == 5 && "stop"@.len() == 4 && "presence_penalty"@.len() == 16 && "frequency_penalty"@.len() == 17 && "seed"@.len() == 4 && "stream"@.len() == 6 && "stream_options"@.len() == 14);
    assert("model"@[0] != "tools"@[0]);
    assert("model"@[0] != "top_p"@[0]);
    assert("model"@[0] != "top_k"@[0]);
    assert("tools"@[2] != "top_p"@[2]);
    assert("tools"@[2] != "top_k"@[2]);
    assert("top_p"@[4] != "top_k"@[4]);
    assert("tool_choice"@[1] != "temperature"@[1]);
    assert("reasoning_effort"@[0] != "presence_penalty"@[0]);
    assert("stop"@[1] != "seed"@[1]);
}

proof fn lemma_message_keys()
    ensures
        "max_tokens"@ != "messages"@,
        "max_tokens"@ != "model"@,
        "max_tokens"@ != "system"@,
        "max_tokens"@ != "tools"@,
        "max_tokens"@ != "thinking"@,
        "max_tokens"@ != "output_config"@,
        "max_tokens"@ != "tool_choice"@,
        "max_tokens"@ != "context_management"@,
        "max_tokens"@ != "anthropic_beta"@,
        "max_tokens"@ != "temperature"@,
        "max_tokens"@ != "top_p"@,
        "max_tokens"@ != "top_k"@,
        "max_tokens"@ != "stop_sequences"@,
        "max_tokens"@ != "stream"@,
        "messages"@ != "model"@,
        "messages"@ != "system"@,
        "messages"@ != "tools"@,
        "messages"@ != "thinking"@,
        "messages"@ != "output_config"@,
        "messages"@ != "tool_choice"@,
        "messages"@ != "context_management"@,
        "messages"@ != "anthropic_beta"@,
        "messages"@ != "temperature"@,
        "messages"@ != "top_p"@,
        "messages"@ != "top_k"@,
        "messages"@ != "stop_sequences"@,
        "messages"@ != "stream"@,
        "model"@ != "system"@,
        "model"@ != "tools"@,
        "model"@ != "thinking"@,
        "model"@ != "output_config"@,
        "model"@ != "tool_choice"@,
        "model"@ != "context_management"@,
        "model"@ != "anthropic_beta"@,
        "model"@ != "temperature"@,
        "model"@ != "top_p"@,
        "model"@ != "top_k"@,
        "model"@ != "stop_sequences"@,
        "model"@ != "stream"@,
        "system"@ != "tools"@,
        "system"@ != "thinking"@,
        "system"@ != "output_config"@,
        "system"@ != "tool_choice"@,
        "system"@ != "context_management"@,
        "system"@ != "anthropic_beta"@,
        "system"@ != "temperature"@,
        "system"@ != "top_p"@,
        "system"@ != "top_k"@,
        "system"@ != "stop_sequences"@,
        "system"@ != "stream"@,
        "tools"@ != "thinking"@,
        "tools"@ != "output_config"@,
        "tools"@ != "tool_choice"@,
        "tools"@ != "context_management"@,
        "tools"@ != "anthropic_beta"@,
        "tools"@ != "temperature"@,
        "tools"@ != "top_p"@,
        "tools"@ != "top_k"@,
        "tools"@ != "stop_sequences"@,
        "tools"@ != "stream"@,
        "thinking"@ != "output_config"@,
        "thinking"@ != "tool_choice"@,
        "thinking"@ != "context_management"@,
        "thinking"@ != "anthropic_beta"@,
        "thinking"@ != "temperature"@,
        "thinking"@ != "top_p"@,
        "thinking"@ != "top_k"@,
        "thinking"@ != "stop_sequences"@,
        "thinking"@ != "stream"@,
        "output_config"@ != "tool_choice"@,
        "output_config"@ != "context_management"@,
        "output_config"@ != "anthropic_beta"@,
        "output_config"@ != "temperature"@,
        "output_config"@ != "top_p"@,
        "output_config"@ != "top_k"@,
        "output_config"@ != "stop_sequences"@,
        "output_config"@ != "stream"@,
        "tool_choice"@ != "context_management"@,
        "tool_choice"@ != "anthropic_beta"@,
        "tool_choice"@ != "temperature"@,
        "tool_choice"@ != "top_p"@,
        "tool_choice"@ != "top_k"@,
        "tool_choice"@ != "stop_sequences"@,
        "tool_choice"@ != "stream"@,
        "context_management"@ != "anthropic_beta"@,
        "context_management"@ != "temperature"@,
        "context_management"@ != "top_p"@,
        "context_management"@ != "top_k"@,
        "context_management"@ != "stop_sequences"@,
        "context_management"@ != "stream"@,
        "anthropic_beta"@ != "temperature"@,
        "anthropic_beta"@ != "top_p"@,
        "anthropic_beta"@ != "top_k"@,
        "anthropic_beta"@ != "stop_sequences"@,
        "anthropic_beta"@ != "stream"@,
        "temperature"@ != "top_p"@,
        "temperature"@ != "top_k"@,
        "temperature"@ != "stop_sequences"@,
        "temperature"@ != "stream"@,
        "top_p"@ != "top_k"@,
        "top_p"@ != "stop_sequences"@,
        "top_p"@ != "stream"@,
        "top_k"@ != "stop_sequences"@,
        "top_k"@ != "stream"@,
        "stop_sequences"@ != "stream"@,
{
    reveal_strlit("max_tokens");
    reveal_strlit("messages");
    reveal_strlit("model");
    reveal_strlit("system");
    reveal_strlit("tools");
    reveal_strlit("thinking");
    reveal_strlit("output_config");
    reveal_strlit("tool_choice");
    reveal_strlit("context_management");
    reveal_strlit("anthropic_beta");
    reveal_strlit("temperature");
    reveal_strlit("top_p");
    reveal_strlit("top_k");
    reveal_strlit("stop_sequences");
    reveal_strlit("stream");
    assert("max_tokens"@.len() == 10 && "messages"@.len() == 8 && "model"@.len() == 5 && "system"@.len() == 6 && "tools"@.len() == 5 && "thinking"@.len() == 8 && "output_config"@.len() == 13 && "tool_choice"@.len() == 11 && "context_management"@.len() == 18 && "anthropic_beta"@.len() == 14 && "temperature"@.len() == 11 && "top_p"@.len() == 5 && "top_k"@.len() == 5 && "stop_sequences"@.len() == 14 && "stream"@.len() == 6);
    assert("messages"@[0] != "thinking"@[0]);
    assert("model"@[0] != "tools"@[0]);
    assert("model"@[0] != "top_p"@[0]);
    assert("model"@[0] != "top_k"@[0]);
    assert("tools"@[2] != "top_p"@[2]);
    assert("tools"@[2] != "top_k"@[2]);
    assert("top_p"@[4] != "top_k"@[4]);
    assert("system"@[1] != "stream"@[1]);
    assert("tool_choice"@[1] != "temperature"@[1]);
    assert("anthropic_beta"@[0] != "stop_sequences"@[0]);
}

proof fn lemma_response_keys()
    ensures
        "model"@ != "input"@,
        "model"@ != "store"@,
        "model"@ != "include"@,
        "model"@ != "instructions"@,
        "model"@ != "tools"@,
        "model"@ != "tool_choice"@,
        "model"@ != "parallel_tool_calls"@,
        "model"@ != "text"@,
        "model"@ != "reasoning"@,
        "model"@ != "context_management"@,
        "model"@ != "max_output_tokens"@,
        "model"@ != "temperature"@,
        "model"@ != "top_p"@,
        "model"@ != "stream"@,
        "model"@ != "stream_options"@,
        "input"@ != "store"@,
        "input"@ != "include"@,
        "input"@ != "instructions"@,
        "input"@ != "tools"@,
        "input"@ != "tool_choice"@,
        "input"@ != "parallel_tool_calls"@,
        "input"@ != "text"@,
        "input"@ != "reasoning"@,
        "input"@ != "context_management"@,
        "input"@ != "max_output_tokens"@,
        "input"@ != "temperature"@,
        "input"@ != "top_p"@,
        "input"@ != "stream"@,
        "input"@ != "stream_options"@,
        "store"@ != "include"@,
        "store"@ != "instructions"@,
        "store"@ != "tools"@,
        "store"@ != "tool_choice"@,
        "store"@ != "parallel_tool_calls"@,
        "store"@ != "text"@,
        "store"@ != "reasoning"@,
        "store"@ != "context_management"@,
        "store"@ != "max_output_tokens"@,
        "store"@ != "temperature"@,
        "store"@ != "top_p"@,
        "store"@ != "stream"@,
        "store"@ != "stream_options"@,
        "include"@ != "instructions"@,
        "include"@ != "tools"@,
        "include"@ != "tool_choice"@,
        "include"@ != "parallel_tool_calls"@,
        "include"@ != "text"@,
        "include"@ != "reasoning"@,
        "include"@ != "context_management"@,
        "include"@ != "max_output_tokens"@,
        "include"@ != "temperature"@,
        "include"@ != "top_p"@,
        "include"@ != "stream"@,
        "include"@ != "stream_options"@,
        "instructions"@ != "tools"@,
        "instructions"@ != "tool_choice"@,
        "instructions"@ != "parallel_tool_calls"@,
        "instructions"@ != "text"@,
        "instructions"@ != "reasoning"@,
        "instructions"@ != "context_management"@,
        "instructions"@ != "max_output_tokens"@,
        "instructions"@ != "temperature"@,
        "instructions"@ != "top_p"@,
        "instructions"@ != "stream"@,
        "instructions"@ != "stream_options"@,
        "tools"@ != "tool_choice"@,
        "tools"@ != "parallel_tool_calls"@,
        "tools"@ != "text"@,
        "tools"@ != "reasoning"@,
        "tools"@ != "context_management"@,
        "tools"@ != "max_output_tokens"@,
        "tools"@ != "temperature"@,
        "tools"@ != "top_p"@,
        "tools"@ != "stream"@,
        "tools"@ != "stream_options"@,
        "tool_choice"@ != "parallel_tool_calls"@,
        "tool_choice"@ != "text"@,
        "tool_choice"@ != "reasoning"@,
        "tool_choice"@ != "context_management"@,
        "tool_choice"@ != "max_output_tokens"@,
        "tool_choice"@ != "temperature"@,
        "tool_choice"@ != "top_p"@,
        "tool_choice"@ != "stream"@,
        "tool_choice"@ != "stream_options"@,
        "parallel_tool_calls"@ != "text"@,
        "parallel_tool_calls"@ != "reasoning"@,
        "parallel_tool_calls"@ != "context_management"@,
        "parallel_tool_calls"@ != "max_output_tokens"@,
        "parallel_tool_calls"@ != "temperature"@,
        "parallel_tool_calls"@ != "top_p"@,
        "parallel_tool_calls"@ != "stream"@,
        "parallel_tool_calls"@ != "stream_options"@,
        "text"@ != "reasoning"@,
        "text"@ != "context_management"@,
        "text"@ != "max_output_tokens"@,
        "text"@ != "temperature"@,
        "text"@ != "top_p"@,
        "text"@ != "stream"@,
        "text"@ != "stream_options"@,
        "reasoning"@ != "context_management"@,
        "reasoning"@ != "max_output_tokens"@,
        "reasoning"@ != "temperature"@,
        "reasoning"@ != "top_p"@,
        "reasoning"@ != "stream"@,
        "reasoning"@ != "stream_options"@,
        "context_management"@ != "max_output_tokens"@,
        "context_management"@ != "temperature"@,
        "context_management"@ != "top_p"@,
        "context_management"@ != "stream"@,
        "context_management"@ != "stream_options"@,
        "max_output_tokens"@ != "temperature"@,
        "max_output_tokens"@ != "top_p"@,
        "max_output_tokens"@ != "stream"@,
        "max_output_tokens"@ != "stream_options"@,
        "temperature"@ != "top_p"@,
        "temperature"@ != "stream"@,
        "temperature"@ != "stream_options"@,
        "top_p"@ != "stream"@,
        "top_p"@ != "stream_options"@,
        "stream"@ != "stream_options"@,
{
    reveal_strlit("model");
    reveal_strlit("input");
    reveal_strlit("store");
    reveal_strlit("include");
    reveal_strlit("instructions");
    reveal_strlit("tools");
    reveal_strlit("tool_choice");
    reveal_strlit("parallel_tool_calls");
    reveal_strlit("text");
    reveal_strlit("reasoning");
    reveal_strlit("context_management");
    reveal_strlit("max_output_tokens");
    reveal_strlit("temperature");
    reveal_strlit("top_p");
    reveal_strlit("stream");
    reveal_strlit("stream_options");
    assert("model"@.len() == 5 && "input"@.len() == 5 && "store"@.len() == 5 && "include"@.len() == 7 && "instructions"@.len() == 12 && "tools"@.len() == 5 && "tool_choice"@.len() == 11 && "parallel_tool_calls"@.len() == 19 && "text"@.len() == 4 && "reasoning"@.len() == 9 && "context_management"@.len() == 18 && "max_output_tokens"@.len() == 17 && "temperature"@.len() == 11 && "top_p"@.len() == 5 && "stream"@.len() == 6 && "stream_options"@.len() == 14);
    assert("model"@[0] != "input"@[0]);
    assert("model"@[0] != "store"@[0]);
    assert("model"@[0] != "tools"@[0]);
    assert("model"@[0] != "top_p"@[0]);
    assert("input"@[0] != "store"@[0]);
    assert("input"@[0] != "tools"@[0]);
    assert("input"@[0] != "top_p"@[0]);
    assert("store"@[0] != "tools"@[0]);
    assert("store"@[0] != "top_p"@[0]);
    assert("tools"@[2] != "top_p"@[2]);
    assert("tool_choice"@[1] != "temperature"@[1]);
}

proof fn lemma_gemini_keys()
    ensures
        "contents"@ != "systemInstruction"@,
        "contents"@ != "tools"@,
        "contents"@ != "toolConfig"@,
        "contents"@ != "generationConfig"@,
        "contents"@ != "temperature"@,
        "contents"@ != "topP"@,
        "contents"@ != "topK"@,
        "contents"@ != "maxOutputTokens"@,
        "contents"@ != "stopSequences"@,
        "contents"@ != "seed"@,
        "contents"@ != "presencePenalty"@,
        "contents"@ != "frequencyPenalty"@,
        "contents"@ != "responseMimeType"@,
        "contents"@ != "responseJsonSchema"@,
        "contents"@ != "thinkingConfig"@,
        "contents"@ != "mode"@,
        "contents"@ != "allowedFunctionNames"@,
        "contents"@ != "functionCall"@,
        "contents"@ != "thoughtSignature"@,
        "systemInstruction"@ != "tools"@,
        "systemInstruction"@ != "toolConfig"@,
        "systemInstruction"@ != "generationConfig"@,
        "systemInstruction"@ != "temperature"@,
        "systemInstruction"@ != "topP"@,
        "systemInstruction"@ != "topK"@,
        "systemInstruction"@ != "maxOutputTokens"@,
        "systemInstruction"@ != "stopSequences"@,
        "systemInstruction"@ != "seed"@,
        "systemInstruction"@ != "presencePenalty"@,
        "systemInstruction"@ != "frequencyPenalty"@,
        "systemInstruction"@ != "responseMimeType"@,
        "systemInstruction"@ != "responseJsonSchema"@,
        "systemInstruction"@ != "thinkingConfig"@,
        "systemInstruction"@ != "mode"@,
        "systemInstruction"@ != "allowedFunctionNames"@,
        "systemInstruction"@ != "functionCall"@,
        "systemInstruction"@ != "thoughtSignature"@,
        "tools"@ != "toolConfig"@,
        "tools"@ != "generationConfig"@,
        "tools"@ != "temperature"@,
        "tools"@ != "topP"@,
        "tools"@ != "topK"@,
        "tools"@ != "maxOutputTokens"@,
        "tools"@ != "stopSequences"@,
        "tools"@ != "seed"@,
        "tools"@ != "presencePenalty"@,
        "tools"@ != "frequencyPenalty"@,
        "tools"@ != "responseMimeType"@,
        "tools"@ != "responseJsonSchema"@,
        "tools"@ != "thinkingConfig"@,
        "tools"@ != "mode"@,
        "tools"@ != "allowedFunctionNames"@,
        "tools"@ != "functionCall"@,
        "tools"@ != "thoughtSignature"@,
        "toolConfig"@ != "generationConfig"@,
        "toolConfig"@ != "temperature"@,
        "toolConfig"@ != "topP"@,
        "toolConfig"@ != "topK"@,
        "toolConfig"@ != "maxOutputTokens"@,
        "toolConfig"@ != "stopSequences"@,
        "toolConfig"@ != "seed"@,
        "toolConfig"@ != "presencePenalty"@,
        "toolConfig"@ != "frequencyPenalty"@,
        "toolConfig"@ != "responseMimeType"@,
        "toolConfig"@ != "responseJsonSchema"@,
        "toolConfig"@ != "thinkingConfig"@,
        "toolConfig"@ != "mode"@,
        "toolConfig"@ != "allowedFunctionNames"@,
        "toolConfig"@ != "functionCall"@,
        "toolConfig"@ != "thoughtSignature"@,
        "generationConfig"@ != "temperature"@,
        "generationConfig"@ != "topP"@,
        "generationConfig"@ != "topK"@,
        "generationConfig"@ != "maxOutputTokens"@,
        "generationConfig"@ != "stopSequences"@,
        "generationConfig"@ != "seed"@,
        "generationConfig"@ != "presencePenalty"@,
        "generationConfig"@ != "frequencyPenalty"@,
        "generationConfig"@ != "responseMimeType"@,
        "generationConfig"@ != "responseJsonSchema"@,
        "generationConfig"@ != "thinkingConfig"@,
        "generationConfig"@ != "mode"@,
        "generationConfig"@ != "allowedFunctionNames"@,
        "generationConfig"@ != "functionCall"@,
        "generationConfig"@ != "thoughtSignature"@,
        "temperature"@ != "topP"@,
        "temperature"@ != "topK"@,
        "temperature"@ != "maxOutputTokens"@,
        "temperature"@ != "stopSequences"@,
        "temperature"@ != "seed"@,
        "temperature"@ != "presencePenalty"@,
        "temperature"@ != "frequencyPenalty"@,
        "temperature"@ != "responseMimeType"@,
        "temperature"@ != "responseJsonSchema"@,
        "temperature"@ != "thinkingConfig"@,
        "temperature"@ != "mode"@,
        "temperature"@ != "allowedFunctionNames"@,
        "temperature"@ != "functionCall"@,
        "temperature"@ != "thoughtSignature"@,
        "topP"@ != "topK"@,
        "topP"@ != "maxOutputTokens"@,
        "topP"@ != "stopSequences"@,
        "topP"@ != "seed"@,
        "topP"@ != "presencePenalty"@,
        "topP"@ != "frequencyPenalty"@,
        "topP"@ != "responseMimeType"@,
        "topP"@ != "responseJsonSchema"@,
        "topP"@ != "thinkingConfig"@,
        "topP"@ != "mode"@,
        "topP"@ != "allowedFunctionNames"@,
        "topP"@ != "functionCall"@,
        "topP"@ != "thoughtSignature"@,
        "topK"@ != "maxOutputTokens"@,
        "topK"@ != "stopSequences"@,
        "topK"@ != "seed"@,
        "topK"@ != "presencePenalty"@,
        "topK"@ != "frequencyPenalty"@,
        "topK"@ != "responseMimeType"@,
        "topK"@ != "responseJsonSchema"@,
        "topK"@ != "thinkingConfig"@,
        "topK"@ != "mode"@,
        "topK"@ != "allowedFunctionNames"@,
        "topK"@ != "functionCall"@,
        "topK"@ != "thoughtSignature"@,
        "maxOutputTokens"@ != "stopSequences"@,
        "maxOutputTokens"@ != "seed"@,
        "maxOutputTokens"@ != "presencePenalty"@,
        "maxOutputTokens"@ != "frequencyPenalty"@,
        "maxOutputTokens"@ != "responseMimeType"@,
        "maxOutputTokens"@ != "responseJsonSchema"@,
        "maxOutputTokens"@ != "thinkingConfig"@,
        "maxOutputTokens"@ != "mode"@,
        "maxOutputTokens"@ != "allowedFunctionNames"@,
        "maxOutputTokens"@ != "functionCall"@,
        "maxOutputTokens"@ != "thoughtSignature"@,
        "stopSequences"@ != "seed"@,
        "stopSequences"@ != "presencePenalty"@,
        "stopSequences"@ != "frequencyPenalty"@,
        "stopSequences"@ != "responseMimeType"@,
        "stopSequences"@ != "responseJsonSchema"@,
        "stopSequences"@ != "thinkingConfig"@,
        "stopSequences"@ != "mode"@,
        "stopSequences"@ != "allowedFunctionNames"@,
        "stopSequences"@ != "functionCall"@,
        "stopSequences"@ != "thoughtSignature"@,
        "seed"@ != "presencePenalty"@,
        "seed"@ != "frequencyPenalty"@,
        "seed"@ != "responseMimeType"@,
        "seed"@ != "responseJsonSchema"@,
        "seed"@ != "thinkingConfig"@,
        "seed"@ != "mode"@,
        "seed"@ != "allowedFunctionNames"@,
        "seed"@ != "functionCall"@,
        "seed"@ != "thoughtSignature"@,
        "presencePenalty"@ != "frequencyPenalty"@,
        "presencePenalty"@ != "responseMimeType"@,
        "presencePenalty"@ != "responseJsonSchema"@,
        "presencePenalty"@ != "thinkingConfig"@,
        "presencePenalty"@ != "mode"@,
        "presencePenalty"@ != "allowedFunctionNames"@,
        "presencePenalty"@ != "functionCall"@,
        "presencePenalty"@ != "thoughtSignature"@,
        "frequencyPenalty"@ != "responseMimeType"@,
        "frequencyPenalty"@ != "responseJsonSchema"@,
        "frequencyPenalty"@ != "thinkingConfig"@,
        "frequencyPenalty"@ != "mode"@,
        "frequencyPenalty"@ != "allowedFunctionNames"@,
        "frequencyPenalty"@ != "functionCall"@,
        "frequencyPenalty"@ != "thoughtSignature"@,
        "responseMimeType"@ != "responseJsonSchema"@,
        "responseMimeType"@ != "thinkingConfig"@,
        "responseMimeType"@ != "mode"@,
        "responseMimeType"@ != "allowedFunctionNames"@,
        "responseMimeType"@ != "functionCall"@,
        "responseMimeType"@ != "thoughtSignature"@,
        "responseJsonSchema"@ != "thinkingConfig"@,
        "responseJsonSchema"@ != "mode"@,
        "responseJsonSchema"@ != "allowedFunctionNames"@,
        "responseJsonSchema"@ != "functionCall"@,
        "responseJsonSchema"@ != "thoughtSignature"@,
        "thinkingConfig"@ != "mode"@,
        "thinkingConfig"@ != "allowedFunctionNames"@,
        "thinkingConfig"@ != "functionCall"@,
        "thinkingConfig"@ != "thoughtSignature"@,
        "mode"@ != "allowedFunctionNames"@,
        "mode"@ != "functionCall"@,
        "mode"@ != "thoughtSignature"@,
        "allowedFunctionNames"@ != "functionCall"@,
        "allowedFunctionNames"@ != "thoughtSignature"@,
        "functionCall"@ != "thoughtSignature"@,
{
    reveal_strlit("contents");
    reveal_strlit("systemInstruction");
    reveal_strlit("tools");
    reveal_strlit("toolConfig");
    reveal_strlit("generationConfig");
    reveal_strlit("temperature");
    reveal_strlit("topP");
    reveal_strlit("topK");
    reveal_strlit("maxOutputTokens");
    reveal_strlit("stopSequences");
    reveal_strlit("seed");
    reveal_strlit("presencePenalty");
    reveal_strlit("frequencyPenalty");
    reveal_strlit("responseMimeType");
    reveal_strlit("responseJsonSchema");
    reveal_strlit("thinkingConfig");
    reveal_strlit("mode");
    reveal_strlit("allowedFunctionNames");
    reveal_strlit("functionCall");
    reveal_strlit("thoughtSignature");
    assert("contents"@.len() == 8 && "systemInstruction"@.len() == 17 && "tools"@.len() == 5 && "toolConfig"@.len() == 10 && "generationConfig"@.len() == 16 && "temperature"@.len() == 11 && "topP"@.len() == 4 && "topK"@.len() == 4 && "maxOutputTokens"@.len() == 15 && "stopSequences"@.len() == 13 && "seed"@.len() == 4 && "presencePenalty"@.len() == 15 && "frequencyPenalty"@.len() == 16 && "responseMimeType"@.len() == 16 && "responseJsonSchema"@.len() == 18 && "thinkingConfig"@.len() == 14 && "mode"@.len() == 4 && "allowedFunctionNames"@.len() == 20 && "functionCall"@.len() == 12 && "thoughtSignature"@.len() == 16);
    assert("generationConfig"@[0] != "frequencyPenalty"@[0]);
    assert("generationConfig"@[0] != "responseMimeType"@[0]);
    assert("generationConfig"@[0] != "thoughtSignature"@[0]);
    assert("frequencyPenalty"@[0] != "responseMimeType"@[0]);
    assert("frequencyPenalty"@[0] != "thoughtSignature"@[0]);
    assert("responseMimeType"@[0] != "thoughtSignature"@[0]);
    assert("topP"@[3] != "topK"@[3]);
    assert("topP"@[0] != "seed"@[0]);
    assert("topP"@[0] != "mode"@[0]);
    assert("topK"@[0] != "seed"@[0]);
    assert("topK"@[0] != "mode"@[0]);
    assert("seed"@[0] != "mode"@[0]);
    assert("maxOutputTokens"@[0] != "presencePenalty"@[0]);
}

proof fn lemma_tool_keys()
    ensures
        "name"@ != "parameters"@,
        "name"@ != "input_schema"@,
        "name"@ != "parametersJsonSchema"@,
        "name"@ != "description"@,
        "name"@ != "strict"@,
        "name"@ != "type"@,
        "name"@ != "function"@,
        "name"@ != "role"@,
        "name"@ != "content"@,
        "name"@ != "tool_call_id"@,
        "name"@ != "tool_use_id"@,
        "name"@ != "is_error"@,
        "name"@ != "call_id"@,
        "name"@ != "output"@,
        "name"@ != "text"@,
        "name"@ != "schema"@,
        "name"@ != "disable_parallel_tool_use"@,
        "name"@ != "id"@,
        "name"@ != "args"@,
        "parameters"@ != "input_schema"@,
        "parameters"@ != "parametersJsonSchema"@,
        "parameters"@ != "description"@,
        "parameters"@ != "strict"@,
        "parameters"@ != "type"@,
        "parameters"@ != "function"@,
        "parameters"@ != "role"@,
        "parameters"@ != "content"@,
        "parameters"@ != "tool_call_id"@,
        "parameters"@ != "tool_use_id"@,
        "parameters"@ != "is_error"@,
        "parameters"@ != "call_id"@,
        "parameters"@ != "output"@,
        "parameters"@ != "text"@,
        "parameters"@ != "schema"@,
        "parameters"@ != "disable_parallel_tool_use"@,
        "parameters"@ != "id"@,
        "parameters"@ != "args"@,
        "input_schema"@ != "parametersJsonSchema"@,
        "input_schema"@ != "description"@,
        "input_schema"@ != "strict"@,
        "input_schema"@ != "type"@,
        "input_schema"@ != "function"@,
        "input_schema"@ != "role"@,
        "input_schema"@ != "content"@,
        "input_schema"@ != "tool_call_id"@,
        "input_schema"@ != "tool_use_id"@,
        "input_schema"@ != "is_error"@,
        "input_schema"@ != "call_id"@,
        "input_schema"@ != "output"@,
        "input_schema"@ != "text"@,
        "input_schema"@ != "schema"@,
        "input_schema"@ != "disable_parallel_tool_use"@,
        "input_schema"@ != "id"@,
        "input_schema"@ != "args"@,
        "parametersJsonSchema"@ != "description"@,
        "parametersJsonSchema"@ != "strict"@,
        "parametersJsonSchema"@ != "type"@,
        "parametersJsonSchema"@ != "function"@,
        "parametersJsonSchema"@ != "role"@,
        "parametersJsonSchema"@ != "content"@,
        "parametersJsonSchema"@ != "tool_call_id"@,
        "parametersJsonSchema"@ != "tool_use_id"@,
        "parametersJsonSchema"@ != "is_error"@,
        "parametersJsonSchema"@ != "call_id"@,
        "parametersJsonSchema"@ != "output"@,
        "parametersJsonSchema"@ != "text"@,
        "parametersJsonSchema"@ != "schema"@,
        "parametersJsonSchema"@ != "disable_parallel_tool_use"@,
        "parametersJsonSchema"@ != "id"@,
        "parametersJsonSchema"@ != "args"@,
        "description"@ != "strict"@,
        "description"@ != "type"@,
        "description"@ != "function"@,
        "description"@ != "role"@,
        "description"@ != "content"@,
        "description"@ != "tool_call_id"@,
        "description"@ != "tool_use_id"@,
        "description"@ != "is_error"@,
        "description"@ != "call_id"@,
        "description"@ != "output"@,
        "description"@ != "text"@,
        "description"@ != "schema"@,
        "description"@ != "disable_parallel_tool_use"@,
        "description"@ != "id"@,
        "description"@ != "args"@,
        "strict"@ != "type"@,
        "strict"@ != "function"@,
        "strict"@ != "role"@,
        "strict"@ != "content"@,
        "strict"@ != "tool_call_id"@,
        "strict"@ != "tool_use_id"@,
        "strict"@ != "is_error"@,
        "strict"@ != "call_id"@,
        "strict"@ != "output"@,
        "strict"@ != "text"@,
        "strict"@ != "schema"@,
        "strict"@ != "disable_parallel_tool_use"@,
        "strict"@ != "id"@,
        "strict"@ != "args"@,
        "type"@ != "function"@,
        "type"@ != "role"@,
        "type"@ != "content"@,
        "type"@ != "tool_call_id"@,
        "type"@ != "tool_use_id"@,
        "type"@ != "is_error"@,
        "type"@ != "call_id"@,
        "type"@ != "output"@,
        "type"@ != "text"@,
        "type"@ != "schema"@,
        "type"@ != "disable_parallel_tool_use"@,
        "type"@ != "id"@,
        "type"@ != "args"@,
        "function"@ != "role"@,
        "function"@ != "content"@,
        "function"@ != "tool_call_id"@,
        "function"@ != "tool_use_id"@,
        "function"@ != "is_error"@,
        "function"@ != "call_id"@,
        "function"@ != "output"@,
        "function"@ != "text"@,
        "function"@ != "schema"@,
        "function"@ != "disable_parallel_tool_use"@,
        "function"@ != "id"@,
        "function"@ != "args"@,
        "role"@ != "content"@,
        "role"@ != "tool_call_id"@,
        "role"@ != "tool_use_id"@,
        "role"@ != "is_error"@,
        "role"@ != "call_id"@,
        "role"@ != "output"@,
        "role"@ != "text"@,
        "role"@ != "schema"@,
        "role"@ != "disable_parallel_tool_use"@,
        "role"@ != "id"@,
        "role"@ != "args"@,
        "content"@ != "tool_call_id"@,
        "content"@ != "tool_use_id"@,
        "content"@ != "is_error"@,
        "content"@ != "call_id"@,
        "content"@ != "output"@,
        "content"@ != "text"@,
        "content"@ != "schema"@,
        "content"@ != "disable_parallel_tool_use"@,
        "content"@ != "id"@,
        "content"@ != "args"@,
        "tool_call_id"@ != "tool_use_id"@,
        "tool_call_id"@ != "is_error"@,
        "tool_call_id"@ != "call_id"@,
        "tool_call_id"@ != "output"@,
        "tool_call_id"@ != "text"@,
        "tool_call_id"@ != "schema"@,
        "tool_call_id"@ != "disable_parallel_tool_use"@,
        "tool_call_id"@ != "id"@,
        "tool_call_id"@ != "args"@,
        "tool_use_id"@ != "is_error"@,
        "tool_use_id"@ != "call_id"@,
        "tool_use_id"@ != "output"@,
        "tool_use_id"@ != "text"@,
        "tool_use_id"@ != "schema"@,
        "tool_use_id"@ != "disable_parallel_tool_use"@,
        "tool_use_id"@ != "id"@,
        "tool_use_id"@ != "args"@,
        "is_error"@ != "call_id"@,
        "is_error"@ != "output"@,
        "is_error"@ != "text"@,
        "is_error"@ != "schema"@,
        "is_error"@ != "disable_parallel_tool_use"@,
        "is_error"@ != "id"@,
        "is_error"@ != "args"@,
        "call_id"@ != "output"@,
        "call_id"@ != "text"@,
        "call_id"@ != "schema"@,
        "call_id"@ != "disable_parallel_tool_use"@,
        "call_id"@ != "id"@,
        "call_id"@ != "args"@,
        "output"@ != "text"@,
        "output"@ != "schema"@,
        "output"@ != "disable_parallel_tool_use"@,
        "output"@ != "id"@,
        "output"@ != "args"@,
        "text"@ != "schema"@,
        "text"@ != "disable_parallel_tool_use"@,
        "text"@ != "id"@,
        "text"@ != "args"@,
        "schema"@ != "disable_parallel_tool_use"@,
        "schema"@ != "id"@,
        "schema"@ != "args"@,
        "disable_parallel_tool_use"@ != "id"@,
        "disable_parallel_tool_use"@ != "args"@,
        "id"@ != "args"@,
{
    reveal_strlit("name");
    reveal_strlit("parameters");
    reveal_strlit("input_schema");
    reveal_strlit("parametersJsonSchema");
    reveal_strlit("description");
    reveal_strlit("strict");
    reveal_strlit("type");
    reveal_strlit("function");
    reveal_strlit("role");
    reveal_strlit("content");
    reveal_strlit("tool_call_id");
    reveal_strlit("tool_use_id");
    reveal_strlit("is_error");
    reveal_strlit("call_id");
    reveal_strlit("output");
    reveal_strlit("text");
    reveal_strlit("schema");
    reveal_strlit("disable_parallel_tool_use");
    reveal_strlit("id");
    reveal_strlit("args");
    assert("name"@.len() == 4 && "parameters"@.len() == 10 && "input_schema"@.len() == 12 && "parametersJsonSchema"@.len() == 20 && "description"@.len() == 11 && "strict"@.len() == 6 && "type"@.len() == 4 && "function"@.len() == 8 && "role"@.len() == 4 && "content"@.len() == 7 && "tool_call_id"@.len() == 12 && "tool_use_id"@.len() == 11 && "is_error"@.len() == 8 && "call_id"@.len() == 7 && "output"@.len() == 6 && "text"@.len() == 4 && "schema"@.len() == 6 && "disable_parallel_tool_use"@.len() == 25 && "id"@.len() == 2 && "args"@.len() == 4);
    assert("name"@[0] != "type"@[0]);
    assert("name"@[0] != "role"@[0]);
    assert("name"@[0] != "text"@[0]);
    assert("name"@[0] != "args"@[0]);
    assert("type"@[0] != "role"@[0]);
    assert("type"@[1] != "text"@[1]);
    assert("type"@[0] != "args"@[0]);
    assert("role"@[0] != "text"@[0]);
    assert("role"@[0] != "args"@[0]);
    assert("text"@[0] != "args"@[0]);
    assert("input_schema"@[0] != "tool_call_id"@[0]);
    assert("description"@[0] != "tool_use_id"@[0]);
    assert("strict"@[0] != "output"@[0]);
    assert("strict"@[1] != "schema"@[1]);
    assert("output"@[0] != "schema"@[0]);
    assert("function"@[0] != "is_error"@[0]);
    assert("content"@[1] != "call_id"@[1]);
}

} // verus!
