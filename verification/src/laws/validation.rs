//! Which requests are accepted.
use vstd::prelude::*;

use crate::capabilities::CapabilitiesView;
use crate::error::ErrorView;
use crate::json::{json_parse, JsonView};
use crate::message::{MessageView, ToolCallView, ToolResultPartView};
use crate::metadata::MetadataView;
use crate::protocols::validate::{
    attributed, history, lacks_results, request_failure, shape_failure, tool_failure, tools_failure,
    History,
};
use crate::protocols::ApiProfile;
use crate::request::{RealView, RequestView, ToolChoiceView, ToolDefinitionView};
use crate::text::is_blank;

verus! {

/// Whether nothing in the provider options is about tools.
pub open spec fn leaves_tools_alone(options: MetadataView) -> bool {
    forall|n: Seq<char>| #[trigger]
        options.contains_key(n) ==> (options[n] matches JsonView::Object(o) ==> !o.contains_key(
            "tools"@,
        ) && !o.contains_key("tool_choice"@) && !o.contains_key("toolConfig"@))
}

/// Whether some tool has a name.
pub open spec fn is_among(tools: Seq<ToolDefinitionView>, name: Seq<char>) -> bool {
    exists|i: int| 0 <= i < tools.len() && (#[trigger] tools[i]).name == name
}

/// The request with another tool choice.
pub open spec fn choosing(r: RequestView, choice: Option<ToolChoiceView>) -> RequestView {
    RequestView { tool_choice: choice, ..r }
}

/// Any one of the declared tools can be chosen: a request that is accepted
/// without a tool choice is accepted with the name of each of its tools. A name
/// is refused exactly where no tool has it, or where it is blank; and with tools
/// declared, requiring one, allowing them and forbidding them are accepted.
pub proof fn every_declared_tool_can_be_chosen(
    r: RequestView,
    name: Seq<char>,
    model: Seq<char>,
    profile: ApiProfile,
    c: CapabilitiesView,
    options: Option<ErrorView>,
)
    requires
        request_failure(choosing(r, None), model, profile, c, options) is None,
        leaves_tools_alone(r.provider_options),
    ensures
        ({
            let chosen = choosing(r, Some(ToolChoiceView::Tool { name }));
            let refused = request_failure(chosen, model, profile, c, options);
            &&& is_among(r.tools, name) ==> refused is None
            &&& refused is Some <==> !is_among(r.tools, name)
            &&& refused matches Some(e) ==> e.kind is InvalidRequest && e.message == if is_blank(
                name,
            ) {
                "tool_choice tool name must not be blank"@
            } else {
                "tool_choice references undeclared tool `"@ + name + "`"@
            }
        }),
        ({
            let required = choosing(r, Some(ToolChoiceView::Required));
            request_failure(required, model, profile, c, options) is Some <==> r.tools.len() == 0
        }),
        request_failure(
            choosing(r, Some(ToolChoiceView::Auto)),
            model,
            profile,
            c,
            options,
        ) is None,
        request_failure(
            choosing(r, Some(ToolChoiceView::Never)),
            model,
            profile,
            c,
            options,
        ) is None,
{
    let n = profile.namespace_text();
    assert(r.provider_options.contains_key(n) ==> (r.provider_options[n] matches JsonView::Object(
        o,
    ) ==> !o.contains_key("tools"@) && !o.contains_key("tool_choice"@) && !o.contains_key(
        "toolConfig"@,
    )));
    if is_among(r.tools, name) {
        let i = choose|i: int| 0 <= i < r.tools.len() && (#[trigger] r.tools[i]).name == name;
        lemma_tools_pass(r.tools, r.tools.len() as int, i);
        assert(r.tools[i].name == name);
    }
}

/// Where the tools pass, each of them does.
proof fn lemma_tools_pass(tools: Seq<ToolDefinitionView>, n: int, i: int)
    requires
        0 <= i < n,
        tools_failure(tools, n) is None,
    ensures
        tool_failure(tools, i) is None,
    decreases n,
{
    if i < n - 1 {
        lemma_tools_pass(tools, n - 1, i);
    }
}

/// Whether a setting is a number.
pub open spec fn is_number(v: Option<RealView>) -> bool {
    v matches Some(x) ==> x is Finite
}

/// Whether a JSON value can be a schema.
pub open spec fn can_be_schema(v: JsonView) -> bool {
    v is Object || v is Bool
}

/// Whether the provider options take the place of the tools or their choice.
pub open spec fn overrides_tools(r: RequestView, profile: ApiProfile) -> bool {
    let n = profile.namespace_text();
    r.provider_options.contains_key(n) && (r.provider_options[n] matches JsonView::Object(o) && (
    o.contains_key("tools"@) || o.contains_key(
        if profile is GeminiGenerateContent {
            "toolConfig"@
        } else {
            "tool_choice"@
        },
    )))
}

/// A request is accepted exactly where it names a model and has messages, none
/// of them a tool message without results; its numbers are numbers and its
/// limits not zero; its tools have distinct names and schemas, and the one
/// chosen is among them; its output has a schema; its options are objects; its
/// history is in order; and the model can do what it asks for.
pub proof fn requests_are_accepted_exactly_where_they_are_sound(
    r: RequestView,
    model: Seq<char>,
    profile: ApiProfile,
    c: CapabilitiesView,
    options: Option<ErrorView>,
)
    ensures
        request_failure(r, model, profile, c, options) is None <==> {
            &&& !is_blank(model)
            &&& r.messages.len() > 0
            &&& forall|i: int|
                0 <= i < r.messages.len() ==> ((#[trigger] r.messages[i]) matches
                    MessageView::Tool { content } ==> content.len() > 0)
            &&& is_number(r.temperature) && is_number(r.top_p) && is_number(r.presence_penalty)
                && is_number(r.frequency_penalty)
            &&& r.max_output_tokens != Some(0u32)
            &&& r.top_k != Some(0u32)
            &&& forall|i: int|
                0 <= i < r.tools.len() ==> !is_blank((#[trigger] r.tools[i]).name)
                    && can_be_schema(r.tools[i].parameters)
            &&& forall|i: int, j: int|
                0 <= i < j < r.tools.len() ==> (#[trigger] r.tools[i]).name != (
                #[trigger] r.tools[j]).name
            &&& match r.tool_choice {
                Some(ToolChoiceView::Tool { name }) => !is_blank(name) && (is_among(r.tools, name)
                    || overrides_tools(r, profile)),
                Some(ToolChoiceView::Required) => r.tools.len() > 0 || overrides_tools(r, profile),
                _ => true,
            }
            &&& r.structured_output matches Some(output) ==> can_be_schema(output.schema)
            &&& options is None
            &&& history(r.messages, r.messages.len() as int) is Ok
            &&& c.tools || r.tools.len() == 0
            &&& c.structured_output || r.structured_output is None
            &&& c.native_compaction || !crate::protocols::validate::needs_compaction(r)
        },
{
    lemma_shapes(r.messages, r.messages.len() as int);
    lemma_tools(r.tools, r.tools.len() as int);
    if let Some(ToolChoiceView::Tool { name }) = r.tool_choice {
        if is_among(r.tools, name) {
            let i = choose|i: int| 0 <= i < r.tools.len() && (#[trigger] r.tools[i]).name == name;
            assert(crate::protocols::validate::declared(r.tools, name, r.tools.len() as int));
        }
    }
}

proof fn lemma_shapes(messages: Seq<MessageView>, n: int)
    requires
        0 <= n <= messages.len(),
    ensures
        shape_failure(messages, n) is None <==> forall|i: int|
            0 <= i < n ==> ((#[trigger] messages[i]) matches MessageView::Tool { content }
                ==> content.len() > 0),
    decreases n,
{
    if n > 0 {
        lemma_shapes(messages, n - 1);
        assert(lacks_results(messages[n - 1]) <==> !(messages[n - 1] matches MessageView::Tool {
            content,
        } ==> content.len() > 0));
    }
}

proof fn lemma_tools(tools: Seq<ToolDefinitionView>, n: int)
    requires
        0 <= n <= tools.len(),
    ensures
        tools_failure(tools, n) is None <==> {
            &&& forall|i: int|
                0 <= i < n ==> !is_blank((#[trigger] tools[i]).name) && can_be_schema(
                    tools[i].parameters,
                )
            &&& forall|i: int, j: int|
                0 <= i < j < n ==> (#[trigger] tools[i]).name != (#[trigger] tools[j]).name
        },
    decreases n,
{
    if n > 0 {
        lemma_tools(tools, n - 1);
        let last = tools[n - 1];
        if tool_failure(tools, n - 1) is None {
            assert forall|i: int, j: int| 0 <= i < j < n && tools_failure(tools, n) is None implies (
            #[trigger] tools[i]).name != (#[trigger] tools[j]).name by {
                if j == n - 1 {
                    assert(!crate::protocols::validate::declared(tools, last.name, n - 1));
                }
            }
        } else if crate::protocols::validate::declared(tools, last.name, n - 1) {
            let k = choose|k: int| 0 <= k < n - 1 && (#[trigger] tools[k]).name == last.name;
            assert(tools[k].name == tools[n - 1].name);
        }
    }
}

/// A call is in order exactly where it has an id, a name and an object of
/// arguments, and no call of that id still waits for its result; it then waits
/// for its own.
pub proof fn calls_wait_for_their_results(h: History, call: ToolCallView, path: Seq<char>)
    ensures
        h.call(call, path) is Ok <==> {
            &&& !is_blank(call.call_id)
            &&& !is_blank(call.name)
            &&& call.item_id matches Some(id) ==> !is_blank(id)
            &&& json_parse(call.arguments) matches Ok(arguments) && arguments is Object
            &&& !h.unresolved.contains_key(call.call_id)
        },
        h.call(call, path) matches Ok(after) ==> after.unresolved == h.unresolved.insert(
            call.call_id,
            call,
        ) && !after.resolved.contains(call.call_id),
        h.call(call, path) matches Err(e) ==> e.kind is InvalidRequest,
{
}

/// A result is in order exactly where its id, and its name and item where it
/// has them, are not blank; where it agrees with the call that it answers; and
/// where that call has no result yet. The call then waits no longer.
pub proof fn results_answer_their_calls(h: History, result: ToolResultPartView, path: Seq<char>)
    ensures
        h.result(result, path) is Ok <==> {
            &&& !is_blank(result.call_id)
            &&& result.item_id matches Some(id) ==> !is_blank(id)
            &&& result.name matches Some(name) ==> !is_blank(name)
            &&& if h.unresolved.contains_key(result.call_id) {
                let call = h.unresolved[result.call_id];
                &&& result.name matches Some(name) ==> name == call.name
                &&& result.item_id is Some && call.item_id is Some ==> result.item_id
                    == call.item_id
            } else {
                !h.resolved.contains(result.call_id)
            }
        },
        h.result(result, path) matches Ok(after) ==> if h.unresolved.contains_key(result.call_id) {
            after.unresolved == h.unresolved.remove(result.call_id) && after.resolved
                == h.resolved.insert(result.call_id)
        } else {
            after == h
        },
        h.result(result, path) matches Err(e) ==> e.kind is InvalidRequest,
{
}

/// A refused request says where it came from.
pub proof fn refusals_name_their_origin(
    failure: Option<ErrorView>,
    profile: ApiProfile,
    model: Seq<char>,
)
    ensures
        attributed(failure, profile, model) is Some <==> failure is Some,
        attributed(failure, profile, model) matches Some(e) ==> e.kind == failure->0.kind
            && e.message == failure->0.message && e.origin == Some(profile.text()) && e.model
            == Some(model),
{
}

} // verus!
