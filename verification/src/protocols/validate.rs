//! Pre-flight validation for constraints enforced by this crate.
use vstd::prelude::*;

use super::ApiProfile;
use crate::capabilities::{CapabilitiesView, ModelCapabilities};
use crate::error::{new_error, Error, ErrorKind, ErrorView};
use crate::json::{json_parse, lemma_entry, lemma_key, Json, JsonView};
use crate::message::{
    AssistantPart, AssistantPartView, Message, MessageView, ToolCall, ToolCallView, ToolResultPart,
    ToolResultPartView,
};
use crate::metadata::{MetadataView, ProviderMetadata};
use crate::model::{opt, views};
use crate::request::{Real, RealView, Request, RequestView, ToolChoice, ToolChoiceView, ToolDefinition, ToolDefinitionView};
use crate::text::{blank, cat, cat3, decimal, decimal_text, is_blank, same};

verus! {

broadcast use crate::model::group_views;

/// The failure of a check, if it failed.
pub open spec fn failure(r: Result<(), Error>) -> Option<ErrorView> {
    match r {
        Ok(_) => None,
        Err(e) => Some(e@),
    }
}

/// A request that is invalid, for the reason given.
pub open spec fn invalid(message: Seq<char>) -> ErrorView {
    new_error(ErrorKind::InvalidRequest, message)
}

/// The second check, where the first one passed.
pub open spec fn first_of(a: Option<ErrorView>, b: Option<ErrorView>) -> Option<ErrorView> {
    match a {
        Some(e) => Some(e),
        None => b,
    }
}

/// Whether a JSON value can be a JSON Schema.
pub open spec fn is_schema(value: JsonView) -> bool {
    value is Object || value is Bool
}

// ---------------------------------------------------------------------------
// Messages
// ---------------------------------------------------------------------------

/// Whether a message is a tool message without results.
pub open spec fn lacks_results(message: MessageView) -> bool {
    message matches MessageView::Tool { content } && content.len() == 0
}

/// The failure of the shapes of the first `n` messages.
pub open spec fn shape_failure(messages: Seq<MessageView>, n: int) -> Option<ErrorView>
    decreases n,
{
    if n <= 0 {
        None
    } else {
        first_of(
            shape_failure(messages, n - 1),
            if lacks_results(messages[n - 1]) {
                Some(
                    invalid(
                        "messages["@ + decimal((n - 1) as nat)
                            + "].content must contain at least one tool result"@,
                    ),
                )
            } else {
                None
            },
        )
    }
}

fn validate_message_shapes(request: &Request) -> (r: Result<(), Error>)
    ensures
        failure(r) == shape_failure(request@.messages, request@.messages.len() as int),
{
    let ghost all = request@.messages;
    let mut i: usize = 0;
    while i < request.messages.len()
        invariant
            i <= request.messages@.len(),
            all == views(request.messages@),
            shape_failure(all, i as int) is None,
        decreases request.messages@.len() - i,
    {
        let empty: bool = match &request.messages[i] {
            Message::Tool { content } => content.len() == 0,
            _ => false,
        };
        assert(empty == lacks_results(all[i as int]));
        if empty {
            let message: String = cat3(
                "messages[",
                decimal_text(i as u64).as_str(),
                "].content must contain at least one tool result",
            );
            proof {
                lemma_shape_failure(all, i + 1);
            }
            return Err(Error::invalid_request(message.as_str()));
        }
        i += 1;
    }
    Ok(())
}

proof fn lemma_shape_failure(messages: Seq<MessageView>, i: int)
    requires
        0 <= i <= messages.len(),
        shape_failure(messages, i) is Some,
    ensures
        shape_failure(messages, messages.len() as int) == shape_failure(messages, i),
    decreases messages.len() - i,
{
    if i < messages.len() {
        lemma_shape_failure(messages, i + 1);
    }
}

// ---------------------------------------------------------------------------
// Numbers
// ---------------------------------------------------------------------------

/// The failure of a setting that has to be finite.
pub open spec fn finite_failure(name: Seq<char>, value: Option<RealView>) -> Option<ErrorView> {
    if value == Some(RealView::NonFinite) {
        Some(invalid(name + " must be a finite number"@))
    } else {
        None
    }
}

/// The failure of the numbers of a request.
pub open spec fn number_failure(r: RequestView) -> Option<ErrorView> {
    first_of(
        finite_failure("temperature"@, r.temperature),
        first_of(
            finite_failure("top_p"@, r.top_p),
            first_of(
                finite_failure("presence_penalty"@, r.presence_penalty),
                first_of(
                    finite_failure("frequency_penalty"@, r.frequency_penalty),
                    if r.max_output_tokens == Some(0u32) {
                        Some(invalid("max_output_tokens must be greater than zero"@))
                    } else if r.top_k == Some(0u32) {
                        Some(invalid("top_k must be greater than zero"@))
                    } else {
                        None
                    },
                ),
            ),
        ),
    )
}

fn validate_finite(name: &str, value: &Option<Real>) -> (r: Result<(), Error>)
    ensures
        failure(r) == finite_failure(name@, opt(*value)),
{
    match value {
        Some(Real::NonFinite) => Err(
            Error::invalid_request(cat(name, " must be a finite number").as_str()),
        ),
        _ => Ok(()),
    }
}

fn validate_numbers(request: &Request) -> (r: Result<(), Error>)
    ensures
        failure(r) == number_failure(request@),
{
    if let Err(e) = validate_finite("temperature", &request.temperature) {
        return Err(e);
    }
    if let Err(e) = validate_finite("top_p", &request.top_p) {
        return Err(e);
    }
    if let Err(e) = validate_finite("presence_penalty", &request.presence_penalty) {
        return Err(e);
    }
    if let Err(e) = validate_finite("frequency_penalty", &request.frequency_penalty) {
        return Err(e);
    }
    if let Some(0) = request.max_output_tokens {
        return Err(Error::invalid_request("max_output_tokens must be greater than zero"));
    }
    if let Some(0) = request.top_k {
        return Err(Error::invalid_request("top_k must be greater than zero"));
    }
    Ok(())
}

// ---------------------------------------------------------------------------
// Tools
// ---------------------------------------------------------------------------

/// Whether one of the first `n` tools has a name.
pub open spec fn declared(tools: Seq<ToolDefinitionView>, name: Seq<char>, n: int) -> bool {
    exists|i: int| 0 <= i < n && (#[trigger] tools[i]).name == name
}

/// The failure of the tool at an index.
pub open spec fn tool_failure(tools: Seq<ToolDefinitionView>, i: int) -> Option<ErrorView> {
    let tool = tools[i];
    if is_blank(tool.name) {
        Some(invalid("tools["@ + decimal(i as nat) + "].name must not be blank"@))
    } else if !is_schema(tool.parameters) {
        Some(
            invalid(
                "tools["@ + decimal(i as nat)
                    + "].parameters must be a JSON Schema object or boolean"@,
            ),
        )
    } else if declared(tools, tool.name, i) {
        Some(invalid("tool name `"@ + tool.name + "` is declared more than once"@))
    } else {
        None
    }
}

/// The failure of the first `n` tools.
pub open spec fn tools_failure(tools: Seq<ToolDefinitionView>, n: int) -> Option<ErrorView>
    decreases n,
{
    if n <= 0 {
        None
    } else {
        first_of(tools_failure(tools, n - 1), tool_failure(tools, n - 1))
    }
}

/// The option that overrides the tool choice.
pub open spec fn choice_option(profile: ApiProfile) -> Seq<char> {
    if profile is GeminiGenerateContent {
        "toolConfig"@
    } else {
        "tool_choice"@
    }
}

/// Whether the provider options leave the tools and their choice alone.
pub open spec fn authoritative(options: MetadataView, profile: ApiProfile) -> bool {
    let namespace = profile.namespace_text();
    !(options.contains_key(namespace) && (options[namespace] matches JsonView::Object(o) && (
    o.contains_key("tools"@) || o.contains_key(choice_option(profile)))))
}

/// The failure of the tool choice.
pub open spec fn choice_failure(r: RequestView, profile: ApiProfile) -> Option<ErrorView> {
    let free = authoritative(r.provider_options, profile);
    match r.tool_choice {
        Some(ToolChoiceView::Tool { name }) => if is_blank(name) {
            Some(invalid("tool_choice tool name must not be blank"@))
        } else if free && !declared(r.tools, name, r.tools.len() as int) {
            Some(invalid("tool_choice references undeclared tool `"@ + name + "`"@))
        } else {
            None
        },
        Some(ToolChoiceView::Required) => if free && r.tools.len() == 0 {
            Some(invalid("tool_choice `required` requires at least one declared tool"@))
        } else {
            None
        },
        _ => None,
    }
}

fn schema_like(value: &Json) -> (r: bool)
    ensures
        r == is_schema(value@),
{
    match value {
        Json::Object(_) => true,
        Json::Bool(_) => true,
        _ => false,
    }
}

fn is_declared(tools: &Vec<ToolDefinition>, name: &str, n: usize) -> (r: bool)
    requires
        n <= tools@.len(),
    ensures
        r == declared(views(tools@), name@, n as int),
{
    let mut i: usize = 0;
    while i < n
        invariant
            i <= n <= tools@.len(),
            forall|k: int| 0 <= k < i ==> (#[trigger] views(tools@)[k]).name != name@,
        decreases n - i,
    {
        if same(tools[i].name.as_str(), name) {
            assert(views(tools@)[i as int].name == name@);
            return true;
        }
        i += 1;
    }
    false
}

fn validate_tool(tools: &Vec<ToolDefinition>, i: usize) -> (r: Result<(), Error>)
    requires
        i < tools@.len(),
    ensures
        failure(r) == tool_failure(views(tools@), i as int),
{
    let tool: &ToolDefinition = &tools[i];
    if blank(tool.name.as_str()) {
        let message: String = cat3(
            "tools[",
            decimal_text(i as u64).as_str(),
            "].name must not be blank",
        );
        return Err(Error::invalid_request(message.as_str()));
    }
    if !schema_like(&tool.parameters) {
        let message: String = cat3(
            "tools[",
            decimal_text(i as u64).as_str(),
            "].parameters must be a JSON Schema object or boolean",
        );
        return Err(Error::invalid_request(message.as_str()));
    }
    if is_declared(tools, tool.name.as_str(), i) {
        let message: String = cat3(
            "tool name `",
            tool.name.as_str(),
            "` is declared more than once",
        );
        return Err(Error::invalid_request(message.as_str()));
    }
    Ok(())
}

fn validate_tools(request: &Request, profile: ApiProfile) -> (r: Result<(), Error>)
    ensures
        failure(r) == first_of(
            tools_failure(request@.tools, request@.tools.len() as int),
            choice_failure(request@, profile),
        ),
{
    let ghost all = request@.tools;
    let mut i: usize = 0;
    while i < request.tools.len()
        invariant
            i <= request.tools@.len(),
            all == views(request.tools@),
            tools_failure(all, i as int) is None,
        decreases request.tools@.len() - i,
    {
        if let Err(e) = validate_tool(&request.tools, i) {
            proof {
                lemma_tools_failure(all, i + 1);
            }
            return Err(e);
        }
        i += 1;
    }
    match &request.tool_choice {
        Some(ToolChoice::Tool { name }) => {
            if blank(name.as_str()) {
                return Err(Error::invalid_request("tool_choice tool name must not be blank"));
            }
            if typed_tool_configuration_is_authoritative(request, profile) && !is_declared(
                &request.tools,
                name.as_str(),
                request.tools.len(),
            ) {
                let message: String = cat3(
                    "tool_choice references undeclared tool `",
                    name.as_str(),
                    "`",
                );
                return Err(Error::invalid_request(message.as_str()));
            }
            Ok(())
        },
        Some(ToolChoice::Required) => {
            if typed_tool_configuration_is_authoritative(request, profile) && request.tools.len()
                == 0 {
                return Err(
                    Error::invalid_request(
                        "tool_choice `required` requires at least one declared tool",
                    ),
                );
            }
            Ok(())
        },
        _ => Ok(()),
    }
}

proof fn lemma_tools_failure(tools: Seq<ToolDefinitionView>, i: int)
    requires
        0 <= i <= tools.len(),
        tools_failure(tools, i) is Some,
    ensures
        tools_failure(tools, tools.len() as int) == tools_failure(tools, i),
    decreases tools.len() - i,
{
    if i < tools.len() {
        lemma_tools_failure(tools, i + 1);
    }
}

fn typed_tool_configuration_is_authoritative(request: &Request, profile: ApiProfile) -> (r: bool)
    ensures
        r == authoritative(request@.provider_options, profile),
{
    match request.provider_options.get(profile.namespace()) {
        Some(Json::Object(options)) => {
            let choice_key: &str = if profile == ApiProfile::GeminiGenerateContent {
                "toolConfig"
            } else {
                "tool_choice"
            };
            !options.contains_key("tools") && !options.contains_key(choice_key)
        },
        _ => true,
    }
}

// ---------------------------------------------------------------------------
// Structured output and provider options
// ---------------------------------------------------------------------------

/// The failure of the structured output.
pub open spec fn output_failure(r: RequestView) -> Option<ErrorView> {
    match r.structured_output {
        Some(output) => if is_schema(output.schema) {
            None
        } else {
            Some(invalid("structured_output.schema must be a JSON Schema object or boolean"@))
        },
        None => None,
    }
}

fn validate_structured_output(request: &Request) -> (r: Result<(), Error>)
    ensures
        failure(r) == output_failure(request@),
{
    match &request.structured_output {
        Some(output) => if schema_like(&output.schema) {
            Ok(())
        } else {
            Err(
                Error::invalid_request(
                    "structured_output.schema must be a JSON Schema object or boolean",
                ),
            )
        },
        None => Ok(()),
    }
}

/// The failure of one namespace of the provider options.
pub open spec fn option_failure(namespace: Seq<char>) -> ErrorView {
    invalid("provider_options."@ + namespace + " must be a JSON object"@)
}

/// Whether a namespace of the options holds something that is no object.
pub open spec fn bad_option(options: MetadataView, namespace: Seq<char>) -> bool {
    options.contains_key(namespace) && !(options[namespace] is Object)
}

/// What the check of the provider options may come to: it passes where every
/// namespace holds an object, and names one that does not otherwise.
pub open spec fn options_verdict(options: MetadataView, verdict: Option<ErrorView>) -> bool {
    match verdict {
        Some(e) => exists|namespace: Seq<char>|
            #[trigger] bad_option(options, namespace) && e == option_failure(namespace),
        None => forall|namespace: Seq<char>| !#[trigger] bad_option(options, namespace),
    }
}

/// Provider options are deep-merged into the wire body, so anything but an
/// object would replace the body wholesale.
fn validate_provider_options(options: &ProviderMetadata) -> (r: Result<(), Error>)
    ensures
        options_verdict(options@, failure(r)),
{
    let entries: &Vec<(String, Json)> = options.entries();
    let mut i: usize = 0;
    while i < entries.len()
        invariant
            i <= entries@.len(),
            crate::json::distinct_keys(entries@),
            crate::json::entries_view(entries@) == options@,
            forall|k: int| 0 <= k < i ==> (#[trigger] entries@[k]).1@ is Object,
        decreases entries@.len() - i,
    {
        let object: bool = match &entries[i].1 {
            Json::Object(_) => true,
            _ => false,
        };
        if !object {
            let message: String = cat3(
                "provider_options.",
                entries[i].0.as_str(),
                " must be a JSON object",
            );
            proof {
                lemma_entry(entries@, i as int);
                assert(bad_option(options@, entries@[i as int].0@));
            }
            return Err(Error::invalid_request(message.as_str()));
        }
        i += 1;
    }
    proof {
        assert forall|namespace: Seq<char>| !#[trigger] bad_option(options@, namespace) by {
            if options@.contains_key(namespace) {
                let k = lemma_key(entries@, namespace);
                lemma_entry(entries@, k);
            }
        }
    }
    Ok(())
}

// ---------------------------------------------------------------------------
// History
// ---------------------------------------------------------------------------

/// The tool calls of a history: those without a result yet, by their id, and
/// the ids of those that have one.
#[verifier::ext_equal]
pub struct History {
    pub unresolved: Map<Seq<char>, ToolCallView>,
    pub resolved: Set<Seq<char>>,
}

/// The history before any message.
pub open spec fn no_history() -> History {
    History { unresolved: Map::empty(), resolved: Set::empty() }
}

/// Where a part stands.
pub open spec fn path_of(message: int, part: int) -> Seq<char> {
    "messages["@ + decimal(message as nat) + "].content["@ + decimal(part as nat) + "]"@
}

/// The failure of an optional field that must not be blank.
pub open spec fn blank_failure(path: Seq<char>, name: Seq<char>, value: Option<Seq<char>>) -> Option<
    ErrorView,
> {
    match value {
        Some(text) => if is_blank(text) {
            Some(invalid(path + "."@ + name + " must not be blank when present"@))
        } else {
            None
        },
        None => None,
    }
}

/// The failure of a tool call by itself.
pub open spec fn call_failure(call: ToolCallView, path: Seq<char>) -> Option<ErrorView> {
    if is_blank(call.call_id) {
        Some(invalid(path + ".call_id must not be blank"@))
    } else if is_blank(call.name) {
        Some(invalid(path + ".name must not be blank"@))
    } else {
        first_of(
            blank_failure(path, "item_id"@, call.item_id),
            match json_parse(call.arguments) {
                Ok(JsonView::Object(_)) => None,
                Ok(_) => Some(invalid(path + ".arguments must be a JSON object"@)),
                Err(e) => Some(
                    invalid(path + ".arguments must contain valid JSON: "@ + e).with_source(e),
                ),
            },
        )
    }
}

/// The failure of a tool result by itself.
pub open spec fn result_failure(result: ToolResultPartView, path: Seq<char>) -> Option<ErrorView> {
    if is_blank(result.call_id) {
        Some(invalid(path + ".call_id must not be blank"@))
    } else {
        first_of(
            blank_failure(path, "item_id"@, result.item_id),
            blank_failure(path, "name"@, result.name),
        )
    }
}

/// Whether both values are there and differ.
pub open spec fn conflict(actual: Option<Seq<char>>, expected: Option<Seq<char>>) -> bool {
    actual is Some && expected is Some && actual != expected
}

/// The failure of a result that does not match its call.
pub open spec fn match_failure(
    result: ToolResultPartView,
    call: ToolCallView,
    path: Seq<char>,
) -> Option<ErrorView> {
    if conflict(result.name, Some(call.name)) {
        Some(invalid(path + ".name conflicts with the matching tool call"@))
    } else if conflict(result.item_id, call.item_id) {
        Some(invalid(path + ".item_id conflicts with the matching tool call"@))
    } else {
        None
    }
}

impl History {
    /// The history after a tool call.
    pub open spec fn call(self, call: ToolCallView, path: Seq<char>) -> Result<
        History,
        ErrorView,
    > {
        match call_failure(call, path) {
            Some(e) => Err(e),
            None => if self.unresolved.contains_key(call.call_id) {
                Err(
                    invalid(
                        path + ".call_id `"@ + call.call_id
                            + "` duplicates an unresolved tool call"@,
                    ),
                )
            } else {
                Ok(
                    History {
                        unresolved: self.unresolved.insert(call.call_id, call),
                        resolved: self.resolved.remove(call.call_id),
                    },
                )
            },
        }
    }

    /// The history after a tool result.
    pub open spec fn result(self, result: ToolResultPartView, path: Seq<char>) -> Result<
        History,
        ErrorView,
    > {
        match result_failure(result, path) {
            Some(e) => Err(e),
            None => if self.unresolved.contains_key(result.call_id) {
                match match_failure(result, self.unresolved[result.call_id], path) {
                    Some(e) => Err(e),
                    None => Ok(
                        History {
                            unresolved: self.unresolved.remove(result.call_id),
                            resolved: self.resolved.insert(result.call_id),
                        },
                    ),
                }
            } else if self.resolved.contains(result.call_id) {
                Err(
                    invalid(
                        path + ".call_id `"@ + result.call_id + "` has more than one result"@,
                    ),
                )
            } else {
                Ok(self)
            },
        }
    }

    /// The history after the first `n` parts of an assistant message.
    pub open spec fn calls_upto(
        self,
        content: Seq<AssistantPartView>,
        message: int,
        n: int,
    ) -> Result<History, ErrorView>
        decreases n,
    {
        if n <= 0 {
            Ok(self)
        } else {
            match self.calls_upto(content, message, n - 1) {
                Ok(h) => match content[n - 1] {
                    AssistantPartView::ToolCall(call) => h.call(call, path_of(message, n - 1)),
                    _ => Ok(h),
                },
                Err(e) => Err(e),
            }
        }
    }

    /// The history after the first `n` results of a tool message.
    pub open spec fn results_upto(
        self,
        content: Seq<ToolResultPartView>,
        message: int,
        n: int,
    ) -> Result<History, ErrorView>
        decreases n,
    {
        if n <= 0 {
            Ok(self)
        } else {
            match self.results_upto(content, message, n - 1) {
                Ok(h) => h.result(content[n - 1], path_of(message, n - 1)),
                Err(e) => Err(e),
            }
        }
    }

    /// The history after a message.
    pub open spec fn message(self, message: MessageView, index: int) -> Result<
        History,
        ErrorView,
    > {
        match message {
            MessageView::Assistant { content, .. } => self.calls_upto(
                content,
                index,
                content.len() as int,
            ),
            MessageView::Tool { content } => self.results_upto(content, index, content.len() as int),
            MessageView::User { .. } => Ok(self),
        }
    }
}

/// The history after the first `n` messages.
pub open spec fn history(messages: Seq<MessageView>, n: int) -> Result<History, ErrorView>
    decreases n,
{
    if n <= 0 {
        Ok(no_history())
    } else {
        match history(messages, n - 1) {
            Ok(h) => h.message(messages[n - 1], n - 1),
            Err(e) => Err(e),
        }
    }
}

/// The failure of the message history.
pub open spec fn history_failure(messages: Seq<MessageView>) -> Option<ErrorView> {
    match history(messages, messages.len() as int) {
        Ok(_) => None,
        Err(e) => Some(e),
    }
}

/// Whether a list holds the ids of a set, each once.
spec fn ids_hold(ids: Seq<&str>, set: Set<Seq<char>>) -> bool {
    &&& forall|i: int| 0 <= i < ids.len() ==> set.contains((#[trigger] ids[i])@)
    &&& forall|i: int, j: int|
        0 <= i < j < ids.len() ==> (#[trigger] ids[i])@ != (#[trigger] ids[j])@
    &&& forall|k: Seq<char>| #[trigger]
        set.contains(k) ==> exists|i: int| 0 <= i < ids.len() && (#[trigger] ids[i])@ == k
}

/// The open calls and the ids of the answered ones, as lists.
struct Calls<'a> {
    unresolved: Vec<&'a ToolCall>,
    resolved: Vec<&'a str>,
}

impl<'a> Calls<'a> {
    /// Whether the lists hold a history.
    spec fn holds(self, h: History) -> bool {
        &&& forall|i: int|
            0 <= i < self.unresolved@.len() ==> h.unresolved.contains_key(
                (#[trigger] self.unresolved@[i]).call_id@,
            ) && h.unresolved[self.unresolved@[i].call_id@] == self.unresolved@[i]@
        &&& forall|i: int, j: int|
            0 <= i < j < self.unresolved@.len() ==> (#[trigger] self.unresolved@[i]).call_id@ != (
            #[trigger] self.unresolved@[j]).call_id@
        &&& forall|k: Seq<char>|
            #[trigger] h.unresolved.contains_key(k) ==> exists|i: int|
                0 <= i < self.unresolved@.len() && (#[trigger] self.unresolved@[i]).call_id@ == k
        &&& ids_hold(self.resolved@, h.resolved)
    }
}

/// Where a call without a result stands in the list.
fn find_call(calls: &Vec<&ToolCall>, id: &str) -> (r: Option<usize>)
    ensures
        match r {
            Some(i) => i < calls@.len() && calls@[i as int].call_id@ == id@,
            None => forall|i: int|
                0 <= i < calls@.len() ==> (#[trigger] calls@[i]).call_id@ != id@,
        },
{
    let mut i: usize = 0;
    while i < calls.len()
        invariant
            i <= calls@.len(),
            forall|k: int| 0 <= k < i ==> (#[trigger] calls@[k]).call_id@ != id@,
        decreases calls@.len() - i,
    {
        if same(calls[i].call_id.as_str(), id) {
            return Some(i);
        }
        i += 1;
    }
    None
}

/// Where an id stands in a list of ids.
fn find_id(ids: &Vec<&str>, id: &str) -> (r: Option<usize>)
    ensures
        match r {
            Some(i) => i < ids@.len() && ids@[i as int]@ == id@,
            None => forall|i: int| 0 <= i < ids@.len() ==> (#[trigger] ids@[i])@ != id@,
        },
{
    let mut i: usize = 0;
    while i < ids.len()
        invariant
            i <= ids@.len(),
            forall|k: int| 0 <= k < i ==> (#[trigger] ids@[k])@ != id@,
        decreases ids@.len() - i,
    {
        if same(ids[i], id) {
            return Some(i);
        }
        i += 1;
    }
    None
}

fn forget(ids: &mut Vec<&str>, id: &str, Ghost(set): Ghost<Set<Seq<char>>>)
    requires
        ids_hold(old(ids)@, set),
    ensures
        ids_hold(final(ids)@, set.remove(id@)),
{
    let ghost before = ids@;
    if let Some(i) = find_id(ids, id) {
        ids.remove(i);
        proof {
            let n = i as int;
            assert forall|k: Seq<char>| #[trigger] set.remove(id@).contains(k) implies exists|
                j: int,
            | 0 <= j < ids@.len() && (#[trigger] ids@[j])@ == k by {
                let j = choose|j: int| 0 <= j < before.len() && (#[trigger] before[j])@ == k;
                if j < n {
                    assert(ids@[j]@ == k);
                } else {
                    assert(ids@[j - 1]@ == k);
                }
            }
            assert forall|j: int| 0 <= j < ids@.len() implies set.remove(id@).contains(
                (#[trigger] ids@[j])@,
            ) by {
                if j < n {
                    assert(before[j]@ != before[n]@);
                } else {
                    assert(before[n]@ != before[j + 1]@);
                }
            }
        }
    } else {
        assert(set.remove(id@) =~= set);
    }
}

fn remember<'a>(ids: &mut Vec<&'a str>, id: &'a str, Ghost(set): Ghost<Set<Seq<char>>>)
    requires
        ids_hold(old(ids)@, set),
    ensures
        ids_hold(final(ids)@, set.insert(id@)),
{
    let ghost before = ids@;
    if find_id(ids, id).is_none() {
        ids.push(id);
        proof {
            assert forall|k: Seq<char>| #[trigger] set.insert(id@).contains(k) implies exists|
                j: int,
            | 0 <= j < ids@.len() && (#[trigger] ids@[j])@ == k by {
                if k == id@ {
                    assert(ids@[before.len() as int]@ == k);
                } else {
                    let j = choose|j: int| 0 <= j < before.len() && (#[trigger] before[j])@ == k;
                    assert(ids@[j]@ == k);
                }
            }
        }
    } else {
        assert(set.insert(id@) =~= set);
    }
}

fn path_text(message: usize, part: usize) -> (r: String)
    ensures
        r@ == path_of(message as int, part as int),
{
    let head: String = cat3("messages[", decimal_text(message as u64).as_str(), "].content[");
    cat3(head.as_str(), decimal_text(part as u64).as_str(), "]")
}

fn invalid_at(path: &str, what: &str) -> (r: Error)
    ensures
        r@ == invalid(path@ + what@),
{
    Error::invalid_request(cat(path, what).as_str())
}

fn validate_blank(path: &str, name: &str, value: &Option<String>) -> (r: Result<(), Error>)
    ensures
        failure(r) == blank_failure(path@, name@, opt(*value)),
{
    match value {
        Some(text) => if blank(text.as_str()) {
            let message: String = cat(
                cat3(path, ".", name).as_str(),
                " must not be blank when present",
            );
            Err(Error::invalid_request(message.as_str()))
        } else {
            Ok(())
        },
        None => Ok(()),
    }
}

fn validate_tool_call(call: &ToolCall, path: &str) -> (r: Result<(), Error>)
    ensures
        failure(r) == call_failure(call@, path@),
{
    if blank(call.call_id.as_str()) {
        return Err(invalid_at(path, ".call_id must not be blank"));
    }
    if blank(call.name.as_str()) {
        return Err(invalid_at(path, ".name must not be blank"));
    }
    if let Err(e) = validate_blank(path, "item_id", &call.item_id) {
        return Err(e);
    }
    match call.arguments_value() {
        Ok(Json::Object(_)) => Ok(()),
        Ok(_) => Err(invalid_at(path, ".arguments must be a JSON object")),
        Err(source) => {
            let message: String = cat3(
                path,
                ".arguments must contain valid JSON: ",
                source.as_str(),
            );
            Err(Error::invalid_request(message.as_str()).with_source(source.as_str()))
        },
    }
}

fn validate_tool_result(result: &ToolResultPart, path: &str) -> (r: Result<(), Error>)
    ensures
        failure(r) == result_failure(result@, path@),
{
    if blank(result.call_id.as_str()) {
        return Err(invalid_at(path, ".call_id must not be blank"));
    }
    if let Err(e) = validate_blank(path, "item_id", &result.item_id) {
        return Err(e);
    }
    validate_blank(path, "name", &result.name)
}

fn conflicting(actual: &Option<String>, expected: Option<&str>) -> (r: bool)
    ensures
        r == conflict(opt(*actual), opt(expected)),
{
    match (actual, expected) {
        (Some(actual), Some(expected)) => !same(actual.as_str(), expected),
        _ => false,
    }
}

fn validate_matching_identity(result: &ToolResultPart, call: &ToolCall, path: &str) -> (r: Result<
    (),
    Error,
>)
    ensures
        failure(r) == match_failure(result@, call@, path@),
{
    if conflicting(&result.name, Some(call.name.as_str())) {
        return Err(invalid_at(path, ".name conflicts with the matching tool call"));
    }
    if conflicting(&result.item_id, crate::error::as_deref(&call.item_id)) {
        return Err(invalid_at(path, ".item_id conflicts with the matching tool call"));
    }
    Ok(())
}

/// A step of a history: the history after it, or its failure.
spec fn stepped(r: Result<(), Error>, calls: Calls, next: Result<History, ErrorView>) -> bool {
    match r {
        Ok(_) => next is Ok && calls.holds(next->Ok_0),
        Err(e) => next == Err::<History, ErrorView>(e@),
    }
}

impl<'a> Calls<'a> {
    fn call(&mut self, call: &'a ToolCall, path: &str, Ghost(h): Ghost<History>) -> (r: Result<
        (),
        Error,
    >)
        requires
            old(self).holds(h),
        ensures
            stepped(r, *final(self), h.call(call@, path@)),
    {
        if let Err(e) = validate_tool_call(call, path) {
            return Err(e);
        }
        if find_call(&self.unresolved, call.call_id.as_str()).is_some() {
            let message: String = cat3(
                cat(path, ".call_id `").as_str(),
                call.call_id.as_str(),
                "` duplicates an unresolved tool call",
            );
            return Err(Error::invalid_request(message.as_str()));
        }
        let ghost before = *self;
        forget(&mut self.resolved, call.call_id.as_str(), Ghost(h.resolved));
        self.unresolved.push(call);
        proof {
            let next = h.call(call@, path@)->Ok_0;
            assert forall|k: Seq<char>| #[trigger] next.unresolved.contains_key(k) implies exists|
                i: int,
            |
                0 <= i < self.unresolved@.len() && (#[trigger] self.unresolved@[i]).call_id@
                    == k by {
                if k == call.call_id@ {
                    assert(self.unresolved@[before.unresolved@.len() as int].call_id@ == k);
                } else {
                    let j = choose|j: int|
                        0 <= j < before.unresolved@.len() && (
                        #[trigger] before.unresolved@[j]).call_id@ == k;
                    assert(self.unresolved@[j].call_id@ == k);
                }
            }
        }
        Ok(())
    }

    fn result(&mut self, result: &'a ToolResultPart, path: &str, Ghost(h): Ghost<History>) -> (r:
        Result<(), Error>)
        requires
            old(self).holds(h),
        ensures
            stepped(r, *final(self), h.result(result@, path@)),
    {
        if let Err(e) = validate_tool_result(result, path) {
            return Err(e);
        }
        let ghost before = *self;
        match find_call(&self.unresolved, result.call_id.as_str()) {
            Some(i) => {
                let call: &'a ToolCall = self.unresolved.remove(i);
                if let Err(e) = validate_matching_identity(result, call, path) {
                    return Err(e);
                }
                remember(&mut self.resolved, result.call_id.as_str(), Ghost(h.resolved));
                proof {
                    let next = h.result(result@, path@)->Ok_0;
                    assert forall|k: Seq<char>| #[trigger]
                        next.unresolved.contains_key(k) implies exists|j: int|
                        0 <= j < self.unresolved@.len() && (#[trigger] self.unresolved@[j]).call_id@
                            == k by {
                        let j = choose|j: int|
                            0 <= j < before.unresolved@.len() && (
                            #[trigger] before.unresolved@[j]).call_id@ == k;
                        if j < i {
                            assert(self.unresolved@[j].call_id@ == k);
                        } else {
                            assert(self.unresolved@[j - 1].call_id@ == k);
                        }
                    }
                }
                Ok(())
            },
            None => {
                if find_id(&self.resolved, result.call_id.as_str()).is_some() {
                    let message: String = cat3(
                        cat(path, ".call_id `").as_str(),
                        result.call_id.as_str(),
                        "` has more than one result",
                    );
                    return Err(Error::invalid_request(message.as_str()));
                }
                Ok(())
            },
        }
    }

    fn message(&mut self, message: &'a Message, index: usize, Ghost(h): Ghost<History>) -> (r:
        Result<(), Error>)
        requires
            old(self).holds(h),
        ensures
            stepped(r, *final(self), h.message(message@, index as int)),
    {
        match message {
            Message::Assistant { content, .. } => {
                let ghost all = views(content@);
                let ghost mut now = h;
                let mut i: usize = 0;
                while i < content.len()
                    invariant
                        i <= content@.len(),
                        all == views(content@),
                        self.holds(now),
                        h.calls_upto(all, index as int, i as int) == Ok::<History, ErrorView>(now),
                        message@ matches MessageView::Assistant { content, .. } && content == all,
                    decreases content@.len() - i,
                {
                    assert(content@[i as int]@ == all[i as int]);
                    if let AssistantPart::ToolCall(call) = &content[i] {
                        let path: String = path_text(index, i);
                        if let Err(e) = self.call(call, path.as_str(), Ghost(now)) {
                            proof {
                                lemma_calls_failure(h, all, index as int, i + 1);
                            }
                            return Err(e);
                        }
                        proof {
                            now = now.call(call@, path@)->Ok_0;
                        }
                    }
                    i += 1;
                }
                Ok(())
            },
            Message::Tool { content } => {
                let ghost all = views(content@);
                let ghost mut now = h;
                let mut i: usize = 0;
                while i < content.len()
                    invariant
                        i <= content@.len(),
                        all == views(content@),
                        self.holds(now),
                        h.results_upto(all, index as int, i as int) == Ok::<History, ErrorView>(
                            now,
                        ),
                        message@ matches MessageView::Tool { content } && content == all,
                    decreases content@.len() - i,
                {
                    assert(content@[i as int]@ == all[i as int]);
                    let path: String = path_text(index, i);
                    if let Err(e) = self.result(&content[i], path.as_str(), Ghost(now)) {
                        proof {
                            lemma_results_failure(h, all, index as int, i + 1);
                        }
                        return Err(e);
                    }
                    proof {
                        now = now.result(all[i as int], path@)->Ok_0;
                    }
                    i += 1;
                }
                Ok(())
            },
            Message::User { .. } => Ok(()),
        }
    }
}

proof fn lemma_calls_failure(h: History, content: Seq<AssistantPartView>, message: int, i: int)
    requires
        0 <= i <= content.len(),
        h.calls_upto(content, message, i) is Err,
    ensures
        h.calls_upto(content, message, content.len() as int) == h.calls_upto(content, message, i),
    decreases content.len() - i,
{
    if i < content.len() {
        lemma_calls_failure(h, content, message, i + 1);
    }
}

proof fn lemma_results_failure(h: History, content: Seq<ToolResultPartView>, message: int, i: int)
    requires
        0 <= i <= content.len(),
        h.results_upto(content, message, i) is Err,
    ensures
        h.results_upto(content, message, content.len() as int) == h.results_upto(
            content,
            message,
            i,
        ),
    decreases content.len() - i,
{
    if i < content.len() {
        lemma_results_failure(h, content, message, i + 1);
    }
}

proof fn lemma_history_failure(messages: Seq<MessageView>, i: int)
    requires
        0 <= i <= messages.len(),
        history(messages, i) is Err,
    ensures
        history(messages, messages.len() as int) == history(messages, i),
    decreases messages.len() - i,
{
    if i < messages.len() {
        lemma_history_failure(messages, i + 1);
    }
}

fn validate_history(request: &Request) -> (r: Result<(), Error>)
    ensures
        failure(r) == history_failure(request@.messages),
{
    let ghost all = request@.messages;
    let mut calls: Calls = Calls { unresolved: Vec::new(), resolved: Vec::new() };
    let ghost mut now = no_history();
    let mut i: usize = 0;
    while i < request.messages.len()
        invariant
            i <= request.messages@.len(),
            all == views(request.messages@),
            calls.holds(now),
            history(all, i as int) == Ok::<History, ErrorView>(now),
        decreases request.messages@.len() - i,
    {
        if let Err(e) = calls.message(&request.messages[i], i, Ghost(now)) {
            proof {
                lemma_history_failure(all, i + 1);
            }
            return Err(e);
        }
        proof {
            now = now.message(all[i as int], i as int)->Ok_0;
        }
        i += 1;
    }
    Ok(())
}

// ---------------------------------------------------------------------------
// The model's capabilities
// ---------------------------------------------------------------------------

/// The refusal of something that the model cannot do.
pub open spec fn incapable(profile: ApiProfile, what: Seq<char>) -> ErrorView {
    new_error(
        ErrorKind::UnsupportedCapability,
        "this model on `"@ + profile.text() + "` does not support "@ + what,
    )
}

/// Whether a part is a compaction that only its provider can read.
pub open spec fn is_opaque_compaction(part: AssistantPartView) -> bool {
    part matches AssistantPartView::Compaction(compaction) && compaction.content is None
}

/// Whether a message holds a compaction that only its provider can read.
pub open spec fn compacted(message: MessageView) -> bool {
    message matches MessageView::Assistant { content, .. } && exists|i: int|
        0 <= i < content.len() && is_opaque_compaction(#[trigger] content[i])
}

/// Whether a request takes a model with native compaction.
pub open spec fn needs_compaction(r: RequestView) -> bool {
    r.compaction is Some || exists|i: int|
        0 <= i < r.messages.len() && compacted(#[trigger] r.messages[i])
}

/// The failure of a request that asks for more than the model can do.
pub open spec fn profile_failure(
    r: RequestView,
    profile: ApiProfile,
    c: CapabilitiesView,
) -> Option<ErrorView> {
    if !c.tools && r.tools.len() > 0 {
        Some(incapable(profile, "tool calls"@))
    } else if !c.structured_output && r.structured_output is Some {
        Some(incapable(profile, "structured output"@))
    } else if needs_compaction(r) && !c.native_compaction {
        Some(incapable(profile, "native compaction"@))
    } else {
        None
    }
}

fn unsupported(profile: ApiProfile, what: &str) -> (r: Error)
    ensures
        r@ == incapable(profile, what@),
{
    let head: String = cat3("this model on `", profile.as_str(), "` does not support ");
    Error::new(ErrorKind::UnsupportedCapability, cat(head.as_str(), what).as_str())
}

fn holds_opaque_compaction(message: &Message) -> (r: bool)
    ensures
        r == compacted(message@),
{
    match message {
        Message::Assistant { content, .. } => {
            let mut i: usize = 0;
            while i < content.len()
                invariant
                    i <= content@.len(),
                    message@ matches MessageView::Assistant { content: all, .. } && all == views(
                        content@,
                    ),
                    forall|k: int|
                        0 <= k < i ==> !is_opaque_compaction(#[trigger] views(content@)[k]),
                decreases content@.len() - i,
            {
                assert(views(content@)[i as int] == content@[i as int]@);
                if let AssistantPart::Compaction(compaction) = &content[i] {
                    if compaction.content.is_none() {
                        assert(is_opaque_compaction(views(content@)[i as int]));
                        return true;
                    }
                }
                i += 1;
            }
            false
        },
        _ => false,
    }
}

fn requires_native_compaction(request: &Request) -> (r: bool)
    ensures
        r == needs_compaction(request@),
{
    if request.compaction.is_some() {
        return true;
    }
    let mut i: usize = 0;
    while i < request.messages.len()
        invariant
            i <= request.messages@.len(),
            request@.compaction is None,
            forall|k: int| 0 <= k < i ==> !compacted(#[trigger] request@.messages[k]),
        decreases request.messages@.len() - i,
    {
        assert(request@.messages[i as int] == request.messages@[i as int]@);
        if holds_opaque_compaction(&request.messages[i]) {
            return true;
        }
        i += 1;
    }
    false
}

/// Reject what the model cannot do at all. Dropping these silently would
/// change the meaning of the request, unlike the sampling settings that
/// restricting the request clears with a warning.
fn validate_profile(
    request: &Request,
    profile: ApiProfile,
    capabilities: &ModelCapabilities,
) -> (r: Result<(), Error>)
    ensures
        failure(r) == profile_failure(request@, profile, capabilities@),
{
    if !capabilities.tools && request.tools.len() > 0 {
        return Err(unsupported(profile, "tool calls"));
    }
    if !capabilities.structured_output && request.structured_output.is_some() {
        return Err(unsupported(profile, "structured output"));
    }
    if requires_native_compaction(request) && !capabilities.native_compaction {
        return Err(unsupported(profile, "native compaction"));
    }
    Ok(())
}

// ---------------------------------------------------------------------------
// The whole
// ---------------------------------------------------------------------------

/// The failure of a request, given the verdict about its provider options.
pub open spec fn request_failure(
    r: RequestView,
    model: Seq<char>,
    profile: ApiProfile,
    c: CapabilitiesView,
    options: Option<ErrorView>,
) -> Option<ErrorView> {
    if is_blank(model) {
        Some(invalid("model identifier must not be blank"@))
    } else if r.messages.len() == 0 {
        Some(invalid("request has no messages"@))
    } else {
        first_of(
            shape_failure(r.messages, r.messages.len() as int),
            first_of(
                number_failure(r),
                first_of(
                    first_of(
                        tools_failure(r.tools, r.tools.len() as int),
                        choice_failure(r, profile),
                    ),
                    first_of(
                        output_failure(r),
                        first_of(
                            options,
                            first_of(
                                history_failure(r.messages),
                                profile_failure(r, profile, c),
                            ),
                        ),
                    ),
                ),
            ),
        )
    }
}

/// A failure with where it came from.
pub open spec fn attributed(
    failure: Option<ErrorView>,
    profile: ApiProfile,
    model: Seq<char>,
) -> Option<ErrorView> {
    match failure {
        Some(e) => Some(e.with_origin(profile.text()).with_model(model)),
        None => None,
    }
}

fn validate_structure(request: &Request, model: &str, profile: ApiProfile) -> (r: Result<(), Error>)
    ensures
        exists|options: Option<ErrorView>| #[trigger]
            options_verdict(request@.provider_options, options) && forall|
                c: CapabilitiesView,
            | #[trigger]
                request_failure(request@, model@, profile, c, options) == first_of(
                failure(r),
                profile_failure(request@, profile, c),
            ),
{
    let options = validate_provider_options(&request.provider_options);
    let ghost verdict = failure(options);
    assert(options_verdict(request@.provider_options, verdict));
    if blank(model) {
        return Err(Error::invalid_request("model identifier must not be blank"));
    }
    if request.messages.len() == 0 {
        return Err(Error::invalid_request("request has no messages"));
    }
    if let Err(e) = validate_message_shapes(request) {
        return Err(e);
    }
    if let Err(e) = validate_numbers(request) {
        return Err(e);
    }
    if let Err(e) = validate_tools(request, profile) {
        return Err(e);
    }
    if let Err(e) = validate_structured_output(request) {
        return Err(e);
    }
    if let Err(e) = options {
        return Err(e);
    }
    validate_history(request)
}

/// Checks a request before anything is sent.
///
/// Of several namespaces of provider options that hold no object, the failure
/// names one.
pub fn validate(
    request: &Request,
    model: &str,
    profile: ApiProfile,
    capabilities: &ModelCapabilities,
) -> (r: Result<(), Error>)
    ensures
        exists|options: Option<ErrorView>| #[trigger]
            options_verdict(request@.provider_options, options) && failure(r) == attributed(
                request_failure(request@, model@, profile, capabilities@, options),
                profile,
                model@,
            ),
{
    let checked = match validate_structure(request, model, profile) {
        Ok(_) => validate_profile(request, profile, capabilities),
        Err(e) => Err(e),
    };
    match checked {
        Ok(_) => Ok(()),
        Err(e) => Err(e.with_origin(profile.as_str()).with_model(model)),
    }
}

/// A call id may be used again once its call has a result, and not before; and
/// a call has at most one result.
pub proof fn ids_can_be_reused_after_resolution(
    h: History,
    call: ToolCallView,
    result: ToolResultPartView,
    path: Seq<char>,
)
    requires
        call_failure(call, path) is None,
        result_failure(result, path) is None,
        match_failure(result, call, path) is None,
        result.call_id == call.call_id,
        !h.unresolved.contains_key(call.call_id),
    ensures
        h.call(call, path) is Ok,
        h.call(call, path)->Ok_0.call(call, path) is Err,
        h.call(call, path)->Ok_0.result(result, path) is Ok,
        h.call(call, path)->Ok_0.result(result, path)->Ok_0.result(result, path) is Err,
        h.call(call, path)->Ok_0.result(result, path)->Ok_0.call(call, path) is Ok,
{
}

/// A result whose call is not in the history is accepted, and changes nothing.
pub proof fn results_without_a_call_are_accepted(
    h: History,
    result: ToolResultPartView,
    path: Seq<char>,
)
    requires
        result_failure(result, path) is None,
        !h.unresolved.contains_key(result.call_id),
        !h.resolved.contains(result.call_id),
    ensures
        h.result(result, path) == Ok::<History, ErrorView>(h),
{
}

/// What an accepted request is made of: a model, messages, tool results where
/// they belong, finite numbers, tools with distinct names and schemas, and
/// options that are objects. Nothing in it asks for more than the model can do.
pub proof fn accepted_requests_are_well_formed(
    r: RequestView,
    model: Seq<char>,
    profile: ApiProfile,
    c: CapabilitiesView,
)
    requires
        request_failure(r, model, profile, c, None) is None,
        options_verdict(r.provider_options, None),
    ensures
        !is_blank(model),
        r.messages.len() > 0,
        forall|i: int| 0 <= i < r.messages.len() ==> !lacks_results(#[trigger] r.messages[i]),
        r.temperature != Some(RealView::NonFinite),
        r.top_p != Some(RealView::NonFinite),
        r.presence_penalty != Some(RealView::NonFinite),
        r.frequency_penalty != Some(RealView::NonFinite),
        r.max_output_tokens != Some(0u32),
        r.top_k != Some(0u32),
        forall|i: int|
            0 <= i < r.tools.len() ==> !is_blank((#[trigger] r.tools[i]).name) && is_schema(
                r.tools[i].parameters,
            ),
        forall|i: int, j: int|
            0 <= i < j < r.tools.len() ==> (#[trigger] r.tools[i]).name != (
            #[trigger] r.tools[j]).name,
        r.structured_output matches Some(output) ==> is_schema(output.schema),
        forall|n: Seq<char>|
            r.provider_options.contains_key(n) ==> #[trigger] r.provider_options[n] is Object,
        !c.tools ==> r.tools.len() == 0,
        !c.structured_output ==> r.structured_output is None,
        !c.native_compaction ==> !needs_compaction(r),
{
    assert forall|i: int| 0 <= i < r.messages.len() implies !lacks_results(
        #[trigger] r.messages[i],
    ) by {
        if lacks_results(r.messages[i]) {
            lemma_shape_failure(r.messages, i + 1);
        }
    }
    assert forall|i: int| 0 <= i < r.tools.len() implies #[trigger] tool_failure(r.tools, i)
        is None by {
        if tool_failure(r.tools, i) is Some {
            if tools_failure(r.tools, i) is Some {
                lemma_tools_failure(r.tools, i);
            }
            lemma_tools_failure(r.tools, i + 1);
        }
    }
    assert forall|i: int| 0 <= i < r.tools.len() implies !is_blank((#[trigger] r.tools[i]).name)
        && is_schema(r.tools[i].parameters) by {
        assert(tool_failure(r.tools, i) is None);
    }
    assert forall|i: int, j: int| 0 <= i < j < r.tools.len() implies (#[trigger] r.tools[i]).name
        != (#[trigger] r.tools[j]).name by {
        assert(tool_failure(r.tools, j) is None);
        assert(!declared(r.tools, r.tools[j].name, j));
    }
    assert forall|n: Seq<char>| r.provider_options.contains_key(n) implies #[trigger]
        r.provider_options[n] is Object by {
        assert(!bad_option(r.provider_options, n));
    }
}

} // verus!
