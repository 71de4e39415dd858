//! Wire fragments shared by the Chat Completions and Responses formats.
use vstd::prelude::*;

use crate::error::{new_error, Error, ErrorKind, ErrorView};
use crate::headers::{headers_view, HeadersView};
use crate::http_support::{enrich_error_from_headers, enriched, error_kind_for_status, status_kind};
use crate::json::{
    json_parse_bytes, json_text, no_members, text_value, with_member, Json, JsonObject, JsonView,
};
use crate::model::{opt, views};
use crate::protocols::error::{
    content_policy_kind, fallback_message, fallback_provider_error_message, policy_kind,
};
use crate::protocols::ApiProfile;
use crate::request::{
    Request, RequestView, StructuredOutput, StructuredOutputView, ToolChoice, ToolChoiceView,
    ToolDefinition, ToolDefinitionView,
};
use crate::text::{contains, occurs, same};
use crate::wire;
use crate::wire::{text_at, text_ok, value_at};

verus! {

broadcast use crate::model::group_views;

/// How the two formats nest function definitions and forced tool choices.
#[derive(Debug, Clone, Copy, PartialEq, Eq, Structural)]
pub enum ToolShape {
    /// Chat Completions wraps functions in `{"type": "function", "function": {..}}`.
    Nested,
    /// Responses puts the function fields on the tool object itself.
    Flat,
}

/// The definition of a function.
pub open spec fn function_members(tool: ToolDefinitionView) -> Map<Seq<char>, JsonView> {
    with_member(
        with_member(
            no_members().insert("name"@, JsonView::String(tool.name)).insert(
                "parameters"@,
                tool.parameters,
            ),
            "description"@,
            text_value(tool.description),
        ),
        "strict"@,
        match tool.strict {
            Some(strict) => Some(JsonView::Bool(strict)),
            None => None,
        },
    )
}

/// A tool on the wire.
pub open spec fn tool_json(tool: ToolDefinitionView, shape: ToolShape) -> JsonView {
    let function = function_members(tool);
    match shape {
        ToolShape::Nested => JsonView::Object(
            no_members().insert("type"@, JsonView::String("function"@)).insert(
                "function"@,
                JsonView::Object(function),
            ),
        ),
        ToolShape::Flat => JsonView::Object(
            function.insert("type"@, JsonView::String("function"@)),
        ),
    }
}

fn function_tool(tool: &ToolDefinition, shape: ToolShape) -> (r: Json)
    ensures
        r@ == tool_json(tool@, shape),
{
    let strict: Option<Json> = match tool.strict {
        Some(strict) => Some(Json::Bool(strict)),
        None => None,
    };
    let function: JsonObject = JsonObject::new().put("name", Json::text(tool.name.as_str())).put(
        "parameters",
        tool.parameters.clone(),
    ).put_opt(
        "description",
        Json::text_opt(crate::error::as_deref(&tool.description)),
    ).put_opt("strict", strict);
    match shape {
        ToolShape::Nested => Json::Object(
            JsonObject::new().put("type", Json::text("function")).put(
                "function",
                Json::Object(function),
            ),
        ),
        ToolShape::Flat => Json::Object(function.put("type", Json::text("function"))),
    }
}

/// A tool choice on the wire.
pub open spec fn choice_json(choice: ToolChoiceView, shape: ToolShape) -> JsonView {
    match choice {
        ToolChoiceView::Auto => JsonView::String("auto"@),
        ToolChoiceView::Never => JsonView::String("none"@),
        ToolChoiceView::Required => JsonView::String("required"@),
        ToolChoiceView::Tool { name } => match shape {
            ToolShape::Nested => JsonView::Object(
                no_members().insert("type"@, JsonView::String("function"@)).insert(
                    "function"@,
                    JsonView::Object(no_members().insert("name"@, JsonView::String(name))),
                ),
            ),
            ToolShape::Flat => JsonView::Object(
                no_members().insert("type"@, JsonView::String("function"@)).insert(
                    "name"@,
                    JsonView::String(name),
                ),
            ),
        },
    }
}

fn tool_choice(choice: &ToolChoice, shape: ToolShape) -> (r: Json)
    ensures
        r@ == choice_json(choice@, shape),
{
    match choice {
        ToolChoice::Auto => Json::text("auto"),
        ToolChoice::Never => Json::text("none"),
        ToolChoice::Required => Json::text("required"),
        ToolChoice::Tool { name } => {
            let head: JsonObject = JsonObject::new().put("type", Json::text("function"));
            match shape {
                ToolShape::Nested => Json::Object(
                    head.put(
                        "function",
                        Json::Object(JsonObject::new().put("name", Json::text(name.as_str()))),
                    ),
                ),
                ToolShape::Flat => Json::Object(head.put("name", Json::text(name.as_str()))),
            }
        },
    }
}

/// The tools on the wire.
pub open spec fn tools_json(tools: Seq<ToolDefinitionView>, shape: ToolShape) -> JsonView {
    JsonView::Array(Seq::new(tools.len(), |i: int| tool_json(tools[i], shape)))
}

/// A body with the tools and how to use them, as far as they are set.
pub open spec fn with_tools(
    body: Map<Seq<char>, JsonView>,
    r: RequestView,
    shape: ToolShape,
) -> Map<Seq<char>, JsonView> {
    with_member(
        with_member(
            with_member(
                body,
                "tools"@,
                if r.tools.len() > 0 {
                    Some(tools_json(r.tools, shape))
                } else {
                    None
                },
            ),
            "tool_choice"@,
            match r.tool_choice {
                Some(choice) => Some(choice_json(choice, shape)),
                None => None,
            },
        ),
        "parallel_tool_calls"@,
        match r.parallel_tool_calls {
            Some(parallel) => Some(JsonView::Bool(parallel)),
            None => None,
        },
    )
}

fn function_tools(tools: &Vec<ToolDefinition>, shape: ToolShape) -> (r: Json)
    ensures
        r@ == tools_json(views(tools@), shape),
{
    broadcast use {crate::model::group_views, crate::json::array_view};

    let mut items: Vec<Json> = Vec::new();
    let mut i: usize = 0;
    while i < tools.len()
        invariant
            i <= tools@.len(),
            items@.len() == i,
            forall|k: int|
                0 <= k < i ==> (#[trigger] items@[k])@ == tool_json(views(tools@)[k], shape),
        decreases tools@.len() - i,
    {
        items.push(function_tool(&tools[i], shape));
        i += 1;
    }
    assert(views(items@) =~= Seq::new(
        views(tools@).len(),
        |i: int| tool_json(views(tools@)[i], shape),
    ));
    Json::Array(items)
}

/// Insert `tools`, `tool_choice`, and `parallel_tool_calls` when set.
pub fn insert_tools(request: &Request, object: JsonObject, shape: ToolShape) -> (r: JsonObject)
    ensures
        r@ == with_tools(object@, request@, shape),
{
    let tools: Option<Json> = if request.tools.len() > 0 {
        Some(function_tools(&request.tools, shape))
    } else {
        None
    };
    let choice: Option<Json> = match &request.tool_choice {
        Some(choice) => Some(tool_choice(choice, shape)),
        None => None,
    };
    let parallel: Option<Json> = match request.parallel_tool_calls {
        Some(parallel) => Some(Json::Bool(parallel)),
        None => None,
    };
    object.put_opt("tools", tools).put_opt("tool_choice", choice).put_opt(
        "parallel_tool_calls",
        parallel,
    )
}

/// The `json_schema` structured-output configuration.
pub open spec fn schema_format(output: StructuredOutputView) -> Map<Seq<char>, JsonView> {
    with_member(
        no_members().insert("name"@, JsonView::String(output.name)).insert(
            "schema"@,
            output.schema,
        ).insert("strict"@, JsonView::Bool(output.strict)),
        "description"@,
        text_value(output.description),
    )
}

/// The `json_schema` structured-output configuration shared by both formats.
pub fn json_schema_format(output: &StructuredOutput) -> (r: JsonObject)
    ensures
        r@ == schema_format(output@),
{
    JsonObject::new().put("name", Json::text(output.name.as_str())).put(
        "schema",
        output.schema.clone(),
    ).put("strict", Json::Bool(output.strict)).put_opt(
        "description",
        Json::text_opt(crate::error::as_deref(&output.description)),
    )
}

/// An error code, which may be a text or a number.
pub open spec fn code_text(code: Option<JsonView>) -> Option<Seq<char>> {
    match code {
        Some(JsonView::String(code)) => Some(code),
        Some(JsonView::Number(n)) => Some(json_text(JsonView::Number(n))),
        _ => None,
    }
}

/// An error code, which may be a text or a number.
pub fn code_of(code: Option<&Json>) -> (r: Option<String>)
    ensures
        opt(r) == code_text(opt(code)),
{
    match code {
        Some(value) => match value {
            Json::String(code) => Some(code.clone()),
            Json::Number(_) => Some(value.to_text()),
            _ => None,
        },
        None => None,
    }
}

/// Whether a value can be the `error` of an error envelope.
pub open spec fn is_error_body(v: JsonView) -> bool {
    v is Object && text_ok(v, "message"@) && text_ok(v, "type"@)
}

/// The `error` of an error envelope, null where there is none.
pub open spec fn envelope_error(body: Seq<u8>) -> JsonView {
    match json_parse_bytes(body) {
        Ok(v) => match value_at(v, "error"@) {
            Some(e) => if is_error_body(e) {
                e
            } else {
                JsonView::Null
            },
            None => JsonView::Null,
        },
        Err(_) => JsonView::Null,
    }
}

/// The kind of an error by its status, code and type.
pub open spec fn openai_kind(
    status: u16,
    code: Option<Seq<char>>,
    error_type: Option<Seq<char>>,
) -> ErrorKind {
    policy_kind(
        code,
        if error_type is Some && occurs("authentication"@, error_type->0) {
            ErrorKind::Authentication
        } else if code == Some("insufficient_quota"@) {
            ErrorKind::Permission
        } else if code == Some("context_length_exceeded"@) || code == Some(
            "string_above_max_length"@,
        ) {
            ErrorKind::ContextLength
        } else {
            status_kind(status)
        },
    )
}

/// The error that an answer in the OpenAI format reports.
pub open spec fn openai_error(
    protocol: ApiProfile,
    status: u16,
    headers: HeadersView,
    body: Seq<u8>,
) -> ErrorView {
    let e = envelope_error(body);
    let code = code_text(value_at(e, "code"@));
    let message = match text_at(e, "message"@) {
        Some(message) => message,
        None => fallback_message(protocol, status, body),
    };
    enriched(
        new_error(openai_kind(status, code, text_at(e, "type"@)), message).with_origin(
            protocol.text(),
        ).with_code_opt(code),
        status,
        headers,
    )
}

fn is_code(code: &Option<String>, expected: &str) -> (r: bool)
    ensures
        r == (opt(*code) == Some(expected@)),
{
    match code {
        Some(code) => same(code.as_str(), expected),
        None => false,
    }
}

fn parse_envelope(body: &[u8]) -> (r: Json)
    ensures
        r@ == envelope_error(body@),
{
    match Json::parse_bytes(body) {
        Ok(v) => match wire::value(&v, "error") {
            Some(e) => {
                if matches!(e, Json::Object(_)) && wire::may_be_text(e, "message")
                    && wire::may_be_text(e, "type") {
                    e.clone()
                } else {
                    Json::Null
                }
            },
            None => Json::Null,
        },
        Err(_) => Json::Null,
    }
}

/// Decode an OpenAI-style error envelope shared by Responses and Chat.
pub fn decode_openai_error(
    protocol: ApiProfile,
    status: u16,
    headers: &http::HeaderMap<http::HeaderValue>,
    body: &[u8],
) -> (r: Error)
    ensures
        r@ == openai_error(protocol, status, headers_view(*headers), body@),
{
    let parsed: Json = parse_envelope(body);
    let code: Option<String> = code_of(wire::value(&parsed, "code"));
    let mut kind: ErrorKind = error_kind_for_status(status);
    if is_code(&code, "context_length_exceeded") || is_code(&code, "string_above_max_length") {
        kind = ErrorKind::ContextLength;
    }
    // OpenAI answers exhausted billing with a 429, and retrying cannot help.
    if is_code(&code, "insufficient_quota") {
        kind = ErrorKind::Permission;
    }
    if let Some(error_type) = wire::text(&parsed, "type") {
        if contains(error_type, "authentication") {
            kind = ErrorKind::Authentication;
        }
    }
    kind = content_policy_kind(crate::error::as_deref(&code), kind);
    let message: String = match wire::text(&parsed, "message") {
        Some(message) => message.to_owned(),
        None => fallback_provider_error_message(protocol, status, body),
    };
    let mut error: Error = Error::new(kind, message.as_str()).with_origin(protocol.as_str());
    if let Some(code) = &code {
        error = error.with_code(code.as_str());
    }
    enrich_error_from_headers(error, status, headers)
}

} // verus!
