//! The common request model and its builder.
use vstd::prelude::*;

use crate::headers::{
    clone_headers, has_slot, headers_view, insert_value, name_text, new_headers, no_headers,
    value_bytes, HeadersView,
};
use crate::json::{Float, Json, JsonNumber, JsonView, NumberView};
use crate::message::{Message, MessageView};
use crate::metadata::{no_metadata, MetadataView, ProviderMetadata};
use crate::model::{opt, views};
use crate::text::{blank, is_blank};
use crate::util::merge_objects;

verus! {

broadcast use crate::model::group_views;

/// A sampling setting: a finite number, or a value that is none.
#[derive(Debug, PartialEq)]
pub enum Real {
    Finite(Float),
    NonFinite,
}

/// What a sampling setting is: a finite number in its shortest decimal
/// notation, or a value that is none.
#[verifier::ext_equal]
pub enum RealView {
    Finite(Seq<char>),
    NonFinite,
}

impl View for Real {
    type V = RealView;

    open spec fn view(&self) -> RealView {
        match *self {
            Real::Finite(f) => RealView::Finite(f@),
            Real::NonFinite => RealView::NonFinite,
        }
    }
}

/// A sampling setting as JSON, which has no notation for other values.
pub open spec fn real_json(v: RealView) -> JsonView {
    match v {
        RealView::Finite(text) => JsonView::Number(NumberView::F(text)),
        RealView::NonFinite => JsonView::Null,
    }
}

impl Real {
    /// The setting as JSON.
    pub fn to_json(&self) -> (r: Json)
        ensures
            r@ == real_json(self@),
    {
        match self {
            Real::Finite(f) => Json::Number(JsonNumber::F(f.clone())),
            Real::NonFinite => Json::Null,
        }
    }
}

impl Clone for Real {
    fn clone(&self) -> (r: Real)
        ensures
            r@ == self@,
    {
        match self {
            Real::Finite(f) => Real::Finite(f.clone()),
            Real::NonFinite => Real::NonFinite,
        }
    }
}

/// A number of tokens that is not zero.
#[derive(Debug, Clone, Copy, PartialEq, Eq, Structural)]
pub struct TokenCount {
    tokens: u32,
}

impl TokenCount {
    #[verifier::type_invariant]
    spec fn not_zero(self) -> bool {
        self.tokens > 0
    }

    /// The number.
    pub closed spec fn value(self) -> u32 {
        self.tokens
    }

    /// A number of tokens, if it is not zero.
    pub fn new(tokens: u32) -> (r: Option<TokenCount>)
        ensures
            match r {
                Some(count) => count.value() == tokens && tokens > 0,
                None => tokens == 0,
            },
    {
        if tokens == 0 {
            None
        } else {
            Some(TokenCount { tokens })
        }
    }

    /// The number.
    pub fn get(self) -> (r: u32)
        ensures
            r == self.value(),
            r > 0,
    {
        proof {
            use_type_invariant(&self);
        }
        self.tokens
    }
}

/// A protocol-independent language-model request.
///
/// Unset optional fields are not sent. A setting that a profile can safely
/// omit produces a structured warning, while content or operations that cannot
/// be represented return an error. Model-specific support remains the
/// provider's authority, and this crate does not infer or coerce settings from
/// model identifiers.
///
/// There is no `Debug`, because callers may put credentials into
/// [`Request::extra_headers`].
#[derive(PartialEq)]
pub struct Request {
    /// System or developer instructions kept outside message history.
    pub system: Option<String>,
    /// Conversation messages.
    pub messages: Vec<Message>,
    /// Tools the model may call.
    pub tools: Vec<ToolDefinition>,
    pub tool_choice: Option<ToolChoice>,
    /// Whether the model may issue several tool calls in one turn.
    pub parallel_tool_calls: Option<bool>,
    /// Reasoning/thinking configuration. `None` uses the provider default.
    pub reasoning: Option<ReasoningConfig>,
    /// JSON-schema constrained output.
    pub structured_output: Option<StructuredOutput>,
    /// Opt-in native context compaction (OpenAI Responses / Anthropic).
    pub compaction: Option<Compaction>,
    pub max_output_tokens: Option<u32>,
    pub temperature: Option<Real>,
    pub top_p: Option<Real>,
    pub top_k: Option<u32>,
    pub stop_sequences: Vec<String>,
    pub presence_penalty: Option<Real>,
    pub frequency_penalty: Option<Real>,
    pub seed: Option<u64>,
    /// Provider-specific request parameters merged according to
    /// [`ProviderMetadata::merge`].
    pub provider_options: ProviderMetadata,
    /// Extra HTTP headers for this request.
    pub extra_headers: http::HeaderMap<http::HeaderValue>,
    /// When streaming, also emit raw events carrying unrecognized provider
    /// payloads.
    pub include_raw_events: bool,
}

#[verifier::ext_equal]
pub struct RequestView {
    pub system: Option<Seq<char>>,
    pub messages: Seq<MessageView>,
    pub tools: Seq<ToolDefinitionView>,
    pub tool_choice: Option<ToolChoiceView>,
    pub parallel_tool_calls: Option<bool>,
    pub reasoning: Option<ReasoningConfig>,
    pub structured_output: Option<StructuredOutputView>,
    pub compaction: Option<CompactionView>,
    pub max_output_tokens: Option<u32>,
    pub temperature: Option<RealView>,
    pub top_p: Option<RealView>,
    pub top_k: Option<u32>,
    pub stop_sequences: Seq<Seq<char>>,
    pub presence_penalty: Option<RealView>,
    pub frequency_penalty: Option<RealView>,
    pub seed: Option<u64>,
    pub provider_options: MetadataView,
    pub extra_headers: HeadersView,
    pub include_raw_events: bool,
}

impl View for Request {
    type V = RequestView;

    open spec fn view(&self) -> RequestView {
        RequestView {
            system: opt(self.system),
            messages: views(self.messages@),
            tools: views(self.tools@),
            tool_choice: opt(self.tool_choice),
            parallel_tool_calls: self.parallel_tool_calls,
            reasoning: self.reasoning,
            structured_output: opt(self.structured_output),
            compaction: opt(self.compaction),
            max_output_tokens: self.max_output_tokens,
            temperature: opt(self.temperature),
            top_p: opt(self.top_p),
            top_k: self.top_k,
            stop_sequences: views(self.stop_sequences@),
            presence_penalty: opt(self.presence_penalty),
            frequency_penalty: opt(self.frequency_penalty),
            seed: self.seed,
            provider_options: self.provider_options@,
            extra_headers: headers_view(self.extra_headers),
            include_raw_events: self.include_raw_events,
        }
    }
}

/// A request without any message or setting.
pub open spec fn empty_request() -> RequestView {
    RequestView {
        system: None,
        messages: Seq::empty(),
        tools: Seq::empty(),
        tool_choice: None,
        parallel_tool_calls: None,
        reasoning: None,
        structured_output: None,
        compaction: None,
        max_output_tokens: None,
        temperature: None,
        top_p: None,
        top_k: None,
        stop_sequences: Seq::empty(),
        presence_penalty: None,
        frequency_penalty: None,
        seed: None,
        provider_options: no_metadata(),
        extra_headers: no_headers(),
        include_raw_events: false,
    }
}

impl RequestView {
    /// The system prompt, where it is set and not blank.
    pub open spec fn system_prompt(self) -> Option<Seq<char>> {
        match self.system {
            Some(text) => if is_blank(text) {
                None
            } else {
                Some(text)
            },
            None => None,
        }
    }
}

impl Request {
    pub fn builder() -> (r: RequestBuilder)
        ensures
            r@ == empty_request(),
    {
        RequestBuilder { request: Request::default() }
    }

    /// The system prompt, or `None` when unset or blank.
    pub fn system_prompt(&self) -> (r: Option<&str>)
        ensures
            opt(r) == self@.system_prompt(),
    {
        match &self.system {
            Some(text) => if blank(text.as_str()) {
                None
            } else {
                Some(text.as_str())
            },
            None => None,
        }
    }
}

impl Default for Request {
    fn default() -> (r: Request)
        ensures
            r@ == empty_request(),
    {
        Request {
            system: None,
            messages: Vec::new(),
            tools: Vec::new(),
            tool_choice: None,
            parallel_tool_calls: None,
            reasoning: None,
            structured_output: None,
            compaction: None,
            max_output_tokens: None,
            temperature: None,
            top_p: None,
            top_k: None,
            stop_sequences: Vec::new(),
            presence_penalty: None,
            frequency_penalty: None,
            seed: None,
            provider_options: ProviderMetadata::new(),
            extra_headers: new_headers(),
            include_raw_events: false,
        }
    }
}

impl Clone for Request {
    fn clone(&self) -> (r: Request)
        ensures
            r@ == self@,
    {
        let r = Request {
            system: self.system.clone(),
            messages: self.messages.clone(),
            tools: self.tools.clone(),
            tool_choice: self.tool_choice.clone(),
            parallel_tool_calls: self.parallel_tool_calls,
            reasoning: self.reasoning,
            structured_output: self.structured_output.clone(),
            compaction: self.compaction.clone(),
            max_output_tokens: self.max_output_tokens,
            temperature: self.temperature.clone(),
            top_p: self.top_p.clone(),
            top_k: self.top_k,
            stop_sequences: self.stop_sequences.clone(),
            presence_penalty: self.presence_penalty.clone(),
            frequency_penalty: self.frequency_penalty.clone(),
            seed: self.seed,
            provider_options: self.provider_options.clone(),
            extra_headers: clone_headers(&self.extra_headers),
            include_raw_events: self.include_raw_events,
        };
        assert(views(r.messages@) =~= views(self.messages@));
        assert(views(r.tools@) =~= views(self.tools@));
        assert(views(r.stop_sequences@) =~= views(self.stop_sequences@));
        r
    }
}

/// Builder for [`Request`].
#[must_use]
pub struct RequestBuilder {
    request: Request,
}

impl View for RequestBuilder {
    type V = RequestView;

    closed spec fn view(&self) -> RequestView {
        self.request@
    }
}

impl RequestBuilder {
    pub fn message(self, message: Message) -> (r: RequestBuilder)
        ensures
            r@ == (RequestView { messages: self@.messages.push(message@), ..self@ }),
    {
        let mut r: RequestBuilder = self;
        r.request.messages.push(message);
        r
    }

    pub fn messages(self, messages: Vec<Message>) -> (r: RequestBuilder)
        ensures
            r@ == (RequestView { messages: self@.messages + views(messages@), ..self@ }),
    {
        let mut r: RequestBuilder = self;
        let mut more: Vec<Message> = messages;
        r.request.messages.append(&mut more);
        r
    }

    /// Append system instructions, separating repeated calls with a blank line.
    pub fn system(self, text: &str) -> (r: RequestBuilder)
        ensures
            r@ == (RequestView {
                system: Some(
                    match self@.system {
                        Some(existing) => existing + "\n\n"@ + text@,
                        None => text@,
                    },
                ),
                ..self@
            }),
    {
        let mut r: RequestBuilder = self;
        match &mut r.request.system {
            Some(existing) => {
                existing.append("\n\n");
                existing.append(text);
            },
            slot => *slot = Some(text.to_owned()),
        }
        r
    }

    pub fn tool(self, tool: ToolDefinition) -> (r: RequestBuilder)
        ensures
            r@ == (RequestView { tools: self@.tools.push(tool@), ..self@ }),
    {
        let mut r: RequestBuilder = self;
        r.request.tools.push(tool);
        r
    }

    pub fn tools(self, tools: Vec<ToolDefinition>) -> (r: RequestBuilder)
        ensures
            r@ == (RequestView { tools: self@.tools + views(tools@), ..self@ }),
    {
        let mut r: RequestBuilder = self;
        let mut more: Vec<ToolDefinition> = tools;
        r.request.tools.append(&mut more);
        r
    }

    pub fn tool_choice(self, choice: ToolChoice) -> (r: RequestBuilder)
        ensures
            r@ == (RequestView { tool_choice: Some(choice@), ..self@ }),
    {
        let mut r: RequestBuilder = self;
        r.request.tool_choice = Some(choice);
        r
    }

    pub fn parallel_tool_calls(self, enabled: bool) -> (r: RequestBuilder)
        ensures
            r@ == (RequestView { parallel_tool_calls: Some(enabled), ..self@ }),
    {
        let mut r: RequestBuilder = self;
        r.request.parallel_tool_calls = Some(enabled);
        r
    }

    pub fn reasoning(self, config: ReasoningConfig) -> (r: RequestBuilder)
        ensures
            r@ == (RequestView { reasoning: Some(config), ..self@ }),
    {
        let mut r: RequestBuilder = self;
        r.request.reasoning = Some(config);
        r
    }

    pub fn structured_output(self, output: StructuredOutput) -> (r: RequestBuilder)
        ensures
            r@ == (RequestView { structured_output: Some(output@), ..self@ }),
    {
        let mut r: RequestBuilder = self;
        r.request.structured_output = Some(output);
        r
    }

    pub fn compaction(self, compaction: Compaction) -> (r: RequestBuilder)
        ensures
            r@ == (RequestView { compaction: Some(compaction@), ..self@ }),
    {
        let mut r: RequestBuilder = self;
        r.request.compaction = Some(compaction);
        r
    }

    pub fn max_output_tokens(self, tokens: u32) -> (r: RequestBuilder)
        ensures
            r@ == (RequestView { max_output_tokens: Some(tokens), ..self@ }),
    {
        let mut r: RequestBuilder = self;
        r.request.max_output_tokens = Some(tokens);
        r
    }

    pub fn temperature(self, temperature: Real) -> (r: RequestBuilder)
        ensures
            r@ == (RequestView { temperature: Some(temperature@), ..self@ }),
    {
        let mut r: RequestBuilder = self;
        r.request.temperature = Some(temperature);
        r
    }

    pub fn top_p(self, top_p: Real) -> (r: RequestBuilder)
        ensures
            r@ == (RequestView { top_p: Some(top_p@), ..self@ }),
    {
        let mut r: RequestBuilder = self;
        r.request.top_p = Some(top_p);
        r
    }

    pub fn top_k(self, top_k: u32) -> (r: RequestBuilder)
        ensures
            r@ == (RequestView { top_k: Some(top_k), ..self@ }),
    {
        let mut r: RequestBuilder = self;
        r.request.top_k = Some(top_k);
        r
    }

    pub fn stop_sequence(self, stop: &str) -> (r: RequestBuilder)
        ensures
            r@ == (RequestView { stop_sequences: self@.stop_sequences.push(stop@), ..self@ }),
    {
        let mut r: RequestBuilder = self;
        r.request.stop_sequences.push(stop.to_owned());
        r
    }

    pub fn presence_penalty(self, penalty: Real) -> (r: RequestBuilder)
        ensures
            r@ == (RequestView { presence_penalty: Some(penalty@), ..self@ }),
    {
        let mut r: RequestBuilder = self;
        r.request.presence_penalty = Some(penalty);
        r
    }

    pub fn frequency_penalty(self, penalty: Real) -> (r: RequestBuilder)
        ensures
            r@ == (RequestView { frequency_penalty: Some(penalty@), ..self@ }),
    {
        let mut r: RequestBuilder = self;
        r.request.frequency_penalty = Some(penalty);
        r
    }

    pub fn seed(self, seed: u64) -> (r: RequestBuilder)
        ensures
            r@ == (RequestView { seed: Some(seed), ..self@ }),
    {
        let mut r: RequestBuilder = self;
        r.request.seed = Some(seed);
        r
    }

    /// Add provider-specific parameters under an API-profile namespace.
    ///
    /// Use the namespace of the profile rather than deriving a namespace from
    /// the provider or model name.
    pub fn provider_option(self, namespace: &str, value: Json) -> (r: RequestBuilder)
        ensures
            r@ == (RequestView {
                provider_options: merge_objects(
                    self@.provider_options,
                    no_metadata().insert(namespace@, value@),
                ),
                ..self@
            }),
    {
        let mut r: RequestBuilder = self;
        r.request.provider_options.merge(ProviderMetadata::with(namespace, value));
        r
    }

    pub fn extra_header(self, name: http::HeaderName, value: http::HeaderValue) -> (r:
        RequestBuilder)
        requires
            has_slot(self@.extra_headers),
        ensures
            r@ == (RequestView {
                extra_headers: self@.extra_headers.insert(
                    name_text(name),
                    seq![value_bytes(value)],
                ),
                ..self@
            }),
    {
        let mut r: RequestBuilder = self;
        insert_value(&mut r.request.extra_headers, name, value);
        r
    }

    pub fn include_raw_events(self, include_raw: bool) -> (r: RequestBuilder)
        ensures
            r@ == (RequestView { include_raw_events: include_raw, ..self@ }),
    {
        let mut r: RequestBuilder = self;
        r.request.include_raw_events = include_raw;
        r
    }

    pub fn build(self) -> (r: Request)
        ensures
            r@ == self@,
    {
        self.request
    }
}

/// A tool the model may call.
#[derive(Debug, PartialEq)]
pub struct ToolDefinition {
    pub name: String,
    pub description: Option<String>,
    /// JSON Schema for the arguments object.
    pub parameters: Json,
    /// Request provider-side strict schema validation where supported.
    pub strict: Option<bool>,
}

#[verifier::ext_equal]
pub struct ToolDefinitionView {
    pub name: Seq<char>,
    pub description: Option<Seq<char>>,
    pub parameters: JsonView,
    pub strict: Option<bool>,
}

impl View for ToolDefinition {
    type V = ToolDefinitionView;

    open spec fn view(&self) -> ToolDefinitionView {
        ToolDefinitionView {
            name: self.name@,
            description: opt(self.description),
            parameters: self.parameters@,
            strict: self.strict,
        }
    }
}

impl ToolDefinition {
    pub fn new(name: &str, description: &str, parameters: Json) -> (r: ToolDefinition)
        ensures
            r@ == (ToolDefinitionView {
                name: name@,
                description: Some(description@),
                parameters: parameters@,
                strict: None,
            }),
    {
        ToolDefinition {
            name: name.to_owned(),
            description: Some(description.to_owned()),
            parameters,
            strict: None,
        }
    }
}

impl Clone for ToolDefinition {
    fn clone(&self) -> (r: ToolDefinition)
        ensures
            r@ == self@,
    {
        ToolDefinition {
            name: self.name.clone(),
            description: self.description.clone(),
            parameters: self.parameters.clone(),
            strict: self.strict,
        }
    }
}

/// How the model chooses tools.
#[derive(Debug, PartialEq)]
#[non_exhaustive]
pub enum ToolChoice {
    /// The model decides (provider default).
    Auto,
    /// The model must not call tools.
    Never,
    /// The model must call at least one tool.
    Required,
    /// The model must call this specific tool.
    Tool { name: String },
}

#[verifier::ext_equal]
pub enum ToolChoiceView {
    Auto,
    Never,
    Required,
    Tool { name: Seq<char> },
}

impl View for ToolChoice {
    type V = ToolChoiceView;

    open spec fn view(&self) -> ToolChoiceView {
        match *self {
            ToolChoice::Auto => ToolChoiceView::Auto,
            ToolChoice::Never => ToolChoiceView::Never,
            ToolChoice::Required => ToolChoiceView::Required,
            ToolChoice::Tool { name } => ToolChoiceView::Tool { name: name@ },
        }
    }
}

impl Clone for ToolChoice {
    fn clone(&self) -> (r: ToolChoice)
        ensures
            r@ == self@,
    {
        match self {
            ToolChoice::Auto => ToolChoice::Auto,
            ToolChoice::Never => ToolChoice::Never,
            ToolChoice::Required => ToolChoice::Required,
            ToolChoice::Tool { name } => ToolChoice::Tool { name: name.clone() },
        }
    }
}

/// Exclusive reasoning configuration. Unset preserves the provider default.
#[derive(Debug, Clone, Copy, PartialEq, Eq, Structural)]
#[non_exhaustive]
pub enum ReasoningConfig {
    /// Disable reasoning when the selected model supports an off mode.
    Disabled,
    /// Use the provider's discrete effort control.
    Effort {
        effort: ReasoningEffort,
        /// Override whether visible reasoning appears in the response.
        output: Option<ReasoningOutput>,
    },
    /// Use an exact provider reasoning-token budget.
    Budget {
        tokens: TokenCount,
        /// Override whether visible reasoning appears in the response.
        output: Option<ReasoningOutput>,
    },
}

impl ReasoningConfig {
    /// Request a discrete effort while preserving output visibility defaults.
    pub fn effort(effort: ReasoningEffort) -> (r: ReasoningConfig)
        ensures
            r == (ReasoningConfig::Effort { effort, output: None }),
    {
        ReasoningConfig::Effort { effort, output: None }
    }

    /// Request a token budget while preserving output visibility defaults.
    pub fn budget(tokens: TokenCount) -> (r: ReasoningConfig)
        ensures
            r == (ReasoningConfig::Budget { tokens, output: None }),
    {
        ReasoningConfig::Budget { tokens, output: None }
    }
}

/// Whether enabled reasoning is visible in the response.
#[derive(Debug, Clone, Copy, PartialEq, Eq, Structural)]
#[non_exhaustive]
pub enum ReasoningOutput {
    /// Give provider-generated reasoning or summaries.
    Include,
    /// Omit visible reasoning where the API profile supports it.
    Omit,
}

/// Discrete reasoning effort. [`ReasoningEffort::as_str`] is the wire value.
#[derive(Debug, Clone, Copy, PartialEq, Eq, Hash, Structural)]
#[non_exhaustive]
pub enum ReasoningEffort {
    Minimal,
    Low,
    Medium,
    High,
    XHigh,
    Max,
}

impl ReasoningEffort {
    /// The wire string for this effort level.
    pub open spec fn text(self) -> Seq<char> {
        match self {
            ReasoningEffort::Minimal => "minimal"@,
            ReasoningEffort::Low => "low"@,
            ReasoningEffort::Medium => "medium"@,
            ReasoningEffort::High => "high"@,
            ReasoningEffort::XHigh => "xhigh"@,
            ReasoningEffort::Max => "max"@,
        }
    }

    /// The wire string for this effort level.
    pub fn as_str(self) -> (r: &'static str)
        ensures
            r@ == self.text(),
    {
        match self {
            ReasoningEffort::Minimal => "minimal",
            ReasoningEffort::Low => "low",
            ReasoningEffort::Medium => "medium",
            ReasoningEffort::High => "high",
            ReasoningEffort::XHigh => "xhigh",
            ReasoningEffort::Max => "max",
        }
    }
}

/// JSON-schema constrained output configuration.
#[derive(Debug, PartialEq)]
pub struct StructuredOutput {
    /// Schema name (required by OpenAI protocols).
    pub name: String,
    pub description: Option<String>,
    /// The JSON Schema the output must satisfy.
    pub schema: Json,
    /// Request provider-side strict validation where supported.
    pub strict: bool,
}

#[verifier::ext_equal]
pub struct StructuredOutputView {
    pub name: Seq<char>,
    pub description: Option<Seq<char>>,
    pub schema: JsonView,
    pub strict: bool,
}

impl View for StructuredOutput {
    type V = StructuredOutputView;

    open spec fn view(&self) -> StructuredOutputView {
        StructuredOutputView {
            name: self.name@,
            description: opt(self.description),
            schema: self.schema@,
            strict: self.strict,
        }
    }
}

impl StructuredOutput {
    pub fn new(name: &str, schema: Json) -> (r: StructuredOutput)
        ensures
            r@ == (StructuredOutputView {
                name: name@,
                description: None,
                schema: schema@,
                strict: true,
            }),
    {
        StructuredOutput { name: name.to_owned(), description: None, schema, strict: true }
    }
}

impl Clone for StructuredOutput {
    fn clone(&self) -> (r: StructuredOutput)
        ensures
            r@ == self@,
    {
        StructuredOutput {
            name: self.name.clone(),
            description: self.description.clone(),
            schema: self.schema.clone(),
            strict: self.strict,
        }
    }
}

/// Opt-in native context compaction.
#[derive(Debug, PartialEq, Eq)]
pub struct Compaction {
    /// Input-token threshold that triggers compaction, when the API profile
    /// supports a trigger. `None` uses the provider default.
    pub trigger_input_tokens: Option<u64>,
    /// Stop the turn right after compaction instead of continuing.
    pub pause_after_compaction: Option<bool>,
    /// Custom summarization instructions, replacing the provider default.
    pub instructions: Option<String>,
}

#[verifier::ext_equal]
pub struct CompactionView {
    pub trigger_input_tokens: Option<u64>,
    pub pause_after_compaction: Option<bool>,
    pub instructions: Option<Seq<char>>,
}

impl View for Compaction {
    type V = CompactionView;

    open spec fn view(&self) -> CompactionView {
        CompactionView {
            trigger_input_tokens: self.trigger_input_tokens,
            pause_after_compaction: self.pause_after_compaction,
            instructions: opt(self.instructions),
        }
    }
}

impl Compaction {
    /// Enable compaction with provider defaults.
    pub fn enabled() -> (r: Compaction)
        ensures
            r@ == (CompactionView {
                trigger_input_tokens: None,
                pause_after_compaction: None,
                instructions: None,
            }),
    {
        Compaction {
            trigger_input_tokens: None,
            pause_after_compaction: None,
            instructions: None,
        }
    }
}

impl Clone for Compaction {
    fn clone(&self) -> (r: Compaction)
        ensures
            r@ == self@,
    {
        Compaction {
            trigger_input_tokens: self.trigger_input_tokens,
            pause_after_compaction: self.pause_after_compaction,
            instructions: self.instructions.clone(),
        }
    }
}

/// Repeated system instructions are kept in order, a blank line between them,
/// and other settings do not disturb them.
pub proof fn system_instructions_append(first: Seq<char>, second: Seq<char>)
    ensures
        ({
            let r = RequestView { system: Some(first + "\n\n"@ + second), ..empty_request() };
            !is_blank(first) ==> r.system_prompt() == Some(first + "\n\n"@ + second)
        }),
{
    let both = first + "\n\n"@ + second;
    if is_blank(both) {
        assert forall|i: int| 0 <= i < first.len() implies crate::text::is_white(
            #[trigger] first[i],
        ) by {
            assert(both[i] == first[i]);
        }
    }
}

} // verus!
