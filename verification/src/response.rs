//! Generate results, finish reasons, warnings and response metadata.
use vstd::prelude::*;

use crate::json::{json_parse, Json, JsonView};
use crate::message::{
    AssistantPart, AssistantPartView, CompactionPart, CompactionPartView, Message, MessageView,
    ReasoningPart, ReasoningPartView, ToolCall, ToolCallView,
};
use crate::metadata::{MetadataView, ProviderMetadata};
use crate::model::{opt, views};
use crate::usage::Usage;

verus! {

broadcast use crate::model::group_views;

/// Normalized reason a completion stopped.
#[derive(Debug, Clone, Copy, PartialEq, Eq, Hash, Structural)]
#[non_exhaustive]
pub enum FinishReason {
    /// Natural end of turn.
    Stop,
    /// Output token limit or context window reached.
    Length,
    /// The model requested tool calls.
    ToolCalls,
    /// Provider content filter / refusal terminated output.
    ContentFilter,
    /// The provider paused the turn. Resume with the turn appended.
    Paused,
    /// The stream failed before finishing normally.
    Error,
    /// An unrecognized finish reason preserved in [`Finish::raw`].
    Other,
}

impl FinishReason {
    /// Whether this finish discards tool calls.
    pub open spec fn discards(self) -> bool {
        self is Length || self is ContentFilter || self is Error
    }

    /// Whether this finish discards tool calls.
    pub fn discards_tool_calls(self) -> (r: bool)
        ensures
            r == self.discards(),
    {
        matches!(self, FinishReason::Length | FinishReason::ContentFilter | FinishReason::Error)
    }
}

/// Finish reason plus the provider's raw value.
#[derive(Debug, PartialEq, Eq)]
pub struct Finish {
    pub reason: FinishReason,
    /// The provider's untranslated finish/stop reason string.
    pub raw: Option<String>,
}

#[verifier::ext_equal]
pub struct FinishView {
    pub reason: FinishReason,
    pub raw: Option<Seq<char>>,
}

impl View for Finish {
    type V = FinishView;

    open spec fn view(&self) -> FinishView {
        FinishView { reason: self.reason, raw: opt(self.raw) }
    }
}

impl Finish {
    pub fn new(reason: FinishReason) -> (r: Finish)
        ensures
            r@ == (FinishView { reason, raw: None }),
    {
        Finish { reason, raw: None }
    }

    pub fn with_raw(reason: FinishReason, raw: &str) -> (r: Finish)
        ensures
            r@ == (FinishView { reason, raw: Some(raw@) }),
    {
        Finish { reason, raw: Some(raw.to_owned()) }
    }
}

impl Clone for Finish {
    fn clone(&self) -> (r: Finish)
        ensures
            r@ == self@,
    {
        Finish { reason: self.reason, raw: self.raw.clone() }
    }
}

/// Identifying metadata for one provider response.
#[derive(Debug, PartialEq, Eq)]
pub struct ResponseMetadata {
    /// Provider response id (`resp_...`, `msg_...`, `chatcmpl-...`).
    pub id: Option<String>,
    /// The concrete model that served the request, as reported by the provider.
    pub model: Option<String>,
    /// Provider request id from response headers, for support tickets.
    pub request_id: Option<String>,
}

#[verifier::ext_equal]
pub struct ResponseMetadataView {
    pub id: Option<Seq<char>>,
    pub model: Option<Seq<char>>,
    pub request_id: Option<Seq<char>>,
}

impl View for ResponseMetadata {
    type V = ResponseMetadataView;

    open spec fn view(&self) -> ResponseMetadataView {
        ResponseMetadataView {
            id: opt(self.id),
            model: opt(self.model),
            request_id: opt(self.request_id),
        }
    }
}

/// Response metadata of which nothing is known.
pub open spec fn no_response_metadata() -> ResponseMetadataView {
    ResponseMetadataView { id: None, model: None, request_id: None }
}

impl Default for ResponseMetadata {
    fn default() -> (r: ResponseMetadata)
        ensures
            r@ == no_response_metadata(),
    {
        ResponseMetadata { id: None, model: None, request_id: None }
    }
}

impl Clone for ResponseMetadata {
    fn clone(&self) -> (r: ResponseMetadata)
        ensures
            r@ == self@,
    {
        ResponseMetadata {
            id: self.id.clone(),
            model: self.model.clone(),
            request_id: self.request_id.clone(),
        }
    }
}

/// Category of a [`Warning`].
#[derive(Debug, Clone, Copy, PartialEq, Eq, Structural)]
#[non_exhaustive]
pub enum WarningKind {
    /// A request setting the selected API profile cannot express was dropped.
    UnsupportedSetting,
    /// A request setting was replaced by the nearest one that the selected API
    /// profile can express.
    ApproximatedSetting,
    /// Anything else worth surfacing without failing the request.
    Other,
}

/// A structured, non-fatal compatibility warning.
#[derive(Debug, PartialEq, Eq)]
pub struct Warning {
    pub kind: WarningKind,
    /// The setting the warning concerns (e.g. `"temperature"`).
    pub subject: Option<String>,
    pub message: String,
}

#[verifier::ext_equal]
pub struct WarningView {
    pub kind: WarningKind,
    pub subject: Option<Seq<char>>,
    pub message: Seq<char>,
}

impl View for Warning {
    type V = WarningView;

    open spec fn view(&self) -> WarningView {
        WarningView { kind: self.kind, subject: opt(self.subject), message: self.message@ }
    }
}

/// A warning that a setting was dropped.
pub open spec fn unsupported(subject: Seq<char>, message: Seq<char>) -> WarningView {
    WarningView { kind: WarningKind::UnsupportedSetting, subject: Some(subject), message }
}

/// A warning that a setting was approximated.
pub open spec fn approximated(subject: Seq<char>, message: Seq<char>) -> WarningView {
    WarningView { kind: WarningKind::ApproximatedSetting, subject: Some(subject), message }
}

/// A warning about no setting in particular.
pub open spec fn other_warning(message: Seq<char>) -> WarningView {
    WarningView { kind: WarningKind::Other, subject: None, message }
}

/// A warning that a setting was dropped, where it is there.
#[verifier::opaque]
pub open spec fn noted(present: bool, setting: Seq<char>, message: Seq<char>) -> Seq<WarningView> {
    if present {
        seq![unsupported(setting, message)]
    } else {
        Seq::empty()
    }
}

/// Warns that a setting was dropped, where it is there.
pub fn note(warnings: &mut Vec<Warning>, present: bool, setting: &str, message: &str)
    ensures
        views(final(warnings)@) == views(old(warnings)@) + noted(present, setting@, message@),
{
    reveal(noted);
    if present {
        warnings.push(Warning::unsupported_setting(setting, message));
    }
}

impl Warning {
    pub fn unsupported_setting(subject: &str, message: &str) -> (r: Warning)
        ensures
            r@ == unsupported(subject@, message@),
    {
        Warning {
            kind: WarningKind::UnsupportedSetting,
            subject: Some(subject.to_owned()),
            message: message.to_owned(),
        }
    }

    pub fn approximated_setting(subject: &str, message: &str) -> (r: Warning)
        ensures
            r@ == approximated(subject@, message@),
    {
        Warning {
            kind: WarningKind::ApproximatedSetting,
            subject: Some(subject.to_owned()),
            message: message.to_owned(),
        }
    }

    pub fn other(message: &str) -> (r: Warning)
        ensures
            r@ == other_warning(message@),
    {
        Warning { kind: WarningKind::Other, subject: None, message: message.to_owned() }
    }
}

impl Clone for Warning {
    fn clone(&self) -> (r: Warning)
        ensures
            r@ == self@,
    {
        Warning {
            kind: self.kind,
            subject: self.subject.clone(),
            message: self.message.clone(),
        }
    }
}

/// The result of a non-streaming generate call (or of collecting a stream).
#[derive(Debug, Clone, PartialEq)]
pub struct GenerateResult {
    /// Ordered assistant output parts.
    pub content: Vec<AssistantPart>,
    pub finish: Finish,
    pub usage: Usage,
    /// Warnings raised while lowering the request.
    pub warnings: Vec<Warning>,
    pub response: ResponseMetadata,
    /// Namespaced provider extras for the whole response.
    pub provider_metadata: ProviderMetadata,
}

#[verifier::ext_equal]
pub struct GenerateResultView {
    pub content: Seq<AssistantPartView>,
    pub finish: FinishView,
    pub usage: Usage,
    pub warnings: Seq<WarningView>,
    pub response: ResponseMetadataView,
    pub provider_metadata: MetadataView,
}

impl View for GenerateResult {
    type V = GenerateResultView;

    open spec fn view(&self) -> GenerateResultView {
        GenerateResultView {
            content: views(self.content@),
            finish: self.finish@,
            usage: self.usage,
            warnings: views(self.warnings@),
            response: self.response@,
            provider_metadata: self.provider_metadata@,
        }
    }
}

/// The text of the first `n` parts, joined.
pub open spec fn text_upto(content: Seq<AssistantPartView>, n: int) -> Seq<char>
    decreases n,
{
    if n <= 0 {
        Seq::empty()
    } else {
        match content[n - 1] {
            AssistantPartView::Text { text, .. } => text_upto(content, n - 1) + text,
            _ => text_upto(content, n - 1),
        }
    }
}

/// The reasoning among the first `n` parts.
pub open spec fn reasoning_upto(content: Seq<AssistantPartView>, n: int) -> Seq<ReasoningPartView>
    decreases n,
{
    if n <= 0 {
        Seq::empty()
    } else {
        match content[n - 1] {
            AssistantPartView::Reasoning(part) => reasoning_upto(content, n - 1).push(part),
            _ => reasoning_upto(content, n - 1),
        }
    }
}

/// The tool calls among the first `n` parts.
pub open spec fn calls_upto(content: Seq<AssistantPartView>, n: int) -> Seq<ToolCallView>
    decreases n,
{
    if n <= 0 {
        Seq::empty()
    } else {
        match content[n - 1] {
            AssistantPartView::ToolCall(call) => calls_upto(content, n - 1).push(call),
            _ => calls_upto(content, n - 1),
        }
    }
}

/// The compactions among the first `n` parts.
pub open spec fn compactions_upto(content: Seq<AssistantPartView>, n: int) -> Seq<
    CompactionPartView,
>
    decreases n,
{
    if n <= 0 {
        Seq::empty()
    } else {
        match content[n - 1] {
            AssistantPartView::Compaction(part) => compactions_upto(content, n - 1).push(part),
            _ => compactions_upto(content, n - 1),
        }
    }
}

impl GenerateResultView {
    /// All text, joined in order.
    pub open spec fn text(self) -> Seq<char> {
        text_upto(self.content, self.content.len() as int)
    }

    /// All reasoning, in order.
    pub open spec fn reasoning(self) -> Seq<ReasoningPartView> {
        reasoning_upto(self.content, self.content.len() as int)
    }

    /// All tool calls, in order.
    pub open spec fn tool_calls(self) -> Seq<ToolCallView> {
        calls_upto(self.content, self.content.len() as int)
    }

    /// All compactions, in order.
    pub open spec fn compactions(self) -> Seq<CompactionPartView> {
        compactions_upto(self.content, self.content.len() as int)
    }
}

impl GenerateResult {
    /// All text content concatenated in order.
    pub fn text(&self) -> (r: String)
        ensures
            r@ == self@.text(),
    {
        let mut out: String = String::new();
        let mut i: usize = 0;
        while i < self.content.len()
            invariant
                i <= self.content@.len(),
                out@ == text_upto(views(self.content@), i as int),
            decreases self.content@.len() - i,
        {
            if let AssistantPart::Text { text, .. } = &self.content[i] {
                out.append(text.as_str());
            }
            i += 1;
        }
        out
    }

    /// All reasoning parts in order.
    pub fn reasoning(&self) -> (r: Vec<&ReasoningPart>)
        ensures
            views(r@) == self@.reasoning(),
    {
        let mut out: Vec<&ReasoningPart> = Vec::new();
        let mut i: usize = 0;
        while i < self.content.len()
            invariant
                i <= self.content@.len(),
                views(out@) == reasoning_upto(views(self.content@), i as int),
            decreases self.content@.len() - i,
        {
            if let AssistantPart::Reasoning(part) = &self.content[i] {
                out.push(part);
            }
            i += 1;
        }
        out
    }

    /// All tool calls in order.
    pub fn tool_calls(&self) -> (r: Vec<&ToolCall>)
        ensures
            views(r@) == self@.tool_calls(),
    {
        let mut out: Vec<&ToolCall> = Vec::new();
        let mut i: usize = 0;
        while i < self.content.len()
            invariant
                i <= self.content@.len(),
                views(out@) == calls_upto(views(self.content@), i as int),
            decreases self.content@.len() - i,
        {
            if let AssistantPart::ToolCall(call) = &self.content[i] {
                out.push(call);
            }
            i += 1;
        }
        out
    }

    /// All native compaction parts in provider order.
    pub fn compactions(&self) -> (r: Vec<&CompactionPart>)
        ensures
            views(r@) == self@.compactions(),
    {
        let mut out: Vec<&CompactionPart> = Vec::new();
        let mut i: usize = 0;
        while i < self.content.len()
            invariant
                i <= self.content@.len(),
                views(out@) == compactions_upto(views(self.content@), i as int),
            decreases self.content@.len() - i,
        {
            if let AssistantPart::Compaction(part) = &self.content[i] {
                out.push(part);
            }
            i += 1;
        }
        out
    }

    /// Whether the model requested at least one tool call.
    pub fn has_tool_calls(&self) -> (r: bool)
        ensures
            r == (self@.tool_calls().len() > 0),
    {
        let calls: Vec<&ToolCall> = self.tool_calls();
        assert(views(calls@).len() == calls@.len());
        calls.len() > 0
    }

    /// Parse the concatenated text as structured JSON output.
    ///
    /// # Errors
    ///
    /// Returns the message of the error when the text content is not valid
    /// JSON.
    pub fn structured_output(&self) -> (r: Result<Json, String>)
        ensures
            match r {
                Ok(v) => json_parse(self@.text()) == Ok::<JsonView, Seq<char>>(v@),
                Err(e) => json_parse(self@.text()) == Err::<JsonView, Seq<char>>(e@),
            },
    {
        let text: String = self.text();
        Json::parse(text.as_str())
    }

    /// Build the assistant history message for the next turn.
    pub fn to_assistant_message(&self) -> (r: Message)
        ensures
            r@ == (MessageView::Assistant {
                content: self@.content,
                provider_metadata: self@.provider_metadata,
            }),
    {
        let content: Vec<AssistantPart> = self.content.clone();
        assert(views(content@) =~= views(self.content@));
        Message::Assistant { content, provider_metadata: self.provider_metadata.clone() }
    }
}

} // verus!
