//! Normalized stream events.
use vstd::prelude::*;

use crate::error::{Error, ErrorView};
use crate::json::{str_field, Json, JsonView};
use crate::message::{
    CompactionPart, CompactionPartView, ProviderToolPart, ProviderToolPartView, ReasoningPart,
    ReasoningPartView, ToolCall, ToolCallView,
};
use crate::metadata::{MetadataView, ProviderMetadata};
use crate::model::{opt, views};
use crate::response::{
    Finish, FinishView, ResponseMetadata, ResponseMetadataView, Warning, WarningView,
};
use crate::usage::Usage;

verus! {

/// A source citation / grounding reference attached to streamed text.
///
/// Common citation fields plus the exact provider JSON.
#[derive(Debug, Clone, PartialEq)]
pub struct Citation {
    pub url: Option<String>,
    pub title: Option<String>,
    /// The quoted source passage, when the provider includes one.
    pub cited_text: Option<String>,
    /// The provider's exact citation/annotation JSON.
    pub raw: Json,
}

#[verifier::ext_equal]
pub struct CitationView {
    pub url: Option<Seq<char>>,
    pub title: Option<Seq<char>>,
    pub cited_text: Option<Seq<char>>,
    pub raw: JsonView,
}

impl View for Citation {
    type V = CitationView;

    open spec fn view(&self) -> CitationView {
        CitationView {
            url: opt(self.url),
            title: opt(self.title),
            cited_text: opt(self.cited_text),
            raw: self.raw@,
        }
    }
}

/// The first of two optional texts that is there.
pub open spec fn either(a: Option<Seq<char>>, b: Option<Seq<char>>) -> Option<Seq<char>> {
    if a is Some {
        a
    } else {
        b
    }
}

/// The citation that a provider object is: each common field is the text of
/// the first of its known spellings that the object has as a text.
pub open spec fn citation_of(raw: JsonView) -> CitationView {
    CitationView {
        url: either(str_field(raw, "url"@), str_field(raw, "uri"@)),
        title: str_field(raw, "title"@),
        cited_text: either(
            str_field(raw, "cited_text"@),
            either(str_field(raw, "snippet"@), str_field(raw, "quote"@)),
        ),
        raw,
    }
}

/// The text of a key of an object.
pub fn text_field(raw: &Json, key: &str) -> (r: Option<String>)
    ensures
        opt(r) == str_field(raw@, key@),
{
    match raw.get(key) {
        Some(value) => match value.as_str() {
            Some(s) => Some(s.to_owned()),
            None => None,
        },
        None => None,
    }
}

impl Citation {
    /// Best-effort extraction from a provider citation object: the common
    /// fields are probed under their known provider spellings, and the full
    /// object is kept as `raw`.
    pub fn from_raw(raw: Json) -> (r: Citation)
        ensures
            r@ == citation_of(raw@),
    {
        let url: Option<String> = match text_field(&raw, "url") {
            Some(s) => Some(s),
            None => text_field(&raw, "uri"),
        };
        let title: Option<String> = text_field(&raw, "title");
        let cited_text: Option<String> = match text_field(&raw, "cited_text") {
            Some(s) => Some(s),
            None => match text_field(&raw, "snippet") {
                Some(s) => Some(s),
                None => text_field(&raw, "quote"),
            },
        };
        Citation { url, title, cited_text, raw }
    }
}

/// A normalized stream event.
#[derive(Debug, Clone, PartialEq)]
#[non_exhaustive]
pub enum StreamEvent {
    /// Always first. Carries the warnings raised while lowering the request.
    StreamStart { warnings: Vec<Warning> },
    /// Response identity, as soon as the provider reveals it.
    ResponseMetadata(ResponseMetadata),
    TextStart {
        id: String,
        /// Metadata known at start and merged into the block's `TextEnd` event.
        provider_metadata: ProviderMetadata,
    },
    TextDelta { id: String, delta: String },
    TextEnd {
        id: String,
        /// Provider extras for the whole text block (e.g. Gemini thought
        /// signatures attached to text parts).
        provider_metadata: ProviderMetadata,
    },
    ReasoningStart { id: String },
    /// Incremental human-visible reasoning text.
    ReasoningDelta { id: String, delta: String },
    /// Carries the complete typed reasoning part (signatures, encrypted and
    /// redacted content included) so history replay needs nothing else.
    ReasoningEnd { id: String, part: ReasoningPart },
    ToolInputStart {
        call_id: String,
        name: String,
        item_id: Option<String>,
        provider_call_id: Option<String>,
    },
    /// Incremental raw-JSON argument text.
    ToolInputDelta { call_id: String, delta: String },
    ToolInputEnd { call_id: String },
    /// The complete tool call, emitted immediately after its `ToolInputEnd`.
    ToolCall(ToolCall),
    /// The provider began compacting context. Frontends can surface progress
    /// during what would otherwise be a long silent interval.
    CompactionStart,
    /// Display-only compaction summary text before the authoritative part.
    /// Anthropic streams this text. OpenAI compaction is opaque.
    CompactionDelta { delta: String },
    /// The in-flight compaction was abandoned before the provider supplied an
    /// authoritative replayable part.
    CompactionAbort,
    /// A provider-produced compaction item for same-profile replay.
    Compaction(CompactionPart),
    /// A provider-executed tool started. `kind` is its item or block type.
    ProviderToolStart { id: String, kind: String },
    /// A provider-named status change for an in-flight server tool.
    ProviderToolUpdate { id: String, status: String },
    /// The provider tool stopped without an authoritative completed item.
    ProviderToolAbort { id: String },
    /// The finished server-side tool item, exactly as the provider reported
    /// it. Also lands in the result content for same-profile replay.
    ProviderToolEnd(ProviderToolPart),
    /// A source citation / grounding reference. `text_id` names the text
    /// block it annotates when the provider ties citations to one.
    Citation { text_id: Option<String>, citation: Citation },
    /// Response-level namespaced provider extras discovered mid-stream
    /// (e.g. Anthropic applied context edits). Merged into the result's
    /// `provider_metadata` by the accumulator.
    ProviderMetadata(ProviderMetadata),
    /// An unrecognized provider payload, only when raw events were requested.
    Raw { value: Json },
    /// A stream failure followed by an error `Finish`.
    Error { error: Error },
    /// Always last, exactly once.
    Finish { finish: Finish, usage: Usage },
}

#[verifier::ext_equal]
pub enum StreamEventView {
    StreamStart { warnings: Seq<WarningView> },
    ResponseMetadata(ResponseMetadataView),
    TextStart { id: Seq<char>, provider_metadata: MetadataView },
    TextDelta { id: Seq<char>, delta: Seq<char> },
    TextEnd { id: Seq<char>, provider_metadata: MetadataView },
    ReasoningStart { id: Seq<char> },
    ReasoningDelta { id: Seq<char>, delta: Seq<char> },
    ReasoningEnd { id: Seq<char>, part: ReasoningPartView },
    ToolInputStart {
        call_id: Seq<char>,
        name: Seq<char>,
        item_id: Option<Seq<char>>,
        provider_call_id: Option<Seq<char>>,
    },
    ToolInputDelta { call_id: Seq<char>, delta: Seq<char> },
    ToolInputEnd { call_id: Seq<char> },
    ToolCall(ToolCallView),
    CompactionStart,
    CompactionDelta { delta: Seq<char> },
    CompactionAbort,
    Compaction(CompactionPartView),
    ProviderToolStart { id: Seq<char>, kind: Seq<char> },
    ProviderToolUpdate { id: Seq<char>, status: Seq<char> },
    ProviderToolAbort { id: Seq<char> },
    ProviderToolEnd(ProviderToolPartView),
    Citation { text_id: Option<Seq<char>>, citation: CitationView },
    ProviderMetadata(MetadataView),
    Raw { value: JsonView },
    Error { error: ErrorView },
    Finish { finish: FinishView, usage: Usage },
}

impl View for StreamEvent {
    type V = StreamEventView;

    open spec fn view(&self) -> StreamEventView {
        match *self {
            StreamEvent::StreamStart { warnings } => StreamEventView::StreamStart {
                warnings: views(warnings@),
            },
            StreamEvent::ResponseMetadata(m) => StreamEventView::ResponseMetadata(m@),
            StreamEvent::TextStart { id, provider_metadata } => StreamEventView::TextStart {
                id: id@,
                provider_metadata: provider_metadata@,
            },
            StreamEvent::TextDelta { id, delta } => StreamEventView::TextDelta {
                id: id@,
                delta: delta@,
            },
            StreamEvent::TextEnd { id, provider_metadata } => StreamEventView::TextEnd {
                id: id@,
                provider_metadata: provider_metadata@,
            },
            StreamEvent::ReasoningStart { id } => StreamEventView::ReasoningStart { id: id@ },
            StreamEvent::ReasoningDelta { id, delta } => StreamEventView::ReasoningDelta {
                id: id@,
                delta: delta@,
            },
            StreamEvent::ReasoningEnd { id, part } => StreamEventView::ReasoningEnd {
                id: id@,
                part: part@,
            },
            StreamEvent::ToolInputStart { call_id, name, item_id, provider_call_id } =>
                StreamEventView::ToolInputStart {
                call_id: call_id@,
                name: name@,
                item_id: opt(item_id),
                provider_call_id: opt(provider_call_id),
            },
            StreamEvent::ToolInputDelta { call_id, delta } => StreamEventView::ToolInputDelta {
                call_id: call_id@,
                delta: delta@,
            },
            StreamEvent::ToolInputEnd { call_id } => StreamEventView::ToolInputEnd {
                call_id: call_id@,
            },
            StreamEvent::ToolCall(call) => StreamEventView::ToolCall(call@),
            StreamEvent::CompactionStart => StreamEventView::CompactionStart,
            StreamEvent::CompactionDelta { delta } => StreamEventView::CompactionDelta {
                delta: delta@,
            },
            StreamEvent::CompactionAbort => StreamEventView::CompactionAbort,
            StreamEvent::Compaction(part) => StreamEventView::Compaction(part@),
            StreamEvent::ProviderToolStart { id, kind } => StreamEventView::ProviderToolStart {
                id: id@,
                kind: kind@,
            },
            StreamEvent::ProviderToolUpdate { id, status } => StreamEventView::ProviderToolUpdate {
                id: id@,
                status: status@,
            },
            StreamEvent::ProviderToolAbort { id } => StreamEventView::ProviderToolAbort {
                id: id@,
            },
            StreamEvent::ProviderToolEnd(part) => StreamEventView::ProviderToolEnd(part@),
            StreamEvent::Citation { text_id, citation } => StreamEventView::Citation {
                text_id: opt(text_id),
                citation: citation@,
            },
            StreamEvent::ProviderMetadata(m) => StreamEventView::ProviderMetadata(m@),
            StreamEvent::Raw { value } => StreamEventView::Raw { value: value@ },
            StreamEvent::Error { error } => StreamEventView::Error { error: error@ },
            StreamEvent::Finish { finish, usage } => StreamEventView::Finish {
                finish: finish@,
                usage,
            },
        }
    }
}

} // verus!
