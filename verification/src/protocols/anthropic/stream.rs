//! Decoding of Messages streams.
use vstd::prelude::*;

use super::types::{
    anthropic_error_kind, anthropic_member, anthropic_metadata, error_kind, finish_from_stop_reason,
    finish_of, is_server_tool, is_server_tool_block, may_be_message, may_be_usage, message_ok,
    one_piece, reasoning_piece, to_usage, usage_of, usage_ok,
};
use crate::error::{new_error, Error, ErrorKind, ErrorView};
use crate::json::{field, json_parse, json_text, str_of, Json, JsonView};
use crate::message::{
    CompactionPart, CompactionPartView, ProviderToolPart, ProviderToolPartView, ReasoningContent,
    ReasoningContentView,
};
use crate::metadata::{no_metadata, ProviderMetadata};
use crate::model::{opt, views};
use crate::protocols::ApiProfile;
use crate::response::{
    Finish, FinishReason, FinishView, ResponseMetadata, ResponseMetadataView,
};
use crate::slots::{slot, with_slot, without_slot, Slots, SlotsView};
use crate::stream::action::{does, ends, ends_last, quiet, fails, Decoded, DecodedView, StreamAction};
use crate::stream::contract::Action;
use crate::stream::event::{citation_of, Citation};
use crate::text::{blank, cat, decimal, decimal_text, is_blank, same};
use crate::wire;
use crate::wire::{
    count_at, count_ok, tag_at, tag_ok, text_at, value_at, UNEXPECTED_TYPE,
};

verus! {

broadcast use {crate::model::group_views, crate::json::array_view};

/// A content block that is open.
#[allow(inconsistent_fields)]
pub enum BlockKind {
    Unknown,
    Text {
        /// Citations streamed via `citations_delta`, attached to the text
        /// part's metadata when the block closes.
        citations: Vec<Json>,
    },
    Thinking { text: String, signature: String },
    RedactedThinking { data: String },
    Tool {
        call_id: String,
        /// Input delivered in `content_block_start` (complete for deferred
        /// calls).
        start_input: Option<String>,
        accumulated: String,
    },
    Compaction { content: String },
    /// A provider-executed tool block kept raw for lossless replay.
    ProviderTool {
        block: Json,
        /// Streamed `input_json_delta` fragments, folded into the block's
        /// `input` when it closes.
        input_json: String,
    },
}

/// A content block that is open.
#[allow(inconsistent_fields)]
#[verifier::ext_equal]
pub enum BlockView {
    Unknown,
    Text { citations: Seq<JsonView> },
    Thinking { text: Seq<char>, signature: Seq<char> },
    RedactedThinking { data: Seq<char> },
    Tool { call_id: Seq<char>, start_input: Option<Seq<char>>, accumulated: Seq<char> },
    Compaction { content: Seq<char> },
    ProviderTool { block: JsonView, input_json: Seq<char> },
}

impl View for BlockKind {
    type V = BlockView;

    open spec fn view(&self) -> BlockView {
        match *self {
            BlockKind::Unknown => BlockView::Unknown,
            BlockKind::Text { citations } => BlockView::Text { citations: views(citations@) },
            BlockKind::Thinking { text, signature } => BlockView::Thinking {
                text: text@,
                signature: signature@,
            },
            BlockKind::RedactedThinking { data } => BlockView::RedactedThinking { data: data@ },
            BlockKind::Tool { call_id, start_input, accumulated } => BlockView::Tool {
                call_id: call_id@,
                start_input: opt(start_input),
                accumulated: accumulated@,
            },
            BlockKind::Compaction { content } => BlockView::Compaction { content: content@ },
            BlockKind::ProviderTool { block, input_json } => BlockView::ProviderTool {
                block: block@,
                input_json: input_json@,
            },
        }
    }
}

/// Decodes the events of a Messages stream.
pub struct AnthropicStreamDecoder {
    /// Stamped on stream errors: Anthropic directly or on Bedrock.
    profile: ApiProfile,
    blocks: Slots<BlockKind>,
    finish: Option<Finish>,
    done: bool,
}

/// What a decoder has seen so far.
#[verifier::ext_equal]
pub struct AnthropicView {
    pub profile: ApiProfile,
    pub blocks: SlotsView<BlockView>,
    pub finish: Option<FinishView>,
    pub done: bool,
}

impl View for AnthropicStreamDecoder {
    type V = AnthropicView;

    closed spec fn view(&self) -> AnthropicView {
        AnthropicView {
            profile: self.profile,
            blocks: self.blocks@,
            finish: opt(self.finish),
            done: self.done,
        }
    }
}

/// What a frame does: the decoder after it, and what it decodes to.
#[verifier::ext_equal]
pub struct Reply {
    pub state: AnthropicView,
    pub decoded: DecodedView,
}

/// The block's own id (`server_tool_use`) or the id of the call it answers
/// (`*_tool_result`).
pub open spec fn tool_block_id(block: JsonView) -> Option<Seq<char>> {
    match field(block, "id"@) {
        Some(id) => str_of(id),
        None => text_at(block, "tool_use_id"@),
    }
}

/// An id, or another one where there is none.
pub open spec fn id_or(id: Option<Seq<char>>, fallback: Seq<char>) -> Seq<char> {
    match id {
        Some(id) => id,
        None => fallback,
    }
}

/// A provider-executed block with its streamed input, where that is JSON.
pub open spec fn with_input(block: JsonView, input_json: Seq<char>) -> JsonView {
    match (block, json_parse(input_json)) {
        (JsonView::Object(m), Ok(input)) => if is_blank(input_json) {
            block
        } else {
            JsonView::Object(m.insert("input"@, input))
        },
        _ => block,
    }
}

/// The item of a tool that the provider ran.
pub open spec fn server_tool_part(block: JsonView) -> ProviderToolPartView {
    ProviderToolPartView {
        id: tool_block_id(block),
        kind: tag_at(block, "type"@),
        namespace: "anthropic"@,
        payload: block,
    }
}

/// What the end of a block does.
pub open spec fn closing(index: u64, block: Option<BlockView>, completed: bool) -> Seq<Action> {
    let id = decimal(index as nat);
    match block {
        Some(BlockView::Text { citations }) => if citations.len() > 0 {
            seq![
                Action::TextMetadata {
                    id,
                    metadata: anthropic_member("citations"@, JsonView::Array(citations)),
                },
                Action::EndText { id },
            ]
        } else {
            seq![Action::EndText { id }]
        },
        Some(BlockView::Thinking { text, signature }) => seq![
            Action::EndReasoning {
                id,
                part: Some(
                    reasoning_piece(
                        ReasoningContentView::Text {
                            text,
                            signature: if signature.len() > 0 {
                                Some(signature)
                            } else {
                                None
                            },
                        },
                    ),
                ),
            },
        ],
        Some(BlockView::RedactedThinking { data }) => seq![
            Action::StartReasoning { id },
            Action::EndReasoning {
                id,
                part: Some(reasoning_piece(ReasoningContentView::Redacted { data })),
            },
        ],
        Some(BlockView::Tool { call_id, start_input, accumulated }) => if completed {
            seq![
                Action::CompleteTool {
                    call_id,
                    arguments: if is_blank(accumulated) {
                        start_input
                    } else {
                        Some(accumulated)
                    },
                },
            ]
        } else {
            Seq::empty()
        },
        Some(BlockView::Compaction { content }) => if completed {
            seq![
                Action::Compaction(
                    CompactionPartView {
                        id: None,
                        content: Some(content),
                        encrypted_content: None,
                    },
                ),
            ]
        } else {
            Seq::empty()
        },
        Some(BlockView::ProviderTool { block, input_json }) => if completed {
            let full = with_input(block, input_json);
            seq![
                Action::ProviderToolEnd {
                    id: id_or(tool_block_id(full), id),
                    part: server_tool_part(full),
                },
            ]
        } else {
            Seq::empty()
        },
        _ => Seq::empty(),
    }
}

/// What the end of all blocks does that never ended themselves.
pub open spec fn closings(blocks: SlotsView<BlockView>) -> Seq<Action>
    decreases blocks.len(),
{
    if blocks.len() == 0 {
        Seq::empty()
    } else {
        closing(blocks[0].0, Some(blocks[0].1), false) + closings(blocks.skip(1))
    }
}

/// Whether a value can be a stream event.
pub open spec fn envelope_ok(v: JsonView) -> bool {
    &&& v is Object
    &&& tag_ok(v, "type"@)
    &&& count_ok(v, "index"@)
    &&& match value_at(v, "message"@) {
        Some(m) => message_ok(m),
        None => true,
    }
    &&& match value_at(v, "usage"@) {
        Some(u) => usage_ok(u),
        None => true,
    }
}

/// The index of the block that an event is about.
pub open spec fn index_of(v: JsonView) -> u64 {
    match count_at(v, "index"@) {
        Some(n) => n,
        None => 0,
    }
}

/// What the start of a message does.
pub open spec fn message_start(message: Option<JsonView>) -> Seq<Action> {
    match message {
        Some(m) => {
            let identity = Action::Metadata(
                ResponseMetadataView {
                    id: text_at(m, "id"@),
                    model: text_at(m, "model"@),
                    request_id: None,
                },
            );
            match value_at(m, "usage"@) {
                Some(u) => seq![identity, Action::MergeUsage(usage_of(u))],
                None => seq![identity],
            }
        },
        None => Seq::empty(),
    }
}

/// The error that an `error` event reports.
pub open spec fn event_error(error: Option<JsonView>, profile: ApiProfile) -> ErrorView {
    let error_type = match error {
        Some(e) => tag_at(e, "type"@),
        None => Seq::empty(),
    };
    let code = if error_type.len() > 0 {
        Some(error_type)
    } else {
        None
    };
    let message = match error {
        Some(e) => match text_at(e, "message"@) {
            Some(message) => message,
            None => "stream error event"@,
        },
        None => "stream error event"@,
    };
    new_error(error_kind(code, message, ErrorKind::Provider), message).with_origin(
        profile.text(),
    ).with_code_opt(code)
}

impl AnthropicView {
    /// Some actions, and nothing else.
    pub open spec fn doing(self, actions: Seq<Action>) -> Reply {
        Reply { state: self, decoded: does(actions) }
    }

    /// The decoder with an open block.
    pub open spec fn opening(self, index: u64, block: BlockView) -> AnthropicView {
        AnthropicView { blocks: with_slot(self.blocks, index, block), ..self }
    }

    /// The start of a block.
    pub open spec fn block_start(self, v: JsonView, raw: Seq<char>) -> Reply {
        let index = index_of(v);
        let id = decimal(index as nat);
        match value_at(v, "content_block"@) {
            None => self.doing(Seq::empty()),
            Some(block) => {
                let kind = tag_at(block, "type"@);
                if kind == "text"@ {
                    self.opening(index, BlockView::Text { citations: Seq::empty() }).doing(
                        seq![Action::StartText { id, metadata: no_metadata() }],
                    )
                } else if kind == "thinking"@ {
                    self.opening(
                        index,
                        BlockView::Thinking { text: Seq::empty(), signature: Seq::empty() },
                    ).doing(seq![Action::StartReasoning { id }])
                } else if kind == "redacted_thinking"@ {
                    self.opening(
                        index,
                        BlockView::RedactedThinking { data: tag_at(block, "data"@) },
                    ).doing(Seq::empty())
                } else if kind == "tool_use"@ {
                    self.opening(
                        index,
                        BlockView::Tool {
                            call_id: tag_at(block, "id"@),
                            start_input: match field(block, "input"@) {
                                Some(input) => Some(json_text(input)),
                                None => None,
                            },
                            accumulated: Seq::empty(),
                        },
                    ).doing(
                        seq![
                            Action::StartTool {
                                call_id: tag_at(block, "id"@),
                                name: tag_at(block, "name"@),
                                item_id: None,
                                provider_call_id: None,
                            },
                        ],
                    )
                } else if kind == "compaction"@ {
                    self.opening(index, BlockView::Compaction { content: Seq::empty() }).doing(
                        seq![Action::CompactionStart],
                    )
                } else if is_server_tool(kind) {
                    self.opening(
                        index,
                        BlockView::ProviderTool { block, input_json: Seq::empty() },
                    ).doing(
                        seq![
                            Action::ProviderToolStart { id: id_or(tool_block_id(block), id), kind },
                        ],
                    )
                } else {
                    self.opening(index, BlockView::Unknown).doing(seq![Action::RawFrame(raw)])
                }
            },
        }
    }

    /// More input of a tool.
    pub open spec fn input_delta(self, index: u64, partial: Seq<char>, raw: Seq<char>) -> Reply {
        if partial.len() == 0 {
            self.doing(Seq::empty())
        } else {
            match slot(self.blocks, index) {
                Some(BlockView::Tool { call_id, start_input, accumulated }) => self.opening(
                    index,
                    BlockView::Tool { call_id, start_input, accumulated: accumulated + partial },
                ).doing(seq![Action::ToolDelta { call_id, delta: partial }]),
                Some(BlockView::ProviderTool { block, input_json }) => self.opening(
                    index,
                    BlockView::ProviderTool { block, input_json: input_json + partial },
                ).doing(Seq::empty()),
                _ => self.doing(seq![Action::RawFrame(raw)]),
            }
        }
    }

    /// More of a block.
    pub open spec fn block_delta(self, v: JsonView, raw: Seq<char>) -> Reply {
        let index = index_of(v);
        let id = decimal(index as nat);
        match value_at(v, "delta"@) {
            None => self.doing(Seq::empty()),
            Some(delta) => {
                let kind = tag_at(delta, "type"@);
                if kind == "text_delta"@ {
                    self.doing(seq![Action::TextDelta { id, delta: tag_at(delta, "text"@) }])
                } else if kind == "thinking_delta"@ {
                    let more = tag_at(delta, "thinking"@);
                    match slot(self.blocks, index) {
                        Some(BlockView::Thinking { text, signature }) => self.opening(
                            index,
                            BlockView::Thinking { text: text + more, signature },
                        ),
                        _ => self,
                    }.doing(seq![Action::ReasoningDelta { id, delta: more }])
                } else if kind == "signature_delta"@ {
                    match slot(self.blocks, index) {
                        Some(BlockView::Thinking { text, signature }) => self.opening(
                            index,
                            BlockView::Thinking {
                                text,
                                signature: signature + tag_at(delta, "signature"@),
                            },
                        ),
                        _ => self,
                    }.doing(Seq::empty())
                } else if kind == "input_json_delta"@ {
                    self.input_delta(index, tag_at(delta, "partial_json"@), raw)
                } else if kind == "compaction_delta"@ {
                    let more = tag_at(delta, "content"@);
                    match slot(self.blocks, index) {
                        Some(BlockView::Compaction { content }) => self.opening(
                            index,
                            BlockView::Compaction { content: content + more },
                        ).doing(seq![Action::CompactionDelta { delta: more }]),
                        _ => self.doing(Seq::empty()),
                    }
                } else if kind == "citations_delta"@ {
                    match (field(delta, "citation"@), slot(self.blocks, index)) {
                        (Some(citation), Some(BlockView::Text { citations })) => self.opening(
                            index,
                            BlockView::Text { citations: citations.push(citation) },
                        ).doing(
                            seq![
                                Action::Citation {
                                    text_id: Some(id),
                                    citation: citation_of(citation),
                                },
                            ],
                        ),
                        _ => self.doing(Seq::empty()),
                    }
                } else {
                    self.doing(seq![Action::RawFrame(raw)])
                }
            },
        }
    }

    /// The end of a block.
    pub open spec fn block_stop(self, index: u64) -> Reply {
        AnthropicView { blocks: without_slot(self.blocks, index), ..self }.doing(
            closing(index, slot(self.blocks, index), true),
        )
    }

    /// The late part of a message: its extras, usage and stop reason.
    pub open spec fn message_delta(self, v: JsonView) -> Reply {
        let context = match value_at(v, "context_management"@) {
            Some(c) => seq![Action::ProviderMetadata(anthropic_member("context_management"@, c))],
            None => Seq::empty(),
        };
        let usage = match value_at(v, "usage"@) {
            Some(u) => seq![Action::MergeUsage(usage_of(u))],
            None => Seq::empty(),
        };
        let delta = match value_at(v, "delta"@) {
            Some(d) => d,
            None => JsonView::Null,
        };
        let details = match field(delta, "stop_details"@) {
            Some(d) => seq![Action::ProviderMetadata(anthropic_member("stop_details"@, d))],
            None => Seq::empty(),
        };
        AnthropicView {
            finish: match text_at(delta, "stop_reason"@) {
                Some(reason) => Some(finish_of(Some(reason))),
                None => self.finish,
            },
            ..self
        }.doing(context + usage + details)
    }

    /// The end of the message, once.
    pub open spec fn finish_now(self) -> Reply {
        if self.done {
            self.doing(Seq::empty())
        } else {
            AnthropicView { done: true, blocks: Seq::empty(), ..self }.doing(
                closings(self.blocks).push(
                    Action::Finish(
                        match self.finish {
                            Some(finish) => finish,
                            None => FinishView { reason: FinishReason::Stop, raw: None },
                        },
                    ),
                ),
            )
        }
    }

    /// An `error` event.
    pub open spec fn error(self, error: Option<JsonView>) -> Reply {
        AnthropicView { done: true, ..self }.doing(
            seq![
                Action::Error(event_error(error, self.profile)),
                Action::Finish(FinishView { reason: FinishReason::Error, raw: Some("error"@) }),
            ],
        )
    }

    /// An event.
    pub open spec fn event(self, v: JsonView, raw: Seq<char>) -> Reply {
        let kind = tag_at(v, "type"@);
        if kind == "message_start"@ {
            self.doing(message_start(value_at(v, "message"@)))
        } else if kind == "content_block_start"@ {
            self.block_start(v, raw)
        } else if kind == "content_block_delta"@ {
            self.block_delta(v, raw)
        } else if kind == "content_block_stop"@ {
            self.block_stop(index_of(v))
        } else if kind == "message_delta"@ {
            self.message_delta(v)
        } else if kind == "message_stop"@ {
            self.finish_now()
        } else if kind == "ping"@ {
            self.doing(Seq::empty())
        } else if kind == "error"@ {
            self.error(value_at(v, "error"@))
        } else {
            self.doing(seq![Action::RawFrame(raw)])
        }
    }

    /// A frame of the stream.
    pub open spec fn frame(self, data: Seq<char>) -> Reply {
        if self.done {
            self.doing(Seq::empty())
        } else {
            match json_parse(data) {
                Ok(v) => if envelope_ok(v) {
                    self.event(v, data)
                } else {
                    Reply { state: self, decoded: fails(invalid_event(UNEXPECTED_TYPE@)) }
                },
                Err(e) => Reply { state: self, decoded: fails(invalid_event(e)) },
            }
        }
    }

    /// The end of the provider's stream.
    pub open spec fn eof(self) -> Reply {
        // Some compatible servers omit message_stop after a stop reason.
        if self.finish is Some {
            self.finish_now()
        } else {
            self.doing(Seq::empty())
        }
    }
}

/// The failure of a frame that is no event.
pub open spec fn invalid_event(reason: Seq<char>) -> ErrorView {
    new_error(ErrorKind::MalformedResponse, "anthropic: invalid stream event: "@ + reason)
}

fn provider_tool_block_id(block: &Json) -> (r: Option<String>)
    ensures
        opt(r) == tool_block_id(block@),
{
    match block.get("id") {
        Some(id) => match id.as_str() {
            Some(id) => Some(id.to_owned()),
            None => None,
        },
        None => wire::owned_text(block, "tool_use_id"),
    }
}

fn or_id(id: Option<String>, fallback: String) -> (r: String)
    ensures
        r@ == id_or(opt(id), fallback@),
{
    match id {
        Some(id) => id,
        None => fallback,
    }
}

fn fold_input(block: Json, input_json: &str) -> (r: Json)
    ensures
        r@ == with_input(block@, input_json@),
{
    if blank(input_json) {
        return block;
    }
    match Json::parse(input_json) {
        Ok(input) => match block {
            Json::Object(o) => Json::Object(o.put("input", input)),
            other => other,
        },
        Err(_) => block,
    }
}

fn close_server_tool(id: String, block: Json, input_json: &str) -> (r: StreamAction)
    ensures
        r@ == (Action::ProviderToolEnd {
            id: id_or(tool_block_id(with_input(block@, input_json@)), id@),
            part: server_tool_part(with_input(block@, input_json@)),
        }),
{
    let full: Json = fold_input(block, input_json);
    let own: Option<String> = provider_tool_block_id(&full);
    StreamAction::ProviderToolEnd {
        id: or_id(own.clone(), id),
        part: ProviderToolPart {
            id: own,
            kind: wire::tag(&full, "type").to_owned(),
            namespace: "anthropic".to_owned(),
            payload: full,
        },
    }
}

/// What the end of a block does.
fn close_block(index: u64, block: Option<BlockKind>, completed: bool) -> (r: Vec<StreamAction>)
    ensures
        views(r@) == closing(index, opt(block), completed),
{
    let id: String = decimal_text(index);
    let mut actions: Vec<StreamAction> = Vec::new();
    match block {
        Some(BlockKind::Text { citations }) => {
            if citations.len() > 0 {
                actions.push(
                    StreamAction::TextMetadata {
                        id: id.clone(),
                        metadata: anthropic_metadata("citations", Json::Array(citations)),
                    },
                );
            }
            actions.push(StreamAction::EndText { id });
        },
        Some(BlockKind::Thinking { text, signature }) => {
            let signature: Option<String> = if signature.as_str().is_empty() {
                None
            } else {
                Some(signature)
            };
            actions.push(
                StreamAction::EndReasoning {
                    id,
                    part: Some(one_piece(ReasoningContent::Text { text, signature })),
                },
            );
        },
        Some(BlockKind::RedactedThinking { data }) => {
            actions.push(StreamAction::StartReasoning { id: id.clone() });
            actions.push(
                StreamAction::EndReasoning {
                    id,
                    part: Some(one_piece(ReasoningContent::Redacted { data })),
                },
            );
        },
        Some(BlockKind::Tool { call_id, start_input, accumulated }) => {
            if completed {
                let arguments: Option<String> = if blank(accumulated.as_str()) {
                    start_input
                } else {
                    Some(accumulated)
                };
                actions.push(StreamAction::CompleteTool { call_id, arguments });
            }
        },
        Some(BlockKind::Compaction { content }) => {
            if completed {
                actions.push(
                    StreamAction::Compaction(
                        CompactionPart {
                            id: None,
                            content: Some(content),
                            encrypted_content: None,
                        },
                    ),
                );
            }
        },
        Some(BlockKind::ProviderTool { block, input_json }) => {
            if completed {
                actions.push(close_server_tool(id, block, input_json.as_str()));
            }
        },
        _ => {},
    }
    assert(views(actions@) =~= closing(index, opt(block), completed));
    actions
}

fn handle_message_start(message: Option<&Json>) -> (r: Decoded)
    ensures
        r@ == does(message_start(opt(message))),
{
    let message: &Json = match message {
        Some(message) => message,
        None => return Decoded::nothing(),
    };
    let mut actions: Vec<StreamAction> = Vec::new();
    actions.push(
        StreamAction::Metadata(
            ResponseMetadata {
                id: wire::owned_text(message, "id"),
                model: wire::owned_text(message, "model"),
                request_id: None,
            },
        ),
    );
    if let Some(usage) = wire::value(message, "usage") {
        actions.push(StreamAction::MergeUsage(to_usage(usage)));
    }
    assert(views(actions@) =~= message_start(Some(message@)));
    Decoded::done(actions)
}

fn block_index(v: &Json) -> (r: u64)
    ensures
        r == index_of(v@),
{
    match wire::count(v, "index") {
        Some(n) => n,
        None => 0,
    }
}

fn decode_event_error(error: Option<&Json>, profile: ApiProfile) -> (r: Error)
    ensures
        r@ == event_error(opt(error), profile),
{
    let (error_type, message) = match error {
        Some(e) => (
            wire::tag(e, "type"),
            match wire::text(e, "message") {
                Some(message) => message,
                None => "stream error event",
            },
        ),
        None => ("", "stream error event"),
    };
    proof {
        reveal_strlit("");
        assert(""@ =~= Seq::empty());
    }
    let code: Option<&str> = if error_type.is_empty() {
        None
    } else {
        Some(error_type)
    };
    let kind: ErrorKind = anthropic_error_kind(code, message, ErrorKind::Provider);
    let mut e: Error = Error::new(kind, message).with_origin(profile.as_str());
    if let Some(code) = code {
        e = e.with_code(code);
    }
    e
}

impl AnthropicStreamDecoder {
    pub fn new(profile: ApiProfile) -> (r: AnthropicStreamDecoder)
        ensures
            r@ == (AnthropicView { profile, blocks: Seq::empty(), finish: None, done: false }),
    {
        AnthropicStreamDecoder { profile, blocks: Slots::new(), finish: None, done: false }
    }

    fn finish_now(&mut self) -> (r: Decoded)
        ensures
            (Reply { state: final(self)@, decoded: r@ }) == old(self)@.finish_now(),
    {
        if self.done {
            return Decoded::nothing();
        }
        self.done = true;
        let ghost all = self.blocks@;
        let mut actions: Vec<StreamAction> = Vec::new();
        assert(Seq::<Action>::empty() + closings(all) =~= closings(all));
        loop
            invariant
                closings(all) == views(actions@) + closings(self.blocks@),
                self.done,
                self.finish == old(self).finish,
                self.profile == old(self).profile,
            ensures
                self.blocks@.len() == 0,
            decreases self.blocks@.len(),
        {
            let ghost rest = self.blocks@;
            let ghost before = views(actions@);
            match self.blocks.take_first() {
                Some((index, block)) => {
                    let mut more: Vec<StreamAction> = close_block(index, Some(block), false);
                    actions.append(&mut more);
                    assert(before + (closing(rest[0].0, Some(rest[0].1), false) + closings(
                        rest.skip(1),
                    )) =~= views(actions@) + closings(self.blocks@));
                },
                None => break,
            }
        }
        assert(views(actions@) =~= closings(all));
        let finish: Finish = match &self.finish {
            Some(finish) => finish.clone(),
            None => Finish::new(FinishReason::Stop),
        };
        actions.push(StreamAction::Finish(finish));
        assert(self@ =~= old(self)@.finish_now().state);
        Decoded::done(actions)
    }

    fn start_tool_block(&mut self, index: u64, block: &Json) -> (r: Decoded)
        ensures
            final(self)@ == old(self)@.opening(
                index,
                BlockView::Tool {
                    call_id: tag_at(block@, "id"@),
                    start_input: match field(block@, "input"@) {
                        Some(input) => Some(json_text(input)),
                        None => None,
                    },
                    accumulated: Seq::empty(),
                },
            ),
            r@ == does(
                seq![
                    Action::StartTool {
                        call_id: tag_at(block@, "id"@),
                        name: tag_at(block@, "name"@),
                        item_id: None,
                        provider_call_id: None,
                    },
                ],
            ),
    {
        let call_id: String = wire::tag(block, "id").to_owned();
        let start_input: Option<String> = match block.get("input") {
            Some(input) => Some(input.to_text()),
            None => None,
        };
        self.blocks.set(
            index,
            BlockKind::Tool { call_id: call_id.clone(), start_input, accumulated: String::new() },
        );
        Decoded::one(
            StreamAction::StartTool {
                call_id,
                name: wire::tag(block, "name").to_owned(),
                item_id: None,
                provider_call_id: None,
            },
        )
    }

    fn handle_content_block_start(&mut self, v: &Json, raw: &str) -> (r: Decoded)
        ensures
            (Reply { state: final(self)@, decoded: r@ }) == old(self)@.block_start(v@, raw@),
    {
        let index: u64 = block_index(v);
        let id: String = decimal_text(index);
        let block: &Json = match wire::value(v, "content_block") {
            Some(block) => block,
            None => return Decoded::nothing(),
        };
        let kind: &str = wire::tag(block, "type");
        if same(kind, "text") {
            self.blocks.set(index, BlockKind::Text { citations: Vec::new() });
            Decoded::one(StreamAction::StartText { id, metadata: ProviderMetadata::new() })
        } else if same(kind, "thinking") {
            self.blocks.set(
                index,
                BlockKind::Thinking { text: String::new(), signature: String::new() },
            );
            Decoded::one(StreamAction::StartReasoning { id })
        } else if same(kind, "redacted_thinking") {
            self.blocks.set(
                index,
                BlockKind::RedactedThinking { data: wire::tag(block, "data").to_owned() },
            );
            Decoded::nothing()
        } else if same(kind, "tool_use") {
            self.start_tool_block(index, block)
        } else if same(kind, "compaction") {
            self.blocks.set(index, BlockKind::Compaction { content: String::new() });
            Decoded::one(StreamAction::CompactionStart)
        } else if is_server_tool_block(kind) {
            self.blocks.set(
                index,
                BlockKind::ProviderTool { block: block.clone(), input_json: String::new() },
            );
            Decoded::one(
                StreamAction::ProviderToolStart {
                    id: or_id(provider_tool_block_id(block), id),
                    kind: kind.to_owned(),
                },
            )
        } else {
            self.blocks.set(index, BlockKind::Unknown);
            Decoded::one(StreamAction::RawFrame(raw.to_owned()))
        }
    }

    fn handle_input_json_delta(&mut self, index: u64, partial: &str, raw: &str) -> (r: Decoded)
        ensures
            (Reply { state: final(self)@, decoded: r@ }) == old(self)@.input_delta(
                index,
                partial@,
                raw@,
            ),
    {
        if partial.is_empty() {
            return Decoded::nothing();
        }
        match self.blocks.get(index) {
            Some(BlockKind::Tool { call_id, start_input, accumulated }) => {
                let call_id: String = call_id.clone();
                let block: BlockKind = BlockKind::Tool {
                    call_id: call_id.clone(),
                    start_input: start_input.clone(),
                    accumulated: cat(accumulated.as_str(), partial),
                };
                self.blocks.set(index, block);
                Decoded::one(StreamAction::ToolDelta { call_id, delta: partial.to_owned() })
            },
            Some(BlockKind::ProviderTool { block, input_json }) => {
                let block: BlockKind = BlockKind::ProviderTool {
                    block: block.clone(),
                    input_json: cat(input_json.as_str(), partial),
                };
                self.blocks.set(index, block);
                Decoded::nothing()
            },
            _ => Decoded::one(StreamAction::RawFrame(raw.to_owned())),
        }
    }

    fn handle_thinking(&mut self, index: u64, text: &str, signature: &str)
        ensures
            final(self)@ == match slot(old(self)@.blocks, index) {
                Some(BlockView::Thinking { text: a, signature: b }) => old(self)@.opening(
                    index,
                    BlockView::Thinking { text: a + text@, signature: b + signature@ },
                ),
                _ => old(self)@,
            },
    {
        if let Some(BlockKind::Thinking { text: a, signature: b }) = self.blocks.get(index) {
            let block: BlockKind = BlockKind::Thinking {
                text: cat(a.as_str(), text),
                signature: cat(b.as_str(), signature),
            };
            self.blocks.set(index, block);
        }
    }

    fn handle_compaction_delta(&mut self, index: u64, more: &str) -> (r: Decoded)
        ensures
            (Reply { state: final(self)@, decoded: r@ }) == match slot(old(self)@.blocks, index) {
                Some(BlockView::Compaction { content }) => old(self)@.opening(
                    index,
                    BlockView::Compaction { content: content + more@ },
                ).doing(seq![Action::CompactionDelta { delta: more@ }]),
                _ => old(self)@.doing(Seq::empty()),
            },
    {
        if let Some(BlockKind::Compaction { content }) = self.blocks.get(index) {
            let block: BlockKind = BlockKind::Compaction { content: cat(content.as_str(), more) };
            self.blocks.set(index, block);
            return Decoded::one(StreamAction::CompactionDelta { delta: more.to_owned() });
        }
        Decoded::nothing()
    }

    fn handle_citation(&mut self, index: u64, citation: Option<&Json>) -> (r: Decoded)
        ensures
            (Reply { state: final(self)@, decoded: r@ }) == match (
                opt(citation),
                slot(old(self)@.blocks, index),
            ) {
                (Some(citation), Some(BlockView::Text { citations })) => old(self)@.opening(
                    index,
                    BlockView::Text { citations: citations.push(citation) },
                ).doing(
                    seq![
                        Action::Citation {
                            text_id: Some(decimal(index as nat)),
                            citation: citation_of(citation),
                        },
                    ],
                ),
                _ => old(self)@.doing(Seq::empty()),
            },
    {
        let citation: &Json = match citation {
            Some(citation) => citation,
            None => return Decoded::nothing(),
        };
        if let Some(BlockKind::Text { citations }) = self.blocks.get(index) {
            let mut list: Vec<Json> = citations.clone();
            assert(views(list@) =~= views(citations@));
            list.push(citation.clone());
            self.blocks.set(index, BlockKind::Text { citations: list });
            return Decoded::one(
                StreamAction::Citation {
                    text_id: Some(decimal_text(index)),
                    citation: Citation::from_raw(citation.clone()),
                },
            );
        }
        Decoded::nothing()
    }

    fn handle_content_block_delta(&mut self, v: &Json, raw: &str) -> (r: Decoded)
        ensures
            (Reply { state: final(self)@, decoded: r@ }) == old(self)@.block_delta(v@, raw@),
    {
        let index: u64 = block_index(v);
        let id: String = decimal_text(index);
        let delta: &Json = match wire::value(v, "delta") {
            Some(delta) => delta,
            None => return Decoded::nothing(),
        };
        let nothing_more: String = String::new();
        let kind: &str = wire::tag(delta, "type");
        if same(kind, "text_delta") {
            Decoded::one(StreamAction::TextDelta { id, delta: wire::tag(delta, "text").to_owned() })
        } else if same(kind, "thinking_delta") {
            let text: &str = wire::tag(delta, "thinking");
            self.handle_thinking(index, text, nothing_more.as_str());
            assert(self@ =~= old(self)@.block_delta(v@, raw@).state);
            Decoded::one(StreamAction::ReasoningDelta { id, delta: text.to_owned() })
        } else if same(kind, "signature_delta") {
            self.handle_thinking(index, nothing_more.as_str(), wire::tag(delta, "signature"));
            assert(self@ =~= old(self)@.block_delta(v@, raw@).state);
            Decoded::nothing()
        } else if same(kind, "input_json_delta") {
            self.handle_input_json_delta(index, wire::tag(delta, "partial_json"), raw)
        } else if same(kind, "compaction_delta") {
            self.handle_compaction_delta(index, wire::tag(delta, "content"))
        } else if same(kind, "citations_delta") {
            self.handle_citation(index, delta.get("citation"))
        } else {
            Decoded::one(StreamAction::RawFrame(raw.to_owned()))
        }
    }

    fn handle_message_delta(&mut self, v: &Json) -> (r: Decoded)
        ensures
            (Reply { state: final(self)@, decoded: r@ }) == old(self)@.message_delta(v@),
    {
        let mut actions: Vec<StreamAction> = Vec::new();
        if let Some(context) = wire::value(v, "context_management") {
            actions.push(
                StreamAction::ProviderMetadata(
                    anthropic_metadata("context_management", context.clone()),
                ),
            );
        }
        if let Some(usage) = wire::value(v, "usage") {
            actions.push(StreamAction::MergeUsage(to_usage(usage)));
        }
        if let Some(delta) = wire::value(v, "delta") {
            if let Some(details) = delta.get("stop_details") {
                actions.push(
                    StreamAction::ProviderMetadata(
                        anthropic_metadata("stop_details", details.clone()),
                    ),
                );
            }
            if let Some(reason) = wire::text(delta, "stop_reason") {
                self.finish = Some(finish_from_stop_reason(Some(reason)));
            }
        }
        assert(views(actions@) =~= old(self)@.message_delta(v@).decoded.actions);
        Decoded::done(actions)
    }

    fn handle_error(&mut self, error: Option<&Json>) -> (r: Decoded)
        ensures
            (Reply { state: final(self)@, decoded: r@ }) == old(self)@.error(opt(error)),
    {
        let mut actions: Vec<StreamAction> = Vec::new();
        actions.push(StreamAction::Error(decode_event_error(error, self.profile)));
        self.done = true;
        actions.push(StreamAction::Finish(Finish::with_raw(FinishReason::Error, "error")));
        assert(views(actions@) =~= old(self)@.error(opt(error)).decoded.actions);
        Decoded::done(actions)
    }

    fn handle_event(&mut self, v: &Json, raw: &str) -> (r: Decoded)
        ensures
            (Reply { state: final(self)@, decoded: r@ }) == old(self)@.event(v@, raw@),
    {
        let kind: &str = wire::tag(v, "type");
        if same(kind, "message_start") {
            handle_message_start(wire::value(v, "message"))
        } else if same(kind, "content_block_start") {
            self.handle_content_block_start(v, raw)
        } else if same(kind, "content_block_delta") {
            self.handle_content_block_delta(v, raw)
        } else if same(kind, "content_block_stop") {
            let index: u64 = block_index(v);
            let block: Option<BlockKind> = self.blocks.take(index);
            Decoded::done(close_block(index, block, true))
        } else if same(kind, "message_delta") {
            self.handle_message_delta(v)
        } else if same(kind, "message_stop") {
            self.finish_now()
        } else if same(kind, "ping") {
            Decoded::nothing()
        } else if same(kind, "error") {
            self.handle_error(wire::value(v, "error"))
        } else {
            Decoded::one(StreamAction::RawFrame(raw.to_owned()))
        }
    }

    /// Decodes one frame of the stream.
    ///
    /// Type mismatches fail the stream: demoting them would silently lose the
    /// stop reason or usage.
    pub fn on_frame(&mut self, data: &str) -> (r: Decoded)
        ensures
            (Reply { state: final(self)@, decoded: r@ }) == old(self)@.frame(data@),
    {
        if self.done {
            return Decoded::nothing();
        }
        match Json::parse(data) {
            Ok(v) => {
                let message_readable: bool = match wire::value(&v, "message") {
                    Some(m) => may_be_message(m),
                    None => true,
                };
                let usage_readable: bool = match wire::value(&v, "usage") {
                    Some(u) => may_be_usage(u),
                    None => true,
                };
                if matches!(v, Json::Object(_)) && wire::may_be_tag(&v, "type")
                    && wire::may_be_count(&v, "index") && message_readable && usage_readable {
                    self.handle_event(&v, data)
                } else {
                    Decoded::failed(
                        Error::malformed(
                            cat("anthropic: invalid stream event: ", UNEXPECTED_TYPE).as_str(),
                        ),
                    )
                }
            },
            Err(e) => Decoded::failed(
                Error::malformed(cat("anthropic: invalid stream event: ", e.as_str()).as_str()),
            ),
        }
    }

    /// The end of the provider's stream.
    pub fn on_eof(&mut self) -> (r: Decoded)
        ensures
            (Reply { state: final(self)@, decoded: r@ }) == old(self)@.eof(),
    {
        if self.finish.is_some() {
            self.finish_now()
        } else {
            Decoded::nothing()
        }
    }
}

proof fn lemma_closings_stay_open(blocks: SlotsView<BlockView>)
    ensures
        forall|i: int|
            0 <= i < closings(blocks).len() ==> !ends(#[trigger] closings(blocks)[i]),
    decreases blocks.len(),
{
    if blocks.len() > 0 {
        lemma_closings_stay_open(blocks.skip(1));
        let first = closing(blocks[0].0, Some(blocks[0].1), false);
        assert forall|i: int| 0 <= i < closings(blocks).len() implies !ends(
            #[trigger] closings(blocks)[i],
        ) by {
            if i >= first.len() {
                assert(closings(blocks)[i] == closings(blocks.skip(1))[i - first.len()]);
            }
        }
    }
}

/// Nothing follows the end of the stream in what a frame or the end of the
/// source does, and a decoder that has ended the stream does nothing more.
pub proof fn frames_end_at_most_once(d: AnthropicView, data: Seq<char>)
    ensures
        ends_last(d.frame(data).decoded.actions),
        ends_last(d.eof().decoded.actions),
        d.done ==> d.frame(data).decoded.actions.len() == 0 && d.eof().decoded.actions.len() == 0,
        d.frame(data).decoded.error is Some ==> quiet(d.frame(data).decoded.actions),
        d.eof().decoded.error is Some ==> quiet(d.eof().decoded.actions),
{
    lemma_closings_stay_open(d.blocks);
}

} // verus!
