//! Block lifecycles and the terminal contract, enforced for every decoder.
//!
//! The state of a [`StreamNormalizer`] is a [`NormalizerView`]. What each
//! operation does is a function from a state to a [`Step`]: the next state and
//! the events that come out.
use vstd::prelude::*;

use super::event::{Citation, StreamEvent, StreamEventView};
use crate::error::{new_error, Error, ErrorKind, ErrorView};
use crate::json::{json_parse, Json};
use crate::message::{
    normal_arguments, AssistantPart, AssistantPartView, CompactionPart, CompactionPartView,
    ProviderToolPart, ProviderToolPartView, ReasoningContent, ReasoningContentView, ReasoningPart,
    ReasoningPartView, ToolCall, ToolCallView,
};
use crate::metadata::{no_metadata, MetadataView, ProviderMetadata};
use crate::model::{opt, views};
use crate::response::{
    Finish, FinishReason, FinishView, GenerateResult, GenerateResultView, ResponseMetadata,
    ResponseMetadataView,
};
use crate::text::{cat, decimal, decimal_text, same};
use crate::usage::{no_usage, Usage};
use crate::util::merge_objects;

verus! {

broadcast use crate::model::group_views;

/// Enforces block lifecycles and the terminal contract for every decoder.
#[derive(Debug)]
pub struct StreamNormalizer {
    open: Vec<OpenBlock>,
    usage: Usage,
    finished: bool,
    errored: bool,
    error_context: Option<ErrorContext>,
    include_raw: bool,
}

#[derive(Debug)]
struct ErrorContext {
    origin: String,
    model: String,
    request_id: Option<String>,
}

#[derive(Debug)]
enum OpenBlock {
    Text { id: String, provider_metadata: ProviderMetadata },
    Reasoning { id: String, buffer: String },
    Tool {
        call_id: String,
        name: String,
        item_id: Option<String>,
        provider_call_id: Option<String>,
        arguments: String,
        provider_metadata: ProviderMetadata,
        completed: bool,
        /// Complete arguments that override accumulated deltas.
        final_arguments: Option<String>,
    },
    ProviderTool { id: String },
    Compaction,
}

/// What is known of the request when an error comes.
#[verifier::ext_equal]
pub struct ErrorContextView {
    pub origin: Seq<char>,
    pub model: Seq<char>,
    pub request_id: Option<Seq<char>>,
}

/// A block that has started and not ended.
#[verifier::ext_equal]
pub enum OpenBlockView {
    Text { id: Seq<char>, provider_metadata: MetadataView },
    Reasoning { id: Seq<char>, buffer: Seq<char> },
    Tool {
        call_id: Seq<char>,
        name: Seq<char>,
        item_id: Option<Seq<char>>,
        provider_call_id: Option<Seq<char>>,
        arguments: Seq<char>,
        provider_metadata: MetadataView,
        completed: bool,
        final_arguments: Option<Seq<char>>,
    },
    ProviderTool { id: Seq<char> },
    Compaction,
}

/// The state of a normalizer.
#[verifier::ext_equal]
pub struct NormalizerView {
    /// The open blocks, in the order in which they started.
    pub open: Seq<OpenBlockView>,
    pub usage: Usage,
    pub finished: bool,
    pub errored: bool,
    pub error_context: Option<ErrorContextView>,
    pub include_raw: bool,
}

/// What an operation does: the next state, and the events that come out.
#[verifier::ext_equal]
pub struct Step {
    pub state: NormalizerView,
    pub events: Seq<StreamEventView>,
}

impl View for ErrorContext {
    type V = ErrorContextView;

    closed spec fn view(&self) -> ErrorContextView {
        ErrorContextView {
            origin: self.origin@,
            model: self.model@,
            request_id: opt(self.request_id),
        }
    }
}

impl View for OpenBlock {
    type V = OpenBlockView;

    closed spec fn view(&self) -> OpenBlockView {
        match *self {
            OpenBlock::Text { id, provider_metadata } => OpenBlockView::Text {
                id: id@,
                provider_metadata: provider_metadata@,
            },
            OpenBlock::Reasoning { id, buffer } => OpenBlockView::Reasoning {
                id: id@,
                buffer: buffer@,
            },
            OpenBlock::Tool {
                call_id,
                name,
                item_id,
                provider_call_id,
                arguments,
                provider_metadata,
                completed,
                final_arguments,
            } => OpenBlockView::Tool {
                call_id: call_id@,
                name: name@,
                item_id: opt(item_id),
                provider_call_id: opt(provider_call_id),
                arguments: arguments@,
                provider_metadata: provider_metadata@,
                completed,
                final_arguments: opt(final_arguments),
            },
            OpenBlock::ProviderTool { id } => OpenBlockView::ProviderTool { id: id@ },
            OpenBlock::Compaction => OpenBlockView::Compaction,
        }
    }
}

impl View for StreamNormalizer {
    type V = NormalizerView;

    closed spec fn view(&self) -> NormalizerView {
        NormalizerView {
            open: views(self.open@),
            usage: self.usage,
            finished: self.finished,
            errored: self.errored,
            error_context: opt(self.error_context),
            include_raw: self.include_raw,
        }
    }
}

/// Which lifecycle a block belongs to.
pub enum Lane {
    Text(Seq<char>),
    Reasoning(Seq<char>),
    Tool(Seq<char>),
    ProviderTool(Seq<char>),
    Compaction,
}

/// The lifecycle of an open block.
pub open spec fn lane(block: OpenBlockView) -> Lane {
    match block {
        OpenBlockView::Text { id, .. } => Lane::Text(id),
        OpenBlockView::Reasoning { id, .. } => Lane::Reasoning(id),
        OpenBlockView::Tool { call_id, .. } => Lane::Tool(call_id),
        OpenBlockView::ProviderTool { id } => Lane::ProviderTool(id),
        OpenBlockView::Compaction => Lane::Compaction,
    }
}

/// The first open block of a lifecycle, at or after a position.
pub open spec fn find_from(open: Seq<OpenBlockView>, l: Lane, i: int) -> Option<int>
    decreases open.len() - i,
{
    if i < 0 || i >= open.len() {
        None
    } else if lane(open[i]) == l {
        Some(i)
    } else {
        find_from(open, l, i + 1)
    }
}

/// The first open block of a lifecycle.
pub open spec fn find(open: Seq<OpenBlockView>, l: Lane) -> Option<int> {
    find_from(open, l, 0)
}

pub proof fn lemma_find(open: Seq<OpenBlockView>, l: Lane, i: int)
    requires
        0 <= i,
    ensures
        match find_from(open, l, i) {
            Some(p) => i <= p < open.len() && lane(open[p]) == l && forall|j: int|
                i <= j < p ==> lane(#[trigger] open[j]) != l,
            None => forall|j: int| i <= j < open.len() ==> lane(#[trigger] open[j]) != l,
        },
    decreases open.len() - i,
{
    if i < open.len() && lane(open[i]) != l {
        lemma_find(open, l, i + 1);
    }
}

/// A lifecycle that is open nowhere is found where its block is added.
pub proof fn lemma_find_added(open: Seq<OpenBlockView>, block: OpenBlockView)
    requires
        find(open, lane(block)) is None,
    ensures
        find(open.push(block), lane(block)) == Some(open.len() as int),
{
    lemma_find(open, lane(block), 0);
    lemma_find(open.push(block), lane(block), 0);
    let p = find(open.push(block), lane(block));
    assert(lane(open.push(block)[open.len() as int]) == lane(block));
    if p is Some && p->0 < open.len() {
        assert(lane(open[p->0]) != lane(block));
    }
}

impl NormalizerView {
    /// Nothing comes out, and nothing changes.
    pub open spec fn idle(self) -> Step {
        Step { state: self, events: Seq::empty() }
    }

    /// One event comes out.
    pub open spec fn emit(self, event: StreamEventView) -> Step {
        Step { state: self, events: seq![event] }
    }

    /// One more block is open.
    pub open spec fn opening(self, block: OpenBlockView) -> NormalizerView {
        NormalizerView { open: self.open.push(block), ..self }
    }

    /// One block is closed.
    pub open spec fn closing(self, i: int) -> NormalizerView {
        NormalizerView { open: self.open.remove(i), ..self }
    }

    /// One block has changed.
    pub open spec fn changing(self, i: int, block: OpenBlockView) -> NormalizerView {
        NormalizerView { open: self.open.update(i, block), ..self }
    }

    /// An error with what is known of the request, where it does not say so
    /// itself.
    pub open spec fn enrich(self, error: ErrorView) -> ErrorView {
        match self.error_context {
            Some(context) => ErrorView {
                origin: if error.origin is None {
                    Some(context.origin)
                } else {
                    error.origin
                },
                model: if error.model is None {
                    Some(context.model)
                } else {
                    error.model
                },
                request_id: if error.request_id is None {
                    context.request_id
                } else {
                    error.request_id
                },
                ..error
            },
            None => error,
        }
    }

    /// Starts a text block, where none with this id is open.
    pub open spec fn start_text(self, id: Seq<char>, metadata: MetadataView) -> Step {
        if find(self.open, Lane::Text(id)) is Some {
            self.idle()
        } else {
            self.opening(OpenBlockView::Text { id, provider_metadata: metadata }).emit(
                StreamEventView::TextStart { id, provider_metadata: metadata },
            )
        }
    }

    /// Text of a block, which starts here if it is not open.
    pub open spec fn text_delta(self, id: Seq<char>, delta: Seq<char>) -> Step {
        let s = self.start_text(id, no_metadata());
        Step { state: s.state, events: s.events.push(StreamEventView::TextDelta { id, delta }) }
    }

    /// Extras for the end of an open text block.
    pub open spec fn text_metadata(self, id: Seq<char>, metadata: MetadataView) -> NormalizerView {
        match find(self.open, Lane::Text(id)) {
            Some(i) => self.changing(
                i,
                OpenBlockView::Text {
                    id,
                    provider_metadata: merge_objects(
                        self.open[i]->Text_provider_metadata,
                        metadata,
                    ),
                },
            ),
            None => self,
        }
    }

    /// Ends an open text block.
    pub open spec fn end_text(self, id: Seq<char>) -> Step {
        match find(self.open, Lane::Text(id)) {
            Some(i) => self.closing(i).emit(
                StreamEventView::TextEnd {
                    id,
                    provider_metadata: self.open[i]->Text_provider_metadata,
                },
            ),
            None => self.idle(),
        }
    }

    /// Starts a reasoning block, where none with this id is open.
    pub open spec fn start_reasoning(self, id: Seq<char>) -> Step {
        if find(self.open, Lane::Reasoning(id)) is Some {
            self.idle()
        } else {
            self.opening(OpenBlockView::Reasoning { id, buffer: Seq::empty() }).emit(
                StreamEventView::ReasoningStart { id },
            )
        }
    }

    /// Reasoning text of a block, which starts here if it is not open.
    pub open spec fn reasoning_delta(self, id: Seq<char>, delta: Seq<char>) -> Step {
        let s = self.start_reasoning(id);
        let i = find(s.state.open, Lane::Reasoning(id))->0;
        Step {
            state: s.state.changing(
                i,
                OpenBlockView::Reasoning {
                    id,
                    buffer: s.state.open[i]->Reasoning_buffer + delta,
                },
            ),
            events: s.events.push(StreamEventView::ReasoningDelta { id, delta }),
        }
    }

    /// Ends a reasoning block with typed content, or with the text that was
    /// streamed. A block with content that never started starts here.
    pub open spec fn end_reasoning(self, id: Seq<char>, part: Option<ReasoningPartView>) -> Step {
        match find(self.open, Lane::Reasoning(id)) {
            Some(i) => self.closing(i).emit(
                StreamEventView::ReasoningEnd {
                    id,
                    part: closed_reasoning(part, self.open[i]->Reasoning_buffer),
                },
            ),
            None => match part {
                Some(p) => Step {
                    state: self,
                    events: seq![
                        StreamEventView::ReasoningStart { id },
                        StreamEventView::ReasoningEnd { id, part: p },
                    ],
                },
                None => self.idle(),
            },
        }
    }

    /// Starts a tool block, where none for this call is open.
    pub open spec fn start_tool(
        self,
        call_id: Seq<char>,
        name: Seq<char>,
        item_id: Option<Seq<char>>,
        provider_call_id: Option<Seq<char>>,
    ) -> Step {
        if find(self.open, Lane::Tool(call_id)) is Some {
            self.idle()
        } else {
            self.opening(
                OpenBlockView::Tool {
                    call_id,
                    name,
                    item_id,
                    provider_call_id,
                    arguments: Seq::empty(),
                    provider_metadata: no_metadata(),
                    completed: false,
                    final_arguments: None,
                },
            ).emit(
                StreamEventView::ToolInputStart { call_id, name, item_id, provider_call_id },
            )
        }
    }

    /// Argument text of an open tool block; without one it is lost.
    pub open spec fn tool_delta(self, call_id: Seq<char>, delta: Seq<char>) -> Step {
        match find(self.open, Lane::Tool(call_id)) {
            Some(i) => self.changing(
                i,
                match self.open[i] {
                    OpenBlockView::Tool {
                        call_id,
                        name,
                        item_id,
                        provider_call_id,
                        arguments,
                        provider_metadata,
                        completed,
                        final_arguments,
                    } => OpenBlockView::Tool {
                        call_id,
                        name,
                        item_id,
                        provider_call_id,
                        arguments: arguments + delta,
                        provider_metadata,
                        completed,
                        final_arguments,
                    },
                    other => other,
                },
            ).emit(StreamEventView::ToolInputDelta { call_id, delta }),
            None => self.idle(),
        }
    }

    /// Extras for the call of an open tool block.
    pub open spec fn tool_metadata(
        self,
        call_id: Seq<char>,
        metadata: MetadataView,
    ) -> NormalizerView {
        match find(self.open, Lane::Tool(call_id)) {
            Some(i) => self.changing(
                i,
                match self.open[i] {
                    OpenBlockView::Tool {
                        call_id,
                        name,
                        item_id,
                        provider_call_id,
                        arguments,
                        provider_metadata,
                        completed,
                        final_arguments,
                    } => OpenBlockView::Tool {
                        call_id,
                        name,
                        item_id,
                        provider_call_id,
                        arguments,
                        provider_metadata: merge_objects(provider_metadata, metadata),
                        completed,
                        final_arguments,
                    },
                    other => other,
                },
            ),
            None => self,
        }
    }

    /// Marks an open tool block as complete.
    pub open spec fn complete_tool(
        self,
        call_id: Seq<char>,
        final_text: Option<Seq<char>>,
    ) -> NormalizerView {
        match find(self.open, Lane::Tool(call_id)) {
            Some(i) => self.changing(
                i,
                match self.open[i] {
                    OpenBlockView::Tool {
                        call_id,
                        name,
                        item_id,
                        provider_call_id,
                        arguments,
                        provider_metadata,
                        completed,
                        final_arguments,
                    } => OpenBlockView::Tool {
                        call_id,
                        name,
                        item_id,
                        provider_call_id,
                        arguments,
                        provider_metadata,
                        completed: true,
                        final_arguments: if final_text is Some {
                            final_text
                        } else {
                            final_arguments
                        },
                    },
                    other => other,
                },
            ),
            None => self,
        }
    }

    /// The end of a tool block that was complete and has been closed: the call
    /// comes out if its arguments are JSON; if they are not, the stream has
    /// failed; and once it has failed no call comes out.
    pub open spec fn promote(self, block: OpenBlockView) -> Step {
        let call = completed_call(block);
        let end = StreamEventView::ToolInputEnd { call_id: call.call_id };
        if self.errored {
            self.emit(end)
        } else {
            match json_parse(call.arguments) {
                Ok(_) => Step {
                    state: self,
                    events: seq![end, StreamEventView::ToolCall(call)],
                },
                Err(e) => Step {
                    state: self.error(invalid_arguments(call.call_id, e)).state,
                    events: seq![end] + self.error(invalid_arguments(call.call_id, e)).events,
                },
            }
        }
    }

    /// Ends the complete tool blocks at or after a position, in order.
    pub open spec fn promote_from(self, i: int) -> Step
        decreases self.open.len() - i,
    {
        if i < 0 || i >= self.open.len() {
            self.idle()
        } else if !is_complete_tool(self.open[i]) {
            self.promote_from(i + 1)
        } else {
            let first = self.closing(i).promote(self.open[i]);
            let rest = first.state.promote_from(i);
            Step { state: rest.state, events: first.events + rest.events }
        }
    }

    /// Starts the compaction, where it is not open.
    pub open spec fn compaction_start(self) -> Step {
        if find(self.open, Lane::Compaction) is Some {
            self.idle()
        } else {
            self.opening(OpenBlockView::Compaction).emit(StreamEventView::CompactionStart)
        }
    }

    /// Summary text of the compaction, which starts here if it is not open.
    pub open spec fn compaction_delta(self, delta: Seq<char>) -> Step {
        let s = self.compaction_start();
        Step { state: s.state, events: s.events.push(StreamEventView::CompactionDelta { delta }) }
    }

    /// Gives up an open compaction.
    pub open spec fn compaction_abort(self) -> Step {
        match find(self.open, Lane::Compaction) {
            Some(i) => self.closing(i).emit(StreamEventView::CompactionAbort),
            None => self.idle(),
        }
    }

    /// Ends the compaction with its part; one that never started starts here.
    pub open spec fn compaction(self, part: CompactionPartView) -> Step {
        match find(self.open, Lane::Compaction) {
            Some(i) => self.closing(i).emit(StreamEventView::Compaction(part)),
            None => Step {
                state: self,
                events: seq![
                    StreamEventView::CompactionStart,
                    StreamEventView::Compaction(part),
                ],
            },
        }
    }

    /// Starts a provider tool, where none with this id is open.
    pub open spec fn provider_tool_start(self, id: Seq<char>, kind: Seq<char>) -> Step {
        if find(self.open, Lane::ProviderTool(id)) is Some {
            self.idle()
        } else {
            self.opening(OpenBlockView::ProviderTool { id }).emit(
                StreamEventView::ProviderToolStart { id, kind },
            )
        }
    }

    /// Ends a provider tool with its part; one that never started starts here.
    pub open spec fn provider_tool_end(self, id: Seq<char>, part: ProviderToolPartView) -> Step {
        match find(self.open, Lane::ProviderTool(id)) {
            Some(i) => self.closing(i).emit(StreamEventView::ProviderToolEnd(part)),
            None => Step {
                state: self,
                events: seq![
                    StreamEventView::ProviderToolStart { id, kind: part.kind },
                    StreamEventView::ProviderToolEnd(part),
                ],
            },
        }
    }

    /// Response-level extras, dropped when there are none.
    pub open spec fn provider_metadata(self, metadata: MetadataView) -> Step {
        if metadata == no_metadata() {
            self.idle()
        } else {
            self.emit(StreamEventView::ProviderMetadata(metadata))
        }
    }

    /// An unrecognized frame, where raw events were requested and it is JSON.
    pub open spec fn raw_frame(self, data: Seq<char>) -> Step {
        match json_parse(data) {
            Ok(value) => if self.include_raw {
                self.emit(StreamEventView::Raw { value })
            } else {
                self.idle()
            },
            Err(_) => self.idle(),
        }
    }

    /// A later usage report.
    pub open spec fn merge_usage(self, usage: Usage) -> NormalizerView {
        NormalizerView { usage: self.usage.merged(usage), ..self }
    }

    /// The first failure of the stream; later ones are not reported.
    pub open spec fn error(self, error: ErrorView) -> Step {
        if self.errored {
            self.idle()
        } else {
            Step {
                state: NormalizerView { errored: true, ..self },
                events: seq![StreamEventView::Error { error: self.enrich(error) }],
            }
        }
    }

    /// A failure that ends the stream.
    pub open spec fn fail(self, error: ErrorView) -> Step {
        let s = self.error(error);
        let t = s.state.finish(FinishView { reason: FinishReason::Error, raw: None });
        Step { state: t.state, events: s.events + t.events }
    }

    /// The complete calls come out unless the finish discards them or the
    /// stream has failed; then all that is open is closed, and the terminal
    /// event comes.
    pub open spec fn finish(self, finish: FinishView) -> Step {
        if self.finished {
            self.idle()
        } else {
            let s = if !self.errored && !finish.reason.discards() {
                self.promote_from(0)
            } else {
                self.idle()
            };
            Step {
                state: NormalizerView {
                    open: Seq::empty(),
                    usage: no_usage(),
                    finished: true,
                    ..s.state
                },
                events: s.events + closings(s.state.open) + seq![
                    StreamEventView::Finish {
                        finish: FinishView {
                            reason: final_reason(
                                finish.reason,
                                has_call(s.events),
                                s.state.errored,
                            ),
                            raw: finish.raw,
                        },
                        usage: s.state.usage,
                    },
                ],
            }
        }
    }

    /// The end of the provider's stream: a truncation, where it has not
    /// finished.
    pub open spec fn on_eof(self, error: ErrorView) -> Step {
        if self.finished {
            self.idle()
        } else {
            let s = NormalizerView { open: Seq::empty(), ..self }.fail(self.enrich(error));
            Step { state: s.state, events: closings(self.open) + s.events }
        }
    }

    /// One part of a buffered result, through the block lifecycle.
    pub open spec fn replay_part(self, index: int, part: AssistantPartView) -> Step {
        let id = decimal(index as nat);
        match part {
            AssistantPartView::Text { text, provider_metadata } => {
                let s = self.start_text(id, provider_metadata);
                let t = if text.len() == 0 {
                    s.state.idle()
                } else {
                    s.state.text_delta(id, text)
                };
                let u = t.state.end_text(id);
                Step { state: u.state, events: s.events + t.events + u.events }
            },
            AssistantPartView::Reasoning(part) => {
                let s = self.start_reasoning(id);
                let t = if part.visible_text().len() == 0 {
                    s.state.idle()
                } else {
                    s.state.reasoning_delta(id, part.visible_text())
                };
                let u = t.state.end_reasoning(id, Some(part));
                Step { state: u.state, events: s.events + t.events + u.events }
            },
            AssistantPartView::ToolCall(call) => {
                let s = self.start_tool(
                    call.call_id,
                    call.name,
                    call.item_id,
                    call.provider_call_id,
                );
                let t = s.state.tool_metadata(call.call_id, call.provider_metadata).tool_delta(
                    call.call_id,
                    call.arguments,
                );
                Step {
                    state: t.state.complete_tool(call.call_id, None),
                    events: s.events + t.events,
                }
            },
            AssistantPartView::Compaction(part) => self.compaction(part),
            AssistantPartView::ProviderTool { provider_tool } => self.provider_tool_end(
                match provider_tool.id {
                    Some(id) => id,
                    None => id,
                },
                provider_tool,
            ),
        }
    }

    /// The first `n` parts of a buffered result.
    pub open spec fn replay_parts(self, content: Seq<AssistantPartView>, n: int) -> Step
        decreases n,
    {
        if n <= 0 {
            self.idle()
        } else {
            let s = self.replay_parts(content, n - 1);
            let t = s.state.replay_part(n - 1, content[n - 1]);
            Step { state: t.state, events: s.events + t.events }
        }
    }

    /// A buffered result, replayed through the block lifecycle to its end.
    pub open spec fn replay(self, result: GenerateResultView) -> Step {
        let identity = if result.response.id is Some || result.response.model is Some {
            seq![
                StreamEventView::ResponseMetadata(
                    ResponseMetadataView { request_id: None, ..result.response },
                ),
            ]
        } else {
            Seq::empty()
        };
        let s = self.provider_metadata(result.provider_metadata);
        let t = s.state.replay_parts(result.content, result.content.len() as int);
        let u = t.state.merge_usage(result.usage).finish(result.finish);
        Step { state: u.state, events: identity + s.events + t.events + u.events }
    }
}

/// The reasoning that a block ends with: the typed content, or the streamed
/// text where there is none.
pub open spec fn closed_reasoning(
    part: Option<ReasoningPartView>,
    buffer: Seq<char>,
) -> ReasoningPartView {
    let p = match part {
        Some(p) => p,
        None => ReasoningPartView {
            id: None,
            content: Seq::empty(),
            provider_metadata: no_metadata(),
        },
    };
    if p.content.len() == 0 && buffer.len() > 0 {
        ReasoningPartView {
            content: seq![ReasoningContentView::Text { text: buffer, signature: None }],
            ..p
        }
    } else {
        p
    }
}

/// Whether a block is a tool block that is complete.
pub open spec fn is_complete_tool(block: OpenBlockView) -> bool {
    block is Tool && block->Tool_completed
}

/// The call that a tool block has come to.
pub open spec fn completed_call(block: OpenBlockView) -> ToolCallView {
    ToolCallView {
        call_id: block->Tool_call_id,
        item_id: block->Tool_item_id,
        provider_call_id: block->Tool_provider_call_id,
        name: block->Tool_name,
        arguments: normal_arguments(
            match block->Tool_final_arguments {
                Some(text) => text,
                None => block->Tool_arguments,
            },
        ),
        provider_metadata: block->Tool_provider_metadata,
    }
}

/// The failure that a complete call without JSON arguments is.
pub open spec fn invalid_arguments(call_id: Seq<char>, reason: Seq<char>) -> ErrorView {
    new_error(
        ErrorKind::MalformedResponse,
        "tool call `"@ + call_id + "` completed with invalid JSON arguments: "@ + reason,
    ).with_source(reason)
}

/// The event that closes a block at the end of the stream.
pub open spec fn closing_event(block: OpenBlockView) -> StreamEventView {
    match block {
        OpenBlockView::Text { id, provider_metadata } => StreamEventView::TextEnd {
            id,
            provider_metadata,
        },
        OpenBlockView::Reasoning { id, buffer } => StreamEventView::ReasoningEnd {
            id,
            part: closed_reasoning(None, buffer),
        },
        OpenBlockView::Tool { call_id, .. } => StreamEventView::ToolInputEnd { call_id },
        OpenBlockView::ProviderTool { id } => StreamEventView::ProviderToolAbort { id },
        OpenBlockView::Compaction => StreamEventView::CompactionAbort,
    }
}

/// The events that close blocks at the end of the stream, the last one first.
pub open spec fn closings(open: Seq<OpenBlockView>) -> Seq<StreamEventView>
    decreases open.len(),
{
    if open.len() == 0 {
        Seq::empty()
    } else {
        seq![closing_event(open.last())] + closings(open.drop_last())
    }
}

/// Whether a tool call is among the events.
pub open spec fn has_call(events: Seq<StreamEventView>) -> bool {
    exists|i: int| 0 <= i < events.len() && #[trigger] events[i] is ToolCall
}

/// The reason a stream finishes with.
pub open spec fn final_reason(reason: FinishReason, called: bool, errored: bool) -> FinishReason {
    if errored {
        FinishReason::Error
    } else if called && reason is Stop {
        FinishReason::ToolCalls
    } else {
        reason
    }
}

/// A lifecycle to look for.
enum Probe<'a> {
    Text(&'a str),
    Reasoning(&'a str),
    Tool(&'a str),
    ProviderTool(&'a str),
    Compaction,
}

spec fn probe_lane(probe: Probe) -> Lane {
    match probe {
        Probe::Text(id) => Lane::Text(id@),
        Probe::Reasoning(id) => Lane::Reasoning(id@),
        Probe::Tool(id) => Lane::Tool(id@),
        Probe::ProviderTool(id) => Lane::ProviderTool(id@),
        Probe::Compaction => Lane::Compaction,
    }
}

fn block_matches(block: &OpenBlock, probe: &Probe) -> (r: bool)
    ensures
        r == (lane(block@) == probe_lane(*probe)),
{
    match (block, probe) {
        (OpenBlock::Text { id, .. }, Probe::Text(wanted)) => same(id.as_str(), wanted),
        (OpenBlock::Reasoning { id, .. }, Probe::Reasoning(wanted)) => same(id.as_str(), wanted),
        (OpenBlock::Tool { call_id, .. }, Probe::Tool(wanted)) => same(call_id.as_str(), wanted),
        (OpenBlock::ProviderTool { id }, Probe::ProviderTool(wanted)) => same(id.as_str(), wanted),
        (OpenBlock::Compaction, Probe::Compaction) => true,
        _ => false,
    }
}

fn position(open: &Vec<OpenBlock>, probe: Probe) -> (r: Option<usize>)
    ensures
        match r {
            Some(i) => i < open@.len() && find(views(open@), probe_lane(probe)) == Some(i as int)
                && lane(open@[i as int]@) == probe_lane(probe),
            None => find(views(open@), probe_lane(probe)) is None,
        },
{
    let mut i: usize = 0;
    while i < open.len()
        invariant
            i <= open@.len(),
            find(views(open@), probe_lane(probe)) == find_from(
                views(open@),
                probe_lane(probe),
                i as int,
            ),
        decreases open@.len() - i,
    {
        if block_matches(&open[i], &probe) {
            return Some(i);
        }
        i += 1;
    }
    None
}

fn empty_reasoning() -> (r: ReasoningPart)
    ensures
        r@ == (ReasoningPartView {
            id: None,
            content: Seq::empty(),
            provider_metadata: no_metadata(),
        }),
{
    ReasoningPart { id: None, content: Vec::new(), provider_metadata: ProviderMetadata::new() }
}

fn close_reasoning(part: Option<ReasoningPart>, buffer: String) -> (r: ReasoningPart)
    ensures
        r@ == closed_reasoning(opt(part), buffer@),
{
    let mut part: ReasoningPart = match part {
        Some(part) => part,
        None => empty_reasoning(),
    };
    // Preserve visible deltas when typed content is empty.
    if part.content.len() == 0 && !buffer.as_str().is_empty() {
        part.content.push(ReasoningContent::Text { text: buffer, signature: None });
        assert(views(part.content@) =~= seq![
            ReasoningContentView::Text { text: buffer@, signature: None },
        ]);
    }
    part
}

impl StreamNormalizer {
    pub fn new(include_raw: bool) -> (r: StreamNormalizer)
        ensures
            r@ == (NormalizerView {
                open: Seq::empty(),
                usage: no_usage(),
                finished: false,
                errored: false,
                error_context: None,
                include_raw,
            }),
    {
        StreamNormalizer {
            open: Vec::new(),
            usage: Usage::default(),
            finished: false,
            errored: false,
            error_context: None,
            include_raw,
        }
    }

    pub fn with_error_context(
        self,
        origin: &str,
        model: &str,
        request_id: Option<String>,
    ) -> (r: StreamNormalizer)
        ensures
            r@ == (NormalizerView {
                error_context: Some(
                    ErrorContextView {
                        origin: origin@,
                        model: model@,
                        request_id: opt(request_id),
                    },
                ),
                ..self@
            }),
    {
        let mut r: StreamNormalizer = self;
        r.error_context = Some(
            ErrorContext { origin: origin.to_owned(), model: model.to_owned(), request_id },
        );
        r
    }

    fn enrich_error(&self, error: Error) -> (r: Error)
        ensures
            r@ == self@.enrich(error@),
    {
        let mut error: Error = error;
        match &self.error_context {
            Some(context) => {
                if error.origin().is_none() {
                    error = error.with_origin(context.origin.as_str());
                }
                if error.model().is_none() {
                    error = error.with_model(context.model.as_str());
                }
                if error.request_id().is_none() {
                    if let Some(request_id) = &context.request_id {
                        error = error.with_request_id(request_id.as_str());
                    }
                }
                error
            },
            None => error,
        }
    }

    pub fn is_finished(&self) -> (r: bool)
        ensures
            r == self@.finished,
    {
        self.finished
    }

    pub fn metadata(&mut self, out: &mut Vec<StreamEvent>, metadata: ResponseMetadata)
        ensures
            *final(self) == *old(self),
            views(final(out)@) == views(old(out)@).push(
                StreamEventView::ResponseMetadata(metadata@),
            ),
    {
        out.push(StreamEvent::ResponseMetadata(metadata));
    }

    pub fn start_text(&mut self, out: &mut Vec<StreamEvent>, id: String)
        ensures
            final(self)@ == old(self)@.start_text(id@, no_metadata()).state,
            views(final(out)@) == views(old(out)@) + old(self)@.start_text(
                id@,
                no_metadata(),
            ).events,
    {
        self.start_text_with_metadata(out, id, ProviderMetadata::new());
    }

    /// Open a text block with metadata available from its start.
    pub fn start_text_with_metadata(
        &mut self,
        out: &mut Vec<StreamEvent>,
        id: String,
        metadata: ProviderMetadata,
    )
        ensures
            final(self)@ == old(self)@.start_text(id@, metadata@).state,
            views(final(out)@) == views(old(out)@) + old(self)@.start_text(id@, metadata@).events,
    {
        if position(&self.open, Probe::Text(id.as_str())).is_none() {
            self.open.push(
                OpenBlock::Text { id: id.clone(), provider_metadata: metadata.clone() },
            );
            out.push(StreamEvent::TextStart { id, provider_metadata: metadata });
        }
    }

    pub fn text_delta(&mut self, out: &mut Vec<StreamEvent>, id: String, delta: String)
        ensures
            final(self)@ == old(self)@.text_delta(id@, delta@).state,
            views(final(out)@) == views(old(out)@) + old(self)@.text_delta(id@, delta@).events,
    {
        self.start_text(out, id.clone());
        out.push(StreamEvent::TextDelta { id, delta });
    }

    /// Attach provider metadata for delivery on the block's `TextEnd` event.
    pub fn text_metadata(&mut self, id: &str, metadata: ProviderMetadata)
        ensures
            final(self)@ == old(self)@.text_metadata(id@, metadata@),
    {
        if let Some(i) = position(&self.open, Probe::Text(id)) {
            if let OpenBlock::Text { provider_metadata, .. } = &mut self.open[i] {
                provider_metadata.merge(metadata);
            }
        }
        assert(self@ =~= old(self)@.text_metadata(id@, metadata@));
    }

    pub fn end_text(&mut self, out: &mut Vec<StreamEvent>, id: &str)
        ensures
            final(self)@ == old(self)@.end_text(id@).state,
            views(final(out)@) == views(old(out)@) + old(self)@.end_text(id@).events,
    {
        if let Some(i) = position(&self.open, Probe::Text(id)) {
            if let OpenBlock::Text { provider_metadata, .. } = self.open.remove(i) {
                out.push(StreamEvent::TextEnd { id: id.to_owned(), provider_metadata });
            }
        }
    }

    pub fn start_reasoning(&mut self, out: &mut Vec<StreamEvent>, id: String)
        ensures
            final(self)@ == old(self)@.start_reasoning(id@).state,
            views(final(out)@) == views(old(out)@) + old(self)@.start_reasoning(id@).events,
    {
        if position(&self.open, Probe::Reasoning(id.as_str())).is_none() {
            self.open.push(OpenBlock::Reasoning { id: id.clone(), buffer: String::new() });
            out.push(StreamEvent::ReasoningStart { id });
        }
    }

    pub fn reasoning_delta(&mut self, out: &mut Vec<StreamEvent>, id: String, delta: String)
        ensures
            final(self)@ == old(self)@.reasoning_delta(id@, delta@).state,
            views(final(out)@) == views(old(out)@) + old(self)@.reasoning_delta(
                id@,
                delta@,
            ).events,
    {
        self.start_reasoning(out, id.clone());
        let ghost started = self@;
        proof {
            if find(old(self)@.open, Lane::Reasoning(id@)) is None {
                lemma_find_added(
                    old(self)@.open,
                    OpenBlockView::Reasoning { id: id@, buffer: Seq::empty() },
                );
            }
        }
        if let Some(i) = position(&self.open, Probe::Reasoning(id.as_str())) {
            if let OpenBlock::Reasoning { buffer, .. } = &mut self.open[i] {
                buffer.append(delta.as_str());
            }
            assert(views(self.open@) =~= started.open.update(
                i as int,
                OpenBlockView::Reasoning {
                    id: id@,
                    buffer: started.open[i as int]->Reasoning_buffer + delta@,
                },
            ));
        }
        out.push(StreamEvent::ReasoningDelta { id, delta });
    }

    /// Close a reasoning block using typed content or accumulated delta text.
    pub fn end_reasoning(
        &mut self,
        out: &mut Vec<StreamEvent>,
        id: &str,
        part: Option<ReasoningPart>,
    )
        ensures
            final(self)@ == old(self)@.end_reasoning(id@, opt(part)).state,
            views(final(out)@) == views(old(out)@) + old(self)@.end_reasoning(
                id@,
                opt(part),
            ).events,
    {
        match position(&self.open, Probe::Reasoning(id)) {
            Some(i) => {
                if let OpenBlock::Reasoning { buffer, .. } = self.open.remove(i) {
                    let part: ReasoningPart = close_reasoning(part, buffer);
                    out.push(StreamEvent::ReasoningEnd { id: id.to_owned(), part });
                }
            },
            None => {
                // Synthesize a start event to keep the lifecycle balanced.
                if let Some(part) = part {
                    out.push(StreamEvent::ReasoningStart { id: id.to_owned() });
                    out.push(StreamEvent::ReasoningEnd { id: id.to_owned(), part });
                }
            },
        }
    }

    pub fn start_tool(
        &mut self,
        out: &mut Vec<StreamEvent>,
        call_id: String,
        name: String,
        item_id: Option<String>,
    )
        ensures
            final(self)@ == old(self)@.start_tool(call_id@, name@, opt(item_id), None).state,
            views(final(out)@) == views(old(out)@) + old(self)@.start_tool(
                call_id@,
                name@,
                opt(item_id),
                None,
            ).events,
    {
        self.start_tool_call(out, call_id, name, item_id, None);
    }

    /// Open a tool block for a call that the provider knows by another id.
    pub fn start_tool_call(
        &mut self,
        out: &mut Vec<StreamEvent>,
        call_id: String,
        name: String,
        item_id: Option<String>,
        provider_call_id: Option<String>,
    )
        ensures
            final(self)@ == old(self)@.start_tool(
                call_id@,
                name@,
                opt(item_id),
                opt(provider_call_id),
            ).state,
            views(final(out)@) == views(old(out)@) + old(self)@.start_tool(
                call_id@,
                name@,
                opt(item_id),
                opt(provider_call_id),
            ).events,
    {
        if position(&self.open, Probe::Tool(call_id.as_str())).is_none() {
            self.open.push(
                OpenBlock::Tool {
                    call_id: call_id.clone(),
                    name: name.clone(),
                    item_id: item_id.clone(),
                    provider_call_id: provider_call_id.clone(),
                    arguments: String::new(),
                    provider_metadata: ProviderMetadata::new(),
                    completed: false,
                    final_arguments: None,
                },
            );
            out.push(StreamEvent::ToolInputStart { call_id, name, item_id, provider_call_id });
        }
    }

    pub fn tool_delta(&mut self, out: &mut Vec<StreamEvent>, call_id: &str, delta: String)
        ensures
            final(self)@ == old(self)@.tool_delta(call_id@, delta@).state,
            views(final(out)@) == views(old(out)@) + old(self)@.tool_delta(call_id@, delta@).events,
    {
        // A tool block cannot be synthesized without its name.
        if let Some(i) = position(&self.open, Probe::Tool(call_id)) {
            if let OpenBlock::Tool { arguments, .. } = &mut self.open[i] {
                arguments.append(delta.as_str());
            }
            out.push(StreamEvent::ToolInputDelta { call_id: call_id.to_owned(), delta });
        }
        assert(self@ =~= old(self)@.tool_delta(call_id@, delta@).state);
    }

    /// Attach provider metadata to the synthesized tool call.
    pub fn tool_metadata(&mut self, call_id: &str, metadata: ProviderMetadata)
        ensures
            final(self)@ == old(self)@.tool_metadata(call_id@, metadata@),
    {
        if let Some(i) = position(&self.open, Probe::Tool(call_id)) {
            if let OpenBlock::Tool { provider_metadata, .. } = &mut self.open[i] {
                provider_metadata.merge(metadata);
            }
        }
        assert(self@ =~= old(self)@.tool_metadata(call_id@, metadata@));
    }

    /// Mark a tool complete and preserve any authoritative final arguments.
    ///
    /// The block remains open until [`StreamNormalizer::finish`] applies the
    /// single cross-protocol promotion policy.
    pub fn complete_tool(&mut self, call_id: &str, final_arguments: Option<String>)
        ensures
            final(self)@ == old(self)@.complete_tool(call_id@, opt(final_arguments)),
    {
        if let Some(i) = position(&self.open, Probe::Tool(call_id)) {
            if let OpenBlock::Tool { completed, final_arguments: slot, .. } = &mut self.open[i] {
                *completed = true;
                if final_arguments.is_some() {
                    *slot = final_arguments;
                }
            }
        }
        assert(self@ =~= old(self)@.complete_tool(call_id@, opt(final_arguments)));
    }

    /// Emit completed tools in opening order and report invalid arguments.
    fn emit_completed_tools(&mut self, out: &mut Vec<StreamEvent>) -> (emitted: bool)
        ensures
            final(self)@ == old(self)@.promote_from(0).state,
            views(final(out)@) == views(old(out)@) + old(self)@.promote_from(0).events,
            emitted == has_call(old(self)@.promote_from(0).events),
    {
        let mut emitted: bool = false;
        let mut index: usize = 0;
        let ghost start = self@;
        let ghost before = views(out@);
        let ghost mut done: Seq<StreamEventView> = Seq::empty();
        while index < self.open.len()
            invariant
                index <= self.open@.len(),
                start.promote_from(0).state == self@.promote_from(index as int).state,
                start.promote_from(0).events == done + self@.promote_from(index as int).events,
                views(out@) == before + done,
                emitted == has_call(done),
            decreases self.open@.len() - index,
        {
            let ghost here = self@;
            let complete: bool = match &self.open[index] {
                OpenBlock::Tool { completed, .. } => *completed,
                _ => false,
            };
            if !complete {
                index += 1;
                continue ;
            }
            let ghost block = self.open@[index as int]@;
            let ghost closed = here.closing(index as int);
            let ghost first = closed.promote(block);
            let ghost rest = first.state.promote_from(index as int);
            assert(here.promote_from(index as int).events == first.events + rest.events);
            assert(here.promote_from(index as int).state == rest.state);
            let ghost done_before = done;
            if let OpenBlock::Tool {
                call_id,
                name,
                item_id,
                provider_call_id,
                arguments,
                provider_metadata,
                completed: _,
                final_arguments,
            } = self.open.remove(index) {
                assert(self@ =~= closed);
                out.push(StreamEvent::ToolInputEnd { call_id: call_id.clone() });
                if self.errored {
                    proof {
                        done = done + first.events;
                        lemma_has_call(done_before, first.events);
                        assert(done_before + (first.events + rest.events) =~= done + rest.events);
                    }
                    continue ;
                }
                let mut call: ToolCall = ToolCall {
                    call_id,
                    item_id,
                    provider_call_id,
                    name,
                    arguments: match final_arguments {
                        Some(text) => text,
                        None => arguments,
                    },
                    provider_metadata,
                };
                call.normalize_blank_arguments();
                assert(call@ == completed_call(block));
                match call.arguments_value() {
                    Err(source) => {
                        let message: String = cat(
                            cat(
                                cat("tool call `", call.call_id.as_str()).as_str(),
                                "` completed with invalid JSON arguments: ",
                            ).as_str(),
                            source.as_str(),
                        );
                        self.error(
                            out,
                            Error::malformed(message.as_str()).with_source(source.as_str()),
                        );
                        proof {
                            done = done + first.events;
                            lemma_has_call(done_before, first.events);
                            assert(done_before + (first.events + rest.events) =~= done
                                + rest.events);
                        }
                    },
                    Ok(_) => {
                        out.push(StreamEvent::ToolCall(call));
                        emitted = true;
                        proof {
                            done = done + first.events;
                            lemma_has_call(done_before, first.events);
                            assert(first.events[1] is ToolCall);
                            assert(done_before + (first.events + rest.events) =~= done
                                + rest.events);
                        }
                    },
                }
            }
        }
        emitted
    }

    pub fn compaction_start(&mut self, out: &mut Vec<StreamEvent>)
        ensures
            final(self)@ == old(self)@.compaction_start().state,
            views(final(out)@) == views(old(out)@) + old(self)@.compaction_start().events,
    {
        if position(&self.open, Probe::Compaction).is_none() {
            self.open.push(OpenBlock::Compaction);
            out.push(StreamEvent::CompactionStart);
        }
    }

    /// Only Anthropic streams human-readable compaction summary text.
    pub fn compaction_delta(&mut self, out: &mut Vec<StreamEvent>, delta: String)
        ensures
            final(self)@ == old(self)@.compaction_delta(delta@).state,
            views(final(out)@) == views(old(out)@) + old(self)@.compaction_delta(delta@).events,
    {
        self.compaction_start(out);
        out.push(StreamEvent::CompactionDelta { delta });
    }

    pub fn provider_tool_start(&mut self, out: &mut Vec<StreamEvent>, id: String, kind: String)
        ensures
            final(self)@ == old(self)@.provider_tool_start(id@, kind@).state,
            views(final(out)@) == views(old(out)@) + old(self)@.provider_tool_start(
                id@,
                kind@,
            ).events,
    {
        if position(&self.open, Probe::ProviderTool(id.as_str())).is_none() {
            self.open.push(OpenBlock::ProviderTool { id: id.clone() });
            out.push(StreamEvent::ProviderToolStart { id, kind });
        }
    }

    pub fn provider_tool_update(&mut self, out: &mut Vec<StreamEvent>, id: String, status: String)
        ensures
            *final(self) == *old(self),
            views(final(out)@) == views(old(out)@).push(
                StreamEventView::ProviderToolUpdate { id: id@, status: status@ },
            ),
    {
        out.push(StreamEvent::ProviderToolUpdate { id, status });
    }

    pub fn provider_tool_end(
        &mut self,
        out: &mut Vec<StreamEvent>,
        id: &str,
        part: ProviderToolPart,
    )
        ensures
            final(self)@ == old(self)@.provider_tool_end(id@, part@).state,
            views(final(out)@) == views(old(out)@) + old(self)@.provider_tool_end(
                id@,
                part@,
            ).events,
    {
        match position(&self.open, Probe::ProviderTool(id)) {
            Some(i) => {
                let _ = self.open.remove(i);
            },
            None => {
                // Synthesize missing starts to keep the lifecycle balanced.
                out.push(
                    StreamEvent::ProviderToolStart { id: id.to_owned(), kind: part.kind.clone() },
                );
            },
        }
        out.push(StreamEvent::ProviderToolEnd(part));
    }

    pub fn citation(
        &mut self,
        out: &mut Vec<StreamEvent>,
        text_id: Option<String>,
        citation: Citation,
    )
        ensures
            *final(self) == *old(self),
            views(final(out)@) == views(old(out)@).push(
                StreamEventView::Citation { text_id: opt(text_id), citation: citation@ },
            ),
    {
        out.push(StreamEvent::Citation { text_id, citation });
    }

    /// Close an open compaction block that produced nothing (e.g. a refusal
    /// during the compaction pass) without emitting an empty part.
    pub fn compaction_abort(&mut self, out: &mut Vec<StreamEvent>)
        ensures
            final(self)@ == old(self)@.compaction_abort().state,
            views(final(out)@) == views(old(out)@) + old(self)@.compaction_abort().events,
    {
        if let Some(i) = position(&self.open, Probe::Compaction) {
            let _ = self.open.remove(i);
            out.push(StreamEvent::CompactionAbort);
        }
    }

    pub fn compaction(&mut self, out: &mut Vec<StreamEvent>, part: CompactionPart)
        ensures
            final(self)@ == old(self)@.compaction(part@).state,
            views(final(out)@) == views(old(out)@) + old(self)@.compaction(part@).events,
    {
        match position(&self.open, Probe::Compaction) {
            Some(i) => {
                let _ = self.open.remove(i);
            },
            None => {
                // Synthesize a display start for an authoritative completed item.
                out.push(StreamEvent::CompactionStart);
            },
        }
        out.push(StreamEvent::Compaction(part));
    }

    /// Response-level extras, dropped when the decoder found none.
    pub fn provider_metadata(&mut self, out: &mut Vec<StreamEvent>, metadata: ProviderMetadata)
        ensures
            final(self)@ == old(self)@.provider_metadata(metadata@).state,
            views(final(out)@) == views(old(out)@) + old(self)@.provider_metadata(
                metadata@,
            ).events,
    {
        if !metadata.is_empty() {
            out.push(StreamEvent::ProviderMetadata(metadata));
        }
    }

    /// Emit an unrecognized provider frame, parsing it only when raw events
    /// were requested.
    pub fn raw_frame(&mut self, out: &mut Vec<StreamEvent>, data: &str)
        ensures
            final(self)@ == old(self)@.raw_frame(data@).state,
            views(final(out)@) == views(old(out)@) + old(self)@.raw_frame(data@).events,
    {
        if self.include_raw {
            if let Ok(value) = Json::parse(data) {
                out.push(StreamEvent::Raw { value });
            }
        }
    }

    fn replay_part(&mut self, out: &mut Vec<StreamEvent>, index: usize, part: AssistantPart)
        ensures
            final(self)@ == old(self)@.replay_part(index as int, part@).state,
            views(final(out)@) == views(old(out)@) + old(self)@.replay_part(
                index as int,
                part@,
            ).events,
    {
        let id: String = decimal_text(index as u64);
        match part {
            AssistantPart::Text { text, provider_metadata } => {
                self.start_text_with_metadata(out, id.clone(), provider_metadata);
                if !text.as_str().is_empty() {
                    self.text_delta(out, id.clone(), text);
                }
                self.end_text(out, id.as_str());
            },
            AssistantPart::Reasoning(part) => {
                self.start_reasoning(out, id.clone());
                let visible: String = part.visible_text();
                if !visible.as_str().is_empty() {
                    self.reasoning_delta(out, id.clone(), visible);
                }
                self.end_reasoning(out, id.as_str(), Some(part));
            },
            AssistantPart::ToolCall(call) => {
                let call_id: String = call.call_id.clone();
                self.start_tool_call(
                    out,
                    call.call_id,
                    call.name,
                    call.item_id,
                    call.provider_call_id,
                );
                self.tool_metadata(call_id.as_str(), call.provider_metadata);
                self.tool_delta(out, call_id.as_str(), call.arguments);
                self.complete_tool(call_id.as_str(), None);
            },
            AssistantPart::Compaction(part) => self.compaction(out, part),
            AssistantPart::ProviderTool { provider_tool } => {
                let id: String = match &provider_tool.id {
                    Some(own) => own.clone(),
                    None => id,
                };
                self.provider_tool_end(out, id.as_str(), provider_tool);
            },
        }
    }

    /// Replay a buffered result through the regular block lifecycle, so a
    /// provider that answered a streaming request with one JSON body still
    /// honours the stream contract.
    pub fn replay(&mut self, out: &mut Vec<StreamEvent>, result: GenerateResult)
        ensures
            final(self)@ == old(self)@.replay(result@).state,
            views(final(out)@) == views(old(out)@) + old(self)@.replay(result@).events,
    {
        let ghost before = views(out@);
        if result.response.id.is_some() || result.response.model.is_some() {
            self.metadata(
                out,
                ResponseMetadata {
                    id: result.response.id,
                    model: result.response.model,
                    request_id: None,
                },
            );
        }
        self.provider_metadata(out, result.provider_metadata);
        let ghost start = self@;
        let ghost prefix = views(out@);
        let content: Vec<AssistantPart> = result.content;
        let ghost all = views(content@);
        let ghost parts = content@;
        let count: usize = content.len();
        let mut index: usize = 0;
        for part in it: content.into_iter()
            invariant
                it.seq() == parts,
                all == views(parts),
                parts.len() == count,
                index == it.index(),
                self@ == start.replay_parts(all, index as int).state,
                views(out@) == prefix + start.replay_parts(all, index as int).events,
        {
            assert(part@ == all[index as int]);
            self.replay_part(out, index, part);
            index += 1;
        }
        self.merge_usage(&result.usage);
        self.finish(out, result.finish);
    }

    pub fn merge_usage(&mut self, usage: &Usage)
        ensures
            final(self)@ == old(self)@.merge_usage(*usage),
    {
        self.usage.merge_from(usage);
    }

    pub fn error(&mut self, out: &mut Vec<StreamEvent>, error: Error)
        ensures
            final(self)@ == old(self)@.error(error@).state,
            views(final(out)@) == views(old(out)@) + old(self)@.error(error@).events,
    {
        if self.errored {
            return ;
        }
        let error: Error = self.enrich_error(error);
        self.errored = true;
        out.push(StreamEvent::Error { error });
    }

    pub fn fail(&mut self, out: &mut Vec<StreamEvent>, error: Error)
        ensures
            final(self)@ == old(self)@.fail(error@).state,
            views(final(out)@) == views(old(out)@) + old(self)@.fail(error@).events,
    {
        self.error(out, error);
        self.finish(out, Finish::new(FinishReason::Error));
    }

    /// Close open blocks, promote valid tools, and emit the terminal event.
    ///
    /// Completed calls are promoted unless the finish reason discards them. A
    /// provider `Stop` carrying calls becomes [`FinishReason::ToolCalls`], so
    /// every decoder exposes the same tool lifecycle.
    pub fn finish(&mut self, out: &mut Vec<StreamEvent>, finish: Finish)
        ensures
            final(self)@ == old(self)@.finish(finish@).state,
            views(final(out)@) == views(old(out)@) + old(self)@.finish(finish@).events,
    {
        if self.finished {
            return ;
        }
        let mut finish: Finish = finish;
        let ghost asked = finish@;
        if !self.errored && !finish.reason.discards_tool_calls() {
            let emitted: bool = self.emit_completed_tools(out);
            if emitted && finish.reason == FinishReason::Stop {
                finish.reason = FinishReason::ToolCalls;
            }
        }
        if self.errored && finish.reason != FinishReason::Error {
            finish.reason = FinishReason::Error;
        }
        self.close_all_open(out);
        self.finished = true;
        let usage: Usage = self.usage;
        self.usage = Usage::default();
        out.push(StreamEvent::Finish { finish, usage });
        assert(self@ =~= old(self)@.finish(asked).state);
        assert(views(out@) =~= views(old(out)@) + old(self)@.finish(asked).events);
    }

    pub fn on_eof(&mut self, out: &mut Vec<StreamEvent>, error: Error)
        ensures
            final(self)@ == old(self)@.on_eof(error@).state,
            views(final(out)@) == views(old(out)@) + old(self)@.on_eof(error@).events,
    {
        if self.finished {
            return ;
        }
        let error: Error = self.enrich_error(error);
        self.close_all_open(out);
        self.fail(out, error);
    }

    fn close_all_open(&mut self, out: &mut Vec<StreamEvent>)
        ensures
            final(self)@ == (NormalizerView { open: Seq::empty(), ..old(self)@ }),
            views(final(out)@) == views(old(out)@) + closings(old(self)@.open),
    {
        let ghost start = self@;
        let ghost before = views(out@);
        let ghost mut done: Seq<StreamEventView> = Seq::empty();
        loop
            invariant
                self@ == (NormalizerView { open: views(self.open@), ..start }),
                closings(start.open) == done + closings(views(self.open@)),
                views(out@) == before + done,
            ensures
                self.open@.len() == 0,
            decreases self.open@.len(),
        {
            let ghost open = views(self.open@);
            match self.open.pop() {
                Some(block) => {
                    proof {
                        assert(views(self.open@) =~= open.drop_last());
                        assert(open.last() == block@);
                        done = done.push(closing_event(block@));
                        assert(closings(start.open) =~= done + closings(open.drop_last()));
                    }
                    match block {
                        OpenBlock::Text { id, provider_metadata } => {
                            out.push(StreamEvent::TextEnd { id, provider_metadata });
                        },
                        OpenBlock::Reasoning { id, buffer } => {
                            let part: ReasoningPart = close_reasoning(None, buffer);
                            out.push(StreamEvent::ReasoningEnd { id, part });
                        },
                        OpenBlock::Tool { call_id, .. } => {
                            out.push(StreamEvent::ToolInputEnd { call_id });
                        },
                        OpenBlock::ProviderTool { id } => {
                            out.push(StreamEvent::ProviderToolAbort { id });
                        },
                        OpenBlock::Compaction => {
                            out.push(StreamEvent::CompactionAbort);
                        },
                    }
                },
                None => {
                    break ;
                },
            }
        }
        assert(views(self.open@) =~= Seq::empty());
    }
}

proof fn lemma_has_call(a: Seq<StreamEventView>, b: Seq<StreamEventView>)
    ensures
        has_call(a + b) == (has_call(a) || has_call(b)),
{
    if has_call(a) {
        let i = choose|i: int| 0 <= i < a.len() && #[trigger] a[i] is ToolCall;
        assert((a + b)[i] is ToolCall);
    }
    if has_call(b) {
        let i = choose|i: int| 0 <= i < b.len() && #[trigger] b[i] is ToolCall;
        assert((a + b)[a.len() + i] is ToolCall);
    }
    if has_call(a + b) {
        let i = choose|i: int| 0 <= i < (a + b).len() && #[trigger] (a + b)[i] is ToolCall;
        if i < a.len() {
            assert(a[i] is ToolCall);
        } else {
            assert(b[i - a.len()] is ToolCall);
        }
    }
}

} // verus!
