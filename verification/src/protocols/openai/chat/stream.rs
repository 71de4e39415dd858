//! Decoding of Chat Completions streams.
use vstd::prelude::*;

use super::types::{
    accounting_of, arguments_text, call_ok, decode_inline_error, finish_of, function_arguments,
    function_name, holds_usage, indexed_call, inline_error, may_be_function, may_hold_texts,
    may_hold_usage, merge_reasoning_details, merged_upto, name_text, or_empty, plaintext,
    plaintext_of, reasoning_of, reasoning_part_from_details, refusal_extras, refusal_metadata,
    reported_finish, result_extras, result_provider_metadata, synthetic_id, texts_ok, to_usage,
    usage_of,
};
use super::ChatDialect;
use crate::error::{new_error, Error, ErrorKind, ErrorView};
use crate::json::{json_parse, Json, JsonView};
use crate::message::ReasoningPart;
use crate::model::{opt, views};
use crate::protocols::openai::responses::types::{openai_member, openai_metadata};
use crate::response::{
    Finish, FinishReason, FinishView, ResponseMetadata, ResponseMetadataView,
};
use crate::slots::{slot, with_slot, without_slot, Slots, SlotsView};
use crate::stream::action::{
    does, ends_last, fails, lemma_quiet_parts, quiet, Decoded, DecodedView, StreamAction,
};
use crate::stream::contract::Action;
use crate::stream::event::{citation_of, Citation};
use crate::text::{cat, cat3, same, trim, trimmed};
use crate::wire;
use crate::wire::{
    count_at, count_ok, filled, items_at, items_ok, list_ok, text_at, text_ok, value_at,
    UNEXPECTED_TYPE,
};

verus! {

broadcast use {crate::model::group_views, crate::json::array_view};

pub const TEXT_BLOCK: &'static str = "t0";

pub const REASONING_BLOCK: &'static str = "r0";

pub const REFUSAL_BLOCK: &'static str = "ref0";

/// A text in quotation marks, with what is not printable escaped.
pub uninterp spec fn quoted(text: Seq<char>) -> Seq<char>;

/// The `Debug` formatting of a text: the text in quotation marks, with quotation
/// marks and characters that are not printable escaped. The result is a function
/// of the text.
#[verifier::external_body]
fn quote(text: &str) -> (r: String)
    ensures
        r@ == quoted(text@),
{
    format!("{text:?}")
}

/// A streaming tool call whose identity is still incomplete.
pub struct PendingCall {
    pub call_id: Option<String>,
    pub name: Option<String>,
    pub arguments: String,
}

/// What is known of a call whose identity is still incomplete.
#[verifier::ext_equal]
pub struct PendingView {
    pub call_id: Option<Seq<char>>,
    pub name: Option<Seq<char>>,
    pub arguments: Seq<char>,
}

impl View for PendingCall {
    type V = PendingView;

    open spec fn view(&self) -> PendingView {
        PendingView {
            call_id: opt(self.call_id),
            name: opt(self.name),
            arguments: self.arguments@,
        }
    }
}

/// Decodes the chunks of a Chat Completions stream.
pub struct ChatStreamDecoder {
    dialect: ChatDialect,
    /// Open tool call ids by index.
    calls_by_index: Slots<String>,
    /// Fragments for calls not yet fully identified (need id + name).
    pending_by_index: Slots<PendingCall>,
    finish: Option<Finish>,
    response_id_sent: bool,
    response_model_sent: bool,
    /// OpenRouter reasoning details accumulated across deltas.
    reasoning_details: Vec<Json>,
    /// Citations accumulated across deltas and attached as a replace-merged list.
    annotations: Vec<Json>,
    saw_reasoning: bool,
    saw_refusal: bool,
    done: bool,
}

/// What a decoder knows of its stream so far.
#[verifier::ext_equal]
pub struct ChatView {
    pub dialect: ChatDialect,
    pub calls: SlotsView<Seq<char>>,
    pub pending: SlotsView<PendingView>,
    pub finish: Option<FinishView>,
    pub id_sent: bool,
    pub model_sent: bool,
    pub details: Seq<JsonView>,
    pub annotations: Seq<JsonView>,
    pub saw_reasoning: bool,
    pub saw_refusal: bool,
    pub done: bool,
}

impl View for ChatStreamDecoder {
    type V = ChatView;

    closed spec fn view(&self) -> ChatView {
        ChatView {
            dialect: self.dialect,
            calls: self.calls_by_index@,
            pending: self.pending_by_index@,
            finish: opt(self.finish),
            id_sent: self.response_id_sent,
            model_sent: self.response_model_sent,
            details: views(self.reasoning_details@),
            annotations: views(self.annotations@),
            saw_reasoning: self.saw_reasoning,
            saw_refusal: self.saw_refusal,
            done: self.done,
        }
    }
}

/// A decoder at the start of a stream.
pub open spec fn fresh_decoder(dialect: ChatDialect) -> ChatView {
    ChatView {
        dialect,
        calls: Seq::empty(),
        pending: Seq::empty(),
        finish: None,
        id_sent: false,
        model_sent: false,
        details: Seq::empty(),
        annotations: Seq::empty(),
        saw_reasoning: false,
        saw_refusal: false,
        done: false,
    }
}

/// The decoder after some input, and what that does to the stream.
#[verifier::ext_equal]
pub struct Steps {
    pub state: ChatView,
    pub actions: Seq<Action>,
}

/// What a frame does: the decoder after it, and what it decodes to.
#[verifier::ext_equal]
pub struct Reply {
    pub state: ChatView,
    pub decoded: DecodedView,
}

/// Two steps, one after the other.
pub open spec fn followed(a: Steps, b: Steps) -> Steps {
    Steps { state: b.state, actions: a.actions + b.actions }
}

/// Whether a value can be a tool call of a delta.
pub open spec fn chunk_call_ok(v: JsonView) -> bool {
    call_ok(v) && count_ok(v, "index"@)
}

/// Whether a value can be a delta.
pub open spec fn delta_ok(v: JsonView) -> bool {
    &&& texts_ok(v)
    &&& list_ok(v, "tool_calls"@)
    &&& forall|i: int|
        0 <= i < items_at(v, "tool_calls"@).len() ==> chunk_call_ok(
            #[trigger] items_at(v, "tool_calls"@)[i],
        )
}

/// Whether a value can be a choice of a chunk.
pub open spec fn chunk_choice_ok(v: JsonView) -> bool {
    &&& v is Object
    &&& count_ok(v, "index"@)
    &&& text_ok(v, "finish_reason"@)
    &&& text_ok(v, "native_finish_reason"@)
    &&& match value_at(v, "delta"@) {
        Some(d) => delta_ok(d),
        None => true,
    }
}

/// Whether a value can be a chunk.
pub open spec fn chunk_ok(v: JsonView) -> bool {
    &&& v is Object
    &&& text_ok(v, "id"@)
    &&& text_ok(v, "model"@)
    &&& holds_usage(v)
    &&& items_ok(v, "choices"@)
    &&& forall|i: int|
        0 <= i < items_at(v, "choices"@).len() ==> chunk_choice_ok(
            #[trigger] items_at(v, "choices"@)[i],
        )
}

/// The start of a call, with the arguments that came before.
pub open spec fn started(call_id: Seq<char>, name: Seq<char>, arguments: Seq<char>) -> Seq<Action> {
    let start = seq![
        Action::StartTool { call_id, name, item_id: None, provider_call_id: None },
    ];
    if arguments.len() > 0 {
        start.push(Action::ToolDelta { call_id, delta: arguments })
    } else {
        start
    }
}

/// The failure of a stream that the provider ended with an error.
pub open spec fn reported_failure(finish: FinishView, dialect: ChatDialect) -> ErrorView {
    new_error(
        ErrorKind::Provider,
        "provider reported terminal finish_reason "@ + quoted(
            match finish.raw {
                Some(raw) => raw,
                None => "error"@,
            },
        ),
    ).with_origin(dialect.api().text())
}

/// The failure of a frame that is no chunk.
pub open spec fn invalid_chunk(dialect: ChatDialect, reason: Seq<char>) -> ErrorView {
    new_error(
        ErrorKind::MalformedResponse,
        dialect.api().text() + ": invalid stream chunk: "@ + reason,
    )
}

impl ChatView {
    /// Some actions, and nothing else.
    pub open spec fn doing(self, actions: Seq<Action>) -> Steps {
        Steps { state: self, actions }
    }

    /// The end of the reasoning block, where one is open.
    pub open spec fn closing_reasoning(self) -> Steps {
        if self.saw_reasoning {
            let details = merged_upto(self.details, self.details.len() as int);
            ChatView { saw_reasoning: false, details: Seq::empty(), ..self }.doing(
                seq![
                    Action::EndReasoning {
                        id: REASONING_BLOCK@,
                        part: if details.len() == 0 {
                            None
                        } else {
                            reasoning_of(Some(details), None, self.dialect)
                        },
                    },
                ],
            )
        } else {
            self.doing(Seq::empty())
        }
    }

    /// The start of a call that is still incomplete, with a synthetic id where
    /// it has none; a call without a name is dropped.
    pub open spec fn flushing_call(self, index: u64, call: PendingView) -> Steps {
        match call.name {
            Some(name) => {
                let id = match call.call_id {
                    Some(id) => id,
                    None => synthetic_id(index as nat),
                };
                ChatView { calls: with_slot(self.calls, index, id), ..self }.doing(
                    started(id, name, call.arguments),
                )
            },
            None => self.doing(Seq::empty()),
        }
    }

    /// The start of the calls that are still incomplete, by index.
    pub open spec fn flushing(self) -> Steps
        decreases self.pending.len(),
    {
        if self.pending.len() == 0 {
            self.doing(Seq::empty())
        } else {
            let first = ChatView { pending: self.pending.skip(1), ..self }.flushing_call(
                self.pending[0].0,
                self.pending[0].1,
            );
            followed(first, first.state.flushing())
        }
    }

    /// The completion of every open call.
    pub open spec fn completing(self) -> Steps {
        ChatView { calls: Seq::empty(), ..self }.doing(
            Seq::new(
                self.calls.len(),
                |i: int| Action::CompleteTool { call_id: self.calls[i].1, arguments: None },
            ),
        )
    }

    /// The start of the incomplete calls, and the completion of every call.
    pub open spec fn settling(self) -> Steps {
        let flushed = self.flushing();
        followed(flushed, flushed.state.completing())
    }

    /// The finish that the stream ends with.
    pub open spec fn last_finish(self) -> FinishView {
        if self.saw_refusal {
            FinishView { reason: FinishReason::ContentFilter, raw: Some("refusal"@) }
        } else {
            match self.finish {
                Some(finish) => finish,
                None => FinishView { reason: FinishReason::Stop, raw: None },
            }
        }
    }

    /// The end of the stream.
    pub open spec fn finishing(self) -> Steps {
        if self.done {
            self.doing(Seq::empty())
        } else {
            let closed = ChatView { done: true, ..self }.closing_reasoning();
            if self.finish is Some && self.finish->0.reason is Error {
                followed(
                    closed,
                    closed.state.doing(
                        seq![
                            Action::Error(reported_failure(self.finish->0, self.dialect)),
                            Action::Finish(self.finish->0),
                        ],
                    ),
                )
            } else {
                let settled = closed.state.settling();
                followed(
                    followed(closed, settled),
                    settled.state.doing(seq![Action::Finish(self.last_finish())]),
                )
            }
        }
    }

    /// What a chunk says of the response.
    pub open spec fn describing(self, v: JsonView) -> Steps {
        let id = if self.id_sent {
            None
        } else {
            text_at(v, "id"@)
        };
        let model = if self.model_sent {
            None
        } else {
            text_at(v, "model"@)
        };
        let extras = seq![
            Action::ProviderMetadata(
                result_extras(value_at(v, "provider"@), value_at(v, "usage"@), self.dialect),
            ),
        ];
        let identity = if id is Some || model is Some {
            seq![Action::Metadata(ResponseMetadataView { id, model, request_id: None })]
        } else {
            Seq::empty()
        };
        let counted = match value_at(v, "usage"@) {
            Some(usage) => seq![Action::MergeUsage(usage_of(usage, accounting_of(self.dialect)))],
            None => Seq::empty(),
        };
        ChatView {
            id_sent: self.id_sent || id is Some,
            model_sent: self.model_sent || model is Some,
            ..self
        }.doing(extras + identity + counted)
    }

    /// Reasoning as plain text.
    pub open spec fn plain_reasoning(self, v: JsonView) -> Steps {
        match filled(plaintext_of(v)) {
            Some(delta) => ChatView { saw_reasoning: true, ..self }.doing(
                seq![Action::ReasoningDelta { id: REASONING_BLOCK@, delta }],
            ),
            None => self.doing(Seq::empty()),
        }
    }

    /// Reasoning as details.
    pub open spec fn typed_reasoning(self, v: JsonView) -> Steps {
        let details = items_at(v, "reasoning_details"@);
        if details.len() > 0 {
            ChatView { saw_reasoning: true, details: self.details + details, ..self }.doing(
                seq![Action::StartReasoning { id: REASONING_BLOCK@ }],
            )
        } else {
            self.doing(Seq::empty())
        }
    }

    /// The reasoning of a delta.
    pub open spec fn delta_reasoning(self, v: JsonView) -> Steps {
        let plain = self.plain_reasoning(v);
        followed(plain, plain.state.typed_reasoning(v))
    }

    /// The text of a delta.
    pub open spec fn delta_text(self, v: JsonView) -> Steps {
        match filled(text_at(v, "content"@)) {
            Some(delta) => {
                let closed = self.closing_reasoning();
                followed(
                    closed,
                    closed.state.doing(seq![Action::TextDelta { id: TEXT_BLOCK@, delta }]),
                )
            },
            None => self.doing(Seq::empty()),
        }
    }

    /// The annotations of a delta.
    pub open spec fn delta_annotations(self, v: JsonView) -> Steps {
        let more = items_at(v, "annotations"@);
        if more.len() > 0 {
            let all = self.annotations + more;
            ChatView { annotations: all, ..self }.doing(
                Seq::new(more.len(), |i: int| text_citation(more[i])).push(
                    Action::TextMetadata {
                        id: TEXT_BLOCK@,
                        metadata: openai_member("annotations"@, JsonView::Array(all)),
                    },
                ),
            )
        } else {
            self.doing(Seq::empty())
        }
    }

    /// The refusal of a delta.
    pub open spec fn delta_refusal(self, v: JsonView) -> Steps {
        match filled(text_at(v, "refusal"@)) {
            Some(delta) => {
                let closed = ChatView { saw_refusal: true, ..self }.closing_reasoning();
                followed(
                    closed,
                    closed.state.doing(
                        seq![
                            Action::StartText { id: REFUSAL_BLOCK@, metadata: refusal_extras() },
                            Action::TextDelta { id: REFUSAL_BLOCK@, delta },
                        ],
                    ),
                )
            },
            None => self.doing(Seq::empty()),
        }
    }

    /// The text, annotations and refusal of a delta.
    pub open spec fn delta_texts(self, v: JsonView) -> Steps {
        let text = self.delta_text(v);
        let annotated = text.state.delta_annotations(v);
        followed(followed(text, annotated), annotated.state.delta_refusal(v))
    }

    /// The decoder without the open call of an index, where another one takes
    /// its place: gateways without indices reuse slot zero across distinct
    /// calls.
    pub open spec fn replacing(self, index: u64, id: Option<Seq<char>>) -> Steps {
        match slot(self.calls, index) {
            Some(open) => if id is Some && open != id->0 {
                ChatView { calls: without_slot(self.calls, index), ..self }.doing(
                    seq![Action::CompleteTool { call_id: open, arguments: None }],
                )
            } else {
                self.doing(Seq::empty())
            },
            None => self.doing(Seq::empty()),
        }
    }

    /// What is known of the call of an index after a fragment.
    pub open spec fn gathered(
        self,
        index: u64,
        id: Option<Seq<char>>,
        function: Option<JsonView>,
    ) -> PendingView {
        let known = match slot(self.pending, index) {
            Some(known) => known,
            None => PendingView { call_id: None, name: None, arguments: Seq::empty() },
        };
        PendingView {
            call_id: match id {
                Some(id) => Some(id),
                None => known.call_id,
            },
            name: match filled(function_name(function)) {
                Some(name) => Some(name),
                None => known.name,
            },
            arguments: known.arguments + or_empty(function_arguments(function)),
        }
    }

    /// A fragment of the call of an index.
    pub open spec fn fragment(
        self,
        index: u64,
        id: Option<Seq<char>>,
        function: Option<JsonView>,
    ) -> Steps {
        match slot(self.calls, index) {
            Some(call_id) => self.doing(
                match filled(function_arguments(function)) {
                    Some(delta) => seq![Action::ToolDelta { call_id, delta }],
                    None => Seq::empty(),
                },
            ),
            None => {
                let call = self.gathered(index, id, function);
                if call.call_id is Some && call.name is Some {
                    ChatView {
                        pending: without_slot(self.pending, index),
                        calls: with_slot(self.calls, index, call.call_id->0),
                        ..self
                    }.doing(started(call.call_id->0, call.name->0, call.arguments))
                } else {
                    ChatView { pending: with_slot(self.pending, index, call), ..self }.doing(
                        Seq::empty(),
                    )
                }
            },
        }
    }

    /// A tool call of a delta.
    pub open spec fn tool_call(
        self,
        index: u64,
        id: Option<Seq<char>>,
        function: Option<JsonView>,
    ) -> Steps {
        let closed = self.closing_reasoning();
        let replaced = closed.state.replacing(index, filled(id));
        followed(
            followed(closed, replaced),
            replaced.state.fragment(index, filled(id), function),
        )
    }

    /// The first `n` tool calls of a delta.
    pub open spec fn tool_calls_upto(self, calls: Seq<JsonView>, n: int) -> Steps
        decreases n,
    {
        if n <= 0 {
            self.doing(Seq::empty())
        } else {
            let before = self.tool_calls_upto(calls, n - 1);
            let call = calls[n - 1];
            followed(
                before,
                before.state.tool_call(
                    match count_at(call, "index"@) {
                        Some(index) => index,
                        None => (n - 1) as u64,
                    },
                    text_at(call, "id"@),
                    value_at(call, "function"@),
                ),
            )
        }
    }

    /// The tool calls of a delta. The deprecated single-call form counts where
    /// there are no others.
    pub open spec fn delta_calls(self, v: JsonView) -> Steps {
        let calls = items_at(v, "tool_calls"@);
        if calls.len() > 0 {
            self.tool_calls_upto(calls, calls.len() as int)
        } else {
            match value_at(v, "function_call"@) {
                Some(function) => self.tool_call(0, Some("call_0"@), Some(function)),
                None => self.doing(Seq::empty()),
            }
        }
    }

    /// A delta.
    pub open spec fn delta(self, v: JsonView) -> Steps {
        let reasoned = self.delta_reasoning(v);
        let told = reasoned.state.delta_texts(v);
        followed(followed(reasoned, told), told.state.delta_calls(v))
    }

    /// A choice of a chunk. Multiple candidates would interleave into one
    /// normalized stream, so only the first one counts.
    pub open spec fn choice(self, v: JsonView) -> Steps {
        if count_at(v, "index"@) is Some && count_at(v, "index"@)->0 != 0 {
            self.doing(Seq::empty())
        } else {
            let told = match value_at(v, "delta"@) {
                Some(delta) => self.delta(delta),
                None => self.doing(Seq::empty()),
            };
            Steps {
                state: ChatView {
                    finish: match text_at(v, "finish_reason"@) {
                        Some(reason) => Some(
                            finish_of(reason, text_at(v, "native_finish_reason"@)),
                        ),
                        None => told.state.finish,
                    },
                    ..told.state
                },
                actions: told.actions,
            }
        }
    }

    /// The first `n` choices of a chunk.
    pub open spec fn choices_upto(self, choices: Seq<JsonView>, n: int) -> Steps
        decreases n,
    {
        if n <= 0 {
            self.doing(Seq::empty())
        } else {
            let before = self.choices_upto(choices, n - 1);
            followed(before, before.state.choice(choices[n - 1]))
        }
    }

    /// An error inside the stream. The normalizer aborts partial tool blocks
    /// after inline errors.
    pub open spec fn inline_failure(self, error: JsonView) -> Steps {
        let closed = ChatView { done: true, ..self }.closing_reasoning();
        followed(
            followed(
                self.doing(seq![Action::Error(inline_error(error, self.dialect))]),
                closed,
            ),
            closed.state.doing(
                seq![
                    Action::Finish(
                        FinishView { reason: FinishReason::Error, raw: Some("error"@) },
                    ),
                ],
            ),
        )
    }

    /// A chunk.
    pub open spec fn chunk(self, v: JsonView) -> Steps {
        match value_at(v, "error"@) {
            Some(error) => self.inline_failure(error),
            None => {
                let described = self.describing(v);
                let choices = items_at(v, "choices"@);
                followed(
                    described,
                    described.state.choices_upto(choices, choices.len() as int),
                )
            },
        }
    }

    /// A frame of the stream.
    pub open spec fn frame(self, data: Seq<char>) -> Reply {
        let did = |s: Steps| Reply { state: s.state, decoded: does(s.actions) };
        if self.done {
            did(self.doing(Seq::empty()))
        } else if trimmed(data) == "[DONE]"@ {
            did(self.finishing())
        } else {
            match json_parse(data) {
                Ok(v) => if chunk_ok(v) {
                    did(self.chunk(v))
                } else {
                    Reply {
                        state: self,
                        decoded: fails(invalid_chunk(self.dialect, UNEXPECTED_TYPE@)),
                    }
                },
                Err(e) => Reply { state: self, decoded: fails(invalid_chunk(self.dialect, e)) },
            }
        }
    }

    /// The end of the body. Compatible servers may omit the last frame after
    /// a finish reason.
    pub open spec fn eof(self) -> Steps {
        if self.finish is Some {
            self.finishing()
        } else {
            self.doing(Seq::empty())
        }
    }
}

fn push_started(actions: &mut Vec<StreamAction>, call_id: &str, name: &str, arguments: &str)
    ensures
        views(final(actions)@) == views(old(actions)@) + started(call_id@, name@, arguments@),
{
    let ghost before = views(actions@);
    actions.push(
        StreamAction::StartTool {
            call_id: call_id.to_owned(),
            name: name.to_owned(),
            item_id: None,
            provider_call_id: None,
        },
    );
    if !arguments.is_empty() {
        actions.push(
            StreamAction::ToolDelta { call_id: call_id.to_owned(), delta: arguments.to_owned() },
        );
    }
    assert(views(actions@) =~= before + started(call_id@, name@, arguments@));
}

/// A citation of the text block.
pub open spec fn text_citation(annotation: JsonView) -> Action {
    Action::Citation { text_id: Some(TEXT_BLOCK@), citation: citation_of(annotation) }
}

fn push_citations(actions: &mut Vec<StreamAction>, annotations: &Vec<Json>)
    ensures
        views(final(actions)@) == views(old(actions)@) + Seq::new(
            annotations@.len(),
            |i: int| text_citation(views(annotations@)[i]),
        ),
{
    let ghost before = views(actions@);
    let ghost more = views(annotations@);
    let mut i: usize = 0;
    assert(before =~= before + Seq::new(0, |k: int| text_citation(more[k])));
    while i < annotations.len()
        invariant
            i <= annotations@.len(),
            more == views(annotations@),
            views(actions@) == before + Seq::new(i as nat, |k: int| text_citation(more[k])),
        decreases annotations@.len() - i,
    {
        assert(more[i as int] == annotations@[i as int]@);
        actions.push(
            StreamAction::Citation {
                text_id: Some(TEXT_BLOCK.to_owned()),
                citation: Citation::from_raw(annotations[i].clone()),
            },
        );
        assert(views(actions@) =~= before + Seq::new(
            (i + 1) as nat,
            |k: int| text_citation(more[k]),
        ));
        i += 1;
    }
}

fn are_chunk_calls(v: &Json) -> (r: bool)
    ensures
        r == (list_ok(v@, "tool_calls"@) && forall|i: int|
            0 <= i < items_at(v@, "tool_calls"@).len() ==> chunk_call_ok(
                #[trigger] items_at(v@, "tool_calls"@)[i],
            )),
{
    if !wire::may_be_list(v, "tool_calls") {
        return false;
    }
    let items: &Vec<Json> = match wire::list(v, "tool_calls") {
        Some(items) => items,
        None => return true,
    };
    let mut i: usize = 0;
    while i < items.len()
        invariant
            i <= items@.len(),
            items_at(v@, "tool_calls"@) == views(items@),
            forall|k: int|
                0 <= k < i ==> chunk_call_ok(#[trigger] items_at(v@, "tool_calls"@)[k]),
        decreases items@.len() - i,
    {
        let call: &Json = &items[i];
        assert(items_at(v@, "tool_calls"@)[i as int] == call@);
        if !(matches!(call, Json::Object(_)) && wire::may_be_text(call, "id") && may_be_function(
            call,
            "function",
        ) && wire::may_be_count(call, "index")) {
            return false;
        }
        i += 1;
    }
    true
}

fn are_chunk_choices(v: &Json) -> (r: bool)
    ensures
        r == (items_ok(v@, "choices"@) && forall|i: int|
            0 <= i < items_at(v@, "choices"@).len() ==> chunk_choice_ok(
                #[trigger] items_at(v@, "choices"@)[i],
            )),
{
    if !wire::may_be_items(v, "choices") {
        return false;
    }
    let items: &Vec<Json> = match wire::list(v, "choices") {
        Some(items) => items,
        None => return true,
    };
    let mut i: usize = 0;
    while i < items.len()
        invariant
            i <= items@.len(),
            items_at(v@, "choices"@) == views(items@),
            forall|k: int|
                0 <= k < i ==> chunk_choice_ok(#[trigger] items_at(v@, "choices"@)[k]),
        decreases items@.len() - i,
    {
        let choice: &Json = &items[i];
        assert(items_at(v@, "choices"@)[i as int] == choice@);
        let delta_fits: bool = match wire::value(choice, "delta") {
            Some(delta) => may_hold_texts(delta) && are_chunk_calls(delta),
            None => true,
        };
        if !(matches!(choice, Json::Object(_)) && wire::may_be_count(choice, "index")
            && wire::may_be_text(choice, "finish_reason") && wire::may_be_text(
            choice,
            "native_finish_reason",
        ) && delta_fits) {
            return false;
        }
        i += 1;
    }
    true
}

fn may_be_chunk(v: &Json) -> (r: bool)
    ensures
        r == chunk_ok(v@),
{
    matches!(v, Json::Object(_)) && wire::may_be_text(v, "id") && wire::may_be_text(v, "model")
        && may_hold_usage(v) && are_chunk_choices(v)
}

impl ChatStreamDecoder {
    /// A decoder at the start of a stream.
    pub fn new(dialect: ChatDialect) -> (r: ChatStreamDecoder)
        ensures
            r@ == fresh_decoder(dialect),
    {
        let r: ChatStreamDecoder = ChatStreamDecoder {
            dialect,
            calls_by_index: Slots::new(),
            pending_by_index: Slots::new(),
            finish: None,
            response_id_sent: false,
            response_model_sent: false,
            reasoning_details: Vec::new(),
            annotations: Vec::new(),
            saw_reasoning: false,
            saw_refusal: false,
            done: false,
        };
        assert(r@ =~= fresh_decoder(dialect));
        r
    }

    fn close_reasoning(&mut self, actions: &mut Vec<StreamAction>)
        ensures
            final(self)@ == old(self)@.closing_reasoning().state,
            views(final(actions)@) == views(old(actions)@)
                + old(self)@.closing_reasoning().actions,
    {
        if !self.saw_reasoning {
            assert(views(actions@) =~= views(actions@) + Seq::empty());
            return;
        }
        let ghost before = views(actions@);
        self.saw_reasoning = false;
        let mut details: Vec<Json> = Vec::new();
        std::mem::swap(&mut details, &mut self.reasoning_details);
        let merged: Vec<Json> = merge_reasoning_details(&details);
        assert(views(merged@).len() == merged@.len());
        let part: Option<ReasoningPart> = if merged.len() == 0 {
            None
        } else {
            reasoning_part_from_details(Some(&merged), None, self.dialect)
        };
        actions.push(StreamAction::EndReasoning { id: REASONING_BLOCK.to_owned(), part });
        assert(views(actions@) =~= before + old(self)@.closing_reasoning().actions);
        assert(self@ =~= old(self)@.closing_reasoning().state);
    }

    fn flush_call(&mut self, index: u64, pending: PendingCall, actions: &mut Vec<StreamAction>)
        ensures
            final(self)@ == old(self)@.flushing_call(index, pending@).state,
            views(final(actions)@) == views(old(actions)@) + old(self)@.flushing_call(
                index,
                pending@,
            ).actions,
    {
        let ghost start = self@;
        assert(views(actions@) + Seq::<Action>::empty() =~= views(actions@));
        if let Some(name) = &pending.name {
            let call_id: String = match pending.call_id {
                Some(id) => id,
                None => indexed_call(index),
            };
            self.calls_by_index.set(index, call_id.clone());
            push_started(actions, call_id.as_str(), name.as_str(), pending.arguments.as_str());
            assert(self@ =~= start.flushing_call(index, pending@).state);
        }
    }

    fn flush_pending(&mut self, actions: &mut Vec<StreamAction>)
        ensures
            final(self)@ == old(self)@.flushing().state,
            views(final(actions)@) == views(old(actions)@) + old(self)@.flushing().actions,
    {
        let ghost start = self@;
        let ghost before = views(actions@);
        loop
            invariant
                before + start.flushing().actions == views(actions@) + self@.flushing().actions,
                start.flushing().state == self@.flushing().state,
            ensures
                self@.pending.len() == 0,
            decreases self@.pending.len(),
        {
            let ghost was = self@;
            let ghost so_far = views(actions@);
            match self.pending_by_index.take_first() {
                Some((index, pending)) => {
                    let ghost rest = ChatView { pending: was.pending.skip(1), ..was };
                    assert(self@ =~= rest);
                    let ghost first = rest.flushing_call(index, pending@);
                    self.flush_call(index, pending, actions);
                    assert(was.flushing() == followed(first, first.state.flushing()));
                    assert(so_far + (first.actions + first.state.flushing().actions) =~= so_far
                        + first.actions + first.state.flushing().actions);
                },
                None => {
                    break;
                },
            }
        }
        assert(views(actions@) + Seq::<Action>::empty() =~= views(actions@));
    }

    fn complete_tools(&mut self, actions: &mut Vec<StreamAction>)
        ensures
            final(self)@ == old(self)@.completing().state,
            views(final(actions)@) == views(old(actions)@) + old(self)@.completing().actions,
    {
        let ghost start = self@;
        let ghost before = views(actions@);
        loop
            invariant
                before + start.completing().actions == views(actions@)
                    + self@.completing().actions,
                start.completing().state == self@.completing().state,
            ensures
                self@.calls.len() == 0,
            decreases self@.calls.len(),
        {
            let ghost was = self@;
            let ghost so_far = views(actions@);
            match self.calls_by_index.take_first() {
                Some((_, call_id)) => {
                    assert(self@ =~= ChatView { calls: was.calls.skip(1), ..was });
                    actions.push(StreamAction::CompleteTool { call_id, arguments: None });
                    assert(so_far + was.completing().actions =~= views(actions@)
                        + self@.completing().actions);
                },
                None => {
                    break;
                },
            }
        }
        assert(views(actions@) + self@.completing().actions =~= views(actions@));
        assert(self@ =~= self@.completing().state);
    }

    fn settle_calls(&mut self, actions: &mut Vec<StreamAction>)
        ensures
            final(self)@ == old(self)@.settling().state,
            views(final(actions)@) == views(old(actions)@) + old(self)@.settling().actions,
    {
        let ghost before = views(actions@);
        let ghost flushed = self@.flushing();
        let ghost completed = flushed.state.completing();
        self.flush_pending(actions);
        self.complete_tools(actions);
        assert(before + flushed.actions + completed.actions =~= before + (flushed.actions
            + completed.actions));
    }

    fn failure(&self, finish: &Finish) -> (r: Error)
        ensures
            r@ == reported_failure(finish@, self@.dialect),
    {
        let raw: &str = match &finish.raw {
            Some(raw) => raw.as_str(),
            None => "error",
        };
        Error::new(
            ErrorKind::Provider,
            cat("provider reported terminal finish_reason ", quote(raw).as_str()).as_str(),
        ).with_origin(self.dialect.profile().as_str())
    }

    fn finish_now(&mut self, actions: &mut Vec<StreamAction>)
        ensures
            final(self)@ == old(self)@.finishing().state,
            views(final(actions)@) == views(old(actions)@) + old(self)@.finishing().actions,
    {
        let ghost start = self@;
        let ghost before = views(actions@);
        if self.done {
            assert(before =~= before + Seq::empty());
            return;
        }
        self.done = true;
        assert(self@ =~= ChatView { done: true, ..start });
        self.close_reasoning(actions);
        let ghost closed = ChatView { done: true, ..start }.closing_reasoning();
        if let Some(finish) = &self.finish {
            if finish.reason == FinishReason::Error {
                actions.push(StreamAction::Error(self.failure(finish)));
                actions.push(StreamAction::Finish(finish.clone()));
                assert(views(actions@) =~= before + start.finishing().actions);
                return;
            }
        }
        let finish: Finish = if self.saw_refusal {
            Finish::with_raw(FinishReason::ContentFilter, "refusal")
        } else {
            match &self.finish {
                Some(finish) => finish.clone(),
                None => Finish::new(FinishReason::Stop),
            }
        };
        assert(finish@ == start.last_finish());
        let ghost settled = closed.state.settling();
        self.settle_calls(actions);
        actions.push(StreamAction::Finish(finish));
        assert(views(actions@) =~= before + (closed.actions + settled.actions + seq![
            Action::Finish(start.last_finish()),
        ]));
    }

    fn emit_chunk_metadata(&mut self, v: &Json, actions: &mut Vec<StreamAction>)
        ensures
            final(self)@ == old(self)@.describing(v@).state,
            views(final(actions)@) == views(old(actions)@) + old(self)@.describing(v@).actions,
    {
        let ghost before = views(actions@);
        actions.push(
            StreamAction::ProviderMetadata(
                result_provider_metadata(
                    wire::value(v, "provider"),
                    wire::value(v, "usage"),
                    self.dialect,
                ),
            ),
        );
        let id: Option<String> = if self.response_id_sent {
            None
        } else {
            wire::owned_text(v, "id")
        };
        let model: Option<String> = if self.response_model_sent {
            None
        } else {
            wire::owned_text(v, "model")
        };
        if id.is_some() {
            self.response_id_sent = true;
        }
        if model.is_some() {
            self.response_model_sent = true;
        }
        if id.is_some() || model.is_some() {
            actions.push(
                StreamAction::Metadata(ResponseMetadata { id, model, request_id: None }),
            );
        }
        if let Some(usage) = wire::value(v, "usage") {
            actions.push(
                StreamAction::MergeUsage(to_usage(usage, self.dialect.output_token_accounting())),
            );
        }
        assert(views(actions@) =~= before + old(self)@.describing(v@).actions);
    }

    fn process_reasoning(&mut self, v: &Json, actions: &mut Vec<StreamAction>)
        ensures
            final(self)@ == old(self)@.delta_reasoning(v@).state,
            views(final(actions)@) == views(old(actions)@)
                + old(self)@.delta_reasoning(v@).actions,
    {
        let ghost before = views(actions@);
        let ghost plain = self@.plain_reasoning(v@);
        if let Some(delta) = wire::unless_empty(plaintext(v)) {
            self.saw_reasoning = true;
            actions.push(StreamAction::ReasoningDelta { id: REASONING_BLOCK.to_owned(), delta });
        }
        assert(self@ =~= plain.state);
        assert(views(actions@) =~= before + plain.actions);
        if let Some(details) = wire::list(v, "reasoning_details") {
            assert(views(details@).len() == details@.len());
            if details.len() > 0 {
                self.saw_reasoning = true;
                actions.push(StreamAction::StartReasoning { id: REASONING_BLOCK.to_owned() });
                let mut more: Vec<Json> = details.clone();
                assert(views(more@) =~= views(details@));
                self.reasoning_details.append(&mut more);
            }
        }
        assert(self@ =~= plain.state.typed_reasoning(v@).state);
        assert(views(actions@) =~= before + (plain.actions + plain.state.typed_reasoning(
            v@,
        ).actions));
    }

    fn process_text(&mut self, v: &Json, actions: &mut Vec<StreamAction>)
        ensures
            final(self)@ == old(self)@.delta_text(v@).state,
            views(final(actions)@) == views(old(actions)@) + old(self)@.delta_text(v@).actions,
    {
        let ghost before = views(actions@);
        if let Some(delta) = wire::unless_empty(wire::text(v, "content")) {
            self.close_reasoning(actions);
            actions.push(StreamAction::TextDelta { id: TEXT_BLOCK.to_owned(), delta });
        }
        assert(views(actions@) =~= before + old(self)@.delta_text(v@).actions);
    }

    fn process_annotations(&mut self, v: &Json, actions: &mut Vec<StreamAction>)
        ensures
            final(self)@ == old(self)@.delta_annotations(v@).state,
            views(final(actions)@) == views(old(actions)@)
                + old(self)@.delta_annotations(v@).actions,
    {
        let ghost before = views(actions@);
        if let Some(annotations) = wire::list(v, "annotations") {
            let ghost more = views(annotations@);
            assert(more.len() == annotations@.len());
            if annotations.len() > 0 {
                push_citations(actions, annotations);
                let mut copy: Vec<Json> = annotations.clone();
                assert(views(copy@) =~= more);
                self.annotations.append(&mut copy);
                let all: Vec<Json> = self.annotations.clone();
                assert(views(all@) =~= old(self)@.annotations + more);
                actions.push(
                    StreamAction::TextMetadata {
                        id: TEXT_BLOCK.to_owned(),
                        metadata: openai_metadata("annotations", Json::Array(all)),
                    },
                );
            }
        }
        assert(self@ =~= old(self)@.delta_annotations(v@).state);
        assert(views(actions@) =~= before + old(self)@.delta_annotations(v@).actions);
    }

    fn process_refusal(&mut self, v: &Json, actions: &mut Vec<StreamAction>)
        ensures
            final(self)@ == old(self)@.delta_refusal(v@).state,
            views(final(actions)@) == views(old(actions)@) + old(self)@.delta_refusal(v@).actions,
    {
        let ghost before = views(actions@);
        if let Some(delta) = wire::unless_empty(wire::text(v, "refusal")) {
            self.saw_refusal = true;
            assert(self@ =~= ChatView { saw_refusal: true, ..old(self)@ });
            self.close_reasoning(actions);
            actions.push(
                StreamAction::StartText {
                    id: REFUSAL_BLOCK.to_owned(),
                    metadata: refusal_metadata(),
                },
            );
            actions.push(StreamAction::TextDelta { id: REFUSAL_BLOCK.to_owned(), delta });
        }
        assert(views(actions@) =~= before + old(self)@.delta_refusal(v@).actions);
    }

    fn process_texts(&mut self, v: &Json, actions: &mut Vec<StreamAction>)
        ensures
            final(self)@ == old(self)@.delta_texts(v@).state,
            views(final(actions)@) == views(old(actions)@) + old(self)@.delta_texts(v@).actions,
    {
        let ghost before = views(actions@);
        let ghost text = self@.delta_text(v@);
        let ghost annotated = text.state.delta_annotations(v@);
        let ghost refused = annotated.state.delta_refusal(v@);
        self.process_text(v, actions);
        self.process_annotations(v, actions);
        self.process_refusal(v, actions);
        assert(before + text.actions + annotated.actions + refused.actions =~= before + (
        text.actions + annotated.actions + refused.actions));
    }

    fn replace_call(&mut self, index: u64, id: &Option<String>, actions: &mut Vec<StreamAction>)
        ensures
            final(self)@ == old(self)@.replacing(index, opt(*id)).state,
            views(final(actions)@) == views(old(actions)@) + old(self)@.replacing(
                index,
                opt(*id),
            ).actions,
    {
        let ghost before = views(actions@);
        let mut replaced: bool = false;
        if let Some(new_id) = id {
            if let Some(open_id) = self.calls_by_index.get(index) {
                replaced = !same(open_id.as_str(), new_id.as_str());
            }
        }
        if replaced {
            if let Some(open_id) = self.calls_by_index.take(index) {
                actions.push(StreamAction::CompleteTool { call_id: open_id, arguments: None });
            }
        }
        assert(self@ =~= old(self)@.replacing(index, opt(*id)).state);
        assert(views(actions@) =~= before + old(self)@.replacing(index, opt(*id)).actions);
    }

    fn gather(&self, index: u64, id: Option<String>, function: Option<&Json>) -> (r: PendingCall)
        ensures
            r@ == self@.gathered(index, opt(id), opt(function)),
    {
        let mut call_id: Option<String> = id;
        let mut name: Option<String> = wire::unless_empty(name_text(function));
        let mut arguments: String = String::new();
        if let Some(known) = self.pending_by_index.get(index) {
            if call_id.is_none() {
                call_id = known.call_id.clone();
            }
            if name.is_none() {
                name = known.name.clone();
            }
            arguments = known.arguments.clone();
        }
        let ghost known = arguments@;
        if let Some(more) = arguments_text(function) {
            arguments.append(more.as_str());
        }
        assert(arguments@ =~= known + or_empty(function_arguments(opt(function))));
        PendingCall { call_id, name, arguments }
    }

    fn add_fragment(
        &mut self,
        index: u64,
        id: Option<String>,
        function: Option<&Json>,
        actions: &mut Vec<StreamAction>,
    )
        ensures
            final(self)@ == old(self)@.fragment(index, opt(id), opt(function)).state,
            views(final(actions)@) == views(old(actions)@) + old(self)@.fragment(
                index,
                opt(id),
                opt(function),
            ).actions,
    {
        let ghost start = self@;
        let ghost before = views(actions@);
        assert(before + Seq::<Action>::empty() =~= before);
        if let Some(call_id) = self.calls_by_index.get(index) {
            let arguments: Option<String> = arguments_text(function);
            if let Some(delta) = wire::unless_empty(crate::error::as_deref(&arguments)) {
                actions.push(StreamAction::ToolDelta { call_id: call_id.clone(), delta });
            }
            assert(views(actions@) =~= before + start.fragment(
                index,
                opt(id),
                opt(function),
            ).actions);
            return;
        }
        let ghost given = opt(id);
        let pending: PendingCall = self.gather(index, id, function);
        match (&pending.call_id, &pending.name) {
            (Some(call_id), Some(name)) => {
                let _ = self.pending_by_index.take(index);
                self.calls_by_index.set(index, call_id.clone());
                push_started(
                    actions,
                    call_id.as_str(),
                    name.as_str(),
                    pending.arguments.as_str(),
                );
                assert(self@ =~= start.fragment(index, given, opt(function)).state);
            },
            _ => {
                self.pending_by_index.set(index, pending);
                assert(self@ =~= start.fragment(index, given, opt(function)).state);
            },
        }
    }

    fn process_tool_call(
        &mut self,
        index: u64,
        id: Option<&str>,
        function: Option<&Json>,
        actions: &mut Vec<StreamAction>,
    )
        ensures
            final(self)@ == old(self)@.tool_call(index, opt(id), opt(function)).state,
            views(final(actions)@) == views(old(actions)@) + old(self)@.tool_call(
                index,
                opt(id),
                opt(function),
            ).actions,
    {
        let ghost before = views(actions@);
        let ghost closed = self@.closing_reasoning();
        let ghost replaced = closed.state.replacing(index, filled(opt(id)));
        let ghost added = replaced.state.fragment(index, filled(opt(id)), opt(function));
        self.close_reasoning(actions);
        let id: Option<String> = wire::unless_empty(id);
        self.replace_call(index, &id, actions);
        self.add_fragment(index, id, function, actions);
        assert(before + closed.actions + replaced.actions + added.actions =~= before + (
        closed.actions + replaced.actions + added.actions));
    }

    fn process_tool_calls(&mut self, calls: &Vec<Json>, actions: &mut Vec<StreamAction>)
        ensures
            final(self)@ == old(self)@.tool_calls_upto(
                views(calls@),
                calls@.len() as int,
            ).state,
            views(final(actions)@) == views(old(actions)@) + old(self)@.tool_calls_upto(
                views(calls@),
                calls@.len() as int,
            ).actions,
    {
        let ghost start = self@;
        let ghost before = views(actions@);
        let ghost all = views(calls@);
        let mut i: usize = 0;
        assert(before + Seq::<Action>::empty() =~= before);
        while i < calls.len()
            invariant
                i <= calls@.len(),
                all == views(calls@),
                self@ == start.tool_calls_upto(all, i as int).state,
                views(actions@) == before + start.tool_calls_upto(all, i as int).actions,
            decreases calls@.len() - i,
        {
            assert(all[i as int] == calls@[i as int]@);
            let call: &Json = &calls[i];
            let index: u64 = match wire::count(call, "index") {
                Some(index) => index,
                None => i as u64,
            };
            let ghost so_far = start.tool_calls_upto(all, i as int);
            let ghost next = so_far.state.tool_call(
                index,
                text_at(call@, "id"@),
                value_at(call@, "function"@),
            );
            self.process_tool_call(
                index,
                wire::text(call, "id"),
                wire::value(call, "function"),
                actions,
            );
            assert(before + so_far.actions + next.actions =~= before + (so_far.actions
                + next.actions));
            i += 1;
        }
    }

    fn process_calls(&mut self, v: &Json, actions: &mut Vec<StreamAction>)
        ensures
            final(self)@ == old(self)@.delta_calls(v@).state,
            views(final(actions)@) == views(old(actions)@) + old(self)@.delta_calls(v@).actions,
    {
        let ghost before = views(actions@);
        assert(before + Seq::<Action>::empty() =~= before);
        if let Some(calls) = wire::list(v, "tool_calls") {
            assert(views(calls@).len() == calls@.len());
            if calls.len() > 0 {
                self.process_tool_calls(calls, actions);
                return;
            }
        }
        if let Some(function) = wire::value(v, "function_call") {
            self.process_tool_call(0, Some("call_0"), Some(function), actions);
        }
    }

    fn process_delta(&mut self, v: &Json, actions: &mut Vec<StreamAction>)
        ensures
            final(self)@ == old(self)@.delta(v@).state,
            views(final(actions)@) == views(old(actions)@) + old(self)@.delta(v@).actions,
    {
        let ghost before = views(actions@);
        let ghost reasoned = self@.delta_reasoning(v@);
        let ghost told = reasoned.state.delta_texts(v@);
        let ghost called = told.state.delta_calls(v@);
        self.process_reasoning(v, actions);
        self.process_texts(v, actions);
        self.process_calls(v, actions);
        assert(before + reasoned.actions + told.actions + called.actions =~= before + (
        reasoned.actions + told.actions + called.actions));
    }

    fn process_choice(&mut self, v: &Json, actions: &mut Vec<StreamAction>)
        ensures
            final(self)@ == old(self)@.choice(v@).state,
            views(final(actions)@) == views(old(actions)@) + old(self)@.choice(v@).actions,
    {
        let ghost before = views(actions@);
        assert(before + Seq::<Action>::empty() =~= before);
        if let Some(index) = wire::count(v, "index") {
            if index != 0 {
                return;
            }
        }
        if let Some(delta) = wire::value(v, "delta") {
            self.process_delta(delta, actions);
        }
        if let Some(reason) = wire::text(v, "finish_reason") {
            self.finish = Some(reported_finish(reason, wire::text(v, "native_finish_reason")));
        }
        assert(self@ =~= old(self)@.choice(v@).state);
    }

    fn process_choices(&mut self, v: &Json, actions: &mut Vec<StreamAction>)
        ensures
            final(self)@ == old(self)@.choices_upto(
                items_at(v@, "choices"@),
                items_at(v@, "choices"@).len() as int,
            ).state,
            views(final(actions)@) == views(old(actions)@) + old(self)@.choices_upto(
                items_at(v@, "choices"@),
                items_at(v@, "choices"@).len() as int,
            ).actions,
    {
        let ghost start = self@;
        let ghost before = views(actions@);
        assert(before + Seq::<Action>::empty() =~= before);
        if let Some(choices) = wire::list(v, "choices") {
            let ghost all = views(choices@);
            assert(all.len() == choices@.len());
            let mut i: usize = 0;
            while i < choices.len()
                invariant
                    i <= choices@.len(),
                    all == views(choices@),
                    self@ == start.choices_upto(all, i as int).state,
                    views(actions@) == before + start.choices_upto(all, i as int).actions,
                decreases choices@.len() - i,
            {
                assert(all[i as int] == choices@[i as int]@);
                let ghost so_far = start.choices_upto(all, i as int);
                let ghost next = so_far.state.choice(all[i as int]);
                self.process_choice(&choices[i], actions);
                assert(before + so_far.actions + next.actions =~= before + (so_far.actions
                    + next.actions));
                i += 1;
            }
        }
    }

    fn process_chunk(&mut self, v: &Json) -> (r: Vec<StreamAction>)
        ensures
            final(self)@ == old(self)@.chunk(v@).state,
            views(r@) == old(self)@.chunk(v@).actions,
    {
        let mut actions: Vec<StreamAction> = Vec::new();
        let ghost start = self@;
        if let Some(error) = wire::value(v, "error") {
            actions.push(StreamAction::Error(decode_inline_error(error, self.dialect)));
            self.done = true;
            assert(self@ =~= ChatView { done: true, ..start });
            self.close_reasoning(&mut actions);
            actions.push(StreamAction::Finish(Finish::with_raw(FinishReason::Error, "error")));
            assert(views(actions@) =~= start.chunk(v@).actions);
            return actions;
        }
        self.emit_chunk_metadata(v, &mut actions);
        assert(views(actions@) =~= start.describing(v@).actions);
        self.process_choices(v, &mut actions);
        actions
    }

    fn unreadable(&self, reason: &str) -> (r: Error)
        ensures
            r@ == invalid_chunk(self@.dialect, reason@),
    {
        Error::malformed(
            cat3(self.dialect.profile().as_str(), ": invalid stream chunk: ", reason).as_str(),
        )
    }

    /// Decodes one frame of the stream.
    ///
    /// Type mismatches fail the stream: demoting them would silently lose
    /// deltas or the terminal status.
    pub fn on_frame(&mut self, data: &str) -> (r: Decoded)
        ensures
            (Reply { state: final(self)@, decoded: r@ }) == old(self)@.frame(data@),
    {
        if self.done {
            return Decoded::nothing();
        }
        if same(trim(data).as_str(), "[DONE]") {
            let mut actions: Vec<StreamAction> = Vec::new();
            self.finish_now(&mut actions);
            assert(views(actions@) =~= old(self)@.finishing().actions);
            return Decoded::done(actions);
        }
        match Json::parse(data) {
            Ok(v) => {
                if may_be_chunk(&v) {
                    Decoded::done(self.process_chunk(&v))
                } else {
                    Decoded::failed(self.unreadable(UNEXPECTED_TYPE))
                }
            },
            Err(e) => Decoded::failed(self.unreadable(e.as_str())),
        }
    }

    /// Decodes the end of the body.
    pub fn on_eof(&mut self) -> (r: Vec<StreamAction>)
        ensures
            final(self)@ == old(self)@.eof().state,
            views(r@) == old(self)@.eof().actions,
    {
        let mut actions: Vec<StreamAction> = Vec::new();
        if self.finish.is_some() {
            self.finish_now(&mut actions);
        }
        assert(views(actions@) =~= old(self)@.eof().actions);
        actions
    }
}

proof fn lemma_flushing(d: ChatView)
    ensures
        quiet(d.flushing().actions),
    decreases d.pending.len(),
{
    if d.pending.len() > 0 {
        let first = ChatView { pending: d.pending.skip(1), ..d }.flushing_call(
            d.pending[0].0,
            d.pending[0].1,
        );
        lemma_flushing(first.state);
        lemma_quiet_parts(first.actions, first.state.flushing().actions);
    }
}

proof fn lemma_finishing(d: ChatView)
    ensures
        ends_last(d.finishing().actions),
{
    let closed = ChatView { done: true, ..d }.closing_reasoning();
    let flushed = closed.state.flushing();
    let settled = closed.state.settling();
    let last = seq![Action::Finish(d.last_finish())];
    lemma_flushing(closed.state);
    lemma_quiet_parts(flushed.actions, flushed.state.completing().actions);
    lemma_quiet_parts(closed.actions, settled.actions);
    lemma_quiet_parts(closed.actions + settled.actions, last);
}

proof fn lemma_tool_call(d: ChatView, index: u64, id: Option<Seq<char>>, function: Option<JsonView>)
    ensures
        quiet(d.tool_call(index, id, function).actions),
{
    let closed = d.closing_reasoning();
    let replaced = closed.state.replacing(index, filled(id));
    let added = replaced.state.fragment(index, filled(id), function);
    lemma_quiet_parts(closed.actions, replaced.actions);
    lemma_quiet_parts(closed.actions + replaced.actions, added.actions);
}

proof fn lemma_tool_calls(d: ChatView, calls: Seq<JsonView>, n: int)
    ensures
        quiet(d.tool_calls_upto(calls, n).actions),
    decreases n,
{
    if n > 0 {
        lemma_tool_calls(d, calls, n - 1);
        let before = d.tool_calls_upto(calls, n - 1);
        let call = calls[n - 1];
        let index = match count_at(call, "index"@) {
            Some(index) => index,
            None => (n - 1) as u64,
        };
        lemma_tool_call(before.state, index, text_at(call, "id"@), value_at(call, "function"@));
        lemma_quiet_parts(
            before.actions,
            before.state.tool_call(
                index,
                text_at(call, "id"@),
                value_at(call, "function"@),
            ).actions,
        );
    }
}

proof fn lemma_delta(d: ChatView, v: JsonView)
    ensures
        quiet(d.delta(v).actions),
{
    let plain = d.plain_reasoning(v);
    let reasoned = d.delta_reasoning(v);
    lemma_quiet_parts(plain.actions, plain.state.typed_reasoning(v).actions);
    let text = reasoned.state.delta_text(v);
    let annotated = text.state.delta_annotations(v);
    let refused = annotated.state.delta_refusal(v);
    let told = reasoned.state.delta_texts(v);
    lemma_quiet_parts(text.actions, annotated.actions);
    lemma_quiet_parts(text.actions + annotated.actions, refused.actions);
    let calls = items_at(v, "tool_calls"@);
    lemma_tool_calls(told.state, calls, calls.len() as int);
    if let Some(function) = value_at(v, "function_call"@) {
        lemma_tool_call(told.state, 0, Some("call_0"@), Some(function));
    }
    lemma_quiet_parts(reasoned.actions, told.actions);
    lemma_quiet_parts(reasoned.actions + told.actions, told.state.delta_calls(v).actions);
}

proof fn lemma_choices(d: ChatView, choices: Seq<JsonView>, n: int)
    ensures
        quiet(d.choices_upto(choices, n).actions),
    decreases n,
{
    if n > 0 {
        lemma_choices(d, choices, n - 1);
        let before = d.choices_upto(choices, n - 1);
        if let Some(delta) = value_at(choices[n - 1], "delta"@) {
            lemma_delta(before.state, delta);
        }
        lemma_quiet_parts(before.actions, before.state.choice(choices[n - 1]).actions);
    }
}

/// What precedes a failure does not end the stream.
pub proof fn failures_end_by_themselves(d: ChatView, data: Seq<char>)
    ensures
        d.frame(data).decoded.error is Some ==> quiet(d.frame(data).decoded.actions),
{
}

/// Nothing follows the end of the stream in what a frame or the end of the
/// body does.
pub proof fn frames_end_at_most_once(d: ChatView, data: Seq<char>)
    ensures
        ends_last(d.frame(data).decoded.actions),
        ends_last(d.eof().actions),
{
    lemma_finishing(d);
    if let Ok(v) = json_parse(data) {
        if let Some(error) = value_at(v, "error"@) {
            let closed = ChatView { done: true, ..d }.closing_reasoning();
            let first = seq![Action::Error(inline_error(error, d.dialect))];
            lemma_quiet_parts(first, closed.actions);
        } else {
            let described = d.describing(v);
            let choices = items_at(v, "choices"@);
            lemma_choices(described.state, choices, choices.len() as int);
            lemma_quiet_parts(
                described.actions,
                described.state.choices_upto(choices, choices.len() as int).actions,
            );
        }
    }
}

/// A decoder that is done does nothing any more.
pub proof fn a_finished_decoder_is_silent(d: ChatView, data: Seq<char>)
    requires
        d.done,
    ensures
        d.frame(data) == (Reply { state: d, decoded: does(Seq::empty()) }),
        d.eof() == d.doing(Seq::empty()),
{
}

} // verus!
