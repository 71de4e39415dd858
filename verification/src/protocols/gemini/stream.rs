//! Decoding of GenerateContent streams.
use vstd::prelude::*;

use super::types::{
    are_data_ids, decode_function_call, error_finish_error, feedback_extras, feedback_metadata, finish_failure,
    finish_from_reason, finish_of, first_candidate, fresh_ids, function_call, gemini_member,
    gemini_metadata, into_error, is_thought, may_be_response, parts, parts_of, reported,
    response_ok, rpc_error, safety_extras, safety_metadata, signature_extras, signature_metadata,
    some_ids_for, synthesized, synthetic_id, UsageMetadata,
};
use crate::error::{new_error, Error, ErrorKind, ErrorView};
use crate::json::{field, json_parse, Json, JsonView};
use crate::message::{
    ReasoningContent, ReasoningContentView, ReasoningPart, ReasoningPartView, ToolCall,
    ToolCallView,
};
use crate::metadata::{no_metadata, MetadataView, ProviderMetadata};
use crate::model::{opt, views};
use crate::response::{
    Finish, FinishReason, FinishView, ResponseMetadata, ResponseMetadataView,
};
use crate::stream::action::{
    does, ends_last, fails, lemma_quiet_parts, quiet, Decoded, DecodedView, StreamAction,
};
use crate::stream::contract::Action;
use crate::stream::event::{Citation, CitationView};
use crate::text::cat;
use crate::util::merge_objects;
use crate::wire;
use crate::wire::{items_at, list_at, text_at, value_at, UNEXPECTED_TYPE};

verus! {

broadcast use {crate::model::group_views, crate::json::array_view};

pub const TEXT_BLOCK: &'static str = "t0";

pub const REASONING_BLOCK: &'static str = "r0";

/// Decodes the chunks of a GenerateContent stream.
pub struct GeminiStreamDecoder {
    text_open: bool,
    reasoning_open: bool,
    reasoning_content: Vec<ReasoningContent>,
    reasoning_metadata: ProviderMetadata,
    finish: Option<Finish>,
    response_id_sent: bool,
    response_model_sent: bool,
    /// Number of cumulative grounding chunks already emitted as citations.
    citations_emitted: usize,
}

/// What a decoder knows of its stream so far.
#[verifier::ext_equal]
pub struct GeminiView {
    pub text_open: bool,
    pub reasoning_open: bool,
    pub thoughts: Seq<ReasoningContentView>,
    pub extras: MetadataView,
    pub finish: Option<FinishView>,
    pub id_sent: bool,
    pub model_sent: bool,
    pub cited: nat,
}

impl View for GeminiStreamDecoder {
    type V = GeminiView;

    closed spec fn view(&self) -> GeminiView {
        GeminiView {
            text_open: self.text_open,
            reasoning_open: self.reasoning_open,
            thoughts: views(self.reasoning_content@),
            extras: self.reasoning_metadata@,
            finish: opt(self.finish),
            id_sent: self.response_id_sent,
            model_sent: self.response_model_sent,
            cited: self.citations_emitted as nat,
        }
    }
}

/// A decoder at the start of a stream.
pub open spec fn fresh_decoder() -> GeminiView {
    GeminiView {
        text_open: false,
        reasoning_open: false,
        thoughts: Seq::empty(),
        extras: no_metadata(),
        finish: None,
        id_sent: false,
        model_sent: false,
        cited: 0,
    }
}

/// The decoder after some input, and what that does to the stream.
#[verifier::ext_equal]
pub struct Steps {
    pub state: GeminiView,
    pub actions: Seq<Action>,
}

/// What a frame does: the decoder after it, and what it decodes to.
#[verifier::ext_equal]
pub struct Reply {
    pub state: GeminiView,
    pub decoded: DecodedView,
}

/// Two steps, one after the other.
pub open spec fn followed(a: Steps, b: Steps) -> Steps {
    Steps { state: b.state, actions: a.actions + b.actions }
}

/// The source that a grounding chunk names.
pub open spec fn source_of(chunk: JsonView) -> JsonView {
    match field(chunk, "web"@) {
        Some(source) => source,
        None => match field(chunk, "retrievedContext"@) {
            Some(source) => source,
            None => chunk,
        },
    }
}

/// The citation of a grounding chunk.
pub open spec fn chunk_citation(chunk: JsonView) -> Action {
    Action::Citation {
        text_id: None,
        citation: CitationView {
            url: text_at(source_of(chunk), "uri"@),
            title: text_at(source_of(chunk), "title"@),
            cited_text: None,
            raw: chunk,
        },
    }
}

/// What a tool call does.
pub open spec fn call_actions(call: ToolCallView) -> Seq<Action> {
    seq![
        Action::StartTool {
            call_id: call.call_id,
            name: call.name,
            item_id: call.item_id,
            provider_call_id: call.provider_call_id,
        },
        Action::ToolMetadata { call_id: call.call_id, metadata: call.provider_metadata },
        Action::ToolDelta { call_id: call.call_id, delta: call.arguments },
        Action::CompleteTool { call_id: call.call_id, arguments: None },
    ]
}

/// The failure of a frame that is no chunk.
pub open spec fn invalid_chunk(reason: Seq<char>) -> ErrorView {
    new_error(ErrorKind::MalformedResponse, "gemini: invalid stream chunk: "@ + reason)
}

impl GeminiView {
    /// Some actions, and nothing else.
    pub open spec fn doing(self, actions: Seq<Action>) -> Steps {
        Steps { state: self, actions }
    }

    /// The end of the text block, where one is open.
    pub open spec fn closing_text(self) -> Steps {
        if self.text_open {
            GeminiView { text_open: false, ..self }.doing(
                seq![Action::EndText { id: TEXT_BLOCK@ }],
            )
        } else {
            self.doing(Seq::empty())
        }
    }

    /// The end of the reasoning block, where one is open.
    pub open spec fn closing_reasoning(self) -> Steps {
        if self.reasoning_open {
            GeminiView {
                reasoning_open: false,
                thoughts: Seq::empty(),
                extras: no_metadata(),
                ..self
            }.doing(
                seq![
                    Action::EndReasoning {
                        id: REASONING_BLOCK@,
                        part: Some(
                            ReasoningPartView {
                                id: None,
                                content: self.thoughts,
                                provider_metadata: self.extras,
                            },
                        ),
                    },
                ],
            )
        } else {
            self.doing(Seq::empty())
        }
    }

    /// The end of both blocks.
    pub open spec fn closing(self) -> Steps {
        let reasoned = self.closing_reasoning();
        followed(reasoned, reasoned.state.closing_text())
    }

    /// A frame that reports a failure.
    pub open spec fn error_frame(self, error: ErrorView) -> Steps {
        let closed = self.closing();
        followed(
            followed(self.doing(seq![Action::Error(error)]), closed),
            closed.state.doing(
                seq![
                    Action::Finish(
                        FinishView { reason: FinishReason::Error, raw: Some("error"@) },
                    ),
                ],
            ),
        )
    }

    /// What a chunk says of the response.
    pub open spec fn describing(self, v: JsonView) -> Steps {
        let id = if self.id_sent {
            None
        } else {
            text_at(v, "responseId"@)
        };
        let model = if self.model_sent {
            None
        } else {
            text_at(v, "modelVersion"@)
        };
        let identity = if id is Some || model is Some {
            seq![Action::Metadata(ResponseMetadataView { id, model, request_id: None })]
        } else {
            Seq::empty()
        };
        let counted = match value_at(v, "usageMetadata"@) {
            Some(usage) => seq![Action::MergeUsage(reported(usage).usage())],
            None => Seq::empty(),
        };
        GeminiView {
            id_sent: self.id_sent || id is Some,
            model_sent: self.model_sent || model is Some,
            ..self
        }.doing(identity + counted)
    }

    /// The feedback on the prompt in a chunk.
    pub open spec fn feedback(self, v: JsonView) -> Steps {
        match value_at(v, "promptFeedback"@) {
            Some(feedback) => GeminiView {
                finish: match text_at(feedback, "blockReason"@) {
                    Some(reason) => Some(
                        FinishView { reason: FinishReason::ContentFilter, raw: Some(reason) },
                    ),
                    None => self.finish,
                },
                ..self
            }.doing(seq![Action::ProviderMetadata(feedback_extras(feedback))]),
            None => self.doing(Seq::empty()),
        }
    }

    /// The search grounding of a candidate: the chunks are cumulative, so only
    /// the new ones are cited.
    pub open spec fn grounding(self, candidate: JsonView) -> Steps {
        match value_at(candidate, "groundingMetadata"@) {
            Some(grounding) => {
                let told = seq![
                    Action::ProviderMetadata(gemini_member("groundingMetadata"@, grounding)),
                ];
                match list_at(grounding, "groundingChunks"@) {
                    Some(chunks) => if chunks.len() > self.cited {
                        GeminiView { cited: chunks.len(), ..self }.doing(
                            told + Seq::new(
                                (chunks.len() - self.cited) as nat,
                                |i: int| chunk_citation(chunks[self.cited + i]),
                            ),
                        )
                    } else {
                        self.doing(told)
                    },
                    None => self.doing(told),
                }
            },
            None => self.doing(Seq::empty()),
        }
    }

    /// The legacy citations and the safety ratings of a candidate.
    pub open spec fn rating(self, candidate: JsonView) -> Steps {
        let cited = match value_at(candidate, "citationMetadata"@) {
            Some(citations) => seq![
                Action::ProviderMetadata(gemini_member("citationMetadata"@, citations)),
            ],
            None => Seq::empty(),
        };
        let rated = match safety_extras(candidate) {
            Some(extras) => seq![Action::ProviderMetadata(extras)],
            None => Seq::empty(),
        };
        self.doing(cited + rated)
    }

    /// A thought.
    pub open spec fn thought(self, part: JsonView) -> Steps {
        let closed = self.closing_text();
        let text = text_at(part, "text"@);
        followed(
            closed,
            GeminiView {
                reasoning_open: true,
                thoughts: match text {
                    Some(text) => closed.state.thoughts.push(
                        ReasoningContentView::Summary { text },
                    ),
                    None => closed.state.thoughts,
                },
                extras: match text_at(part, "thoughtSignature"@) {
                    Some(signature) => merge_objects(
                        closed.state.extras,
                        signature_extras(signature),
                    ),
                    None => closed.state.extras,
                },
                ..closed.state
            }.doing(
                match text {
                    Some(delta) => seq![Action::ReasoningDelta { id: REASONING_BLOCK@, delta }],
                    None => Seq::empty(),
                },
            ),
        )
    }

    /// A tool call.
    pub open spec fn tool_call(self, part: JsonView, call: JsonView, id: Seq<char>) -> Steps {
        let closed = self.closing();
        followed(closed, closed.state.doing(call_actions(function_call(part, call, id))))
    }

    /// A text.
    pub open spec fn text(self, part: JsonView) -> Steps {
        let text = text_at(part, "text"@);
        let signature = text_at(part, "thoughtSignature"@);
        if (text is None || text->0.len() == 0) && signature is None {
            self.doing(Seq::empty())
        } else {
            let closed = self.closing_reasoning();
            let told = match text {
                Some(delta) => seq![Action::TextDelta { id: TEXT_BLOCK@, delta }],
                None => seq![Action::StartText { id: TEXT_BLOCK@, metadata: no_metadata() }],
            };
            let signed = match signature {
                Some(signature) => seq![
                    Action::TextMetadata {
                        id: TEXT_BLOCK@,
                        metadata: signature_extras(signature),
                    },
                ],
                None => Seq::empty(),
            };
            followed(
                closed,
                GeminiView { text_open: true, ..closed.state }.doing(told + signed),
            )
        }
    }

    /// A part, with an id for a call that has none.
    pub open spec fn part(self, part: JsonView, id: Seq<char>) -> Steps {
        if is_thought(part) {
            self.thought(part)
        } else {
            match value_at(part, "functionCall"@) {
                Some(call) => self.tool_call(part, call, id),
                None => self.text(part),
            }
        }
    }

    /// The first `n` parts of a candidate.
    pub open spec fn parts_upto(
        self,
        parts: Seq<JsonView>,
        ids: Seq<Seq<char>>,
        n: int,
    ) -> Steps
        decreases n,
    {
        if n <= 0 {
            self.doing(Seq::empty())
        } else {
            let before = self.parts_upto(parts, ids, n - 1);
            followed(before, before.state.part(parts[n - 1], synthetic_id(ids, n - 1)))
        }
    }

    /// A candidate.
    pub open spec fn candidate(self, candidate: JsonView, ids: Seq<Seq<char>>) -> Steps {
        let grounded = self.grounding(candidate);
        let rated = grounded.state.rating(candidate);
        let told = rated.state.parts_upto(
            parts_of(candidate),
            ids,
            parts_of(candidate).len() as int,
        );
        let last = GeminiView {
            finish: match text_at(candidate, "finishReason"@) {
                Some(reason) => Some(finish_of(Some(reason))),
                None => told.state.finish,
            },
            ..told.state
        };
        followed(followed(grounded, rated), Steps { state: last, actions: told.actions })
    }

    /// A chunk.
    pub open spec fn chunk(self, v: JsonView, ids: Seq<Seq<char>>) -> Steps {
        match value_at(v, "error"@) {
            Some(error) => self.error_frame(rpc_error(error, None)),
            None => {
                let described = self.describing(v);
                let fed = described.state.feedback(v);
                let candidates = items_at(v, "candidates"@);
                let told = if candidates.len() > 0 {
                    fed.state.candidate(candidates[0], ids)
                } else {
                    fed.state.doing(Seq::empty())
                };
                followed(followed(described, fed), told)
            },
        }
    }

    /// A frame of the stream, with ids for the calls that have none.
    pub open spec fn frame(self, data: Seq<char>, ids: Seq<Seq<char>>) -> Reply {
        match json_parse(data) {
            Ok(v) => if response_ok(v) {
                Reply {
                    state: self.chunk(v, ids).state,
                    decoded: does(self.chunk(v, ids).actions),
                }
            } else {
                Reply { state: self, decoded: fails(invalid_chunk(UNEXPECTED_TYPE@)) }
            },
            Err(e) => Reply { state: self, decoded: fails(invalid_chunk(e)) },
        }
    }

    /// The end of the body, which Gemini uses as its terminal sentinel. Error
    /// finish reasons must also fail the normalized stream.
    pub open spec fn eof(self) -> Steps {
        match self.finish {
            Some(finish) => {
                let closed = GeminiView { finish: None, ..self }.closing();
                let failed = if finish.reason is Error {
                    seq![Action::Error(finish_failure(finish))]
                } else {
                    Seq::empty()
                };
                followed(closed, closed.state.doing(failed.push(Action::Finish(finish))))
            },
            None => self.doing(Seq::empty()),
        }
    }
}

fn push_citations(actions: &mut Vec<StreamAction>, chunks: &Vec<Json>, from: usize)
    requires
        from <= chunks@.len(),
    ensures
        views(final(actions)@) == views(old(actions)@) + Seq::new(
            (chunks@.len() - from) as nat,
            |i: int| chunk_citation(views(chunks@)[from + i]),
        ),
{
    let ghost before = views(actions@);
    let ghost all = views(chunks@);
    let mut i: usize = from;
    assert(before =~= before + Seq::new(0, |k: int| chunk_citation(all[from + k])));
    while i < chunks.len()
        invariant
            from <= i <= chunks@.len(),
            all == views(chunks@),
            views(actions@) == before + Seq::new(
                (i - from) as nat,
                |k: int| chunk_citation(all[from + k]),
            ),
        decreases chunks@.len() - i,
    {
        assert(all[i as int] == chunks@[i as int]@);
        let chunk: &Json = &chunks[i];
        let source: &Json = match chunk.get("web") {
            Some(source) => source,
            None => match chunk.get("retrievedContext") {
                Some(source) => source,
                None => chunk,
            },
        };
        actions.push(
            StreamAction::Citation {
                text_id: None,
                citation: Citation {
                    url: wire::owned_text(source, "uri"),
                    title: wire::owned_text(source, "title"),
                    cited_text: None,
                    raw: chunk.clone(),
                },
            },
        );
        assert(views(actions@) =~= before + Seq::new(
            (i + 1 - from) as nat,
            |k: int| chunk_citation(all[from + k]),
        ));
        i += 1;
    }
}

fn push_call(actions: &mut Vec<StreamAction>, call: ToolCall)
    ensures
        views(final(actions)@) == views(old(actions)@) + call_actions(call@),
{
    let ghost before = views(actions@);
    actions.push(
        StreamAction::StartTool {
            call_id: call.call_id.clone(),
            name: call.name,
            item_id: call.item_id,
            provider_call_id: call.provider_call_id,
        },
    );
    actions.push(
        StreamAction::ToolMetadata {
            call_id: call.call_id.clone(),
            metadata: call.provider_metadata,
        },
    );
    actions.push(
        StreamAction::ToolDelta { call_id: call.call_id.clone(), delta: call.arguments },
    );
    actions.push(StreamAction::CompleteTool { call_id: call.call_id, arguments: None });
    assert(views(actions@) =~= before + call_actions(call@));
}

impl GeminiStreamDecoder {
    /// A decoder at the start of a stream.
    pub fn new() -> (r: GeminiStreamDecoder)
        ensures
            r@ == fresh_decoder(),
    {
        let r: GeminiStreamDecoder = GeminiStreamDecoder {
            text_open: false,
            reasoning_open: false,
            reasoning_content: Vec::new(),
            reasoning_metadata: ProviderMetadata::new(),
            finish: None,
            response_id_sent: false,
            response_model_sent: false,
            citations_emitted: 0,
        };
        assert(r@ =~= fresh_decoder());
        r
    }

    fn close_text(&mut self, actions: &mut Vec<StreamAction>)
        ensures
            final(self)@ == old(self)@.closing_text().state,
            views(final(actions)@) == views(old(actions)@) + old(self)@.closing_text().actions,
    {
        let ghost before = views(actions@);
        if self.text_open {
            self.text_open = false;
            actions.push(StreamAction::EndText { id: TEXT_BLOCK.to_owned() });
        }
        assert(views(actions@) =~= before + old(self)@.closing_text().actions);
    }

    fn close_reasoning(&mut self, actions: &mut Vec<StreamAction>)
        ensures
            final(self)@ == old(self)@.closing_reasoning().state,
            views(final(actions)@) == views(old(actions)@)
                + old(self)@.closing_reasoning().actions,
    {
        let ghost before = views(actions@);
        if self.reasoning_open {
            self.reasoning_open = false;
            let mut content: Vec<ReasoningContent> = Vec::new();
            std::mem::swap(&mut content, &mut self.reasoning_content);
            let mut provider_metadata: ProviderMetadata = ProviderMetadata::new();
            std::mem::swap(&mut provider_metadata, &mut self.reasoning_metadata);
            actions.push(
                StreamAction::EndReasoning {
                    id: REASONING_BLOCK.to_owned(),
                    part: Some(ReasoningPart { id: None, content, provider_metadata }),
                },
            );
        }
        assert(self@ =~= old(self)@.closing_reasoning().state);
        assert(views(actions@) =~= before + old(self)@.closing_reasoning().actions);
    }

    fn close_blocks(&mut self, actions: &mut Vec<StreamAction>)
        ensures
            final(self)@ == old(self)@.closing().state,
            views(final(actions)@) == views(old(actions)@) + old(self)@.closing().actions,
    {
        let ghost before = views(actions@);
        let ghost a = self@.closing_reasoning();
        let ghost b = a.state.closing_text();
        self.close_reasoning(actions);
        self.close_text(actions);
        assert(before + a.actions + b.actions =~= before + (a.actions + b.actions));
    }

    fn finish_error_frame(&mut self, error: Error) -> (r: Vec<StreamAction>)
        ensures
            final(self)@ == old(self)@.error_frame(error@).state,
            views(r@) == old(self)@.error_frame(error@).actions,
    {
        let mut actions: Vec<StreamAction> = Vec::new();
        actions.push(StreamAction::Error(error));
        self.close_blocks(&mut actions);
        actions.push(StreamAction::Finish(Finish::with_raw(FinishReason::Error, "error")));
        assert(views(actions@) =~= old(self)@.error_frame(error@).actions);
        actions
    }

    fn emit_response_metadata(&mut self, v: &Json, actions: &mut Vec<StreamAction>)
        ensures
            final(self)@ == old(self)@.describing(v@).state,
            views(final(actions)@) == views(old(actions)@) + old(self)@.describing(v@).actions,
    {
        let ghost before = views(actions@);
        let id: Option<String> = if self.response_id_sent {
            None
        } else {
            wire::owned_text(v, "responseId")
        };
        let model: Option<String> = if self.response_model_sent {
            None
        } else {
            wire::owned_text(v, "modelVersion")
        };
        if id.is_some() {
            self.response_id_sent = true;
        }
        if model.is_some() {
            self.response_model_sent = true;
        }
        if id.is_some() || model.is_some() {
            actions.push(
                StreamAction::Metadata(ResponseMetadata { id, model, request_id: None }),
            );
        }
        if let Some(usage) = wire::value(v, "usageMetadata") {
            actions.push(StreamAction::MergeUsage(UsageMetadata::read(usage).to_usage()));
        }
        assert(views(actions@) =~= before + old(self)@.describing(v@).actions);
    }

    fn record_prompt_feedback(&mut self, v: &Json, actions: &mut Vec<StreamAction>)
        ensures
            final(self)@ == old(self)@.feedback(v@).state,
            views(final(actions)@) == views(old(actions)@) + old(self)@.feedback(v@).actions,
    {
        let ghost before = views(actions@);
        if let Some(feedback) = wire::value(v, "promptFeedback") {
            actions.push(StreamAction::ProviderMetadata(feedback_metadata(feedback)));
            if let Some(reason) = wire::text(feedback, "blockReason") {
                self.finish = Some(Finish::with_raw(FinishReason::ContentFilter, reason));
            }
        }
        assert(self@ =~= old(self)@.feedback(v@).state);
        assert(views(actions@) =~= before + old(self)@.feedback(v@).actions);
    }

    fn emit_grounding(&mut self, candidate: &Json, actions: &mut Vec<StreamAction>)
        ensures
            final(self)@ == old(self)@.grounding(candidate@).state,
            views(final(actions)@) == views(old(actions)@) + old(self)@.grounding(
                candidate@,
            ).actions,
    {
        let ghost before = views(actions@);
        if let Some(grounding) = wire::value(candidate, "groundingMetadata") {
            actions.push(
                StreamAction::ProviderMetadata(
                    gemini_metadata("groundingMetadata", grounding.clone()),
                ),
            );
            if let Some(chunks) = wire::list(grounding, "groundingChunks") {
                assert(views(chunks@).len() == chunks@.len());
                if chunks.len() > self.citations_emitted {
                    push_citations(actions, chunks, self.citations_emitted);
                    self.citations_emitted = chunks.len();
                }
            }
        }
        assert(views(actions@) =~= before + old(self)@.grounding(candidate@).actions);
    }

    fn emit_ratings(&mut self, candidate: &Json, actions: &mut Vec<StreamAction>)
        ensures
            final(self)@ == old(self)@.rating(candidate@).state,
            views(final(actions)@) == views(old(actions)@) + old(self)@.rating(
                candidate@,
            ).actions,
    {
        let ghost before = views(actions@);
        if let Some(citations) = wire::value(candidate, "citationMetadata") {
            actions.push(
                StreamAction::ProviderMetadata(
                    gemini_metadata("citationMetadata", citations.clone()),
                ),
            );
        }
        if let Some(metadata) = safety_metadata(candidate) {
            actions.push(StreamAction::ProviderMetadata(metadata));
        }
        assert(views(actions@) =~= before + old(self)@.rating(candidate@).actions);
    }

    fn emit_reasoning_part(&mut self, part: &Json, actions: &mut Vec<StreamAction>)
        ensures
            final(self)@ == old(self)@.thought(part@).state,
            views(final(actions)@) == views(old(actions)@) + old(self)@.thought(part@).actions,
    {
        let ghost before = views(actions@);
        self.close_text(actions);
        self.reasoning_open = true;
        if let Some(text) = wire::text(part, "text") {
            self.reasoning_content.push(ReasoningContent::Summary { text: text.to_owned() });
            actions.push(
                StreamAction::ReasoningDelta {
                    id: REASONING_BLOCK.to_owned(),
                    delta: text.to_owned(),
                },
            );
        }
        if let Some(signature) = wire::text(part, "thoughtSignature") {
            let mut extras: ProviderMetadata = ProviderMetadata::new();
            std::mem::swap(&mut extras, &mut self.reasoning_metadata);
            extras.merge(signature_metadata(signature));
            self.reasoning_metadata = extras;
        }
        assert(self@ =~= old(self)@.thought(part@).state);
        assert(views(actions@) =~= before + old(self)@.thought(part@).actions);
    }

    fn emit_tool_call(
        &mut self,
        part: &Json,
        call: &Json,
        id: &str,
        actions: &mut Vec<StreamAction>,
    )
        ensures
            final(self)@ == old(self)@.tool_call(part@, call@, id@).state,
            views(final(actions)@) == views(old(actions)@) + old(self)@.tool_call(
                part@,
                call@,
                id@,
            ).actions,
    {
        let ghost before = views(actions@);
        let ghost closed = self@.closing();
        self.close_blocks(actions);
        let call: ToolCall = decode_function_call(part, call, id);
        let ghost called = call_actions(call@);
        push_call(actions, call);
        assert(before + closed.actions + called =~= before + (closed.actions + called));
    }

    fn emit_text_part(&mut self, part: &Json, actions: &mut Vec<StreamAction>)
        ensures
            final(self)@ == old(self)@.text(part@).state,
            views(final(actions)@) == views(old(actions)@) + old(self)@.text(part@).actions,
    {
        let ghost before = views(actions@);
        let text: Option<&str> = wire::text(part, "text");
        let signature: Option<&str> = wire::text(part, "thoughtSignature");
        let no_text: bool = match text {
            Some(text) => text.is_empty(),
            None => true,
        };
        if no_text && signature.is_none() {
            assert(before + Seq::<Action>::empty() =~= before);
            return;
        }
        self.close_reasoning(actions);
        self.text_open = true;
        match text {
            Some(text) => actions.push(
                StreamAction::TextDelta { id: TEXT_BLOCK.to_owned(), delta: text.to_owned() },
            ),
            None => actions.push(
                StreamAction::StartText {
                    id: TEXT_BLOCK.to_owned(),
                    metadata: ProviderMetadata::new(),
                },
            ),
        }
        if let Some(signature) = signature {
            actions.push(
                StreamAction::TextMetadata {
                    id: TEXT_BLOCK.to_owned(),
                    metadata: signature_metadata(signature),
                },
            );
        }
        assert(self@ =~= old(self)@.text(part@).state);
        assert(views(actions@) =~= before + old(self)@.text(part@).actions);
    }

    fn emit_part(&mut self, part: &Json, id: &str, actions: &mut Vec<StreamAction>)
        ensures
            final(self)@ == old(self)@.part(part@, id@).state,
            views(final(actions)@) == views(old(actions)@) + old(self)@.part(part@, id@).actions,
    {
        if wire::flag(part, "thought") == Some(true) {
            self.emit_reasoning_part(part, actions);
        } else if let Some(call) = wire::value(part, "functionCall") {
            self.emit_tool_call(part, call, id, actions);
        } else {
            self.emit_text_part(part, actions);
        }
    }

    fn emit_parts(&mut self, list: &Vec<Json>, ids: &Vec<String>, actions: &mut Vec<StreamAction>)
        ensures
            final(self)@ == old(self)@.parts_upto(
                views(list@),
                views(ids@),
                list@.len() as int,
            ).state,
            views(final(actions)@) == views(old(actions)@) + old(self)@.parts_upto(
                views(list@),
                views(ids@),
                list@.len() as int,
            ).actions,
    {
        let ghost start = self@;
        let ghost before = views(actions@);
        let ghost all = views(list@);
        let ghost names = views(ids@);
        assert(before + Seq::<Action>::empty() =~= before);
        let mut i: usize = 0;
        while i < list.len()
            invariant
                i <= list@.len(),
                all == views(list@),
                names == views(ids@),
                self@ == start.parts_upto(all, names, i as int).state,
                views(actions@) == before + start.parts_upto(all, names, i as int).actions,
            decreases list@.len() - i,
        {
            assert(all[i as int] == list@[i as int]@);
            let ghost so_far = start.parts_upto(all, names, i as int);
            let ghost next = so_far.state.part(all[i as int], synthetic_id(names, i as int));
            let id: String = synthesized(ids, i);
            self.emit_part(&list[i], id.as_str(), actions);
            assert(before + so_far.actions + next.actions =~= before + (so_far.actions
                + next.actions));
            i += 1;
        }
    }

    fn emit_candidate(
        &mut self,
        candidate: &Json,
        ids: &Vec<String>,
        actions: &mut Vec<StreamAction>,
    )
        ensures
            final(self)@ == old(self)@.candidate(candidate@, views(ids@)).state,
            views(final(actions)@) == views(old(actions)@) + old(self)@.candidate(
                candidate@,
                views(ids@),
            ).actions,
    {
        let ghost before = views(actions@);
        let ghost grounded = self@.grounding(candidate@);
        let ghost rated = grounded.state.rating(candidate@);
        let ghost told = rated.state.parts_upto(
            parts_of(candidate@),
            views(ids@),
            parts_of(candidate@).len() as int,
        );
        self.emit_grounding(candidate, actions);
        self.emit_ratings(candidate, actions);
        if let Some(list) = parts(candidate) {
            assert(views(list@).len() == list@.len());
            self.emit_parts(list, ids, actions);
        }
        assert(self@ == told.state);
        if let Some(reason) = wire::text(candidate, "finishReason") {
            self.finish = Some(finish_from_reason(Some(reason)));
        }
        assert(self@ =~= old(self)@.candidate(candidate@, views(ids@)).state);
        assert(views(actions@) =~= before + (grounded.actions + rated.actions + told.actions));
    }

    fn process_chunk(&mut self, v: &Json, ids: &Vec<String>) -> (r: Vec<StreamAction>)
        requires
            response_ok(v@),
        ensures
            final(self)@ == old(self)@.chunk(v@, views(ids@)).state,
            views(r@) == old(self)@.chunk(v@, views(ids@)).actions,
    {
        if let Some(error) = wire::value(v, "error") {
            return self.finish_error_frame(into_error(error, None));
        }
        let ghost described = self@.describing(v@);
        let ghost fed = described.state.feedback(v@);
        let mut actions: Vec<StreamAction> = Vec::new();
        assert(views(actions@) =~= Seq::empty());
        self.emit_response_metadata(v, &mut actions);
        self.record_prompt_feedback(v, &mut actions);
        assert(views(actions@) =~= described.actions + fed.actions);
        if let Some(candidate) = first_candidate(v) {
            self.emit_candidate(candidate, ids, &mut actions);
        }
        assert(views(actions@) =~= old(self)@.chunk(v@, views(ids@)).actions);
        actions
    }

    /// Decodes one frame of the stream, with ids for the calls that have none.
    ///
    /// Type mismatches fail the stream: demoting them would silently lose
    /// candidates or the finish reason.
    pub fn on_frame_with(&mut self, data: &str, ids: &Vec<String>) -> (r: Decoded)
        ensures
            (Reply { state: final(self)@, decoded: r@ }) == old(self)@.frame(data@, views(ids@)),
    {
        match Json::parse(data) {
            Ok(v) => {
                if may_be_response(&v) {
                    Decoded::done(self.process_chunk(&v, ids))
                } else {
                    Decoded::failed(unreadable(UNEXPECTED_TYPE))
                }
            },
            Err(e) => Decoded::failed(unreadable(e.as_str())),
        }
    }

    /// Decodes one frame of the stream. A call without an id gets a random one.
    pub fn on_frame(&mut self, data: &str) -> (r: Decoded)
        ensures
            exists|ids: Seq<Seq<char>>| #[trigger]
                are_data_ids(data@, ids) && (Reply { state: final(self)@, decoded: r@ }) == old(
                    self,
                )@.frame(data@, ids),
    {
        let ghost unused = some_ids_for(json_parse(data@));
        assert(are_data_ids(data@, unused));
        match Json::parse(data) {
            Ok(v) => {
                if may_be_response(&v) {
                    let ids: Vec<String> = fresh_ids(&v);
                    let r: Decoded = Decoded::done(self.process_chunk(&v, &ids));
                    assert(are_data_ids(data@, views(ids@)));
                    return r;
                }
                Decoded::failed(unreadable(UNEXPECTED_TYPE))
            },
            Err(e) => Decoded::failed(unreadable(e.as_str())),
        }
    }

    /// Decodes the end of the body.
    pub fn on_eof(&mut self) -> (r: Vec<StreamAction>)
        ensures
            final(self)@ == old(self)@.eof().state,
            views(r@) == old(self)@.eof().actions,
    {
        let ghost start = self@;
        let mut actions: Vec<StreamAction> = Vec::new();
        let mut last: Option<Finish> = None;
        std::mem::swap(&mut last, &mut self.finish);
        assert(self@ =~= GeminiView { finish: None, ..start });
        if let Some(finish) = last {
            self.close_blocks(&mut actions);
            if finish.reason == FinishReason::Error {
                actions.push(StreamAction::Error(error_finish_error(&finish)));
            }
            actions.push(StreamAction::Finish(finish));
        }
        assert(views(actions@) =~= start.eof().actions);
        actions
    }
}

fn unreadable(reason: &str) -> (r: Error)
    ensures
        r@ == invalid_chunk(reason@),
{
    Error::malformed(cat("gemini: invalid stream chunk: ", reason).as_str())
}

proof fn lemma_parts(d: GeminiView, parts: Seq<JsonView>, ids: Seq<Seq<char>>, n: int)
    ensures
        quiet(d.parts_upto(parts, ids, n).actions),
    decreases n,
{
    if n > 0 {
        lemma_parts(d, parts, ids, n - 1);
        let before = d.parts_upto(parts, ids, n - 1);
        let id = synthetic_id(ids, n - 1);
        let part = parts[n - 1];
        let s = before.state;
        lemma_quiet_parts(s.closing_text().actions, s.thought(part).actions);
        lemma_quiet_parts(
            s.closing_reasoning().actions,
            s.closing_reasoning().state.closing_text().actions,
        );
        if let Some(call) = value_at(part, "functionCall"@) {
            lemma_quiet_parts(s.closing().actions, call_actions(function_call(part, call, id)));
        }
        lemma_quiet_parts(before.actions, s.part(part, id).actions);
    }
}

proof fn lemma_candidate(d: GeminiView, candidate: JsonView, ids: Seq<Seq<char>>)
    ensures
        quiet(d.candidate(candidate, ids).actions),
{
    let grounded = d.grounding(candidate);
    let rated = grounded.state.rating(candidate);
    let n = parts_of(candidate).len() as int;
    lemma_parts(rated.state, parts_of(candidate), ids, n);
    lemma_quiet_parts(grounded.actions, rated.actions);
    lemma_quiet_parts(
        grounded.actions + rated.actions,
        rated.state.parts_upto(parts_of(candidate), ids, n).actions,
    );
}

/// What precedes a failure does not end the stream.
pub proof fn failures_end_by_themselves(d: GeminiView, data: Seq<char>, ids: Seq<Seq<char>>)
    ensures
        d.frame(data, ids).decoded.error is Some ==> quiet(d.frame(data, ids).decoded.actions),
{
}

/// Nothing follows the end of the stream in what a frame or the end of the
/// body does.
pub proof fn frames_end_at_most_once(d: GeminiView, data: Seq<char>, ids: Seq<Seq<char>>)
    ensures
        ends_last(d.frame(data, ids).decoded.actions),
        ends_last(d.eof().actions),
{
    if let Ok(v) = json_parse(data) {
        if let Some(error) = value_at(v, "error"@) {
            let first = seq![Action::Error(rpc_error(error, None))];
            let a = d.closing_reasoning();
            lemma_quiet_parts(a.actions, a.state.closing_text().actions);
            lemma_quiet_parts(first, d.closing().actions);
        } else {
            let described = d.describing(v);
            let fed = described.state.feedback(v);
            let candidates = items_at(v, "candidates"@);
            lemma_quiet_parts(described.actions, fed.actions);
            if candidates.len() > 0 {
                lemma_candidate(fed.state, candidates[0], ids);
                lemma_quiet_parts(
                    described.actions + fed.actions,
                    fed.state.candidate(candidates[0], ids).actions,
                );
            }
        }
    }
    if let Some(finish) = d.finish {
        let e = GeminiView { finish: None, ..d };
        let a = e.closing_reasoning();
        lemma_quiet_parts(a.actions, a.state.closing_text().actions);
    }
}

/// Grounding chunks are cumulative: a chunk that was cited is not cited again.
pub proof fn citations_are_not_repeated(d: GeminiView, candidate: JsonView)
    ensures
        d.grounding(candidate).state.cited >= d.cited,
        d.grounding(candidate).state.grounding(candidate).actions.len() <= 1,
{
}

} // verus!
