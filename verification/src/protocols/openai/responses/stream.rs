//! Decoding of Responses streams.
use vstd::prelude::*;

use super::types::{
    decode_output_item, decoded_item, event_error, failed_response_error, finish_from_status,
    finish_of, incomplete_reason, into_error, is_server_tool, is_server_tool_item, item_compaction, lemma_single_parts,
    may_be_response, openai_member, openai_metadata, phase_extras, reasoning_of, response_error,
    response_ok, server_tool_part, to_usage, usage_of, why_incomplete,
};
use crate::error::{new_error, Error, ErrorKind, ErrorView};
use crate::json::{json_parse, Json, JsonView};
use crate::message::{
    AssistantPart, AssistantPartView, CompactionPart, ProviderToolPart, ReasoningPart,
};
use crate::metadata::{no_metadata, ProviderMetadata};
use crate::model::{opt, views};
use crate::protocols::{origin_metadata, origin_stamp, ApiProfile};
use crate::response::{
    Finish, FinishReason, FinishView, ResponseMetadata, ResponseMetadataView,
};
use crate::stream::action::{does, ends_last, quiet, fails, Decoded, DecodedView, StreamAction};
use crate::stream::contract::Action;
use crate::stream::event::{citation_of, Citation};
use crate::table::{add_to, row_of, List, Table};
use crate::text::{
    cat, cat3, decimal, decimal_text, ends_with, is_prefix, is_suffix, part, same, split_at_last,
    split_last, starts_with, trim, trimmed,
};
use crate::wire;
use crate::wire::{
    count_at, count_ok, tag_at, tag_ok, text_at, text_ok, value_at, UNEXPECTED_TYPE,
};

verus! {

broadcast use {crate::model::group_views, crate::json::array_view};

/// Decodes the events of a Responses stream.
pub struct ResponsesStreamDecoder {
    /// Profile used to attribute errors from this shared decoder.
    profile: ApiProfile,
    /// Open function call ids by item id.
    open_calls: Table<String>,
    /// Open text block ids kept until item-level metadata arrives.
    open_texts: Table<List<String>>,
    /// Pending annotations by text block id.
    annotations: Table<List<Json>>,
    saw_refusal: bool,
    errored: bool,
    /// Whether the turn's origin-profile stamp was emitted.
    stamped: bool,
}

/// What a decoder has seen so far.
#[verifier::ext_equal]
pub struct ResponsesView {
    pub profile: ApiProfile,
    pub calls: Map<Seq<char>, Seq<char>>,
    pub texts: Map<Seq<char>, Seq<Seq<char>>>,
    pub annotations: Map<Seq<char>, Seq<JsonView>>,
    pub saw_refusal: bool,
    pub errored: bool,
    pub stamped: bool,
}

impl View for ResponsesStreamDecoder {
    type V = ResponsesView;

    closed spec fn view(&self) -> ResponsesView {
        ResponsesView {
            profile: self.profile,
            calls: self.open_calls@,
            texts: self.open_texts@,
            annotations: self.annotations@,
            saw_refusal: self.saw_refusal,
            errored: self.errored,
            stamped: self.stamped,
        }
    }
}

/// What a frame does: the decoder after it, and what it decodes to.
#[verifier::ext_equal]
pub struct Reply {
    pub state: ResponsesView,
    pub decoded: DecodedView,
}

/// A decoder at the start of a stream.
pub open spec fn fresh_decoder(profile: ApiProfile) -> ResponsesView {
    ResponsesView {
        profile,
        calls: Map::empty(),
        texts: Map::empty(),
        annotations: Map::empty(),
        saw_refusal: false,
        errored: false,
        stamped: false,
    }
}

/// Whether a value can be a stream event.
pub open spec fn envelope_ok(v: JsonView) -> bool {
    &&& v is Object
    &&& tag_ok(v, "type"@)
    &&& text_ok(v, "item_id"@)
    &&& count_ok(v, "content_index"@)
    &&& text_ok(v, "delta"@)
    &&& text_ok(v, "message"@)
}

/// The id of the text block for a content part.
pub open spec fn text_block(item_id: Seq<char>, index: Option<u64>) -> Seq<char> {
    item_id + ":"@ + decimal(
        match index {
            Some(n) => n as nat,
            None => 0,
        },
    )
}

/// The status that an event reports of a server tool.
pub open spec fn tool_status(kind: Seq<char>) -> Option<Seq<char>> {
    if !is_prefix("response."@, kind) {
        None
    } else {
        match split_last(kind.skip("response."@.len() as int), '.') {
            // Argument delta events are not server tool statuses.
            Some((head, status)) => if is_server_tool(head) && !is_suffix("_arguments"@, head) {
                Some(status)
            } else {
                None
            },
            None => None,
        }
    }
}

/// What the identity of a response does.
pub open spec fn identity(response: Option<JsonView>) -> Seq<Action> {
    match response {
        Some(r) => if text_at(r, "id"@) is Some || text_at(r, "model"@) is Some {
            seq![
                Action::Metadata(
                    ResponseMetadataView {
                        id: text_at(r, "id"@),
                        model: text_at(r, "model"@),
                        request_id: None,
                    },
                ),
            ]
        } else {
            Seq::empty()
        },
        None => Seq::empty(),
    }
}

/// An id, where it is not empty.
pub open spec fn id_if_any(id: Seq<char>) -> Option<Seq<char>> {
    if id.len() > 0 {
        Some(id)
    } else {
        None
    }
}

impl ResponsesView {
    /// Some actions, and nothing else.
    pub open spec fn doing(self, actions: Seq<Action>) -> Reply {
        Reply { state: self, decoded: does(actions) }
    }

    /// A failure.
    pub open spec fn failing(self, error: ErrorView) -> Reply {
        Reply { state: self, decoded: fails(error) }
    }

    /// The start of an output item.
    pub open spec fn item_added(self, item: Option<JsonView>, raw: Seq<char>) -> Reply {
        match item {
            None => self.doing(Seq::empty()),
            Some(item) => {
                let kind = tag_at(item, "type"@);
                let id = tag_at(item, "id"@);
                if kind == "function_call"@ {
                    let call_id = match text_at(item, "call_id"@) {
                        Some(call_id) => call_id,
                        None => id,
                    };
                    ResponsesView { calls: self.calls.insert(id, call_id), ..self }.doing(
                        seq![
                            Action::StartTool {
                                call_id,
                                name: tag_at(item, "name"@),
                                item_id: id_if_any(id),
                                provider_call_id: None,
                            },
                        ],
                    )
                } else if kind == "reasoning"@ {
                    self.doing(seq![Action::StartReasoning { id }])
                } else if kind == "compaction"@ {
                    self.doing(seq![Action::CompactionStart])
                } else if is_server_tool(kind) {
                    self.doing(seq![Action::ProviderToolStart { id, kind }])
                } else {
                    self.doing(seq![Action::RawFrame(raw)])
                }
            },
        }
    }

    /// The start of a content part.
    pub open spec fn part_added(self, v: JsonView) -> Reply {
        match (text_at(v, "item_id"@), value_at(v, "part"@)) {
            (Some(item_id), Some(part)) => {
                let kind = tag_at(part, "type"@);
                let block = text_block(item_id, count_at(v, "content_index"@));
                if kind == "output_text"@ || kind == "refusal"@ {
                    ResponsesView {
                        saw_refusal: self.saw_refusal || kind == "refusal"@,
                        texts: self.texts.insert(
                            item_id,
                            row_of(self.texts, item_id).push(block),
                        ),
                        ..self
                    }.doing(
                        seq![
                            Action::StartText {
                                id: block,
                                metadata: if kind == "refusal"@ {
                                    openai_member("content_type"@, JsonView::String("refusal"@))
                                } else {
                                    no_metadata()
                                },
                            },
                        ],
                    )
                } else {
                    self.doing(Seq::empty())
                }
            },
            _ => self.doing(Seq::empty()),
        }
    }

    /// An annotation of a text.
    pub open spec fn annotated(self, v: JsonView) -> Reply {
        match (text_at(v, "item_id"@), value_at(v, "annotation"@)) {
            (Some(item_id), Some(annotation)) => {
                let block = text_block(item_id, count_at(v, "content_index"@));
                ResponsesView {
                    annotations: self.annotations.insert(
                        block,
                        row_of(self.annotations, block).push(annotation),
                    ),
                    ..self
                }.doing(
                    seq![
                        Action::Citation {
                            text_id: Some(block),
                            citation: citation_of(annotation),
                        },
                    ],
                )
            },
            _ => self.doing(Seq::empty()),
        }
    }

    /// The end of the first `n` text blocks of a message: each gets the phase
    /// and its annotations before it closes.
    pub open spec fn texts_done(
        self,
        ids: Seq<Seq<char>>,
        phase: Option<Seq<char>>,
        n: int,
    ) -> Reply
        decreases n,
    {
        if n <= 0 {
            self.doing(Seq::empty())
        } else {
            let before = self.texts_done(ids, phase, n - 1);
            let id = ids[n - 1];
            let phased = if phase is Some {
                seq![Action::TextMetadata { id, metadata: phase_extras(phase) }]
            } else {
                Seq::empty()
            };
            let annotated = if before.state.annotations.contains_key(id) {
                seq![
                    Action::TextMetadata {
                        id,
                        metadata: openai_member(
                            "annotations"@,
                            JsonView::Array(before.state.annotations[id]),
                        ),
                    },
                ]
            } else {
                Seq::empty()
            };
            ResponsesView {
                annotations: before.state.annotations.remove(id),
                ..before.state
            }.doing(
                before.decoded.actions + (phased + annotated).push(Action::EndText { id }),
            )
        }
    }

    /// The end of an output item.
    pub open spec fn item_done(self, item: Option<JsonView>, raw: Seq<char>) -> Reply {
        match item {
            None => self.doing(Seq::empty()),
            Some(item) => {
                let kind = tag_at(item, "type"@);
                let id = tag_at(item, "id"@);
                if kind == "function_call"@ {
                    let status = text_at(item, "status"@);
                    ResponsesView { calls: self.calls.remove(id), ..self }.doing(
                        if self.calls.contains_key(id) && (status is None || status == Some(
                            "completed"@,
                        )) {
                            seq![
                                Action::CompleteTool {
                                    call_id: self.calls[id],
                                    arguments: text_at(item, "arguments"@),
                                },
                            ]
                        } else {
                            Seq::empty()
                        },
                    )
                } else if kind == "reasoning"@ {
                    match decoded_item(item) {
                        Ok(_) => self.doing(
                            seq![Action::EndReasoning { id, part: Some(reasoning_of(item)) }],
                        ),
                        Err(e) => self.failing(e),
                    }
                } else if kind == "message"@ {
                    // Item metadata arrives after content completion.
                    let ids = row_of(self.texts, id);
                    ResponsesView { texts: self.texts.remove(id), ..self }.texts_done(
                        ids,
                        text_at(item, "phase"@),
                        ids.len() as int,
                    )
                } else if kind == "compaction"@ {
                    match decoded_item(item) {
                        Ok(_) => self.doing(seq![Action::Compaction(item_compaction(item))]),
                        Err(e) => self.failing(e),
                    }
                } else if is_server_tool(kind) {
                    self.doing(
                        seq![
                            Action::ProviderToolEnd {
                                id,
                                part: server_tool_part(item, id_if_any(id)),
                            },
                        ],
                    )
                } else {
                    self.doing(seq![Action::RawFrame(raw)])
                }
            },
        }
    }

    /// A terminal event.
    pub open spec fn terminal(self, response: Option<JsonView>, status: Seq<char>) -> Reply {
        match response {
            None => self.failing(
                new_error(
                    ErrorKind::MalformedResponse,
                    self.profile.text() + ": terminal event carried no response object"@,
                ),
            ),
            Some(r) => if !response_ok(r) {
                self.failing(
                    new_error(
                        ErrorKind::MalformedResponse,
                        self.profile.text() + ": invalid terminal response object: "@
                            + UNEXPECTED_TYPE@,
                    ),
                )
            } else {
                let counted = match value_at(r, "usage"@) {
                    Some(u) => seq![Action::MergeUsage(usage_of(u))],
                    None => Seq::empty(),
                };
                self.doing(
                    if status == "failed"@ {
                        counted + if self.errored {
                            Seq::empty()
                        } else {
                            seq![
                                Action::Error(
                                    response_error(value_at(r, "error"@), self.profile),
                                ),
                            ]
                        } + seq![
                            Action::Finish(
                                FinishView {
                                    reason: FinishReason::Error,
                                    raw: Some("failed"@),
                                },
                            ),
                        ]
                    } else if status == "incomplete"@ {
                        counted.push(
                            Action::Finish(finish_of(Some("incomplete"@), incomplete_reason(r))),
                        )
                    } else {
                        counted.push(
                            Action::Finish(
                                if self.saw_refusal {
                                    FinishView {
                                        reason: FinishReason::ContentFilter,
                                        raw: Some("refusal"@),
                                    }
                                } else {
                                    finish_of(Some("completed"@), None)
                                },
                            ),
                        )
                    },
                )
            },
        }
    }

    /// An event, apart from the origin stamp.
    pub open spec fn event(self, v: JsonView, raw: Seq<char>) -> Reply {
        let kind = tag_at(v, "type"@);
        let item_id = text_at(v, "item_id"@);
        let delta = text_at(v, "delta"@);
        if kind == "response.created"@ || kind == "response.in_progress"@ || kind
            == "response.queued"@ {
            self.doing(identity(value_at(v, "response"@)))
        } else if kind == "response.output_item.added"@ {
            self.item_added(value_at(v, "item"@), raw)
        } else if kind == "response.content_part.added"@ {
            self.part_added(v)
        } else if kind == "response.output_text.annotation.added"@ {
            self.annotated(v)
        } else if kind == "response.output_text.delta"@ || kind == "response.refusal.delta"@ {
            self.doing(
                match (item_id, delta) {
                    (Some(item_id), Some(delta)) => seq![
                        Action::TextDelta {
                            id: text_block(item_id, count_at(v, "content_index"@)),
                            delta,
                        },
                    ],
                    _ => Seq::empty(),
                },
            )
        } else if kind == "response.content_part.done"@ {
            // The later item event attaches phase metadata and closes the blocks.
            self.doing(Seq::empty())
        } else if kind == "response.reasoning_summary_text.delta"@ || kind
            == "response.reasoning_text.delta"@ {
            self.doing(
                match (item_id, delta) {
                    (Some(id), Some(delta)) => seq![Action::ReasoningDelta { id, delta }],
                    _ => Seq::empty(),
                },
            )
        } else if kind == "response.function_call_arguments.delta"@ {
            self.doing(
                match (item_id, delta) {
                    (Some(item_id), Some(delta)) => if self.calls.contains_key(item_id) {
                        seq![Action::ToolDelta { call_id: self.calls[item_id], delta }]
                    } else {
                        Seq::empty()
                    },
                    _ => Seq::empty(),
                },
            )
        } else if kind == "response.output_item.done"@ {
            self.item_done(value_at(v, "item"@), raw)
        } else if kind == "response.completed"@ {
            self.terminal(value_at(v, "response"@), "completed"@)
        } else if kind == "response.incomplete"@ {
            self.terminal(value_at(v, "response"@), "incomplete"@)
        } else if kind == "response.failed"@ {
            self.terminal(value_at(v, "response"@), "failed"@)
        } else if kind == "error"@ {
            ResponsesView { errored: true, ..self }.doing(
                seq![Action::Error(event_error(v, self.profile))],
            )
        } else {
            self.doing(
                match (tool_status(kind), item_id) {
                    (Some(status), Some(id)) => seq![
                        Action::ProviderToolUpdate { id, status },
                        Action::RawFrame(raw),
                    ],
                    _ => seq![Action::RawFrame(raw)],
                },
            )
        }
    }

    /// An event; the first one stamps the turn with its origin.
    pub open spec fn stamped_event(self, v: JsonView, raw: Seq<char>) -> Reply {
        if self.stamped {
            self.event(v, raw)
        } else {
            let r = ResponsesView { stamped: true, ..self }.event(v, raw);
            Reply {
                state: r.state,
                decoded: DecodedView {
                    actions: seq![Action::ProviderMetadata(origin_stamp(self.profile))]
                        + r.decoded.actions,
                    ..r.decoded
                },
            }
        }
    }

    /// A frame of the stream.
    pub open spec fn frame(self, data: Seq<char>) -> Reply {
        // Some compatible proxies append a Chat-style [DONE] sentinel.
        if trimmed(data) == "[DONE]"@ {
            self.doing(Seq::empty())
        } else {
            match json_parse(data) {
                Ok(v) => if envelope_ok(v) {
                    self.stamped_event(v, data)
                } else {
                    self.failing(invalid_event(self.profile, UNEXPECTED_TYPE@))
                },
                Err(e) => self.failing(invalid_event(self.profile, e)),
            }
        }
    }
}

/// The failure of a frame that is no event.
pub open spec fn invalid_event(profile: ApiProfile, reason: Seq<char>) -> ErrorView {
    new_error(
        ErrorKind::MalformedResponse,
        profile.text() + ": invalid stream event: "@ + reason,
    )
}

fn block_id(item_id: &str, v: &Json) -> (r: String)
    ensures
        r@ == text_block(item_id@, count_at(v@, "content_index"@)),
{
    let index: u64 = match wire::count(v, "content_index") {
        Some(n) => n,
        None => 0,
    };
    cat3(item_id, ":", decimal_text(index).as_str())
}

fn server_tool_status(kind: &str) -> (r: Option<String>)
    ensures
        opt(r) == tool_status(kind@),
{
    if !starts_with(kind, "response.") {
        return None;
    }
    proof {
        reveal_strlit("response.");
    }
    let n: usize = crate::text::chars_of(kind).len();
    let rest: String = part(kind, 9, n);
    assert(rest@ =~= kind@.skip("response."@.len() as int));
    match split_at_last(rest.as_str(), '.') {
        Some((head, status)) => if is_server_tool_item(head.as_str()) && !ends_with(
            head.as_str(),
            "_arguments",
        ) {
            Some(status)
        } else {
            None
        },
        None => None,
    }
}

fn handle_response_metadata(response: Option<&Json>) -> (r: Decoded)
    ensures
        r@ == does(identity(opt(response))),
{
    match response {
        Some(response) => {
            let id: Option<String> = wire::owned_text(response, "id");
            let model: Option<String> = wire::owned_text(response, "model");
            if id.is_some() || model.is_some() {
                Decoded::one(StreamAction::Metadata(ResponseMetadata { id, model, request_id: None }))
            } else {
                Decoded::nothing()
            }
        },
        None => Decoded::nothing(),
    }
}

fn handle_text_delta(v: &Json) -> (r: Decoded)
    ensures
        r@ == does(
            match (text_at(v@, "item_id"@), text_at(v@, "delta"@)) {
                (Some(item_id), Some(delta)) => seq![
                    Action::TextDelta {
                        id: text_block(item_id, count_at(v@, "content_index"@)),
                        delta,
                    },
                ],
                _ => Seq::empty(),
            },
        ),
{
    match (wire::text(v, "item_id"), wire::text(v, "delta")) {
        (Some(item_id), Some(delta)) => Decoded::one(
            StreamAction::TextDelta { id: block_id(item_id, v), delta: delta.to_owned() },
        ),
        _ => Decoded::nothing(),
    }
}

fn handle_reasoning_delta(v: &Json) -> (r: Decoded)
    ensures
        r@ == does(
            match (text_at(v@, "item_id"@), text_at(v@, "delta"@)) {
                (Some(id), Some(delta)) => seq![Action::ReasoningDelta { id, delta }],
                _ => Seq::empty(),
            },
        ),
{
    match (wire::text(v, "item_id"), wire::text(v, "delta")) {
        (Some(id), Some(delta)) => Decoded::one(
            StreamAction::ReasoningDelta { id: id.to_owned(), delta: delta.to_owned() },
        ),
        _ => Decoded::nothing(),
    }
}

fn non_empty(id: &str) -> (r: Option<String>)
    ensures
        opt(r) == id_if_any(id@),
{
    if id.is_empty() {
        None
    } else {
        Some(id.to_owned())
    }
}

impl ResponsesStreamDecoder {
    pub fn new(profile: ApiProfile) -> (r: ResponsesStreamDecoder)
        ensures
            r@ == fresh_decoder(profile),
    {
        ResponsesStreamDecoder {
            profile,
            open_calls: Table::new(),
            open_texts: Table::new(),
            annotations: Table::new(),
            saw_refusal: false,
            errored: false,
            stamped: false,
        }
    }

    fn handle_output_item_added(&mut self, item: Option<&Json>, raw: &str) -> (r: Decoded)
        ensures
            (Reply { state: final(self)@, decoded: r@ }) == old(self)@.item_added(opt(item), raw@),
    {
        let item: &Json = match item {
            Some(item) => item,
            None => return Decoded::nothing(),
        };
        let kind: &str = wire::tag(item, "type");
        let item_id: &str = wire::tag(item, "id");
        if same(kind, "function_call") {
            let call_id: &str = match wire::text(item, "call_id") {
                Some(call_id) => call_id,
                None => item_id,
            };
            self.open_calls.insert(item_id, call_id.to_owned());
            Decoded::one(
                StreamAction::StartTool {
                    call_id: call_id.to_owned(),
                    name: wire::tag(item, "name").to_owned(),
                    item_id: non_empty(item_id),
                    provider_call_id: None,
                },
            )
        } else if same(kind, "reasoning") {
            Decoded::one(StreamAction::StartReasoning { id: item_id.to_owned() })
        } else if same(kind, "compaction") {
            Decoded::one(StreamAction::CompactionStart)
        } else if is_server_tool_item(kind) {
            Decoded::one(StreamAction::ProviderToolStart { id: item_id.to_owned(), kind: kind.to_owned() })
        } else {
            Decoded::one(StreamAction::RawFrame(raw.to_owned()))
        }
    }

    fn handle_content_part_added(&mut self, v: &Json) -> (r: Decoded)
        ensures
            (Reply { state: final(self)@, decoded: r@ }) == old(self)@.part_added(v@),
    {
        let (item_id, part) = match (wire::text(v, "item_id"), wire::value(v, "part")) {
            (Some(item_id), Some(part)) => (item_id, part),
            _ => return Decoded::nothing(),
        };
        let kind: &str = wire::tag(part, "type");
        let refusal: bool = same(kind, "refusal");
        if !refusal && !same(kind, "output_text") {
            return Decoded::nothing();
        }
        let id: String = block_id(item_id, v);
        let metadata: ProviderMetadata = if refusal {
            self.saw_refusal = true;
            openai_metadata("content_type", Json::text("refusal"))
        } else {
            ProviderMetadata::new()
        };
        add_to(&mut self.open_texts, item_id, id.clone());
        Decoded::one(StreamAction::StartText { id, metadata })
    }

    fn handle_annotation_added(&mut self, v: &Json) -> (r: Decoded)
        ensures
            (Reply { state: final(self)@, decoded: r@ }) == old(self)@.annotated(v@),
    {
        let (item_id, annotation) = match (wire::text(v, "item_id"), wire::value(v, "annotation")) {
            (Some(item_id), Some(annotation)) => (item_id, annotation),
            _ => return Decoded::nothing(),
        };
        let block: String = block_id(item_id, v);
        add_to(&mut self.annotations, block.as_str(), annotation.clone());
        Decoded::one(
            StreamAction::Citation {
                text_id: Some(block),
                citation: Citation::from_raw(annotation.clone()),
            },
        )
    }

    fn close_texts(&mut self, ids: Vec<String>, phase: Option<&str>) -> (r: Decoded)
        ensures
            (Reply { state: final(self)@, decoded: r@ }) == old(self)@.texts_done(
                views(ids@),
                opt(phase),
                ids@.len() as int,
            ),
    {
        let ghost all = views(ids@);
        let ghost start = self@;
        let mut actions: Vec<StreamAction> = Vec::new();
        let mut i: usize = 0;
        while i < ids.len()
            invariant
                i <= ids@.len(),
                all == views(ids@),
                self@ == start.texts_done(all, opt(phase), i as int).state,
                does(views(actions@)) == start.texts_done(all, opt(phase), i as int).decoded,
            decreases ids@.len() - i,
        {
            assert(all[i as int] == ids@[i as int]@);
            let ghost before = views(actions@);
            let id: &str = ids[i].as_str();
            if let Some(phase) = phase {
                actions.push(
                    StreamAction::TextMetadata {
                        id: id.to_owned(),
                        metadata: openai_metadata("phase", Json::text(phase)),
                    },
                );
            }
            if let Some(annotations) = self.annotations.remove(id) {
                actions.push(
                    StreamAction::TextMetadata {
                        id: id.to_owned(),
                        metadata: openai_metadata("annotations", Json::Array(annotations.items)),
                    },
                );
            }
            actions.push(StreamAction::EndText { id: id.to_owned() });
            assert(views(actions@) =~= start.texts_done(
                all,
                opt(phase),
                i + 1,
            ).decoded.actions);
            i += 1;
        }
        Decoded::done(actions)
    }

    fn handle_output_item_done(&mut self, item: Option<&Json>, raw: &str) -> (r: Decoded)
        ensures
            (Reply { state: final(self)@, decoded: r@ }) == old(self)@.item_done(opt(item), raw@),
    {
        let item: &Json = match item {
            Some(item) => item,
            None => return Decoded::nothing(),
        };
        let kind: &str = wire::tag(item, "type");
        let item_id: &str = wire::tag(item, "id");
        if same(kind, "function_call") {
            let completed: bool = match wire::text(item, "status") {
                Some(status) => same(status, "completed"),
                None => true,
            };
            match self.open_calls.remove(item_id) {
                Some(call_id) => if completed {
                    Decoded::one(
                        StreamAction::CompleteTool {
                            call_id,
                            arguments: wire::owned_text(item, "arguments"),
                        },
                    )
                } else {
                    Decoded::nothing()
                },
                None => Decoded::nothing(),
            }
        } else if same(kind, "reasoning") {
            match decode_output_item(item) {
                Ok(parts) => {
                    proof {
                        lemma_single_parts(item@);
                    }
                    assert(views(parts->0@).len() == 1);
                    assert(parts->0@[0]@ == views(parts->0@)[0]);
                    let part: Option<ReasoningPart> = first_reasoning(parts);
                    Decoded::one(StreamAction::EndReasoning { id: item_id.to_owned(), part })
                },
                Err(e) => Decoded::failed(e),
            }
        } else if same(kind, "message") {
            let ids: Vec<String> = match self.open_texts.remove(item_id) {
                Some(list) => list.items,
                None => Vec::new(),
            };
            self.close_texts(ids, wire::text(item, "phase"))
        } else if same(kind, "compaction") {
            match decode_output_item(item) {
                Ok(parts) => {
                    proof {
                        lemma_single_parts(item@);
                    }
                    assert(views(parts->0@).len() == 1);
                    assert(parts->0@[0]@ == views(parts->0@)[0]);
                    match first_compaction(parts) {
                        Some(part) => Decoded::one(StreamAction::Compaction(part)),
                        None => Decoded::nothing(),
                    }
                },
                Err(e) => Decoded::failed(e),
            }
        } else if is_server_tool_item(kind) {
            Decoded::one(
                StreamAction::ProviderToolEnd {
                    id: item_id.to_owned(),
                    part: ProviderToolPart {
                        id: non_empty(item_id),
                        kind: kind.to_owned(),
                        namespace: "openai".to_owned(),
                        payload: item.clone(),
                    },
                },
            )
        } else {
            Decoded::one(StreamAction::RawFrame(raw.to_owned()))
        }
    }

    fn handle_terminal(&mut self, response: Option<&Json>, status: &str) -> (r: Decoded)
        ensures
            (Reply { state: final(self)@, decoded: r@ }) == old(self)@.terminal(
                opt(response),
                status@,
            ),
    {
        let parsed: &Json = match response {
            Some(value) => {
                if !may_be_response(value) {
                    let message: String = cat3(
                        self.profile.as_str(),
                        ": invalid terminal response object: ",
                        UNEXPECTED_TYPE,
                    );
                    return Decoded::failed(Error::malformed(message.as_str()));
                }
                value
            },
            None => {
                let message: String = cat(
                    self.profile.as_str(),
                    ": terminal event carried no response object",
                );
                return Decoded::failed(Error::malformed(message.as_str()));
            },
        };
        let mut actions: Vec<StreamAction> = Vec::new();
        if let Some(usage) = wire::value(parsed, "usage") {
            actions.push(StreamAction::MergeUsage(to_usage(usage)));
        }
        if same(status, "failed") {
            if !self.errored {
                actions.push(
                    StreamAction::Error(
                        failed_response_error(wire::value(parsed, "error"), self.profile),
                    ),
                );
            }
            actions.push(
                StreamAction::Finish(Finish::with_raw(FinishReason::Error, "failed")),
            );
        } else if same(status, "incomplete") {
            actions.push(
                StreamAction::Finish(
                    finish_from_status(Some("incomplete"), why_incomplete(parsed)),
                ),
            );
        } else {
            let finish: Finish = if self.saw_refusal {
                Finish::with_raw(FinishReason::ContentFilter, "refusal")
            } else {
                finish_from_status(Some("completed"), None)
            };
            actions.push(StreamAction::Finish(finish));
        }
        let r: Decoded = Decoded::done(actions);
        assert(r@ =~= self@.terminal(opt(response), status@).decoded);
        r
    }

    fn handle_arguments_delta(&self, v: &Json) -> (r: Decoded)
        ensures
            r@ == does(
                match (text_at(v@, "item_id"@), text_at(v@, "delta"@)) {
                    (Some(item_id), Some(delta)) => if self@.calls.contains_key(item_id) {
                        seq![Action::ToolDelta { call_id: self@.calls[item_id], delta }]
                    } else {
                        Seq::empty()
                    },
                    _ => Seq::empty(),
                },
            ),
    {
        match (wire::text(v, "item_id"), wire::text(v, "delta")) {
            (Some(item_id), Some(delta)) => match self.open_calls.get(item_id) {
                Some(call_id) => Decoded::one(
                    StreamAction::ToolDelta { call_id: call_id.clone(), delta: delta.to_owned() },
                ),
                None => Decoded::nothing(),
            },
            _ => Decoded::nothing(),
        }
    }

    fn handle_other(&mut self, kind: &str, v: &Json, raw: &str) -> (r: Decoded)
        ensures
            final(self)@ == old(self)@,
            r@ == does(
                match (tool_status(kind@), text_at(v@, "item_id"@)) {
                    (Some(status), Some(id)) => seq![
                        Action::ProviderToolUpdate { id, status },
                        Action::RawFrame(raw@),
                    ],
                    _ => seq![Action::RawFrame(raw@)],
                },
            ),
    {
        let mut actions: Vec<StreamAction> = Vec::new();
        if let Some(status) = server_tool_status(kind) {
            if let Some(id) = wire::text(v, "item_id") {
                actions.push(StreamAction::ProviderToolUpdate { id: id.to_owned(), status });
            }
        }
        actions.push(StreamAction::RawFrame(raw.to_owned()));
        let r: Decoded = Decoded::done(actions);
        assert(r@ =~= does(
            match (tool_status(kind@), text_at(v@, "item_id"@)) {
                (Some(status), Some(id)) => seq![
                    Action::ProviderToolUpdate { id, status },
                    Action::RawFrame(raw@),
                ],
                _ => seq![Action::RawFrame(raw@)],
            },
        ));
        r
    }

    fn handle_event(&mut self, v: &Json, raw: &str) -> (r: Decoded)
        ensures
            (Reply { state: final(self)@, decoded: r@ }) == old(self)@.event(v@, raw@),
    {
        let kind: &str = wire::tag(v, "type");
        if same(kind, "response.created") || same(kind, "response.in_progress") || same(
            kind,
            "response.queued",
        ) {
            handle_response_metadata(wire::value(v, "response"))
        } else if same(kind, "response.output_item.added") {
            self.handle_output_item_added(wire::value(v, "item"), raw)
        } else if same(kind, "response.content_part.added") {
            self.handle_content_part_added(v)
        } else if same(kind, "response.output_text.annotation.added") {
            self.handle_annotation_added(v)
        } else if same(kind, "response.output_text.delta") || same(
            kind,
            "response.refusal.delta",
        ) {
            handle_text_delta(v)
        } else if same(kind, "response.content_part.done") {
            // The later item event attaches phase metadata and closes the blocks.
            Decoded::nothing()
        } else if same(kind, "response.reasoning_summary_text.delta") || same(
            kind,
            "response.reasoning_text.delta",
        ) {
            handle_reasoning_delta(v)
        } else if same(kind, "response.function_call_arguments.delta") {
            self.handle_arguments_delta(v)
        } else if same(kind, "response.output_item.done") {
            self.handle_output_item_done(wire::value(v, "item"), raw)
        } else if same(kind, "response.completed") {
            self.handle_terminal(wire::value(v, "response"), "completed")
        } else if same(kind, "response.incomplete") {
            self.handle_terminal(wire::value(v, "response"), "incomplete")
        } else if same(kind, "response.failed") {
            self.handle_terminal(wire::value(v, "response"), "failed")
        } else if same(kind, "error") {
            self.errored = true;
            Decoded::one(StreamAction::Error(into_error(v, self.profile)))
        } else {
            self.handle_other(kind, v, raw)
        }
    }

    /// Decodes one frame of the stream.
    ///
    /// Type mismatches fail the stream: demoting them would silently lose
    /// deltas or the terminal status.
    pub fn on_frame(&mut self, data: &str) -> (r: Decoded)
        ensures
            (Reply { state: final(self)@, decoded: r@ }) == old(self)@.frame(data@),
    {
        if same(trim(data).as_str(), "[DONE]") {
            return Decoded::nothing();
        }
        match Json::parse(data) {
            Ok(v) => {
                if !(matches!(v, Json::Object(_)) && wire::may_be_tag(&v, "type")
                    && wire::may_be_text(&v, "item_id") && wire::may_be_count(&v, "content_index")
                    && wire::may_be_text(&v, "delta") && wire::may_be_text(&v, "message")) {
                    return Decoded::failed(self.unreadable(UNEXPECTED_TYPE));
                }
                if self.stamped {
                    return self.handle_event(&v, data);
                }
                self.stamped = true;
                let first: StreamAction = StreamAction::ProviderMetadata(
                    origin_metadata(self.profile),
                );
                let mut r: Decoded = self.handle_event(&v, data);
                let ghost rest = r@.actions;
                r.actions.insert(0, first);
                assert(views(r.actions@) =~= seq![first@] + rest);
                r
            },
            Err(e) => Decoded::failed(self.unreadable(e.as_str())),
        }
    }

    fn unreadable(&self, reason: &str) -> (r: Error)
        ensures
            r@ == invalid_event(self@.profile, reason@),
    {
        Error::malformed(
            cat3(self.profile.as_str(), ": invalid stream event: ", reason).as_str(),
        )
    }
}

fn first_reasoning(parts: Option<Vec<AssistantPart>>) -> (r: Option<ReasoningPart>)
    ensures
        parts matches Some(list) ==> (list@.len() > 0 ==> (list@[0]@ matches
            AssistantPartView::Reasoning(part) ==> opt(r) == Some(part))),
{
    if let Some(parts) = parts {
        let mut parts: Vec<AssistantPart> = parts;
        if parts.len() > 0 {
            let first: AssistantPart = parts.remove(0);
            if let AssistantPart::Reasoning(part) = first {
                return Some(part);
            }
        }
    }
    None
}

fn first_compaction(parts: Option<Vec<AssistantPart>>) -> (r: Option<CompactionPart>)
    ensures
        parts matches Some(list) ==> (list@.len() > 0 ==> (list@[0]@ matches
            AssistantPartView::Compaction(part) ==> opt(r) == Some(part))),
{
    if let Some(parts) = parts {
        let mut parts: Vec<AssistantPart> = parts;
        if parts.len() > 0 {
            let first: AssistantPart = parts.remove(0);
            if let AssistantPart::Compaction(part) = first {
                return Some(part);
            }
        }
    }
    None
}

/// What precedes a failure does not end the stream.
pub proof fn failures_end_by_themselves(d: ResponsesView, data: Seq<char>)
    ensures
        d.frame(data).decoded.error is Some ==> quiet(d.frame(data).decoded.actions),
{
}

/// Nothing follows the end of the stream in what a frame does.
pub proof fn frames_end_at_most_once(d: ResponsesView, data: Seq<char>)
    ensures
        ends_last(d.frame(data).decoded.actions),
{
    if let Ok(v) = json_parse(data) {
        let e = if d.stamped {
            d
        } else {
            ResponsesView { stamped: true, ..d }
        };
        let kind = tag_at(v, "type"@);
        if kind == "response.output_item.done"@ {
            if let Some(item) = value_at(v, "item"@) {
                let ids = row_of(e.texts, tag_at(item, "id"@));
                lemma_texts_done(
                    ResponsesView { texts: e.texts.remove(tag_at(item, "id"@)), ..e },
                    ids,
                    text_at(item, "phase"@),
                    ids.len() as int,
                );
            }
        }
    }
}

proof fn lemma_texts_done(
    d: ResponsesView,
    ids: Seq<Seq<char>>,
    phase: Option<Seq<char>>,
    n: int,
)
    ensures
        forall|i: int|
            0 <= i < d.texts_done(ids, phase, n).decoded.actions.len()
                ==> !crate::stream::action::ends(
                #[trigger] d.texts_done(ids, phase, n).decoded.actions[i],
            ),
    decreases n,
{
    if n > 0 {
        lemma_texts_done(d, ids, phase, n - 1);
        let before = d.texts_done(ids, phase, n - 1).decoded.actions;
        let all = d.texts_done(ids, phase, n).decoded.actions;
        assert forall|i: int| 0 <= i < all.len() implies !crate::stream::action::ends(
            #[trigger] all[i],
        ) by {
            if i < before.len() {
                assert(all[i] == before[i]);
            }
        }
    }
}

} // verus!
