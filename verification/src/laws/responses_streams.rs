//! What a Responses stream tells.
use vstd::prelude::*;

use crate::json::{json_parse, JsonView, NumberView};
use crate::laws::telling::{lemma_said, lemma_said_once, lemma_silent, said};
use crate::laws::{as_text, joined, says, value_in};
use crate::message::AssistantPartView;
use crate::protocols::openai::responses::stream::{envelope_ok, ResponsesView};
use crate::protocols::openai::responses::types::{decoded_item, response_ok};
use crate::response::FinishReason;
use crate::stream::contract::Action;
use crate::text::{decimal, trimmed};

verus! {

/// What kind of event a value is.
pub open spec fn kind_of(v: JsonView) -> Seq<char> {
    as_text(value_in(v, "type"@))
}

/// The index of the content that an event is about.
pub open spec fn index_in(v: JsonView) -> nat {
    match value_in(v, "content_index"@) {
        JsonView::Number(NumberView::U(n)) => n as nat,
        _ => 0,
    }
}

/// The block of a text: that of an item, at an index.
pub open spec fn block_at(item: Seq<char>, index: nat) -> Seq<char> {
    item + ":"@ + decimal(index)
}

/// Whether a frame is an event.
pub open spec fn is_event(frame: Seq<char>) -> bool {
    trimmed(frame) != "[DONE]"@ && (json_parse(frame) matches Ok(v) && envelope_ok(v))
}

/// What a frame says for a block: the delta of an answer or of a refusal.
pub open spec fn frame_says(frame: Seq<char>, block: Seq<char>) -> Seq<char> {
    let v = json_parse(frame)->Ok_0;
    if (kind_of(v) == "response.output_text.delta"@ || kind_of(v) == "response.refusal.delta"@)
        && value_in(v, "item_id"@) is String && block_at(
        as_text(value_in(v, "item_id"@)),
        index_in(v),
    ) == block {
        as_text(value_in(v, "delta"@))
    } else {
        Seq::empty()
    }
}

/// A decoder after some frames.
pub open spec fn fed(d: ResponsesView, frames: Seq<Seq<char>>) -> ResponsesView
    decreases frames.len(),
{
    if frames.len() == 0 {
        d
    } else {
        fed(d, frames.drop_last()).frame(frames.last()).state
    }
}

/// What some frames make a decoder do.
pub open spec fn done_by(d: ResponsesView, frames: Seq<Seq<char>>) -> Seq<Action>
    decreases frames.len(),
{
    if frames.len() == 0 {
        Seq::empty()
    } else {
        done_by(d, frames.drop_last()) + fed(d, frames.drop_last()).frame(
            frames.last(),
        ).decoded.actions
    }
}

proof fn lemma_kinds()
    ensures
        "response.created"@ != "response.in_progress"@,
        "response.created"@ != "response.queued"@,
        "response.created"@ != "response.output_item.added"@,
        "response.created"@ != "response.content_part.added"@,
        "response.created"@ != "response.output_text.annotation.added"@,
        "response.created"@ != "response.output_text.delta"@,
        "response.created"@ != "response.refusal.delta"@,
        "response.created"@ != "response.content_part.done"@,
        "response.created"@ != "response.reasoning_summary_text.delta"@,
        "response.created"@ != "response.reasoning_text.delta"@,
        "response.created"@ != "response.function_call_arguments.delta"@,
        "response.created"@ != "response.output_item.done"@,
        "response.created"@ != "response.completed"@,
        "response.created"@ != "response.incomplete"@,
        "response.created"@ != "response.failed"@,
        "response.created"@ != "error"@,
        "response.in_progress"@ != "response.queued"@,
        "response.in_progress"@ != "response.output_item.added"@,
        "response.in_progress"@ != "response.content_part.added"@,
        "response.in_progress"@ != "response.output_text.annotation.added"@,
        "response.in_progress"@ != "response.output_text.delta"@,
        "response.in_progress"@ != "response.refusal.delta"@,
        "response.in_progress"@ != "response.content_part.done"@,
        "response.in_progress"@ != "response.reasoning_summary_text.delta"@,
        "response.in_progress"@ != "response.reasoning_text.delta"@,
        "response.in_progress"@ != "response.function_call_arguments.delta"@,
        "response.in_progress"@ != "response.output_item.done"@,
        "response.in_progress"@ != "response.completed"@,
        "response.in_progress"@ != "response.incomplete"@,
        "response.in_progress"@ != "response.failed"@,
        "response.in_progress"@ != "error"@,
        "response.queued"@ != "response.output_item.added"@,
        "response.queued"@ != "response.content_part.added"@,
        "response.queued"@ != "response.output_text.annotation.added"@,
        "response.queued"@ != "response.output_text.delta"@,
        "response.queued"@ != "response.refusal.delta"@,
        "response.queued"@ != "response.content_part.done"@,
        "response.queued"@ != "response.reasoning_summary_text.delta"@,
        "response.queued"@ != "response.reasoning_text.delta"@,
        "response.queued"@ != "response.function_call_arguments.delta"@,
        "response.queued"@ != "response.output_item.done"@,
        "response.queued"@ != "response.completed"@,
        "response.queued"@ != "response.incomplete"@,
        "response.queued"@ != "response.failed"@,
        "response.queued"@ != "error"@,
        "response.output_item.added"@ != "response.content_part.added"@,
        "response.output_item.added"@ != "response.output_text.annotation.added"@,
        "response.output_item.added"@ != "response.output_text.delta"@,
        "response.output_item.added"@ != "response.refusal.delta"@,
        "response.output_item.added"@ != "response.content_part.done"@,
        "response.output_item.added"@ != "response.reasoning_summary_text.delta"@,
        "response.output_item.added"@ != "response.reasoning_text.delta"@,
        "response.output_item.added"@ != "response.function_call_arguments.delta"@,
        "response.output_item.added"@ != "response.output_item.done"@,
        "response.output_item.added"@ != "response.completed"@,
        "response.output_item.added"@ != "response.incomplete"@,
        "response.output_item.added"@ != "response.failed"@,
        "response.output_item.added"@ != "error"@,
        "response.content_part.added"@ != "response.output_text.annotation.added"@,
        "response.content_part.added"@ != "response.output_text.delta"@,
        "response.content_part.added"@ != "response.refusal.delta"@,
        "response.content_part.added"@ != "response.content_part.done"@,
        "response.content_part.added"@ != "response.reasoning_summary_text.delta"@,
        "response.content_part.added"@ != "response.reasoning_text.delta"@,
        "response.content_part.added"@ != "response.function_call_arguments.delta"@,
        "response.content_part.added"@ != "response.output_item.done"@,
        "response.content_part.added"@ != "response.completed"@,
        "response.content_part.added"@ != "response.incomplete"@,
        "response.content_part.added"@ != "response.failed"@,
        "response.content_part.added"@ != "error"@,
        "response.output_text.annotation.added"@ != "response.output_text.delta"@,
        "response.output_text.annotation.added"@ != "response.refusal.delta"@,
        "response.output_text.annotation.added"@ != "response.content_part.done"@,
        "response.output_text.annotation.added"@ != "response.reasoning_summary_text.delta"@,
        "response.output_text.annotation.added"@ != "response.reasoning_text.delta"@,
        "response.output_text.annotation.added"@ != "response.function_call_arguments.delta"@,
        "response.output_text.annotation.added"@ != "response.output_item.done"@,
        "response.output_text.annotation.added"@ != "response.completed"@,
        "response.output_text.annotation.added"@ != "response.incomplete"@,
        "response.output_text.annotation.added"@ != "response.failed"@,
        "response.output_text.annotation.added"@ != "error"@,
        "response.output_text.delta"@ != "response.refusal.delta"@,
        "response.output_text.delta"@ != "response.content_part.done"@,
        "response.output_text.delta"@ != "response.reasoning_summary_text.delta"@,
        "response.output_text.delta"@ != "response.reasoning_text.delta"@,
        "response.output_text.delta"@ != "response.function_call_arguments.delta"@,
        "response.output_text.delta"@ != "response.output_item.done"@,
        "response.output_text.delta"@ != "response.completed"@,
        "response.output_text.delta"@ != "response.incomplete"@,
        "response.output_text.delta"@ != "response.failed"@,
        "response.output_text.delta"@ != "error"@,
        "response.refusal.delta"@ != "response.content_part.done"@,
        "response.refusal.delta"@ != "response.reasoning_summary_text.delta"@,
        "response.refusal.delta"@ != "response.reasoning_text.delta"@,
        "response.refusal.delta"@ != "response.function_call_arguments.delta"@,
        "response.refusal.delta"@ != "response.output_item.done"@,
        "response.refusal.delta"@ != "response.completed"@,
        "response.refusal.delta"@ != "response.incomplete"@,
        "response.refusal.delta"@ != "response.failed"@,
        "response.refusal.delta"@ != "error"@,
        "response.content_part.done"@ != "response.reasoning_summary_text.delta"@,
        "response.content_part.done"@ != "response.reasoning_text.delta"@,
        "response.content_part.done"@ != "response.function_call_arguments.delta"@,
        "response.content_part.done"@ != "response.output_item.done"@,
        "response.content_part.done"@ != "response.completed"@,
        "response.content_part.done"@ != "response.incomplete"@,
        "response.content_part.done"@ != "response.failed"@,
        "response.content_part.done"@ != "error"@,
        "response.reasoning_summary_text.delta"@ != "response.reasoning_text.delta"@,
        "response.reasoning_summary_text.delta"@ != "response.function_call_arguments.delta"@,
        "response.reasoning_summary_text.delta"@ != "response.output_item.done"@,
        "response.reasoning_summary_text.delta"@ != "response.completed"@,
        "response.reasoning_summary_text.delta"@ != "response.incomplete"@,
        "response.reasoning_summary_text.delta"@ != "response.failed"@,
        "response.reasoning_summary_text.delta"@ != "error"@,
        "response.reasoning_text.delta"@ != "response.function_call_arguments.delta"@,
        "response.reasoning_text.delta"@ != "response.output_item.done"@,
        "response.reasoning_text.delta"@ != "response.completed"@,
        "response.reasoning_text.delta"@ != "response.incomplete"@,
        "response.reasoning_text.delta"@ != "response.failed"@,
        "response.reasoning_text.delta"@ != "error"@,
        "response.function_call_arguments.delta"@ != "response.output_item.done"@,
        "response.function_call_arguments.delta"@ != "response.completed"@,
        "response.function_call_arguments.delta"@ != "response.incomplete"@,
        "response.function_call_arguments.delta"@ != "response.failed"@,
        "response.function_call_arguments.delta"@ != "error"@,
        "response.output_item.done"@ != "response.completed"@,
        "response.output_item.done"@ != "response.incomplete"@,
        "response.output_item.done"@ != "response.failed"@,
        "response.output_item.done"@ != "error"@,
        "response.completed"@ != "response.incomplete"@,
        "response.completed"@ != "response.failed"@,
        "response.completed"@ != "error"@,
        "response.incomplete"@ != "response.failed"@,
        "response.incomplete"@ != "error"@,
        "response.failed"@ != "error"@,
{
    reveal_strlit("response.created");
    reveal_strlit("response.in_progress");
    reveal_strlit("response.queued");
    reveal_strlit("response.output_item.added");
    reveal_strlit("response.content_part.added");
    reveal_strlit("response.output_text.annotation.added");
    reveal_strlit("response.output_text.delta");
    reveal_strlit("response.refusal.delta");
    reveal_strlit("response.content_part.done");
    reveal_strlit("response.reasoning_summary_text.delta");
    reveal_strlit("response.reasoning_text.delta");
    reveal_strlit("response.function_call_arguments.delta");
    reveal_strlit("response.output_item.done");
    reveal_strlit("response.completed");
    reveal_strlit("response.incomplete");
    reveal_strlit("response.failed");
    reveal_strlit("error");
    assert("response.created"@.len() == 16 && "response.in_progress"@.len() == 20 && "response.queued"@.len() == 15 && "response.output_item.added"@.len() == 26 && "response.content_part.added"@.len() == 27 && "response.output_text.annotation.added"@.len() == 37 && "response.output_text.delta"@.len() == 26 && "response.refusal.delta"@.len() == 22 && "response.content_part.done"@.len() == 26 && "response.reasoning_summary_text.delta"@.len() == 37 && "response.reasoning_text.delta"@.len() == 29 && "response.function_call_arguments.delta"@.len() == 38 && "response.output_item.done"@.len() == 25 && "response.completed"@.len() == 18 && "response.incomplete"@.len() == 19 && "response.failed"@.len() == 15 && "error"@.len() == 5);
    assert("response.queued"@[9] != "response.failed"@[9]);
    assert("response.output_item.added"@[16] != "response.output_text.delta"@[16]);
    assert("response.output_item.added"@[9] != "response.content_part.done"@[9]);
    assert("response.output_text.delta"@[9] != "response.content_part.done"@[9]);
    assert("response.output_text.annotation.added"@[9] != "response.reasoning_summary_text.delta"@[9]);
}

proof fn lemma_item_kinds()
    ensures
        "function_call"@ != "reasoning"@,
        "function_call"@ != "message"@,
        "function_call"@ != "compaction"@,
        "reasoning"@ != "message"@,
        "reasoning"@ != "compaction"@,
        "message"@ != "compaction"@,
{
    reveal_strlit("function_call");
    reveal_strlit("reasoning");
    reveal_strlit("message");
    reveal_strlit("compaction");
    assert("function_call"@.len() == 13 && "reasoning"@.len() == 9 && "message"@.len() == 7 && "compaction"@.len() == 10);
}

proof fn lemma_texts_done(
    d: ResponsesView,
    ids: Seq<Seq<char>>,
    phase: Option<Seq<char>>,
    n: int,
)
    ensures
        forall|i: int|
            0 <= i < d.texts_done(ids, phase, n).decoded.actions.len() ==> !((#[trigger] d.texts_done(
                ids,
                phase,
                n,
            ).decoded.actions[i]) is TextDelta),
    decreases n,
{
    if n > 0 {
        lemma_texts_done(d, ids, phase, n - 1);
    }
}

#[verifier::rlimit(60)]
proof fn lemma_event(d: ResponsesView, v: JsonView, raw: Seq<char>, block: Seq<char>)
    requires
        envelope_ok(v),
        json_parse(raw) == Ok::<JsonView, Seq<char>>(v),
    ensures
        said(d.event(v, raw).decoded.actions, block) == frame_says(raw, block),
{
    lemma_kinds();
    let actions = d.event(v, raw).decoded.actions;
    let kind = kind_of(v);
    if kind == "response.output_text.delta"@ || kind == "response.refusal.delta"@ {
        let item = as_text(value_in(v, "item_id"@));
        let delta = as_text(value_in(v, "delta"@));
        if value_in(v, "item_id"@) is String && value_in(v, "delta"@) is String {
            let id = block_at(item, index_in(v));
            assert(actions =~= seq![Action::TextDelta { id, delta }]);
            if id == block {
                lemma_said_once(id, delta);
            } else {
                lemma_silent(actions, block);
            }
        } else {
            assert(actions =~= Seq::empty());
            assert(delta =~= Seq::empty() || !(value_in(v, "item_id"@) is String));
            lemma_silent(actions, block);
        }
    } else {
        if kind == "response.output_item.done"@ && value_in(v, "item"@) != JsonView::Null {
            let item = value_in(v, "item"@);
            let id = as_text(value_in(item, "id"@));
            let ids = crate::table::row_of(d.texts, id);
            lemma_texts_done(
                ResponsesView { texts: d.texts.remove(id), ..d },
                ids,
                crate::wire::text_at(item, "phase"@),
                ids.len() as int,
            );
        }
        lemma_silent(actions, block);
    }
}

proof fn lemma_frame(d: ResponsesView, frame: Seq<char>, block: Seq<char>)
    requires
        is_event(frame),
    ensures
        said(d.frame(frame).decoded.actions, block) == frame_says(frame, block),
{
    let v = json_parse(frame)->Ok_0;
    lemma_event(d, v, frame, block);
    let marked = ResponsesView { stamped: true, ..d };
    lemma_event(marked, v, frame, block);
    if !d.stamped {
        let stamp = seq![d.frame(frame).decoded.actions[0]];
        lemma_silent(stamp, block);
        lemma_said(stamp, marked.event(v, frame).decoded.actions, block);
        assert(d.frame(frame).decoded.actions =~= stamp + marked.event(v, frame).decoded.actions);
        assert(Seq::<char>::empty() + frame_says(frame, block) =~= frame_says(frame, block));
    }
}

/// Over any events, a decoder says for each text block exactly the deltas of
/// its answer or refusal, joined in order.
pub proof fn text_deltas_are_told_as_they_are(
    d: ResponsesView,
    frames: Seq<Seq<char>>,
    block: Seq<char>,
)
    requires
        forall|i: int| 0 <= i < frames.len() ==> is_event(#[trigger] frames[i]),
    ensures
        said(done_by(d, frames), block) == joined(
            Seq::new(frames.len(), |i: int| frame_says(frames[i], block)),
        ),
    decreases frames.len(),
{
    let all = Seq::new(frames.len(), |i: int| frame_says(frames[i], block));
    if frames.len() > 0 {
        let less = frames.drop_last();
        assert forall|i: int| 0 <= i < less.len() implies is_event(#[trigger] less[i]) by {
            assert(less[i] == frames[i]);
        }
        text_deltas_are_told_as_they_are(d, less, block);
        let last = frames[frames.len() - 1];
        assert(is_event(last));
        lemma_frame(fed(d, less), last, block);
        lemma_said(done_by(d, less), fed(d, less).frame(last).decoded.actions, block);
        assert(all.drop_last() =~= Seq::new(less.len(), |i: int| frame_says(less[i], block)));
    }
}

/// An item that a stream completes gives what decoding the item gives: its
/// reasoning, its compaction, and the arguments of its call.
pub proof fn completed_items_are_told_as_they_are_decoded(
    d: ResponsesView,
    v: JsonView,
    raw: Seq<char>,
    item: JsonView,
    id: Seq<char>,
)
    requires
        says(v, "type"@, "response.output_item.done"@),
        value_in(v, "item"@) == item,
        item is Object,
        says(item, "id"@, id),
        decoded_item(item) is Ok,
    ensures
        ({
            let actions = d.event(v, raw).decoded.actions;
            &&& says(item, "type"@, "reasoning"@) ==> actions.len() == 1 && (
            actions[0] matches Action::EndReasoning { id: of, part: Some(part) } && of == id
                && decoded_item(item)->Ok_0 == Some(seq![AssistantPartView::Reasoning(part)]))
            &&& says(item, "type"@, "compaction"@) ==> actions.len() == 1 && (
            actions[0] matches Action::Compaction(part) && decoded_item(item)->Ok_0 == Some(
                seq![AssistantPartView::Compaction(part)],
            ))
            &&& says(item, "type"@, "function_call"@) && d.calls.contains_key(id)
                && value_in(item, "arguments"@) is String && value_in(item, "call_id"@)
                == JsonView::String(d.calls[id]) ==> match decoded_item(item)->Ok_0 {
                Some(parts) => parts.len() == 1 && parts[0] is ToolCall && actions == seq![
                    Action::CompleteTool {
                        call_id: parts[0]->ToolCall_0.call_id,
                        arguments: Some(parts[0]->ToolCall_0.arguments),
                    },
                ],
                None => actions.len() == 0,
            }
        }),
{
    lemma_kinds();
    lemma_item_kinds();
    crate::protocols::openai::responses::types::lemma_single_parts(item);
}

/// How a stream ends says how its response ended: a cut one never by a natural
/// stop, and by its length where the token limit cut it; a failed one with an
/// error; and a completed one by a natural stop or, where the model refused,
/// by a filter.
pub proof fn terminal_events_tell_how_it_ended(
    d: ResponsesView,
    v: JsonView,
    raw: Seq<char>,
    response: JsonView,
)
    requires
        value_in(v, "response"@) == response,
        response is Object,
        response_ok(response),
    ensures
        ({
            let actions = d.event(v, raw).decoded.actions;
            let cut = value_in(value_in(response, "incomplete_details"@), "reason"@);
            &&& says(v, "type"@, "response.incomplete"@) ==> {
                &&& actions.len() > 0
                &&& actions.last() matches Action::Finish(finish) && {
                    &&& !(finish.reason is Stop) && !(finish.reason is ToolCalls)
                    &&& cut == JsonView::String("max_output_tokens"@) || cut == JsonView::String(
                        "max_tokens"@,
                    ) ==> finish.reason is Length
                    &&& cut == JsonView::String("content_filter"@) ==> finish.reason
                        is ContentFilter
                    &&& cut matches JsonView::String(reason) ==> finish.raw == Some(reason)
                }
            }
            &&& says(v, "type"@, "response.completed"@) ==> {
                &&& actions.len() > 0
                &&& actions.last() matches Action::Finish(finish) && finish.reason == (
                if d.saw_refusal {
                    FinishReason::ContentFilter
                } else {
                    FinishReason::Stop
                })
            }
            &&& says(v, "type"@, "response.failed"@) ==> {
                &&& actions.len() > 0
                &&& actions.last() matches Action::Finish(finish) && finish.reason is Error
                &&& !d.errored ==> actions.len() > 1 && actions[actions.len() - 2] is Error
            }
        }),
{
    lemma_kinds();
    reveal_strlit("max_output_tokens");
    reveal_strlit("max_tokens");
    reveal_strlit("content_filter");
    reveal_strlit("incomplete");
    reveal_strlit("completed");
    reveal_strlit("failed");
    assert("max_output_tokens"@.len() == 17 && "max_tokens"@.len() == 10 && "content_filter"@.len()
        == 14);
    assert("incomplete"@.len() == 10 && "completed"@.len() == 9 && "failed"@.len() == 6);
}

/// A function call of a stream is started under its call id and name when it is
/// added, and its argument deltas are told for it as they come.
pub proof fn calls_are_told_as_they_come(
    d: ResponsesView,
    v: JsonView,
    raw: Seq<char>,
    id: Seq<char>,
)
    ensures
        ({
            let item = value_in(v, "item"@);
            let did = d.event(v, raw);
            &&& says(v, "type"@, "response.output_item.added"@) && item is Object && says(
                item,
                "type"@,
                "function_call"@,
            ) && says(item, "id"@, id) ==> {
                let call_id = match value_in(item, "call_id"@) {
                    JsonView::String(call_id) => call_id,
                    _ => id,
                };
                &&& did.state.calls.contains_key(id) && did.state.calls[id] == call_id
                &&& did.decoded.actions.len() == 1
                &&& did.decoded.actions[0] matches Action::StartTool { call_id: of, name, .. }
                    && of == call_id && name == as_text(value_in(item, "name"@))
            }
            &&& says(v, "type"@, "response.function_call_arguments.delta"@) && says(
                v,
                "item_id"@,
                id,
            ) && value_in(v, "delta"@) is String && d.calls.contains_key(id)
                ==> did.decoded.actions == seq![
                Action::ToolDelta {
                    call_id: d.calls[id],
                    delta: as_text(value_in(v, "delta"@)),
                },
            ]
            &&& (says(v, "type"@, "response.reasoning_summary_text.delta"@) || says(
                v,
                "type"@,
                "response.reasoning_text.delta"@,
            )) && says(v, "item_id"@, id) && value_in(v, "delta"@) is String
                ==> did.decoded.actions == seq![
                Action::ReasoningDelta { id, delta: as_text(value_in(v, "delta"@)) },
            ]
        }),
{
    lemma_kinds();
    lemma_item_kinds();
}

} // verus!
