//! What becomes of the tool calls of a stream.
use vstd::prelude::*;

use crate::json::json_parse;
use crate::laws::joined;
use crate::message::ToolCallView;
use crate::metadata::no_metadata;
use crate::response::{FinishReason, FinishView};
use crate::stream::event::StreamEventView;
use crate::stream::normalizer::{
    find, is_complete_tool, lane, lemma_find, Lane, NormalizerView, OpenBlockView,
};
use crate::text::is_blank;

verus! {

/// A stream after some fragments of the arguments of a call.
pub open spec fn typed(
    n: NormalizerView,
    call_id: Seq<char>,
    deltas: Seq<Seq<char>>,
) -> NormalizerView
    decreases deltas.len(),
{
    if deltas.len() == 0 {
        n
    } else {
        typed(n, call_id, deltas.drop_last()).tool_delta(call_id, deltas.last()).state
    }
}

/// A block of a call that is open.
spec fn block_of(call: ToolCallView, arguments: Seq<char>) -> OpenBlockView {
    OpenBlockView::Tool {
        call_id: call.call_id,
        name: call.name,
        item_id: call.item_id,
        provider_call_id: call.provider_call_id,
        arguments,
        provider_metadata: no_metadata(),
        completed: false,
        final_arguments: None,
    }
}

proof fn lemma_found(n: NormalizerView, call_id: Seq<char>)
    requires
        n.open.len() > 0,
        lane(n.open.last()) == Lane::Tool(call_id),
        forall|j: int| 0 <= j < n.open.len() - 1 ==> lane(#[trigger] n.open[j]) != Lane::Tool(
            call_id,
        ),
    ensures
        find(n.open, Lane::Tool(call_id)) == Some(n.open.len() - 1),
{
    lemma_find(n.open, Lane::Tool(call_id), 0);
}

proof fn lemma_typed(
    n: NormalizerView,
    call: ToolCallView,
    started: NormalizerView,
    deltas: Seq<Seq<char>>,
)
    requires
        find(n.open, Lane::Tool(call.call_id)) is None,
        started == (NormalizerView {
            open: n.open.push(block_of(call, Seq::empty())),
            ..n
        }),
    ensures
        typed(started, call.call_id, deltas) == (NormalizerView {
            open: n.open.push(block_of(call, joined(deltas))),
            ..n
        }),
    decreases deltas.len(),
{
    lemma_find(n.open, Lane::Tool(call.call_id), 0);
    if deltas.len() > 0 {
        lemma_typed(n, call, started, deltas.drop_last());
        let before = typed(started, call.call_id, deltas.drop_last());
        assert(before.open.last() == block_of(call, joined(deltas.drop_last())));
        assert forall|j: int| 0 <= j < before.open.len() - 1 implies lane(
            #[trigger] before.open[j],
        ) != Lane::Tool(call.call_id) by {
            assert(before.open[j] == n.open[j]);
        }
        lemma_found(before, call.call_id);
        assert(typed(started, call.call_id, deltas).open =~= n.open.push(
            block_of(call, joined(deltas)),
        ));
    }
}

proof fn lemma_promoted(n: NormalizerView, i: int)
    requires
        0 <= i < n.open.len(),
        is_complete_tool(n.open.last()),
        forall|j: int| 0 <= j < n.open.len() - 1 ==> !is_complete_tool(#[trigger] n.open[j]),
    ensures
        n.promote_from(i).events == n.closing(n.open.len() - 1).promote(n.open.last()).events,
        n.promote_from(i).state == n.closing(n.open.len() - 1).promote(n.open.last()).state,
    decreases n.open.len() - i,
{
    let last = n.open.len() - 1;
    if i < last {
        assert(!is_complete_tool(n.open[i]));
        lemma_promoted(n, i + 1);
    } else {
        let first = n.closing(last).promote(n.open[last]);
        assert(first.state.open.len() == last);
        assert(first.state.promote_from(last) == first.state.idle());
        assert(first.events + Seq::<StreamEventView>::empty() =~= first.events);
    }
}

/// A call that a provider started, typed and completed comes out at a natural
/// end as one tool call: with the id and name that it started with, and with
/// the arguments that it was completed with or else its fragments joined in
/// order, an empty object in place of nothing. The stream then finished by
/// asking for tools. Arguments that are no JSON make it fail instead.
pub proof fn completed_calls_carry_their_input(
    n: NormalizerView,
    call: ToolCallView,
    deltas: Seq<Seq<char>>,
    given: Option<Seq<char>>,
    raw: Option<Seq<char>>,
)
    requires
        !n.finished,
        !n.errored,
        find(n.open, Lane::Tool(call.call_id)) is None,
        forall|j: int| 0 <= j < n.open.len() ==> !is_complete_tool(#[trigger] n.open[j]),
        call.provider_metadata == no_metadata(),
    ensures
        ({
            let started = n.start_tool(
                call.call_id,
                call.name,
                call.item_id,
                call.provider_call_id,
            ).state;
            let completed = typed(started, call.call_id, deltas).complete_tool(
                call.call_id,
                given,
            );
            let told = match given {
                Some(text) => text,
                None => joined(deltas),
            };
            let arguments = if is_blank(told) {
                "{}"@
            } else {
                told
            };
            let events = completed.finish(
                FinishView { reason: FinishReason::Stop, raw },
            ).events;
            match json_parse(arguments) {
                Ok(_) => {
                    &&& events.len() > 2
                    &&& events[0] == (StreamEventView::ToolInputEnd { call_id: call.call_id })
                    &&& events[1] == StreamEventView::ToolCall(ToolCallView { arguments, ..call })
                    &&& events.last() matches StreamEventView::Finish { finish, .. }
                        && finish.reason is ToolCalls && finish.raw == raw
                },
                Err(_) => {
                    &&& events.len() > 2
                    &&& events[1] is Error
                    &&& events.last() matches StreamEventView::Finish { finish, .. }
                        && finish.reason is Error
                },
            }
        }),
{
    let started = n.start_tool(
        call.call_id,
        call.name,
        call.item_id,
        call.provider_call_id,
    ).state;
    lemma_typed(n, call, started, deltas);
    lemma_find(n.open, Lane::Tool(call.call_id), 0);
    let full = typed(started, call.call_id, deltas);
    assert forall|j: int| 0 <= j < full.open.len() - 1 implies lane(#[trigger] full.open[j])
        != Lane::Tool(call.call_id) by {
        assert(full.open[j] == n.open[j]);
    }
    lemma_found(full, call.call_id);
    let completed = full.complete_tool(call.call_id, given);
    let last = completed.open.len() - 1;
    assert(completed.open.last() == completed.open[last]);
    assert forall|j: int| 0 <= j < completed.open.len() - 1 implies !is_complete_tool(
        #[trigger] completed.open[j],
    ) by {
        assert(completed.open[j] == n.open[j]);
    }
    lemma_promoted(completed, 0);
    let s = completed.promote_from(0);
    let finish = FinishView { reason: FinishReason::Stop, raw };
    let events = completed.finish(finish).events;
    let arguments = crate::stream::normalizer::completed_call(completed.open[last]).arguments;
    let end = events.last();
    assert(events[0] == s.events[0] && events[1] == s.events[1]);
    if json_parse(arguments) is Ok {
        assert(s.events[1] is ToolCall);
        assert(crate::stream::normalizer::has_call(s.events));
    }
}

} // verus!
