//! Replaying a buffered result and collecting it again gives it back.
use vstd::prelude::*;

use crate::error::ErrorView;
use crate::json::json_parse;
use crate::message::{normal_arguments, AssistantPartView, ReasoningPartView, ToolCallView};
use crate::metadata::{no_metadata, MetadataView};
use crate::protocols::calls_tools;
use crate::response::{GenerateResultView, ResponseMetadataView};
use crate::stream::accumulator::{
    moved_up, nothing_accumulated, slot_of, AccumulatorView, SlotView,
};
use crate::stream::contract::is_fresh;
use crate::stream::event::StreamEventView;
use crate::stream::normalizer::{
    closed_reasoning, closings, completed_call, find, has_call, is_complete_tool, lane,
    lemma_find, lemma_find_added, Lane, NormalizerView, OpenBlockView, Step,
};
use crate::text::decimal;
use crate::usage::no_usage;
use crate::util::merge_objects;

verus! {

/// Whether extras hold nothing that merging them into none would drop.
pub open spec fn is_settled(m: MetadataView) -> bool {
    merge_objects(no_metadata(), m) == m
}

/// Whether a part stays as it is when it is streamed and collected: a text is
/// not empty unless it has extras, the arguments of a call are JSON text that
/// is not blank, and extras hold nothing that merging would drop.
pub open spec fn is_lasting(part: AssistantPartView) -> bool {
    match part {
        AssistantPartView::Text { text, provider_metadata } => (text.len() > 0 || provider_metadata
            != no_metadata()) && is_settled(provider_metadata),
        AssistantPartView::ToolCall(call) => json_parse(call.arguments) is Ok && normal_arguments(
            call.arguments,
        ) == call.arguments && is_settled(call.provider_metadata),
        _ => true,
    }
}

/// Whether no two calls have the same id.
pub open spec fn distinct_calls(content: Seq<AssistantPartView>) -> bool {
    forall|i: int, j: int|
        0 <= i < j < content.len() && (#[trigger] content[i]) is ToolCall && (
        #[trigger] content[j]) is ToolCall ==> content[i]->ToolCall_0.call_id
            != content[j]->ToolCall_0.call_id
}

/// Whether a result stays as it is when it is streamed and collected: its parts
/// do, its calls can be told apart, and its finish lets them be acted on.
pub open spec fn is_lasting_result(result: GenerateResultView) -> bool {
    &&& forall|i: int| 0 <= i < result.content.len() ==> is_lasting(#[trigger] result.content[i])
    &&& distinct_calls(result.content)
    &&& calls_tools(result.content) ==> !result.finish.reason.discards() && !(
    result.finish.reason is Stop)
    &&& is_settled(result.provider_metadata)
}

/// The calls among some parts.
spec fn calls_of(content: Seq<AssistantPartView>) -> Seq<ToolCallView>
    decreases content.len(),
{
    if content.len() == 0 {
        Seq::empty()
    } else {
        match content.last() {
            AssistantPartView::ToolCall(call) => calls_of(content.drop_last()).push(call),
            _ => calls_of(content.drop_last()),
        }
    }
}

/// The parts without the calls after the first `j`.
spec fn kept(content: Seq<AssistantPartView>, j: int) -> Seq<AssistantPartView>
    decreases content.len(),
{
    if content.len() == 0 {
        Seq::empty()
    } else if content.last() is ToolCall && calls_of(content.drop_last()).len() >= j {
        kept(content.drop_last(), j)
    } else {
        kept(content.drop_last(), j).push(content.last())
    }
}

/// Where the calls after the first `j` belong among the other parts.
spec fn waiting(content: Seq<AssistantPartView>, j: int) -> Seq<SlotView>
    decreases content.len(),
{
    if content.len() == 0 {
        Seq::empty()
    } else if content.last() is ToolCall && calls_of(content.drop_last()).len() >= j {
        waiting(content.drop_last(), j).push(
            SlotView {
                id: content.last()->ToolCall_0.call_id,
                index: kept(content.drop_last(), j).len() as int,
            },
        )
    } else {
        waiting(content.drop_last(), j)
    }
}

/// The block of a call that is complete.
spec fn call_block(call: ToolCallView) -> OpenBlockView {
    OpenBlockView::Tool {
        call_id: call.call_id,
        name: call.name,
        item_id: call.item_id,
        provider_call_id: call.provider_call_id,
        arguments: call.arguments,
        provider_metadata: call.provider_metadata,
        completed: true,
        final_arguments: None,
    }
}

spec fn call_blocks(calls: Seq<ToolCallView>) -> Seq<OpenBlockView> {
    Seq::new(calls.len(), |i: int| call_block(calls[i]))
}

/// The events that complete calls end with.
spec fn call_events(calls: Seq<ToolCallView>) -> Seq<StreamEventView>
    decreases calls.len(),
{
    if calls.len() == 0 {
        Seq::empty()
    } else {
        seq![
            StreamEventView::ToolInputEnd { call_id: calls[0].call_id },
            StreamEventView::ToolCall(calls[0]),
        ] + call_events(calls.skip(1))
    }
}

pub proof fn lemma_after(a: AccumulatorView, x: Seq<StreamEventView>, y: Seq<StreamEventView>)
    ensures
        a.after(x + y) == a.after(x).after(y),
    decreases y.len(),
{
    if y.len() == 0 {
        assert(x + y =~= x);
    } else {
        lemma_after(a, x, y.drop_last());
        assert((x + y).drop_last() =~= x + y.drop_last());
    }
}

proof fn lemma_after_one(a: AccumulatorView, e: StreamEventView)
    ensures
        a.after(seq![e]) == a.next(e),
{
    assert(seq![e].drop_last() =~= Seq::empty());
    assert(a.after(seq![e].drop_last()) == a);
}

proof fn lemma_after_two(a: AccumulatorView, e: StreamEventView, f: StreamEventView)
    ensures
        a.after(seq![e, f]) == a.next(e).next(f),
{
    assert(seq![e, f].drop_last() =~= seq![e]);
    lemma_after_one(a, e);
}

proof fn lemma_after_three(
    a: AccumulatorView,
    e: StreamEventView,
    f: StreamEventView,
    g: StreamEventView,
)
    ensures
        a.after(seq![e, f, g]) == a.next(e).next(f).next(g),
{
    assert(seq![e, f, g].drop_last() =~= seq![e, f]);
    lemma_after_two(a, e, f);
}

proof fn lemma_all_kept(content: Seq<AssistantPartView>, j: int)
    requires
        calls_of(content).len() <= j,
    ensures
        kept(content, j) == content,
        waiting(content, j).len() == 0,
    decreases content.len(),
{
    if content.len() > 0 {
        lemma_all_kept(content.drop_last(), j);
        assert(content.drop_last().push(content.last()) =~= content);
    } else {
        assert(content =~= Seq::empty());
    }
}

/// What the call after the first `j` does: it lands where it waited, and those
/// that wait after it move up.
proof fn lemma_next_call(content: Seq<AssistantPartView>, j: int)
    requires
        0 <= j < calls_of(content).len(),
    ensures
        ({
            let w = waiting(content, j);
            let call = calls_of(content)[j];
            &&& w.len() > 0
            &&& w[0].id == call.call_id
            &&& 0 <= w[0].index <= kept(content, j).len()
            &&& kept(content, j + 1) == kept(content, j).insert(
                w[0].index,
                AssistantPartView::ToolCall(call),
            )
            &&& waiting(content, j + 1) == moved_up(w.remove(0), w[0].index)
        }),
    decreases content.len(),
{
    let rest = content.drop_last();
    let w = waiting(content, j);
    let call = calls_of(content)[j];
    let part = AssistantPartView::ToolCall(call);
    if calls_of(rest).len() > j {
        lemma_next_call(rest, j);
        let v = waiting(rest, j);
        let p = v[0].index;
        assert(calls_of(rest)[j] == call);
        if content.last() is ToolCall {
            assert(waiting(content, j + 1) =~= moved_up(w.remove(0), p)) by {
                assert(w.remove(0) =~= v.remove(0).push(w.last()));
                assert(moved_up(w.remove(0), p) =~= moved_up(v.remove(0), p).push(
                    SlotView { id: w.last().id, index: w.last().index + 1 },
                ));
            }
        } else {
            assert(kept(content, j + 1) =~= kept(content, j).insert(p, part));
        }
    } else {
        lemma_all_kept(rest, j);
        lemma_all_kept(rest, j + 1);
        assert(content.last() is ToolCall);
        assert(content.last() == part);
        assert(waiting(rest, j) =~= Seq::empty());
        assert(w =~= seq![SlotView { id: call.call_id, index: rest.len() as int }]);
        assert(kept(content, j + 1) =~= kept(content, j).insert(rest.len() as int, part));
        assert(waiting(rest, j + 1) =~= Seq::empty());
        assert(waiting(content, j + 1) =~= moved_up(w.remove(0), w[0].index));
    }
}

/// Collecting the calls after the first `j` puts them where they belong.
proof fn lemma_collect_calls(a: AccumulatorView, content: Seq<AssistantPartView>, j: int)
    requires
        0 <= j <= calls_of(content).len(),
        a.content == kept(content, j),
        a.open_tools == waiting(content, j),
        a.open_text.len() == 0,
    ensures
        a.after(call_events(calls_of(content).skip(j))) == (AccumulatorView {
            content,
            open_tools: Seq::empty(),
            ..a
        }),
    decreases calls_of(content).len() - j,
{
    let calls = calls_of(content);
    let left = calls.skip(j);
    if j == calls.len() {
        lemma_all_kept(content, j);
        assert(left =~= Seq::empty());
        assert(a.open_tools =~= Seq::empty());
    } else {
        lemma_next_call(content, j);
        let call = calls[j];
        assert(left[0] == call);
        assert(left.skip(1) =~= calls.skip(j + 1));
        let end = StreamEventView::ToolInputEnd { call_id: call.call_id };
        let made = StreamEventView::ToolCall(call);
        lemma_after_two(a, end, made);
        let b = a.next(end).next(made);
        assert(slot_of(a.open_tools, call.call_id) == Some(0int));
        assert(moved_up(a.open_text, a.open_tools[0].index) =~= a.open_text);
        assert(b == AccumulatorView {
            content: kept(content, j + 1),
            open_tools: waiting(content, j + 1),
            ..a
        });
        lemma_collect_calls(b, content, j + 1);
        lemma_after(a, seq![end, made], call_events(left.skip(1)));
    }
}

/// Finishing promotes complete calls in order.
proof fn lemma_promote_calls(n: NormalizerView, calls: Seq<ToolCallView>)
    requires
        !n.errored,
        n.open == call_blocks(calls),
        forall|i: int|
            0 <= i < calls.len() ==> json_parse((#[trigger] calls[i]).arguments) is Ok
                && normal_arguments(calls[i].arguments) == calls[i].arguments,
    ensures
        n.promote_from(0) == (Step {
            state: NormalizerView { open: Seq::empty(), ..n },
            events: call_events(calls),
        }),
    decreases calls.len(),
{
    if calls.len() == 0 {
        assert(n.open =~= Seq::empty());
    } else {
        let block = n.open[0];
        assert(block == call_block(calls[0]));
        assert(is_complete_tool(block));
        assert(completed_call(block) == calls[0]);
        let first = n.closing(0).promote(block);
        let tail = calls.skip(1);
        assert(first.state.open =~= call_blocks(tail));
        assert forall|i: int| 0 <= i < tail.len() implies json_parse(
            (#[trigger] tail[i]).arguments,
        ) is Ok && normal_arguments(tail[i].arguments) == tail[i].arguments by {
            assert(tail[i] == calls[i + 1]);
        }
        lemma_promote_calls(first.state, tail);
    }
}

proof fn lemma_no_lane(calls: Seq<ToolCallView>, l: Lane)
    requires
        match l {
            Lane::Tool(id) => forall|i: int|
                0 <= i < calls.len() ==> (#[trigger] calls[i]).call_id != id,
            _ => true,
        },
    ensures
        find(call_blocks(calls), l) is None,
{
    let open = call_blocks(calls);
    lemma_find(open, l, 0);
    if let Some(i) = find(open, l) {
        assert(lane(open[i]) == Lane::Tool(calls[i].call_id));
    }
}

/// The calls among the first parts are none of a later call.
proof fn lemma_call_is_new(content: Seq<AssistantPartView>, k: int, id: Seq<char>)
    requires
        0 <= k <= content.len(),
        forall|i: int|
            0 <= i < k && (#[trigger] content[i]) is ToolCall ==> content[i]->ToolCall_0.call_id
                != id,
    ensures
        forall|i: int|
            0 <= i < calls_of(content.take(k)).len() ==> (#[trigger] calls_of(
                content.take(k),
            )[i]).call_id != id,
    decreases k,
{
    if k > 0 {
        lemma_call_is_new(content, k - 1, id);
        assert(content.take(k).drop_last() =~= content.take(k - 1));
        assert(content.take(k).last() == content[k - 1]);
    } else {
        assert(content.take(0) =~= Seq::empty());
    }
}

/// What replaying a text does, and what collecting it gives.
proof fn lemma_replay_text(
    n: NormalizerView,
    calls: Seq<ToolCallView>,
    index: int,
    part: AssistantPartView,
    a: AccumulatorView,
)
    requires
        n.open == call_blocks(calls),
        part is Text,
        is_lasting(part),
        a.open_text.len() == 0,
    ensures
        n.replay_part(index, part).state == n,
        a.after(n.replay_part(index, part).events) == (AccumulatorView {
            content: a.content.push(part),
            ..a
        }),
{
    let id = decimal(index as nat);
    let text = part->Text_text;
    let metadata = part->Text_provider_metadata;
    let block = OpenBlockView::Text { id, provider_metadata: metadata };
    lemma_no_lane(calls, Lane::Text(id));
    lemma_find_added(n.open, block);
    let opened = n.opening(block);
    assert(opened.open.remove(n.open.len() as int) =~= n.open);
    let start = StreamEventView::TextStart { id, provider_metadata: metadata };
    let delta = StreamEventView::TextDelta { id, delta: text };
    let end = StreamEventView::TextEnd { id, provider_metadata: metadata };
    let events = n.replay_part(index, part).events;
    let b = a.next(start);
    let slot = SlotView { id, index: a.content.len() as int };
    assert(a.open_text =~= Seq::empty());
    assert(b.open_text =~= seq![slot]);
    assert(slot_of(b.open_text, id) == Some(0int));
    assert(b.open_text.remove(0) =~= a.open_text);
    if text.len() == 0 {
        assert(events =~= seq![start, end]);
        lemma_after_two(a, start, end);
        assert(text =~= Seq::empty());
        assert(b.content.update(a.content.len() as int, part) =~= a.content.push(part));
    } else {
        assert(events =~= seq![start, delta, end]);
        lemma_after_three(a, start, delta, end);
        let c = b.next(delta);
        assert(Seq::<char>::empty() + text =~= text);
        assert(c.content[a.content.len() as int] == (AssistantPartView::Text {
            text,
            provider_metadata: no_metadata(),
        }));
        assert(c.content.update(a.content.len() as int, part) =~= a.content.push(part));
    }
}

/// What replaying reasoning does, and what collecting it gives.
proof fn lemma_replay_reasoning(
    n: NormalizerView,
    calls: Seq<ToolCallView>,
    index: int,
    part: ReasoningPartView,
    a: AccumulatorView,
)
    requires
        n.open == call_blocks(calls),
    ensures
        ({
            let s = n.replay_part(index, AssistantPartView::Reasoning(part));
            &&& s.state == n
            &&& a.after(s.events) == a.with_part(AssistantPartView::Reasoning(part))
        }),
{
    let id = decimal(index as nat);
    let shown = part.visible_text();
    let fresh = OpenBlockView::Reasoning { id, buffer: Seq::empty() };
    lemma_no_lane(calls, Lane::Reasoning(id));
    lemma_find_added(n.open, fresh);
    let opened = n.opening(fresh);
    let start = StreamEventView::ReasoningStart { id };
    let delta = StreamEventView::ReasoningDelta { id, delta: shown };
    let end = StreamEventView::ReasoningEnd { id, part };
    let events = n.replay_part(index, AssistantPartView::Reasoning(part)).events;
    if shown.len() == 0 {
        assert(closed_reasoning(Some(part), Seq::empty()) == part);
        assert(opened.open.remove(n.open.len() as int) =~= n.open);
        assert(events =~= seq![start, end]);
        lemma_after_two(a, start, end);
    } else {
        let grown = OpenBlockView::Reasoning { id, buffer: Seq::<char>::empty() + shown };
        lemma_find_added(n.open, grown);
        assert(opened.open.update(n.open.len() as int, grown) =~= n.open.push(grown));
        assert(n.open.push(grown).remove(n.open.len() as int) =~= n.open);
        assert(closed_reasoning(Some(part), Seq::<char>::empty() + shown) == part);
        assert(events =~= seq![start, delta, end]);
        lemma_after_three(a, start, delta, end);
    }
}

/// What replaying a call does, and what collecting it gives.
proof fn lemma_replay_call(
    n: NormalizerView,
    calls: Seq<ToolCallView>,
    index: int,
    call: ToolCallView,
    a: AccumulatorView,
)
    requires
        n.open == call_blocks(calls),
        is_lasting(AssistantPartView::ToolCall(call)),
        forall|i: int| 0 <= i < calls.len() ==> (#[trigger] calls[i]).call_id != call.call_id,
    ensures
        ({
            let s = n.replay_part(index, AssistantPartView::ToolCall(call));
            &&& s.state == NormalizerView { open: call_blocks(calls.push(call)), ..n }
            &&& a.after(s.events) == (AccumulatorView {
                open_tools: a.open_tools.push(
                    SlotView { id: call.call_id, index: a.content.len() as int },
                ),
                ..a
            })
        }),
{
    let id = call.call_id;
    let at = n.open.len() as int;
    let fresh = OpenBlockView::Tool {
        call_id: id,
        name: call.name,
        item_id: call.item_id,
        provider_call_id: call.provider_call_id,
        arguments: Seq::empty(),
        provider_metadata: no_metadata(),
        completed: false,
        final_arguments: None,
    };
    let known = OpenBlockView::Tool {
        call_id: id,
        name: call.name,
        item_id: call.item_id,
        provider_call_id: call.provider_call_id,
        arguments: Seq::empty(),
        provider_metadata: call.provider_metadata,
        completed: false,
        final_arguments: None,
    };
    let filled = OpenBlockView::Tool {
        call_id: id,
        name: call.name,
        item_id: call.item_id,
        provider_call_id: call.provider_call_id,
        arguments: Seq::<char>::empty() + call.arguments,
        provider_metadata: call.provider_metadata,
        completed: false,
        final_arguments: None,
    };
    lemma_no_lane(calls, Lane::Tool(id));
    lemma_find_added(n.open, fresh);
    lemma_find_added(n.open, known);
    lemma_find_added(n.open, filled);
    assert(n.open.push(fresh).update(at, known) =~= n.open.push(known));
    assert(n.open.push(known).update(at, filled) =~= n.open.push(filled));
    assert(Seq::<char>::empty() + call.arguments =~= call.arguments);
    assert(n.open.push(filled).update(at, call_block(call)) =~= n.open.push(call_block(call)));
    assert(call_blocks(calls.push(call)) =~= n.open.push(call_block(call)));
    let start = StreamEventView::ToolInputStart {
        call_id: id,
        name: call.name,
        item_id: call.item_id,
        provider_call_id: call.provider_call_id,
    };
    let delta = StreamEventView::ToolInputDelta { call_id: id, delta: call.arguments };
    assert(n.replay_part(index, AssistantPartView::ToolCall(call)).events =~= seq![start, delta]);
    lemma_after_two(a, start, delta);
}

/// What replaying the first `k` parts does, and what collecting them gives.
proof fn lemma_replay_parts(
    n: NormalizerView,
    content: Seq<AssistantPartView>,
    k: int,
    a: AccumulatorView,
)
    requires
        n.open.len() == 0,
        0 <= k <= content.len(),
        forall|i: int| 0 <= i < content.len() ==> is_lasting(#[trigger] content[i]),
        distinct_calls(content),
        a.content.len() == 0,
        a.open_text.len() == 0,
        a.open_tools.len() == 0,
    ensures
        n.replay_parts(content, k).state == (NormalizerView {
            open: call_blocks(calls_of(content.take(k))),
            ..n
        }),
        a.after(n.replay_parts(content, k).events) == (AccumulatorView {
            content: kept(content.take(k), 0),
            open_tools: waiting(content.take(k), 0),
            ..a
        }),
    decreases k,
{
    if k == 0 {
        assert(content.take(0) =~= Seq::empty());
        assert(n.open =~= call_blocks(Seq::empty()));
        assert(a.content =~= Seq::empty());
        assert(a.open_tools =~= Seq::empty());
    } else {
        lemma_replay_parts(n, content, k - 1, a);
        let before = content.take(k - 1);
        let now = content.take(k);
        assert(now.drop_last() =~= before);
        assert(now.last() == content[k - 1]);
        let s = n.replay_parts(content, k - 1);
        let b = a.after(s.events);
        let calls = calls_of(before);
        let part = content[k - 1];
        let t = s.state.replay_part(k - 1, part);
        assert(is_lasting(part));
        match part {
            AssistantPartView::Text { .. } => lemma_replay_text(s.state, calls, k - 1, part, b),
            AssistantPartView::Reasoning(p) => lemma_replay_reasoning(
                s.state,
                calls,
                k - 1,
                p,
                b,
            ),
            AssistantPartView::ToolCall(call) => {
                assert forall|i: int|
                    0 <= i < k - 1 && (#[trigger] content[i]) is ToolCall implies
                    content[i]->ToolCall_0.call_id != call.call_id by {
                    assert(content[k - 1] is ToolCall);
                }
                lemma_call_is_new(content, k - 1, call.call_id);
                lemma_replay_call(s.state, calls, k - 1, call, b);
            },
            AssistantPartView::Compaction(p) => {
                lemma_no_lane(calls, Lane::Compaction);
                lemma_after_two(
                    b,
                    StreamEventView::CompactionStart,
                    StreamEventView::Compaction(p),
                );
            },
            AssistantPartView::ProviderTool { provider_tool } => {
                let id = match provider_tool.id {
                    Some(id) => id,
                    None => decimal((k - 1) as nat),
                };
                lemma_no_lane(calls, Lane::ProviderTool(id));
                lemma_after_two(
                    b,
                    StreamEventView::ProviderToolStart { id, kind: provider_tool.kind },
                    StreamEventView::ProviderToolEnd(provider_tool),
                );
            },
        }
        lemma_after(a, s.events, t.events);
    }
}

proof fn lemma_has_call(calls: Seq<ToolCallView>)
    ensures
        has_call(call_events(calls)) == (calls.len() > 0),
{
    if calls.len() > 0 {
        assert(call_events(calls)[1] is ToolCall);
    }
}

proof fn lemma_calls_tools(content: Seq<AssistantPartView>)
    ensures
        calls_tools(content) == (calls_of(content).len() > 0),
    decreases content.len(),
{
    if content.len() > 0 {
        let rest = content.drop_last();
        lemma_calls_tools(rest);
        if calls_tools(rest) {
            let i = choose|i: int| 0 <= i < rest.len() && #[trigger] rest[i] is ToolCall;
            assert(content[i] is ToolCall);
        }
        if calls_tools(content) && !(content.last() is ToolCall) {
            let i = choose|i: int| 0 <= i < content.len() && #[trigger] content[i] is ToolCall;
            assert(rest[i] is ToolCall);
        }
        if content.last() is ToolCall {
            assert(content[content.len() - 1] is ToolCall);
        }
    }
}

proof fn lemma_lasting_calls(content: Seq<AssistantPartView>)
    requires
        forall|i: int| 0 <= i < content.len() ==> is_lasting(#[trigger] content[i]),
    ensures
        forall|i: int|
            0 <= i < calls_of(content).len() ==> json_parse(
                (#[trigger] calls_of(content)[i]).arguments,
            ) is Ok && normal_arguments(calls_of(content)[i].arguments) == calls_of(
                content,
            )[i].arguments,
    decreases content.len(),
{
    if content.len() > 0 {
        let rest = content.drop_last();
        assert forall|i: int| 0 <= i < rest.len() implies is_lasting(#[trigger] rest[i]) by {
            assert(is_lasting(content[i]));
        }
        lemma_lasting_calls(rest);
        assert(is_lasting(content[content.len() - 1]));
    }
}

/// What finishing a replayed result comes to.
proof fn lemma_finish_replay(
    n: NormalizerView,
    result: GenerateResultView,
    a: AccumulatorView,
)
    requires
        !n.errored,
        !n.finished,
        n.usage == no_usage(),
        n.open == call_blocks(calls_of(result.content)),
        is_lasting_result(result),
        a.content == kept(result.content, 0),
        a.open_tools == waiting(result.content, 0),
        a.open_text.len() == 0,
        a.usage == no_usage(),
    ensures
        a.after(n.merge_usage(result.usage).finish(result.finish).events) == (AccumulatorView {
            content: result.content,
            open_tools: Seq::empty(),
            finish: Some(result.finish),
            usage: result.usage,
            ..a
        }),
{
    let calls = calls_of(result.content);
    let m = n.merge_usage(result.usage);
    lemma_calls_tools(result.content);
    lemma_lasting_calls(result.content);
    lemma_has_call(calls);
    let finish = StreamEventView::Finish { finish: result.finish, usage: result.usage };
    if result.finish.reason.discards() {
        assert(calls.len() == 0);
        assert(m.open =~= Seq::empty());
        assert(closings(m.open) =~= Seq::empty());
        assert(m.finish(result.finish).events =~= seq![finish]);
        assert(call_events(calls) =~= Seq::empty());
        assert(call_events(calls) + seq![finish] =~= seq![finish]);
    } else {
        lemma_promote_calls(m, calls);
        assert(closings(Seq::<OpenBlockView>::empty()) =~= Seq::empty());
        assert(m.finish(result.finish).events =~= call_events(calls) + seq![finish]);
    }
    lemma_after(a, call_events(calls), seq![finish]);
    assert(calls.skip(0) =~= calls);
    lemma_collect_calls(a, result.content, 0);
    lemma_after_one(a.after(call_events(calls)), finish);
}

/// Collecting a replayed result gives it back, apart from its warnings and the
/// request id, which the stream carries in its opening.
pub proof fn replayed_results_come_back(
    n: NormalizerView,
    result: GenerateResultView,
    a: AccumulatorView,
)
    requires
        is_fresh(n),
        n.usage == no_usage(),
        is_lasting_result(result),
        a == (AccumulatorView {
            warnings: a.warnings,
            metadata: ResponseMetadataView {
                request_id: a.metadata.request_id,
                ..nothing_accumulated().metadata
            },
            ..nothing_accumulated()
        }),
    ensures
        a.after(n.replay(result).events).result() == Ok::<
            GenerateResultView,
            ErrorView,
        >(
            GenerateResultView {
                warnings: a.warnings,
                response: ResponseMetadataView {
                    request_id: a.metadata.request_id,
                    ..result.response
                },
                ..result
            },
        ),
{
    let content = result.content;
    let identity = if result.response.id is Some || result.response.model is Some {
        seq![
            StreamEventView::ResponseMetadata(
                ResponseMetadataView { request_id: None, ..result.response },
            ),
        ]
    } else {
        Seq::empty()
    };
    let s = n.provider_metadata(result.provider_metadata);
    let t = s.state.replay_parts(content, content.len() as int);
    let u = t.state.merge_usage(result.usage).finish(result.finish);
    let b = a.after(identity);
    if identity.len() > 0 {
        lemma_after_one(a, identity[0]);
        assert(identity =~= seq![identity[0]]);
    }
    let c = b.after(s.events);
    if s.events.len() > 0 {
        lemma_after_one(b, s.events[0]);
        assert(s.events =~= seq![s.events[0]]);
    }
    assert(c.provider_metadata == result.provider_metadata);
    lemma_replay_parts(s.state, content, content.len() as int, c);
    assert(content.take(content.len() as int) =~= content);
    let d = c.after(t.events);
    lemma_finish_replay(t.state, result, d);
    lemma_after(a, identity, s.events);
    lemma_after(a, identity + s.events, t.events);
    lemma_after(a, identity + s.events + t.events, u.events);
}

} // verus!
