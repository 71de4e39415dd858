//! The terminal contract, as properties of the events that come out of a
//! normalizer.
use vstd::multiset::Multiset;
use vstd::prelude::*;

use super::event::{CitationView, StreamEventView};
use super::normalizer::{
    closing_event, closings, completed_call, find, is_complete_tool, lane, lemma_find, Lane,
    NormalizerView, OpenBlockView, Step,
};
use crate::error::ErrorView;
use crate::json::json_parse;
use crate::message::{
    AssistantPartView, CompactionPartView, ProviderToolPartView, ReasoningPartView,
};
use crate::metadata::MetadataView;
use crate::response::{FinishReason, FinishView, GenerateResultView, ResponseMetadataView};
use crate::usage::Usage;

verus! {

/// A lifecycle.
pub enum Block {
    Text(Seq<char>),
    Reasoning(Seq<char>),
    Tool(Seq<char>),
    ProviderTool(Seq<char>),
    Compaction,
}

/// The lifecycle of an open block.
pub open spec fn block_of(block: OpenBlockView) -> Block {
    match block {
        OpenBlockView::Text { id, .. } => Block::Text(id),
        OpenBlockView::Reasoning { id, .. } => Block::Reasoning(id),
        OpenBlockView::Tool { call_id, .. } => Block::Tool(call_id),
        OpenBlockView::ProviderTool { id } => Block::ProviderTool(id),
        OpenBlockView::Compaction => Block::Compaction,
    }
}

/// The lifecycles that a normalizer has open.
pub open spec fn blocks(open: Seq<OpenBlockView>) -> Multiset<Block> {
    open.map_values(|b: OpenBlockView| block_of(b)).to_multiset()
}

/// A lifecycle starts, which must not be open.
pub open spec fn starting(m: Multiset<Block>, b: Block) -> Option<Multiset<Block>> {
    if m.count(b) == 0 {
        Some(m.insert(b))
    } else {
        None
    }
}

/// A lifecycle ends, which must be open.
pub open spec fn ending(m: Multiset<Block>, b: Block) -> Option<Multiset<Block>> {
    if m.count(b) > 0 {
        Some(m.remove(b))
    } else {
        None
    }
}

/// Something happens within a lifecycle, which must be open.
pub open spec fn within(m: Multiset<Block>, b: Block) -> Option<Multiset<Block>> {
    if m.count(b) > 0 {
        Some(m)
    } else {
        None
    }
}

/// The open lifecycles after one event that names its own, where the event is in
/// order.
pub open spec fn moved_on(m: Multiset<Block>, event: StreamEventView) -> Option<Multiset<Block>> {
    match event {
        StreamEventView::TextStart { id, .. } => starting(m, Block::Text(id)),
        StreamEventView::TextDelta { id, .. } => within(m, Block::Text(id)),
        StreamEventView::TextEnd { id, .. } => ending(m, Block::Text(id)),
        StreamEventView::ReasoningStart { id } => starting(m, Block::Reasoning(id)),
        StreamEventView::ReasoningDelta { id, .. } => within(m, Block::Reasoning(id)),
        StreamEventView::ReasoningEnd { id, .. } => ending(m, Block::Reasoning(id)),
        StreamEventView::ToolInputStart { call_id, .. } => starting(m, Block::Tool(call_id)),
        StreamEventView::ToolInputDelta { call_id, .. } => within(m, Block::Tool(call_id)),
        StreamEventView::ToolInputEnd { call_id } => ending(m, Block::Tool(call_id)),
        StreamEventView::CompactionStart => starting(m, Block::Compaction),
        StreamEventView::CompactionDelta { .. } => within(m, Block::Compaction),
        StreamEventView::CompactionAbort => ending(m, Block::Compaction),
        StreamEventView::Compaction(_) => ending(m, Block::Compaction),
        StreamEventView::ProviderToolStart { id, .. } => starting(m, Block::ProviderTool(id)),
        StreamEventView::ProviderToolAbort { id } => ending(m, Block::ProviderTool(id)),
        _ => Some(m),
    }
}

/// Whether one event is in order and takes the open lifecycles from some to
/// others. The end of a provider tool carries the finished item, which need not
/// name the lifecycle: it ends one that is open.
pub open spec fn follow(m: Multiset<Block>, event: StreamEventView, n: Multiset<Block>) -> bool {
    match event {
        StreamEventView::ProviderToolEnd(_) => exists|id: Seq<char>|
            #[trigger] ending(m, Block::ProviderTool(id)) == Some(n),
        _ => moved_on(m, event) == Some(n),
    }
}

/// Whether events are all in order and take the open lifecycles from some to
/// others.
#[verifier::opaque]
pub open spec fn follow_all(
    m: Multiset<Block>,
    events: Seq<StreamEventView>,
    n: Multiset<Block>,
) -> bool
    decreases events.len(),
{
    if events.len() == 0 {
        m == n
    } else {
        exists|x: Multiset<Block>|
            follow_all(m, events.drop_last(), x) && #[trigger] follow(x, events.last(), n)
    }
}

/// How many errors are among the events.
pub open spec fn error_count(events: Seq<StreamEventView>) -> nat
    decreases events.len(),
{
    if events.len() == 0 {
        0
    } else {
        error_count(events.drop_last()) + if events.last() is Error {
            1nat
        } else {
            0nat
        }
    }
}

/// How many terminal events are among the events.
pub open spec fn finish_count(events: Seq<StreamEventView>) -> nat
    decreases events.len(),
{
    if events.len() == 0 {
        0
    } else {
        finish_count(events.drop_last()) + if events.last() is Finish {
            1nat
        } else {
            0nat
        }
    }
}

/// How many tool calls are among the events.
pub open spec fn call_count(events: Seq<StreamEventView>) -> nat
    decreases events.len(),
{
    if events.len() == 0 {
        0
    } else {
        call_count(events.drop_last()) + if events.last() is ToolCall {
            1nat
        } else {
            0nat
        }
    }
}

/// Whether every tool call has JSON arguments and comes right after the end of
/// its own block.
pub open spec fn calls_in_order(events: Seq<StreamEventView>) -> bool {
    forall|k: int|
        0 <= k < events.len() && (#[trigger] events[k]) is ToolCall ==> {
            &&& k > 0
            &&& events[k - 1] == (StreamEventView::ToolInputEnd {
                call_id: events[k]->ToolCall_0.call_id,
            })
            &&& json_parse(events[k]->ToolCall_0.arguments) is Ok
        }
}

/// Whether a step keeps the terminal contract.
pub open spec fn sound(n: NormalizerView, s: Step) -> bool {
    // Blocks start, go on and end in order, and the state knows which are open.
    &&& follow_all(blocks(n.open), s.events, blocks(s.state.open))
    // At most one error is reported in the life of a stream.
    &&& n.errored ==> s.state.errored
    &&& error_count(s.events) == if s.state.errored && !n.errored {
        1nat
    } else {
        0nat
    }
    // There is one terminal event. It comes last, when nothing is open, and
    // after an error it says so.
    &&& n.finished ==> s.state.finished
    &&& finish_count(s.events) == if s.state.finished && !n.finished {
        1nat
    } else {
        0nat
    }
    &&& s.state.finished && !n.finished ==> {
        &&& s.events.len() > 0
        &&& s.events.last() is Finish
        &&& s.state.open.len() == 0
        &&& s.state.errored ==> s.events.last()->finish.reason is Error
    }
    // Tool calls come only at the end, each after its block and with JSON
    // arguments.
    &&& call_count(s.events) > 0 ==> s.state.finished && !n.finished
    &&& calls_in_order(s.events)
}

pub proof fn lemma_concat(m: Multiset<Block>, a: Seq<StreamEventView>, b: Seq<StreamEventView>)
    ensures
        forall|x: Multiset<Block>, y: Multiset<Block>| #[trigger]
            follow_all(m, a, x) && #[trigger] follow_all(x, b, y) ==> follow_all(m, a + b, y),
        error_count(a + b) == error_count(a) + error_count(b),
        finish_count(a + b) == finish_count(a) + finish_count(b),
        call_count(a + b) == call_count(a) + call_count(b),
        calls_in_order(a) && calls_in_order(b) ==> calls_in_order(a + b),
    decreases b.len(),
{
    reveal_with_fuel(follow_all, 1);
    if b.len() == 0 {
        assert(a + b =~= a);
    } else {
        lemma_concat(m, a, b.drop_last());
        assert((a + b).drop_last() =~= a + b.drop_last());
        assert((a + b).last() == b.last());
        assert forall|x: Multiset<Block>, y: Multiset<Block>| #[trigger]
            follow_all(m, a, x) && #[trigger] follow_all(x, b, y) implies follow_all(
            m,
            a + b,
            y,
        ) by {
            let z = choose|z: Multiset<Block>|
                follow_all(x, b.drop_last(), z) && #[trigger] follow(z, b.last(), y);
            assert(follow_all(m, a + b.drop_last(), z));
            assert(follow(z, (a + b).last(), y));
        }
    }
    if calls_in_order(a) && calls_in_order(b) {
        assert forall|k: int| 0 <= k < (a + b).len() && (#[trigger] (a + b)[k]) is ToolCall implies {
            &&& k > 0
            &&& (a + b)[k - 1] == (StreamEventView::ToolInputEnd {
                call_id: (a + b)[k]->ToolCall_0.call_id,
            })
            &&& json_parse((a + b)[k]->ToolCall_0.arguments) is Ok
        } by {
            if k < a.len() {
                assert(a[k] is ToolCall);
            } else {
                assert(b[k - a.len()] is ToolCall);
            }
        }
    }
}

proof fn lemma_no_events(m: Multiset<Block>)
    ensures
        follow_all(m, Seq::empty(), m),
        error_count(Seq::empty()) == 0,
        finish_count(Seq::empty()) == 0,
        call_count(Seq::empty()) == 0,
{
    reveal_with_fuel(follow_all, 1);
}

pub proof fn lemma_one_event(m: Multiset<Block>, e: StreamEventView)
    ensures
        !(e is ProviderToolEnd) ==> (moved_on(m, e) matches Some(x) ==> follow_all(
            m,
            seq![e],
            x,
        )),
        error_count(seq![e]) == if e is Error {
            1nat
        } else {
            0nat
        },
        finish_count(seq![e]) == if e is Finish {
            1nat
        } else {
            0nat
        },
        call_count(seq![e]) == if e is ToolCall {
            1nat
        } else {
            0nat
        },
{
    reveal_with_fuel(follow_all, 1);
    assert(seq![e].drop_last() =~= Seq::empty());
    lemma_no_events(m);
    assert(follow_all(m, seq![e].drop_last(), m));
    assert(seq![e].last() == e);
    if let Some(x) = moved_on(m, e) {
        if !(e is ProviderToolEnd) {
            assert(follow(m, seq![e].last(), x));
        }
    }
}

proof fn lemma_two_events(m: Multiset<Block>, d: StreamEventView, e: StreamEventView)
    ensures
        !(d is ProviderToolEnd || e is ProviderToolEnd) ==> (moved_on(m, d) matches Some(x) ==> (
        moved_on(x, e) matches Some(y) ==> follow_all(m, seq![d, e], y))),
        error_count(seq![d, e]) == error_count(seq![d]) + error_count(seq![e]),
        finish_count(seq![d, e]) == finish_count(seq![d]) + finish_count(seq![e]),
        call_count(seq![d, e]) == call_count(seq![d]) + call_count(seq![e]),
{
    assert(seq![d, e] =~= seq![d] + seq![e]);
    lemma_concat(m, seq![d], seq![e]);
    lemma_one_event(m, d);
    lemma_one_event(m, e);
    if let Some(x) = moved_on(m, d) {
        lemma_one_event(x, e);
    }
}

/// The end of a provider tool that is open.
proof fn lemma_tool_end(m: Multiset<Block>, id: Seq<char>, e: StreamEventView)
    requires
        m.count(Block::ProviderTool(id)) > 0,
        e is ProviderToolEnd,
    ensures
        follow_all(m, seq![e], m.remove(Block::ProviderTool(id))),
{
    reveal_with_fuel(follow_all, 1);
    assert(seq![e].drop_last() =~= Seq::empty());
    lemma_no_events(m);
    assert(follow_all(m, seq![e].drop_last(), m));
    let x = m.remove(Block::ProviderTool(id));
    assert(ending(m, Block::ProviderTool(id)) == Some(x));
    assert(follow(m, seq![e].last(), x));
}

proof fn lemma_push(open: Seq<OpenBlockView>, b: OpenBlockView)
    ensures
        blocks(open.push(b)) == blocks(open).insert(block_of(b)),
{
    broadcast use vstd::seq_lib::group_to_multiset_ensures;

    let f = |b: OpenBlockView| block_of(b);
    assert(open.push(b).map_values(f) =~= open.map_values(f).push(block_of(b)));
}

proof fn lemma_remove(open: Seq<OpenBlockView>, i: int)
    requires
        0 <= i < open.len(),
    ensures
        blocks(open.remove(i)) == blocks(open).remove(block_of(open[i])),
        blocks(open).count(block_of(open[i])) > 0,
{
    broadcast use vstd::seq_lib::group_to_multiset_ensures;

    let f = |b: OpenBlockView| block_of(b);
    assert(open.remove(i).map_values(f) =~= open.map_values(f).remove(i));
    assert(open.map_values(f)[i] == block_of(open[i]));
    assert(open.map_values(f).contains(block_of(open[i])));
    assert(blocks(open).contains(block_of(open[i])));
}

proof fn lemma_update(open: Seq<OpenBlockView>, i: int, b: OpenBlockView)
    requires
        0 <= i < open.len(),
        block_of(b) == block_of(open[i]),
    ensures
        blocks(open.update(i, b)) == blocks(open),
{
    let f = |b: OpenBlockView| block_of(b);
    assert(open.update(i, b).map_values(f) =~= open.map_values(f));
}

/// A lifecycle that is not found is not open.
proof fn lemma_not_open(open: Seq<OpenBlockView>, l: Lane, b: Block)
    requires
        find(open, l) is None,
        forall|x: OpenBlockView| block_of(x) == b ==> lane(x) == l,
    ensures
        blocks(open).count(b) == 0,
{
    broadcast use vstd::seq_lib::group_to_multiset_ensures;

    let f = |b: OpenBlockView| block_of(b);
    lemma_find(open, l, 0);
    if blocks(open).count(b) > 0 {
        assert(blocks(open).contains(b));
        assert(open.map_values(f).contains(b));
        let i = choose|i: int| 0 <= i < open.len() && open.map_values(f)[i] == b;
        assert(lane(open[i]) == l);
    }
}

proof fn lemma_sequence(n: NormalizerView, s: Step, t: Step)
    requires
        sound(n, s),
        sound(s.state, t),
        !s.state.finished,
    ensures
        sound(n, (Step { state: t.state, events: s.events + t.events })),
{
    lemma_concat(blocks(n.open), s.events, t.events);
    if t.state.finished {
        assert((s.events + t.events).last() == t.events.last());
    }
}

proof fn lemma_idle(n: NormalizerView)
    ensures
        sound(n, n.idle()),
{
    lemma_no_events(blocks(n.open));
}

/// An event outside any lifecycle.
proof fn lemma_aside(n: NormalizerView, e: StreamEventView)
    requires
        moved_on(blocks(n.open), e) == Some(blocks(n.open)),
        !(e is ProviderToolEnd),
        !(e is Error || e is Finish || e is ToolCall),
    ensures
        sound(n, n.emit(e)),
{
    lemma_one_event(blocks(n.open), e);
}

/// A change of an open block that keeps its lifecycle.
proof fn lemma_change(n: NormalizerView, i: int, b: OpenBlockView)
    requires
        0 <= i < n.open.len(),
        block_of(b) == block_of(n.open[i]),
    ensures
        sound(n, n.changing(i, b).idle()),
{
    lemma_update(n.open, i, b);
    lemma_no_events(blocks(n.open));
}

/// An event that opens a block.
proof fn lemma_open(n: NormalizerView, b: OpenBlockView, e: StreamEventView)
    requires
        moved_on(blocks(n.open), e) == Some(blocks(n.open).insert(block_of(b))),
        !(e is ProviderToolEnd),
        !(e is Error || e is Finish || e is ToolCall),
    ensures
        sound(n, n.opening(b).emit(e)),
{
    lemma_push(n.open, b);
    lemma_one_event(blocks(n.open), e);
}

/// An event that closes a block.
proof fn lemma_close(n: NormalizerView, i: int, e: StreamEventView)
    requires
        0 <= i < n.open.len(),
        e is ProviderToolEnd && n.open[i] is ProviderTool || !(e is ProviderToolEnd) && moved_on(
            blocks(n.open),
            e,
        ) == ending(blocks(n.open), block_of(n.open[i])),
        !(e is Error || e is Finish || e is ToolCall),
    ensures
        sound(n, n.closing(i).emit(e)),
{
    lemma_remove(n.open, i);
    lemma_one_event(blocks(n.open), e);
    if let OpenBlockView::ProviderTool { id } = n.open[i] {
        if e is ProviderToolEnd {
            lemma_tool_end(blocks(n.open), id, e);
        }
    }
}

proof fn lemma_start_text(n: NormalizerView, id: Seq<char>, metadata: MetadataView)
    ensures
        sound(n, n.start_text(id, metadata)),
        blocks(n.start_text(id, metadata).state.open).count(Block::Text(id)) > 0,
{
    lemma_find(n.open, Lane::Text(id), 0);
    match find(n.open, Lane::Text(id)) {
        Some(i) => {
            lemma_idle(n);
            lemma_remove(n.open, i);
        },
        None => {
            lemma_not_open(n.open, Lane::Text(id), Block::Text(id));
            let b = OpenBlockView::Text { id, provider_metadata: metadata };
            lemma_open(n, b, StreamEventView::TextStart { id, provider_metadata: metadata });
            lemma_push(n.open, b);
        },
    }
}

proof fn lemma_text_delta(n: NormalizerView, id: Seq<char>, delta: Seq<char>)
    ensures
        sound(n, n.text_delta(id, delta)),
        n.text_delta(id, delta).state.finished == n.finished,
{
    let s = n.start_text(id, crate::metadata::no_metadata());
    lemma_start_text(n, id, crate::metadata::no_metadata());
    let e = StreamEventView::TextDelta { id, delta };
    lemma_one_event(blocks(s.state.open), e);
    lemma_concat(blocks(n.open), s.events, seq![e]);
    assert(s.events.push(e) =~= s.events + seq![e]);
}

proof fn lemma_end_text(n: NormalizerView, id: Seq<char>)
    ensures
        sound(n, n.end_text(id)),
{
    lemma_find(n.open, Lane::Text(id), 0);
    match find(n.open, Lane::Text(id)) {
        Some(i) => {
            lemma_close(
                n,
                i,
                StreamEventView::TextEnd {
                    id,
                    provider_metadata: n.open[i]->Text_provider_metadata,
                },
            );
        },
        None => {
            lemma_idle(n);
        },
    }
}

proof fn lemma_start_reasoning(n: NormalizerView, id: Seq<char>)
    ensures
        sound(n, n.start_reasoning(id)),
        blocks(n.start_reasoning(id).state.open).count(Block::Reasoning(id)) > 0,
        find(n.start_reasoning(id).state.open, Lane::Reasoning(id)) is Some,
{
    lemma_find(n.open, Lane::Reasoning(id), 0);
    let s = n.start_reasoning(id);
    match find(n.open, Lane::Reasoning(id)) {
        Some(i) => {
            lemma_idle(n);
            lemma_remove(n.open, i);
        },
        None => {
            lemma_not_open(n.open, Lane::Reasoning(id), Block::Reasoning(id));
            let b = OpenBlockView::Reasoning { id, buffer: Seq::empty() };
            lemma_open(n, b, StreamEventView::ReasoningStart { id });
            lemma_push(n.open, b);
            lemma_find(s.state.open, Lane::Reasoning(id), 0);
            assert(lane(s.state.open[n.open.len() as int]) == Lane::Reasoning(id));
        },
    }
}

proof fn lemma_reasoning_delta(n: NormalizerView, id: Seq<char>, delta: Seq<char>)
    ensures
        sound(n, n.reasoning_delta(id, delta)),
        n.reasoning_delta(id, delta).state.finished == n.finished,
{
    let s = n.start_reasoning(id);
    lemma_start_reasoning(n, id);
    lemma_find(s.state.open, Lane::Reasoning(id), 0);
    let i = find(s.state.open, Lane::Reasoning(id))->0;
    lemma_update(
        s.state.open,
        i,
        OpenBlockView::Reasoning { id, buffer: s.state.open[i]->Reasoning_buffer + delta },
    );
    let e = StreamEventView::ReasoningDelta { id, delta };
    lemma_one_event(blocks(s.state.open), e);
    lemma_concat(blocks(n.open), s.events, seq![e]);
    assert(s.events.push(e) =~= s.events + seq![e]);
}

proof fn lemma_end_reasoning(n: NormalizerView, id: Seq<char>, part: Option<ReasoningPartView>)
    ensures
        sound(n, n.end_reasoning(id, part)),
{
    lemma_find(n.open, Lane::Reasoning(id), 0);
    match find(n.open, Lane::Reasoning(id)) {
        Some(i) => {
            lemma_close(n, i, n.end_reasoning(id, part).events[0]);
        },
        None => match part {
            Some(p) => {
                lemma_not_open(n.open, Lane::Reasoning(id), Block::Reasoning(id));
                lemma_two_events(
                    blocks(n.open),
                    StreamEventView::ReasoningStart { id },
                    StreamEventView::ReasoningEnd { id, part: p },
                );
                lemma_one_event(blocks(n.open), StreamEventView::ReasoningStart { id });
                lemma_one_event(blocks(n.open), StreamEventView::ReasoningEnd { id, part: p });
                assert(blocks(n.open).insert(Block::Reasoning(id)).remove(Block::Reasoning(id))
                    =~= blocks(n.open));
            },
            None => {
                lemma_idle(n);
            },
        },
    }
}

proof fn lemma_start_tool(
    n: NormalizerView,
    call_id: Seq<char>,
    name: Seq<char>,
    item_id: Option<Seq<char>>,
    provider_call_id: Option<Seq<char>>,
)
    ensures
        sound(n, n.start_tool(call_id, name, item_id, provider_call_id)),
{
    lemma_find(n.open, Lane::Tool(call_id), 0);
    match find(n.open, Lane::Tool(call_id)) {
        Some(i) => {
            lemma_idle(n);
        },
        None => {
            lemma_not_open(n.open, Lane::Tool(call_id), Block::Tool(call_id));
            let s = n.start_tool(call_id, name, item_id, provider_call_id);
            lemma_open(n, s.state.open.last(), s.events[0]);
            assert(s.state.open =~= n.open.push(s.state.open.last()));
        },
    }
}

proof fn lemma_tool_delta(n: NormalizerView, call_id: Seq<char>, delta: Seq<char>)
    ensures
        sound(n, n.tool_delta(call_id, delta)),
{
    lemma_find(n.open, Lane::Tool(call_id), 0);
    match find(n.open, Lane::Tool(call_id)) {
        Some(i) => {
            let s = n.tool_delta(call_id, delta);
            lemma_update(n.open, i, s.state.open[i]);
            lemma_remove(n.open, i);
            lemma_one_event(
                blocks(n.open),
                StreamEventView::ToolInputDelta { call_id, delta },
            );
        },
        None => {
            lemma_idle(n);
        },
    }
}

proof fn lemma_tool_changes(
    n: NormalizerView,
    call_id: Seq<char>,
    metadata: MetadataView,
    final_text: Option<Seq<char>>,
)
    ensures
        sound(n, n.tool_metadata(call_id, metadata).idle()),
        sound(n, n.complete_tool(call_id, final_text).idle()),
{
    lemma_find(n.open, Lane::Tool(call_id), 0);
    lemma_idle(n);
    if let Some(i) = find(n.open, Lane::Tool(call_id)) {
        lemma_change(n, i, n.tool_metadata(call_id, metadata).open[i]);
        lemma_change(n, i, n.complete_tool(call_id, final_text).open[i]);
    }
}

proof fn lemma_text_metadata(n: NormalizerView, id: Seq<char>, metadata: MetadataView)
    ensures
        sound(n, n.text_metadata(id, metadata).idle()),
{
    lemma_find(n.open, Lane::Text(id), 0);
    lemma_idle(n);
    if let Some(i) = find(n.open, Lane::Text(id)) {
        lemma_change(n, i, n.text_metadata(id, metadata).open[i]);
    }
}

proof fn lemma_compaction(n: NormalizerView, delta: Seq<char>, part: CompactionPartView)
    ensures
        sound(n, n.compaction_start()),
        sound(n, n.compaction_delta(delta)),
        sound(n, n.compaction_abort()),
        sound(n, n.compaction(part)),
{
    lemma_find(n.open, Lane::Compaction, 0);
    let s = n.compaction_start();
    match find(n.open, Lane::Compaction) {
        Some(i) => {
            lemma_idle(n);
            lemma_remove(n.open, i);
            lemma_close(n, i, StreamEventView::CompactionAbort);
            lemma_close(n, i, StreamEventView::Compaction(part));
        },
        None => {
            lemma_idle(n);
            lemma_not_open(n.open, Lane::Compaction, Block::Compaction);
            lemma_open(n, OpenBlockView::Compaction, StreamEventView::CompactionStart);
            lemma_push(n.open, OpenBlockView::Compaction);
            lemma_two_events(
                blocks(n.open),
                StreamEventView::CompactionStart,
                StreamEventView::Compaction(part),
            );
            lemma_one_event(blocks(n.open), StreamEventView::CompactionStart);
            lemma_one_event(blocks(n.open), StreamEventView::Compaction(part));
            assert(blocks(n.open).insert(Block::Compaction).remove(Block::Compaction) =~= blocks(
                n.open,
            ));
        },
    }
    let e = StreamEventView::CompactionDelta { delta };
    lemma_one_event(blocks(s.state.open), e);
    lemma_concat(blocks(n.open), s.events, seq![e]);
    assert(s.events.push(e) =~= s.events + seq![e]);
}

proof fn lemma_provider_tool(
    n: NormalizerView,
    id: Seq<char>,
    kind: Seq<char>,
    part: ProviderToolPartView,
)
    ensures
        sound(n, n.provider_tool_start(id, kind)),
        sound(n, n.provider_tool_end(id, part)),
{
    let b = Block::ProviderTool(id);
    let e = StreamEventView::ProviderToolEnd(part);
    lemma_find(n.open, Lane::ProviderTool(id), 0);
    match find(n.open, Lane::ProviderTool(id)) {
        Some(i) => {
            lemma_idle(n);
            lemma_close(n, i, e);
        },
        None => {
            lemma_not_open(n.open, Lane::ProviderTool(id), b);
            lemma_open(
                n,
                OpenBlockView::ProviderTool { id },
                StreamEventView::ProviderToolStart { id, kind },
            );
            let d = StreamEventView::ProviderToolStart { id, kind: part.kind };
            let x = blocks(n.open).insert(b);
            assert(x.remove(b) =~= blocks(n.open));
            lemma_one_event(blocks(n.open), d);
            lemma_tool_end(x, id, e);
            lemma_one_event(x, e);
            lemma_concat(blocks(n.open), seq![d], seq![e]);
            assert(seq![d, e] =~= seq![d] + seq![e]);
            assert(calls_in_order(seq![d, e]));
        },
    }
}

proof fn lemma_error(n: NormalizerView, error: ErrorView)
    ensures
        sound(n, n.error(error)),
        n.error(error).state.errored,
        n.error(error).state.finished == n.finished,
        n.error(error).state.open == n.open,
{
    lemma_idle(n);
    lemma_one_event(blocks(n.open), StreamEventView::Error { error: n.enrich(error) });
}

/// What promoting complete tool blocks does. Blocks end in order; calls come
/// only from complete blocks, and none comes after an error.
pub open spec fn promoted(n: NormalizerView, s: Step) -> bool {
    &&& follow_all(blocks(n.open), s.events, blocks(s.state.open))
    &&& n.errored ==> s.state.errored
    &&& error_count(s.events) == if s.state.errored && !n.errored {
        1nat
    } else {
        0nat
    }
    &&& finish_count(s.events) == 0
    &&& calls_in_order(s.events)
    &&& s.state.finished == n.finished
    &&& n.errored ==> call_count(s.events) == 0
    &&& forall|k: int|
        0 <= k < s.events.len() && (#[trigger] s.events[k]) is ToolCall ==> exists|j: int|
            0 <= j < n.open.len() && is_complete_tool(#[trigger] n.open[j]) && completed_call(
                n.open[j],
            ) == s.events[k]->ToolCall_0
    &&& forall|j: int, k: int|
        0 <= j < k < s.events.len() && (#[trigger] s.events[j]) is Error ==> !((
        #[trigger] s.events[k]) is ToolCall)
}

/// Promoting one block that has just been taken out of the open ones.
proof fn lemma_promote(n: NormalizerView, i: int)
    requires
        0 <= i < n.open.len(),
        is_complete_tool(n.open[i]),
    ensures
        promoted(n, n.closing(i).promote(n.open[i])),
        n.closing(i).promote(n.open[i]).state.open == n.open.remove(i),
{
    let c = n.closing(i);
    let s = c.promote(n.open[i]);
    let call = completed_call(n.open[i]);
    let end = StreamEventView::ToolInputEnd { call_id: call.call_id };
    lemma_remove(n.open, i);
    lemma_one_event(blocks(n.open), end);
    lemma_one_event(blocks(c.open), StreamEventView::ToolCall(call));
    lemma_two_events(blocks(n.open), end, StreamEventView::ToolCall(call));
    if !n.errored {
        if let Err(e) = json_parse(call.arguments) {
            let bad = super::normalizer::invalid_arguments(call.call_id, e);
            lemma_error(c, bad);
            lemma_concat(blocks(n.open), seq![end], c.error(bad).events);
            lemma_one_event(blocks(c.open), c.error(bad).events[0]);
            assert(c.error(bad).events =~= seq![c.error(bad).events[0]]);
        }
    }
}

proof fn lemma_calls_absent(events: Seq<StreamEventView>)
    requires
        call_count(events) == 0,
    ensures
        forall|k: int| 0 <= k < events.len() ==> !((#[trigger] events[k]) is ToolCall),
    decreases events.len(),
{
    if events.len() > 0 {
        lemma_calls_absent(events.drop_last());
        assert forall|k: int| 0 <= k < events.len() implies !((#[trigger] events[k]) is ToolCall) by {
            if k < events.len() - 1 {
                assert(events.drop_last()[k] == events[k]);
            }
        }
    }
}

proof fn lemma_errors_absent(events: Seq<StreamEventView>)
    requires
        error_count(events) == 0,
    ensures
        forall|k: int| 0 <= k < events.len() ==> !((#[trigger] events[k]) is Error),
    decreases events.len(),
{
    if events.len() > 0 {
        lemma_errors_absent(events.drop_last());
        assert forall|k: int| 0 <= k < events.len() implies !((#[trigger] events[k]) is Error) by {
            if k < events.len() - 1 {
                assert(events.drop_last()[k] == events[k]);
            }
        }
    }
}

/// What promoting the complete tool blocks from a position on does.
pub proof fn lemma_promote_from(n: NormalizerView, i: int)
    requires
        0 <= i,
    ensures
        promoted(n, n.promote_from(i)),
    decreases n.open.len() - i,
{
    if i >= n.open.len() {
        lemma_no_events(blocks(n.open));
    } else if !is_complete_tool(n.open[i]) {
        lemma_promote_from(n, i + 1);
    } else {
        let first = n.closing(i).promote(n.open[i]);
        let rest = first.state.promote_from(i);
        lemma_promote(n, i);
        lemma_promote_from(first.state, i);
        lemma_concat(blocks(n.open), first.events, rest.events);
        let events = first.events + rest.events;
        if first.state.errored {
            lemma_calls_absent(rest.events);
        } else {
            lemma_errors_absent(first.events);
        }
        assert forall|k: int| 0 <= k < events.len() && (#[trigger] events[k]) is ToolCall implies exists|
            j: int,
        |
            0 <= j < n.open.len() && is_complete_tool(#[trigger] n.open[j]) && completed_call(
                n.open[j],
            ) == events[k]->ToolCall_0 by {
            if k < first.events.len() {
                assert(first.events[k] is ToolCall);
            } else {
                let m = k - first.events.len();
                assert(rest.events[m] is ToolCall);
                let j = choose|j: int|
                    0 <= j < first.state.open.len() && is_complete_tool(
                        #[trigger] first.state.open[j],
                    ) && completed_call(first.state.open[j]) == rest.events[m]->ToolCall_0;
                let o = if j < i {
                    j
                } else {
                    j + 1
                };
                assert(n.open[o] == first.state.open[j]);
            }
        }
        assert forall|j: int, k: int| 0 <= j < k < events.len() && (#[trigger] events[j]) is Error implies !((
        #[trigger] events[k]) is ToolCall) by {
            if k < first.events.len() {
                assert(first.events[j] is Error);
            } else if j < first.events.len() {
                assert(first.events[j] is Error);
            } else {
                assert(rest.events[j - first.events.len()] is Error);
                assert(rest.events[k - first.events.len()] == events[k]);
            }
        }
    }
}

proof fn lemma_closings(open: Seq<OpenBlockView>)
    ensures
        follow_all(blocks(open), closings(open), blocks(Seq::empty())),
        error_count(closings(open)) == 0,
        finish_count(closings(open)) == 0,
        call_count(closings(open)) == 0,
        calls_in_order(closings(open)),
    decreases open.len(),
{
    if open.len() == 0 {
        lemma_no_events(blocks(open));
        assert(open =~= Seq::empty());
    } else {
        let e = closing_event(open.last());
        lemma_closings(open.drop_last());
        lemma_remove(open, open.len() - 1);
        assert(open.remove(open.len() - 1) =~= open.drop_last());
        lemma_one_event(blocks(open), e);
        lemma_concat(blocks(open), seq![e], closings(open.drop_last()));
    }
}

proof fn lemma_finish(n: NormalizerView, finish: FinishView)
    ensures
        sound(n, n.finish(finish)),
        n.finish(finish).state.finished,
{
    if n.finished {
        lemma_idle(n);
    } else {
        let s = if !n.errored && !finish.reason.discards() {
            n.promote_from(0)
        } else {
            n.idle()
        };
        if !n.errored && !finish.reason.discards() {
            lemma_promote_from(n, 0);
        } else {
            lemma_no_events(blocks(n.open));
        }
        let t = n.finish(finish);
        lemma_closings(s.state.open);
        lemma_concat(blocks(n.open), s.events, closings(s.state.open));
        let f = t.events.last();
        lemma_one_event(blocks(Seq::empty()), f);
        lemma_concat(blocks(n.open), s.events + closings(s.state.open), seq![f]);
        assert(t.events =~= s.events + closings(s.state.open) + seq![f]);
    }
}

proof fn lemma_fail(n: NormalizerView, error: ErrorView)
    requires
        !n.finished,
    ensures
        sound(n, n.fail(error)),
        n.fail(error).state.finished,
{
    lemma_error(n, error);
    let s = n.error(error);
    let f = FinishView { reason: FinishReason::Error, raw: None };
    lemma_finish(s.state, f);
    lemma_sequence(n, s, s.state.finish(f));
}

proof fn lemma_on_eof(n: NormalizerView, error: ErrorView)
    ensures
        sound(n, n.on_eof(error)),
        n.on_eof(error).state.finished,
{
    if n.finished {
        lemma_idle(n);
    } else {
        let m = NormalizerView { open: Seq::empty(), ..n };
        lemma_closings(n.open);
        lemma_fail(m, n.enrich(error));
        lemma_sequence(
            n,
            Step { state: m, events: closings(n.open) },
            m.fail(n.enrich(error)),
        );
    }
}

proof fn lemma_replay_part(n: NormalizerView, index: int, part: AssistantPartView)
    requires
        !n.finished,
    ensures
        sound(n, n.replay_part(index, part)),
        !n.replay_part(index, part).state.finished,
{
    let id = crate::text::decimal(index as nat);
    match part {
        AssistantPartView::Text { text, provider_metadata } => {
            let s = n.start_text(id, provider_metadata);
            lemma_start_text(n, id, provider_metadata);
            let t = if text.len() == 0 {
                s.state.idle()
            } else {
                s.state.text_delta(id, text)
            };
            lemma_idle(s.state);
            lemma_text_delta(s.state, id, text);
            lemma_sequence(n, s, t);
            lemma_end_text(t.state, id);
            lemma_sequence(
                n,
                Step { state: t.state, events: s.events + t.events },
                t.state.end_text(id),
            );
        },
        AssistantPartView::Reasoning(part) => {
            let s = n.start_reasoning(id);
            lemma_start_reasoning(n, id);
            let t = if part.visible_text().len() == 0 {
                s.state.idle()
            } else {
                s.state.reasoning_delta(id, part.visible_text())
            };
            lemma_idle(s.state);
            lemma_reasoning_delta(s.state, id, part.visible_text());
            lemma_sequence(n, s, t);
            lemma_end_reasoning(t.state, id, Some(part));
            lemma_sequence(
                n,
                Step { state: t.state, events: s.events + t.events },
                t.state.end_reasoning(id, Some(part)),
            );
        },
        AssistantPartView::ToolCall(call) => {
            let s = n.start_tool(call.call_id, call.name, call.item_id, call.provider_call_id);
            lemma_start_tool(n, call.call_id, call.name, call.item_id, call.provider_call_id);
            let m = s.state.tool_metadata(call.call_id, call.provider_metadata);
            lemma_tool_changes(s.state, call.call_id, call.provider_metadata, None);
            let t = m.tool_delta(call.call_id, call.arguments);
            lemma_tool_delta(m, call.call_id, call.arguments);
            lemma_sequence(n, s, m.idle());
            assert(s.events + Seq::<StreamEventView>::empty() =~= s.events);
            lemma_sequence(n, Step { state: m, events: s.events }, t);
            lemma_tool_changes(t.state, call.call_id, call.provider_metadata, None);
            lemma_sequence(
                n,
                Step { state: t.state, events: s.events + t.events },
                t.state.complete_tool(call.call_id, None).idle(),
            );
            assert(s.events + t.events + Seq::<StreamEventView>::empty() =~= s.events + t.events);
        },
        AssistantPartView::Compaction(part) => {
            lemma_compaction(n, Seq::empty(), part);
        },
        AssistantPartView::ProviderTool { provider_tool } => {
            lemma_provider_tool(
                n,
                match provider_tool.id {
                    Some(id) => id,
                    None => id,
                },
                provider_tool.kind,
                provider_tool,
            );
        },
    }
}

proof fn lemma_replay_parts(n: NormalizerView, content: Seq<AssistantPartView>, k: int)
    requires
        !n.finished,
    ensures
        sound(n, n.replay_parts(content, k)),
        !n.replay_parts(content, k).state.finished,
    decreases k,
{
    if k <= 0 {
        lemma_idle(n);
    } else {
        lemma_replay_parts(n, content, k - 1);
        let s = n.replay_parts(content, k - 1);
        lemma_replay_part(s.state, k - 1, content[k - 1]);
        lemma_sequence(n, s, s.state.replay_part(k - 1, content[k - 1]));
    }
}

proof fn lemma_replay(n: NormalizerView, result: GenerateResultView)
    requires
        !n.finished,
    ensures
        sound(n, n.replay(result)),
        n.replay(result).state.finished,
{
    let e = StreamEventView::ResponseMetadata(
        ResponseMetadataView { request_id: None, ..result.response },
    );
    let identity = if result.response.id is Some || result.response.model is Some {
        n.emit(e)
    } else {
        n.idle()
    };
    lemma_idle(n);
    lemma_aside(n, e);
    let s = n.provider_metadata(result.provider_metadata);
    lemma_aside(n, StreamEventView::ProviderMetadata(result.provider_metadata));
    lemma_sequence(n, identity, s);
    let a = Step { state: s.state, events: identity.events + s.events };
    let t = s.state.replay_parts(result.content, result.content.len() as int);
    lemma_replay_parts(s.state, result.content, result.content.len() as int);
    lemma_sequence(n, a, t);
    let b = Step { state: t.state, events: a.events + t.events };
    let m = t.state.merge_usage(result.usage);
    lemma_finish(m, result.finish);
    assert(sound(t.state, m.finish(result.finish)));
    lemma_sequence(n, b, m.finish(result.finish));
}

/// What a decoder can do to a stream.
#[allow(inconsistent_fields)]
pub enum Action {
    Metadata(ResponseMetadataView),
    StartText { id: Seq<char>, metadata: MetadataView },
    TextDelta { id: Seq<char>, delta: Seq<char> },
    TextMetadata { id: Seq<char>, metadata: MetadataView },
    EndText { id: Seq<char> },
    StartReasoning { id: Seq<char> },
    ReasoningDelta { id: Seq<char>, delta: Seq<char> },
    EndReasoning { id: Seq<char>, part: Option<ReasoningPartView> },
    StartTool {
        call_id: Seq<char>,
        name: Seq<char>,
        item_id: Option<Seq<char>>,
        provider_call_id: Option<Seq<char>>,
    },
    ToolDelta { call_id: Seq<char>, delta: Seq<char> },
    ToolMetadata { call_id: Seq<char>, metadata: MetadataView },
    CompleteTool { call_id: Seq<char>, arguments: Option<Seq<char>> },
    CompactionStart,
    CompactionDelta { delta: Seq<char> },
    CompactionAbort,
    Compaction(CompactionPartView),
    ProviderToolStart { id: Seq<char>, kind: Seq<char> },
    ProviderToolUpdate { id: Seq<char>, status: Seq<char> },
    ProviderToolEnd { id: Seq<char>, part: ProviderToolPartView },
    Citation { text_id: Option<Seq<char>>, citation: CitationView },
    ProviderMetadata(MetadataView),
    RawFrame(Seq<char>),
    Replay(GenerateResultView),
    MergeUsage(Usage),
    Error(ErrorView),
    Fail(ErrorView),
    Finish(FinishView),
    Eof(ErrorView),
}

/// What an action does.
#[verifier::opaque]
pub open spec fn act(n: NormalizerView, action: Action) -> Step {
    match action {
        Action::Metadata(m) => n.emit(StreamEventView::ResponseMetadata(m)),
        Action::StartText { id, metadata } => n.start_text(id, metadata),
        Action::TextDelta { id, delta } => n.text_delta(id, delta),
        Action::TextMetadata { id, metadata } => n.text_metadata(id, metadata).idle(),
        Action::EndText { id } => n.end_text(id),
        Action::StartReasoning { id } => n.start_reasoning(id),
        Action::ReasoningDelta { id, delta } => n.reasoning_delta(id, delta),
        Action::EndReasoning { id, part } => n.end_reasoning(id, part),
        Action::StartTool { call_id, name, item_id, provider_call_id } => n.start_tool(
            call_id,
            name,
            item_id,
            provider_call_id,
        ),
        Action::ToolDelta { call_id, delta } => n.tool_delta(call_id, delta),
        Action::ToolMetadata { call_id, metadata } => n.tool_metadata(call_id, metadata).idle(),
        Action::CompleteTool { call_id, arguments } => n.complete_tool(call_id, arguments).idle(),
        Action::CompactionStart => n.compaction_start(),
        Action::CompactionDelta { delta } => n.compaction_delta(delta),
        Action::CompactionAbort => n.compaction_abort(),
        Action::Compaction(part) => n.compaction(part),
        Action::ProviderToolStart { id, kind } => n.provider_tool_start(id, kind),
        Action::ProviderToolUpdate { id, status } => n.emit(
            StreamEventView::ProviderToolUpdate { id, status },
        ),
        Action::ProviderToolEnd { id, part } => n.provider_tool_end(id, part),
        Action::Citation { text_id, citation } => n.emit(
            StreamEventView::Citation { text_id, citation },
        ),
        Action::ProviderMetadata(m) => n.provider_metadata(m),
        Action::RawFrame(data) => n.raw_frame(data),
        Action::Replay(result) => n.replay(result),
        Action::MergeUsage(usage) => n.merge_usage(usage).idle(),
        Action::Error(error) => n.error(error),
        Action::Fail(error) => n.fail(error),
        Action::Finish(finish) => n.finish(finish),
        Action::Eof(error) => n.on_eof(error),
    }
}

/// Every action on a stream that has not finished keeps the terminal contract.
pub proof fn every_action_is_sound(n: NormalizerView, action: Action)
    requires
        !n.finished,
    ensures
        sound(n, act(n, action)),
{
    reveal(act);
    match action {
        Action::Metadata(m) => lemma_aside(n, StreamEventView::ResponseMetadata(m)),
        Action::StartText { id, metadata } => lemma_start_text(n, id, metadata),
        Action::TextDelta { id, delta } => lemma_text_delta(n, id, delta),
        Action::TextMetadata { id, metadata } => lemma_text_metadata(n, id, metadata),
        Action::EndText { id } => lemma_end_text(n, id),
        Action::StartReasoning { id } => lemma_start_reasoning(n, id),
        Action::ReasoningDelta { id, delta } => lemma_reasoning_delta(n, id, delta),
        Action::EndReasoning { id, part } => lemma_end_reasoning(n, id, part),
        Action::StartTool { call_id, name, item_id, provider_call_id } => lemma_start_tool(
            n,
            call_id,
            name,
            item_id,
            provider_call_id,
        ),
        Action::ToolDelta { call_id, delta } => lemma_tool_delta(n, call_id, delta),
        Action::ToolMetadata { call_id, metadata } => lemma_tool_changes(
            n,
            call_id,
            metadata,
            None,
        ),
        Action::CompleteTool { call_id, arguments } => lemma_tool_changes(
            n,
            call_id,
            crate::metadata::no_metadata(),
            arguments,
        ),
        Action::CompactionStart => lemma_compaction(n, Seq::empty(), arbitrary()),
        Action::CompactionDelta { delta } => lemma_compaction(n, delta, arbitrary()),
        Action::CompactionAbort => lemma_compaction(n, Seq::empty(), arbitrary()),
        Action::Compaction(part) => lemma_compaction(n, Seq::empty(), part),
        Action::ProviderToolStart { id, kind } => lemma_provider_tool(n, id, kind, arbitrary()),
        Action::ProviderToolUpdate { id, status } => lemma_aside(
            n,
            StreamEventView::ProviderToolUpdate { id, status },
        ),
        Action::ProviderToolEnd { id, part } => lemma_provider_tool(n, id, part.kind, part),
        Action::Citation { text_id, citation } => lemma_aside(
            n,
            StreamEventView::Citation { text_id, citation },
        ),
        Action::ProviderMetadata(m) => {
            lemma_idle(n);
            lemma_aside(n, StreamEventView::ProviderMetadata(m));
        },
        Action::RawFrame(data) => {
            lemma_idle(n);
            if let Ok(value) = json_parse(data) {
                lemma_aside(n, StreamEventView::Raw { value });
            }
        },
        Action::Replay(result) => lemma_replay(n, result),
        Action::MergeUsage(usage) => lemma_idle(n),
        Action::Error(error) => lemma_error(n, error),
        Action::Fail(error) => lemma_fail(n, error),
        Action::Finish(finish) => lemma_finish(n, finish),
        Action::Eof(error) => lemma_on_eof(n, error),
    }
}

/// The events of a stream to which some actions happened: after the terminal
/// event there is nothing more.
pub open spec fn run(n: NormalizerView, actions: Seq<Action>) -> Step
    decreases actions.len(),
{
    if actions.len() == 0 {
        n.idle()
    } else {
        let s = run(n, actions.drop_last());
        if s.state.finished {
            s
        } else {
            let t = act(s.state, actions.last());
            Step { state: t.state, events: s.events + t.events }
        }
    }
}

/// Running some actions and then some more is running all of them.
pub proof fn running_in_parts(n: NormalizerView, a: Seq<Action>, b: Seq<Action>)
    ensures
        run(n, a + b).state == run(run(n, a).state, b).state,
        run(n, a + b).events == run(n, a).events + run(run(n, a).state, b).events,
    decreases b.len(),
{
    let first = run(n, a);
    if b.len() == 0 {
        assert(a + b =~= a);
        assert(first.events + Seq::<StreamEventView>::empty() =~= first.events);
    } else {
        running_in_parts(n, a, b.drop_last());
        assert((a + b).drop_last() =~= a + b.drop_last());
        let s = run(first.state, b.drop_last());
        if !s.state.finished {
            let t = act(s.state, b.last());
            assert(first.events + s.events + t.events =~= first.events + (s.events + t.events));
        }
    }
}

/// A stream at its start.
pub open spec fn is_fresh(n: NormalizerView) -> bool {
    n.open.len() == 0 && !n.finished && !n.errored
}

/// The terminal contract: whatever a decoder does, blocks start, go on and end
/// in order. Once the stream has finished, every block that started has ended;
/// there is exactly one terminal event, and it is the last event; and where an
/// error was reported, exactly one, the terminal event says so. Every tool call
/// has JSON arguments and comes right after the end of its block.
pub proof fn terminal_contract(n: NormalizerView, actions: Seq<Action>)
    requires
        is_fresh(n),
    ensures
        sound(n, run(n, actions)),
        run(n, actions).state.finished ==> {
            let events = run(n, actions).events;
            &&& follow_all(Multiset::empty(), events, Multiset::<Block>::empty())
            &&& finish_count(events) == 1
            &&& events.last() is Finish
            &&& error_count(events) <= 1
            &&& error_count(events) == 1 ==> events.last()->finish.reason is Error
            &&& calls_in_order(events)
        },
    decreases actions.len(),
{
    if actions.len() == 0 {
        lemma_idle(n);
    } else {
        terminal_contract(n, actions.drop_last());
        let s = run(n, actions.drop_last());
        if !s.state.finished {
            every_action_is_sound(s.state, actions.last());
            lemma_sequence(n, s, act(s.state, actions.last()));
        }
    }
    lemma_nothing_open(n.open);
    lemma_nothing_open(run(n, actions).state.open);
}

pub proof fn lemma_nothing_open(open: Seq<OpenBlockView>)
    ensures
        open.len() == 0 ==> blocks(open) == Multiset::<Block>::empty(),
{
    broadcast use vstd::seq_lib::group_to_multiset_ensures;

    if open.len() == 0 {
        let f = |b: OpenBlockView| block_of(b);
        assert(open.map_values(f) =~= Seq::empty());
        assert(blocks(open) =~= Multiset::<Block>::empty());
    }
}

/// Finishing ends the stream, whatever is open; and a stream that has finished
/// yields nothing when it is finished again or its source ends.
pub proof fn finishing_is_final(n: NormalizerView, finish: FinishView, error: ErrorView)
    ensures
        n.finish(finish).state.finished,
        n.on_eof(error).state.finished,
        n.finish(finish).state.finish(finish).events.len() == 0,
        n.finish(finish).state.on_eof(error).events.len() == 0,
{
    lemma_finish(n, finish);
    lemma_on_eof(n, error);
}

/// A tool call that comes out was completed by the provider; none comes out
/// where the finish discards calls, after an error, or at a truncation.
pub proof fn calls_are_completed(n: NormalizerView, finish: FinishView, error: ErrorView)
    requires
        !n.finished,
    ensures
        forall|k: int|
            0 <= k < n.finish(finish).events.len() && (#[trigger] n.finish(
                finish,
            ).events[k]) is ToolCall ==> exists|j: int|
                0 <= j < n.open.len() && is_complete_tool(#[trigger] n.open[j]) && completed_call(
                    n.open[j],
                ) == n.finish(finish).events[k]->ToolCall_0,
        n.errored || finish.reason.discards() ==> call_count(n.finish(finish).events) == 0,
        call_count(n.on_eof(error).events) == 0,
        call_count(n.fail(error).events) == 0,
{
    let s = if !n.errored && !finish.reason.discards() {
        n.promote_from(0)
    } else {
        n.idle()
    };
    lemma_promote_from(n, 0);
    lemma_closings(s.state.open);
    lemma_no_events(blocks(n.open));
    let t = n.finish(finish);
    let c = closings(s.state.open);
    let f = t.events.last();
    lemma_concat(blocks(n.open), s.events, c);
    lemma_one_event(blocks(n.open), f);
    lemma_concat(blocks(n.open), s.events + c, seq![f]);
    assert(t.events =~= s.events + c + seq![f]);
    lemma_calls_absent(c);
    assert forall|k: int| 0 <= k < t.events.len() && (#[trigger] t.events[k]) is ToolCall implies exists|
        j: int,
    |
        0 <= j < n.open.len() && is_complete_tool(#[trigger] n.open[j]) && completed_call(n.open[j])
            == t.events[k]->ToolCall_0 by {
        if k < s.events.len() {
            assert(s.events[k] is ToolCall);
        } else if k < s.events.len() + c.len() {
            assert(c[k - s.events.len()] == t.events[k]);
        }
    }
    lemma_failing_calls(n, error);
    let m = NormalizerView { open: Seq::empty(), ..n };
    lemma_failing_calls(m, n.enrich(error));
    lemma_closings(n.open);
    lemma_concat(blocks(n.open), closings(n.open), m.fail(n.enrich(error)).events);
}

proof fn lemma_failing_calls(n: NormalizerView, error: ErrorView)
    ensures
        call_count(n.fail(error).events) == 0,
{
    let s = n.error(error);
    let t = s.state.finish(FinishView { reason: FinishReason::Error, raw: None });
    lemma_no_events(blocks(n.open));
    if !n.errored {
        lemma_one_event(blocks(n.open), s.events[0]);
        assert(s.events =~= seq![s.events[0]]);
    }
    lemma_concat(blocks(n.open), s.events, t.events);
    if !s.state.finished {
        let c = closings(s.state.open);
        let f = t.events.last();
        lemma_closings(s.state.open);
        lemma_one_event(blocks(n.open), f);
        lemma_concat(blocks(n.open), c, seq![f]);
        assert(t.events =~= c + seq![f]);
    }
}

} // verus!
