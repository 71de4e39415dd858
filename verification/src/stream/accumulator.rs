//! Folding stream events into a result.
use vstd::prelude::*;

use super::event::{StreamEvent, StreamEventView};
use crate::error::{new_error, Error, ErrorKind, ErrorView};
use crate::message::{AssistantPart, AssistantPartView, ToolCall, ToolCallView};
use crate::metadata::{no_metadata, MetadataView, ProviderMetadata};
use crate::model::{opt, views};
use crate::response::{
    no_response_metadata, Finish, FinishView, GenerateResult, GenerateResultView,
    ResponseMetadata, ResponseMetadataView, Warning, WarningView,
};
use crate::text::same;
use crate::usage::{no_usage, Usage};
use crate::util::merge_objects;

verus! {

broadcast use crate::model::group_views;

/// Folds stream events into a [`GenerateResult`].
///
/// Useful when you want to forward events (e.g. to a UI) while also building
/// the assistant message for history replay.
#[derive(Debug)]
pub struct StreamAccumulator {
    collected: Collected,
}

/// What an accumulator holds.
#[derive(Debug)]
struct Collected {
    content: Vec<AssistantPart>,
    /// Content position of each open text block.
    open_text: Vec<Slot>,
    /// Original content position of each open tool block.
    open_tools: Vec<Slot>,
    warnings: Vec<Warning>,
    metadata: ResponseMetadata,
    finish: Option<Finish>,
    usage: Usage,
    error: Option<Error>,
    provider_metadata: ProviderMetadata,
}

/// The content position of an open block.
#[derive(Debug)]
struct Slot {
    id: String,
    index: usize,
}

/// The content position of an open block.
#[verifier::ext_equal]
pub struct SlotView {
    pub id: Seq<char>,
    pub index: int,
}

/// What has been accumulated.
#[verifier::ext_equal]
pub struct AccumulatorView {
    pub content: Seq<AssistantPartView>,
    pub open_text: Seq<SlotView>,
    pub open_tools: Seq<SlotView>,
    pub warnings: Seq<WarningView>,
    pub metadata: ResponseMetadataView,
    pub finish: Option<FinishView>,
    pub usage: Usage,
    pub error: Option<ErrorView>,
    pub provider_metadata: MetadataView,
}

impl View for Slot {
    type V = SlotView;

    closed spec fn view(&self) -> SlotView {
        SlotView { id: self.id@, index: self.index as int }
    }
}

impl View for StreamAccumulator {
    type V = AccumulatorView;

    closed spec fn view(&self) -> AccumulatorView {
        self.collected@
    }
}

impl View for Collected {
    type V = AccumulatorView;

    closed spec fn view(&self) -> AccumulatorView {
        AccumulatorView {
            content: views(self.content@),
            open_text: views(self.open_text@),
            open_tools: views(self.open_tools@),
            warnings: views(self.warnings@),
            metadata: self.metadata@,
            finish: opt(self.finish),
            usage: self.usage,
            error: opt(self.error),
            provider_metadata: self.provider_metadata@,
        }
    }
}

/// Nothing accumulated yet.
pub open spec fn nothing_accumulated() -> AccumulatorView {
    AccumulatorView {
        content: Seq::empty(),
        open_text: Seq::empty(),
        open_tools: Seq::empty(),
        warnings: Seq::empty(),
        metadata: no_response_metadata(),
        finish: None,
        usage: no_usage(),
        error: None,
        provider_metadata: no_metadata(),
    }
}

/// The first slot of a block, at or after a position.
pub open spec fn slot_from(slots: Seq<SlotView>, id: Seq<char>, i: int) -> Option<int>
    decreases slots.len() - i,
{
    if i < 0 || i >= slots.len() {
        None
    } else if slots[i].id == id {
        Some(i)
    } else {
        slot_from(slots, id, i + 1)
    }
}

/// The first slot of a block.
pub open spec fn slot_of(slots: Seq<SlotView>, id: Seq<char>) -> Option<int> {
    slot_from(slots, id, 0)
}

/// The slots after something was inserted at a position: the slots at and
/// after it have moved up.
pub open spec fn moved_up(slots: Seq<SlotView>, index: int) -> Seq<SlotView> {
    Seq::new(
        slots.len(),
        |i: int|
            SlotView {
                id: slots[i].id,
                index: if slots[i].index >= index {
                    slots[i].index + 1
                } else {
                    slots[i].index
                },
            },
    )
}

/// The slots after the part at a position was removed: the slots after it have
/// moved down.
pub open spec fn moved_down(slots: Seq<SlotView>, index: int) -> Seq<SlotView> {
    Seq::new(
        slots.len(),
        |i: int|
            SlotView {
                id: slots[i].id,
                index: if slots[i].index > index {
                    slots[i].index - 1
                } else {
                    slots[i].index
                },
            },
    )
}

/// The later of two optional texts, where it is there.
pub open spec fn newer(old: Option<Seq<char>>, new: Option<Seq<char>>) -> Option<Seq<char>> {
    if new is Some {
        new
    } else {
        old
    }
}

impl AccumulatorView {
    /// Every slot is a position in the content, or its end.
    pub open spec fn wf(self) -> bool {
        &&& forall|i: int|
            0 <= i < self.open_text.len() ==> 0 <= (#[trigger] self.open_text[i]).index
                <= self.content.len()
        &&& forall|i: int|
            0 <= i < self.open_tools.len() ==> 0 <= (#[trigger] self.open_tools[i]).index
                <= self.content.len()
    }

    /// One more part at the end.
    pub open spec fn with_part(self, part: AssistantPartView) -> AccumulatorView {
        AccumulatorView { content: self.content.push(part), ..self }
    }

    /// Where a completed call lands: where its block started, or at the end.
    pub open spec fn call_position(self, call_id: Seq<char>) -> int {
        match slot_of(self.open_tools, call_id) {
            Some(i) => self.open_tools[i].index,
            None => self.content.len() as int,
        }
    }

    /// A completed call.
    pub open spec fn with_call(self, call: ToolCallView) -> AccumulatorView {
        let index = self.call_position(call.call_id);
        AccumulatorView {
            content: self.content.insert(index, AssistantPartView::ToolCall(call)),
            open_text: moved_up(self.open_text, index),
            open_tools: moved_up(
                match slot_of(self.open_tools, call.call_id) {
                    Some(i) => self.open_tools.remove(i),
                    None => self.open_tools,
                },
                index,
            ),
            ..self
        }
    }

    /// More text for an open text block.
    pub open spec fn with_text(self, id: Seq<char>, delta: Seq<char>) -> AccumulatorView {
        match slot_of(self.open_text, id) {
            Some(i) => {
                let index = self.open_text[i].index;
                if index < self.content.len() {
                    match self.content[index] {
                        AssistantPartView::Text { text, provider_metadata } => AccumulatorView {
                            content: self.content.update(
                                index,
                                AssistantPartView::Text { text: text + delta, provider_metadata },
                            ),
                            ..self
                        },
                        _ => self,
                    }
                } else {
                    self
                }
            },
            None => self,
        }
    }

    /// The end of the text part at a position: its extras are merged, and a
    /// part that has neither text nor extras is dropped.
    pub open spec fn close_text(self, index: int, metadata: MetadataView) -> AccumulatorView {
        if 0 <= index < self.content.len() {
            match self.content[index] {
                AssistantPartView::Text { text, provider_metadata } => {
                    let merged = merge_objects(provider_metadata, metadata);
                    if text.len() > 0 || merged != no_metadata() {
                        AccumulatorView {
                            content: self.content.update(
                                index,
                                AssistantPartView::Text { text, provider_metadata: merged },
                            ),
                            ..self
                        }
                    } else {
                        AccumulatorView {
                            content: self.content.remove(index),
                            open_text: moved_down(self.open_text, index),
                            open_tools: moved_down(self.open_tools, index),
                            ..self
                        }
                    }
                },
                _ => self,
            }
        } else {
            self
        }
    }

    /// The end of an open text block.
    pub open spec fn end_text(self, id: Seq<char>, metadata: MetadataView) -> AccumulatorView {
        match slot_of(self.open_text, id) {
            Some(i) => AccumulatorView {
                open_text: self.open_text.remove(i),
                ..self
            }.close_text(self.open_text[i].index, metadata),
            None => self,
        }
    }

    /// What has been accumulated after one more event.
    pub open spec fn next(self, event: StreamEventView) -> AccumulatorView {
        match event {
            StreamEventView::StreamStart { warnings } => AccumulatorView {
                warnings: self.warnings + warnings,
                ..self
            },
            StreamEventView::ResponseMetadata(m) => AccumulatorView {
                metadata: ResponseMetadataView {
                    id: newer(self.metadata.id, m.id),
                    model: newer(self.metadata.model, m.model),
                    request_id: newer(self.metadata.request_id, m.request_id),
                },
                ..self
            },
            StreamEventView::TextStart { id, .. } => AccumulatorView {
                content: self.content.push(
                    AssistantPartView::Text {
                        text: Seq::empty(),
                        provider_metadata: no_metadata(),
                    },
                ),
                open_text: self.open_text.push(
                    SlotView { id, index: self.content.len() as int },
                ),
                ..self
            },
            StreamEventView::TextDelta { id, delta } => self.with_text(id, delta),
            StreamEventView::TextEnd { id, provider_metadata } => self.end_text(
                id,
                provider_metadata,
            ),
            StreamEventView::ReasoningEnd { part, .. } => self.with_part(
                AssistantPartView::Reasoning(part),
            ),
            StreamEventView::ToolInputStart { call_id, .. } => AccumulatorView {
                open_tools: self.open_tools.push(
                    SlotView { id: call_id, index: self.content.len() as int },
                ),
                ..self
            },
            StreamEventView::ToolCall(call) => self.with_call(call),
            StreamEventView::Compaction(part) => self.with_part(
                AssistantPartView::Compaction(part),
            ),
            StreamEventView::ProviderToolEnd(part) => self.with_part(
                AssistantPartView::ProviderTool { provider_tool: part },
            ),
            StreamEventView::ProviderMetadata(metadata) => AccumulatorView {
                provider_metadata: merge_objects(self.provider_metadata, metadata),
                ..self
            },
            StreamEventView::Error { error } => AccumulatorView {
                error: if self.error is None {
                    Some(error)
                } else {
                    self.error
                },
                ..self
            },
            StreamEventView::Finish { finish, usage } => AccumulatorView {
                finish: Some(finish),
                usage: self.usage.merged(usage),
                ..self
            },
            _ => self,
        }
    }

    /// What has been accumulated after some events.
    pub open spec fn after(self, events: Seq<StreamEventView>) -> AccumulatorView
        decreases events.len(),
    {
        if events.len() == 0 {
            self
        } else {
            self.after(events.drop_last()).next(events.last())
        }
    }

    /// The result: the first error, the absence of a terminal event, or the
    /// collected parts.
    pub open spec fn result(self) -> Result<GenerateResultView, ErrorView> {
        match self.error {
            Some(error) => Err(error),
            None => match self.finish {
                Some(finish) => Ok(
                    GenerateResultView {
                        content: self.content,
                        finish,
                        usage: self.usage,
                        warnings: self.warnings,
                        response: self.metadata,
                        provider_metadata: self.provider_metadata,
                    },
                ),
                None => Err(
                    ErrorView {
                        model: self.metadata.model,
                        request_id: self.metadata.request_id,
                        ..new_error(
                            ErrorKind::TruncatedStream,
                            "stream accumulation ended without a finish event"@,
                        )
                    },
                ),
            },
        }
    }
}

pub proof fn lemma_slot(slots: Seq<SlotView>, id: Seq<char>, i: int)
    requires
        0 <= i,
    ensures
        match slot_from(slots, id, i) {
            Some(p) => i <= p < slots.len() && slots[p].id == id && forall|j: int|
                i <= j < p ==> (#[trigger] slots[j]).id != id,
            None => forall|j: int| i <= j < slots.len() ==> (#[trigger] slots[j]).id != id,
        },
    decreases slots.len() - i,
{
    if i < slots.len() && slots[i].id != id {
        lemma_slot(slots, id, i + 1);
    }
}

/// Whatever comes, every slot stays a position in the content, or its end.
pub proof fn slots_stay_in_range(a: AccumulatorView, event: StreamEventView)
    requires
        a.wf(),
    ensures
        a.next(event).wf(),
{
    let b = a.next(event);
    if let StreamEventView::TextDelta { id, .. } = event {
        lemma_slot(a.open_text, id, 0);
        if let Some(p) = slot_of(a.open_text, id) {
            assert(0 <= a.open_text[p].index <= a.content.len());
        }
    }
    match event {
        StreamEventView::ToolCall(call) => {
            lemma_slot(a.open_tools, call.call_id, 0);
            assert forall|i: int| 0 <= i < b.open_text.len() implies 0 <= (
            #[trigger] b.open_text[i]).index <= b.content.len() by {
                assert(a.open_text[i].index <= a.content.len());
            }
            assert forall|i: int| 0 <= i < b.open_tools.len() implies 0 <= (
            #[trigger] b.open_tools[i]).index <= b.content.len() by {
                let o = match slot_of(a.open_tools, call.call_id) {
                    Some(p) => if i < p {
                        i
                    } else {
                        i + 1
                    },
                    None => i,
                };
                assert(a.open_tools[o].index <= a.content.len());
            }
        },
        StreamEventView::TextEnd { id, .. } => {
            lemma_slot(a.open_text, id, 0);
            if let Some(p) = slot_of(a.open_text, id) {
                assert(a.open_text[p].index <= a.content.len());
                assert forall|i: int| 0 <= i < b.open_text.len() implies 0 <= (
                #[trigger] b.open_text[i]).index <= b.content.len() by {
                    let o = if i < p {
                        i
                    } else {
                        i + 1
                    };
                    assert(a.open_text[o].index <= a.content.len());
                }
                assert forall|i: int| 0 <= i < b.open_tools.len() implies 0 <= (
                #[trigger] b.open_tools[i]).index <= b.content.len() by {
                    assert(a.open_tools[i].index <= a.content.len());
                }
            }
        },
        _ => {
            assert forall|i: int| 0 <= i < b.open_text.len() implies 0 <= (
            #[trigger] b.open_text[i]).index <= b.content.len() by {
                if i < a.open_text.len() {
                    assert(a.open_text[i].index <= a.content.len());
                }
            }
            assert forall|i: int| 0 <= i < b.open_tools.len() implies 0 <= (
            #[trigger] b.open_tools[i]).index <= b.content.len() by {
                if i < a.open_tools.len() {
                    assert(a.open_tools[i].index <= a.content.len());
                }
            }
        },
    }
}

/// Whether an open text block's slot holds a text part, for every one, and no
/// two of them share it.
pub open spec fn text_slots_hold_text(a: AccumulatorView) -> bool {
    &&& forall|i: int|
        0 <= i < a.open_text.len() ==> 0 <= (#[trigger] a.open_text[i]).index < a.content.len()
            && a.content[a.open_text[i].index] is Text
    &&& forall|i: int, j: int|
        0 <= i < j < a.open_text.len() ==> (#[trigger] a.open_text[i]).index != (
        #[trigger] a.open_text[j]).index
}

/// Whatever comes, the slot of every open text block holds its text part.
pub proof fn text_slots_stay_on_text(a: AccumulatorView, event: StreamEventView)
    requires
        a.wf(),
        text_slots_hold_text(a),
    ensures
        text_slots_hold_text(a.next(event)),
{
    let b = a.next(event);
    if let StreamEventView::TextDelta { id, .. } = event {
        lemma_slot(a.open_text, id, 0);
        if let Some(p) = slot_of(a.open_text, id) {
            assert(0 <= a.open_text[p].index <= a.content.len());
        }
    }
    match event {
        StreamEventView::ToolCall(call) => {
            lemma_slot(a.open_tools, call.call_id, 0);
            let index = a.call_position(call.call_id);
            assert forall|i: int| 0 <= i < b.open_text.len() implies 0 <= (
            #[trigger] b.open_text[i]).index < b.content.len()
                && b.content[b.open_text[i].index] is Text by {
                assert(a.content[a.open_text[i].index] is Text);
            }
            assert forall|i: int, j: int| 0 <= i < j < b.open_text.len() implies (
            #[trigger] b.open_text[i]).index != (#[trigger] b.open_text[j]).index by {
                assert(a.open_text[i].index != a.open_text[j].index);
            }
        },
        StreamEventView::TextEnd { id, provider_metadata } => {
            lemma_slot(a.open_text, id, 0);
            if let Some(p) = slot_of(a.open_text, id) {
                let index = a.open_text[p].index;
                let rest = a.open_text.remove(p);
                assert forall|i: int| 0 <= i < rest.len() implies (#[trigger] rest[i]).index
                    != index && 0 <= rest[i].index < a.content.len()
                    && a.content[rest[i].index] is Text by {
                    let o = if i < p {
                        i
                    } else {
                        i + 1
                    };
                    assert(rest[i] == a.open_text[o]);
                    if o < p {
                        assert(a.open_text[o].index != a.open_text[p].index);
                    } else {
                        assert(a.open_text[p].index != a.open_text[o].index);
                    }
                }
                assert forall|i: int, j: int| 0 <= i < j < rest.len() implies (
                #[trigger] rest[i]).index != (#[trigger] rest[j]).index by {
                    let o = if i < p {
                        i
                    } else {
                        i + 1
                    };
                    let q = if j < p {
                        j
                    } else {
                        j + 1
                    };
                    assert(a.open_text[o].index != a.open_text[q].index);
                }
                if b.open_text.len() == rest.len() {
                    assert forall|i: int| 0 <= i < b.open_text.len() implies 0 <= (
                    #[trigger] b.open_text[i]).index < b.content.len()
                        && b.content[b.open_text[i].index] is Text by {
                        assert(rest[i].index != index);
                    }
                    assert forall|i: int, j: int| 0 <= i < j < b.open_text.len() implies (
                    #[trigger] b.open_text[i]).index != (#[trigger] b.open_text[j]).index by {
                        assert(rest[i].index != rest[j].index);
                    }
                }
            }
        },
        _ => {
            assert forall|i: int| 0 <= i < b.open_text.len() implies 0 <= (
            #[trigger] b.open_text[i]).index < b.content.len()
                && b.content[b.open_text[i].index] is Text by {
                if i < a.open_text.len() {
                    assert(a.content[a.open_text[i].index] is Text);
                }
            }
            assert forall|i: int, j: int| 0 <= i < j < b.open_text.len() implies (
            #[trigger] b.open_text[i]).index != (#[trigger] b.open_text[j]).index by {
                if j < a.open_text.len() {
                    assert(a.open_text[i].index != a.open_text[j].index);
                } else {
                    assert(a.open_text[i].index < a.content.len());
                }
            }
        },
    }
}

/// A completed call lands where its block started: what was there when the
/// block started stays before it, in order, and what came later stays after it.
pub proof fn calls_land_where_their_block_started(a: AccumulatorView, call: ToolCallView)
    requires
        a.wf(),
    ensures
        ({
            let p = a.call_position(call.call_id);
            let b = a.next(StreamEventView::ToolCall(call));
            &&& 0 <= p <= a.content.len()
            &&& b.content == a.content.take(p).push(AssistantPartView::ToolCall(call))
                + a.content.skip(p)
        }),
        a.next(
            StreamEventView::ToolInputStart {
                call_id: call.call_id,
                name: call.name,
                item_id: call.item_id,
                provider_call_id: call.provider_call_id,
            },
        ).open_tools.last().index == a.content.len(),
{
    lemma_slot(a.open_tools, call.call_id, 0);
    let p = a.call_position(call.call_id);
    let b = a.next(StreamEventView::ToolCall(call));
    assert(b.content =~= a.content.take(p).push(AssistantPartView::ToolCall(call))
        + a.content.skip(p));
}

/// The first error of a stream is the result, whatever else comes.
pub proof fn the_first_error_wins(a: AccumulatorView, event: StreamEventView)
    ensures
        a.error is Some ==> a.next(event).result() == Err::<GenerateResultView, ErrorView>(
            a.error->0,
        ),
{
}

fn slot_position(slots: &Vec<Slot>, id: &str) -> (r: Option<usize>)
    ensures
        match r {
            Some(i) => i < slots@.len() && slot_of(views(slots@), id@) == Some(i as int),
            None => slot_of(views(slots@), id@) is None,
        },
{
    let mut i: usize = 0;
    while i < slots.len()
        invariant
            i <= slots@.len(),
            slot_of(views(slots@), id@) == slot_from(views(slots@), id@, i as int),
        decreases slots@.len() - i,
    {
        if same(slots[i].id.as_str(), id) {
            return Some(i);
        }
        i += 1;
    }
    None
}

fn move_up(slots: &mut Vec<Slot>, index: usize, len: usize)
    requires
        forall|i: int| 0 <= i < old(slots)@.len() ==> (#[trigger] old(slots)@[i]).index < len,
    ensures
        views(final(slots)@) == moved_up(views(old(slots)@), index as int),
{
    let ghost start = slots@;
    let mut i: usize = 0;
    while i < slots.len()
        invariant
            i <= slots@.len(),
            slots@.len() == start.len(),
            forall|k: int| 0 <= k < start.len() ==> (#[trigger] start[k]).index < len,
            forall|k: int| i <= k < start.len() ==> #[trigger] slots@[k] == start[k],
            forall|k: int|
                0 <= k < i ==> (#[trigger] slots@[k])@ == moved_up(views(start), index as int)[k],
        decreases slots@.len() - i,
    {
        assert(slots@[i as int] == start[i as int]);
        if slots[i].index >= index {
            let at: usize = slots[i].index;
            slots[i].index = at + 1;
        }
        i += 1;
    }
    assert(views(slots@) =~= moved_up(views(start), index as int));
}

fn move_down(slots: &mut Vec<Slot>, index: usize)
    ensures
        views(final(slots)@) == moved_down(views(old(slots)@), index as int),
{
    let ghost start = slots@;
    let mut i: usize = 0;
    while i < slots.len()
        invariant
            i <= slots@.len(),
            slots@.len() == start.len(),
            forall|k: int| i <= k < start.len() ==> #[trigger] slots@[k] == start[k],
            forall|k: int|
                0 <= k < i ==> (#[trigger] slots@[k])@ == moved_down(views(start), index as int)[k],
        decreases slots@.len() - i,
    {
        assert(slots@[i as int] == start[i as int]);
        if slots[i].index > index {
            let at: usize = slots[i].index;
            slots[i].index = at - 1;
        }
        i += 1;
    }
    assert(views(slots@) =~= moved_down(views(start), index as int));
}

impl Collected {
    fn new() -> (r: Collected)
        ensures
            r@ == nothing_accumulated(),
            r@.wf(),
    {
        Collected {
            content: Vec::new(),
            open_text: Vec::new(),
            open_tools: Vec::new(),
            warnings: Vec::new(),
            metadata: ResponseMetadata::default(),
            finish: None,
            usage: Usage::default(),
            error: None,
            provider_metadata: ProviderMetadata::new(),
        }
    }

    /// Place a completed call where its block started, shifting the slots
    /// recorded after that position.
    fn insert_tool_call(&mut self, call: ToolCall)
        requires
            old(self)@.wf(),
        ensures
            final(self)@ == old(self)@.with_call(call@),
    {
        let ghost before = self@;
        proof {
            lemma_slot(self@.open_tools, call.call_id@, 0);
        }
        let index: usize = match slot_position(&self.open_tools, call.call_id.as_str()) {
            Some(position) => {
                assert(before.open_tools[position as int] == self.open_tools@[position as int]@);
                let slot: Slot = self.open_tools.remove(position);
                slot.index
            },
            None => self.content.len(),
        };
        let ghost tools = views(self.open_tools@);
        assert(index == before.call_position(call.call_id@));
        self.content.insert(index, AssistantPart::ToolCall(call));
        assert(views(self.content@) =~= before.content.insert(
            index as int,
            AssistantPartView::ToolCall(call@),
        ));
        let len: usize = self.content.len();
        assert forall|i: int| 0 <= i < self.open_text@.len() implies (
        #[trigger] self.open_text@[i]).index < len by {
            assert(before.open_text[i] == self.open_text@[i]@);
        }
        assert forall|i: int| 0 <= i < self.open_tools@.len() implies (
        #[trigger] self.open_tools@[i]).index < len by {
            assert(tools[i] == self.open_tools@[i]@);
        }
        move_up(&mut self.open_text, index, len);
        move_up(&mut self.open_tools, index, len);
        assert(self@ =~= before.with_call(call@));
    }

    /// Merge end-of-block metadata and drop text blocks that never produced
    /// output, which providers such as Anthropic reject on replay.
    fn close_text(&mut self, index: usize, provider_metadata: ProviderMetadata)
        ensures
            final(self)@ == old(self)@.close_text(index as int, provider_metadata@),
    {
        let ghost before = self@;
        if index >= self.content.len() {
            return ;
        }
        let mut drop_part: bool = false;
        let ghost metadata = provider_metadata@;
        match &mut self.content[index] {
            AssistantPart::Text { text, provider_metadata: existing } => {
                existing.merge(provider_metadata);
                drop_part = text.as_str().is_empty() && existing.is_empty();
            },
            _ => {
                assert(self@ =~= before);
                return ;
            },
        }
        let ghost old_part = before.content[index as int];
        let ghost new_part = AssistantPartView::Text {
            text: old_part->Text_text,
            provider_metadata: merge_objects(old_part->Text_provider_metadata, metadata),
        };
        assert(views(self.content@) =~= before.content.update(index as int, new_part));
        if drop_part {
            let _ = self.content.remove(index);
            assert(views(self.content@) =~= before.content.remove(index as int));
            move_down(&mut self.open_text, index);
            move_down(&mut self.open_tools, index);
        }
        assert(self@ =~= before.close_text(index as int, metadata));
    }

    /// Takes in one more event.
    fn push(&mut self, event: StreamEvent)
        requires
            old(self)@.wf(),
        ensures
            final(self)@ == old(self)@.next(event@),
            final(self)@.wf(),
    {
        let ghost before = self@;
        let ghost e = event@;
        proof {
            slots_stay_in_range(before, e);
        }
        match event {
            StreamEvent::StreamStart { warnings } => {
                let mut more: Vec<Warning> = warnings;
                self.warnings.append(&mut more);
            },
            StreamEvent::ResponseMetadata(metadata) => {
                if metadata.id.is_some() {
                    self.metadata.id = metadata.id;
                }
                if metadata.model.is_some() {
                    self.metadata.model = metadata.model;
                }
                if metadata.request_id.is_some() {
                    self.metadata.request_id = metadata.request_id;
                }
            },
            StreamEvent::TextStart { id, .. } => {
                let index: usize = self.content.len();
                self.content.push(
                    AssistantPart::Text {
                        text: String::new(),
                        provider_metadata: ProviderMetadata::new(),
                    },
                );
                self.open_text.push(Slot { id, index });
            },
            StreamEvent::TextDelta { id, delta } => {
                if let Some(position) = slot_position(&self.open_text, id.as_str()) {
                    let index: usize = self.open_text[position].index;
                    assert(before.open_text[position as int] == self.open_text@[position as int]@);
                    if index < self.content.len() {
                        if let AssistantPart::Text { text, .. } = &mut self.content[index] {
                            text.append(delta.as_str());
                        }
                        assert(views(self.content@) =~= before.with_text(id@, delta@).content);
                    }
                }
            },
            StreamEvent::TextEnd { id, provider_metadata } => {
                if let Some(position) = slot_position(&self.open_text, id.as_str()) {
                    assert(before.open_text[position as int] == self.open_text@[position as int]@);
                    let slot: Slot = self.open_text.remove(position);
                    self.close_text(slot.index, provider_metadata);
                }
            },
            StreamEvent::ReasoningStart { .. } | StreamEvent::ReasoningDelta { .. } => {},
            StreamEvent::ReasoningEnd { part, .. } => {
                self.content.push(AssistantPart::Reasoning(part));
            },
            StreamEvent::ToolInputStart { call_id, .. } => {
                let index: usize = self.content.len();
                self.open_tools.push(Slot { id: call_id, index });
            },
            StreamEvent::ToolInputDelta { .. } | StreamEvent::ToolInputEnd { .. } => {},
            StreamEvent::ToolCall(call) => self.insert_tool_call(call),
            StreamEvent::CompactionStart | StreamEvent::CompactionDelta { .. }
            | StreamEvent::CompactionAbort => {},
            StreamEvent::Compaction(part) => {
                self.content.push(AssistantPart::Compaction(part));
            },
            StreamEvent::ProviderToolStart { .. } | StreamEvent::ProviderToolUpdate { .. }
            | StreamEvent::ProviderToolAbort { .. } => {},
            StreamEvent::ProviderToolEnd(part) => {
                self.content.push(AssistantPart::ProviderTool { provider_tool: part });
            },
            StreamEvent::Citation { .. } => {},
            StreamEvent::ProviderMetadata(metadata) => {
                self.provider_metadata.merge(metadata);
            },
            StreamEvent::Raw { .. } => {},
            StreamEvent::Error { error } => {
                if self.error.is_none() {
                    self.error = Some(error);
                }
            },
            StreamEvent::Finish { finish, usage } => {
                self.finish = Some(finish);
                self.usage.merge_from(&usage);
            },
        }
        assert(self@ =~= before.next(e));
    }

    /// What was accumulated, as a result.
    fn into_result(self) -> (r: Result<GenerateResult, Error>)
        ensures
            match r {
                Ok(result) => self@.result() == Ok::<GenerateResultView, ErrorView>(result@),
                Err(error) => self@.result() == Err::<GenerateResultView, ErrorView>(error@),
            },
    {
        if let Some(error) = self.error {
            return Err(error);
        }
        match self.finish {
            Some(finish) => Ok(
                GenerateResult {
                    content: self.content,
                    finish,
                    usage: self.usage,
                    warnings: self.warnings,
                    response: self.metadata,
                    provider_metadata: self.provider_metadata,
                },
            ),
            None => {
                let mut error: Error = Error::new(
                    ErrorKind::TruncatedStream,
                    "stream accumulation ended without a finish event",
                );
                if let Some(model) = &self.metadata.model {
                    error = error.with_model(model.as_str());
                }
                if let Some(request_id) = &self.metadata.request_id {
                    error = error.with_request_id(request_id.as_str());
                }
                Err(error)
            },
        }
    }
}

impl StreamAccumulator {
    /// Every slot is a position in the content, or its end.
    #[verifier::type_invariant]
    spec fn slots_are_in_range(self) -> bool {
        self.collected@.wf()
    }

    pub fn new() -> (r: StreamAccumulator)
        ensures
            r@ == nothing_accumulated(),
    {
        StreamAccumulator { collected: Collected::new() }
    }

    /// Takes in one more event.
    pub fn push(&mut self, event: StreamEvent)
        ensures
            final(self)@ == old(self)@.next(event@),
    {
        proof {
            use_type_invariant(&*self);
        }
        let mut collected: Collected = Collected::new();
        std::mem::swap(&mut collected, &mut self.collected);
        collected.push(event);
        self.collected = collected;
    }

    /// Finish accumulation.
    ///
    /// # Errors
    ///
    /// Returns the first stream error that occurred.
    pub fn into_result(self) -> (r: Result<GenerateResult, Error>)
        ensures
            match r {
                Ok(result) => self@.result() == Ok::<GenerateResultView, ErrorView>(result@),
                Err(error) => self@.result() == Err::<GenerateResultView, ErrorView>(error@),
            },
    {
        self.collected.into_result()
    }
}

impl Default for StreamAccumulator {
    fn default() -> (r: StreamAccumulator)
        ensures
            r@ == nothing_accumulated(),
    {
        StreamAccumulator::new()
    }
}

/// Drains a stream of events and assembles the final result; a failure is the
/// first error of the stream.
pub fn collect_result(events: Vec<StreamEvent>) -> (r: Result<GenerateResult, Error>)
    ensures
        match r {
            Ok(result) => nothing_accumulated().after(views(events@)).result() == Ok::<
                GenerateResultView,
                ErrorView,
            >(result@),
            Err(e) => nothing_accumulated().after(views(events@)).result() == Err::<
                GenerateResultView,
                ErrorView,
            >(e@),
        },
{
    let ghost list = events@;
    let ghost all = views(events@);
    let mut accumulator: StreamAccumulator = StreamAccumulator::new();
    assert(all.take(0) =~= Seq::empty());
    for event in it: events.into_iter()
        invariant
            it.seq() == list,
            all == views(list),
            accumulator@ == nothing_accumulated().after(all.take(it.index() as int)),
    {
        let ghost n = it.index() as int;
        assert(event@ == all[n]);
        assert(all.take(n + 1).drop_last() =~= all.take(n));
        accumulator.push(event);
    }
    assert(all.len() == list.len());
    assert(all.take(all.len() as int) =~= all);
    accumulator.into_result()
}

} // verus!
