//! What the text parts of an accumulated stream are.
use vstd::prelude::*;

use crate::message::AssistantPartView;
use crate::metadata::{no_metadata, MetadataView};
use crate::stream::accumulator::{
    lemma_slot, nothing_accumulated, slot_of, slots_stay_in_range, AccumulatorView,
};
use crate::stream::event::StreamEventView;
use crate::stream::replay::is_settled;
use crate::util::merge_objects;

verus! {

/// The ids of the text blocks that some events start, in order.
pub open spec fn started(events: Seq<StreamEventView>) -> Seq<Seq<char>>
    decreases events.len(),
{
    if events.len() == 0 {
        Seq::empty()
    } else {
        match events.last() {
            StreamEventView::TextStart { id, .. } => started(events.drop_last()).push(id),
            _ => started(events.drop_last()),
        }
    }
}

/// Whether a text block has started and not ended.
pub open spec fn is_open(events: Seq<StreamEventView>, id: Seq<char>) -> bool
    decreases events.len(),
{
    if events.len() == 0 {
        false
    } else {
        match events.last() {
            StreamEventView::TextStart { id: of, .. } => of == id || is_open(
                events.drop_last(),
                id,
            ),
            StreamEventView::TextEnd { id: of, .. } => of != id && is_open(events.drop_last(), id),
            _ => is_open(events.drop_last(), id),
        }
    }
}

/// The deltas that came for a text block while it was open, one after another.
pub open spec fn block_text(events: Seq<StreamEventView>, id: Seq<char>) -> Seq<char>
    decreases events.len(),
{
    if events.len() == 0 {
        Seq::empty()
    } else {
        let before = block_text(events.drop_last(), id);
        match events.last() {
            StreamEventView::TextDelta { id: of, delta } => if of == id && is_open(
                events.drop_last(),
                id,
            ) {
                before + delta
            } else {
                before
            },
            _ => before,
        }
    }
}

/// The extras that a text block ended with.
pub open spec fn block_end(events: Seq<StreamEventView>, id: Seq<char>) -> Option<MetadataView>
    decreases events.len(),
{
    if events.len() == 0 {
        None
    } else {
        match events.last() {
            StreamEventView::TextEnd { id: of, provider_metadata } => if of == id && is_open(
                events.drop_last(),
                id,
            ) {
                Some(provider_metadata)
            } else {
                block_end(events.drop_last(), id)
            },
            _ => block_end(events.drop_last(), id),
        }
    }
}

/// The extras of the part of a text block: those it ended with. A namespace that
/// is null is none.
pub open spec fn block_extras(events: Seq<StreamEventView>, id: Seq<char>) -> MetadataView {
    match block_end(events, id) {
        Some(metadata) => merge_objects(no_metadata(), metadata),
        None => no_metadata(),
    }
}

/// The part of a text block.
pub open spec fn block_part(events: Seq<StreamEventView>, id: Seq<char>) -> AssistantPartView {
    AssistantPartView::Text {
        text: block_text(events, id),
        provider_metadata: block_extras(events, id),
    }
}

/// Whether a text block has a part: it is open, or it has text or extras.
pub open spec fn has_part(events: Seq<StreamEventView>, id: Seq<char>) -> bool {
    block_end(events, id) is None || block_text(events, id).len() > 0 || block_extras(events, id)
        != no_metadata()
}

/// The first `n` of some text blocks that have a part.
pub open spec fn with_parts(
    events: Seq<StreamEventView>,
    ids: Seq<Seq<char>>,
    n: int,
) -> Seq<Seq<char>>
    decreases n,
{
    if n <= 0 {
        Seq::empty()
    } else if has_part(events, ids[n - 1]) {
        with_parts(events, ids, n - 1).push(ids[n - 1])
    } else {
        with_parts(events, ids, n - 1)
    }
}

/// The parts of the text blocks that have one, in the order in which the blocks
/// started.
pub open spec fn block_parts(events: Seq<StreamEventView>) -> Seq<AssistantPartView> {
    let ids = with_parts(events, started(events), started(events).len() as int);
    Seq::new(ids.len(), |i: int| block_part(events, ids[i]))
}

/// The text parts among some parts, in order.
pub open spec fn texts_in(content: Seq<AssistantPartView>) -> Seq<AssistantPartView>
    decreases content.len(),
{
    if content.len() == 0 {
        Seq::empty()
    } else if content.last() is Text {
        texts_in(content.drop_last()).push(content.last())
    } else {
        texts_in(content.drop_last())
    }
}

/// Whether no text block starts twice.
pub open spec fn start_once(events: Seq<StreamEventView>) -> bool {
    forall|i: int, j: int|
        0 <= i < j < events.len() && (#[trigger] events[i]) is TextStart && (
        #[trigger] events[j]) is TextStart ==> events[i]->TextStart_id != events[j]->TextStart_id
}

/// Which text block each part belongs to, where it is a text.
spec fn labels(events: Seq<StreamEventView>) -> Seq<Option<Seq<char>>>
    decreases events.len(),
{
    if events.len() == 0 {
        Seq::empty()
    } else {
        let before = labels(events.drop_last());
        let a = nothing_accumulated().after(events.drop_last());
        match events.last() {
            StreamEventView::TextStart { id, .. } => before.push(Some(id)),
            StreamEventView::ReasoningEnd { .. } => before.push(None),
            StreamEventView::Compaction(_) => before.push(None),
            StreamEventView::ProviderToolEnd(_) => before.push(None),
            StreamEventView::ToolCall(call) => before.insert(a.call_position(call.call_id), None),
            StreamEventView::TextEnd { id, .. } => match slot_of(a.open_text, id) {
                Some(i) => if a.next(events.last()).content.len() < a.content.len() {
                    before.remove(a.open_text[i].index)
                } else {
                    before
                },
                None => before,
            },
            _ => before,
        }
    }
}

/// The labels that are there, in order.
spec fn named(labels: Seq<Option<Seq<char>>>) -> Seq<Seq<char>>
    decreases labels.len(),
{
    if labels.len() == 0 {
        Seq::empty()
    } else {
        match labels.last() {
            Some(id) => named(labels.drop_last()).push(id),
            None => named(labels.drop_last()),
        }
    }
}

/// Some ids without one.
spec fn without(ids: Seq<Seq<char>>, id: Seq<char>) -> Seq<Seq<char>>
    decreases ids.len(),
{
    if ids.len() == 0 {
        Seq::empty()
    } else if ids.last() == id {
        without(ids.drop_last(), id)
    } else {
        without(ids.drop_last(), id).push(ids.last())
    }
}

/// Whether labels say which block each part is the part of.
spec fn labelled(
    a: AccumulatorView,
    labels: Seq<Option<Seq<char>>>,
    events: Seq<StreamEventView>,
) -> bool {
    &&& a.wf()
    &&& labels.len() == a.content.len()
    &&& forall|i: int|
        0 <= i < labels.len() ==> ((#[trigger] labels[i]) is Some) == (a.content[i] is Text)
    &&& forall|i: int|
        0 <= i < labels.len() ==> ((#[trigger] labels[i]) matches Some(id) ==> a.content[i]
            == block_part(events, id) && started(events).contains(id))
    &&& forall|i: int, j: int|
        0 <= i < j < labels.len() && (#[trigger] labels[i]) is Some ==> labels[i] != (
        #[trigger] labels[j])
    &&& forall|i: int|
        0 <= i < a.open_text.len() ==> 0 <= (#[trigger] a.open_text[i]).index < labels.len()
            && labels[a.open_text[i].index] == Some(a.open_text[i].id) && is_open(
            events,
            a.open_text[i].id,
        )
    &&& forall|i: int, j: int|
        0 <= i < j < a.open_text.len() ==> (#[trigger] a.open_text[i]).id != (
        #[trigger] a.open_text[j]).id
    &&& forall|id: Seq<char>| #[trigger]
        is_open(events, id) ==> slot_of(a.open_text, id) is Some && block_end(events, id) is None
    &&& forall|id: Seq<char>|
        !(#[trigger] started(events).contains(id)) ==> !is_open(events, id) && block_end(events, id)
            is None && block_text(events, id).len() == 0
    &&& named(labels) == with_parts(events, started(events), started(events).len() as int)
}

proof fn lemma_named_insert(labels: Seq<Option<Seq<char>>>, p: int)
    requires
        0 <= p <= labels.len(),
    ensures
        named(labels.insert(p, None)) == named(labels),
    decreases labels.len(),
{
    let more = labels.insert(p, None);
    if p == labels.len() {
        assert(more.drop_last() =~= labels);
    } else {
        lemma_named_insert(labels.drop_last(), p);
        assert(more.drop_last() =~= labels.drop_last().insert(p, None));
        assert(more.last() == labels.last());
    }
}

proof fn lemma_not_named(labels: Seq<Option<Seq<char>>>, id: Seq<char>)
    requires
        forall|i: int| 0 <= i < labels.len() ==> #[trigger] labels[i] != Some(id),
    ensures
        without(named(labels), id) == named(labels),
    decreases labels.len(),
{
    if labels.len() > 0 {
        lemma_not_named(labels.drop_last(), id);
        if let Some(other) = labels.last() {
            assert(labels[labels.len() - 1] != Some(id));
            let before = named(labels.drop_last());
            assert(before.push(other).drop_last() =~= before);
        }
    }
}

proof fn lemma_named_remove(labels: Seq<Option<Seq<char>>>, p: int, id: Seq<char>)
    requires
        0 <= p < labels.len(),
        labels[p] == Some(id),
        forall|i: int| 0 <= i < labels.len() && i != p ==> #[trigger] labels[i] != Some(id),
    ensures
        named(labels.remove(p)) == without(named(labels), id),
    decreases labels.len(),
{
    let less = labels.remove(p);
    let before = labels.drop_last();
    if p == labels.len() - 1 {
        assert(less =~= before);
        lemma_not_named(before, id);
        assert(named(before).push(id).drop_last() =~= named(before));
    } else {
        lemma_named_remove(before, p, id);
        assert(less.drop_last() =~= before.remove(p));
        assert(less.last() == labels.last());
        if let Some(other) = labels.last() {
            assert(labels[labels.len() - 1] != Some(id));
            assert(named(before).push(other).drop_last() =~= named(before));
        }
    }
}

/// Blocks have parts alike where the same of them have one.
proof fn lemma_same_parts(
    e: Seq<StreamEventView>,
    f: Seq<StreamEventView>,
    ids: Seq<Seq<char>>,
    more: Seq<Seq<char>>,
    n: int,
)
    requires
        n <= ids.len(),
        n <= more.len(),
        forall|i: int|
            0 <= i < n ==> #[trigger] ids[i] == more[i] && has_part(e, ids[i]) == has_part(
                f,
                ids[i],
            ),
    ensures
        with_parts(e, ids, n) == with_parts(f, more, n),
    decreases n,
{
    if n > 0 {
        lemma_same_parts(e, f, ids, more, n - 1);
        assert(ids[n - 1] == more[n - 1]);
    }
}

/// A block that loses its part is the only one that goes.
proof fn lemma_part_lost(
    e: Seq<StreamEventView>,
    f: Seq<StreamEventView>,
    ids: Seq<Seq<char>>,
    id: Seq<char>,
    n: int,
)
    requires
        n <= ids.len(),
        !has_part(f, id),
        forall|i: int|
            0 <= i < n && (#[trigger] ids[i]) != id ==> has_part(e, ids[i]) == has_part(f, ids[i]),
    ensures
        with_parts(f, ids, n) == without(with_parts(e, ids, n), id),
    decreases n,
{
    if n > 0 {
        lemma_part_lost(e, f, ids, id, n - 1);
        let before = with_parts(e, ids, n - 1);
        assert(before.push(ids[n - 1]).drop_last() =~= before);
        if ids[n - 1] != id {
            assert(has_part(e, ids[n - 1]) == has_part(f, ids[n - 1]));
        }
    }
}

/// A block that starts has not started before.
proof fn lemma_new_id(events: Seq<StreamEventView>, n: int, id: Seq<char>)
    requires
        start_once(events),
        0 <= n < events.len(),
        events[n] is TextStart,
        events[n]->TextStart_id == id,
    ensures
        !started(events.take(n)).contains(id),
{
    lemma_started_at(events.take(n), id);
    if started(events.take(n)).contains(id) {
        let k = choose|k: int|
            0 <= k < n && (#[trigger] events.take(n)[k]) is TextStart
                && events.take(n)[k]->TextStart_id == id;
        assert(events[k] is TextStart);
    }
}

pub proof fn lemma_started_at(events: Seq<StreamEventView>, id: Seq<char>)
    ensures
        started(events).contains(id) ==> exists|k: int|
            0 <= k < events.len() && (#[trigger] events[k]) is TextStart
                && events[k]->TextStart_id == id,
    decreases events.len(),
{
    if events.len() > 0 && started(events).contains(id) {
        let before = events.drop_last();
        lemma_started_at(before, id);
        let last = events.len() - 1;
        if events[last] is TextStart && events[last]->TextStart_id == id {
        } else {
            let i = choose|i: int| 0 <= i < started(events).len() && started(events)[i] == id;
            assert(started(before)[i] == id);
            let k = choose|k: int|
                0 <= k < before.len() && (#[trigger] before[k]) is TextStart
                    && before[k]->TextStart_id == id;
            assert(events[k] == before[k]);
        }
    }
}

/// What one event leaves as it was of the blocks that it is not about.
proof fn lemma_untouched(events: Seq<StreamEventView>, id: Seq<char>)
    requires
        events.len() > 0,
        match events.last() {
            StreamEventView::TextStart { id: of, .. } => of != id,
            StreamEventView::TextDelta { id: of, .. } => of != id || !is_open(
                events.drop_last(),
                id,
            ),
            StreamEventView::TextEnd { id: of, .. } => of != id || !is_open(
                events.drop_last(),
                id,
            ),
            _ => true,
        },
    ensures
        is_open(events, id) == is_open(events.drop_last(), id),
        block_text(events, id) == block_text(events.drop_last(), id),
        block_end(events, id) == block_end(events.drop_last(), id),
        block_part(events, id) == block_part(events.drop_last(), id),
        has_part(events, id) == has_part(events.drop_last(), id),
{
}

proof fn lemma_all_untouched(events: Seq<StreamEventView>)
    requires
        events.len() > 0,
        match events.last() {
            StreamEventView::TextStart { .. } => false,
            StreamEventView::TextDelta { id, .. } => !is_open(events.drop_last(), id),
            StreamEventView::TextEnd { id, .. } => !is_open(events.drop_last(), id),
            _ => true,
        },
    ensures
        started(events) == started(events.drop_last()),
        forall|id: Seq<char>| #[trigger]
            is_open(events, id) == is_open(events.drop_last(), id),
        forall|id: Seq<char>| #[trigger]
            block_text(events, id) == block_text(events.drop_last(), id),
        forall|id: Seq<char>| #[trigger] block_end(events, id) == block_end(events.drop_last(), id),
        forall|id: Seq<char>| #[trigger]
            block_part(events, id) == block_part(events.drop_last(), id),
        with_parts(events, started(events), started(events).len() as int) == with_parts(
            events.drop_last(),
            started(events),
            started(events).len() as int,
        ),
{
    let before = events.drop_last();
    assert forall|id: Seq<char>|
        #![trigger is_open(events, id)]
        #![trigger block_text(events, id)]
        #![trigger block_end(events, id)]
        #![trigger block_part(events, id)]
        is_open(events, id) == is_open(before, id) && block_text(events, id) == block_text(
            before,
            id,
        ) && block_end(events, id) == block_end(before, id) && block_part(events, id) == block_part(
            before,
            id,
        ) by {
        lemma_untouched(events, id);
    }
    let ids = started(events);
    assert forall|i: int| 0 <= i < ids.len() implies #[trigger] ids[i] == ids[i] && has_part(
        events,
        ids[i],
    ) == has_part(before, ids[i]) by {
        lemma_untouched(events, ids[i]);
    }
    lemma_same_parts(events, before, ids, ids, ids.len() as int);
}

proof fn lemma_start(events: Seq<StreamEventView>)
    requires
        events.len() > 0,
        events.last() is TextStart,
        start_once(events),
        labelled(
            nothing_accumulated().after(events.drop_last()),
            labels(events.drop_last()),
            events.drop_last(),
        ),
    ensures
        labelled(nothing_accumulated().after(events), labels(events), events),
{
    let before = events.drop_last();
    let a = nothing_accumulated().after(before);
    let b = a.next(events.last());
    let id = events.last()->TextStart_id;
    let old_labels = labels(before);
    let new_labels = labels(events);
    let n = events.len() - 1;
    assert(events.take(n) =~= before);
    lemma_new_id(events, n, id);
    slots_stay_in_range(a, events.last());
    assert forall|other: Seq<char>| other != id implies #[trigger] is_open(events, other)
        == is_open(before, other) && block_text(events, other) == block_text(before, other)
        && block_end(events, other) == block_end(before, other) && block_part(events, other)
        == block_part(before, other) && has_part(events, other) == has_part(before, other) by {
        lemma_untouched(events, other);
    }
    assert(!is_open(before, id) && block_end(before, id) is None && block_text(before, id).len()
        == 0);
    assert(block_text(events, id) =~= Seq::empty());
    let ids = started(before);
    let more = started(events);
    assert(more == ids.push(id));
    assert forall|other: Seq<char>| #[trigger] more.contains(other) == (ids.contains(other)
        || other == id) by {
        if ids.contains(other) {
            let k = choose|k: int| 0 <= k < ids.len() && ids[k] == other;
            assert(more[k] == other);
        }
        if other == id {
            assert(more[ids.len() as int] == other);
        }
        if more.contains(other) && other != id {
            let k = choose|k: int| 0 <= k < more.len() && more[k] == other;
            assert(ids[k] == other);
        }
    }
    assert forall|i: int| 0 <= i < new_labels.len() implies ((#[trigger] new_labels[i]) matches Some(
        of,
    ) ==> b.content[i] == block_part(events, of) && more.contains(of)) by {
        if i < old_labels.len() {
            assert(new_labels[i] == old_labels[i]);
            if let Some(of) = old_labels[i] {
                assert(ids.contains(of));
                assert(of != id);
                assert(is_open(events, of) == is_open(before, of));
            }
        }
    }
    assert forall|i: int, j: int|
        0 <= i < j < new_labels.len() && (#[trigger] new_labels[i]) is Some implies new_labels[i]
        != (#[trigger] new_labels[j]) by {
        assert(new_labels[i] == old_labels[i]);
        assert(ids.contains(old_labels[i]->0));
        if j < old_labels.len() {
            assert(new_labels[j] == old_labels[j]);
        }
    }
    assert forall|i: int| 0 <= i < b.open_text.len() implies 0 <= (
    #[trigger] b.open_text[i]).index < new_labels.len() && new_labels[b.open_text[i].index]
        == Some(b.open_text[i].id) && is_open(events, b.open_text[i].id) by {
        if i < a.open_text.len() {
            assert(b.open_text[i] == a.open_text[i]);
            assert(is_open(before, a.open_text[i].id));
        }
    }
    assert forall|i: int, j: int| 0 <= i < j < b.open_text.len() implies (
    #[trigger] b.open_text[i]).id != (#[trigger] b.open_text[j]).id by {
        assert(b.open_text[i] == a.open_text[i]);
        assert(is_open(before, a.open_text[i].id));
        if j < a.open_text.len() {
            assert(b.open_text[j] == a.open_text[j]);
        }
    }
    assert forall|other: Seq<char>| #[trigger] is_open(events, other) implies slot_of(
        b.open_text,
        other,
    ) is Some && block_end(events, other) is None by {
        lemma_slot(b.open_text, other, 0);
        if other == id {
            assert(b.open_text[a.open_text.len() as int].id == id);
        } else {
            assert(is_open(before, other));
            lemma_slot(a.open_text, other, 0);
            let p = slot_of(a.open_text, other)->0;
            assert(b.open_text[p] == a.open_text[p]);
        }
    }
    assert forall|other: Seq<char>| !(#[trigger] more.contains(other)) implies !is_open(
        events,
        other,
    ) && block_end(events, other) is None && block_text(events, other).len() == 0 by {
        assert(!ids.contains(other));
        assert(is_open(events, other) == is_open(before, other));
    }
    assert forall|i: int| 0 <= i < ids.len() implies #[trigger] ids[i] == more[i] && has_part(
        before,
        ids[i],
    ) == has_part(events, ids[i]) by {
        assert(ids.contains(ids[i]));
        assert(is_open(events, ids[i]) == is_open(before, ids[i]));
    }
    lemma_same_parts(before, events, ids, more, ids.len() as int);
    assert(new_labels.drop_last() =~= old_labels);
    assert(block_end(events, id) is None);
}

proof fn lemma_delta(events: Seq<StreamEventView>)
    requires
        events.len() > 0,
        events.last() is TextDelta,
        is_open(events.drop_last(), events.last()->TextDelta_id),
        labelled(
            nothing_accumulated().after(events.drop_last()),
            labels(events.drop_last()),
            events.drop_last(),
        ),
    ensures
        labelled(nothing_accumulated().after(events), labels(events), events),
{
    let before = events.drop_last();
    let a = nothing_accumulated().after(before);
    let b = a.next(events.last());
    let id = events.last()->TextDelta_id;
    let delta = events.last()->TextDelta_delta;
    let marks = labels(before);
    slots_stay_in_range(a, events.last());
    lemma_slot(a.open_text, id, 0);
    let p = slot_of(a.open_text, id)->0;
    let index = a.open_text[p].index;
    assert(marks[index] == Some(id));
    assert(a.content[index] == block_part(before, id));
    assert(block_end(before, id) is None);
    assert forall|other: Seq<char>| other != id implies #[trigger] block_text(events, other)
        == block_text(before, other) && block_end(events, other) == block_end(before, other)
        && block_part(events, other) == block_part(before, other) && has_part(events, other)
        == has_part(before, other) by {
        lemma_untouched(events, other);
    }
    assert(block_end(events, id) is None);
    assert(b.content[index] == block_part(events, id));
    assert forall|i: int| 0 <= i < marks.len() implies ((#[trigger] marks[i]) matches Some(of)
        ==> b.content[i] == block_part(events, of) && started(events).contains(of)) by {
        if i != index {
            if i < index {
                assert(marks[i] is Some ==> marks[i] != marks[index]);
            } else {
                assert(marks[index] != marks[i]);
            }
            if let Some(of) = marks[i] {
                assert(block_text(events, of) == block_text(before, of));
            }
        }
    }
    let ids = started(events);
    assert forall|i: int| 0 <= i < ids.len() implies #[trigger] ids[i] == ids[i] && has_part(
        events,
        ids[i],
    ) == has_part(before, ids[i]) by {
        if ids[i] != id {
            assert(block_text(events, ids[i]) == block_text(before, ids[i]));
        }
    }
    lemma_same_parts(events, before, ids, ids, ids.len() as int);
    assert forall|other: Seq<char>| !(#[trigger] started(events).contains(other)) implies !is_open(
        events,
        other,
    ) && block_end(events, other) is None && block_text(events, other).len() == 0 by {
        assert(!started(before).contains(other));
        assert(other != id);
        assert(block_text(events, other) == block_text(before, other));
    }
    assert forall|other: Seq<char>| #[trigger] is_open(events, other) implies slot_of(
        b.open_text,
        other,
    ) is Some && block_end(events, other) is None by {
        assert(is_open(before, other));
    }
    assert forall|i: int| 0 <= i < b.open_text.len() implies 0 <= (
    #[trigger] b.open_text[i]).index < marks.len() && marks[b.open_text[i].index] == Some(
        b.open_text[i].id,
    ) && is_open(events, b.open_text[i].id) by {
        assert(b.open_text[i] == a.open_text[i]);
    }
}

proof fn lemma_end(events: Seq<StreamEventView>)
    requires
        events.len() > 0,
        events.last() is TextEnd,
        is_open(events.drop_last(), events.last()->TextEnd_id),
        labelled(
            nothing_accumulated().after(events.drop_last()),
            labels(events.drop_last()),
            events.drop_last(),
        ),
    ensures
        labelled(nothing_accumulated().after(events), labels(events), events),
{
    let before = events.drop_last();
    let a = nothing_accumulated().after(before);
    let b = a.next(events.last());
    let id = events.last()->TextEnd_id;
    let marks = labels(before);
    let left = labels(events);
    slots_stay_in_range(a, events.last());
    lemma_slot(a.open_text, id, 0);
    let p = slot_of(a.open_text, id)->0;
    let index = a.open_text[p].index;
    let rest = a.open_text.remove(p);
    assert(marks[index] == Some(id));
    assert(a.content[index] == block_part(before, id));
    assert(block_end(before, id) is None);
    assert(block_text(events, id) == block_text(before, id));
    let dropped = b.content.len() < a.content.len();
    assert(dropped == !has_part(events, id));
    assert forall|other: Seq<char>| other != id implies #[trigger] block_text(events, other)
        == block_text(before, other) && block_end(events, other) == block_end(before, other)
        && block_part(events, other) == block_part(before, other) && has_part(events, other)
        == has_part(before, other) && is_open(events, other) == is_open(before, other) by {
        lemma_untouched(events, other);
    }
    assert forall|i: int| 0 <= i < marks.len() && i != index implies #[trigger] marks[i] != Some(
        id,
    ) by {
        if i < index {
            assert(marks[i] is Some ==> marks[i] != marks[index]);
        } else {
            assert(marks[index] != marks[i]);
        }
    }
    assert forall|i: int| 0 <= i < rest.len() implies (#[trigger] rest[i]).id != id
        && rest[i].index != index && 0 <= rest[i].index < marks.len() && marks[rest[i].index]
        == Some(rest[i].id) && is_open(before, rest[i].id) by {
        let o = if i < p {
            i
        } else {
            i + 1
        };
        assert(rest[i] == a.open_text[o]);
        if o < p {
            assert(a.open_text[o].id != a.open_text[p].id);
        } else {
            assert(a.open_text[p].id != a.open_text[o].id);
        }
    }
    assert forall|i: int, j: int| 0 <= i < j < rest.len() implies (#[trigger] rest[i]).id != (
    #[trigger] rest[j]).id by {
        let o = if i < p {
            i
        } else {
            i + 1
        };
        let q = if j < p {
            j
        } else {
            j + 1
        };
        assert(a.open_text[o].id != a.open_text[q].id);
    }
    assert(b.open_text.len() == rest.len());
    assert forall|i: int| 0 <= i < left.len() implies ((#[trigger] left[i]) is Some) == (
    b.content[i] is Text) && (left[i] matches Some(of) ==> b.content[i] == block_part(events, of)
        && started(events).contains(of)) by {
        let o = if dropped && i >= index {
            i + 1
        } else {
            i
        };
        assert(left[i] == marks[o]);
        if o != index {
            assert(b.content[i] == a.content[o]);
            if let Some(of) = marks[o] {
                assert(of != id);
                assert(block_text(events, of) == block_text(before, of));
            }
        } else {
            assert(!dropped);
            assert(b.content[index] == block_part(events, id));
        }
    }
    assert forall|i: int, j: int| 0 <= i < j < left.len() && (#[trigger] left[i]) is Some implies
        left[i] != (#[trigger] left[j]) by {
        let o = if dropped && i >= index {
            i + 1
        } else {
            i
        };
        let q = if dropped && j >= index {
            j + 1
        } else {
            j
        };
        assert(left[i] == marks[o] && left[j] == marks[q]);
    }
    assert forall|i: int| 0 <= i < b.open_text.len() implies 0 <= (
    #[trigger] b.open_text[i]).index < left.len() && left[b.open_text[i].index] == Some(
        b.open_text[i].id,
    ) && is_open(events, b.open_text[i].id) by {
        assert(rest[i].id == b.open_text[i].id);
        assert(block_text(events, rest[i].id) == block_text(before, rest[i].id));
        let at = rest[i].index;
        if dropped && at > index {
            assert(left[at - 1] == marks[at]);
        } else {
            assert(left[at] == marks[at]);
        }
    }
    assert forall|i: int, j: int| 0 <= i < j < b.open_text.len() implies (
    #[trigger] b.open_text[i]).id != (#[trigger] b.open_text[j]).id by {
        assert(rest[i].id == b.open_text[i].id && rest[j].id == b.open_text[j].id);
    }
    assert forall|other: Seq<char>| #[trigger] is_open(events, other) implies slot_of(
        b.open_text,
        other,
    ) is Some && block_end(events, other) is None by {
        assert(other != id);
        assert(block_text(events, other) == block_text(before, other));
        assert(is_open(before, other));
        lemma_slot(a.open_text, other, 0);
        lemma_slot(b.open_text, other, 0);
        let q = slot_of(a.open_text, other)->0;
        assert(q != p);
        let k = if q < p {
            q
        } else {
            q - 1
        };
        assert(rest[k] == a.open_text[q]);
        assert(b.open_text[k].id == rest[k].id);
    }
    assert(started(before).contains(id));
    assert forall|other: Seq<char>| !(#[trigger] started(events).contains(other)) implies !is_open(
        events,
        other,
    ) && block_end(events, other) is None && block_text(events, other).len() == 0 by {
        assert(!started(before).contains(other));
        assert(block_text(events, other) == block_text(before, other));
    }
    let ids = started(events);
    let n = ids.len() as int;
    if dropped {
        assert forall|i: int| 0 <= i < n && (#[trigger] ids[i]) != id implies has_part(
            before,
            ids[i],
        ) == has_part(events, ids[i]) by {
            assert(block_text(events, ids[i]) == block_text(before, ids[i]));
        }
        lemma_part_lost(before, events, ids, id, n);
        lemma_named_remove(marks, index, id);
    } else {
        assert forall|i: int| 0 <= i < n implies #[trigger] ids[i] == ids[i] && has_part(
            events,
            ids[i],
        ) == has_part(before, ids[i]) by {
            if ids[i] != id {
                assert(block_text(events, ids[i]) == block_text(before, ids[i]));
            }
        }
        lemma_same_parts(events, before, ids, ids, n);
    }
}

proof fn lemma_other(events: Seq<StreamEventView>)
    requires
        events.len() > 0,
        match events.last() {
            StreamEventView::TextStart { .. } => false,
            StreamEventView::TextDelta { id, .. } => !is_open(events.drop_last(), id),
            StreamEventView::TextEnd { id, .. } => !is_open(events.drop_last(), id),
            _ => true,
        },
        labelled(
            nothing_accumulated().after(events.drop_last()),
            labels(events.drop_last()),
            events.drop_last(),
        ),
    ensures
        labelled(nothing_accumulated().after(events), labels(events), events),
{
    let before = events.drop_last();
    let a = nothing_accumulated().after(before);
    let b = a.next(events.last());
    let marks = labels(before);
    let left = labels(events);
    slots_stay_in_range(a, events.last());
    lemma_all_untouched(events);
    match events.last() {
        StreamEventView::TextDelta { id, .. } => {
            lemma_slot(a.open_text, id, 0);
            assert(b == a);
        },
        StreamEventView::TextEnd { id, .. } => {
            lemma_slot(a.open_text, id, 0);
            assert(b == a);
        },
        StreamEventView::ToolCall(call) => {
            lemma_slot(a.open_tools, call.call_id, 0);
            let p = a.call_position(call.call_id);
            assert(0 <= p <= a.content.len());
            lemma_named_insert(marks, p);
            assert forall|i: int| 0 <= i < left.len() implies ((#[trigger] left[i]) is Some) == (
            b.content[i] is Text) && (left[i] matches Some(of) ==> b.content[i] == block_part(
                events,
                of,
            ) && started(events).contains(of)) by {
                if i != p {
                    let o = if i < p {
                        i
                    } else {
                        i - 1
                    };
                    assert(left[i] == marks[o] && b.content[i] == a.content[o]);
                }
            }
            assert forall|i: int, j: int|
                0 <= i < j < left.len() && (#[trigger] left[i]) is Some implies left[i] != (
            #[trigger] left[j]) by {
                let o = if i < p {
                    i
                } else {
                    i - 1
                };
                let q = if j < p {
                    j
                } else {
                    j - 1
                };
                if j != p {
                    assert(left[i] == marks[o] && left[j] == marks[q]);
                }
            }
            assert forall|i: int| 0 <= i < b.open_text.len() implies 0 <= (
            #[trigger] b.open_text[i]).index < left.len() && left[b.open_text[i].index] == Some(
                b.open_text[i].id,
            ) && is_open(events, b.open_text[i].id) by {
                assert(a.open_text[i].id == b.open_text[i].id);
            }
            assert forall|i: int, j: int| 0 <= i < j < b.open_text.len() implies (
            #[trigger] b.open_text[i]).id != (#[trigger] b.open_text[j]).id by {
                assert(a.open_text[i].id != a.open_text[j].id);
            }
            assert forall|id: Seq<char>| #[trigger] is_open(events, id) implies slot_of(
                b.open_text,
                id,
            ) is Some && block_end(events, id) is None by {
                assert(is_open(before, id));
                lemma_slot(a.open_text, id, 0);
                lemma_slot(b.open_text, id, 0);
                let q = slot_of(a.open_text, id)->0;
                assert(b.open_text[q].id == a.open_text[q].id);
            }
        },
        _ => {
            assert(b.open_text == a.open_text);
            if left.len() > marks.len() {
                assert(left.drop_last() =~= marks);
                assert forall|i: int| 0 <= i < marks.len() implies left[i] == #[trigger] marks[i]
                    && b.content[i] == a.content[i] by {}
                assert forall|i: int, j: int|
                    0 <= i < j < left.len() && (#[trigger] left[i]) is Some implies left[i] != (
                #[trigger] left[j]) by {
                    assert(left[i] == marks[i]);
                    if j < marks.len() {
                        assert(left[j] == marks[j]);
                    }
                }
                assert forall|i: int| 0 <= i < left.len() implies ((#[trigger] left[i]) is Some)
                    == (b.content[i] is Text) && (left[i] matches Some(of) ==> b.content[i]
                    == block_part(events, of) && started(events).contains(of)) by {
                    if i < marks.len() {
                        assert(left[i] == marks[i]);
                    }
                }
            }
        },
    }
}

proof fn lemma_labelled(events: Seq<StreamEventView>)
    requires
        start_once(events),
    ensures
        labelled(nothing_accumulated().after(events), labels(events), events),
    decreases events.len(),
{
    if events.len() > 0 {
        let before = events.drop_last();
        assert forall|i: int, j: int|
            0 <= i < j < before.len() && (#[trigger] before[i]) is TextStart && (
            #[trigger] before[j]) is TextStart implies before[i]->TextStart_id
            != before[j]->TextStart_id by {
            assert(events[i] == before[i] && events[j] == before[j]);
        }
        lemma_labelled(before);
        match events.last() {
            StreamEventView::TextStart { .. } => lemma_start(events),
            StreamEventView::TextDelta { id, .. } => if is_open(before, id) {
                lemma_delta(events);
            } else {
                lemma_other(events);
            },
            StreamEventView::TextEnd { id, .. } => if is_open(before, id) {
                lemma_end(events);
            } else {
                lemma_other(events);
            },
            _ => lemma_other(events),
        }
    }
}

proof fn lemma_texts(
    content: Seq<AssistantPartView>,
    labels: Seq<Option<Seq<char>>>,
    events: Seq<StreamEventView>,
)
    requires
        labels.len() == content.len(),
        forall|i: int|
            0 <= i < labels.len() ==> ((#[trigger] labels[i]) is Some) == (content[i] is Text),
        forall|i: int|
            0 <= i < labels.len() ==> ((#[trigger] labels[i]) matches Some(id) ==> content[i]
                == block_part(events, id)),
    ensures
        texts_in(content) == Seq::new(
            named(labels).len(),
            |i: int| block_part(events, named(labels)[i]),
        ),
    decreases content.len(),
{
    if content.len() > 0 {
        let last = content.len() - 1;
        let less = labels.drop_last();
        assert forall|i: int| 0 <= i < less.len() implies (#[trigger] less[i]) == labels[i]
            && content.drop_last()[i] == content[i] by {}
        lemma_texts(content.drop_last(), less, events);
        assert((labels[last] is Some) == (content[last] is Text));
    }
    assert(texts_in(content) =~= Seq::new(
        named(labels).len(),
        |i: int| block_part(events, named(labels)[i]),
    ));
}

/// The text parts of a stream are those of its text blocks, in the order in
/// which the blocks started. The text of each is the concatenation of exactly
/// the deltas that came for the block while it was open, and its extras are
/// those that the block ended with. A block that ended with neither text nor
/// extras has no part. Blocks and other events may interleave freely.
pub proof fn texts_are_made_of_their_deltas(events: Seq<StreamEventView>)
    requires
        start_once(events),
    ensures
        texts_in(nothing_accumulated().after(events).content) == block_parts(events),
{
    lemma_labelled(events);
    let a = nothing_accumulated().after(events);
    lemma_texts(a.content, labels(events), events);
}

/// A delta or an end of a text block that is not open changes nothing.
pub proof fn stray_text_changes_nothing(
    events: Seq<StreamEventView>,
    id: Seq<char>,
    delta: Seq<char>,
    provider_metadata: MetadataView,
)
    requires
        start_once(events),
        !is_open(events, id),
    ensures
        ({
            let a = nothing_accumulated().after(events);
            &&& a.next(StreamEventView::TextDelta { id, delta }) == a
            &&& a.next(StreamEventView::TextEnd { id, provider_metadata }) == a
        }),
{
    lemma_labelled(events);
    let a = nothing_accumulated().after(events);
    lemma_slot(a.open_text, id, 0);
}

/// All deltas of a text block, one after another.
pub open spec fn all_deltas(events: Seq<StreamEventView>, id: Seq<char>) -> Seq<char>
    decreases events.len(),
{
    if events.len() == 0 {
        Seq::empty()
    } else {
        match events.last() {
            StreamEventView::TextDelta { id: of, delta } => if of == id {
                all_deltas(events.drop_last(), id) + delta
            } else {
                all_deltas(events.drop_last(), id)
            },
            _ => all_deltas(events.drop_last(), id),
        }
    }
}

/// Whether an event is about a text block.
pub open spec fn is_about(event: StreamEventView, id: Seq<char>) -> bool {
    match event {
        StreamEventView::TextStart { id: of, .. } => of == id,
        StreamEventView::TextDelta { id: of, .. } => of == id,
        StreamEventView::TextEnd { id: of, .. } => of == id,
        _ => false,
    }
}

/// Whether a text block starts, has its deltas and ends, once and in this order.
pub open spec fn is_complete(
    events: Seq<StreamEventView>,
    id: Seq<char>,
    start: int,
    end: int,
) -> bool {
    &&& 0 <= start < end < events.len()
    &&& events[start] is TextStart && is_about(events[start], id)
    &&& events[end] is TextEnd && is_about(events[end], id)
    &&& forall|k: int|
        0 <= k < events.len() && k != start && k != end && is_about(#[trigger] events[k], id)
            ==> start < k < end && events[k] is TextDelta
}

proof fn lemma_complete(
    events: Seq<StreamEventView>,
    id: Seq<char>,
    start: int,
    end: int,
    n: int,
)
    requires
        is_complete(events, id, start, end),
        0 <= n <= events.len(),
    ensures
        is_open(events.take(n), id) == (start < n <= end),
        block_text(events.take(n), id) == all_deltas(events.take(n), id),
        block_end(events.take(n), id) == if n > end {
            Some(events[end]->TextEnd_provider_metadata)
        } else {
            None
        },
        n <= start ==> all_deltas(events.take(n), id).len() == 0,
    decreases n,
{
    let now = events.take(n);
    if n > 0 {
        lemma_complete(events, id, start, end, n - 1);
        assert(now.drop_last() =~= events.take(n - 1));
        assert(now.last() == events[n - 1]);
        if n - 1 != start && n - 1 != end && is_about(events[n - 1], id) {
            assert(start < n - 1 < end);
        }
    } else {
        assert(now =~= Seq::empty());
    }
}

/// The text of a block that starts, has its deltas and ends is all its deltas,
/// one after another, and its extras are those of its end. Merging drops extras
/// that are null.
pub proof fn complete_blocks_join_all_their_deltas(
    events: Seq<StreamEventView>,
    id: Seq<char>,
    start: int,
    end: int,
)
    requires
        is_complete(events, id, start, end),
    ensures
        !is_open(events, id),
        ({
            let extras = events[end]->TextEnd_provider_metadata;
            &&& block_part(events, id) == (AssistantPartView::Text {
                text: all_deltas(events, id),
                provider_metadata: merge_objects(no_metadata(), extras),
            })
            &&& is_settled(extras) ==> block_part(events, id) == (AssistantPartView::Text {
                text: all_deltas(events, id),
                provider_metadata: extras,
            })
        }),
{
    lemma_complete(events, id, start, end, events.len() as int);
    assert(events.take(events.len() as int) =~= events);
}

} // verus!
