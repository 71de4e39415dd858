//! What a stream tells is what its decoder said.
use vstd::multiset::Multiset;
use vstd::prelude::*;

use crate::message::AssistantPartView;
use crate::response::text_upto;
use crate::stream::accumulator::nothing_accumulated;
use crate::stream::action::{ends, ends_last, performing_is_running, play, quiet};
use crate::stream::contract::{
    act, blocks, follow, follow_all, is_fresh, lemma_nothing_open, run, terminal_contract, Action,
    Block,
};
use crate::stream::event::StreamEventView;
use crate::stream::normalizer::{closings, NormalizerView, OpenBlockView};
use crate::stream::texts::{
    all_deltas, block_text, has_part, is_open, lemma_started_at, start_once, started,
    texts_are_made_of_their_deltas, texts_in, with_parts,
};

verus! {

/// The text that a decoder said for a block, one delta after another.
pub open spec fn said(actions: Seq<Action>, id: Seq<char>) -> Seq<char>
    decreases actions.len(),
{
    if actions.len() == 0 {
        Seq::empty()
    } else {
        match actions.last() {
            Action::TextDelta { id: of, delta } => if of == id {
                said(actions.drop_last(), id) + delta
            } else {
                said(actions.drop_last(), id)
            },
            _ => said(actions.drop_last(), id),
        }
    }
}

pub proof fn lemma_said(a: Seq<Action>, b: Seq<Action>, id: Seq<char>)
    ensures
        said(a + b, id) == said(a, id) + said(b, id),
    decreases b.len(),
{
    if b.len() == 0 {
        assert(a + b =~= a);
        assert(said(a, id) + Seq::<char>::empty() =~= said(a, id));
    } else {
        lemma_said(a, b.drop_last(), id);
        assert((a + b).drop_last() =~= a + b.drop_last());
        if let Action::TextDelta { id: of, delta } = b.last() {
            assert(said(a, id) + said(b.drop_last(), id) + delta =~= said(a, id) + (said(
                b.drop_last(),
                id,
            ) + delta));
        }
    }
}

pub proof fn lemma_said_once(id: Seq<char>, delta: Seq<char>)
    ensures
        said(seq![Action::TextDelta { id, delta }], id) == delta,
{
    let once = seq![Action::TextDelta { id, delta }];
    assert(once.drop_last() =~= Seq::empty());
    assert(once.last() == once[0]);
    assert(said(once.drop_last(), id) =~= Seq::<char>::empty());
    assert(Seq::<char>::empty() + delta =~= delta);
}

/// Actions that say nothing for a block.
pub proof fn lemma_silent(actions: Seq<Action>, id: Seq<char>)
    requires
        forall|i: int|
            0 <= i < actions.len() ==> ((#[trigger] actions[i]) matches Action::TextDelta {
                id: of,
                ..
            } ==> of != id),
    ensures
        said(actions, id) == Seq::<char>::empty(),
    decreases actions.len(),
{
    if actions.len() > 0 {
        assert forall|i: int| 0 <= i < actions.len() - 1 implies ((
        #[trigger] actions.drop_last()[i]) matches Action::TextDelta { id: of, .. } ==> of != id) by {
            assert(actions.drop_last()[i] == actions[i]);
        }
        lemma_silent(actions.drop_last(), id);
        assert(actions.last() == actions[actions.len() - 1]);
    }
}

proof fn lemma_all_deltas(a: Seq<StreamEventView>, b: Seq<StreamEventView>, id: Seq<char>)
    ensures
        all_deltas(a + b, id) == all_deltas(a, id) + all_deltas(b, id),
    decreases b.len(),
{
    if b.len() == 0 {
        assert(a + b =~= a);
        assert(all_deltas(a, id) + Seq::<char>::empty() =~= all_deltas(a, id));
    } else {
        lemma_all_deltas(a, b.drop_last(), id);
        assert((a + b).drop_last() =~= a + b.drop_last());
        if let StreamEventView::TextDelta { id: of, delta } = b.last() {
            assert(all_deltas(a, id) + all_deltas(b.drop_last(), id) + delta =~= all_deltas(a, id)
                + (all_deltas(b.drop_last(), id) + delta));
        }
    }
}

/// Whether no event is a text delta.
spec fn no_text(events: Seq<StreamEventView>) -> bool {
    forall|i: int| 0 <= i < events.len() ==> !((#[trigger] events[i]) is TextDelta)
}

/// Whether no event starts a text block.
spec fn no_start(events: Seq<StreamEventView>) -> bool {
    forall|i: int| 0 <= i < events.len() ==> !((#[trigger] events[i]) is TextStart)
}

proof fn lemma_no_text(events: Seq<StreamEventView>, id: Seq<char>)
    requires
        no_text(events),
    ensures
        all_deltas(events, id) == Seq::<char>::empty(),
    decreases events.len(),
{
    if events.len() > 0 {
        assert forall|i: int| 0 <= i < events.len() - 1 implies !((
        #[trigger] events.drop_last()[i]) is TextDelta) by {
            assert(events.drop_last()[i] == events[i]);
        }
        lemma_no_text(events.drop_last(), id);
        assert(events.last() == events[events.len() - 1]);
    }
}

proof fn lemma_closings_tell_nothing(open: Seq<OpenBlockView>)
    ensures
        no_text(closings(open)),
        no_start(closings(open)),
    decreases open.len(),
{
    if open.len() > 0 {
        lemma_closings_tell_nothing(open.drop_last());
    }
}

proof fn lemma_promoting_tells_nothing(n: NormalizerView, i: int)
    ensures
        no_text(n.promote_from(i).events),
        no_start(n.promote_from(i).events),
    decreases n.open.len() - i,
{
    if 0 <= i < n.open.len() {
        if crate::stream::normalizer::is_complete_tool(n.open[i]) {
            let first = n.closing(i).promote(n.open[i]);
            lemma_promoting_tells_nothing(first.state, i);
        } else {
            lemma_promoting_tells_nothing(n, i + 1);
        }
    }
}

proof fn lemma_finishing_tells_nothing(n: NormalizerView, finish: crate::response::FinishView)
    ensures
        no_text(n.finish(finish).events),
        no_start(n.finish(finish).events),
{
    let s = if !n.errored && !finish.reason.discards() {
        n.promote_from(0)
    } else {
        n.idle()
    };
    lemma_promoting_tells_nothing(n, 0);
    lemma_closings_tell_nothing(s.state.open);
}

proof fn lemma_one_action(n: NormalizerView, action: Action, id: Seq<char>)
    requires
        !(action is Replay),
    ensures
        all_deltas(act(n, action).events, id) == said(seq![action], id),
{
    reveal(act);
    let events = act(n, action).events;
    assert(seq![action].drop_last() =~= Seq::empty());
    assert(seq![action].last() == action);
    assert(said(Seq::<Action>::empty(), id) =~= Seq::<char>::empty());
    match action {
        Action::TextDelta { id: of, delta } => {
            let s = n.start_text(of, crate::metadata::no_metadata());
            let e = StreamEventView::TextDelta { id: of, delta };
            assert(events =~= s.events.push(e));
            assert(events.drop_last() =~= s.events);
            assert(events.last() == e);
            lemma_no_text(s.events, id);
        },
        Action::Finish(finish) => {
            lemma_finishing_tells_nothing(n, finish);
            lemma_no_text(events, id);
        },
        Action::Fail(error) => {
            lemma_failing_tells_nothing(n, error);
            lemma_no_text(events, id);
        },
        Action::Eof(error) => {
            if !n.finished {
                lemma_closings_tell_nothing(n.open);
                lemma_failing_tells_nothing(
                    NormalizerView { open: Seq::empty(), ..n },
                    n.enrich(error),
                );
            }
            lemma_no_text(events, id);
        },
        _ => {
            lemma_no_text(events, id);
        },
    }
}

proof fn lemma_failing_tells_nothing(n: NormalizerView, error: crate::error::ErrorView)
    ensures
        no_text(n.fail(error).events),
        no_start(n.fail(error).events),
{
    lemma_finishing_tells_nothing(
        n.error(error).state,
        crate::response::FinishView { reason: crate::response::FinishReason::Error, raw: None },
    );
}

/// The text deltas of a stream are the ones that its decoder said, block by
/// block, character for character and in their order: nothing is added, left
/// out or changed on the way.
pub proof fn text_is_passed_on(n: NormalizerView, actions: Seq<Action>, id: Seq<char>)
    requires
        forall|i: int| 0 <= i < actions.len() ==> !((#[trigger] actions[i]) is Replay),
    ensures
        all_deltas(play(n, actions).events, id) == said(actions, id),
    decreases actions.len(),
{
    if actions.len() > 0 {
        let less = actions.drop_last();
        assert forall|i: int| 0 <= i < less.len() implies !((#[trigger] less[i]) is Replay) by {
            assert(less[i] == actions[i]);
        }
        text_is_passed_on(n, less, id);
        let s = play(n, less);
        let action = actions[actions.len() - 1];
        lemma_one_action(s.state, action, id);
        lemma_all_deltas(s.events, act(s.state, action).events, id);
        lemma_said(less, seq![action], id);
        assert(actions =~= less + seq![action]);
    }
}

/// Text comes only for a block that is open, and a block starts only where it
/// is not.
proof fn lemma_lifecycles(events: Seq<StreamEventView>, m: Multiset<Block>)
    requires
        follow_all(Multiset::empty(), events, m),
    ensures
        forall|id: Seq<char>| #[trigger]
            is_open(events, id) == (m.count(Block::Text(id)) > 0),
        forall|id: Seq<char>| #[trigger] m.count(Block::Text(id)) <= 1,
        forall|id: Seq<char>| #[trigger] block_text(events, id) == all_deltas(events, id),
    decreases events.len(),
{
    reveal_with_fuel(follow_all, 1);
    if events.len() > 0 {
        let before = events.drop_last();
        let x = choose|x: Multiset<Block>|
            follow_all(Multiset::empty(), before, x) && #[trigger] follow(x, events.last(), m);
        lemma_lifecycles(before, x);
        assert forall|id: Seq<char>| #[trigger]
            is_open(events, id) == (m.count(Block::Text(id)) > 0) && m.count(Block::Text(id)) <= 1
            && block_text(events, id) == all_deltas(events, id) by {
            assert(is_open(before, id) == (x.count(Block::Text(id)) > 0));
            assert(x.count(Block::Text(id)) <= 1);
            assert(block_text(before, id) == all_deltas(before, id));
        }
        assert forall|id: Seq<char>| #[trigger] m.count(Block::Text(id)) <= 1 by {
            assert(is_open(events, id) == (m.count(Block::Text(id)) > 0));
        }
        assert forall|id: Seq<char>| #[trigger]
            block_text(events, id) == all_deltas(events, id) by {
            assert(is_open(events, id) == (m.count(Block::Text(id)) > 0));
        }
    }
}

/// What is collected for a text block of a stream is the text that its decoder
/// said for it.
pub proof fn collected_text_is_what_was_said(
    n: NormalizerView,
    actions: Seq<Action>,
    id: Seq<char>,
)
    requires
        is_fresh(n),
        ends_last(actions),
        forall|i: int| 0 <= i < actions.len() ==> !((#[trigger] actions[i]) is Replay),
    ensures
        block_text(play(n, actions).events, id) == said(actions, id),
        start_once(play(n, actions).events) ==> {
            let content = nothing_accumulated().after(play(n, actions).events).content;
            forall|i: int|
                0 <= i < texts_in(content).len() ==> exists|of: Seq<char>|
                    (#[trigger] texts_in(content)[i])->Text_text == #[trigger] said(actions, of)
        },
{
    let events = play(n, actions).events;
    text_is_passed_on(n, actions, id);
    performing_is_running(n, actions);
    terminal_contract(n, actions);
    lemma_nothing_open(n.open);
    lemma_lifecycles(events, blocks(run(n, actions).state.open));
    assert(block_text(events, id) == all_deltas(events, id));
    if start_once(events) {
        texts_are_made_of_their_deltas(events);
        let content = nothing_accumulated().after(events).content;
        assert forall|i: int| 0 <= i < texts_in(content).len() implies exists|of: Seq<char>|
            (#[trigger] texts_in(content)[i])->Text_text == #[trigger] said(actions, of) by {
            let ids = with_parts(
                events,
                started(events),
                started(events).len() as int,
            );
            text_is_passed_on(n, actions, ids[i]);
            assert(block_text(events, ids[i]) == all_deltas(events, ids[i]));
        }
    }
}

/// Whether an action neither ends a text block nor replays a result, and speaks
/// for one text block only.
pub open spec fn speaks_for(action: Action, only: Seq<char>) -> bool {
    match action {
        Action::StartText { id, .. } => id == only,
        Action::TextDelta { id, .. } => id == only,
        Action::EndText { .. } => false,
        Action::Replay(_) => false,
        _ => true,
    }
}

/// Whether text blocks that start are one only.
spec fn starts_only(events: Seq<StreamEventView>, only: Seq<char>) -> bool {
    forall|i: int|
        0 <= i < events.len() ==> ((#[trigger] events[i]) matches StreamEventView::TextStart {
            id,
            ..
        } ==> id == only)
}

/// Whether no text block ends.
spec fn no_end(events: Seq<StreamEventView>) -> bool {
    forall|i: int| 0 <= i < events.len() ==> !((#[trigger] events[i]) is TextEnd)
}

#[verifier::rlimit(40)]
proof fn lemma_going_on(n: NormalizerView, action: Action, only: Seq<char>)
    requires
        speaks_for(action, only),
        !ends(action),
    ensures
        starts_only(act(n, action).events, only),
        no_end(act(n, action).events),
{
    reveal(act);
}

proof fn lemma_ending(n: NormalizerView, action: Action)
    requires
        ends(action),
        !(action is Replay),
    ensures
        no_start(act(n, action).events),
{
    reveal(act);
    match action {
        Action::Finish(finish) => lemma_finishing_tells_nothing(n, finish),
        Action::Fail(error) => lemma_failing_tells_nothing(n, error),
        Action::Eof(error) => {
            lemma_closings_tell_nothing(n.open);
            lemma_failing_tells_nothing(
                NormalizerView { open: Seq::empty(), ..n },
                n.enrich(error),
            );
        },
        _ => {},
    }
}

proof fn lemma_blocks_of(n: NormalizerView, actions: Seq<Action>, only: Seq<char>)
    requires
        forall|i: int| 0 <= i < actions.len() ==> speaks_for(#[trigger] actions[i], only),
        quiet(actions),
    ensures
        starts_only(play(n, actions).events, only),
        no_end(play(n, actions).events),
    decreases actions.len(),
{
    if actions.len() > 0 {
        let less = actions.drop_last();
        assert forall|i: int| 0 <= i < less.len() implies speaks_for(#[trigger] less[i], only)
            && !ends(less[i]) by {
            assert(less[i] == actions[i]);
        }
        lemma_blocks_of(n, less, only);
        let s = play(n, less);
        let last = actions[actions.len() - 1];
        assert(speaks_for(last, only) && !ends(last));
        lemma_going_on(s.state, last, only);
        lemma_both(s.events, act(s.state, last).events, only);
    }
}

proof fn lemma_both(a: Seq<StreamEventView>, b: Seq<StreamEventView>, only: Seq<char>)
    requires
        starts_only(a, only),
        starts_only(b, only),
    ensures
        starts_only(a + b, only),
        no_end(a) && no_end(b) ==> no_end(a + b),
        start_once(a) && no_start(b) ==> start_once(a + b),
{
    let events = a + b;
    assert forall|i: int| 0 <= i < events.len() implies ((#[trigger] events[i]) matches
        StreamEventView::TextStart { id, .. } ==> id == only) by {
        if i < a.len() {
            assert(events[i] == a[i]);
        } else {
            assert(events[i] == b[i - a.len()]);
        }
    }
    if no_end(a) && no_end(b) {
        assert forall|i: int| 0 <= i < events.len() implies !((#[trigger] events[i])
            is TextEnd) by {
            if i < a.len() {
                assert(events[i] == a[i]);
            } else {
                assert(events[i] == b[i - a.len()]);
            }
        }
    }
    if start_once(a) && no_start(b) {
        assert forall|i: int, j: int|
            0 <= i < j < events.len() && (#[trigger] events[i]) is TextStart && (
            #[trigger] events[j]) is TextStart implies events[i]->TextStart_id
            != events[j]->TextStart_id by {
            if j < a.len() {
                assert(a[i] == events[i] && a[j] == events[j]);
            } else {
                assert(events[j] == b[j - a.len()]);
            }
        }
    }
}

/// A block that never ends starts at most once.
proof fn lemma_starts_once(events: Seq<StreamEventView>, m: Multiset<Block>)
    requires
        follow_all(Multiset::empty(), events, m),
        no_end(events),
    ensures
        start_once(events),
        forall|i: int|
            0 <= i < events.len() ==> ((#[trigger] events[i]) matches StreamEventView::TextStart {
                id,
                ..
            } ==> m.count(Block::Text(id)) > 0),
    decreases events.len(),
{
    reveal_with_fuel(follow_all, 1);
    if events.len() > 0 {
        let before = events.drop_last();
        let x = choose|x: Multiset<Block>|
            follow_all(Multiset::empty(), before, x) && #[trigger] follow(x, events.last(), m);
        assert forall|i: int| 0 <= i < before.len() implies !((#[trigger] before[i])
            is TextEnd) by {
            assert(before[i] == events[i]);
        }
        lemma_starts_once(before, x);
        let last = events[events.len() - 1];
        assert(!(last is TextEnd));
        assert forall|i: int| 0 <= i < events.len() implies ((#[trigger] events[i]) matches
            StreamEventView::TextStart { id, .. } ==> m.count(Block::Text(id)) > 0) by {
            if i < before.len() {
                assert(before[i] == events[i]);
            }
        }
        assert forall|i: int, j: int|
            0 <= i < j < events.len() && (#[trigger] events[i]) is TextStart && (
            #[trigger] events[j]) is TextStart implies events[i]->TextStart_id
            != events[j]->TextStart_id by {
            assert(before[i] == events[i]);
            if j < before.len() {
                assert(before[j] == events[j]);
            }
        }
    }
}

proof fn lemma_few_starts(events: Seq<StreamEventView>, only: Seq<char>)
    requires
        start_once(events),
        starts_only(events, only),
    ensures
        started(events) == Seq::<Seq<char>>::empty() || started(events) == seq![only],
    decreases events.len(),
{
    if events.len() > 0 {
        let before = events.drop_last();
        assert forall|i: int| 0 <= i < before.len() implies (#[trigger] before[i])
            == events[i] by {}
        lemma_few_starts(before, only);
        let last = events[events.len() - 1];
        if last is TextStart {
            lemma_started_at(before, only);
            if started(before) == seq![only] {
                assert(started(before)[0] == only);
                let k = choose|k: int|
                    0 <= k < before.len() && (#[trigger] before[k]) is TextStart
                        && before[k]->TextStart_id == only;
                assert(events[k] is TextStart);
            }
            assert(started(events) =~= seq![only]);
        }
    }
}

proof fn lemma_never_started(events: Seq<StreamEventView>, id: Seq<char>)
    requires
        started(events).len() == 0,
    ensures
        !is_open(events, id),
        block_text(events, id) == Seq::<char>::empty(),
    decreases events.len(),
{
    if events.len() > 0 {
        lemma_never_started(events.drop_last(), id);
    }
}

proof fn lemma_text_within(content: Seq<AssistantPartView>, n: int)
    requires
        0 <= n < content.len(),
    ensures
        text_upto(content, n) == text_upto(content.drop_last(), n),
    decreases n,
{
    if n > 0 {
        lemma_text_within(content, n - 1);
    }
}

/// The text of a result is that of its text parts, one after another.
pub proof fn lemma_text_parts(content: Seq<AssistantPartView>)
    ensures
        text_upto(content, content.len() as int) == super::joined(
            Seq::new(texts_in(content).len(), |i: int| texts_in(content)[i]->Text_text),
        ),
        forall|i: int| 0 <= i < texts_in(content).len() ==> (#[trigger] texts_in(content)[i])
            is Text,
    decreases content.len(),
{
    let all = Seq::new(texts_in(content).len(), |i: int| texts_in(content)[i]->Text_text);
    if content.len() > 0 {
        let less = content.drop_last();
        lemma_text_parts(less);
        lemma_text_within(content, content.len() - 1);
        let before = Seq::new(texts_in(less).len(), |i: int| texts_in(less)[i]->Text_text);
        if content.last() is Text {
            assert(all.drop_last() =~= before);
        } else {
            assert(all =~= before);
        }
    }
}

/// The text that is collected where one text block started, once.
proof fn lemma_collected(events: Seq<StreamEventView>, only: Seq<char>)
    requires
        start_once(events),
        starts_only(events, only),
    ensures
        ({
            let content = nothing_accumulated().after(events).content;
            text_upto(content, content.len() as int) == block_text(events, only)
        }),
{
    lemma_few_starts(events, only);
    texts_are_made_of_their_deltas(events);
    let content = nothing_accumulated().after(events).content;
    lemma_text_parts(content);
    let texts = Seq::new(texts_in(content).len(), |i: int| texts_in(content)[i]->Text_text);
    if started(events).len() == 0 {
        lemma_never_started(events, only);
        assert(texts =~= Seq::empty());
    } else {
        let ids = with_parts(events, started(events), 1);
        assert(with_parts(events, started(events), 0) =~= Seq::empty());
        assert(started(events)[0] == only);
        if has_part(events, only) {
            assert(ids =~= seq![only]);
            assert(texts =~= seq![block_text(events, only)]);
            super::lemma_joined_one(block_text(events, only));
        } else {
            assert(ids =~= Seq::empty());
            assert(texts =~= Seq::empty());
            assert(block_text(events, only) =~= Seq::empty());
        }
    }
}

/// The text of the result that a stream is collected to is all the text that
/// its decoder said, where it spoke for one block and ended the stream.
pub proof fn collected_answer_is_what_was_said(
    n: NormalizerView,
    actions: Seq<Action>,
    end: Action,
    only: Seq<char>,
)
    requires
        is_fresh(n),
        quiet(actions),
        ends(end),
        forall|i: int| 0 <= i < actions.len() ==> speaks_for(#[trigger] actions[i], only),
        speaks_for(end, only),
    ensures
        ({
            let content = nothing_accumulated().after(play(n, actions.push(end)).events).content;
            text_upto(content, content.len() as int) == said(actions, only)
        }),
{
    let all = actions.push(end);
    assert(all.drop_last() =~= actions);
    let s = play(n, actions);
    let more = act(s.state, end).events;
    let events = s.events + more;
    assert(play(n, all).events == events);
    lemma_told(n, actions, only);
    lemma_ending(s.state, end);
    lemma_both(s.events, more, only);
    assert forall|i: int| 0 <= i < all.len() implies !((#[trigger] all[i]) is Replay) by {
        if i < actions.len() {
            assert(speaks_for(actions[i], only));
        }
    }
    collected_text_is_what_was_said(n, all, only);
    assert(said(all, only) == said(actions, only));
    lemma_collected(events, only);
}

proof fn lemma_told(n: NormalizerView, actions: Seq<Action>, only: Seq<char>)
    requires
        is_fresh(n),
        quiet(actions),
        forall|i: int| 0 <= i < actions.len() ==> speaks_for(#[trigger] actions[i], only),
    ensures
        start_once(play(n, actions).events),
        starts_only(play(n, actions).events, only),
{
    performing_is_running(n, actions);
    terminal_contract(n, actions);
    lemma_nothing_open(n.open);
    lemma_blocks_of(n, actions, only);
    lemma_starts_once(play(n, actions).events, blocks(run(n, actions).state.open));
}

} // verus!
