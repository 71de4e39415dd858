//! What a Chat Completions stream tells.
use vstd::prelude::*;

use crate::json::{json_parse, JsonView, NumberView};
use crate::laws::telling::{
    collected_answer_is_what_was_said, collected_text_is_what_was_said, lemma_said,
    lemma_said_once, lemma_silent, said, speaks_for,
};
use crate::laws::{as_items, as_text, joined, lacks, says, value_in};
use crate::protocols::openai::chat::stream::{chunk_ok, fresh_decoder, ChatView, PendingView};
use crate::response::text_upto;
use crate::slots::{slot, with_slot};
use crate::stream::accumulator::nothing_accumulated;
use crate::stream::action::{ends_last, play};
use crate::stream::contract::{is_fresh, Action};
use crate::stream::normalizer::NormalizerView;
use crate::stream::texts::block_text;
use crate::text::trimmed;

verus! {

/// The block that the answer of a stream is told in.
pub open spec fn answer_block() -> Seq<char> {
    "t0"@
}

/// The block that a refusal is told in.
pub open spec fn refusal_block() -> Seq<char> {
    "ref0"@
}

/// What a choice of a chunk adds to a text of its message; choices other than
/// the first one add nothing.
pub open spec fn choice_adds(choice: JsonView, key: Seq<char>) -> Seq<char> {
    if lacks(choice, "index"@) || value_in(choice, "index"@) == JsonView::Number(
        NumberView::U(0),
    ) {
        as_text(value_in(value_in(choice, "delta"@), key))
    } else {
        Seq::empty()
    }
}

/// What a chunk adds to a text of its message.
pub open spec fn chunk_adds(chunk: JsonView, key: Seq<char>) -> Seq<char> {
    let choices = as_items(value_in(chunk, "choices"@));
    joined(Seq::new(choices.len(), |i: int| choice_adds(choices[i], key)))
}

/// What some frames add to a text of their message, one after another.
pub open spec fn frames_add(frames: Seq<Seq<char>>, key: Seq<char>) -> Seq<char> {
    joined(Seq::new(frames.len(), |i: int| chunk_adds(json_parse(frames[i])->Ok_0, key)))
}

/// Whether a frame is a chunk that reports no error.
pub open spec fn is_chunk(frame: Seq<char>) -> bool {
    trimmed(frame) != "[DONE]"@ && (json_parse(frame) matches Ok(v) && chunk_ok(v) && lacks(
        v,
        "error"@,
    ))
}

/// A decoder after some frames.
pub open spec fn fed(d: ChatView, frames: Seq<Seq<char>>) -> ChatView
    decreases frames.len(),
{
    if frames.len() == 0 {
        d
    } else {
        fed(d, frames.drop_last()).frame(frames.last()).state
    }
}

/// What some frames make a decoder do.
pub open spec fn done_by(d: ChatView, frames: Seq<Seq<char>>) -> Seq<Action>
    decreases frames.len(),
{
    if frames.len() == 0 {
        Seq::empty()
    } else {
        done_by(d, frames.drop_last()) + fed(d, frames.drop_last()).frame(
            frames.last(),
        ).decoded.actions
    }
}

/// Whether actions neither say anything nor end the stream.
spec fn aside(actions: Seq<Action>) -> bool {
    forall|i: int|
        0 <= i < actions.len() ==> !((#[trigger] actions[i]) is TextDelta) && !(
        actions[i] is StartText) && !(actions[i] is Replay) && !(actions[i] is EndText) && !crate::stream::action::ends(
            actions[i],
        )
}

/// Whether actions do not end the stream or a text block.
pub open spec fn goes_on(actions: Seq<Action>) -> bool {
    forall|i: int|
        0 <= i < actions.len() ==> !((#[trigger] actions[i]) is Replay) && !(
        actions[i] is EndText) && !crate::stream::action::ends(actions[i])
}

/// Whether actions speak for the answer only.
spec fn plain(actions: Seq<Action>) -> bool {
    forall|i: int|
        0 <= i < actions.len() ==> speaks_for(#[trigger] actions[i], answer_block())
}

proof fn lemma_plain(a: Seq<Action>, b: Seq<Action>)
    requires
        plain(a),
        plain(b),
    ensures
        plain(a + b),
{
    assert forall|i: int| 0 <= i < (a + b).len() implies speaks_for(
        #[trigger] (a + b)[i],
        answer_block(),
    ) by {
        if i < a.len() {
            assert((a + b)[i] == a[i]);
        } else {
            assert((a + b)[i] == b[i - a.len()]);
        }
    }
}

proof fn lemma_aside(actions: Seq<Action>, id: Seq<char>)
    requires
        aside(actions),
    ensures
        said(actions, id) == Seq::<char>::empty(),
{
    lemma_silent(actions, id);
}

proof fn lemma_blocks_differ()
    ensures
        answer_block() != refusal_block(),
{
    reveal_strlit("t0");
    reveal_strlit("ref0");
    assert("t0"@.len() == 2 && "ref0"@.len() == 4);
}

proof fn lemma_closing(d: ChatView)
    ensures
        aside(d.closing_reasoning().actions),
        d.closing_reasoning().state.done == d.done,
{
}

proof fn lemma_tool_call(
    d: ChatView,
    index: u64,
    id: Option<Seq<char>>,
    function: Option<JsonView>,
)
    ensures
        aside(d.tool_call(index, id, function).actions),
        d.tool_call(index, id, function).state.done == d.done,
{
    lemma_closing(d);
}

proof fn lemma_tool_calls(d: ChatView, calls: Seq<JsonView>, n: int)
    ensures
        aside(d.tool_calls_upto(calls, n).actions),
        d.tool_calls_upto(calls, n).state.done == d.done,
    decreases n,
{
    if n > 0 {
        lemma_tool_calls(d, calls, n - 1);
        let before = d.tool_calls_upto(calls, n - 1);
        let call = calls[n - 1];
        lemma_tool_call(
            before.state,
            match crate::wire::count_at(call, "index"@) {
                Some(index) => index,
                None => (n - 1) as u64,
            },
            crate::wire::text_at(call, "id"@),
            crate::wire::value_at(call, "function"@),
        );
    }
}

/// What a delta says.
proof fn lemma_delta(d: ChatView, v: JsonView)
    ensures
        said(d.delta(v).actions, answer_block()) == as_text(value_in(v, "content"@)),
        said(d.delta(v).actions, refusal_block()) == as_text(value_in(v, "refusal"@)),
        goes_on(d.delta(v).actions),
        as_text(value_in(v, "refusal"@)).len() == 0 ==> plain(d.delta(v).actions),
        d.delta(v).state.done == d.done,
{
    lemma_blocks_differ();
    let reasoned = d.delta_reasoning(v);
    let text = reasoned.state.delta_text(v);
    let annotated = text.state.delta_annotations(v);
    let refused = annotated.state.delta_refusal(v);
    let called = refused.state.delta_calls(v);
    assert(aside(reasoned.actions));
    assert(aside(annotated.actions));
    lemma_tool_calls(
        refused.state,
        crate::wire::items_at(v, "tool_calls"@),
        crate::wire::items_at(v, "tool_calls"@).len() as int,
    );
    if let Some(function) = crate::wire::value_at(v, "function_call"@) {
        lemma_tool_call(refused.state, 0, Some("call_0"@), Some(function));
    }
    assert(aside(called.actions));
    lemma_text(reasoned.state, v);
    lemma_refusal(annotated.state, v);
    let told = reasoned.state.delta_texts(v);
    assert(told.actions == text.actions + annotated.actions + refused.actions);
    assert(d.delta(v).actions == reasoned.actions + told.actions + called.actions);
    if as_text(value_in(v, "refusal"@)).len() == 0 {
        lemma_plain(text.actions, annotated.actions);
        lemma_plain(text.actions + annotated.actions, refused.actions);
        lemma_plain(reasoned.actions, told.actions);
        lemma_plain(reasoned.actions + told.actions, called.actions);
    }
    lemma_parts(reasoned.actions, text.actions, annotated.actions, refused.actions, called.actions,
        answer_block());
    lemma_parts(reasoned.actions, text.actions, annotated.actions, refused.actions, called.actions,
        refusal_block());
}

proof fn lemma_parts(
    a: Seq<Action>,
    b: Seq<Action>,
    c: Seq<Action>,
    d: Seq<Action>,
    e: Seq<Action>,
    id: Seq<char>,
)
    requires
        aside(a),
        aside(c),
        aside(e),
    ensures
        said(a + (b + c + d) + e, id) == said(b, id) + said(d, id),
{
    lemma_aside(a, id);
    lemma_aside(c, id);
    lemma_aside(e, id);
    lemma_said(b, c, id);
    lemma_said(b + c, d, id);
    lemma_said(a, b + c + d, id);
    lemma_said(a + (b + c + d), e, id);
    assert(said(b, id) + Seq::<char>::empty() =~= said(b, id));
    assert(Seq::<char>::empty() + (said(b, id) + said(d, id)) =~= said(b, id) + said(d, id));
    assert(said(b, id) + said(d, id) + Seq::<char>::empty() =~= said(b, id) + said(d, id));
}

proof fn lemma_text(d: ChatView, v: JsonView)
    ensures
        said(d.delta_text(v).actions, answer_block()) == as_text(value_in(v, "content"@)),
        said(d.delta_text(v).actions, refusal_block()) == Seq::<char>::empty(),
        goes_on(d.delta_text(v).actions),
        plain(d.delta_text(v).actions),
        d.delta_text(v).state.done == d.done,
{
    lemma_blocks_differ();
    let actions = d.delta_text(v).actions;
    let text = as_text(value_in(v, "content"@));
    let closed = d.closing_reasoning();
    lemma_closing(d);
    if text.len() > 0 {
        let last = seq![Action::TextDelta { id: answer_block(), delta: text }];
        assert(actions == closed.actions + last);
        lemma_aside(closed.actions, answer_block());
        lemma_said(closed.actions, last, answer_block());
        lemma_silent(actions, refusal_block());
        lemma_said_once(answer_block(), text);
        assert(Seq::<char>::empty() + text =~= text);
    } else {
        assert(text =~= Seq::empty());
        assert(actions =~= Seq::empty());
    }
}

proof fn lemma_refusal(d: ChatView, v: JsonView)
    ensures
        said(d.delta_refusal(v).actions, refusal_block()) == as_text(value_in(v, "refusal"@)),
        said(d.delta_refusal(v).actions, answer_block()) == Seq::<char>::empty(),
        goes_on(d.delta_refusal(v).actions),
        as_text(value_in(v, "refusal"@)).len() == 0 ==> plain(d.delta_refusal(v).actions),
        d.delta_refusal(v).state.done == d.done,
{
    lemma_blocks_differ();
    let actions = d.delta_refusal(v).actions;
    let text = as_text(value_in(v, "refusal"@));
    let marked = ChatView { saw_refusal: true, ..d };
    let closed = marked.closing_reasoning();
    lemma_closing(marked);
    if text.len() > 0 {
        let start = actions[closed.actions.len() as int];
        let last = seq![Action::TextDelta { id: refusal_block(), delta: text }];
        assert(actions =~= closed.actions + seq![start] + last);
        lemma_silent(closed.actions + seq![start], refusal_block());
        lemma_said(closed.actions + seq![start], last, refusal_block());
        lemma_silent(actions, answer_block());
        lemma_said_once(refusal_block(), text);
        assert(Seq::<char>::empty() + text =~= text);
    } else {
        assert(text =~= Seq::empty());
        assert(actions =~= Seq::empty());
    }
}

proof fn lemma_choices(d: ChatView, choices: Seq<JsonView>, n: int)
    requires
        0 <= n <= choices.len(),
        forall|i: int|
            0 <= i < choices.len() ==> crate::protocols::openai::chat::stream::chunk_choice_ok(
                #[trigger] choices[i],
            ),
    ensures
        said(d.choices_upto(choices, n).actions, answer_block()) == joined(
            Seq::new(n as nat, |i: int| choice_adds(choices[i], "content"@)),
        ),
        said(d.choices_upto(choices, n).actions, refusal_block()) == joined(
            Seq::new(n as nat, |i: int| choice_adds(choices[i], "refusal"@)),
        ),
        goes_on(d.choices_upto(choices, n).actions),
        said(d.choices_upto(choices, n).actions, refusal_block()).len() == 0 ==> plain(
            d.choices_upto(choices, n).actions,
        ),
        d.choices_upto(choices, n).state.done == d.done,
    decreases n,
{
    if n > 0 {
        lemma_choices(d, choices, n - 1);
        let before = d.choices_upto(choices, n - 1);
        let choice = choices[n - 1];
        let after = before.state.choice(choice);
        lemma_delta(before.state, value_in(choice, "delta"@));
        lemma_choice(before.state, choice);
        lemma_said(before.actions, after.actions, answer_block());
        lemma_said(before.actions, after.actions, refusal_block());
        let said_before = Seq::new((n - 1) as nat, |i: int| choice_adds(choices[i], "content"@));
        let all = Seq::new(n as nat, |i: int| choice_adds(choices[i], "content"@));
        assert(all.drop_last() =~= said_before);
        let refused_before = Seq::new(
            (n - 1) as nat,
            |i: int| choice_adds(choices[i], "refusal"@),
        );
        let refused = Seq::new(n as nat, |i: int| choice_adds(choices[i], "refusal"@));
        assert(refused.drop_last() =~= refused_before);
        if said(d.choices_upto(choices, n).actions, refusal_block()).len() == 0 {
            lemma_plain(before.actions, after.actions);
        }
    }
}

proof fn lemma_choice(d: ChatView, choice: JsonView)
    requires
        crate::protocols::openai::chat::stream::chunk_choice_ok(choice),
    ensures
        said(d.choice(choice).actions, answer_block()) == choice_adds(choice, "content"@),
        said(d.choice(choice).actions, refusal_block()) == choice_adds(choice, "refusal"@),
        goes_on(d.choice(choice).actions),
        choice_adds(choice, "refusal"@).len() == 0 ==> plain(d.choice(choice).actions),
        d.choice(choice).state.done == d.done,
{
    lemma_delta(d, value_in(choice, "delta"@));
}

proof fn lemma_chunk(d: ChatView, v: JsonView)
    requires
        chunk_ok(v),
        lacks(v, "error"@),
    ensures
        said(d.chunk(v).actions, answer_block()) == chunk_adds(v, "content"@),
        said(d.chunk(v).actions, refusal_block()) == chunk_adds(v, "refusal"@),
        goes_on(d.chunk(v).actions),
        chunk_adds(v, "refusal"@).len() == 0 ==> plain(d.chunk(v).actions),
        d.chunk(v).state.done == d.done,
{
    let described = d.describing(v);
    assert(aside(described.actions));
    let choices = as_items(value_in(v, "choices"@));
    assert(choices =~= crate::wire::items_at(v, "choices"@));
    lemma_choices(described.state, choices, choices.len() as int);
    let told = described.state.choices_upto(choices, choices.len() as int);
    lemma_aside(described.actions, answer_block());
    lemma_aside(described.actions, refusal_block());
    lemma_said(described.actions, told.actions, answer_block());
    lemma_said(described.actions, told.actions, refusal_block());
    if chunk_adds(v, "refusal"@).len() == 0 {
        lemma_plain(described.actions, told.actions);
    }
    assert(Seq::<char>::empty() + said(told.actions, answer_block()) =~= said(
        told.actions,
        answer_block(),
    ));
    assert(Seq::<char>::empty() + said(told.actions, refusal_block()) =~= said(
        told.actions,
        refusal_block(),
    ));
}

proof fn lemma_frame(d: ChatView, frame: Seq<char>)
    requires
        !d.done,
        is_chunk(frame),
    ensures
        ({
            let v = json_parse(frame)->Ok_0;
            let reply = d.frame(frame);
            &&& said(reply.decoded.actions, answer_block()) == chunk_adds(v, "content"@)
            &&& said(reply.decoded.actions, refusal_block()) == chunk_adds(v, "refusal"@)
            &&& goes_on(reply.decoded.actions)
            &&& chunk_adds(v, "refusal"@).len() == 0 ==> plain(reply.decoded.actions)
            &&& reply.decoded.error is None
            &&& !reply.state.done
        }),
{
    lemma_chunk(d, json_parse(frame)->Ok_0);
}

proof fn lemma_one_more(frames: Seq<Seq<char>>, key: Seq<char>)
    requires
        frames.len() > 0,
    ensures
        frames_add(frames, key) == frames_add(frames.drop_last(), key) + chunk_adds(
            json_parse(frames.last())->Ok_0,
            key,
        ),
{
    let less = frames.drop_last();
    let all = Seq::new(frames.len(), |i: int| chunk_adds(json_parse(frames[i])->Ok_0, key));
    assert(all.drop_last() =~= Seq::new(
        less.len(),
        |i: int| chunk_adds(json_parse(less[i])->Ok_0, key),
    ));
}

/// Over any chunks, a decoder says as answer exactly the content of their
/// deltas, and as refusal exactly their refusals, joined in order; and the
/// stream goes on.
#[verifier::rlimit(60)]
pub proof fn chunks_are_told_as_they_are(d: ChatView, frames: Seq<Seq<char>>)
    requires
        !d.done,
        forall|i: int| 0 <= i < frames.len() ==> is_chunk(#[trigger] frames[i]),
    ensures
        said(done_by(d, frames), answer_block()) == frames_add(frames, "content"@),
        said(done_by(d, frames), refusal_block()) == frames_add(frames, "refusal"@),
        goes_on(done_by(d, frames)),
        frames_add(frames, "refusal"@).len() == 0 ==> forall|i: int|
            0 <= i < done_by(d, frames).len() ==> speaks_for(
                #[trigger] done_by(d, frames)[i],
                answer_block(),
            ),
        !fed(d, frames).done,
    decreases frames.len(),
{
    if frames.len() > 0 {
        let less = frames.drop_last();
        assert forall|i: int| 0 <= i < less.len() implies is_chunk(#[trigger] less[i]) by {
            assert(less[i] == frames[i]);
        }
        chunks_are_told_as_they_are(d, less);
        let last = frames[frames.len() - 1];
        assert(is_chunk(last));
        let state = fed(d, less);
        lemma_frame(state, last);
        let before = done_by(d, less);
        let more = state.frame(last).decoded.actions;
        assert(done_by(d, frames) == before + more);
        lemma_said(before, more, answer_block());
        lemma_said(before, more, refusal_block());
        lemma_one_more(frames, "content"@);
        lemma_one_more(frames, "refusal"@);
        if frames_add(frames, "refusal"@).len() == 0 {
            lemma_plain(before, more);
        }
        assert(goes_on(before));
        assert forall|i: int| 0 <= i < (before + more).len() implies !((#[trigger] (before
            + more)[i]) is Replay) && !((before + more)[i] is EndText)
            && !crate::stream::action::ends((before + more)[i]) by {
            if i < before.len() {
                assert((before + more)[i] == before[i]);
            } else {
                assert((before + more)[i] == more[i - before.len()]);
            }
        }
    }
}

proof fn lemma_flushing(d: ChatView)
    ensures
        aside(d.flushing().actions),
    decreases d.pending.len(),
{
    if d.pending.len() > 0 {
        let first = ChatView { pending: d.pending.skip(1), ..d }.flushing_call(
            d.pending[0].0,
            d.pending[0].1,
        );
        lemma_flushing(first.state);
    }
}

/// The end of a stream says nothing more.
proof fn lemma_finishing(d: ChatView)
    requires
        !d.done,
    ensures
        ({
            let actions = d.finishing().actions;
            &&& actions.len() > 0
            &&& actions.last() is Finish
            &&& aside(actions.drop_last())
        }),
{
    let closed = ChatView { done: true, ..d }.closing_reasoning();
    let actions = d.finishing().actions;
    lemma_closing(ChatView { done: true, ..d });
    if d.finish is Some && d.finish->0.reason is Error {
        let error = actions[closed.actions.len() as int];
        assert(actions.drop_last() =~= closed.actions + seq![error]);
    } else {
        let settled = closed.state.settling();
        lemma_flushing(closed.state);
        let flushed = closed.state.flushing();
        assert(aside(flushed.state.completing().actions));
        assert(aside(settled.actions));
        assert(actions.drop_last() =~= closed.actions + settled.actions);
    }
}

/// A stream of chunks that `[DONE]` ends tells exactly the content of their
/// deltas: the answer block holds it, and without a refusal the text of the
/// collected result is all of it and nothing else, character for character.
#[verifier::rlimit(60)]
pub proof fn streamed_text_is_the_content(
    dialect: crate::protocols::openai::chat::ChatDialect,
    n: NormalizerView,
    frames: Seq<Seq<char>>,
    end: Seq<char>,
)
    requires
        is_fresh(n),
        forall|i: int| 0 <= i < frames.len() ==> is_chunk(#[trigger] frames[i]),
        trimmed(end) == "[DONE]"@,
    ensures
        ({
            let d = fresh_decoder(dialect);
            let actions = done_by(d, frames.push(end));
            let events = play(n, actions).events;
            let content = nothing_accumulated().after(events).content;
            &&& block_text(events, answer_block()) == frames_add(frames, "content"@)
            &&& block_text(events, refusal_block()) == frames_add(frames, "refusal"@)
            &&& frames_add(frames, "refusal"@).len() == 0 ==> text_upto(
                content,
                content.len() as int,
            ) == frames_add(frames, "content"@)
        }),
{
    let d = fresh_decoder(dialect);
    let all = frames.push(end);
    assert(all.drop_last() =~= frames);
    chunks_are_told_as_they_are(d, frames);
    let before = done_by(d, frames);
    let state = fed(d, frames);
    let last = state.finishing().actions;
    assert(state.frame(end).decoded.actions == last);
    lemma_finishing(state);
    let rest = before + last.drop_last();
    let actions = done_by(d, all);
    assert(actions =~= rest.push(last.last()));
    assert(goes_on(rest)) by {
        assert forall|i: int| 0 <= i < rest.len() implies !((#[trigger] rest[i]) is Replay) && !(
        rest[i] is EndText) && !crate::stream::action::ends(rest[i]) by {
            if i < before.len() {
                assert(rest[i] == before[i]);
            } else {
                assert(rest[i] == last.drop_last()[i - before.len()]);
            }
        }
    }
    assert forall|i: int| 0 <= i < actions.len() implies !((#[trigger] actions[i]) is Replay) by {
        if i < rest.len() {
            assert(actions[i] == rest[i]);
        }
    }
    assert(ends_last(actions)) by {
        assert forall|i: int| 0 <= i < actions.len() - 1 implies !crate::stream::action::ends(
            #[trigger] actions[i],
        ) by {
            assert(actions[i] == rest[i]);
        }
    }
    lemma_last_words(before, last, answer_block());
    lemma_last_words(before, last, refusal_block());
    collected_text_is_what_was_said(n, actions, answer_block());
    collected_text_is_what_was_said(n, actions, refusal_block());
    if frames_add(frames, "refusal"@).len() == 0 {
        assert(plain(before));
        lemma_plain(before, last.drop_last());
        collected_answer_is_what_was_said(n, rest, last.last(), answer_block());
        lemma_said(before, last.drop_last(), answer_block());
        lemma_aside(last.drop_last(), answer_block());
        assert(said(before, answer_block()) + Seq::<char>::empty() =~= said(
            before,
            answer_block(),
        ));
    }
}

proof fn lemma_last_words(before: Seq<Action>, last: Seq<Action>, id: Seq<char>)
    requires
        last.len() > 0,
        last.last() is Finish,
        aside(last.drop_last()),
    ensures
        said(before + last, id) == said(before, id),
{
    lemma_said(before, last, id);
    lemma_aside(last.drop_last(), id);
    assert(said(before, id) + Seq::<char>::empty() =~= said(before, id));
}

/// Why a choice of a stream finished is kept: the reason that its last chunk
/// gave is the one that the stream ends with, a cut one as cut, unless the model
/// refused.
pub proof fn streams_finish_as_they_were_told(d: ChatView, choice: JsonView, reason: Seq<char>)
    requires
        lacks(choice, "index"@) || value_in(choice, "index"@) == JsonView::Number(
            NumberView::U(0),
        ),
        says(choice, "finish_reason"@, reason),
    ensures
        d.choice(choice).state.finish matches Some(finish) && {
            &&& reason == "stop"@ <==> finish.reason is Stop
            &&& reason == "length"@ <==> finish.reason is Length
            &&& reason == "tool_calls"@ || reason == "function_call"@ <==> finish.reason
                is ToolCalls
            &&& reason == "content_filter"@ <==> finish.reason is ContentFilter
            &&& reason == "error"@ <==> finish.reason is Error
            &&& finish.raw == Some(
                match value_in(choice, "native_finish_reason"@) {
                    JsonView::String(native) => native,
                    _ => reason,
                },
            )
        },
{
    reveal_strlit("stop");
    reveal_strlit("length");
    reveal_strlit("tool_calls");
    reveal_strlit("function_call");
    reveal_strlit("content_filter");
    reveal_strlit("error");
    assert("stop"@.len() == 4 && "length"@.len() == 6 && "tool_calls"@.len() == 10
        && "function_call"@.len() == 13 && "content_filter"@.len() == 14 && "error"@.len() == 5);
}

/// The end of a stream finishes it once, for the reason that was kept: a refusal
/// as filtered, an error after saying so, and otherwise as the provider said.
pub proof fn streams_end_for_their_reason(d: ChatView)
    requires
        !d.done,
    ensures
        ({
            let actions = d.finishing().actions;
            &&& d.finishing().state.done
            &&& actions.len() > 0
            &&& actions.last() matches Action::Finish(finish) && match d.finish {
                Some(told) => if told.reason is Error {
                    finish == told && actions.len() > 1 && actions[actions.len() - 2] is Error
                } else if d.saw_refusal {
                    finish.reason is ContentFilter
                } else {
                    finish == told
                },
                None => if d.saw_refusal {
                    finish.reason is ContentFilter
                } else {
                    finish.reason is Stop
                },
            }
        }),
{
    lemma_finishing(d);
    lemma_flushing_done(ChatView { done: true, ..d }.closing_reasoning().state);
}

proof fn lemma_flushing_done(d: ChatView)
    ensures
        d.flushing().state.done == d.done,
    decreases d.pending.len(),
{
    if d.pending.len() > 0 {
        let first = ChatView { pending: d.pending.skip(1), ..d }.flushing_call(
            d.pending[0].0,
            d.pending[0].1,
        );
        lemma_flushing_done(first.state);
    }
}

/// The arguments of a fragment of a call, as text.
pub open spec fn fragment_text(function: JsonView) -> Seq<char> {
    match value_in(function, "arguments"@) {
        JsonView::String(text) => text,
        JsonView::Null => Seq::empty(),
        other => crate::json::json_text(other),
    }
}

/// The fragments of a call are told one after another: of a call that is open,
/// as they come; and of one whose id and name are not both known yet, all
/// together as soon as they are, with what came before first.
pub proof fn fragments_are_told_in_order(
    d: ChatView,
    index: u64,
    id: Option<Seq<char>>,
    function: JsonView,
)
    requires
        !d.saw_reasoning,
        function is Object,
        id matches Some(id) ==> id.len() > 0,
    ensures
        ({
            let did = d.tool_call(index, id, Some(function));
            let more = fragment_text(function);
            let name = as_text(value_in(function, "name"@));
            match slot(d.calls, index) {
                Some(open) => id is None || id == Some(open) ==> {
                    &&& did.state == d
                    &&& did.actions == if more.len() > 0 {
                        seq![Action::ToolDelta { call_id: open, delta: more }]
                    } else {
                        Seq::empty()
                    }
                },
                None => {
                    let known = match slot(d.pending, index) {
                        Some(known) => known,
                        None => PendingView { call_id: None, name: None, arguments: Seq::empty() },
                    };
                    let call_id = if id is Some {
                        id
                    } else {
                        known.call_id
                    };
                    let named = if name.len() > 0 {
                        Some(name)
                    } else {
                        known.name
                    };
                    let all = known.arguments + more;
                    if call_id is Some && named is Some {
                        let start = Action::StartTool {
                            call_id: call_id->0,
                            name: named->0,
                            item_id: None,
                            provider_call_id: None,
                        };
                        did.actions == if all.len() > 0 {
                            seq![start, Action::ToolDelta { call_id: call_id->0, delta: all }]
                        } else {
                            seq![start]
                        }
                    } else {
                        &&& did.actions.len() == 0
                        &&& did.state.pending == with_slot(
                            d.pending,
                            index,
                            PendingView { call_id, name: named, arguments: all },
                        )
                    }
                },
            }
        }),
{
    let did = d.tool_call(index, id, Some(function));
    let more = fragment_text(function);
    match slot(d.calls, index) {
        Some(open) => {
            if id is None || id == Some(open) {
                if more.len() > 0 {
                    assert(did.actions =~= seq![
                        Action::ToolDelta { call_id: open, delta: more },
                    ]);
                } else {
                    assert(did.actions =~= Seq::empty());
                }
            }
        },
        None => {
            let known = match slot(d.pending, index) {
                Some(known) => known,
                None => PendingView { call_id: None, name: None, arguments: Seq::empty() },
            };
            let call = d.gathered(index, id, Some(function));
            assert(call.arguments =~= known.arguments + more);
            if call.call_id is Some && call.name is Some {
                let start = Action::StartTool {
                    call_id: call.call_id->0,
                    name: call.name->0,
                    item_id: None,
                    provider_call_id: None,
                };
                if call.arguments.len() > 0 {
                    assert(did.actions =~= seq![
                        start,
                        Action::ToolDelta {
                            call_id: call.call_id->0,
                            delta: known.arguments + more,
                        },
                    ]);
                } else {
                    assert(did.actions =~= seq![start]);
                }
            } else {
                assert(did.actions =~= Seq::empty());
            }
        },
    }
}

} // verus!
