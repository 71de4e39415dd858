//! What a Gemini stream tells.
use vstd::prelude::*;

use crate::json::{json_parse, json_text, JsonView};
use crate::laws::results::{answer_parts, answer_text};
use crate::laws::telling::{lemma_said, lemma_said_once, lemma_silent, said};
use crate::laws::{as_items, as_text, joined, lacks, says, value_in};
use crate::protocols::gemini::stream::GeminiView;
use crate::protocols::gemini::types::{parts_of, response_ok, synthetic_id};
use crate::stream::contract::Action;

verus! {

/// The block that the answer of a stream is told in.
pub open spec fn answer_block() -> Seq<char> {
    "t0"@
}

/// Whether a frame is a chunk that reports no error.
pub open spec fn is_chunk(frame: Seq<char>) -> bool {
    json_parse(frame) matches Ok(v) && response_ok(v) && lacks(v, "error"@)
}

/// What a chunk says: the texts of its first candidate that are no thoughts.
pub open spec fn chunk_says(v: JsonView) -> Seq<char> {
    if as_items(value_in(v, "candidates"@)).len() > 0 {
        let parts = answer_parts(v);
        joined(Seq::new(parts.len(), |i: int| answer_text(parts[i])))
    } else {
        Seq::empty()
    }
}

/// A decoder after some frames, with the ids for calls without one.
pub open spec fn fed(
    d: GeminiView,
    frames: Seq<Seq<char>>,
    ids: Seq<Seq<Seq<char>>>,
) -> GeminiView
    decreases frames.len(),
{
    if frames.len() == 0 {
        d
    } else {
        fed(d, frames.drop_last(), ids).frame(frames.last(), ids[frames.len() - 1]).state
    }
}

/// What some frames make a decoder do.
pub open spec fn done_by(
    d: GeminiView,
    frames: Seq<Seq<char>>,
    ids: Seq<Seq<Seq<char>>>,
) -> Seq<Action>
    decreases frames.len(),
{
    if frames.len() == 0 {
        Seq::empty()
    } else {
        done_by(d, frames.drop_last(), ids) + fed(d, frames.drop_last(), ids).frame(
            frames.last(),
            ids[frames.len() - 1],
        ).decoded.actions
    }
}

proof fn lemma_part(d: GeminiView, part: JsonView, id: Seq<char>)
    ensures
        said(d.part(part, id).actions, answer_block()) == answer_text(part),
{
    let actions = d.part(part, id).actions;
    let block = answer_block();
    let text = as_text(value_in(part, "text"@));
    if value_in(part, "thought"@) == JsonView::Bool(true) || !lacks(part, "functionCall"@) {
        lemma_silent(actions, block);
    } else {
        let closed = d.closing_reasoning();
        if value_in(part, "text"@) is String && (text.len() > 0 || value_in(
            part,
            "thoughtSignature"@,
        ) is String) {
            let told = seq![Action::TextDelta { id: block, delta: text }];
            let signed = d.text(part).actions.skip((closed.actions.len() + 1) as int);
            assert(actions =~= closed.actions + told + signed);
            lemma_silent(closed.actions, block);
            lemma_silent(signed, block);
            lemma_said_once(block, text);
            lemma_said(closed.actions, told, block);
            lemma_said(closed.actions + told, signed, block);
            assert(Seq::<char>::empty() + text + Seq::<char>::empty() =~= text);
        } else {
            assert(text =~= Seq::empty());
            lemma_silent(actions, block);
        }
    }
}

proof fn lemma_parts(d: GeminiView, parts: Seq<JsonView>, ids: Seq<Seq<char>>, n: int)
    requires
        0 <= n <= parts.len(),
    ensures
        said(d.parts_upto(parts, ids, n).actions, answer_block()) == joined(
            Seq::new(n as nat, |i: int| answer_text(parts[i])),
        ),
    decreases n,
{
    let all = Seq::new(n as nat, |i: int| answer_text(parts[i]));
    if n > 0 {
        lemma_parts(d, parts, ids, n - 1);
        let before = d.parts_upto(parts, ids, n - 1);
        let id = synthetic_id(ids, n - 1);
        lemma_part(before.state, parts[n - 1], id);
        lemma_said(before.actions, before.state.part(parts[n - 1], id).actions, answer_block());
        assert(all.drop_last() =~= Seq::new((n - 1) as nat, |i: int| answer_text(parts[i])));
    }
}

proof fn lemma_candidate(d: GeminiView, candidate: JsonView, ids: Seq<Seq<char>>)
    ensures
        said(d.candidate(candidate, ids).actions, answer_block()) == ({
            let parts = as_items(value_in(value_in(candidate, "content"@), "parts"@));
            joined(Seq::new(parts.len(), |i: int| answer_text(parts[i])))
        }),
{
    let parts = as_items(value_in(value_in(candidate, "content"@), "parts"@));
    assert(parts =~= parts_of(candidate));
    let block = answer_block();
    let grounded = d.grounding(candidate);
    let rated = grounded.state.rating(candidate);
    let told = rated.state.parts_upto(parts, ids, parts.len() as int);
    lemma_parts(rated.state, parts, ids, parts.len() as int);
    lemma_silent(grounded.actions, block);
    lemma_silent(rated.actions, block);
    lemma_said(grounded.actions, rated.actions, block);
    lemma_said(grounded.actions + rated.actions, told.actions, block);
    assert(Seq::<char>::empty() + Seq::<char>::empty() + said(told.actions, block) =~= said(
        told.actions,
        block,
    ));
}

proof fn lemma_frame(d: GeminiView, frame: Seq<char>, ids: Seq<Seq<char>>)
    requires
        is_chunk(frame),
    ensures
        said(d.frame(frame, ids).decoded.actions, answer_block()) == chunk_says(
            json_parse(frame)->Ok_0,
        ),
{
    let v = json_parse(frame)->Ok_0;
    let block = answer_block();
    let described = d.describing(v);
    let rated = described.state.feedback(v);
    let candidates = as_items(value_in(v, "candidates"@));
    assert(candidates =~= crate::wire::items_at(v, "candidates"@));
    let told = if candidates.len() > 0 {
        rated.state.candidate(candidates[0], ids)
    } else {
        rated.state.doing(Seq::empty())
    };
    lemma_silent(described.actions, block);
    lemma_silent(rated.actions, block);
    if candidates.len() > 0 {
        lemma_candidate(rated.state, candidates[0], ids);
    } else {
        lemma_silent(told.actions, block);
    }
    lemma_said(described.actions, rated.actions, block);
    lemma_said(described.actions + rated.actions, told.actions, block);
    assert(d.frame(frame, ids).decoded.actions == described.actions + rated.actions
        + told.actions);
    assert(Seq::<char>::empty() + Seq::<char>::empty() + said(told.actions, block) =~= said(
        told.actions,
        block,
    ));
}

/// Over any chunks, a decoder says as answer exactly the texts of their first
/// candidates that are no thoughts, joined in order: what decoding the parts in
/// one answer would give.
pub proof fn chunks_are_told_as_they_are(
    d: GeminiView,
    frames: Seq<Seq<char>>,
    ids: Seq<Seq<Seq<char>>>,
)
    requires
        forall|i: int| 0 <= i < frames.len() ==> is_chunk(#[trigger] frames[i]),
    ensures
        said(done_by(d, frames, ids), answer_block()) == joined(
            Seq::new(frames.len(), |i: int| chunk_says(json_parse(frames[i])->Ok_0)),
        ),
    decreases frames.len(),
{
    let all = Seq::new(frames.len(), |i: int| chunk_says(json_parse(frames[i])->Ok_0));
    if frames.len() > 0 {
        let less = frames.drop_last();
        assert forall|i: int| 0 <= i < less.len() implies is_chunk(#[trigger] less[i]) by {
            assert(less[i] == frames[i]);
        }
        chunks_are_told_as_they_are(d, less, ids);
        let last = frames[frames.len() - 1];
        assert(is_chunk(last));
        let now = ids[frames.len() - 1];
        lemma_frame(fed(d, less, ids), last, now);
        lemma_said(
            done_by(d, less, ids),
            fed(d, less, ids).frame(last, now).decoded.actions,
            answer_block(),
        );
        assert(all.drop_last() =~= Seq::new(
            less.len(),
            |i: int| chunk_says(json_parse(less[i])->Ok_0),
        ));
    }
}

/// A call in a chunk is started under its own id and name, told with its whole
/// arguments, and completed; where the provider gave no id, under the one made
/// for it.
pub proof fn calls_are_told_whole(
    d: GeminiView,
    part: JsonView,
    call: JsonView,
    made: Seq<char>,
    name: Seq<char>,
)
    requires
        value_in(part, "functionCall"@) == call,
        call is Object,
        value_in(part, "thought"@) != JsonView::Bool(true),
        says(call, "name"@, name),
    ensures
        ({
            let given = as_text(value_in(call, "id"@));
            let call_id = if given.len() > 0 {
                given
            } else {
                made
            };
            let own = if given.len() > 0 {
                Some(given)
            } else {
                None
            };
            let arguments = match value_in(call, "args"@) {
                JsonView::Null => "{}"@,
                other => json_text(other),
            };
            let actions = d.part(part, made).actions;
            let n = actions.len() as int;
            &&& n >= 4
            &&& actions[n - 4] == (Action::StartTool {
                call_id,
                name,
                item_id: own,
                provider_call_id: own,
            })
            &&& actions[n - 2] == (Action::ToolDelta { call_id, delta: arguments })
            &&& actions[n - 1] == (Action::CompleteTool { call_id, arguments: None })
        }),
{
}

/// Why a candidate finished is kept: the reason that its last chunk gave is the
/// one that the stream ends with, a cut one as cut and a malformed one as an
/// error.
pub proof fn streams_finish_as_they_were_told(
    d: GeminiView,
    candidate: JsonView,
    ids: Seq<Seq<char>>,
    reason: Seq<char>,
)
    requires
        says(candidate, "finishReason"@, reason),
    ensures
        d.candidate(candidate, ids).state.finish matches Some(finish) && {
            &&& reason == "STOP"@ <==> finish.reason is Stop
            &&& reason == "MAX_TOKENS"@ <==> finish.reason is Length
            &&& reason == "SAFETY"@ || reason == "RECITATION"@ || reason == "BLOCKLIST"@ || reason
                == "PROHIBITED_CONTENT"@ || reason == "SPII"@ || reason == "IMAGE_SAFETY"@ || reason
                == "IMAGE_PROHIBITED_CONTENT"@ || reason == "ESCALATION"@ <==> finish.reason
                is ContentFilter
            &&& reason == "MALFORMED_FUNCTION_CALL"@ || reason == "MISSING_THOUGHT_SIGNATURE"@
                || reason == "MALFORMED_RESPONSE"@ <==> finish.reason is Error
            &&& finish.raw == Some(reason)
        },
        d.finish matches Some(told) ==> {
            let actions = d.eof().actions;
            &&& actions.len() > 0
            &&& actions.last() == Action::Finish(told)
            &&& told.reason is Error ==> actions.len() > 1 && actions[actions.len() - 2] is Error
        },
{
    reveal_strlit("STOP");
    reveal_strlit("MAX_TOKENS");
    reveal_strlit("SAFETY");
    reveal_strlit("RECITATION");
    reveal_strlit("BLOCKLIST");
    reveal_strlit("PROHIBITED_CONTENT");
    reveal_strlit("SPII");
    reveal_strlit("IMAGE_SAFETY");
    reveal_strlit("IMAGE_PROHIBITED_CONTENT");
    reveal_strlit("ESCALATION");
    reveal_strlit("MALFORMED_FUNCTION_CALL");
    reveal_strlit("MISSING_THOUGHT_SIGNATURE");
    reveal_strlit("MALFORMED_RESPONSE");
    assert("STOP"@.len() == 4 && "MAX_TOKENS"@.len() == 10 && "SAFETY"@.len() == 6 && "RECITATION"@.len() == 10 && "BLOCKLIST"@.len() == 9 && "PROHIBITED_CONTENT"@.len() == 18 && "SPII"@.len() == 4 && "IMAGE_SAFETY"@.len() == 12 && "IMAGE_PROHIBITED_CONTENT"@.len() == 24 && "ESCALATION"@.len() == 10 && "MALFORMED_FUNCTION_CALL"@.len() == 23 && "MISSING_THOUGHT_SIGNATURE"@.len() == 25 && "MALFORMED_RESPONSE"@.len() == 18);
    assert("STOP"@[1] != "SPII"@[1]);
    assert("MAX_TOKENS"@[0] != "RECITATION"@[0]);
    assert("MAX_TOKENS"@[0] != "ESCALATION"@[0]);
    assert("RECITATION"@[0] != "ESCALATION"@[0]);
    assert("PROHIBITED_CONTENT"@[0] != "MALFORMED_RESPONSE"@[0]);
}

} // verus!
