//! What becomes of the reasoning of a Chat Completions stream.
use vstd::prelude::*;

use crate::json::JsonView;
use crate::laws::{as_items, as_text, joined, lacks, value_in};
use crate::message::AssistantPartView;
use crate::protocols::openai::chat::stream::ChatView;
use crate::protocols::openai::chat::types::{
    belongs, merged_upto, reasoning_parts, with_delta,
};
use crate::protocols::openai::chat::types;
use crate::stream::contract::Action;

verus! {

/// The texts under a key of some details.
pub open spec fn texts_under(details: Seq<JsonView>, key: Seq<char>) -> Seq<Seq<char>> {
    Seq::new(details.len(), |i: int| as_text(value_in(details[i], key)))
}

/// Whether a key holds a text that deltas make grow.
pub open spec fn grows(key: Seq<char>) -> bool {
    key == "text"@ || key == "summary"@ || key == "data"@
}

proof fn lemma_keys()
    ensures
        "text"@ != "summary"@,
        "text"@ != "data"@,
        "text"@ != "signature"@,
        "text"@ != "id"@,
        "text"@ != "format"@,
        "summary"@ != "data"@,
        "summary"@ != "signature"@,
        "summary"@ != "id"@,
        "summary"@ != "format"@,
        "data"@ != "signature"@,
        "data"@ != "id"@,
        "data"@ != "format"@,
        "signature"@ != "id"@,
        "signature"@ != "format"@,
        "id"@ != "format"@,
{
    reveal_strlit("text");
    reveal_strlit("summary");
    reveal_strlit("data");
    reveal_strlit("signature");
    reveal_strlit("id");
    reveal_strlit("format");
    assert("text"@.len() == 4 && "summary"@.len() == 7 && "data"@.len() == 4 && "signature"@.len() == 9 && "id"@.len() == 2 && "format"@.len() == 6);
    assert("text"@[0] != "data"@[0]);
}

proof fn lemma_one(last: JsonView, delta: JsonView, key: Seq<char>)
    requires
        last is Object,
        delta is Object,
        grows(key),
    ensures
        types::joined(last, delta) is Object,
        as_text(value_in(types::joined(last, delta), key)) == as_text(value_in(last, key))
            + as_text(value_in(delta, key)),
        value_in(types::joined(last, delta), "signature"@) == if lacks(delta, "signature"@) {
            value_in(last, "signature"@)
        } else {
            value_in(delta, "signature"@)
        },
{
    lemma_keys();
    let a = as_text(value_in(last, key));
    assert(a + Seq::<char>::empty() =~= a);
    assert(Seq::<char>::empty() + as_text(value_in(delta, key)) =~= as_text(
        value_in(delta, key),
    ));
}

/// Merging the details of a stream loses no character of them: their texts,
/// summaries and data, joined in order, are those of the deltas.
pub proof fn merging_keeps_the_text(deltas: Seq<JsonView>, n: int, key: Seq<char>)
    requires
        0 <= n <= deltas.len(),
        grows(key),
        forall|i: int| 0 <= i < deltas.len() ==> (#[trigger] deltas[i]) is Object,
    ensures
        joined(texts_under(merged_upto(deltas, n), key)) == joined(
            texts_under(deltas.take(n), key),
        ),
        forall|i: int| 0 <= i < merged_upto(deltas, n).len() ==> (#[trigger] merged_upto(
            deltas,
            n,
        )[i]) is Object,
    decreases n,
{
    if n == 0 {
        assert(texts_under(merged_upto(deltas, n), key) =~= Seq::empty());
        assert(texts_under(deltas.take(n), key) =~= Seq::empty());
    } else {
        merging_keeps_the_text(deltas, n - 1, key);
        let before = merged_upto(deltas, n - 1);
        let delta = deltas[n - 1];
        let after = merged_upto(deltas, n);
        let told = texts_under(deltas.take(n), key);
        assert(told.drop_last() =~= texts_under(deltas.take(n - 1), key));
        assert(told.last() == as_text(value_in(delta, key)));
        let kept = texts_under(after, key);
        if before.len() > 0 && belongs(before.last(), delta) {
            let last = before[before.len() - 1];
            assert(last is Object);
            lemma_one(last, delta, key);
            assert(kept.drop_last() =~= texts_under(before, key).drop_last());
            let rest = joined(kept.drop_last());
            let a = as_text(value_in(last, key));
            let b = as_text(value_in(delta, key));
            assert(kept.last() == a + b);
            assert(rest + (a + b) =~= rest + a + b);
        } else {
            assert(kept.drop_last() =~= texts_under(before, key));
        }
    }
}

/// The reasoning that a stream ends with is the one that decoding a message
/// with the merged details gives.
pub proof fn details_are_streamed_as_they_are_decoded(d: ChatView, message: JsonView)
    requires
        d.saw_reasoning,
        d.details.len() > 0,
        value_in(message, "reasoning_details"@) == JsonView::Array(
            merged_upto(d.details, d.details.len() as int),
        ),
        !(value_in(message, "reasoning_content"@) is String),
        !(value_in(message, "reasoning"@) is String),
    ensures
        ({
            let actions = d.closing_reasoning().actions;
            &&& actions.len() == 1
            &&& actions[0] matches Action::EndReasoning { part: Some(part), .. }
                && reasoning_parts(message, d.dialect) == seq![AssistantPartView::Reasoning(part)]
            &&& !d.closing_reasoning().state.saw_reasoning
            &&& d.closing_reasoning().state.details.len() == 0
        }),
{
    let merged = merged_upto(d.details, d.details.len() as int);
    lemma_some_details(d.details, d.details.len() as int);
    assert(types::given_details(Some(merged)) == merged);
}

proof fn lemma_some_details(deltas: Seq<JsonView>, n: int)
    requires
        0 < n <= deltas.len(),
    ensures
        merged_upto(deltas, n).len() > 0,
{
    let before = merged_upto(deltas, n - 1);
    assert(with_delta(before, deltas[n - 1]).len() > 0);
}

/// Plain reasoning is told as it comes, and details are kept in order until the
/// reasoning ends.
pub proof fn reasoning_is_told_as_it_comes(d: ChatView, v: JsonView)
    ensures
        ({
            let did = d.delta_reasoning(v);
            let plain = match value_in(v, "reasoning_content"@) {
                JsonView::String(text) => text,
                _ => as_text(value_in(v, "reasoning"@)),
            };
            let details = as_items(value_in(v, "reasoning_details"@));
            &&& did.state.details == d.details + details
            &&& did.state.saw_reasoning == (d.saw_reasoning || plain.len() > 0 || details.len()
                > 0)
            &&& plain.len() > 0 ==> did.actions.len() > 0 && (
            did.actions[0] matches Action::ReasoningDelta { delta, .. } && delta == plain)
            &&& plain.len() == 0 && details.len() == 0 ==> did.actions.len() == 0
        }),
{
    assert(as_items(value_in(v, "reasoning_details"@)) =~= crate::wire::items_at(
        v,
        "reasoning_details"@,
    ));
    assert(d.details + Seq::<JsonView>::empty() =~= d.details);
}

} // verus!
