//! What is decoded from a response is replayed in the next request.
use vstd::prelude::*;

use super::request::{
    call_item, last_encrypted, lower_part, openai_extra, reasoning_item, reasoning_texts,
    replayable, summaries, text_item, typed_text, InputView,
};
use super::types::{
    decoded_item, item_call, item_ok, message_part, message_parts, openai_member, phase_extras,
    reasoning_of, summary_pieces, text_pieces,
};
use crate::json::{field, JsonView};
use crate::message::{AssistantPartView, ReasoningContentView, ReasoningPartView};
use crate::protocols::ApiProfile;
use crate::util::{lemma_merge_at, merge_objects};
use crate::wire::{items_at, tag_at, text_at};

verus! {

/// Whether a part holds something to replay: reasoning has an id or encrypted
/// content, and a compaction has encrypted content.
pub open spec fn holds_state(part: AssistantPartView) -> bool {
    match part {
        AssistantPartView::Reasoning(part) => replayable(part),
        AssistantPartView::Compaction(part) => part.encrypted_content is Some,
        _ => true,
    }
}

proof fn lemma_names()
    ensures
        "type"@ != "name"@,
        "type"@ != "text"@,
        "type"@ != "role"@,
        "text"@ != "name"@,
        "content"@ != "call_id"@,
        "content"@ != "summary"@,
        "content"@ != "refusal"@,
        "call_id"@ != "summary"@,
        "summary"@ != "refusal"@,
        "type"@.len() == 4,
        "name"@.len() == 4,
        "text"@.len() == 4,
        "role"@.len() == 4,
        "status"@.len() == 6,
        "id"@.len() == 2,
        "call_id"@.len() == 7,
        "content"@.len() == 7,
        "summary"@.len() == 7,
        "refusal"@.len() == 7,
        "arguments"@.len() == 9,
        "encrypted_content"@.len() == 17,
        "phase"@.len() == 5,
        "annotations"@.len() == 11,
        "content_type"@.len() == 12,
{
    reveal_strlit("type");
    reveal_strlit("name");
    reveal_strlit("text");
    reveal_strlit("role");
    reveal_strlit("status");
    reveal_strlit("id");
    reveal_strlit("call_id");
    reveal_strlit("content");
    reveal_strlit("summary");
    reveal_strlit("refusal");
    reveal_strlit("arguments");
    reveal_strlit("encrypted_content");
    reveal_strlit("phase");
    reveal_strlit("annotations");
    reveal_strlit("content_type");
    assert("type"@[0] != "name"@[0]);
    assert("type"@[1] != "text"@[1]);
    assert("type"@[0] != "role"@[0]);
    assert("text"@[0] != "name"@[0]);
    assert("content"@[1] != "call_id"@[1]);
    assert("content"@[0] != "summary"@[0]);
    assert("content"@[0] != "refusal"@[0]);
    assert("call_id"@[0] != "summary"@[0]);
    assert("summary"@[0] != "refusal"@[0]);
}

proof fn lemma_kinds()
    ensures
        "message"@.len() == 7,
        "function_call"@.len() == 13,
        "reasoning"@.len() == 9,
        "compaction"@.len() == 10,
        "output_text"@.len() == 11,
        "refusal"@.len() == 7,
{
    reveal_strlit("message");
    reveal_strlit("function_call");
    reveal_strlit("reasoning");
    reveal_strlit("compaction");
    reveal_strlit("output_text");
    reveal_strlit("refusal");
}

/// Pieces of a reasoning summary, one wire part each.
proof fn lemma_summaries(content: Seq<ReasoningContentView>, n: int)
    requires
        0 <= n <= content.len(),
        forall|i: int| 0 <= i < n ==> (#[trigger] content[i]) is Summary,
    ensures
        ({
            let wire = summaries(content, n);
            &&& wire.len() == n
            &&& forall|i: int|
                0 <= i < n ==> #[trigger] wire[i] == typed_text(
                    "summary_text"@,
                    "text"@,
                    content[i]->Summary_text,
                )
        }),
    decreases n,
{
    if n > 0 {
        lemma_summaries(content, n - 1);
    }
}

/// What the first `n` of some wire parts of a summary read as.
proof fn lemma_summary_pieces(wire: Seq<JsonView>, content: Seq<ReasoningContentView>, n: int)
    requires
        0 <= n <= content.len(),
        n <= wire.len(),
        forall|i: int| 0 <= i < n ==> (#[trigger] content[i]) is Summary,
        forall|i: int|
            0 <= i < n ==> #[trigger] wire[i] == typed_text(
                "summary_text"@,
                "text"@,
                content[i]->Summary_text,
            ),
    ensures
        summary_pieces(wire, n) == content.take(n),
    decreases n,
{
    if n > 0 {
        lemma_names();
        lemma_summary_pieces(wire, content, n - 1);
        assert(wire[n - 1] == typed_text("summary_text"@, "text"@, content[n - 1]->Summary_text));
        assert(text_at(wire[n - 1], "text"@) == Some(content[n - 1]->Summary_text));
        assert(content.take(n - 1).push(content[n - 1]) =~= content.take(n));
    } else {
        assert(content.take(0) =~= Seq::empty());
    }
}

/// What the first `n` of some wire texts read as.
proof fn lemma_text_pieces(wire: Seq<JsonView>, texts: Seq<ReasoningContentView>, n: int)
    requires
        0 <= n <= texts.len(),
        n <= wire.len(),
        forall|i: int|
            0 <= i < n ==> ((#[trigger] texts[i]) matches ReasoningContentView::Text {
                signature,
                ..
            } && signature is None),
        forall|i: int|
            0 <= i < n ==> #[trigger] wire[i] == typed_text(
                "reasoning_text"@,
                "text"@,
                texts[i]->Text_text,
            ),
    ensures
        text_pieces(wire, n) == texts.take(n),
    decreases n,
{
    if n > 0 {
        lemma_names();
        lemma_text_pieces(wire, texts, n - 1);
        assert(wire[n - 1] == typed_text("reasoning_text"@, "text"@, texts[n - 1]->Text_text));
        assert(text_at(wire[n - 1], "text"@) == Some(texts[n - 1]->Text_text));
        assert(tag_at(wire[n - 1], "type"@) == "reasoning_text"@);
        assert(texts[n - 1] is Text);
        assert(texts.take(n - 1).push(texts[n - 1]) =~= texts.take(n));
    } else {
        assert(texts.take(0) =~= Seq::empty());
    }
}

/// Pieces that are read from a summary are summaries.
proof fn lemma_are_summaries(summary: Seq<JsonView>, n: int)
    ensures
        forall|i: int|
            0 <= i < summary_pieces(summary, n).len() ==> (#[trigger] summary_pieces(
                summary,
                n,
            )[i]) is Summary,
    decreases n,
{
    if n > 0 {
        lemma_are_summaries(summary, n - 1);
    }
}

/// Pieces that are read from content are texts without a signature.
proof fn lemma_are_texts(content: Seq<JsonView>, n: int)
    ensures
        forall|i: int|
            0 <= i < text_pieces(content, n).len() ==> ((#[trigger] text_pieces(
                content,
                n,
            )[i]) matches ReasoningContentView::Text { signature, .. } && signature is None),
    decreases n,
{
    if n > 0 {
        lemma_are_texts(content, n - 1);
    }
}

/// What summaries, then texts, then encrypted content are on the wire.
proof fn lemma_wire_pieces(
    a: Seq<ReasoningContentView>,
    b: Seq<ReasoningContentView>,
    c: Seq<ReasoningContentView>,
    n: int,
)
    requires
        forall|i: int| 0 <= i < a.len() ==> (#[trigger] a[i]) is Summary,
        forall|i: int| 0 <= i < b.len() ==> (#[trigger] b[i]) is Text,
        forall|i: int| 0 <= i < c.len() ==> (#[trigger] c[i]) is Encrypted,
        0 <= n <= (a + b + c).len(),
    ensures
        ({
            let all = a + b + c;
            let texts = reasoning_texts(all, n);
            let m = n - a.len();
            &&& summaries(all, n) == summaries(
                a,
                if n < a.len() {
                    n
                } else {
                    a.len() as int
                },
            )
            &&& texts.len() == if m < 0 {
                0
            } else if m < b.len() {
                m
            } else {
                b.len() as int
            }
            &&& forall|i: int|
                0 <= i < texts.len() ==> #[trigger] texts[i] == typed_text(
                    "reasoning_text"@,
                    "text"@,
                    b[i]->Text_text,
                )
            &&& last_encrypted(all, n) == if n > a.len() + b.len() {
                Some(all[n - 1]->Encrypted_data)
            } else {
                None
            }
        }),
    decreases n,
{
    let all = a + b + c;
    if n > 0 {
        lemma_wire_pieces(a, b, c, n - 1);
        if n <= a.len() {
            assert(all[n - 1] == a[n - 1]);
        } else if n <= a.len() + b.len() {
            assert(all[n - 1] == b[n - 1 - a.len()]);
        } else {
            assert(all[n - 1] == c[n - 1 - a.len() - b.len()]);
        }
    }
}

proof fn lemma_reasoning_members(part: ReasoningPartView)
    ensures
        ({
            let w = reasoning_item(part);
            let n = part.content.len() as int;
            &&& tag_at(w, "type"@) == "reasoning"@
            &&& field(w, "summary"@) == Some(JsonView::Array(summaries(part.content, n)))
            &&& text_at(w, "id"@) == part.id
            &&& text_at(w, "encrypted_content"@) == last_encrypted(part.content, n)
            &&& items_at(w, "content"@) == reasoning_texts(part.content, n)
            &&& field(w, "status"@) is None
            &&& field(w, "call_id"@) is None
            &&& field(w, "name"@) is None
            &&& field(w, "arguments"@) is None
            &&& field(w, "phase"@) is None
            &&& field(w, "content"@) is Some ==> field(w, "content"@)->0 is Array
            &&& field(w, "id"@) is Some ==> field(w, "id"@)->0 is String
            &&& field(w, "encrypted_content"@) is Some ==> field(w, "encrypted_content"@)->0
                is String
            &&& field(w, "type"@) == Some(JsonView::String("reasoning"@))
        }),
{
    lemma_names();
    let n = part.content.len() as int;
    assert(reasoning_texts(part.content, n).len() == 0 ==> reasoning_texts(part.content, n)
        =~= Seq::empty());
}

proof fn lemma_replay_reasoning(v: JsonView)
    requires
        replayable(reasoning_of(v)),
    ensures
        item_ok(reasoning_item(reasoning_of(v))),
        tag_at(reasoning_item(reasoning_of(v)), "type"@) == "reasoning"@,
        reasoning_of(reasoning_item(reasoning_of(v))) == reasoning_of(v),
{
    let part = reasoning_of(v);
    let w = reasoning_item(part);
    let n = part.content.len() as int;
    let summary = items_at(v, "summary"@);
    let content = items_at(v, "content"@);
    let a = summary_pieces(summary, summary.len() as int);
    let b = text_pieces(content, content.len() as int);
    let c = part.content.skip((a.len() + b.len()) as int);
    lemma_are_summaries(summary, summary.len() as int);
    lemma_are_texts(content, content.len() as int);
    assert(part.content =~= a + b + c);
    lemma_wire_pieces(a, b, c, n);
    lemma_reasoning_members(part);
    lemma_summaries(a, a.len() as int);
    let sent = items_at(w, "summary"@);
    let texts = items_at(w, "content"@);
    assert(sent == summaries(a, a.len() as int));
    lemma_summary_pieces(sent, a, a.len() as int);
    assert(a.take(a.len() as int) =~= a);
    lemma_text_pieces(texts, b, b.len() as int);
    assert(b.take(b.len() as int) =~= b);
    lemma_names();
    assert forall|i: int| 0 <= i < texts.len() implies super::types::content_part_ok(
        #[trigger] texts[i],
    ) by {
        assert(texts[i] == typed_text("reasoning_text"@, "text"@, b[i]->Text_text));
    }
    assert forall|i: int| 0 <= i < sent.len() implies super::types::summary_part_ok(
        #[trigger] sent[i],
    ) by {
        assert(sent[i] == typed_text("summary_text"@, "text"@, a[i]->Summary_text));
    }
    assert(reasoning_of(w).content =~= part.content);
}

proof fn lemma_replay_call(v: JsonView, call_id: Seq<char>)
    ensures
        ({
            let w = call_item(item_call(v, call_id), None);
            &&& item_ok(w)
            &&& tag_at(w, "type"@) == "function_call"@
            &&& text_at(w, "status"@) is None
            &&& text_at(w, "call_id"@) == Some(call_id)
            &&& item_call(w, call_id) == item_call(v, call_id)
        }),
{
    lemma_names();
}

/// An item that is decoded on its own is replayed to the profile that produced
/// it: what is sent decodes to the same part. Only reasoning and compactions
/// that hold nothing to replay are left out.
pub proof fn decoded_items_are_replayed(s: InputView, v: JsonView, profile: ApiProfile)
    requires
        decoded_item(v) is Ok,
        decoded_item(v)->Ok_0 is Some,
        tag_at(v, "type"@) != "message"@,
    ensures
        ({
            let parts = decoded_item(v)->Ok_0->0;
            &&& parts.len() == 1
            &&& match lower_part(s, parts[0], None, profile) {
                Ok(t) => if holds_state(parts[0]) {
                    &&& t.items.len() == s.items.len() + 1
                    &&& t == s.item(t.items.last())
                    &&& decoded_item(t.items.last()) == decoded_item(v)
                } else {
                    t == s
                },
                Err(_) => false,
            }
        }),
{
    lemma_names();
    lemma_kinds();
    let parts = decoded_item(v)->Ok_0->0;
    let part = parts[0];
    match part {
        AssistantPartView::Reasoning(p) => {
            if replayable(p) {
                lemma_replay_reasoning(v);
            }
        },
        AssistantPartView::ToolCall(call) => {
            lemma_replay_call(v, call.call_id);
        },
        _ => {},
    }
    if let Ok(t) = lower_part(s, part, None, profile) {
        if holds_state(part) {
            let w = t.items.last();
            assert(t.items =~= s.items.push(w));
            assert(decoded_item(w) == decoded_item(v));
        }
    }
}

/// A text of a message is replayed to the profile that produced it: what is
/// sent decodes to the same text, with its phase and whether it is a refusal,
/// and without its annotations.
pub proof fn decoded_texts_are_replayed(
    s: InputView,
    v: JsonView,
    phase: Option<Seq<char>>,
    profile: ApiProfile,
)
    requires
        message_part(v, phase) is Some,
    ensures
        match lower_part(s, message_part(v, phase)->0, None, profile) {
            Ok(t) => {
                let kept = AssistantPartView::Text {
                    text: message_part(v, phase)->0->Text_text,
                    provider_metadata: if tag_at(v, "type"@) == "refusal"@ {
                        merge_objects(
                            phase_extras(phase),
                            openai_member("content_type"@, JsonView::String("refusal"@)),
                        )
                    } else {
                        phase_extras(phase)
                    },
                };
                &&& t.items.len() == s.items.len() + 1
                &&& t == s.item(t.items.last())
                &&& decoded_item(t.items.last()) == Ok::<
                    Option<Seq<AssistantPartView>>,
                    crate::error::ErrorView,
                >(Some(seq![kept]))
            },
            Err(_) => false,
        },
{
    lemma_names();
    lemma_kinds();
    let part = message_part(v, phase)->0;
    let metadata = part->Text_provider_metadata;
    let refused = tag_at(v, "type"@) == "refusal"@;
    lemma_extras(v, phase);
    let w = text_item(part->Text_text, metadata, None);
    let content = items_at(w, "content"@);
    assert(content.len() == 1);
    assert(content[0] == if refused {
        typed_text("refusal"@, "refusal"@, part->Text_text)
    } else {
        typed_text("output_text"@, "text"@, part->Text_text)
    });
    assert(text_at(w, "phase"@) == phase);
    assert(item_ok(w));
    assert(tag_at(w, "type"@) == "message"@);
    assert(field(content[0], "annotations"@) is None);
    reveal_with_fuel(message_parts, 2);
    assert(message_parts(content, phase, 1) =~= seq![message_part(content[0], phase)->0]);
    let t = s.item(w);
    assert(t.items.last() == w);
}

/// What the extras of a text say of it.
proof fn lemma_extras(v: JsonView, phase: Option<Seq<char>>)
    requires
        message_part(v, phase) is Some,
    ensures
        ({
            let metadata = message_part(v, phase)->0->Text_provider_metadata;
            let refused = tag_at(v, "type"@) == "refusal"@;
            &&& openai_extra(metadata, "phase"@) == phase
            &&& (openai_extra(metadata, "content_type"@) == Some("refusal"@)) == refused
        }),
{
    lemma_names();
    lemma_kinds();
    let refused = tag_at(v, "type"@) == "refusal"@;
    let annotations = items_at(v, "annotations"@);
    let key = if refused {
        "content_type"@
    } else {
        "annotations"@
    };
    let value = if refused {
        JsonView::String("refusal"@)
    } else {
        JsonView::Array(annotations)
    };
    let old_extras = phase_extras(phase);
    let more = openai_member(key, value);
    if refused || annotations.len() > 0 {
        lemma_merge_at(old_extras, more, "openai"@);
        if phase is Some {
            let t = old_extras["openai"@]->Object_0;
            let i = more["openai"@]->Object_0;
            lemma_merge_at(t, i, "phase"@);
            lemma_merge_at(t, i, key);
            lemma_merge_at(t, i, "content_type"@);
        }
    }
}

} // verus!
