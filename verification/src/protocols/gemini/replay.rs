//! What is decoded from a response is replayed in the next request.
use vstd::prelude::*;

use super::request::{signature_in, with_part, AssistantView, CallEntryView};
use super::types::{
    flushed, function_call, is_thought, part_ok, signature_extras, signed_extras, text_of, Parts,
};
use crate::json::{json_parse, json_text, JsonView};
use crate::message::{AssistantPartView, ReasoningContentView, ReasoningPartView};
use crate::metadata::no_metadata;
use crate::util::{lemma_merge_at, merge_objects};
use crate::wire::{text_at, value_at};

verus! {

proof fn lemma_names()
    ensures
        "text"@ != "args"@,
        "text"@ != "name"@,
        "args"@ != "name"@,
        "text"@.len() == 4,
        "args"@.len() == 4,
        "name"@.len() == 4,
        "id"@.len() == 2,
        "thought"@.len() == 7,
        "thoughtSignature"@.len() == 16,
        "functionCall"@.len() == 12,
{
    reveal_strlit("text");
    reveal_strlit("args");
    reveal_strlit("name");
    reveal_strlit("id");
    reveal_strlit("thought");
    reveal_strlit("thoughtSignature");
    reveal_strlit("functionCall");
    assert("text"@[0] != "args"@[0]);
    assert("text"@[0] != "name"@[0]);
    assert("args"@[0] != "name"@[0]);
}

/// A signature can be read from the extras that hold it.
proof fn lemma_signature(signature: Option<Seq<char>>)
    ensures
        signature_in(signed_extras(signature)) == signature,
{
}

/// A text is replayed with its signature: what is sent decodes to the same
/// text.
pub proof fn decoded_texts_are_replayed(s: AssistantView, v: JsonView)
    requires
        text_of(v) is Some,
    ensures
        match with_part(s, text_of(v)->0) {
            Ok(t) => {
                &&& t.parts.len() == s.parts.len() + 1
                &&& t == (AssistantView { parts: s.parts.push(t.parts.last()), ..s })
                &&& part_ok(t.parts.last())
                &&& !is_thought(t.parts.last())
                &&& value_at(t.parts.last(), "functionCall"@) is None
                &&& text_of(t.parts.last()) == text_of(v)
            },
            Err(_) => false,
        },
{
    lemma_names();
    let part = text_of(v)->0;
    lemma_signature(text_at(v, "thoughtSignature"@));
    if let Ok(t) = with_part(s, part) {
        let w = t.parts.last();
        assert(text_at(w, "text"@) == Some(part->Text_text));
        assert(text_at(w, "thoughtSignature"@) == text_at(v, "thoughtSignature"@));
        assert(t.parts =~= s.parts.push(w));
    }
}

/// A call is replayed with its id and its signature: what is sent decodes to
/// the same call. The arguments of a call are JSON text: the call is sent with
/// the value that the text reads as.
pub proof fn decoded_calls_are_replayed(
    s: AssistantView,
    v: JsonView,
    call: JsonView,
    synthetic: Seq<char>,
    arguments: JsonView,
)
    requires
        json_parse(function_call(v, call, synthetic).arguments) == Ok::<JsonView, Seq<char>>(
            arguments,
        ),
        json_text(arguments) == function_call(v, call, synthetic).arguments,
        !(arguments is Null),
    ensures
        match with_part(s, AssistantPartView::ToolCall(function_call(v, call, synthetic))) {
            Ok(t) => {
                let made = function_call(v, call, synthetic);
                let w = t.parts.last();
                &&& t.parts == s.parts.push(w)
                &&& t.warnings == s.warnings
                &&& t.calls == s.calls.insert(
                    made.call_id,
                    CallEntryView { name: made.name, item_id: made.item_id },
                )
                &&& part_ok(w)
                &&& !is_thought(w)
                &&& value_at(w, "functionCall"@) is Some
                &&& function_call(w, value_at(w, "functionCall"@)->0, synthetic) == made
            },
            Err(_) => false,
        },
{
    lemma_names();
    let made = function_call(v, call, synthetic);
    lemma_signature(text_at(v, "thoughtSignature"@));
    if let Ok(t) = with_part(s, AssistantPartView::ToolCall(made)) {
        let w = t.parts.last();
        let sent = value_at(w, "functionCall"@)->0;
        assert(text_at(sent, "id"@) == made.item_id);
        assert(text_at(sent, "name"@) == Some(made.name));
        assert(value_at(sent, "args"@) == Some(arguments));
        assert(text_at(w, "thoughtSignature"@) == text_at(v, "thoughtSignature"@));
        assert(t.parts =~= s.parts.push(w));
    }
}

proof fn lemma_fresh_extras(signature: Seq<char>)
    ensures
        merge_objects(no_metadata(), signature_extras(signature)) == signature_extras(signature),
{
    let extras = signature_extras(signature);
    let merged = merge_objects(no_metadata(), extras);
    assert forall|k: Seq<char>|
        merged.contains_key(k) == extras.contains_key(k) && (merged.contains_key(k) ==> merged[k]
            == extras[k]) by {
        lemma_merge_at(no_metadata(), extras, k);
    }
    assert(merged =~= extras);
}

/// Signed reasoning is replayed: what is sent decodes to reasoning with the same
/// visible text and the same signature. Reasoning without a signature is left
/// out.
pub proof fn signed_reasoning_is_replayed(s: AssistantView, part: ReasoningPartView)
    ensures
        match with_part(s, AssistantPartView::Reasoning(part)) {
            Ok(t) => match signature_in(part.provider_metadata) {
                Some(signature) => {
                    let w = t.parts.last();
                    let none = Parts {
                        content: Seq::empty(),
                        thoughts: Seq::empty(),
                        extras: no_metadata(),
                    };
                    &&& t.parts.len() == s.parts.len() + 1
                    &&& t == (AssistantView { parts: s.parts.push(w), ..s })
                    &&& part_ok(w)
                    &&& flushed(super::types::with_part(none, w, Seq::empty())).content == seq![
                        AssistantPartView::Reasoning(
                            ReasoningPartView {
                                id: None,
                                content: seq![
                                    ReasoningContentView::Summary { text: part.visible_text() },
                                ],
                                provider_metadata: signature_extras(signature),
                            },
                        ),
                    ]
                },
                None => t == s,
            },
            Err(_) => false,
        },
{
    lemma_names();
    if let Some(signature) = signature_in(part.provider_metadata) {
        lemma_fresh_extras(signature);
        if let Ok(t) = with_part(s, AssistantPartView::Reasoning(part)) {
            let w = t.parts.last();
            let none = Parts {
                content: Seq::empty(),
                thoughts: Seq::empty(),
                extras: no_metadata(),
            };
            assert(t.parts =~= s.parts.push(w));
            assert(is_thought(w));
            let text = part.visible_text();
            let read = super::types::with_part(none, w, Seq::empty());
            assert(read.thoughts =~= seq![ReasoningContentView::Summary { text }]);
            assert(read.extras == signature_extras(signature));
            assert(flushed(read).content =~= seq![flushed(read).content[0]]);
        }
    }
}

} // verus!
