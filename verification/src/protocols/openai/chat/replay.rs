//! What is decoded from a response is replayed in the next request.
use vstd::prelude::*;

use super::request::{call_json, parts_upto, AssistantView};
use super::types::{
    call_ok, call_parts, indexed_part, message_ok, message_parts, or_empty, reasoning_parts,
    refusal_parts, text_parts,
};
use super::ChatDialect;
use crate::json::{field, JsonView};
use crate::message::{AssistantPartView, ToolCallView};
use crate::metadata::no_metadata;
use crate::wire::{items_at, list_at, tag_at, text_at};

verus! {

proof fn lemma_names()
    ensures
        "role"@.len() == 4,
        "type"@.len() == 4,
        "name"@.len() == 4,
        "id"@.len() == 2,
        "content"@.len() == 7,
        "refusal"@.len() == 7,
        "content"@ != "refusal"@,
        "function"@.len() == 8,
        "arguments"@.len() == 9,
        "reasoning"@.len() == 9,
        "tool_calls"@.len() == 10,
        "annotations"@.len() == 11,
        "function_call"@.len() == 13,
        "reasoning_content"@.len() == 17,
        "reasoning_details"@.len() == 17,
        "reasoning_content"@ != "reasoning_details"@,
        "type"@ != "name"@,
{
    reveal_strlit("role");
    reveal_strlit("type");
    reveal_strlit("name");
    reveal_strlit("id");
    reveal_strlit("content");
    reveal_strlit("refusal");
    reveal_strlit("function");
    reveal_strlit("arguments");
    reveal_strlit("reasoning");
    reveal_strlit("tool_calls");
    reveal_strlit("annotations");
    reveal_strlit("function_call");
    reveal_strlit("reasoning_content");
    reveal_strlit("reasoning_details");
    assert("content"@[0] != "refusal"@[0]);
    assert("type"@[0] != "name"@[0]);
    assert("reasoning_content"@[10] != "reasoning_details"@[10]);
}

/// Whether a part is a call that came with nothing but its id, its name and its
/// arguments.
spec fn is_bare_call(part: AssistantPartView) -> bool {
    part matches AssistantPartView::ToolCall(call) && call == (ToolCallView {
        item_id: None,
        provider_call_id: None,
        provider_metadata: no_metadata(),
        ..call
    })
}

/// Bare calls behind other parts are lowered in order.
proof fn lemma_calls(
    content: Seq<AssistantPartView>,
    dialect: ChatDialect,
    from: int,
    n: int,
)
    requires
        0 <= from <= n <= content.len(),
        forall|i: int| from <= i < n ==> is_bare_call(#[trigger] content[i]),
    ensures
        parts_upto(content, dialect, None, n) == (AssistantView {
            calls: parts_upto(content, dialect, None, from).calls + Seq::new(
                (n - from) as nat,
                |i: int| call_json(content[from + i]->ToolCall_0),
            ),
            ..parts_upto(content, dialect, None, from)
        }),
    decreases n,
{
    let before = parts_upto(content, dialect, None, from);
    let calls = Seq::new((n - from) as nat, |i: int| call_json(content[from + i]->ToolCall_0));
    if n > from {
        lemma_calls(content, dialect, from, n - 1);
        let fewer = Seq::new(
            (n - 1 - from) as nat,
            |i: int| call_json(content[from + i]->ToolCall_0),
        );
        assert(is_bare_call(content[n - 1]));
        assert((before.calls + fewer).push(call_json(content[n - 1]->ToolCall_0)) =~= before.calls
            + calls);
    } else {
        assert(before.calls + calls =~= before.calls);
    }
}

/// A call that is sent decodes to itself.
proof fn lemma_sent_call(part: AssistantPartView, i: int)
    requires
        is_bare_call(part),
    ensures
        call_ok(call_json(part->ToolCall_0)),
        indexed_part(call_json(part->ToolCall_0), i) == part,
{
    lemma_names();
    let w = call_json(part->ToolCall_0);
    assert(text_at(w, "id"@) == Some(part->ToolCall_0.call_id));
}

/// The calls of a message come with nothing but ids, names and arguments.
proof fn lemma_bare_calls(v: JsonView)
    ensures
        forall|i: int| 0 <= i < call_parts(v).len() ==> is_bare_call(#[trigger] call_parts(v)[i]),
{
}

/// Parts are lowered alike behind the same beginning.
proof fn lemma_beginning(
    a: Seq<AssistantPartView>,
    b: Seq<AssistantPartView>,
    dialect: ChatDialect,
    n: int,
)
    requires
        0 <= n <= a.len(),
    ensures
        parts_upto(a + b, dialect, None, n) == parts_upto(a, dialect, None, n),
    decreases n,
{
    if n > 0 {
        lemma_beginning(a, b, dialect, n - 1);
        assert((a + b)[n - 1] == a[n - 1]);
    }
}

/// What comes before the calls of a message.
proof fn lemma_before_calls(v: JsonView, dialect: ChatDialect)
    ensures
        ({
            let before = reasoning_parts(v, dialect) + text_parts(v) + refusal_parts(v);
            let s = parts_upto(before, dialect, None, before.len() as int);
            &&& s.text == or_empty(text_at(v, "content"@)) + or_empty(text_at(v, "refusal"@))
            &&& s.calls == Seq::<JsonView>::empty()
            &&& dialect is OpenRouter && items_at(v, "reasoning_details"@).len() > 0
                ==> s.reasoning.details == items_at(v, "reasoning_details"@)
        }),
{
    lemma_names();
    let a = reasoning_parts(v, dialect);
    let b = text_parts(v);
    let c = refusal_parts(v);
    let all = a + b + c;
    let n = all.len() as int;
    reveal_with_fuel(parts_upto, 2);
    assert(a.len() <= 1 && b.len() <= 1 && c.len() <= 1);
    let none = parts_upto(all, dialect, None, 0);
    let first = parts_upto(all, dialect, None, a.len() as int);
    if a.len() == 1 {
        assert(all[0] == a[0]);
        assert(first == super::request::with_part(none, a[0], dialect, None));
    }
    assert(first.text == Seq::<char>::empty() && first.calls == Seq::<JsonView>::empty());
    let details = items_at(v, "reasoning_details"@);
    if dialect is OpenRouter && details.len() > 0 {
        assert(list_at(v, "reasoning_details"@) == Some(details));
        assert(a.len() == 1);
        assert(none.reasoning.details + details =~= details);
        assert(first.reasoning.details == details);
    }
    let second = parts_upto(all, dialect, None, (a.len() + b.len()) as int);
    if b.len() == 1 {
        assert(all[a.len() as int] == b[0]);
        assert(second == super::request::with_part(first, b[0], dialect, None));
    }
    assert(second.text =~= or_empty(text_at(v, "content"@)));
    if c.len() == 1 {
        assert(all[n - 1] == c[0]);
        assert(parts_upto(all, dialect, None, n) == super::request::with_part(
            second,
            c[0],
            dialect,
            None,
        ));
    }
    assert(parts_upto(all, dialect, None, n).text =~= or_empty(text_at(v, "content"@)) + or_empty(
        text_at(v, "refusal"@),
    ));
}

/// What a message that is sent reads as.
proof fn lemma_sent_message(s: AssistantView)
    requires
        forall|i: int| 0 <= i < s.calls.len() ==> call_ok(#[trigger] s.calls[i]),
    ensures
        ({
            let sent = s.message();
            &&& message_ok(sent)
            &&& tag_at(sent, "content"@) == s.text
            &&& list_at(sent, "tool_calls"@) == if s.calls.len() > 0 {
                Some(s.calls)
            } else {
                None
            }
            &&& field(sent, "function_call"@) is None
            &&& s.reasoning.details.len() > 0 ==> items_at(sent, "reasoning_details"@)
                == s.reasoning.details
        }),
{
    lemma_names();
    let sent = s.message();
    assert(s.text.len() == 0 ==> s.text =~= Seq::empty());
    assert(field(sent, "refusal"@) is None);
    assert(field(sent, "annotations"@) is None);
    assert(field(sent, "content"@) == Some(
        if s.text.len() == 0 {
            JsonView::Null
        } else {
            JsonView::String(s.text)
        },
    ));
}

/// A message is replayed to the profile that produced it: what is sent is a
/// message with the same calls and the same text, a refusal behind it. The
/// reasoning details of OpenRouter are sent as they came.
pub proof fn decoded_messages_are_replayed(v: JsonView, dialect: ChatDialect)
    ensures
        ({
            let parts = message_parts(v, dialect);
            let sent = parts_upto(parts, dialect, None, parts.len() as int).message();
            &&& message_ok(sent)
            &&& tag_at(sent, "content"@) == or_empty(text_at(v, "content"@)) + or_empty(
                text_at(v, "refusal"@),
            )
            &&& call_parts(sent) == call_parts(v)
            &&& dialect is OpenRouter && items_at(v, "reasoning_details"@).len() > 0 ==> items_at(
                sent,
                "reasoning_details"@,
            ) == items_at(v, "reasoning_details"@)
        }),
{
    lemma_names();
    let before = reasoning_parts(v, dialect) + text_parts(v) + refusal_parts(v);
    let calls = call_parts(v);
    let parts = message_parts(v, dialect);
    let k = before.len() as int;
    let n = parts.len() as int;
    assert(parts =~= before + calls);
    lemma_before_calls(v, dialect);
    lemma_beginning(before, calls, dialect, k);
    lemma_bare_calls(v);
    assert forall|i: int| k <= i < n implies is_bare_call(#[trigger] parts[i]) by {
        assert(parts[i] == calls[i - k]);
    }
    lemma_calls(parts, dialect, k, n);
    let s = parts_upto(parts, dialect, None, n);
    let sent = s.message();
    assert(s.calls.len() == calls.len());
    assert forall|i: int| 0 <= i < calls.len() implies call_ok(#[trigger] s.calls[i])
        && indexed_part(s.calls[i], i) == calls[i] by {
        assert(is_bare_call(calls[i]));
        assert(parts[k + i] == calls[i]);
        assert(s.calls[i] == call_json(calls[i]->ToolCall_0));
        lemma_sent_call(calls[i], i);
    }
    lemma_sent_message(s);
    assert(call_parts(sent) =~= calls);
}

} // verus!
