//! What complete answers decode to.
use vstd::prelude::*;

use crate::error::ErrorView;
use crate::json::JsonView;
use crate::laws::{as_items, as_text, joined, lacks, says, value_in};
use crate::message::AssistantPartView;
use crate::protocols::anthropic;
use crate::protocols::gemini;
use crate::protocols::openai::chat;
use crate::protocols::openai::chat::ChatDialect;
use crate::protocols::openai::responses;
use crate::protocols::{finalized, without_calls, ApiProfile};
use crate::response::{text_upto, FinishView, GenerateResultView};

verus! {

/// The text of some parts.
pub open spec fn text_of(content: Seq<AssistantPartView>) -> Seq<char> {
    text_upto(content, content.len() as int)
}

proof fn lemma_prefix(a: Seq<AssistantPartView>, b: Seq<AssistantPartView>, n: int)
    requires
        0 <= n <= a.len(),
        n <= b.len(),
        forall|i: int| 0 <= i < n ==> a[i] == b[i],
    ensures
        text_upto(a, n) == text_upto(b, n),
    decreases n,
{
    if n > 0 {
        lemma_prefix(a, b, n - 1);
    }
}

/// The text of two lists of parts is that of one after the other.
pub proof fn lemma_text_of(a: Seq<AssistantPartView>, b: Seq<AssistantPartView>)
    ensures
        text_of(a + b) == text_of(a) + text_of(b),
    decreases b.len(),
{
    if b.len() == 0 {
        assert(a + b =~= a);
        assert(text_of(a) + Seq::<char>::empty() =~= text_of(a));
    } else {
        let less = b.drop_last();
        lemma_text_of(a, less);
        let all = a + b;
        lemma_prefix(all, a + less, all.len() - 1);
        lemma_prefix(b, less, b.len() - 1);
        if let AssistantPartView::Text { text, .. } = b.last() {
            assert(text_of(a) + text_of(less) + text =~= text_of(a) + (text_of(less) + text));
        }
    }
}

/// The text of a part.
pub open spec fn part_text(part: AssistantPartView) -> Seq<char> {
    match part {
        AssistantPartView::Text { text, .. } => text,
        _ => Seq::empty(),
    }
}

pub proof fn lemma_text_push(a: Seq<AssistantPartView>, part: AssistantPartView)
    ensures
        text_of(a.push(part)) == text_of(a) + part_text(part),
{
    let all = a.push(part);
    lemma_prefix(all, a, a.len() as int);
    assert(all[all.len() - 1] == part);
    assert(text_of(a) + Seq::<char>::empty() =~= text_of(a));
}

proof fn lemma_without_calls(content: Seq<AssistantPartView>)
    ensures
        text_of(without_calls(content)) == text_of(content),
    decreases content.len(),
{
    if content.len() > 0 {
        let less = content.drop_last();
        lemma_without_calls(less);
        lemma_text_push(less, content.last());
        assert(less.push(content.last()) =~= content);
        lemma_text_push(without_calls(less), content.last());
        assert(text_of(less) + Seq::<char>::empty() =~= text_of(less));
    }
}

proof fn lemma_same_texts(a: Seq<AssistantPartView>, b: Seq<AssistantPartView>, n: int)
    requires
        0 <= n <= a.len(),
        a.len() == b.len(),
        forall|i: int| 0 <= i < n ==> (a[i] is Text) == (b[i] is Text) && part_text(a[i])
            == part_text(b[i]),
    ensures
        text_upto(a, n) == text_upto(b, n),
    decreases n,
{
    if n > 0 {
        lemma_same_texts(a, b, n - 1);
        assert((a[n - 1] is Text) == (b[n - 1] is Text));
    }
}

/// How an answer finishes never changes its text; a natural stop with tool
/// calls asks for them, and any other reason stays.
pub proof fn finishing_keeps_the_text(
    content: Seq<AssistantPartView>,
    finish: FinishView,
    profile: ApiProfile,
)
    ensures
        finalized(content, finish, profile) matches Ok((parts, end)) ==> {
            &&& text_of(parts) == text_of(content)
            &&& end.raw == finish.raw
            &&& !(finish.reason is Stop) ==> end.reason == finish.reason
            &&& finish.reason is Stop ==> end.reason is Stop || end.reason is ToolCalls
        },
{
    lemma_without_calls(content);
    if let Ok((parts, end)) = finalized(content, finish, profile) {
        if !finish.reason.discards() {
            lemma_same_texts(parts, content, content.len() as int);
        }
    }
}

// ---------------------------------------------------------------------------
// Chat Completions
// ---------------------------------------------------------------------------

/// The message of the first choice of a completion.
pub open spec fn chat_message(v: JsonView) -> JsonView {
    value_in(as_items(value_in(v, "choices"@))[0], "message"@)
}

/// Whether the first choice of a completion says why it finished.
pub open spec fn chat_finished(v: JsonView, reason: Seq<char>) -> bool {
    says(as_items(value_in(v, "choices"@))[0], "finish_reason"@, reason)
}

/// A completion decodes to the text of its message, content first and refusal
/// after it, character for character; a refusal and a filter finish it as
/// filtered, a cut as cut, and no cut answer looks complete.
#[verifier::rlimit(40)]
pub proof fn completions_are_decoded_as_they_are(
    v: JsonView,
    dialect: ChatDialect,
    result: GenerateResultView,
)
    requires
        chat::types::decoded_completion(v, dialect) == Ok::<GenerateResultView, ErrorView>(result),
    ensures
        text_of(result.content) == as_text(value_in(chat_message(v), "content"@)) + as_text(
            value_in(chat_message(v), "refusal"@),
        ),
        as_text(value_in(chat_message(v), "refusal"@)).len() > 0 ==> result.finish.reason
            is ContentFilter,
        as_text(value_in(chat_message(v), "refusal"@)).len() == 0 ==> {
            &&& chat_finished(v, "length"@) ==> result.finish.reason is Length
            &&& chat_finished(v, "content_filter"@) ==> result.finish.reason is ContentFilter
            &&& chat_finished(v, "tool_calls"@) || chat_finished(v, "function_call"@)
                ==> result.finish.reason is ToolCalls
            &&& chat_finished(v, "error"@) ==> result.finish.reason is Error
            &&& chat_finished(v, "stop"@) ==> result.finish.reason is Stop || result.finish.reason
                is ToolCalls
            &&& forall|reason: Seq<char>| #[trigger]
                chat_finished(v, reason) && result.finish.reason is Stop ==> reason == "stop"@
        },
        result.response.id == match value_in(v, "id"@) {
            JsonView::String(id) => Some(id),
            _ => None,
        },
        result.response.model == match value_in(v, "model"@) {
            JsonView::String(model) => Some(model),
            _ => None,
        },
{
    lemma_chat_reasons();
    let choice = as_items(value_in(v, "choices"@))[0];
    let parts = chat::types::choice_parts(choice, dialect);
    finishing_keeps_the_text(parts, chat::types::choice_finish(choice), dialect.api());
    let m = chat_message(v);
    let a = chat::types::reasoning_parts(m, dialect);
    let b = chat::types::text_parts(m);
    let c = chat::types::refusal_parts(m);
    let d = chat::types::call_parts(m);
    let content = as_text(value_in(m, "content"@));
    let refusal = as_text(value_in(m, "refusal"@));
    lemma_text_of(a, b);
    lemma_text_of(a + b, c);
    lemma_text_of(a + b + c, d);
    lemma_no_texts(a);
    lemma_no_texts(d);
    assert(text_of(b) =~= content) by {
        if content.len() > 0 {
            lemma_text_push(Seq::empty(), b[0]);
            assert(b =~= Seq::empty().push(b[0]));
        }
    }
    assert(text_of(c) =~= refusal) by {
        if refusal.len() > 0 {
            lemma_text_push(Seq::empty(), c[0]);
            assert(c =~= Seq::empty().push(c[0]));
        }
    }
    assert(Seq::<char>::empty() + content =~= content);
    assert(content + refusal + Seq::<char>::empty() =~= content + refusal);
    if m is Null {
        assert(parts =~= Seq::empty());
        assert(content + refusal =~= Seq::empty());
    } else {
        assert(parts == a + b + c + d);
    }
}

proof fn lemma_no_texts(content: Seq<AssistantPartView>)
    requires
        forall|i: int| 0 <= i < content.len() ==> !((#[trigger] content[i]) is Text),
    ensures
        text_of(content) == Seq::<char>::empty(),
    decreases content.len(),
{
    if content.len() > 0 {
        let less = content.drop_last();
        assert forall|i: int| 0 <= i < less.len() implies !((#[trigger] less[i]) is Text) by {
            assert(less[i] == content[i]);
        }
        lemma_no_texts(less);
        lemma_prefix(content, less, less.len() as int);
        assert(!(content[content.len() - 1] is Text));
    }
}

// ---------------------------------------------------------------------------
// Messages
// ---------------------------------------------------------------------------

/// The text of a block of a message.
pub open spec fn block_text(v: JsonView) -> Seq<char> {
    if says(v, "type"@, "text"@) {
        as_text(value_in(v, "text"@))
    } else {
        Seq::empty()
    }
}

proof fn lemma_block_texts(content: Seq<JsonView>, n: int)
    requires
        0 <= n <= content.len(),
    ensures
        text_of(anthropic::types::block_parts(content, n)) == joined(
            Seq::new(n as nat, |i: int| block_text(content[i])),
        ),
    decreases n,
{
    let all = Seq::new(n as nat, |i: int| block_text(content[i]));
    if n > 0 {
        lemma_block_texts(content, n - 1);
        assert(all.drop_last() =~= Seq::new((n - 1) as nat, |i: int| block_text(content[i])));
        let v = content[n - 1];
        reveal_strlit("text");
        assert("text"@.len() == 4);
        assert(as_text(value_in(v, "type"@)) == "text"@ <==> says(v, "type"@, "text"@));
        let before = anthropic::types::block_parts(content, n - 1);
        match anthropic::types::block_part(v) {
            Some(part) => {
                lemma_text_push(before, part);
                assert(part_text(part) == block_text(v));
            },
            None => {
                assert(text_of(before) + Seq::<char>::empty() =~= text_of(before));
            },
        }
    }
}

/// A message decodes to the text of its text blocks, joined in order, and says
/// truly how it stopped: a cut message never looks complete.
pub proof fn messages_are_decoded_as_they_are(v: JsonView, result: GenerateResultView)
    requires
        anthropic::types::decoded_message(v) == Ok::<GenerateResultView, ErrorView>(result),
    ensures
        ({
            let content = as_items(value_in(v, "content"@));
            text_of(result.content) == joined(
                Seq::new(content.len(), |i: int| block_text(content[i])),
            )
        }),
        says(v, "stop_reason"@, "max_tokens"@) || says(
            v,
            "stop_reason"@,
            "model_context_window_exceeded"@,
        ) ==> result.finish.reason is Length,
        says(v, "stop_reason"@, "refusal"@) ==> result.finish.reason is ContentFilter,
        says(v, "stop_reason"@, "tool_use"@) ==> result.finish.reason is ToolCalls,
        says(v, "stop_reason"@, "pause_turn"@) || says(v, "stop_reason"@, "compaction"@)
            ==> result.finish.reason is Paused,
        says(v, "stop_reason"@, "end_turn"@) || says(v, "stop_reason"@, "stop_sequence"@)
            ==> result.finish.reason is Stop || result.finish.reason is ToolCalls,
        forall|reason: Seq<char>| #[trigger]
            says(v, "stop_reason"@, reason) ==> result.finish.raw == Some(reason) && (
            result.finish.reason is Stop ==> reason == "end_turn"@ || reason == "stop_sequence"@),
        result.response.id == match value_in(v, "id"@) {
            JsonView::String(id) => Some(id),
            _ => None,
        },
        result.response.model == match value_in(v, "model"@) {
            JsonView::String(model) => Some(model),
            _ => None,
        },
{
    lemma_message_reasons();
    let content = as_items(value_in(v, "content"@));
    assert(content =~= crate::wire::items_at(v, "content"@));
    lemma_block_texts(content, content.len() as int);
    finishing_keeps_the_text(
        anthropic::types::block_parts(content, content.len() as int),
        anthropic::types::finish_of(crate::wire::text_at(v, "stop_reason"@)),
        ApiProfile::AnthropicMessages,
    );
}

// ---------------------------------------------------------------------------
// Gemini
// ---------------------------------------------------------------------------

/// The text of a part of a Gemini answer: that of a thought or a call is none.
pub open spec fn answer_text(v: JsonView) -> Seq<char> {
    if value_in(v, "thought"@) == JsonView::Bool(true) || !lacks(v, "functionCall"@) {
        Seq::empty()
    } else {
        as_text(value_in(v, "text"@))
    }
}

proof fn lemma_flushed(p: gemini::types::Parts)
    ensures
        text_of(gemini::types::flushed(p).content) == text_of(p.content),
{
    let f = gemini::types::flushed(p).content;
    if f != p.content {
        lemma_text_push(p.content, f.last());
        assert(text_of(p.content) + Seq::<char>::empty() =~= text_of(p.content));
    }
}

proof fn lemma_answer_texts(parts: Seq<JsonView>, ids: Seq<Seq<char>>, n: int)
    requires
        0 <= n <= parts.len(),
    ensures
        text_of(gemini::types::parts_upto(parts, ids, n).content) == joined(
            Seq::new(n as nat, |i: int| answer_text(parts[i])),
        ),
    decreases n,
{
    let all = Seq::new(n as nat, |i: int| answer_text(parts[i]));
    if n > 0 {
        lemma_answer_texts(parts, ids, n - 1);
        assert(all.drop_last() =~= Seq::new((n - 1) as nat, |i: int| answer_text(parts[i])));
        let v = parts[n - 1];
        let before = gemini::types::parts_upto(parts, ids, n - 1);
        let after = gemini::types::parts_upto(parts, ids, n);
        let f = gemini::types::flushed(before);
        lemma_flushed(before);
        assert(text_of(before.content) + Seq::<char>::empty() =~= text_of(before.content));
        if value_in(v, "thought"@) != JsonView::Bool(true) {
            if after.content.len() > f.content.len() {
                lemma_text_push(f.content, after.content.last());
                assert(part_text(after.content.last()) =~= answer_text(v));
            } else {
                assert(answer_text(v) =~= Seq::empty());
            }
        }
    }
}

/// The parts of the first candidate of a Gemini answer.
pub open spec fn answer_parts(v: JsonView) -> Seq<JsonView> {
    as_items(
        value_in(value_in(as_items(value_in(v, "candidates"@))[0], "content"@), "parts"@),
    )
}

/// Whether the first candidate of a Gemini answer says why it finished.
pub open spec fn answer_finished(v: JsonView, reason: Seq<char>) -> bool {
    says(as_items(value_in(v, "candidates"@))[0], "finishReason"@, reason)
}

/// A Gemini answer decodes to the texts of its first candidate that are no
/// thoughts, joined in order, and says truly how it finished: a cut or filtered
/// answer never looks complete.
#[verifier::rlimit(40)]
pub proof fn answers_are_decoded_as_they_are(
    v: JsonView,
    ids: Seq<Seq<char>>,
    result: GenerateResultView,
)
    requires
        gemini::types::decoded_response(v, ids) == Ok::<GenerateResultView, ErrorView>(result),
        as_items(value_in(v, "candidates"@)).len() > 0,
    ensures
        ({
            let parts = answer_parts(v);
            text_of(result.content) == joined(
                Seq::new(parts.len(), |i: int| answer_text(parts[i])),
            )
        }),
        answer_finished(v, "MAX_TOKENS"@) ==> result.finish.reason is Length,
        answer_finished(v, "SAFETY"@) || answer_finished(v, "RECITATION"@) || answer_finished(
            v,
            "BLOCKLIST"@,
        ) || answer_finished(v, "PROHIBITED_CONTENT"@) || answer_finished(v, "SPII"@)
            || answer_finished(v, "IMAGE_SAFETY"@) || answer_finished(
            v,
            "IMAGE_PROHIBITED_CONTENT"@,
        ) || answer_finished(v, "ESCALATION"@) ==> result.finish.reason is ContentFilter,
        answer_finished(v, "STOP"@) ==> result.finish.reason is Stop || result.finish.reason
            is ToolCalls,
        !answer_finished(v, "MALFORMED_FUNCTION_CALL"@) && !answer_finished(
            v,
            "MISSING_THOUGHT_SIGNATURE"@,
        ) && !answer_finished(v, "MALFORMED_RESPONSE"@),
        forall|reason: Seq<char>| #[trigger]
            answer_finished(v, reason) ==> result.finish.raw == Some(reason) && (
            result.finish.reason is Stop || result.finish.reason is ToolCalls ==> reason
                == "STOP"@),
        result.response.id == match value_in(v, "responseId"@) {
            JsonView::String(id) => Some(id),
            _ => None,
        },
        result.response.model == match value_in(v, "modelVersion"@) {
            JsonView::String(model) => Some(model),
            _ => None,
        },
{
    lemma_answer_reasons();
    let parts = answer_parts(v);
    let outcome = gemini::types::outcome_of(v, ids);
    let candidate = as_items(value_in(v, "candidates"@))[0];
    assert(parts =~= gemini::types::parts_of(candidate));
    lemma_answer_texts(parts, ids, parts.len() as int);
    lemma_flushed(gemini::types::parts_upto(parts, ids, parts.len() as int));
    finishing_keeps_the_text(outcome.content, outcome.finish, ApiProfile::GeminiGenerateContent);
}

// ---------------------------------------------------------------------------
// Responses
// ---------------------------------------------------------------------------

/// The text of a part of a message item.
pub open spec fn content_text(v: JsonView) -> Seq<char> {
    if says(v, "type"@, "output_text"@) {
        as_text(value_in(v, "text"@))
    } else if says(v, "type"@, "refusal"@) {
        as_text(value_in(v, "refusal"@))
    } else {
        Seq::empty()
    }
}

/// The text of an output item.
pub open spec fn item_text(v: JsonView) -> Seq<char> {
    let content = as_items(value_in(v, "content"@));
    if says(v, "type"@, "message"@) {
        joined(Seq::new(content.len(), |i: int| content_text(content[i])))
    } else {
        Seq::empty()
    }
}

proof fn lemma_content_texts(content: Seq<JsonView>, phase: Option<Seq<char>>, n: int)
    requires
        0 <= n <= content.len(),
    ensures
        text_of(responses::types::message_parts(content, phase, n)) == joined(
            Seq::new(n as nat, |i: int| content_text(content[i])),
        ),
    decreases n,
{
    let all = Seq::new(n as nat, |i: int| content_text(content[i]));
    if n > 0 {
        lemma_content_texts(content, phase, n - 1);
        assert(all.drop_last() =~= Seq::new((n - 1) as nat, |i: int| content_text(content[i])));
        let v = content[n - 1];
        reveal_strlit("output_text");
        reveal_strlit("refusal");
        assert("output_text"@.len() == 11 && "refusal"@.len() == 7);
        let before = responses::types::message_parts(content, phase, n - 1);
        assert(text_of(before) + Seq::<char>::empty() =~= text_of(before));
        if let Some(part) = responses::types::message_part(v, phase) {
            lemma_text_push(before, part);
        }
    }
}

proof fn lemma_output_texts(output: Seq<JsonView>, n: int)
    requires
        0 <= n <= output.len(),
        responses::types::output_parts(output, n) is Ok,
    ensures
        text_of(responses::types::output_parts(output, n)->Ok_0) == joined(
            Seq::new(n as nat, |i: int| item_text(output[i])),
        ),
    decreases n,
{
    let all = Seq::new(n as nat, |i: int| item_text(output[i]));
    if n > 0 {
        lemma_output_texts(output, n - 1);
        assert(all.drop_last() =~= Seq::new((n - 1) as nat, |i: int| item_text(output[i])));
        let v = output[n - 1];
        lemma_item_reasons();
        reveal_strlit("message");
        assert("message"@.len() == 7);
        assert(as_text(value_in(v, "type"@)) == "message"@ <==> says(v, "type"@, "message"@));
        let before = responses::types::output_parts(output, n - 1)->Ok_0;
        assert(text_of(before) + Seq::<char>::empty() =~= text_of(before));
        let content = as_items(value_in(v, "content"@));
        assert(content =~= crate::wire::items_at(v, "content"@));
        lemma_content_texts(content, crate::wire::text_at(v, "phase"@), content.len() as int);
        if let Ok(Some(more)) = responses::types::decoded_item(v) {
            lemma_text_of(before, more);
            if !says(v, "type"@, "message"@) {
                lemma_no_texts(more);
            }
        }
    }
}

/// A response decodes to the texts of its message items, answers and refusals
/// alike, joined in order.
pub proof fn responses_are_decoded_as_they_are(
    v: JsonView,
    model: Seq<char>,
    profile: ApiProfile,
    result: GenerateResultView,
)
    requires
        responses::types::decoded_response(v, model, profile) == Ok::<
            GenerateResultView,
            ErrorView,
        >(result),
    ensures
        ({
            let output = as_items(value_in(v, "output"@));
            text_of(result.content) == joined(
                Seq::new(output.len(), |i: int| item_text(output[i])),
            )
        }),
        result.response.id == match value_in(v, "id"@) {
            JsonView::String(id) => Some(id),
            _ => None,
        },
        result.response.model == match value_in(v, "model"@) {
            JsonView::String(model) => Some(model),
            _ => None,
        },
{
    let output = as_items(value_in(v, "output"@));
    assert(output =~= crate::wire::items_at(v, "output"@));
    lemma_output_texts(output, output.len() as int);
    let parts = responses::types::output_parts(output, output.len() as int)->Ok_0;
    finishing_keeps_the_text(parts, responses::types::response_finish(v, parts), profile);
}

proof fn lemma_chat_reasons()
    ensures
        "stop"@ != "length"@,
        "stop"@ != "tool_calls"@,
        "stop"@ != "function_call"@,
        "stop"@ != "content_filter"@,
        "stop"@ != "error"@,
        "length"@ != "tool_calls"@,
        "length"@ != "function_call"@,
        "length"@ != "content_filter"@,
        "length"@ != "error"@,
        "tool_calls"@ != "function_call"@,
        "tool_calls"@ != "content_filter"@,
        "tool_calls"@ != "error"@,
        "function_call"@ != "content_filter"@,
        "function_call"@ != "error"@,
        "content_filter"@ != "error"@,
{
    reveal_strlit("stop");
    reveal_strlit("length");
    reveal_strlit("tool_calls");
    reveal_strlit("function_call");
    reveal_strlit("content_filter");
    reveal_strlit("error");
    assert("stop"@.len() == 4 && "length"@.len() == 6 && "tool_calls"@.len() == 10 && "function_call"@.len() == 13 && "content_filter"@.len() == 14 && "error"@.len() == 5);
}

proof fn lemma_message_reasons()
    ensures
        "end_turn"@ != "stop_sequence"@,
        "end_turn"@ != "max_tokens"@,
        "end_turn"@ != "model_context_window_exceeded"@,
        "end_turn"@ != "tool_use"@,
        "end_turn"@ != "refusal"@,
        "end_turn"@ != "pause_turn"@,
        "end_turn"@ != "compaction"@,
        "stop_sequence"@ != "max_tokens"@,
        "stop_sequence"@ != "model_context_window_exceeded"@,
        "stop_sequence"@ != "tool_use"@,
        "stop_sequence"@ != "refusal"@,
        "stop_sequence"@ != "pause_turn"@,
        "stop_sequence"@ != "compaction"@,
        "max_tokens"@ != "model_context_window_exceeded"@,
        "max_tokens"@ != "tool_use"@,
        "max_tokens"@ != "refusal"@,
        "max_tokens"@ != "pause_turn"@,
        "max_tokens"@ != "compaction"@,
        "model_context_window_exceeded"@ != "tool_use"@,
        "model_context_window_exceeded"@ != "refusal"@,
        "model_context_window_exceeded"@ != "pause_turn"@,
        "model_context_window_exceeded"@ != "compaction"@,
        "tool_use"@ != "refusal"@,
        "tool_use"@ != "pause_turn"@,
        "tool_use"@ != "compaction"@,
        "refusal"@ != "pause_turn"@,
        "refusal"@ != "compaction"@,
        "pause_turn"@ != "compaction"@,
{
    reveal_strlit("end_turn");
    reveal_strlit("stop_sequence");
    reveal_strlit("max_tokens");
    reveal_strlit("model_context_window_exceeded");
    reveal_strlit("tool_use");
    reveal_strlit("refusal");
    reveal_strlit("pause_turn");
    reveal_strlit("compaction");
    assert("end_turn"@.len() == 8 && "stop_sequence"@.len() == 13 && "max_tokens"@.len() == 10 && "model_context_window_exceeded"@.len() == 29 && "tool_use"@.len() == 8 && "refusal"@.len() == 7 && "pause_turn"@.len() == 10 && "compaction"@.len() == 10);
    assert("end_turn"@[0] != "tool_use"@[0]);
    assert("max_tokens"@[0] != "pause_turn"@[0]);
    assert("max_tokens"@[0] != "compaction"@[0]);
    assert("pause_turn"@[0] != "compaction"@[0]);
}

proof fn lemma_answer_reasons()
    ensures
        "STOP"@ != "MAX_TOKENS"@,
        "STOP"@ != "SAFETY"@,
        "STOP"@ != "RECITATION"@,
        "STOP"@ != "BLOCKLIST"@,
        "STOP"@ != "PROHIBITED_CONTENT"@,
        "STOP"@ != "SPII"@,
        "STOP"@ != "IMAGE_SAFETY"@,
        "STOP"@ != "IMAGE_PROHIBITED_CONTENT"@,
        "STOP"@ != "ESCALATION"@,
        "STOP"@ != "MALFORMED_FUNCTION_CALL"@,
        "STOP"@ != "MISSING_THOUGHT_SIGNATURE"@,
        "STOP"@ != "MALFORMED_RESPONSE"@,
        "MAX_TOKENS"@ != "SAFETY"@,
        "MAX_TOKENS"@ != "RECITATION"@,
        "MAX_TOKENS"@ != "BLOCKLIST"@,
        "MAX_TOKENS"@ != "PROHIBITED_CONTENT"@,
        "MAX_TOKENS"@ != "SPII"@,
        "MAX_TOKENS"@ != "IMAGE_SAFETY"@,
        "MAX_TOKENS"@ != "IMAGE_PROHIBITED_CONTENT"@,
        "MAX_TOKENS"@ != "ESCALATION"@,
        "MAX_TOKENS"@ != "MALFORMED_FUNCTION_CALL"@,
        "MAX_TOKENS"@ != "MISSING_THOUGHT_SIGNATURE"@,
        "MAX_TOKENS"@ != "MALFORMED_RESPONSE"@,
        "SAFETY"@ != "RECITATION"@,
        "SAFETY"@ != "BLOCKLIST"@,
        "SAFETY"@ != "PROHIBITED_CONTENT"@,
        "SAFETY"@ != "SPII"@,
        "SAFETY"@ != "IMAGE_SAFETY"@,
        "SAFETY"@ != "IMAGE_PROHIBITED_CONTENT"@,
        "SAFETY"@ != "ESCALATION"@,
        "SAFETY"@ != "MALFORMED_FUNCTION_CALL"@,
        "SAFETY"@ != "MISSING_THOUGHT_SIGNATURE"@,
        "SAFETY"@ != "MALFORMED_RESPONSE"@,
        "RECITATION"@ != "BLOCKLIST"@,
        "RECITATION"@ != "PROHIBITED_CONTENT"@,
        "RECITATION"@ != "SPII"@,
        "RECITATION"@ != "IMAGE_SAFETY"@,
        "RECITATION"@ != "IMAGE_PROHIBITED_CONTENT"@,
        "RECITATION"@ != "ESCALATION"@,
        "RECITATION"@ != "MALFORMED_FUNCTION_CALL"@,
        "RECITATION"@ != "MISSING_THOUGHT_SIGNATURE"@,
        "RECITATION"@ != "MALFORMED_RESPONSE"@,
        "BLOCKLIST"@ != "PROHIBITED_CONTENT"@,
        "BLOCKLIST"@ != "SPII"@,
        "BLOCKLIST"@ != "IMAGE_SAFETY"@,
        "BLOCKLIST"@ != "IMAGE_PROHIBITED_CONTENT"@,
        "BLOCKLIST"@ != "ESCALATION"@,
        "BLOCKLIST"@ != "MALFORMED_FUNCTION_CALL"@,
        "BLOCKLIST"@ != "MISSING_THOUGHT_SIGNATURE"@,
        "BLOCKLIST"@ != "MALFORMED_RESPONSE"@,
        "PROHIBITED_CONTENT"@ != "SPII"@,
        "PROHIBITED_CONTENT"@ != "IMAGE_SAFETY"@,
        "PROHIBITED_CONTENT"@ != "IMAGE_PROHIBITED_CONTENT"@,
        "PROHIBITED_CONTENT"@ != "ESCALATION"@,
        "PROHIBITED_CONTENT"@ != "MALFORMED_FUNCTION_CALL"@,
        "PROHIBITED_CONTENT"@ != "MISSING_THOUGHT_SIGNATURE"@,
        "PROHIBITED_CONTENT"@ != "MALFORMED_RESPONSE"@,
        "SPII"@ != "IMAGE_SAFETY"@,
        "SPII"@ != "IMAGE_PROHIBITED_CONTENT"@,
        "SPII"@ != "ESCALATION"@,
        "SPII"@ != "MALFORMED_FUNCTION_CALL"@,
        "SPII"@ != "MISSING_THOUGHT_SIGNATURE"@,
        "SPII"@ != "MALFORMED_RESPONSE"@,
        "IMAGE_SAFETY"@ != "IMAGE_PROHIBITED_CONTENT"@,
        "IMAGE_SAFETY"@ != "ESCALATION"@,
        "IMAGE_SAFETY"@ != "MALFORMED_FUNCTION_CALL"@,
        "IMAGE_SAFETY"@ != "MISSING_THOUGHT_SIGNATURE"@,
        "IMAGE_SAFETY"@ != "MALFORMED_RESPONSE"@,
        "IMAGE_PROHIBITED_CONTENT"@ != "ESCALATION"@,
        "IMAGE_PROHIBITED_CONTENT"@ != "MALFORMED_FUNCTION_CALL"@,
        "IMAGE_PROHIBITED_CONTENT"@ != "MISSING_THOUGHT_SIGNATURE"@,
        "IMAGE_PROHIBITED_CONTENT"@ != "MALFORMED_RESPONSE"@,
        "ESCALATION"@ != "MALFORMED_FUNCTION_CALL"@,
        "ESCALATION"@ != "MISSING_THOUGHT_SIGNATURE"@,
        "ESCALATION"@ != "MALFORMED_RESPONSE"@,
        "MALFORMED_FUNCTION_CALL"@ != "MISSING_THOUGHT_SIGNATURE"@,
        "MALFORMED_FUNCTION_CALL"@ != "MALFORMED_RESPONSE"@,
        "MISSING_THOUGHT_SIGNATURE"@ != "MALFORMED_RESPONSE"@,
{
    reveal_strlit("STOP");
    reveal_strlit("MAX_TOKENS");
    reveal_strlit("SAFETY");
    reveal_strlit("RECITATION");
    reveal_strlit("BLOCKLIST");
    reveal_strlit("PROHIBITED_CONTENT");
    reveal_strlit("SPII");
    reveal_strlit("IMAGE_SAFETY");
    reveal_strlit("IMAGE_PROHIBITED_CONTENT");
    reveal_strlit("ESCALATION");
    reveal_strlit("MALFORMED_FUNCTION_CALL");
    reveal_strlit("MISSING_THOUGHT_SIGNATURE");
    reveal_strlit("MALFORMED_RESPONSE");
    assert("STOP"@.len() == 4 && "MAX_TOKENS"@.len() == 10 && "SAFETY"@.len() == 6 && "RECITATION"@.len() == 10 && "BLOCKLIST"@.len() == 9 && "PROHIBITED_CONTENT"@.len() == 18 && "SPII"@.len() == 4 && "IMAGE_SAFETY"@.len() == 12 && "IMAGE_PROHIBITED_CONTENT"@.len() == 24 && "ESCALATION"@.len() == 10 && "MALFORMED_FUNCTION_CALL"@.len() == 23 && "MISSING_THOUGHT_SIGNATURE"@.len() == 25 && "MALFORMED_RESPONSE"@.len() == 18);
    assert("STOP"@[1] != "SPII"@[1]);
    assert("MAX_TOKENS"@[0] != "RECITATION"@[0]);
    assert("MAX_TOKENS"@[0] != "ESCALATION"@[0]);
    assert("RECITATION"@[0] != "ESCALATION"@[0]);
    assert("PROHIBITED_CONTENT"@[0] != "MALFORMED_RESPONSE"@[0]);
}

proof fn lemma_item_reasons()
    ensures
        "message"@ != "function_call"@,
        "message"@ != "reasoning"@,
        "message"@ != "compaction"@,
        "function_call"@ != "reasoning"@,
        "function_call"@ != "compaction"@,
        "reasoning"@ != "compaction"@,
{
    reveal_strlit("message");
    reveal_strlit("function_call");
    reveal_strlit("reasoning");
    reveal_strlit("compaction");
    assert("message"@.len() == 7 && "function_call"@.len() == 13 && "reasoning"@.len() == 9 && "compaction"@.len() == 10);
}

/// The calls of a completion are kept in order: each with its id, or one made
/// of its position, its name, and its arguments as they are, an empty object in
/// place of nothing.
pub proof fn completions_keep_their_calls(
    v: JsonView,
    dialect: ChatDialect,
    result: GenerateResultView,
    i: int,
)
    requires
        chat::types::decoded_completion(v, dialect) == Ok::<GenerateResultView, ErrorView>(result),
        !result.finish.reason.discards(),
        value_in(chat_message(v), "tool_calls"@) is Array,
        0 <= i < as_items(value_in(chat_message(v), "tool_calls"@)).len(),
    ensures
        ({
            let calls = as_items(value_in(chat_message(v), "tool_calls"@));
            let function = value_in(calls[i], "function"@);
            let told = match value_in(function, "arguments"@) {
                JsonView::String(text) => text,
                JsonView::Null => Seq::empty(),
                other => crate::json::json_text(other),
            };
            let part = result.content[result.content.len() - calls.len() + i];
            &&& result.content.len() >= calls.len()
            &&& part matches AssistantPartView::ToolCall(call) && {
                &&& call.call_id == match value_in(calls[i], "id"@) {
                    JsonView::String(id) => id,
                    _ => "call_"@ + crate::text::decimal(i as nat),
                }
                &&& call.name == as_text(value_in(function, "name"@))
                &&& call.arguments == if crate::text::is_blank(told) {
                    "{}"@
                } else {
                    told
                }
            }
        }),
{
    let choice = as_items(value_in(v, "choices"@))[0];
    let parts = chat::types::choice_parts(choice, dialect);
    finishing_keeps_the_text(parts, chat::types::choice_finish(choice), dialect.api());
    let m = chat_message(v);
    let a = chat::types::reasoning_parts(m, dialect);
    let b = chat::types::text_parts(m);
    let c = chat::types::refusal_parts(m);
    let d = chat::types::call_parts(m);
    let calls = as_items(value_in(m, "tool_calls"@));
    assert(parts == a + b + c + d);
    assert(d.len() == calls.len());
    assert(parts[parts.len() - calls.len() + i] == d[i]);
    assert(d[i] == chat::types::indexed_part(calls[i], i));
}

} // verus!
