//! How what the model said before is sent back.
use vstd::prelude::*;

use crate::json::{json_parse, JsonView};
use crate::laws::requests::text;
use crate::laws::results::{lemma_text_push, text_of};
use crate::laws::{carries, says};
use crate::message::{
    AssistantPartView, MessageView, ReasoningContentView, ToolCallView, UserPartView,
};
use crate::protocols::anthropic;
use crate::protocols::openai::chat;
use crate::protocols::openai::chat::ChatDialect;
use crate::protocols::openai::responses;
use crate::protocols::foreign;

verus! {

/// Whether a block is one of a kind with a text under a key.
pub open spec fn is_block(v: JsonView, kind: Seq<char>, key: Seq<char>, text: Seq<char>) -> bool {
    says(v, "type"@, kind) && says(v, key, text)
}

/// What the model said before goes back to the Messages API part by part, after
/// what was sent before: text as text, signed thinking with its signature,
/// redacted thinking with its data, a call with its id, name and input. Thinking
/// without a signature and empty text are left out.
pub proof fn message_parts_are_sent_back(blocks: Seq<JsonView>, part: AssistantPartView)
    ensures
        ({
            let sent = anthropic::request::with_part(blocks, part);
            let after = sent->Ok_0;
            match part {
                AssistantPartView::Text { text, .. } => sent is Ok && if text.len() > 0 {
                    after.len() == blocks.len() + 1 && after.drop_last() == blocks && is_block(
                        after.last(),
                        "text"@,
                        "text"@,
                        text,
                    )
                } else {
                    after == blocks
                },
                AssistantPartView::ToolCall(call) => match json_parse(call.arguments) {
                    Ok(input) => {
                        &&& sent is Ok
                        &&& after.len() == blocks.len() + 1 && after.drop_last() == blocks
                        &&& is_block(after.last(), "tool_use"@, "id"@, call.call_id)
                        &&& says(after.last(), "name"@, call.name)
                        &&& carries(after.last()->Object_0, "input"@, Some(input))
                    },
                    Err(_) => sent matches Err(e) && e.kind is InvalidRequest,
                },
                AssistantPartView::Reasoning(thought) => sent is Ok && (thought.content.len() == 1
                    ==> match thought.content[0] {
                    ReasoningContentView::Text { text, signature: Some(signature) } => after.len()
                        == blocks.len() + 1 && after.drop_last() == blocks && is_block(
                        after.last(),
                        "thinking"@,
                        "thinking"@,
                        text,
                    ) && says(after.last(), "signature"@, signature),
                    ReasoningContentView::Redacted { data } => after.len() == blocks.len() + 1
                        && after.drop_last() == blocks && is_block(
                        after.last(),
                        "redacted_thinking"@,
                        "data"@,
                        data,
                    ),
                    _ => after == blocks,
                }),
                _ => true,
            }
        }),
{
    lemma_keys();
    reveal_with_fuel(anthropic::request::with_thinking, 3);
    if let Ok(after) = anthropic::request::with_part(blocks, part) {
        let single = part is Text || part is ToolCall || (part is Reasoning
            && part->Reasoning_0.content.len() == 1);
        if single && after.len() == blocks.len() + 1 {
            assert(after =~= blocks.push(after.last()));
            assert(after.drop_last() =~= blocks);
        }
    }
}

/// A user's texts go to the Messages API as they are, in order; empty ones are
/// left out.
pub proof fn user_texts_are_sent(content: Seq<UserPartView>, n: int)
    requires
        0 < n <= content.len(),
    ensures
        ({
            let before = anthropic::request::user_blocks(content, n - 1);
            let after = anthropic::request::user_blocks(content, n);
            let text = content[n - 1]->text;
            if text.len() > 0 {
                after.len() == before.len() + 1 && after.drop_last() == before && is_block(
                    after.last(),
                    "text"@,
                    "text"@,
                    text,
                )
            } else {
                after == before
            }
        }),
{
    lemma_keys();
    let before = anthropic::request::user_blocks(content, n - 1);
    let after = anthropic::request::user_blocks(content, n);
    if after.len() == before.len() + 1 {
        assert(after.drop_last() =~= before);
    }
}

proof fn lemma_chat_text(
    content: Seq<AssistantPartView>,
    dialect: ChatDialect,
    origin: Option<Seq<char>>,
    n: int,
)
    requires
        0 <= n <= content.len(),
        forall|i: int| 0 <= i < content.len() ==> !((#[trigger] content[i]) is Compaction),
    ensures
        chat::request::parts_upto(content, dialect, origin, n).text == text_of(content.take(n)),
    decreases n,
{
    if n > 0 {
        lemma_chat_text(content, dialect, origin, n - 1);
        let less = content.take(n - 1);
        assert(content.take(n) =~= less.push(content[n - 1]));
        assert(!(content[n - 1] is Compaction));
        lemma_text_push(less, content[n - 1]);
        assert(text_of(less) + Seq::<char>::empty() =~= text_of(less));
    } else {
        assert(content.take(0) =~= Seq::empty());
    }
}

/// The text of a turn of the model goes back to a chat API whole: all its text
/// parts, joined in order, are the content of the message.
pub proof fn chat_turns_keep_their_text(
    m: chat::request::Messages,
    message: MessageView,
    dialect: ChatDialect,
)
    requires
        message is Assistant,
        forall|i: int|
            0 <= i < message->Assistant_content.len() ==> !((
            #[trigger] message->Assistant_content[i]) is Compaction),
        text_of(message->Assistant_content).len() > 0,
    ensures
        ({
            let sent = chat::request::with_message(m, message, dialect).messages;
            &&& sent.len() == m.messages.len() + 1
            &&& sent.drop_last() == m.messages
            &&& says(sent.last(), "role"@, "assistant"@)
            &&& says(sent.last(), "content"@, text_of(message->Assistant_content))
        }),
{
    lemma_keys();
    let content = message->Assistant_content;
    let origin = foreign(message->Assistant_provider_metadata, dialect.api());
    lemma_chat_text(content, dialect, origin, content.len() as int);
    assert(content.take(content.len() as int) =~= content);
    let sent = chat::request::with_message(m, message, dialect).messages;
    assert(sent.drop_last() =~= m.messages);
}

/// A call of the model goes back to a chat API with its id, its name and its
/// arguments as they are, after the calls before it.
pub proof fn chat_calls_are_sent_back(
    s: chat::request::AssistantView,
    call: ToolCallView,
    dialect: ChatDialect,
    origin: Option<Seq<char>>,
)
    ensures
        ({
            let after = chat::request::with_part(
                s,
                AssistantPartView::ToolCall(call),
                dialect,
                origin,
            );
            let sent = after.calls.last();
            &&& after.text == s.text
            &&& after.calls.len() == s.calls.len() + 1
            &&& after.calls.drop_last() == s.calls
            &&& is_block(sent, "function"@, "id"@, call.call_id)
            &&& says(sent->Object_0["function"@], "name"@, call.name)
            &&& says(sent->Object_0["function"@], "arguments"@, call.arguments)
        }),
{
    lemma_keys();
    let after = chat::request::with_part(s, AssistantPartView::ToolCall(call), dialect, origin);
    assert(after.calls.drop_last() =~= s.calls);
}

/// A call goes back to a Responses API under the id that its provider knows it
/// by, with its name and its arguments as they are; its item id only where the
/// turn is the provider's own.
pub proof fn response_calls_are_sent_back(call: ToolCallView, origin: Option<Seq<char>>)
    ensures
        ({
            let sent = responses::request::call_item(call, origin);
            &&& is_block(
                sent,
                "function_call"@,
                "call_id"@,
                match call.provider_call_id {
                    Some(id) => id,
                    None => call.call_id,
                },
            )
            &&& says(sent, "name"@, call.name)
            &&& says(sent, "arguments"@, call.arguments)
            &&& carries(
                sent->Object_0,
                "id"@,
                if origin is None {
                    text(call.item_id)
                } else {
                    None
                },
            )
        }),
{
    lemma_keys();
}

proof fn lemma_keys()
    ensures
        "type"@ != "text"@,
        "type"@ != "id"@,
        "type"@ != "name"@,
        "type"@ != "input"@,
        "type"@ != "thinking"@,
        "type"@ != "signature"@,
        "type"@ != "data"@,
        "type"@ != "role"@,
        "type"@ != "content"@,
        "type"@ != "tool_calls"@,
        "type"@ != "reasoning_details"@,
        "type"@ != "reasoning"@,
        "type"@ != "reasoning_content"@,
        "type"@ != "function"@,
        "type"@ != "arguments"@,
        "type"@ != "call_id"@,
        "text"@ != "id"@,
        "text"@ != "name"@,
        "text"@ != "input"@,
        "text"@ != "thinking"@,
        "text"@ != "signature"@,
        "text"@ != "data"@,
        "text"@ != "role"@,
        "text"@ != "content"@,
        "text"@ != "tool_calls"@,
        "text"@ != "reasoning_details"@,
        "text"@ != "reasoning"@,
        "text"@ != "reasoning_content"@,
        "text"@ != "function"@,
        "text"@ != "arguments"@,
        "text"@ != "call_id"@,
        "id"@ != "name"@,
        "id"@ != "input"@,
        "id"@ != "thinking"@,
        "id"@ != "signature"@,
        "id"@ != "data"@,
        "id"@ != "role"@,
        "id"@ != "content"@,
        "id"@ != "tool_calls"@,
        "id"@ != "reasoning_details"@,
        "id"@ != "reasoning"@,
        "id"@ != "reasoning_content"@,
        "id"@ != "function"@,
        "id"@ != "arguments"@,
        "id"@ != "call_id"@,
        "name"@ != "input"@,
        "name"@ != "thinking"@,
        "name"@ != "signature"@,
        "name"@ != "data"@,
        "name"@ != "role"@,
        "name"@ != "content"@,
        "name"@ != "tool_calls"@,
        "name"@ != "reasoning_details"@,
        "name"@ != "reasoning"@,
        "name"@ != "reasoning_content"@,
        "name"@ != "function"@,
        "name"@ != "arguments"@,
        "name"@ != "call_id"@,
        "input"@ != "thinking"@,
        "input"@ != "signature"@,
        "input"@ != "data"@,
        "input"@ != "role"@,
        "input"@ != "content"@,
        "input"@ != "tool_calls"@,
        "input"@ != "reasoning_details"@,
        "input"@ != "reasoning"@,
        "input"@ != "reasoning_content"@,
        "input"@ != "function"@,
        "input"@ != "arguments"@,
        "input"@ != "call_id"@,
        "thinking"@ != "signature"@,
        "thinking"@ != "data"@,
        "thinking"@ != "role"@,
        "thinking"@ != "content"@,
        "thinking"@ != "tool_calls"@,
        "thinking"@ != "reasoning_details"@,
        "thinking"@ != "reasoning"@,
        "thinking"@ != "reasoning_content"@,
        "thinking"@ != "function"@,
        "thinking"@ != "arguments"@,
        "thinking"@ != "call_id"@,
        "signature"@ != "data"@,
        "signature"@ != "role"@,
        "signature"@ != "content"@,
        "signature"@ != "tool_calls"@,
        "signature"@ != "reasoning_details"@,
        "signature"@ != "reasoning"@,
        "signature"@ != "reasoning_content"@,
        "signature"@ != "function"@,
        "signature"@ != "arguments"@,
        "signature"@ != "call_id"@,
        "data"@ != "role"@,
        "data"@ != "content"@,
        "data"@ != "tool_calls"@,
        "data"@ != "reasoning_details"@,
        "data"@ != "reasoning"@,
        "data"@ != "reasoning_content"@,
        "data"@ != "function"@,
        "data"@ != "arguments"@,
        "data"@ != "call_id"@,
        "role"@ != "content"@,
        "role"@ != "tool_calls"@,
        "role"@ != "reasoning_details"@,
        "role"@ != "reasoning"@,
        "role"@ != "reasoning_content"@,
        "role"@ != "function"@,
        "role"@ != "arguments"@,
        "role"@ != "call_id"@,
        "content"@ != "tool_calls"@,
        "content"@ != "reasoning_details"@,
        "content"@ != "reasoning"@,
        "content"@ != "reasoning_content"@,
        "content"@ != "function"@,
        "content"@ != "arguments"@,
        "content"@ != "call_id"@,
        "tool_calls"@ != "reasoning_details"@,
        "tool_calls"@ != "reasoning"@,
        "tool_calls"@ != "reasoning_content"@,
        "tool_calls"@ != "function"@,
        "tool_calls"@ != "arguments"@,
        "tool_calls"@ != "call_id"@,
        "reasoning_details"@ != "reasoning"@,
        "reasoning_details"@ != "reasoning_content"@,
        "reasoning_details"@ != "function"@,
        "reasoning_details"@ != "arguments"@,
        "reasoning_details"@ != "call_id"@,
        "reasoning"@ != "reasoning_content"@,
        "reasoning"@ != "function"@,
        "reasoning"@ != "arguments"@,
        "reasoning"@ != "call_id"@,
        "reasoning_content"@ != "function"@,
        "reasoning_content"@ != "arguments"@,
        "reasoning_content"@ != "call_id"@,
        "function"@ != "arguments"@,
        "function"@ != "call_id"@,
        "arguments"@ != "call_id"@,
{
    reveal_strlit("type");
    reveal_strlit("text");
    reveal_strlit("id");
    reveal_strlit("name");
    reveal_strlit("input");
    reveal_strlit("thinking");
    reveal_strlit("signature");
    reveal_strlit("data");
    reveal_strlit("role");
    reveal_strlit("content");
    reveal_strlit("tool_calls");
    reveal_strlit("reasoning_details");
    reveal_strlit("reasoning");
    reveal_strlit("reasoning_content");
    reveal_strlit("function");
    reveal_strlit("arguments");
    reveal_strlit("call_id");
    assert("type"@.len() == 4 && "text"@.len() == 4 && "id"@.len() == 2 && "name"@.len() == 4 && "input"@.len() == 5 && "thinking"@.len() == 8 && "signature"@.len() == 9 && "data"@.len() == 4 && "role"@.len() == 4 && "content"@.len() == 7 && "tool_calls"@.len() == 10 && "reasoning_details"@.len() == 17 && "reasoning"@.len() == 9 && "reasoning_content"@.len() == 17 && "function"@.len() == 8 && "arguments"@.len() == 9 && "call_id"@.len() == 7);
    assert("type"@[1] != "text"@[1]);
    assert("type"@[0] != "name"@[0]);
    assert("type"@[0] != "data"@[0]);
    assert("type"@[0] != "role"@[0]);
    assert("text"@[0] != "name"@[0]);
    assert("text"@[0] != "data"@[0]);
    assert("text"@[0] != "role"@[0]);
    assert("name"@[0] != "data"@[0]);
    assert("name"@[0] != "role"@[0]);
    assert("data"@[0] != "role"@[0]);
    assert("thinking"@[0] != "function"@[0]);
    assert("signature"@[0] != "reasoning"@[0]);
    assert("signature"@[0] != "arguments"@[0]);
    assert("reasoning"@[0] != "arguments"@[0]);
    assert("content"@[1] != "call_id"@[1]);
    assert("reasoning_details"@[10] != "reasoning_content"@[10]);
}

} // verus!
