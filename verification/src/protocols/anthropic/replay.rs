//! What is decoded from a response is replayed in the next request.
use vstd::prelude::*;

use super::request::{with_part, with_thinking};
use super::types::{block_ok, block_part, raw_block, reasoning_piece};
use crate::json::{json_parse, json_text, JsonView};
use crate::message::{AssistantPartView, ReasoningContentView};
use crate::metadata::no_metadata;
use crate::wire::{tag_at, text_at, value_at};

verus! {

/// Whether a part holds something to replay: a text that is not empty, and
/// reasoning that is signed or redacted.
pub open spec fn is_replayed(part: AssistantPartView) -> bool {
    match part {
        AssistantPartView::Text { text, .. } => text.len() > 0,
        AssistantPartView::Reasoning(part) => part.content.len() == 1 && match part.content[0] {
            ReasoningContentView::Text { signature, .. } => signature is Some,
            ReasoningContentView::Redacted { .. } => true,
            _ => false,
        },
        _ => true,
    }
}

/// What is replayed of a part: a text goes without its citations.
pub open spec fn replayed_part(part: AssistantPartView) -> AssistantPartView {
    match part {
        AssistantPartView::Text { text, .. } => AssistantPartView::Text {
            text,
            provider_metadata: no_metadata(),
        },
        _ => part,
    }
}

proof fn lemma_names()
    ensures
        "type"@ != "text"@,
        "type"@ != "name"@,
        "type"@ != "data"@,
        "text"@ != "name"@,
        "text"@ != "data"@,
        "name"@ != "data"@,
        "signature"@ != "citations"@,
        "type"@.len() == 4,
        "text"@.len() == 4,
        "name"@.len() == 4,
        "data"@.len() == 4,
        "thinking"@.len() == 8,
        "signature"@.len() == 9,
        "citations"@.len() == 9,
        "id"@.len() == 2,
        "input"@.len() == 5,
        "content"@.len() == 7,
        "redacted_thinking"@.len() == 17,
        "tool_use"@.len() == 8,
        "thinking"@ != "tool_use"@,
        "compaction"@.len() == 10,
{
    reveal_strlit("type");
    reveal_strlit("text");
    reveal_strlit("name");
    reveal_strlit("data");
    reveal_strlit("thinking");
    reveal_strlit("signature");
    reveal_strlit("citations");
    reveal_strlit("id");
    reveal_strlit("input");
    reveal_strlit("content");
    reveal_strlit("redacted_thinking");
    reveal_strlit("tool_use");
    reveal_strlit("compaction");
    assert("type"@[1] != "text"@[1]);
    assert("type"@[0] != "name"@[0]);
    assert("type"@[0] != "data"@[0]);
    assert("text"@[0] != "name"@[0]);
    assert("text"@[0] != "data"@[0]);
    assert("name"@[0] != "data"@[0]);
    assert("signature"@[0] != "citations"@[0]);
    assert("thinking"@[1] != "tool_use"@[1]);
}

/// What the provider ran is replayed verbatim.
proof fn lemma_raw_blocks(v: JsonView)
    requires
        block_ok(v),
    ensures
        block_ok(raw_block(v)),
        tag_at(raw_block(v), "type"@) == tag_at(v, "type"@),
        text_at(raw_block(v), "id"@) == text_at(v, "id"@),
        raw_block(raw_block(v)) == raw_block(v),
{
    lemma_names();
    let w = raw_block(v);
    assert(raw_block(w)->Object_0 =~= w->Object_0);
}

/// A block is replayed: what is sent decodes to the same part, without the
/// citations of a text. Empty texts and reasoning that is neither signed nor
/// redacted are left out. The arguments of a call are JSON text: the call is
/// sent with the input that the text reads as.
pub proof fn decoded_blocks_are_replayed(blocks: Seq<JsonView>, v: JsonView)
    requires
        block_ok(v),
        block_part(v) is Some,
        block_part(v)->0 is ToolCall ==> (value_at(v, "input"@) matches Some(input) && json_parse(
            json_text(input),
        ) == Ok::<JsonView, Seq<char>>(input)),
        block_part(v)->0 is Compaction ==> text_at(v, "content"@) is Some,
    ensures
        match with_part(blocks, block_part(v)->0) {
            Ok(sent) => if is_replayed(block_part(v)->0) {
                &&& sent.len() == blocks.len() + 1
                &&& sent == blocks.push(sent.last())
                &&& block_ok(sent.last())
                &&& block_part(sent.last()) == Some(replayed_part(block_part(v)->0))
            } else {
                sent == blocks
            },
            Err(_) => false,
        },
{
    lemma_names();
    let part = block_part(v)->0;
    match part {
        AssistantPartView::Reasoning(p) => {
            reveal_with_fuel(with_thinking, 2);
            let piece = p.content[0];
            assert(p == reasoning_piece(piece));
        },
        AssistantPartView::ProviderTool { .. } => {
            lemma_raw_blocks(v);
        },
        _ => {},
    }
    if let Ok(sent) = with_part(blocks, part) {
        if is_replayed(part) {
            let w = sent.last();
            assert(sent =~= blocks.push(w));
            assert(block_ok(w));
            assert(block_part(w) == Some(replayed_part(part)));
        }
    }
}

} // verus!
