//! What a Messages stream tells.
use vstd::prelude::*;

use crate::json::{json_parse, json_text, JsonView, NumberView};
use crate::laws::telling::{lemma_said, lemma_said_once, lemma_silent, said};
use crate::laws::{as_text, joined, lacks, says, value_in};
use crate::message::{
    AssistantPartView, CompactionPartView, ReasoningContentView, ReasoningPartView,
};
use crate::metadata::no_metadata;
use crate::protocols::anthropic::stream::{envelope_ok, AnthropicView, BlockView};
use crate::protocols::anthropic::types::block_part;
use crate::slots::{slot, slots_work, sorted, with_slot};
use crate::stream::action::play;
use crate::stream::contract::Action;
use crate::stream::event::StreamEventView;
use crate::stream::normalizer::NormalizerView;
use crate::text::{decimal, is_blank};

verus! {

/// What kind of event a value is.
pub open spec fn kind_of(v: JsonView) -> Seq<char> {
    as_text(value_in(v, "type"@))
}

/// Whether an event is about the block of an index.
pub open spec fn is_about(v: JsonView, index: u64) -> bool {
    value_in(v, "index"@) == JsonView::Number(NumberView::U(index)) || index == 0 && lacks(
        v,
        "index"@,
    )
}

/// Whether a frame is an event that leaves the stream open, and the block of an
/// index neither starts nor ends with.
pub open spec fn is_within(frame: Seq<char>, index: u64) -> bool {
    json_parse(frame) matches Ok(v) && envelope_ok(v) && kind_of(v) != "message_stop"@ && kind_of(
        v,
    ) != "error"@ && !(is_about(v, index) && (kind_of(v) == "content_block_start"@ || kind_of(v)
        == "content_block_stop"@))
}

/// Whether a frame starts the block of an index.
pub open spec fn starts(frame: Seq<char>, index: u64, block: JsonView) -> bool {
    json_parse(frame) matches Ok(v) && envelope_ok(v) && kind_of(v) == "content_block_start"@
        && is_about(v, index) && value_in(v, "content_block"@) == block && block is Object
}

/// Whether a frame ends the block of an index.
pub open spec fn stops(frame: Seq<char>, index: u64) -> bool {
    json_parse(frame) matches Ok(v) && envelope_ok(v) && kind_of(v) == "content_block_stop"@
        && is_about(v, index)
}

/// What a frame adds to the block of an index: the text under a key of a delta
/// of some kind.
pub open spec fn adds(frame: Seq<char>, index: u64, kind: Seq<char>, key: Seq<char>) -> Seq<char> {
    let v = json_parse(frame)->Ok_0;
    let delta = value_in(v, "delta"@);
    if kind_of(v) == "content_block_delta"@ && is_about(v, index) && kind_of(delta) == kind {
        as_text(value_in(delta, key))
    } else {
        Seq::empty()
    }
}

/// What some frames add to the block of an index, joined in order.
pub open spec fn all_add(
    frames: Seq<Seq<char>>,
    index: u64,
    kind: Seq<char>,
    key: Seq<char>,
) -> Seq<char> {
    joined(Seq::new(frames.len(), |i: int| adds(frames[i], index, kind, key)))
}

/// A decoder after some frames.
pub open spec fn fed(d: AnthropicView, frames: Seq<Seq<char>>) -> AnthropicView
    decreases frames.len(),
{
    if frames.len() == 0 {
        d
    } else {
        fed(d, frames.drop_last()).frame(frames.last()).state
    }
}

/// What some frames make a decoder do.
pub open spec fn done_by(d: AnthropicView, frames: Seq<Seq<char>>) -> Seq<Action>
    decreases frames.len(),
{
    if frames.len() == 0 {
        Seq::empty()
    } else {
        done_by(d, frames.drop_last()) + fed(d, frames.drop_last()).frame(
            frames.last(),
        ).decoded.actions
    }
}

proof fn lemma_event_kinds()
    ensures
        "message_start"@ != "content_block_start"@,
        "message_start"@ != "content_block_delta"@,
        "message_start"@ != "content_block_stop"@,
        "message_start"@ != "message_delta"@,
        "message_start"@ != "message_stop"@,
        "message_start"@ != "ping"@,
        "message_start"@ != "error"@,
        "content_block_start"@ != "content_block_delta"@,
        "content_block_start"@ != "content_block_stop"@,
        "content_block_start"@ != "message_delta"@,
        "content_block_start"@ != "message_stop"@,
        "content_block_start"@ != "ping"@,
        "content_block_start"@ != "error"@,
        "content_block_delta"@ != "content_block_stop"@,
        "content_block_delta"@ != "message_delta"@,
        "content_block_delta"@ != "message_stop"@,
        "content_block_delta"@ != "ping"@,
        "content_block_delta"@ != "error"@,
        "content_block_stop"@ != "message_delta"@,
        "content_block_stop"@ != "message_stop"@,
        "content_block_stop"@ != "ping"@,
        "content_block_stop"@ != "error"@,
        "message_delta"@ != "message_stop"@,
        "message_delta"@ != "ping"@,
        "message_delta"@ != "error"@,
        "message_stop"@ != "ping"@,
        "message_stop"@ != "error"@,
        "ping"@ != "error"@,
{
    reveal_strlit("message_start");
    reveal_strlit("content_block_start");
    reveal_strlit("content_block_delta");
    reveal_strlit("content_block_stop");
    reveal_strlit("message_delta");
    reveal_strlit("message_stop");
    reveal_strlit("ping");
    reveal_strlit("error");
    assert("message_start"@.len() == 13 && "content_block_start"@.len() == 19 && "content_block_delta"@.len() == 19 && "content_block_stop"@.len() == 18 && "message_delta"@.len() == 13 && "message_stop"@.len() == 12 && "ping"@.len() == 4 && "error"@.len() == 5);
    assert("message_start"@[8] != "message_delta"@[8]);
    assert("content_block_start"@[14] != "content_block_delta"@[14]);
}

proof fn lemma_delta_kinds()
    ensures
        "text_delta"@ != "thinking_delta"@,
        "text_delta"@ != "signature_delta"@,
        "text_delta"@ != "input_json_delta"@,
        "text_delta"@ != "compaction_delta"@,
        "text_delta"@ != "citations_delta"@,
        "thinking_delta"@ != "signature_delta"@,
        "thinking_delta"@ != "input_json_delta"@,
        "thinking_delta"@ != "compaction_delta"@,
        "thinking_delta"@ != "citations_delta"@,
        "signature_delta"@ != "input_json_delta"@,
        "signature_delta"@ != "compaction_delta"@,
        "signature_delta"@ != "citations_delta"@,
        "input_json_delta"@ != "compaction_delta"@,
        "input_json_delta"@ != "citations_delta"@,
        "compaction_delta"@ != "citations_delta"@,
{
    reveal_strlit("text_delta");
    reveal_strlit("thinking_delta");
    reveal_strlit("signature_delta");
    reveal_strlit("input_json_delta");
    reveal_strlit("compaction_delta");
    reveal_strlit("citations_delta");
    assert("text_delta"@.len() == 10 && "thinking_delta"@.len() == 14 && "signature_delta"@.len() == 15 && "input_json_delta"@.len() == 16 && "compaction_delta"@.len() == 16 && "citations_delta"@.len() == 15);
    assert("signature_delta"@[0] != "citations_delta"@[0]);
    assert("input_json_delta"@[0] != "compaction_delta"@[0]);
}

proof fn lemma_block_kinds()
    ensures
        "text"@ != "thinking"@,
        "text"@ != "redacted_thinking"@,
        "text"@ != "tool_use"@,
        "text"@ != "compaction"@,
        "thinking"@ != "redacted_thinking"@,
        "thinking"@ != "tool_use"@,
        "thinking"@ != "compaction"@,
        "redacted_thinking"@ != "tool_use"@,
        "redacted_thinking"@ != "compaction"@,
        "tool_use"@ != "compaction"@,
{
    reveal_strlit("text");
    reveal_strlit("thinking");
    reveal_strlit("redacted_thinking");
    reveal_strlit("tool_use");
    reveal_strlit("compaction");
    assert("text"@.len() == 4 && "thinking"@.len() == 8 && "redacted_thinking"@.len() == 17 && "tool_use"@.len() == 8 && "compaction"@.len() == 10);
    assert("thinking"@[1] != "tool_use"@[1]);
}

proof fn lemma_one_more(
    frames: Seq<Seq<char>>,
    index: u64,
    kind: Seq<char>,
    key: Seq<char>,
)
    requires
        frames.len() > 0,
    ensures
        all_add(frames, index, kind, key) == all_add(frames.drop_last(), index, kind, key) + adds(
            frames.last(),
            index,
            kind,
            key,
        ),
{
    let less = frames.drop_last();
    let all = Seq::new(frames.len(), |i: int| adds(frames[i], index, kind, key));
    assert(all.drop_last() =~= Seq::new(less.len(), |i: int| adds(less[i], index, kind, key)));
}

/// What an open block is after a frame.
pub open spec fn grown(block: BlockView, frame: Seq<char>, index: u64) -> BlockView {
    match block {
        BlockView::Thinking { text, signature } => BlockView::Thinking {
            text: text + adds(frame, index, "thinking_delta"@, "thinking"@),
            signature: signature + adds(frame, index, "signature_delta"@, "signature"@),
        },
        BlockView::Tool { call_id, start_input, accumulated } => BlockView::Tool {
            call_id,
            start_input,
            accumulated: accumulated + adds(frame, index, "input_json_delta"@, "partial_json"@),
        },
        BlockView::Compaction { content } => BlockView::Compaction {
            content: content + adds(frame, index, "compaction_delta"@, "content"@),
        },
        BlockView::ProviderTool { block, input_json } => BlockView::ProviderTool {
            block,
            input_json: input_json + adds(frame, index, "input_json_delta"@, "partial_json"@),
        },
        other => other,
    }
}

#[verifier::rlimit(60)]
proof fn lemma_frame(d: AnthropicView, frame: Seq<char>, index: u64, block: BlockView)
    requires
        !d.done,
        sorted(d.blocks),
        is_within(frame, index),
        slot(d.blocks, index) == Some(block),
        !(block is Text) && !(block is Unknown),
    ensures
        ({
            let e = d.frame(frame).state;
            &&& !e.done
            &&& sorted(e.blocks)
            &&& slot(e.blocks, index) == Some(grown(block, frame, index))
        }),
{
    lemma_event_kinds();
    lemma_delta_kinds();
    let v = json_parse(frame)->Ok_0;
    let k = crate::protocols::anthropic::stream::index_of(v);
    assert(is_about(v, index) <==> k == index);
    assert forall|b: BlockView|
        sorted(#[trigger] with_slot(d.blocks, k, b)) && slot(with_slot(d.blocks, k, b), index) == (
        if k == index {
            Some(b)
        } else {
            slot(d.blocks, index)
        }) by {
        slots_work(d.blocks, k, b, index);
    }
    slots_work(d.blocks, k, block, index);
    let same = grown(block, frame, index);
    if !(kind_of(v) == "content_block_delta"@ && k == index) {
        assert(same =~= block);
    } else {
        let delta = value_in(v, "delta"@);
        if kind_of(delta) != "thinking_delta"@ && kind_of(delta) != "signature_delta"@ && kind_of(
            delta,
        ) != "input_json_delta"@ && kind_of(delta) != "compaction_delta"@ {
            assert(same =~= block);
        }
        match block {
            BlockView::Thinking { text, signature } => {
                assert(text + Seq::<char>::empty() =~= text);
                assert(signature + Seq::<char>::empty() =~= signature);
            },
            BlockView::Tool { accumulated, .. } => {
                assert(accumulated + Seq::<char>::empty() =~= accumulated);
                if adds(frame, index, "input_json_delta"@, "partial_json"@).len() == 0 {
                    assert(same =~= block);
                }
            },
            BlockView::Compaction { content } => {
                assert(content + Seq::<char>::empty() =~= content);
            },
            BlockView::ProviderTool { input_json, .. } => {
                assert(input_json + Seq::<char>::empty() =~= input_json);
                if adds(frame, index, "input_json_delta"@, "partial_json"@).len() == 0 {
                    assert(same =~= block);
                }
            },
            _ => {},
        }
    }
}

/// Frames that neither start nor end a block make it grow by what they add.
proof fn lemma_frames(d: AnthropicView, frames: Seq<Seq<char>>, index: u64, block: BlockView)
    requires
        !d.done,
        sorted(d.blocks),
        forall|i: int| 0 <= i < frames.len() ==> is_within(#[trigger] frames[i], index),
        slot(d.blocks, index) == Some(block),
        !(block is Text) && !(block is Unknown),
    ensures
        ({
            let e = fed(d, frames);
            &&& !e.done
            &&& sorted(e.blocks)
            &&& slot(e.blocks, index) == Some(
                match block {
                    BlockView::Thinking { text, signature } => BlockView::Thinking {
                        text: text + all_add(frames, index, "thinking_delta"@, "thinking"@),
                        signature: signature + all_add(
                            frames,
                            index,
                            "signature_delta"@,
                            "signature"@,
                        ),
                    },
                    BlockView::Tool { call_id, start_input, accumulated } => BlockView::Tool {
                        call_id,
                        start_input,
                        accumulated: accumulated + all_add(
                            frames,
                            index,
                            "input_json_delta"@,
                            "partial_json"@,
                        ),
                    },
                    BlockView::Compaction { content } => BlockView::Compaction {
                        content: content + all_add(
                            frames,
                            index,
                            "compaction_delta"@,
                            "content"@,
                        ),
                    },
                    BlockView::ProviderTool { block, input_json } => BlockView::ProviderTool {
                        block,
                        input_json: input_json + all_add(
                            frames,
                            index,
                            "input_json_delta"@,
                            "partial_json"@,
                        ),
                    },
                    other => other,
                },
            )
        }),
    decreases frames.len(),
{
    if frames.len() == 0 {
        match block {
            BlockView::Thinking { text, signature } => {
                assert(text + Seq::<char>::empty() =~= text);
                assert(signature + Seq::<char>::empty() =~= signature);
            },
            BlockView::Tool { accumulated, .. } => {
                assert(accumulated + Seq::<char>::empty() =~= accumulated);
            },
            BlockView::Compaction { content } => {
                assert(content + Seq::<char>::empty() =~= content);
            },
            BlockView::ProviderTool { input_json, .. } => {
                assert(input_json + Seq::<char>::empty() =~= input_json);
            },
            _ => {},
        }
    } else {
        let less = frames.drop_last();
        assert forall|i: int| 0 <= i < less.len() implies is_within(#[trigger] less[i], index) by {
            assert(less[i] == frames[i]);
        }
        lemma_frames(d, less, index, block);
        let last = frames[frames.len() - 1];
        assert(is_within(last, index));
        let e = fed(d, less);
        let now = slot(e.blocks, index)->0;
        lemma_frame(e, last, index, now);
        lemma_one_more(frames, index, "thinking_delta"@, "thinking"@);
        lemma_one_more(frames, index, "signature_delta"@, "signature"@);
        lemma_one_more(frames, index, "input_json_delta"@, "partial_json"@);
        lemma_one_more(frames, index, "compaction_delta"@, "content"@);
        match block {
            BlockView::Thinking { text, signature } => {
                let a = all_add(less, index, "thinking_delta"@, "thinking"@);
                let b = all_add(less, index, "signature_delta"@, "signature"@);
                assert(text + a + adds(last, index, "thinking_delta"@, "thinking"@) =~= text + (a
                    + adds(last, index, "thinking_delta"@, "thinking"@)));
                assert(signature + b + adds(last, index, "signature_delta"@, "signature"@)
                    =~= signature + (b + adds(last, index, "signature_delta"@, "signature"@)));
            },
            BlockView::Tool { accumulated, .. } => {
                let a = all_add(less, index, "input_json_delta"@, "partial_json"@);
                assert(accumulated + a + adds(last, index, "input_json_delta"@, "partial_json"@)
                    =~= accumulated + (a + adds(
                    last,
                    index,
                    "input_json_delta"@,
                    "partial_json"@,
                )));
            },
            BlockView::Compaction { content } => {
                let a = all_add(less, index, "compaction_delta"@, "content"@);
                assert(content + a + adds(last, index, "compaction_delta"@, "content"@) =~= content
                    + (a + adds(last, index, "compaction_delta"@, "content"@)));
            },
            BlockView::ProviderTool { input_json, .. } => {
                let a = all_add(less, index, "input_json_delta"@, "partial_json"@);
                assert(input_json + a + adds(last, index, "input_json_delta"@, "partial_json"@)
                    =~= input_json + (a + adds(
                    last,
                    index,
                    "input_json_delta"@,
                    "partial_json"@,
                )));
            },
            _ => {},
        }
    }
}

/// What the start of a block and its end make a decoder do, with some frames in
/// between.
pub open spec fn at_the_end(
    d: AnthropicView,
    start: Seq<char>,
    frames: Seq<Seq<char>>,
    end: Seq<char>,
) -> Seq<Action> {
    fed(d.frame(start).state, frames).frame(end).decoded.actions
}

/// The reasoning that some thinking with its signature is.
pub open spec fn thinking_part(text: Seq<char>, signature: Seq<char>) -> ReasoningPartView {
    ReasoningPartView {
        id: None,
        content: seq![
            ReasoningContentView::Text {
                text,
                signature: if signature.len() == 0 {
                    None
                } else {
                    Some(signature)
                },
            },
        ],
        provider_metadata: Map::empty(),
    }
}

proof fn lemma_start(d: AnthropicView, start: Seq<char>, index: u64, block: JsonView, b: BlockView)
    requires
        !d.done,
        sorted(d.blocks),
        starts(start, index, block),
        d.block_start(json_parse(start)->Ok_0, start).state == d.opening(index, b),
    ensures
        d.frame(start).state == d.opening(index, b),
        !d.frame(start).state.done,
        sorted(d.frame(start).state.blocks),
        slot(d.frame(start).state.blocks, index) == Some(b),
{
    lemma_event_kinds();
    slots_work(d.blocks, index, b, index);
}

proof fn lemma_stop(d: AnthropicView, end: Seq<char>, index: u64)
    requires
        !d.done,
        stops(end, index),
    ensures
        d.frame(end).decoded.actions == crate::protocols::anthropic::stream::closing(
            index,
            slot(d.blocks, index),
            true,
        ),
        d.frame(end).decoded.error is None,
{
    lemma_event_kinds();
}

/// A thinking block of a stream ends with the reasoning part that holds, as its
/// text, the thinking deltas joined in order and, as its signature, the
/// signature deltas joined in order. That is the part that decoding the whole
/// block gives, and the stream tells it as it is.
pub proof fn thinking_is_streamed_as_it_is_decoded(
    d: AnthropicView,
    start: Seq<char>,
    frames: Seq<Seq<char>>,
    end: Seq<char>,
    index: u64,
    block: JsonView,
    whole: JsonView,
    n: NormalizerView,
)
    requires
        !d.done,
        sorted(d.blocks),
        starts(start, index, block),
        says(block, "type"@, "thinking"@),
        forall|i: int| 0 <= i < frames.len() ==> is_within(#[trigger] frames[i], index),
        stops(end, index),
        says(whole, "type"@, "thinking"@),
        says(
            whole,
            "thinking"@,
            all_add(frames, index, "thinking_delta"@, "thinking"@),
        ),
        says(
            whole,
            "signature"@,
            all_add(frames, index, "signature_delta"@, "signature"@),
        ),
    ensures
        ({
            let part = thinking_part(
                all_add(frames, index, "thinking_delta"@, "thinking"@),
                all_add(frames, index, "signature_delta"@, "signature"@),
            );
            let id = decimal(index as nat);
            let actions = at_the_end(d, start, frames, end);
            &&& actions == seq![Action::EndReasoning { id, part: Some(part) }]
            &&& block_part(whole) == Some(AssistantPartView::Reasoning(part))
            &&& play(n, actions).events.last() == (StreamEventView::ReasoningEnd { id, part })
        }),
{
    lemma_block_kinds();
    let text = all_add(frames, index, "thinking_delta"@, "thinking"@);
    let signature = all_add(frames, index, "signature_delta"@, "signature"@);
    let b = BlockView::Thinking { text: Seq::empty(), signature: Seq::empty() };
    lemma_start(d, start, index, block, b);
    let opened = d.frame(start).state;
    lemma_frames(opened, frames, index, b);
    assert(Seq::<char>::empty() + text =~= text);
    assert(Seq::<char>::empty() + signature =~= signature);
    lemma_stop(fed(opened, frames), end, index);
    let part = thinking_part(text, signature);
    let id = decimal(index as nat);
    let actions = at_the_end(d, start, frames, end);
    assert(part.content =~= seq![part.content[0]]);
    assert(no_metadata() =~= Map::empty());
    assert(actions =~= seq![Action::EndReasoning { id, part: Some(part) }]);
    lemma_reasoning_is_told(n, id, part);
}

/// A tool block of a stream starts a call of its id and name, and completes it
/// with the input deltas joined in order or, where they join to nothing but
/// space, with the input that the block started with.
pub proof fn tool_input_is_joined(
    d: AnthropicView,
    start: Seq<char>,
    frames: Seq<Seq<char>>,
    end: Seq<char>,
    index: u64,
    block: JsonView,
    call_id: Seq<char>,
    name: Seq<char>,
)
    requires
        !d.done,
        sorted(d.blocks),
        starts(start, index, block),
        says(block, "type"@, "tool_use"@),
        says(block, "id"@, call_id),
        says(block, "name"@, name),
        forall|i: int| 0 <= i < frames.len() ==> is_within(#[trigger] frames[i], index),
        stops(end, index),
    ensures
        d.frame(start).decoded.actions == seq![
            Action::StartTool { call_id, name, item_id: None, provider_call_id: None },
        ],
        ({
            let input = all_add(frames, index, "input_json_delta"@, "partial_json"@);
            let given = block->Object_0;
            at_the_end(d, start, frames, end) == seq![
                Action::CompleteTool {
                    call_id,
                    arguments: if !is_blank(input) {
                        Some(input)
                    } else if given.contains_key("input"@) {
                        Some(json_text(given["input"@]))
                    } else {
                        None
                    },
                },
            ]
        }),
{
    lemma_block_kinds();
    lemma_event_kinds();
    let given = block->Object_0;
    let b = BlockView::Tool {
        call_id,
        start_input: if given.contains_key("input"@) {
            Some(json_text(given["input"@]))
        } else {
            None
        },
        accumulated: Seq::empty(),
    };
    lemma_start(d, start, index, block, b);
    let opened = d.frame(start).state;
    lemma_frames(opened, frames, index, b);
    let input = all_add(frames, index, "input_json_delta"@, "partial_json"@);
    assert(Seq::<char>::empty() + input =~= input);
    lemma_stop(fed(opened, frames), end, index);
}

/// A redacted thinking block of a stream gives the part that decoding it gives,
/// with its data as they are.
pub proof fn redacted_thinking_is_kept(
    d: AnthropicView,
    start: Seq<char>,
    frames: Seq<Seq<char>>,
    end: Seq<char>,
    index: u64,
    block: JsonView,
    data: Seq<char>,
)
    requires
        !d.done,
        sorted(d.blocks),
        starts(start, index, block),
        says(block, "type"@, "redacted_thinking"@),
        says(block, "data"@, data),
        forall|i: int| 0 <= i < frames.len() ==> is_within(#[trigger] frames[i], index),
        stops(end, index),
    ensures
        ({
            let part = ReasoningPartView {
                id: None,
                content: seq![ReasoningContentView::Redacted { data }],
                provider_metadata: Map::empty(),
            };
            let id = decimal(index as nat);
            &&& at_the_end(d, start, frames, end) == seq![
                Action::StartReasoning { id },
                Action::EndReasoning { id, part: Some(part) },
            ]
            &&& block_part(block) == Some(AssistantPartView::Reasoning(part))
        }),
{
    lemma_block_kinds();
    let b = BlockView::RedactedThinking { data };
    lemma_start(d, start, index, block, b);
    let opened = d.frame(start).state;
    lemma_frames(opened, frames, index, b);
    lemma_stop(fed(opened, frames), end, index);
    assert(no_metadata() =~= Map::empty());
}

/// A compaction block of a stream gives the part that decoding the whole block
/// gives: its deltas joined in order.
pub proof fn compactions_are_joined(
    d: AnthropicView,
    start: Seq<char>,
    frames: Seq<Seq<char>>,
    end: Seq<char>,
    index: u64,
    block: JsonView,
    whole: JsonView,
)
    requires
        !d.done,
        sorted(d.blocks),
        starts(start, index, block),
        says(block, "type"@, "compaction"@),
        forall|i: int| 0 <= i < frames.len() ==> is_within(#[trigger] frames[i], index),
        stops(end, index),
        says(whole, "type"@, "compaction"@),
        says(whole, "content"@, all_add(frames, index, "compaction_delta"@, "content"@)),
    ensures
        ({
            let part = CompactionPartView {
                id: None,
                content: Some(all_add(frames, index, "compaction_delta"@, "content"@)),
                encrypted_content: None,
            };
            &&& at_the_end(d, start, frames, end) == seq![Action::Compaction(part)]
            &&& block_part(whole) == Some(AssistantPartView::Compaction(part))
        }),
{
    lemma_block_kinds();
    let b = BlockView::Compaction { content: Seq::empty() };
    lemma_start(d, start, index, block, b);
    let opened = d.frame(start).state;
    lemma_frames(opened, frames, index, b);
    let content = all_add(frames, index, "compaction_delta"@, "content"@);
    assert(Seq::<char>::empty() + content =~= content);
    lemma_stop(fed(opened, frames), end, index);
}

/// Different indices have different names.
pub proof fn lemma_decimals_differ(a: nat, b: nat)
    ensures
        decimal(a) == decimal(b) ==> a == b,
        decimal(a).len() > 0,
        decimal(b).len() > 0,
    decreases a,
{
    if a >= 10 && b >= 10 {
        lemma_decimals_differ(a / 10, b / 10);
        let x = decimal(a / 10);
        let y = decimal(b / 10);
        if decimal(a) == decimal(b) {
            assert(decimal(a).drop_last() =~= x);
            assert(decimal(b).drop_last() =~= y);
            assert(decimal(a).last() == decimal(b).last());
        }
    } else if a >= 10 {
        lemma_decimals_differ(a / 10, 0);
    } else if b >= 10 {
        lemma_decimal_long(b);
    } else {
        assert(decimal(a)[0] == crate::text::digit(a));
        assert(decimal(b)[0] == crate::text::digit(b));
    }
}

proof fn lemma_decimal_long(a: nat)
    ensures
        decimal(a).len() > 0,
        a >= 10 ==> decimal(a).len() > 1,
    decreases a,
{
    if a >= 10 {
        lemma_decimal_long(a / 10);
    }
}

/// Whether a frame is an event that leaves the stream open.
pub open spec fn goes_on(frame: Seq<char>) -> bool {
    json_parse(frame) matches Ok(v) && envelope_ok(v) && kind_of(v) != "message_stop"@ && kind_of(
        v,
    ) != "error"@
}

#[verifier::rlimit(40)]
proof fn lemma_text_frame(d: AnthropicView, frame: Seq<char>, index: u64)
    requires
        !d.done,
        goes_on(frame),
    ensures
        !d.frame(frame).state.done,
        said(d.frame(frame).decoded.actions, decimal(index as nat)) == adds(
            frame,
            index,
            "text_delta"@,
            "text"@,
        ),
{
    lemma_event_kinds();
    lemma_delta_kinds();
    let v = json_parse(frame)->Ok_0;
    let k = crate::protocols::anthropic::stream::index_of(v);
    let actions = d.frame(frame).decoded.actions;
    let delta = value_in(v, "delta"@);
    let id = decimal(index as nat);
    assert(is_about(v, index) <==> k == index);
    lemma_decimals_differ(k as nat, index as nat);
    reveal_strlit("text_delta");
    assert("text_delta"@.len() == 10);
    if kind_of(v) == "content_block_delta"@ && kind_of(delta) == "text_delta"@ {
        let text = as_text(value_in(delta, "text"@));
        assert(actions =~= seq![Action::TextDelta { id: decimal(k as nat), delta: text }]);
        if k == index {
            lemma_said_once(id, text);
        } else {
            lemma_silent(actions, id);
        }
    } else {
        lemma_silent(actions, id);
    }
}

/// Over any events up to the end of the message, a decoder says for each text
/// block exactly its text deltas, joined in order.
pub proof fn text_deltas_are_told_as_they_are(
    d: AnthropicView,
    frames: Seq<Seq<char>>,
    index: u64,
)
    requires
        !d.done,
        forall|i: int| 0 <= i < frames.len() ==> goes_on(#[trigger] frames[i]),
    ensures
        said(done_by(d, frames), decimal(index as nat)) == all_add(
            frames,
            index,
            "text_delta"@,
            "text"@,
        ),
        !fed(d, frames).done,
    decreases frames.len(),
{
    if frames.len() > 0 {
        let less = frames.drop_last();
        assert forall|i: int| 0 <= i < less.len() implies goes_on(#[trigger] less[i]) by {
            assert(less[i] == frames[i]);
        }
        text_deltas_are_told_as_they_are(d, less, index);
        let last = frames[frames.len() - 1];
        assert(goes_on(last));
        lemma_text_frame(fed(d, less), last, index);
        lemma_said(
            done_by(d, less),
            fed(d, less).frame(last).decoded.actions,
            decimal(index as nat),
        );
        lemma_one_more(frames, index, "text_delta"@, "text"@);
    }
}

/// Reasoning that ends with a part is told as that part.
pub proof fn lemma_reasoning_is_told(n: NormalizerView, id: Seq<char>, part: ReasoningPartView)
    requires
        part.content.len() > 0,
    ensures
        play(n, seq![Action::EndReasoning { id, part: Some(part) }]).events.last()
            == (StreamEventView::ReasoningEnd { id, part }),
{
    let action = Action::EndReasoning { id, part: Some(part) };
    assert(seq![action].drop_last() =~= Seq::empty());
    reveal(crate::stream::contract::act);
    assert(play(n, seq![action].drop_last()) == n.idle());
    let events = crate::stream::contract::act(n, action).events;
    assert(Seq::<StreamEventView>::empty() + events =~= events);
}

/// Why a message stopped is kept: the reason that a late event gave is the one
/// that the stream ends with, a cut one as cut.
pub proof fn streams_finish_as_they_were_told(d: AnthropicView, v: JsonView, reason: Seq<char>)
    requires
        says(value_in(v, "delta"@), "stop_reason"@, reason),
    ensures
        ({
            let after = d.message_delta(v).state;
            &&& after.done == d.done
            &&& after.blocks == d.blocks
            &&& after.finish matches Some(finish) && {
                &&& reason == "end_turn"@ || reason == "stop_sequence"@ <==> finish.reason is Stop
                &&& reason == "max_tokens"@ || reason == "model_context_window_exceeded"@
                    <==> finish.reason is Length
                &&& reason == "tool_use"@ <==> finish.reason is ToolCalls
                &&& reason == "refusal"@ <==> finish.reason is ContentFilter
                &&& reason == "pause_turn"@ || reason == "compaction"@ <==> finish.reason is Paused
                &&& finish.raw == Some(reason)
            }
        }),
        !d.done ==> {
            let actions = d.finish_now().decoded.actions;
            &&& d.finish_now().state.done
            &&& actions.len() > 0
            &&& actions.last() matches Action::Finish(finish) && match d.finish {
                Some(told) => finish == told,
                None => finish.reason is Stop,
            }
        },
{
    reveal_strlit("end_turn");
    reveal_strlit("stop_sequence");
    reveal_strlit("max_tokens");
    reveal_strlit("model_context_window_exceeded");
    reveal_strlit("tool_use");
    reveal_strlit("refusal");
    reveal_strlit("pause_turn");
    reveal_strlit("compaction");
    assert("end_turn"@.len() == 8 && "stop_sequence"@.len() == 13 && "max_tokens"@.len() == 10 && "model_context_window_exceeded"@.len() == 29 && "tool_use"@.len() == 8 && "refusal"@.len() == 7 && "pause_turn"@.len() == 10 && "compaction"@.len() == 10);
    assert("end_turn"@[0] != "tool_use"@[0]);
    assert("max_tokens"@[0] != "pause_turn"@[0]);
    assert("max_tokens"@[0] != "compaction"@[0]);
    assert("pause_turn"@[0] != "compaction"@[0]);
}

} // verus!
