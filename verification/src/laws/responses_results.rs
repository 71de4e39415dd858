//! What a Responses answer decodes to.
use vstd::prelude::*;

use crate::json::JsonView;
use crate::message::AssistantPartView;
use crate::protocols::openai::responses::types::{decoded_response, output_parts, refuses};
use crate::protocols::ApiProfile;
use crate::response::GenerateResultView;

verus! {

/// Whether a part is text that the model refused with.
pub open spec fn declines(part: AssistantPartView) -> bool {
    part matches AssistantPartView::Text { provider_metadata, .. }
        && provider_metadata.contains_key("openai"@) && super::says(
        provider_metadata["openai"@],
        "content_type"@,
        "refusal"@,
    )
}

/// Whether a part is a tool call.
pub open spec fn calls(content: Seq<AssistantPartView>) -> bool {
    exists|i: int| 0 <= i < content.len() && (#[trigger] content[i]) is ToolCall
}

/// Whether nothing in a result is a refusal.
pub open spec fn is_willing(content: Seq<AssistantPartView>) -> bool {
    forall|i: int| 0 <= i < content.len() ==> !declines(#[trigger] content[i])
}

/// Whether a response says why it is incomplete.
pub open spec fn is_cut_by(v: JsonView, reason: Seq<char>) -> bool {
    v matches JsonView::Object(m) && m.contains_key("incomplete_details"@) && super::says(
        m["incomplete_details"@],
        "reason"@,
        reason,
    )
}

/// A response that the provider cut never looks complete: without a refusal it
/// has finished for its length where the token limit cut it, by a filter where
/// that cut it, and never by a natural stop. A cut or filtered answer has no
/// tool calls, and the provider's own reason is kept.
pub proof fn cut_answers_do_not_look_complete(
    v: JsonView,
    model: Seq<char>,
    profile: ApiProfile,
    result: GenerateResultView,
)
    requires
        super::says(v, "status"@, "incomplete"@),
        decoded_response(v, model, profile) == Ok::<GenerateResultView, crate::error::ErrorView>(
            result,
        ),
    ensures
        !(result.finish.reason is Stop) && !(result.finish.reason is ToolCalls),
        is_willing(result.content) ==> {
            &&& is_cut_by(v, "max_output_tokens"@) || is_cut_by(v, "max_tokens"@)
                ==> result.finish.reason is Length && !calls(result.content)
            &&& is_cut_by(v, "content_filter"@) ==> result.finish.reason is ContentFilter
                && !calls(result.content)
            &&& forall|reason: Seq<char>| #[trigger]
                is_cut_by(v, reason) ==> result.finish.raw == Some(reason)
        },
{
    lemma_parts_kept(v, model, profile, result);
    assert forall|reason: Seq<char>| is_cut_by(v, reason) && is_willing(
        result.content,
    ) implies result.finish.raw == Some(reason) by {}
    reveal_strlit("max_output_tokens");
    reveal_strlit("max_tokens");
    reveal_strlit("content_filter");
    assert("max_output_tokens"@.len() == 17 && "max_tokens"@.len() == 10 && "content_filter"@.len()
        == 14);
}

/// What is refused in the output is refused in the result, and nothing else.
proof fn lemma_parts_kept(
    v: JsonView,
    model: Seq<char>,
    profile: ApiProfile,
    result: GenerateResultView,
)
    requires
        decoded_response(v, model, profile) == Ok::<GenerateResultView, crate::error::ErrorView>(
            result,
        ),
    ensures
        ({
            let output = crate::wire::items_at(v, "output"@);
            let parts = output_parts(output, output.len() as int)->Ok_0;
            &&& refuses(parts) <==> !is_willing(result.content)
            &&& result.finish.reason.discards() ==> !calls(result.content)
        }),
{
    let output = crate::wire::items_at(v, "output"@);
    let parts = output_parts(output, output.len() as int)->Ok_0;
    let finish = crate::protocols::openai::responses::types::response_finish(v, parts);
    if finish.reason.discards() {
        lemma_without_calls(parts);
    } else {
        assert forall|i: int| 0 <= i < parts.len() implies declines(#[trigger] parts[i])
            == declines(result.content[i]) by {}
        if refuses(parts) {
            let i = choose|i: int|
                0 <= i < parts.len() && crate::protocols::openai::responses::types::is_refusal(
                    #[trigger] parts[i],
                );
            assert(declines(parts[i]));
            assert(declines(result.content[i]));
        }
        if !is_willing(result.content) {
            let i = choose|i: int|
                0 <= i < result.content.len() && declines(#[trigger] result.content[i]);
            assert(declines(parts[i]));
        }
    }
}

/// Leaving out the tool calls leaves out nothing else.
proof fn lemma_without_calls(parts: Seq<AssistantPartView>)
    ensures
        ({
            let kept = crate::protocols::without_calls(parts);
            &&& refuses(parts) <==> !is_willing(kept)
            &&& !calls(kept)
        }),
    decreases parts.len(),
{
    if parts.len() > 0 {
        let less = parts.drop_last();
        let before = crate::protocols::without_calls(less);
        let kept = crate::protocols::without_calls(parts);
        lemma_without_calls(less);
        if refuses(less) {
            let i = choose|i: int|
                0 <= i < less.len() && crate::protocols::openai::responses::types::is_refusal(
                    #[trigger] less[i],
                );
            assert(parts[i] == less[i]);
        }
        if !is_willing(before) {
            let i = choose|i: int| 0 <= i < before.len() && declines(#[trigger] before[i]);
            assert(kept[i] == before[i]);
        }
        if refuses(parts) {
            let i = choose|i: int|
                0 <= i < parts.len() && crate::protocols::openai::responses::types::is_refusal(
                    #[trigger] parts[i],
                );
            if i < less.len() {
                assert(less[i] == parts[i]);
            } else {
                assert(declines(kept[before.len() as int]));
            }
        }
        if !is_willing(kept) {
            let i = choose|i: int| 0 <= i < kept.len() && declines(#[trigger] kept[i]);
            if i < before.len() {
                assert(before[i] == kept[i]);
            } else {
                assert(crate::protocols::openai::responses::types::is_refusal(
                    parts[parts.len() - 1],
                ));
            }
        }
        assert forall|i: int| 0 <= i < kept.len() implies !((#[trigger] kept[i]) is ToolCall) by {
            if i < before.len() {
                assert(kept[i] == before[i]);
            }
        }
    }
}

} // verus!
