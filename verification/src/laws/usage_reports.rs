//! What answers report of their tokens.
use vstd::prelude::*;

use crate::error::ErrorView;
use crate::json::{JsonView, NumberView};
use crate::laws::value_in;
use crate::protocols::anthropic;
use crate::protocols::gemini;
use crate::protocols::openai::chat;
use crate::protocols::openai::chat::ChatDialect;
use crate::protocols::openai::responses;
use crate::protocols::ApiProfile;
use crate::response::GenerateResultView;
use crate::usage::Usage;

verus! {

/// The count under a key.
pub open spec fn count_in(v: JsonView, key: Seq<char>) -> Option<u64> {
    match value_in(v, key) {
        JsonView::Number(NumberView::U(n)) => Some(n),
        _ => None,
    }
}

/// A count, zero where there is none.
pub open spec fn number(n: Option<u64>) -> int {
    match n {
        Some(n) => n as int,
        None => 0,
    }
}

/// Whether a usage splits a prompt into what was read from a cache, what was
/// written to one, and the rest.
pub open spec fn splits(
    usage: Usage,
    prompt: Option<u64>,
    cached: Option<u64>,
    written: Option<u64>,
) -> bool {
    &&& usage.cached_input_tokens == cached
    &&& usage.cache_creation_input_tokens == written
    &&& usage.input_tokens is Some <==> prompt is Some
    &&& prompt matches Some(n) ==> {
        &&& number(cached) + number(written) <= n ==> number(usage.input_tokens) + number(cached)
            + number(written) == n
        &&& number(cached) + number(written) > n ==> usage.input_tokens == Some(0u64)
    }
}

/// A completion reports the tokens that its provider counted, with the prompt
/// split into its parts; where the provider counts reasoning apart from the
/// output, the output has both.
pub proof fn completions_report_their_tokens(
    v: JsonView,
    dialect: ChatDialect,
    result: GenerateResultView,
)
    requires
        chat::types::decoded_completion(v, dialect) == Ok::<GenerateResultView, ErrorView>(result),
        value_in(v, "usage"@) is Object,
    ensures
        ({
            let u = value_in(v, "usage"@);
            let before = value_in(u, "prompt_tokens_details"@);
            let after = value_in(u, "completion_tokens_details"@);
            let output = count_in(u, "completion_tokens"@);
            let reasoning = count_in(after, "reasoning_tokens"@);
            &&& splits(
                result.usage,
                count_in(u, "prompt_tokens"@),
                count_in(before, "cached_tokens"@),
                count_in(before, "cache_write_tokens"@),
            )
            &&& result.usage.total_tokens == count_in(u, "total_tokens"@)
            &&& result.usage.reasoning_tokens == reasoning
            &&& !(dialect is Xai) ==> result.usage.output_tokens == output
            &&& dialect is Xai && number(output) + number(reasoning) <= u64::MAX && (output is Some
                || reasoning is Some) ==> number(result.usage.output_tokens) == number(output)
                + number(reasoning)
        }),
{
}

/// A response reports the tokens that its provider counted, with the prompt
/// split into its parts.
pub proof fn responses_report_their_tokens(
    v: JsonView,
    model: Seq<char>,
    profile: ApiProfile,
    result: GenerateResultView,
)
    requires
        responses::types::decoded_response(v, model, profile) == Ok::<
            GenerateResultView,
            ErrorView,
        >(result),
        value_in(v, "usage"@) is Object,
    ensures
        ({
            let u = value_in(v, "usage"@);
            let before = value_in(u, "input_tokens_details"@);
            let after = value_in(u, "output_tokens_details"@);
            &&& splits(
                result.usage,
                count_in(u, "input_tokens"@),
                count_in(before, "cached_tokens"@),
                count_in(before, "cache_write_tokens"@),
            )
            &&& result.usage.output_tokens == count_in(u, "output_tokens"@)
            &&& result.usage.total_tokens == count_in(u, "total_tokens"@)
            &&& result.usage.reasoning_tokens == count_in(after, "reasoning_tokens"@)
        }),
{
}

/// A message reports the tokens that its provider counted, where it was made in
/// one pass.
pub proof fn messages_report_their_tokens(v: JsonView, result: GenerateResultView)
    requires
        anthropic::types::decoded_message(v) == Ok::<GenerateResultView, ErrorView>(result),
        value_in(v, "usage"@) is Object,
        crate::laws::as_items(value_in(value_in(v, "usage"@), "iterations"@)).len() == 0,
    ensures
        ({
            let u = value_in(v, "usage"@);
            &&& result.usage.input_tokens == count_in(u, "input_tokens"@)
            &&& result.usage.output_tokens == count_in(u, "output_tokens"@)
            &&& result.usage.cached_input_tokens == count_in(u, "cache_read_input_tokens"@)
            &&& result.usage.cache_creation_input_tokens == count_in(
                u,
                "cache_creation_input_tokens"@,
            )
            &&& result.usage.reasoning_tokens == count_in(
                value_in(u, "output_tokens_details"@),
                "thinking_tokens"@,
            )
        }),
{
}

/// A Gemini answer reports the tokens that its provider counted: the thoughts
/// belong to the output, and what was cached is not counted twice.
pub proof fn answers_report_their_tokens(
    v: JsonView,
    ids: Seq<Seq<char>>,
    result: GenerateResultView,
)
    requires
        gemini::types::decoded_response(v, ids) == Ok::<GenerateResultView, ErrorView>(result),
        value_in(v, "usageMetadata"@) is Object,
    ensures
        ({
            let u = value_in(v, "usageMetadata"@);
            let said = count_in(u, "candidatesTokenCount"@);
            let thought = count_in(u, "thoughtsTokenCount"@);
            &&& splits(
                result.usage,
                count_in(u, "promptTokenCount"@),
                count_in(u, "cachedContentTokenCount"@),
                None,
            )
            &&& result.usage.output_tokens is None <==> said is None && thought is None
            &&& number(said) + number(thought) <= u64::MAX ==> number(result.usage.output_tokens)
                == number(said) + number(thought)
            &&& result.usage.reasoning_tokens == thought
            &&& result.usage.total_tokens == count_in(u, "totalTokenCount"@)
            &&& result.usage.tool_use_prompt_tokens == count_in(u, "toolUsePromptTokenCount"@)
        }),
{
    reveal(crate::usage::sum_of);
}

} // verus!
