//! Token accounting of providers.
use vstd::prelude::*;

use crate::usage::{count, saturated, Usage};

verus! {

/// A difference of counters, at least zero.
pub open spec fn remainder(a: u64, b: u64) -> u64 {
    if a >= b {
        (a - b) as u64
    } else {
        0
    }
}

/// Provider token accounting in normalized terms: the input without what was
/// read from or written to a cache.
pub open spec fn normalized_usage(
    input: Option<u64>,
    output: Option<u64>,
    total: Option<u64>,
    cached: Option<u64>,
    cache_write: Option<u64>,
    reasoning: Option<u64>,
) -> Usage {
    Usage {
        input_tokens: match input {
            Some(n) => Some(remainder(n, saturated(count(cached), count(cache_write)))),
            None => None,
        },
        output_tokens: output,
        total_tokens: total,
        cached_input_tokens: cached,
        cache_creation_input_tokens: cache_write,
        reasoning_tokens: reasoning,
        tool_use_prompt_tokens: None,
    }
}

/// Normalize provider token accounting to SDK-wide semantics.
pub fn normalize_usage(
    input: Option<u64>,
    output: Option<u64>,
    total: Option<u64>,
    cached: Option<u64>,
    cache_write: Option<u64>,
    reasoning: Option<u64>,
) -> (r: Usage)
    ensures
        r == normalized_usage(input, output, total, cached, cache_write, reasoning),
{
    Usage {
        input_tokens: match input {
            Some(n) => Some(
                n.saturating_sub(cached.unwrap_or(0).saturating_add(cache_write.unwrap_or(0))),
            ),
            None => None,
        },
        output_tokens: output,
        total_tokens: total,
        cached_input_tokens: cached,
        cache_creation_input_tokens: cache_write,
        reasoning_tokens: reasoning,
        tool_use_prompt_tokens: None,
    }
}

/// The normalized parts of a prompt make up the whole again; where the
/// provider's parts exceed its whole, they make up the parts.
pub proof fn normalized_parts_make_up_the_prompt(
    input: u64,
    output: Option<u64>,
    total: Option<u64>,
    cached: Option<u64>,
    cache_write: Option<u64>,
    reasoning: Option<u64>,
)
    requires
        count(cached) + count(cache_write) <= u64::MAX,
    ensures
        normalized_usage(
            Some(input),
            output,
            total,
            cached,
            cache_write,
            reasoning,
        ).total_input() == Some(
            if input >= count(cached) + count(cache_write) {
                input
            } else {
                (count(cached) + count(cache_write)) as u64
            },
        ),
{
    reveal(crate::usage::sum_of);
}

} // verus!
