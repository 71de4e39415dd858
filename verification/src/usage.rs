//! Normalized token usage.
use vstd::prelude::*;

verus! {

/// Token usage for a completion.
///
/// Every field is optional: `None` means the provider did not report the
/// value, which is distinct from an explicit `0`.
///
/// `input_tokens` counts fresh input after subtracting provider cache reads
/// and writes. [`Usage::total_input_tokens`] returns the full prompt size.
/// Multi-pass turns report the summed cost of every pass.
#[derive(Debug, Clone, Copy, PartialEq, Eq, Structural)]
pub struct Usage {
    pub input_tokens: Option<u64>,
    pub output_tokens: Option<u64>,
    pub total_tokens: Option<u64>,
    /// Tokens read from a provider prompt cache.
    pub cached_input_tokens: Option<u64>,
    /// Tokens written to a provider prompt cache (Anthropic).
    pub cache_creation_input_tokens: Option<u64>,
    /// Reasoning/thinking tokens included in `output_tokens`.
    pub reasoning_tokens: Option<u64>,
    /// Tokens added to the prompt for tool definitions (Gemini).
    pub tool_use_prompt_tokens: Option<u64>,
}

/// A usage report without any value.
pub open spec fn no_usage() -> Usage {
    Usage {
        input_tokens: None,
        output_tokens: None,
        total_tokens: None,
        cached_input_tokens: None,
        cache_creation_input_tokens: None,
        reasoning_tokens: None,
        tool_use_prompt_tokens: None,
    }
}

/// The later of two reports of one counter.
pub open spec fn later_of(earlier: Option<u64>, later: Option<u64>) -> Option<u64> {
    if later is Some {
        later
    } else {
        earlier
    }
}

/// The sum of two counters, at most `u64::MAX`.
pub open spec fn saturated(a: u64, b: u64) -> u64 {
    if a + b > u64::MAX {
        u64::MAX
    } else {
        (a + b) as u64
    }
}

/// The value of a counter, zero where it was not reported.
pub open spec fn count(a: Option<u64>) -> u64 {
    match a {
        Some(n) => n,
        None => 0,
    }
}

/// The sum of two counters: nothing where neither was reported.
#[verifier::opaque]
pub open spec fn sum_of(a: Option<u64>, b: Option<u64>) -> Option<u64> {
    if a is None && b is None {
        None
    } else {
        Some(saturated(count(a), count(b)))
    }
}

impl Usage {
    /// This report updated by a later one.
    pub open spec fn merged(self, later: Usage) -> Usage {
        Usage {
            input_tokens: later_of(self.input_tokens, later.input_tokens),
            output_tokens: later_of(self.output_tokens, later.output_tokens),
            total_tokens: later_of(self.total_tokens, later.total_tokens),
            cached_input_tokens: later_of(self.cached_input_tokens, later.cached_input_tokens),
            cache_creation_input_tokens: later_of(
                self.cache_creation_input_tokens,
                later.cache_creation_input_tokens,
            ),
            reasoning_tokens: later_of(self.reasoning_tokens, later.reasoning_tokens),
            tool_use_prompt_tokens: later_of(
                self.tool_use_prompt_tokens,
                later.tool_use_prompt_tokens,
            ),
        }
    }

    /// The sum of two reports.
    pub open spec fn plus(self, other: Usage) -> Usage {
        Usage {
            input_tokens: sum_of(self.input_tokens, other.input_tokens),
            output_tokens: sum_of(self.output_tokens, other.output_tokens),
            total_tokens: sum_of(self.total_tokens, other.total_tokens),
            cached_input_tokens: sum_of(self.cached_input_tokens, other.cached_input_tokens),
            cache_creation_input_tokens: sum_of(
                self.cache_creation_input_tokens,
                other.cache_creation_input_tokens,
            ),
            reasoning_tokens: sum_of(self.reasoning_tokens, other.reasoning_tokens),
            tool_use_prompt_tokens: sum_of(
                self.tool_use_prompt_tokens,
                other.tool_use_prompt_tokens,
            ),
        }
    }

    /// The full size of the prompt, where any part of it was reported.
    pub open spec fn total_input(self) -> Option<u64> {
        sum_of(
            sum_of(self.input_tokens, self.cached_input_tokens),
            self.cache_creation_input_tokens,
        )
    }

    /// Whether the provider reported anything at all.
    pub fn is_empty(&self) -> (r: bool)
        ensures
            r == (*self == no_usage()),
    {
        self.input_tokens.is_none() && self.output_tokens.is_none() && self.total_tokens.is_none()
            && self.cached_input_tokens.is_none() && self.cache_creation_input_tokens.is_none()
            && self.reasoning_tokens.is_none() && self.tool_use_prompt_tokens.is_none()
    }

    /// Combined prompt-side tokens: input + cache reads + cache writes,
    /// treating missing values as zero. Returns `None` if nothing was reported.
    pub fn total_input_tokens(&self) -> (r: Option<u64>)
        ensures
            r == self.total_input(),
            r is None <==> self.input_tokens is None && self.cached_input_tokens is None
                && self.cache_creation_input_tokens is None,
            r matches Some(n) ==> n == if count(self.input_tokens) + count(
                self.cached_input_tokens,
            ) + count(self.cache_creation_input_tokens) > u64::MAX {
                u64::MAX as int
            } else {
                count(self.input_tokens) + count(self.cached_input_tokens) + count(
                    self.cache_creation_input_tokens,
                )
            },
    {
        reveal(sum_of);
        if self.input_tokens.is_none() && self.cached_input_tokens.is_none()
            && self.cache_creation_input_tokens.is_none() {
            return None;
        }
        Some(
            self.input_tokens.unwrap_or(0).saturating_add(
                self.cached_input_tokens.unwrap_or(0),
            ).saturating_add(self.cache_creation_input_tokens.unwrap_or(0)),
        )
    }

    /// Merge a later usage report into this one.
    ///
    /// Later `Some` values win because streaming usage is cumulative.
    pub fn merge_from(&mut self, later: &Usage)
        ensures
            *final(self) == old(self).merged(*later),
    {
        self.input_tokens = take_later(self.input_tokens, later.input_tokens);
        self.output_tokens = take_later(self.output_tokens, later.output_tokens);
        self.total_tokens = take_later(self.total_tokens, later.total_tokens);
        self.cached_input_tokens = take_later(self.cached_input_tokens, later.cached_input_tokens);
        self.cache_creation_input_tokens = take_later(
            self.cache_creation_input_tokens,
            later.cache_creation_input_tokens,
        );
        self.reasoning_tokens = take_later(self.reasoning_tokens, later.reasoning_tokens);
        self.tool_use_prompt_tokens = take_later(
            self.tool_use_prompt_tokens,
            later.tool_use_prompt_tokens,
        );
    }

    /// Add another usage report to this one, field by field.
    ///
    /// Sum multi-pass usage field by field. `None + None` stays `None`.
    pub fn add_from(&mut self, other: &Usage)
        ensures
            *final(self) == old(self).plus(*other),
    {
        self.input_tokens = sum(self.input_tokens, other.input_tokens);
        self.output_tokens = sum(self.output_tokens, other.output_tokens);
        self.total_tokens = sum(self.total_tokens, other.total_tokens);
        self.cached_input_tokens = sum(self.cached_input_tokens, other.cached_input_tokens);
        self.cache_creation_input_tokens = sum(
            self.cache_creation_input_tokens,
            other.cache_creation_input_tokens,
        );
        self.reasoning_tokens = sum(self.reasoning_tokens, other.reasoning_tokens);
        self.tool_use_prompt_tokens = sum(
            self.tool_use_prompt_tokens,
            other.tool_use_prompt_tokens,
        );
    }
}

impl Default for Usage {
    fn default() -> (r: Usage)
        ensures
            r == no_usage(),
    {
        Usage {
            input_tokens: None,
            output_tokens: None,
            total_tokens: None,
            cached_input_tokens: None,
            cache_creation_input_tokens: None,
            reasoning_tokens: None,
            tool_use_prompt_tokens: None,
        }
    }
}

fn take_later(earlier: Option<u64>, later: Option<u64>) -> (r: Option<u64>)
    ensures
        r == later_of(earlier, later),
{
    if later.is_some() {
        later
    } else {
        earlier
    }
}

fn sum(a: Option<u64>, b: Option<u64>) -> (r: Option<u64>)
    ensures
        r == sum_of(a, b),
{
    reveal(sum_of);
    if a.is_none() && b.is_none() {
        None
    } else {
        Some(a.unwrap_or(0).saturating_add(b.unwrap_or(0)))
    }
}

/// Reports of one stream may be merged as they come or all at once.
pub proof fn merging_is_associative(a: Usage, b: Usage, c: Usage)
    ensures
        a.merged(b).merged(c) == a.merged(b.merged(c)),
{
}

/// A report that says nothing changes nothing, and a repeated report changes
/// nothing more.
pub proof fn merging_is_idempotent(a: Usage, b: Usage)
    ensures
        a.merged(no_usage()) == a,
        no_usage().merged(a) == a,
        a.merged(b).merged(b) == a.merged(b),
{
}

proof fn lemma_sum(a: Option<u64>, b: Option<u64>, c: Option<u64>)
    ensures
        sum_of(a, b) == sum_of(b, a),
        sum_of(sum_of(a, b), c) == sum_of(a, sum_of(b, c)),
        sum_of(a, None) == a,
{
    reveal(sum_of);
}

/// The sum of several passes does not depend on their order.
pub proof fn adding_is_commutative_and_associative(a: Usage, b: Usage, c: Usage)
    ensures
        a.plus(b) == b.plus(a),
        a.plus(b).plus(c) == a.plus(b.plus(c)),
        a.plus(no_usage()) == a,
{
    lemma_sum(a.input_tokens, b.input_tokens, c.input_tokens);
    lemma_sum(a.output_tokens, b.output_tokens, c.output_tokens);
    lemma_sum(a.total_tokens, b.total_tokens, c.total_tokens);
    lemma_sum(a.cached_input_tokens, b.cached_input_tokens, c.cached_input_tokens);
    lemma_sum(
        a.cache_creation_input_tokens,
        b.cache_creation_input_tokens,
        c.cache_creation_input_tokens,
    );
    lemma_sum(a.reasoning_tokens, b.reasoning_tokens, c.reasoning_tokens);
    lemma_sum(a.tool_use_prompt_tokens, b.tool_use_prompt_tokens, c.tool_use_prompt_tokens);
}

} // verus!
