//! What models accept.
use vstd::prelude::*;

use crate::protocols::ApiProfile;
use crate::request::{ReasoningEffort, TokenCount};

verus! {

/// How reasoning can be controlled.
#[derive(Debug, Clone, PartialEq, Eq)]
pub struct ReasoningSupport {
    /// The accepted effort levels.
    pub efforts: Vec<ReasoningEffort>,
    /// Whether a token budget is accepted.
    pub budget: bool,
    /// Whether reasoning can be disabled.
    pub disable: bool,
    /// Whether the visibility of reasoning can be controlled.
    pub output: bool,
}

/// How reasoning can be controlled.
#[verifier::ext_equal]
pub struct ReasoningSupportView {
    pub efforts: Seq<ReasoningEffort>,
    pub budget: bool,
    pub disable: bool,
    pub output: bool,
}

impl View for ReasoningSupport {
    type V = ReasoningSupportView;

    open spec fn view(&self) -> ReasoningSupportView {
        ReasoningSupportView {
            efforts: self.efforts@,
            budget: self.budget,
            disable: self.disable,
            output: self.output,
        }
    }
}

/// The place of an effort level among all.
pub open spec fn rank(effort: ReasoningEffort) -> int {
    match effort {
        ReasoningEffort::Minimal => 0,
        ReasoningEffort::Low => 1,
        ReasoningEffort::Medium => 2,
        ReasoningEffort::High => 3,
        ReasoningEffort::XHigh => 4,
        ReasoningEffort::Max => 5,
    }
}

/// The token budget that stands for an effort level.
pub open spec fn effort_tokens(effort: ReasoningEffort) -> u32 {
    match effort {
        ReasoningEffort::Minimal => 1024,
        ReasoningEffort::Low => 4096,
        ReasoningEffort::Medium => 16384,
        ReasoningEffort::High => 32768,
        ReasoningEffort::XHigh => 49152,
        ReasoningEffort::Max => 65536,
    }
}

/// The distance of two numbers.
pub open spec fn distance(a: int, b: int) -> int {
    if a >= b {
        a - b
    } else {
        b - a
    }
}

/// Whether the first of two effort levels is nearer to another one: by its
/// rank, and the lower level where both are as near.
pub open spec fn nearer(a: ReasoningEffort, b: ReasoningEffort, wanted: ReasoningEffort) -> bool {
    let x = distance(rank(a), rank(wanted));
    let y = distance(rank(b), rank(wanted));
    x < y || x == y && rank(a) < rank(b)
}

/// Whether the first of two effort levels is nearer to a budget: by its tokens,
/// and the lower level where both are as near.
pub open spec fn nearer_budget(a: ReasoningEffort, b: ReasoningEffort, tokens: int) -> bool {
    let x = distance(effort_tokens(a) as int, tokens);
    let y = distance(effort_tokens(b) as int, tokens);
    x < y || x == y && rank(a) < rank(b)
}

impl ReasoningSupportView {
    /// The accepted effort level nearest to one, among the first `n`.
    pub open spec fn nearest_upto(self, wanted: ReasoningEffort, n: int) -> Option<
        ReasoningEffort,
    >
        decreases n,
    {
        if n <= 0 {
            None
        } else {
            let e = self.efforts[n - 1];
            match self.nearest_upto(wanted, n - 1) {
                Some(best) => if nearer(e, best, wanted) {
                    Some(e)
                } else {
                    Some(best)
                },
                None => Some(e),
            }
        }
    }

    /// The accepted effort level nearest to one.
    pub open spec fn nearest(self, wanted: ReasoningEffort) -> Option<ReasoningEffort> {
        self.nearest_upto(wanted, self.efforts.len() as int)
    }

    /// The accepted effort level nearest to a budget, among the first `n`.
    pub open spec fn for_budget_upto(self, tokens: int, n: int) -> Option<ReasoningEffort>
        decreases n,
    {
        if n <= 0 {
            None
        } else {
            let e = self.efforts[n - 1];
            match self.for_budget_upto(tokens, n - 1) {
                Some(best) => if nearer_budget(e, best, tokens) {
                    Some(e)
                } else {
                    Some(best)
                },
                None => Some(e),
            }
        }
    }

    /// The accepted effort level nearest to a budget.
    pub open spec fn for_budget(self, tokens: int) -> Option<ReasoningEffort> {
        self.for_budget_upto(tokens, self.efforts.len() as int)
    }
}

fn rank_of(effort: ReasoningEffort) -> (r: u32)
    ensures
        r == rank(effort),
        r <= 5,
{
    match effort {
        ReasoningEffort::Minimal => 0,
        ReasoningEffort::Low => 1,
        ReasoningEffort::Medium => 2,
        ReasoningEffort::High => 3,
        ReasoningEffort::XHigh => 4,
        ReasoningEffort::Max => 5,
    }
}

fn tokens_of(effort: ReasoningEffort) -> (r: u32)
    ensures
        r == effort_tokens(effort),
        r > 0,
{
    match effort {
        ReasoningEffort::Minimal => 1024,
        ReasoningEffort::Low => 4096,
        ReasoningEffort::Medium => 16384,
        ReasoningEffort::High => 32768,
        ReasoningEffort::XHigh => 49152,
        ReasoningEffort::Max => 65536,
    }
}

fn gap(a: u32, b: u32) -> (r: u32)
    ensures
        r == distance(a as int, b as int),
{
    if a >= b {
        a - b
    } else {
        b - a
    }
}

impl ReasoningSupport {
    /// No control at all.
    pub fn none() -> (r: ReasoningSupport)
        ensures
            r@ == (ReasoningSupportView {
                efforts: Seq::empty(),
                budget: false,
                disable: false,
                output: false,
            }),
    {
        ReasoningSupport { efforts: Vec::new(), budget: false, disable: false, output: false }
    }

    /// The accepted effort level nearest to one, `None` where there is none.
    pub fn nearest_effort(&self, wanted: ReasoningEffort) -> (r: Option<ReasoningEffort>)
        ensures
            r == self@.nearest(wanted),
    {
        let mut best: Option<ReasoningEffort> = None;
        let mut i: usize = 0;
        while i < self.efforts.len()
            invariant
                i <= self.efforts@.len(),
                best == self@.nearest_upto(wanted, i as int),
            decreases self.efforts@.len() - i,
        {
            let e: ReasoningEffort = self.efforts[i];
            best = match best {
                Some(b) => {
                    let x: u32 = gap(rank_of(e), rank_of(wanted));
                    let y: u32 = gap(rank_of(b), rank_of(wanted));
                    if x < y || (x == y && rank_of(e) < rank_of(b)) {
                        Some(e)
                    } else {
                        Some(b)
                    }
                },
                None => Some(e),
            };
            i += 1;
        }
        best
    }

    /// The token budget that stands for an effort level.
    pub fn budget_for_effort(effort: ReasoningEffort) -> (r: TokenCount)
        ensures
            r.value() == effort_tokens(effort),
    {
        let tokens: u32 = tokens_of(effort);
        TokenCount::new(tokens).unwrap()
    }

    /// The accepted effort level nearest to a budget, `None` where there is
    /// none.
    pub fn effort_for_budget(&self, tokens: TokenCount) -> (r: Option<ReasoningEffort>)
        ensures
            r == self@.for_budget(tokens.value() as int),
    {
        let wanted: u32 = tokens.get();
        let mut best: Option<ReasoningEffort> = None;
        let mut i: usize = 0;
        while i < self.efforts.len()
            invariant
                i <= self.efforts@.len(),
                wanted == tokens.value(),
                best == self@.for_budget_upto(wanted as int, i as int),
            decreases self.efforts@.len() - i,
        {
            let e: ReasoningEffort = self.efforts[i];
            best = match best {
                Some(b) => {
                    let x: u32 = gap(tokens_of(e), wanted);
                    let y: u32 = gap(tokens_of(b), wanted);
                    if x < y || (x == y && rank_of(e) < rank_of(b)) {
                        Some(e)
                    } else {
                        Some(b)
                    }
                },
                None => Some(e),
            };
            i += 1;
        }
        best
    }
}

/// An accepted effort level is its own nearest, the nearest level is an
/// accepted one, and there is one wherever any is accepted.
pub proof fn an_accepted_effort_is_kept(s: ReasoningSupportView, wanted: ReasoningEffort)
    ensures
        s.efforts.contains(wanted) ==> s.nearest(wanted) == Some(wanted),
        s.nearest(wanted) is Some <==> s.efforts.len() > 0,
        s.nearest(wanted) matches Some(e) ==> s.efforts.contains(e),
{
    lemma_nearest(s, wanted, s.efforts.len() as int);
    if s.efforts.contains(wanted) {
        let i = choose|i: int| 0 <= i < s.efforts.len() && s.efforts[i] == wanted;
        assert(s.efforts[i] == wanted);
    }
}

proof fn lemma_nearest(s: ReasoningSupportView, wanted: ReasoningEffort, n: int)
    requires
        0 <= n <= s.efforts.len(),
    ensures
        s.nearest_upto(wanted, n) is Some <==> n > 0,
        s.nearest_upto(wanted, n) matches Some(e) ==> s.efforts.contains(e),
        forall|i: int|
            0 <= i < n ==> distance(rank(s.nearest_upto(wanted, n)->0), rank(wanted)) <= distance(
                rank(#[trigger] s.efforts[i]),
                rank(wanted),
            ),
    decreases n,
{
    if n > 0 {
        lemma_nearest(s, wanted, n - 1);
        assert(s.efforts.contains(s.efforts[n - 1]));
    }
}

/// The settings a model accepts.
#[derive(Debug, Clone, PartialEq, Eq)]
pub struct ModelCapabilities {
    pub tools: bool,
    pub structured_output: bool,
    pub native_compaction: bool,
    pub max_output_tokens: bool,
    pub temperature: bool,
    pub top_p: bool,
    pub top_k: bool,
    pub stop_sequences: bool,
    pub seed: bool,
    pub presence_penalty: bool,
    pub frequency_penalty: bool,
    pub parallel_tool_calls: bool,
    pub strict_tools: bool,
    pub reasoning: ReasoningSupport,
}

/// The settings a model accepts.
#[verifier::ext_equal]
pub struct CapabilitiesView {
    pub tools: bool,
    pub structured_output: bool,
    pub native_compaction: bool,
    pub max_output_tokens: bool,
    pub temperature: bool,
    pub top_p: bool,
    pub top_k: bool,
    pub stop_sequences: bool,
    pub seed: bool,
    pub presence_penalty: bool,
    pub frequency_penalty: bool,
    pub parallel_tool_calls: bool,
    pub strict_tools: bool,
    pub reasoning: ReasoningSupportView,
}

impl View for ModelCapabilities {
    type V = CapabilitiesView;

    open spec fn view(&self) -> CapabilitiesView {
        CapabilitiesView {
            tools: self.tools,
            structured_output: self.structured_output,
            native_compaction: self.native_compaction,
            max_output_tokens: self.max_output_tokens,
            temperature: self.temperature,
            top_p: self.top_p,
            top_k: self.top_k,
            stop_sequences: self.stop_sequences,
            seed: self.seed,
            presence_penalty: self.presence_penalty,
            frequency_penalty: self.frequency_penalty,
            parallel_tool_calls: self.parallel_tool_calls,
            strict_tools: self.strict_tools,
            reasoning: self.reasoning@,
        }
    }
}

/// Whether a profile speaks the Responses dialect.
pub open spec fn is_responses(p: ApiProfile) -> bool {
    p is OpenAiResponses || p is ChatGptResponses || p is XaiResponses
        || p is BedrockOpenAiResponses
}

/// Whether a profile speaks the Messages dialect.
pub open spec fn is_messages(p: ApiProfile) -> bool {
    p is AnthropicMessages || p is BedrockAnthropic
}

/// The effort levels that a profile accepts.
pub open spec fn profile_efforts(p: ApiProfile) -> Seq<ReasoningEffort> {
    if is_messages(p) {
        seq![
            ReasoningEffort::Low,
            ReasoningEffort::Medium,
            ReasoningEffort::High,
            ReasoningEffort::Max,
        ]
    } else if p is GeminiGenerateContent {
        seq![
            ReasoningEffort::Minimal,
            ReasoningEffort::Low,
            ReasoningEffort::Medium,
            ReasoningEffort::High,
        ]
    } else {
        seq![
            ReasoningEffort::Minimal,
            ReasoningEffort::Low,
            ReasoningEffort::Medium,
            ReasoningEffort::High,
            ReasoningEffort::XHigh,
            ReasoningEffort::Max,
        ]
    }
}

/// The settings that models of a profile accept.
pub open spec fn profile_capabilities(p: ApiProfile) -> CapabilitiesView {
    let responses = is_responses(p);
    let messages = is_messages(p);
    let gemini = p is GeminiGenerateContent;
    let router = p is OpenRouter;
    CapabilitiesView {
        tools: true,
        structured_output: true,
        native_compaction: responses || messages,
        max_output_tokens: !(p is ChatGptResponses),
        temperature: !(p is ChatGptResponses),
        top_p: !(p is ChatGptResponses),
        top_k: messages || gemini || router,
        stop_sequences: !responses,
        seed: !responses && !messages,
        presence_penalty: !responses && !messages,
        frequency_penalty: !responses && !messages,
        parallel_tool_calls: !gemini,
        strict_tools: !gemini,
        reasoning: ReasoningSupportView {
            efforts: profile_efforts(p),
            budget: messages || gemini || router,
            disable: true,
            output: responses || messages || gemini || router,
        },
    }
}

impl ModelCapabilities {
    /// The settings that models of a profile accept.
    pub fn for_profile(profile: ApiProfile) -> (r: ModelCapabilities)
        ensures
            r@ == profile_capabilities(profile),
    {
        let responses: bool = matches!(
            profile,
            ApiProfile::OpenAiResponses | ApiProfile::ChatGptResponses | ApiProfile::XaiResponses
                | ApiProfile::BedrockOpenAiResponses
        );
        let messages: bool = matches!(
            profile,
            ApiProfile::AnthropicMessages | ApiProfile::BedrockAnthropic
        );
        let gemini: bool = matches!(profile, ApiProfile::GeminiGenerateContent);
        let router: bool = matches!(profile, ApiProfile::OpenRouter);
        let chatgpt: bool = matches!(profile, ApiProfile::ChatGptResponses);
        let mut efforts: Vec<ReasoningEffort> = Vec::new();
        if !messages {
            efforts.push(ReasoningEffort::Minimal);
        }
        efforts.push(ReasoningEffort::Low);
        efforts.push(ReasoningEffort::Medium);
        efforts.push(ReasoningEffort::High);
        if !messages && !gemini {
            efforts.push(ReasoningEffort::XHigh);
        }
        if !gemini {
            efforts.push(ReasoningEffort::Max);
        }
        assert(efforts@ =~= profile_efforts(profile));
        ModelCapabilities {
            tools: true,
            structured_output: true,
            native_compaction: responses || messages,
            max_output_tokens: !chatgpt,
            temperature: !chatgpt,
            top_p: !chatgpt,
            top_k: messages || gemini || router,
            stop_sequences: !responses,
            seed: !responses && !messages,
            presence_penalty: !responses && !messages,
            frequency_penalty: !responses && !messages,
            parallel_tool_calls: !gemini,
            strict_tools: !gemini,
            reasoning: ReasoningSupport {
                efforts,
                budget: messages || gemini || router,
                disable: true,
                output: responses || messages || gemini || router,
            },
        }
    }
}

} // verus!
