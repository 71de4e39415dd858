//! Fit a request to what the model accepts before lowering.
//!
//! Settings the [`ModelCapabilities`] table marks unsupported are cleared
//! here, once, with a warning each, so protocol lowering only sees what it can
//! send. Reasoning is the exception: it maps onto a different control rather
//! than being dropped, which resolving it handles per profile.
use vstd::prelude::*;

use super::ApiProfile;
use crate::capabilities::{CapabilitiesView, ModelCapabilities};
use crate::model::views;
use crate::request::{Request, RequestView, ToolDefinition, ToolDefinitionView};
use crate::response::{unsupported, Warning, WarningView};
use crate::text::{cat, cat3};

verus! {

broadcast use crate::model::group_views;

/// A tool without its strictness.
pub open spec fn lenient(tool: ToolDefinitionView) -> ToolDefinitionView {
    ToolDefinitionView { strict: None, ..tool }
}

/// Whether any tool asks for strictness, or for its absence.
pub open spec fn any_strict(tools: Seq<ToolDefinitionView>) -> bool {
    exists|i: int| 0 <= i < tools.len() && (#[trigger] tools[i]).strict is Some
}

/// The request without the settings that are not supported.
pub open spec fn restricted(r: RequestView, c: CapabilitiesView) -> RequestView {
    RequestView {
        max_output_tokens: if c.max_output_tokens {
            r.max_output_tokens
        } else {
            None
        },
        temperature: if c.temperature {
            r.temperature
        } else {
            None
        },
        top_p: if c.top_p {
            r.top_p
        } else {
            None
        },
        top_k: if c.top_k {
            r.top_k
        } else {
            None
        },
        stop_sequences: if c.stop_sequences {
            r.stop_sequences
        } else {
            Seq::empty()
        },
        seed: if c.seed {
            r.seed
        } else {
            None
        },
        presence_penalty: if c.presence_penalty {
            r.presence_penalty
        } else {
            None
        },
        frequency_penalty: if c.frequency_penalty {
            r.frequency_penalty
        } else {
            None
        },
        parallel_tool_calls: if c.parallel_tool_calls {
            r.parallel_tool_calls
        } else {
            None
        },
        tools: if c.strict_tools {
            r.tools
        } else {
            Seq::new(r.tools.len(), |i: int| lenient(r.tools[i]))
        },
        ..r
    }
}

/// The warning about a setting, where it is there and not supported.
#[verifier::opaque]
pub open spec fn dropped(
    supported: bool,
    present: bool,
    setting: Seq<char>,
    profile: ApiProfile,
) -> Seq<WarningView> {
    if !supported && present {
        seq![unsupported(setting, profile.text() + " does not support `"@ + setting + "`"@)]
    } else {
        Seq::empty()
    }
}

/// The warnings about the limits of the output and its sampling.
pub open spec fn sampling_warnings(
    r: RequestView,
    c: CapabilitiesView,
    p: ApiProfile,
) -> Seq<WarningView> {
    dropped(c.max_output_tokens, r.max_output_tokens is Some, "max_output_tokens"@, p) + dropped(
        c.temperature,
        r.temperature is Some,
        "temperature"@,
        p,
    ) + dropped(c.top_p, r.top_p is Some, "top_p"@, p) + dropped(
        c.top_k,
        r.top_k is Some,
        "top_k"@,
        p,
    ) + dropped(c.stop_sequences, r.stop_sequences.len() > 0, "stop_sequences"@, p)
}

/// The warnings about the other settings.
pub open spec fn other_warnings(
    r: RequestView,
    c: CapabilitiesView,
    p: ApiProfile,
) -> Seq<WarningView> {
    dropped(c.seed, r.seed is Some, "seed"@, p) + dropped(
        c.presence_penalty,
        r.presence_penalty is Some,
        "presence_penalty"@,
        p,
    ) + dropped(
        c.frequency_penalty,
        r.frequency_penalty is Some,
        "frequency_penalty"@,
        p,
    ) + dropped(
        c.parallel_tool_calls,
        r.parallel_tool_calls is Some,
        "parallel_tool_calls"@,
        p,
    ) + dropped(c.strict_tools, any_strict(r.tools), "tools.strict"@, p)
}

/// The warnings about the settings that are not supported, in this order.
pub open spec fn restriction_warnings(
    r: RequestView,
    c: CapabilitiesView,
    p: ApiProfile,
) -> Seq<WarningView> {
    sampling_warnings(r, c, p) + other_warnings(r, c, p)
}

fn warn_if(
    warnings: &mut Vec<Warning>,
    supported: bool,
    present: bool,
    setting: &str,
    profile: ApiProfile,
)
    ensures
        views(final(warnings)@) == views(old(warnings)@) + dropped(
            supported,
            present,
            setting@,
            profile,
        ),
{
    reveal(dropped);
    if !supported && present {
        let message: String = cat(
            cat3(profile.as_str(), " does not support `", setting).as_str(),
            "`",
        );
        warnings.push(Warning::unsupported_setting(setting, message.as_str()));
    }
}

/// The setting, unless it is not supported.
fn keep<T>(value: Option<T>, supported: bool) -> (r: Option<T>)
    ensures
        r == if supported {
            value
        } else {
            None
        },
{
    if supported {
        value
    } else {
        None
    }
}

fn has_strict_tool(tools: &Vec<ToolDefinition>) -> (r: bool)
    ensures
        r == any_strict(views(tools@)),
{
    let mut i: usize = 0;
    while i < tools.len()
        invariant
            i <= tools@.len(),
            forall|k: int| 0 <= k < i ==> (#[trigger] views(tools@)[k]).strict is None,
        decreases tools@.len() - i,
    {
        if tools[i].strict.is_some() {
            assert(views(tools@)[i as int].strict is Some);
            return true;
        }
        i += 1;
    }
    false
}

fn make_lenient(tools: &mut Vec<ToolDefinition>)
    ensures
        views(final(tools)@) == Seq::new(
            old(tools)@.len(),
            |i: int| lenient(views(old(tools)@)[i]),
        ),
{
    let ghost start = views(tools@);
    let mut i: usize = 0;
    while i < tools.len()
        invariant
            i <= tools@.len(),
            tools@.len() == start.len(),
            forall|k: int| 0 <= k < i ==> (#[trigger] tools@[k])@ == lenient(start[k]),
            forall|k: int| i <= k < start.len() ==> (#[trigger] tools@[k])@ == start[k],
        decreases tools@.len() - i,
    {
        assert(tools@[i as int]@ == start[i as int]);
        tools[i].strict = None;
        i += 1;
    }
    assert(views(tools@) =~= Seq::new(start.len(), |i: int| lenient(start[i])));
}

fn note_sampling(r: &Request, c: &ModelCapabilities, p: ApiProfile) -> (w: Vec<Warning>)
    ensures
        views(w@) == sampling_warnings(r@, c@, p),
{
    let mut w: Vec<Warning> = Vec::new();
    warn_if(&mut w, c.max_output_tokens, r.max_output_tokens.is_some(), "max_output_tokens", p);
    warn_if(&mut w, c.temperature, r.temperature.is_some(), "temperature", p);
    warn_if(&mut w, c.top_p, r.top_p.is_some(), "top_p", p);
    warn_if(&mut w, c.top_k, r.top_k.is_some(), "top_k", p);
    warn_if(&mut w, c.stop_sequences, r.stop_sequences.len() > 0, "stop_sequences", p);
    w
}

fn note_others(r: &Request, c: &ModelCapabilities, p: ApiProfile) -> (w: Vec<Warning>)
    ensures
        views(w@) == other_warnings(r@, c@, p),
{
    let mut w: Vec<Warning> = Vec::new();
    warn_if(&mut w, c.seed, r.seed.is_some(), "seed", p);
    warn_if(&mut w, c.presence_penalty, r.presence_penalty.is_some(), "presence_penalty", p);
    warn_if(&mut w, c.frequency_penalty, r.frequency_penalty.is_some(), "frequency_penalty", p);
    warn_if(
        &mut w,
        c.parallel_tool_calls,
        r.parallel_tool_calls.is_some(),
        "parallel_tool_calls",
        p,
    );
    warn_if(&mut w, c.strict_tools, has_strict_tool(&r.tools), "tools.strict", p);
    w
}

fn cleared(request: Request, c: &ModelCapabilities) -> (r: Request)
    ensures
        r@ == restricted(request@, c@),
{
    let mut stop_sequences: Vec<String> = request.stop_sequences;
    if !c.stop_sequences {
        stop_sequences.clear();
    }
    let mut tools: Vec<ToolDefinition> = request.tools;
    if !c.strict_tools {
        make_lenient(&mut tools);
    }
    Request {
        tools,
        parallel_tool_calls: keep(request.parallel_tool_calls, c.parallel_tool_calls),
        max_output_tokens: keep(request.max_output_tokens, c.max_output_tokens),
        temperature: keep(request.temperature, c.temperature),
        top_p: keep(request.top_p, c.top_p),
        top_k: keep(request.top_k, c.top_k),
        stop_sequences,
        presence_penalty: keep(request.presence_penalty, c.presence_penalty),
        frequency_penalty: keep(request.frequency_penalty, c.frequency_penalty),
        seed: keep(request.seed, c.seed),
        ..request
    }
}

/// A copy of `request` without the settings `capabilities` rules out, plus
/// a warning for each one removed.
pub fn restrict_request(
    request: &Request,
    capabilities: &ModelCapabilities,
    profile: ApiProfile,
) -> (r: (Request, Vec<Warning>))
    ensures
        r.0@ == restricted(request@, capabilities@),
        views(r.1@) == restriction_warnings(request@, capabilities@, profile),
{
    let mut warnings: Vec<Warning> = note_sampling(request, capabilities, profile);
    let mut others: Vec<Warning> = note_others(request, capabilities, profile);
    warnings.append(&mut others);
    (cleared(request.clone(), capabilities), warnings)
}

/// Restricting is done once and for all: a restricted request has nothing more
/// to drop, and no more warnings.
pub proof fn restricting_twice_is_restricting_once(
    r: RequestView,
    c: CapabilitiesView,
    p: ApiProfile,
)
    ensures
        restricted(restricted(r, c), c) == restricted(r, c),
        restriction_warnings(restricted(r, c), c, p).len() == 0,
{
    reveal(dropped);
    let once = restricted(r, c);
    assert(restricted(once, c) =~= once);
    if !c.strict_tools && any_strict(once.tools) {
        let i = choose|i: int| 0 <= i < once.tools.len() && (#[trigger] once.tools[i]).strict is Some;
        assert(once.tools[i].strict is None);
    }
}

/// A request whose settings are all supported passes through untouched, and a
/// request that passes through without a warning was not changed.
pub proof fn supported_requests_pass_through(r: RequestView, c: CapabilitiesView, p: ApiProfile)
    ensures
        restriction_warnings(r, c, p).len() == 0 <==> restricted(r, c) == r,
{
    reveal(dropped);
    let s = restricted(r, c);
    if restriction_warnings(r, c, p).len() == 0 {
        if !c.strict_tools {
            assert forall|i: int| 0 <= i < r.tools.len() implies lenient(r.tools[i])
                == r.tools[i] by {
                if r.tools[i].strict is Some {
                    assert(any_strict(r.tools));
                }
            }
            assert(s.tools =~= r.tools);
        }
        assert(s.stop_sequences =~= r.stop_sequences);
        assert(s =~= r);
    }
    if s == r {
        if !c.strict_tools && any_strict(r.tools) {
            let i = choose|i: int| 0 <= i < r.tools.len() && (#[trigger] r.tools[i]).strict is Some;
            assert(s.tools[i].strict is None);
        }
        assert(r.stop_sequences.len() == s.stop_sequences.len());
    }
}

} // verus!
