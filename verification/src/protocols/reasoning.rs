//! Fit a [`ReasoningConfig`] to what a profile can express.
//!
//! Callers choose between a discrete effort and a token budget; providers
//! accept one or the other, and not every effort level. Rather than each
//! protocol dropping what it cannot send, this maps the request onto the
//! closest supported control and records the approximation as a warning.
use vstd::prelude::*;

use super::ApiProfile;
use crate::capabilities::{
    an_accepted_effort_is_kept, effort_tokens, ReasoningSupport, ReasoningSupportView,
};
use crate::model::views;
use crate::request::{ReasoningConfig, ReasoningEffort, ReasoningOutput, TokenCount};
use crate::response::{approximated, unsupported, Warning, WarningView};
use crate::text::{cat, cat3, decimal, decimal_text};

verus! {

broadcast use crate::model::group_views;

/// A reasoning setting the profile can send verbatim.
#[derive(Debug, Clone, Copy, PartialEq, Eq, Structural)]
pub enum ResolvedReasoning {
    Disabled,
    Effort(ReasoningEffort),
    Budget(TokenCount),
}

/// A reasoning setting the profile can send verbatim, a budget by its number.
pub enum ResolvedView {
    Disabled,
    Effort(ReasoningEffort),
    Budget(u32),
}

impl View for ResolvedReasoning {
    type V = ResolvedView;

    open spec fn view(&self) -> ResolvedView {
        match *self {
            ResolvedReasoning::Disabled => ResolvedView::Disabled,
            ResolvedReasoning::Effort(effort) => ResolvedView::Effort(effort),
            ResolvedReasoning::Budget(tokens) => ResolvedView::Budget(tokens.value()),
        }
    }
}

/// What comes of a reasoning setting: the control to send, and the warnings.
#[verifier::ext_equal]
pub struct Resolution {
    pub control: Option<ResolvedView>,
    pub warnings: Seq<WarningView>,
}

/// The control for an effort: the nearest accepted level, or else a budget.
pub open spec fn effort_resolution(
    effort: ReasoningEffort,
    support: ReasoningSupportView,
    profile: ApiProfile,
) -> Resolution {
    match support.nearest(effort) {
        Some(nearest) => Resolution {
            control: Some(ResolvedView::Effort(nearest)),
            warnings: if nearest == effort {
                Seq::empty()
            } else {
                seq![
                    approximated(
                        "reasoning.effort"@,
                        profile.text() + " does not accept reasoning effort `"@ + effort.text()
                            + "`; sent `"@ + nearest.text() + "`"@,
                    ),
                ]
            },
        },
        None => if support.budget {
            Resolution {
                control: Some(ResolvedView::Budget(effort_tokens(effort))),
                warnings: seq![
                    approximated(
                        "reasoning.effort"@,
                        profile.text() + " uses reasoning token budgets; effort `"@ + effort.text()
                            + "` was sent as "@ + decimal(effort_tokens(effort) as nat)
                            + " tokens"@,
                    ),
                ],
            }
        } else {
            Resolution {
                control: None,
                warnings: seq![
                    unsupported(
                        "reasoning.effort"@,
                        profile.text() + " has no reasoning control"@,
                    ),
                ],
            }
        },
    }
}

/// The control for a budget: the budget, or else the nearest accepted level.
pub open spec fn budget_resolution(
    tokens: u32,
    support: ReasoningSupportView,
    profile: ApiProfile,
) -> Resolution {
    if support.budget {
        Resolution { control: Some(ResolvedView::Budget(tokens)), warnings: Seq::empty() }
    } else {
        match support.for_budget(tokens as int) {
            Some(effort) => Resolution {
                control: Some(ResolvedView::Effort(effort)),
                warnings: seq![
                    approximated(
                        "reasoning.budget"@,
                        profile.text() + " uses discrete reasoning efforts; a budget of "@
                            + decimal(tokens as nat) + " tokens was sent as `"@ + effort.text()
                            + "`"@,
                    ),
                ],
            },
            None => Resolution {
                control: None,
                warnings: seq![
                    unsupported(
                        "reasoning.budget"@,
                        profile.text() + " has no reasoning control"@,
                    ),
                ],
            },
        }
    }
}

/// The control for a configuration.
pub open spec fn control_resolution(
    config: ReasoningConfig,
    support: ReasoningSupportView,
    profile: ApiProfile,
) -> Resolution {
    match config {
        ReasoningConfig::Disabled => if support.disable {
            Resolution { control: Some(ResolvedView::Disabled), warnings: Seq::empty() }
        } else {
            Resolution {
                control: None,
                warnings: seq![
                    unsupported("reasoning"@, profile.text() + " cannot disable reasoning"@),
                ],
            }
        },
        ReasoningConfig::Effort { effort, .. } => effort_resolution(effort, support, profile),
        ReasoningConfig::Budget { tokens, .. } => budget_resolution(
            tokens.value(),
            support,
            profile,
        ),
    }
}

/// The visibility that a configuration asks for.
pub open spec fn requested_output(config: ReasoningConfig) -> Option<ReasoningOutput> {
    match config {
        ReasoningConfig::Disabled => None,
        ReasoningConfig::Effort { output, .. } => output,
        ReasoningConfig::Budget { output, .. } => output,
    }
}

/// The control and the visibility to send, where anything can be sent.
pub open spec fn resolved(
    config: ReasoningConfig,
    support: ReasoningSupportView,
    profile: ApiProfile,
) -> Option<(ResolvedView, Option<ReasoningOutput>)> {
    match control_resolution(config, support, profile).control {
        Some(control) => Some(
            (
                control,
                if support.output {
                    requested_output(config)
                } else {
                    None
                },
            ),
        ),
        None => None,
    }
}

/// The warnings about a configuration: those about the control, and one about
/// a visibility that cannot be controlled.
pub open spec fn resolution_warnings(
    config: ReasoningConfig,
    support: ReasoningSupportView,
    profile: ApiProfile,
) -> Seq<WarningView> {
    let c = control_resolution(config, support, profile);
    if c.control is Some && requested_output(config) is Some && !support.output {
        c.warnings.push(
            unsupported(
                "reasoning.output"@,
                profile.text() + " cannot control reasoning output visibility"@,
            ),
        )
    } else {
        c.warnings
    }
}

/// A resolution, with the control by its number.
pub open spec fn resolution_view(
    r: Option<(ResolvedReasoning, Option<ReasoningOutput>)>,
) -> Option<(ResolvedView, Option<ReasoningOutput>)> {
    match r {
        Some((control, output)) => Some((control@, output)),
        None => None,
    }
}

/// The reasoning control to send, plus the output visibility when the
/// profile can honor it. `None` when nothing can be sent.
pub fn resolve(
    config: ReasoningConfig,
    support: &ReasoningSupport,
    profile: ApiProfile,
    warnings: &mut Vec<Warning>,
) -> (r: Option<(ResolvedReasoning, Option<ReasoningOutput>)>)
    ensures
        resolution_view(r) == resolved(config, support@, profile),
        views(final(warnings)@) == views(old(warnings)@) + resolution_warnings(
            config,
            support@,
            profile,
        ),
{
    let (requested, control) = match config {
        ReasoningConfig::Disabled => {
            if !support.disable {
                warnings.push(
                    Warning::unsupported_setting(
                        "reasoning",
                        cat(profile.as_str(), " cannot disable reasoning").as_str(),
                    ),
                );
                return None;
            }
            (None, Some(ResolvedReasoning::Disabled))
        },
        ReasoningConfig::Effort { effort, output } => (
            output,
            resolve_effort(effort, support, profile, warnings),
        ),
        ReasoningConfig::Budget { tokens, output } => (
            output,
            resolve_budget(tokens, support, profile, warnings),
        ),
    };
    match control {
        Some(control) => {
            let output: Option<ReasoningOutput> = if requested.is_some() && !support.output {
                warnings.push(
                    Warning::unsupported_setting(
                        "reasoning.output",
                        cat(
                            profile.as_str(),
                            " cannot control reasoning output visibility",
                        ).as_str(),
                    ),
                );
                None
            } else {
                requested
            };
            assert(views(warnings@) =~= views(old(warnings)@) + resolution_warnings(
                config,
                support@,
                profile,
            ));
            Some((control, output))
        },
        None => None,
    }
}

fn resolve_effort(
    effort: ReasoningEffort,
    support: &ReasoningSupport,
    profile: ApiProfile,
    warnings: &mut Vec<Warning>,
) -> (r: Option<ResolvedReasoning>)
    ensures
        crate::model::opt(r) == effort_resolution(effort, support@, profile).control,
        views(final(warnings)@) == views(old(warnings)@) + effort_resolution(
            effort,
            support@,
            profile,
        ).warnings,
{
    if let Some(nearest) = support.nearest_effort(effort) {
        if nearest != effort {
            let head: String = cat3(
                profile.as_str(),
                " does not accept reasoning effort `",
                effort.as_str(),
            );
            let message: String = cat3(
                cat(head.as_str(), "`; sent `").as_str(),
                nearest.as_str(),
                "`",
            );
            warnings.push(Warning::approximated_setting("reasoning.effort", message.as_str()));
        }
        return Some(ResolvedReasoning::Effort(nearest));
    }
    if support.budget {
        let tokens: TokenCount = ReasoningSupport::budget_for_effort(effort);
        let head: String = cat3(
            profile.as_str(),
            " uses reasoning token budgets; effort `",
            effort.as_str(),
        );
        let message: String = cat3(
            cat(head.as_str(), "` was sent as ").as_str(),
            decimal_text(tokens.get() as u64).as_str(),
            " tokens",
        );
        warnings.push(Warning::approximated_setting("reasoning.effort", message.as_str()));
        return Some(ResolvedReasoning::Budget(tokens));
    }
    warnings.push(
        Warning::unsupported_setting(
            "reasoning.effort",
            cat(profile.as_str(), " has no reasoning control").as_str(),
        ),
    );
    None
}

fn resolve_budget(
    tokens: TokenCount,
    support: &ReasoningSupport,
    profile: ApiProfile,
    warnings: &mut Vec<Warning>,
) -> (r: Option<ResolvedReasoning>)
    ensures
        crate::model::opt(r) == budget_resolution(tokens.value(), support@, profile).control,
        views(final(warnings)@) == views(old(warnings)@) + budget_resolution(
            tokens.value(),
            support@,
            profile,
        ).warnings,
{
    if support.budget {
        return Some(ResolvedReasoning::Budget(tokens));
    }
    if let Some(effort) = support.effort_for_budget(tokens) {
        let head: String = cat3(
            profile.as_str(),
            " uses discrete reasoning efforts; a budget of ",
            decimal_text(tokens.get() as u64).as_str(),
        );
        let message: String = cat3(
            cat(head.as_str(), " tokens was sent as `").as_str(),
            effort.as_str(),
            "`",
        );
        warnings.push(Warning::approximated_setting("reasoning.budget", message.as_str()));
        return Some(ResolvedReasoning::Effort(effort));
    }
    warnings.push(
        Warning::unsupported_setting(
            "reasoning.budget",
            cat(profile.as_str(), " has no reasoning control").as_str(),
        ),
    );
    None
}

/// What comes out is something the profile accepts; what the profile accepts
/// comes out as it is, without a warning; and nothing is dropped or changed
/// without one.
pub proof fn resolution_is_faithful(
    config: ReasoningConfig,
    support: ReasoningSupportView,
    profile: ApiProfile,
)
    ensures
        match resolved(config, support, profile) {
            Some((ResolvedView::Disabled, _)) => support.disable,
            Some((ResolvedView::Effort(effort), _)) => support.efforts.contains(effort),
            Some((ResolvedView::Budget(_), _)) => support.budget,
            None => resolution_warnings(config, support, profile).len() > 0,
        },
        config matches ReasoningConfig::Effort { effort, output } ==> (support.efforts.contains(
            effort,
        ) && (output is None || support.output) ==> resolved(config, support, profile) == Some(
            (ResolvedView::Effort(effort), output),
        ) && resolution_warnings(config, support, profile).len() == 0),
        config matches ReasoningConfig::Budget { tokens, output } ==> (support.budget && (
        output is None || support.output) ==> resolved(config, support, profile) == Some(
            (ResolvedView::Budget(tokens.value()), output),
        ) && resolution_warnings(config, support, profile).len() == 0),
{
    match config {
        ReasoningConfig::Effort { effort, .. } => {
            an_accepted_effort_is_kept(support, effort);
        },
        ReasoningConfig::Budget { tokens, .. } => {
            lemma_for_budget(support, tokens.value() as int, support.efforts.len() as int);
        },
        _ => {},
    }
}

proof fn lemma_for_budget(s: ReasoningSupportView, tokens: int, n: int)
    requires
        0 <= n <= s.efforts.len(),
    ensures
        s.for_budget_upto(tokens, n) matches Some(e) ==> s.efforts.contains(e),
    decreases n,
{
    if n > 0 {
        lemma_for_budget(s, tokens, n - 1);
        assert(s.efforts.contains(s.efforts[n - 1]));
    }
}

} // verus!
