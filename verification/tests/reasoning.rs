use cogfer::capabilities::ReasoningSupport;
use cogfer::protocols::reasoning::{resolve, ResolvedReasoning};
use cogfer::protocols::ApiProfile;
use cogfer::request::{ReasoningConfig, ReasoningEffort, ReasoningOutput, TokenCount};
use cogfer::response::WarningKind;

fn budget(tokens: u32) -> TokenCount {
    TokenCount::new(tokens).unwrap()
}

#[test]
fn budgets_become_efforts_with_an_approximation_warning() {
    let support = ReasoningSupport {
        efforts: vec![ReasoningEffort::Low, ReasoningEffort::High],
        budget: false,
        disable: true,
        output: false,
    };
    let mut warnings = Vec::new();

    let resolved = resolve(
        ReasoningConfig::budget(budget(40_000)),
        &support,
        ApiProfile::XaiChatCompletions,
        &mut warnings,
    );

    assert_eq!(
        resolved,
        Some((ResolvedReasoning::Effort(ReasoningEffort::High), None))
    );
    assert_eq!(warnings.len(), 1);
    assert_eq!(warnings[0].kind, WarningKind::ApproximatedSetting);
    assert_eq!(warnings[0].subject.as_deref(), Some("reasoning.budget"));
}

#[test]
fn efforts_become_budgets_when_only_budgets_exist() {
    let support = ReasoningSupport {
        efforts: Vec::new(),
        budget: true,
        disable: true,
        output: true,
    };
    let mut warnings = Vec::new();

    let resolved = resolve(
        ReasoningConfig::Effort {
            effort: ReasoningEffort::Medium,
            output: Some(ReasoningOutput::Omit),
        },
        &support,
        ApiProfile::GeminiGenerateContent,
        &mut warnings,
    );

    assert_eq!(
        resolved,
        Some((
            ResolvedReasoning::Budget(budget(16384)),
            Some(ReasoningOutput::Omit)
        ))
    );
    assert_eq!(warnings[0].kind, WarningKind::ApproximatedSetting);
}

#[test]
fn unsupported_output_control_is_dropped_with_a_warning() {
    let support = ReasoningSupport {
        efforts: vec![ReasoningEffort::Medium],
        budget: false,
        disable: true,
        output: false,
    };
    let mut warnings = Vec::new();

    let resolved = resolve(
        ReasoningConfig::Effort {
            effort: ReasoningEffort::Medium,
            output: Some(ReasoningOutput::Include),
        },
        &support,
        ApiProfile::OpenAiChatCompletions,
        &mut warnings,
    );

    assert_eq!(
        resolved,
        Some((ResolvedReasoning::Effort(ReasoningEffort::Medium), None))
    );
    assert_eq!(warnings.len(), 1);
    assert_eq!(warnings[0].kind, WarningKind::UnsupportedSetting);
}

#[test]
fn nothing_is_sent_without_any_reasoning_control() {
    let mut warnings = Vec::new();

    let resolved = resolve(
        ReasoningConfig::effort(ReasoningEffort::High),
        &ReasoningSupport::none(),
        ApiProfile::OpenAiChatCompletions,
        &mut warnings,
    );

    assert_eq!(resolved, None);
    assert_eq!(warnings[0].kind, WarningKind::UnsupportedSetting);
}
