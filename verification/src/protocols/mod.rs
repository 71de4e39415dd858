//! API profiles and their internal wire-protocol implementations.
use vstd::prelude::*;

use crate::error::{new_error, Error, ErrorKind, ErrorView};
use crate::json::{field, json_parse, str_of, Json, JsonObject, JsonView};
use crate::message::{normal_arguments, AssistantPart, AssistantPartView, ToolCall, ToolCallView};
use crate::metadata::{no_metadata, MetadataView, ProviderMetadata};
use crate::model::{opt, views};
use crate::response::{Finish, FinishReason, FinishView};
use crate::text::{cat, same};

pub mod anthropic;
pub mod bedrock;
pub mod error;
pub mod gemini;
pub mod handler;
pub mod lower;
pub mod normalize;
pub mod openai;
pub mod prepare;
pub mod reasoning;
pub mod restrict;
pub mod runner;
pub mod validate;

verus! {

broadcast use crate::model::group_views;

/// Request, response, and streaming behavior for a provider API.
#[derive(Debug, Clone, Copy, PartialEq, Eq, Hash, Structural)]
#[non_exhaustive]
pub enum ApiProfile {
    /// OpenAI Responses API (`POST {base}/responses`).
    OpenAiResponses,
    /// OpenAI Chat Completions API and compatible servers.
    OpenAiChatCompletions,
    /// OpenRouter's Chat Completions dialect with reasoning details, usage
    /// accounting and routing extensions.
    OpenRouter,
    /// The ChatGPT subscription backend using the Responses dialect.
    ChatGptResponses,
    /// xAI's Responses dialect (`POST {base}/responses`).
    XaiResponses,
    /// xAI's Chat Completions dialect.
    XaiChatCompletions,
    /// Anthropic Messages API (`POST {base}/messages`).
    AnthropicMessages,
    /// Anthropic models on Amazon Bedrock.
    BedrockAnthropic,
    /// OpenAI models on Amazon Bedrock, using the Responses dialect.
    BedrockOpenAiResponses,
    /// Gemini GenerateContent API.
    GeminiGenerateContent,
}

impl ApiProfile {
    /// Stable identifier (used in errors and warnings).
    pub open spec fn text(self) -> Seq<char> {
        match self {
            ApiProfile::OpenAiResponses => "openai-responses"@,
            ApiProfile::OpenAiChatCompletions => "openai-chat"@,
            ApiProfile::OpenRouter => "openrouter"@,
            ApiProfile::ChatGptResponses => "chatgpt"@,
            ApiProfile::XaiResponses => "xai-responses"@,
            ApiProfile::XaiChatCompletions => "xai-chat"@,
            ApiProfile::AnthropicMessages => "anthropic"@,
            ApiProfile::BedrockAnthropic => "bedrock-anthropic"@,
            ApiProfile::BedrockOpenAiResponses => "bedrock-openai"@,
            ApiProfile::GeminiGenerateContent => "gemini"@,
        }
    }

    /// The namespace of extras for this profile.
    pub open spec fn namespace_text(self) -> Seq<char> {
        match self {
            ApiProfile::OpenRouter => "openrouter"@,
            ApiProfile::AnthropicMessages => "anthropic"@,
            ApiProfile::BedrockAnthropic => "anthropic"@,
            ApiProfile::GeminiGenerateContent => "gemini"@,
            _ => "openai"@,
        }
    }

    /// Stable identifier (used in errors and warnings).
    pub fn as_str(self) -> (r: &'static str)
        ensures
            r@ == self.text(),
    {
        match self {
            ApiProfile::OpenAiResponses => "openai-responses",
            ApiProfile::OpenAiChatCompletions => "openai-chat",
            ApiProfile::OpenRouter => "openrouter",
            ApiProfile::ChatGptResponses => "chatgpt",
            ApiProfile::XaiResponses => "xai-responses",
            ApiProfile::XaiChatCompletions => "xai-chat",
            ApiProfile::AnthropicMessages => "anthropic",
            ApiProfile::BedrockAnthropic => "bedrock-anthropic",
            ApiProfile::BedrockOpenAiResponses => "bedrock-openai",
            ApiProfile::GeminiGenerateContent => "gemini",
        }
    }

    /// The `provider_options` / `provider_metadata` namespace for this profile.
    pub fn namespace(self) -> (r: &'static str)
        ensures
            r@ == self.namespace_text(),
    {
        match self {
            ApiProfile::OpenAiResponses | ApiProfile::OpenAiChatCompletions
            | ApiProfile::ChatGptResponses | ApiProfile::XaiResponses
            | ApiProfile::XaiChatCompletions | ApiProfile::BedrockOpenAiResponses => "openai",
            ApiProfile::OpenRouter => "openrouter",
            ApiProfile::AnthropicMessages | ApiProfile::BedrockAnthropic => "anthropic",
            ApiProfile::GeminiGenerateContent => "gemini",
        }
    }

    /// The official endpoint.
    pub open spec fn endpoint(self) -> Seq<char> {
        match self {
            ApiProfile::OpenAiResponses => "https://api.openai.com/v1"@,
            ApiProfile::OpenAiChatCompletions => "https://api.openai.com/v1"@,
            ApiProfile::OpenRouter => "https://openrouter.ai/api/v1"@,
            ApiProfile::ChatGptResponses => "https://chatgpt.com/backend-api/codex"@,
            ApiProfile::XaiResponses => "https://api.x.ai/v1"@,
            ApiProfile::XaiChatCompletions => "https://api.x.ai/v1"@,
            ApiProfile::AnthropicMessages => "https://api.anthropic.com/v1"@,
            ApiProfile::BedrockAnthropic => "https://bedrock-runtime.us-east-1.amazonaws.com"@,
            ApiProfile::BedrockOpenAiResponses =>
                "https://bedrock-runtime.us-east-1.amazonaws.com/openai/v1"@,
            ApiProfile::GeminiGenerateContent =>
                "https://generativelanguage.googleapis.com/v1beta"@,
        }
    }

    /// The official endpoint used when no custom base URL is configured.
    pub fn default_base_url(self) -> (r: &'static str)
        ensures
            r@ == self.endpoint(),
    {
        match self {
            ApiProfile::OpenAiResponses | ApiProfile::OpenAiChatCompletions =>
                "https://api.openai.com/v1",
            ApiProfile::OpenRouter => "https://openrouter.ai/api/v1",
            ApiProfile::ChatGptResponses => "https://chatgpt.com/backend-api/codex",
            ApiProfile::XaiResponses | ApiProfile::XaiChatCompletions => "https://api.x.ai/v1",
            ApiProfile::AnthropicMessages => "https://api.anthropic.com/v1",
            ApiProfile::BedrockAnthropic => "https://bedrock-runtime.us-east-1.amazonaws.com",
            ApiProfile::BedrockOpenAiResponses =>
                "https://bedrock-runtime.us-east-1.amazonaws.com/openai/v1",
            ApiProfile::GeminiGenerateContent =>
                "https://generativelanguage.googleapis.com/v1beta",
        }
    }
}

/// The provenance stamp of a profile.
pub open spec fn origin_stamp(profile: ApiProfile) -> MetadataView {
    no_metadata().insert(
        "caido-ai"@,
        JsonView::Object(Map::empty().insert("profile"@, JsonView::String(profile.text()))),
    )
}

/// Response-level provenance stamp: the profile that produced the turn.
///
/// Decoders record it in the library-reserved `caido-ai` namespace, and
/// request lowering uses [`foreign_origin`] to replay opaque state (encrypted
/// reasoning, item ids, server tool payloads) only to the profile that
/// produced it: backends cannot verify each other's items and reject the
/// request with errors like `invalid_encrypted_content`.
pub fn origin_metadata(profile: ApiProfile) -> (r: ProviderMetadata)
    ensures
        r@ == origin_stamp(profile),
{
    ProviderMetadata::with(
        "caido-ai",
        Json::Object(JsonObject::new().put("profile", Json::text(profile.as_str()))),
    )
}

/// The profile that a turn is stamped with.
pub open spec fn stamp_of(metadata: MetadataView) -> Option<Seq<char>> {
    if metadata.contains_key("caido-ai"@) {
        match field(metadata["caido-ai"@], "profile"@) {
            Some(stamp) => str_of(stamp),
            None => None,
        }
    } else {
        None
    }
}

/// The producing profile stamped on a turn, when it is another one.
pub open spec fn foreign(metadata: MetadataView, profile: ApiProfile) -> Option<Seq<char>> {
    match stamp_of(metadata) {
        Some(stamp) => if stamp != profile.text() {
            Some(stamp)
        } else {
            None
        },
        None => None,
    }
}

/// The producing profile stamped on a replayed turn, when it differs from the
/// serving profile. Unstamped turns count as native.
pub fn foreign_origin(metadata: &ProviderMetadata, profile: ApiProfile) -> (r: Option<&str>)
    ensures
        opt(r) == foreign(metadata@, profile),
{
    match metadata.get("caido-ai") {
        Some(value) => match value.get("profile") {
            Some(stamp) => match stamp.as_str() {
                Some(stamp) => if !same(stamp, profile.as_str()) {
                    Some(stamp)
                } else {
                    None
                },
                None => None,
            },
            None => None,
        },
        None => None,
    }
}

/// A turn is native to the profile that stamped it, and to no other.
pub proof fn a_turn_is_native_to_its_own_profile(produced: ApiProfile, serving: ApiProfile)
    ensures
        foreign(origin_stamp(produced), produced) is None,
        produced.text() != serving.text() ==> foreign(origin_stamp(produced), serving) == Some(
            produced.text(),
        ),
        foreign(no_metadata(), serving) is None,
{
}

/// The content without its tool calls.
pub open spec fn without_calls(content: Seq<AssistantPartView>) -> Seq<AssistantPartView>
    decreases content.len(),
{
    if content.len() == 0 {
        Seq::empty()
    } else if content.last() is ToolCall {
        without_calls(content.drop_last())
    } else {
        without_calls(content.drop_last()).push(content.last())
    }
}

/// A part with blank arguments of a call made an empty object.
pub open spec fn normalized_part(part: AssistantPartView) -> AssistantPartView {
    match part {
        AssistantPartView::ToolCall(call) => AssistantPartView::ToolCall(
            ToolCallView { arguments: normal_arguments(call.arguments), ..call },
        ),
        other => other,
    }
}

/// The failure that the arguments of a part are, where they are not JSON.
pub open spec fn arguments_failure(part: AssistantPartView, profile: ApiProfile) -> Option<
    ErrorView,
> {
    match part {
        AssistantPartView::ToolCall(call) => match json_parse(normal_arguments(call.arguments)) {
            Ok(_) => None,
            Err(e) => Some(
                new_error(
                    ErrorKind::MalformedResponse,
                    profile.text() + ": tool call `"@ + call.call_id
                        + "` has invalid JSON arguments: "@ + e,
                ).with_source(e),
            ),
        },
        _ => None,
    }
}

/// The first failure of the arguments of the first `n` parts.
pub open spec fn first_failure(
    content: Seq<AssistantPartView>,
    profile: ApiProfile,
    n: int,
) -> Option<ErrorView>
    decreases n,
{
    if n <= 0 {
        None
    } else {
        match first_failure(content, profile, n - 1) {
            Some(e) => Some(e),
            None => arguments_failure(content[n - 1], profile),
        }
    }
}

/// Whether a tool call is among the parts.
pub open spec fn calls_tools(content: Seq<AssistantPartView>) -> bool {
    exists|i: int| 0 <= i < content.len() && #[trigger] content[i] is ToolCall
}

/// What the tool-call finish policy makes of a result.
pub open spec fn finalized(
    content: Seq<AssistantPartView>,
    finish: FinishView,
    profile: ApiProfile,
) -> Result<(Seq<AssistantPartView>, FinishView), ErrorView> {
    if finish.reason.discards() {
        Ok((without_calls(content), finish))
    } else {
        match first_failure(content, profile, content.len() as int) {
            Some(e) => Err(e),
            None => Ok(
                (
                    Seq::new(content.len(), |i: int| normalized_part(content[i])),
                    FinishView {
                        reason: if calls_tools(content) && finish.reason is Stop {
                            FinishReason::ToolCalls
                        } else {
                            finish.reason
                        },
                        ..finish
                    },
                ),
            ),
        }
    }
}

fn retain_other_parts(content: Vec<AssistantPart>) -> (r: Vec<AssistantPart>)
    ensures
        views(r@) == without_calls(views(content@)),
{
    let ghost all = views(content@);
    let ghost parts = content@;
    let mut kept: Vec<AssistantPart> = Vec::new();
    assert(all.take(0) =~= Seq::empty());
    for part in it: content.into_iter()
        invariant
            it.seq() == parts,
            all == views(parts),
            views(kept@) == without_calls(all.take(it.index() as int)),
    {
        let ghost n = it.index() as int;
        assert(part@ == all[n]);
        assert(all.take(n + 1).drop_last() =~= all.take(n));
        match part {
            AssistantPart::ToolCall(_) => {},
            other => kept.push(other),
        }
    }
    assert(all.take(all.len() as int) =~= all);
    kept
}

/// Apply the shared tool-call finish policy to a blocking result.
///
/// A finish that discards tool calls drops them. Otherwise blank arguments
/// become an empty object, other arguments must be JSON, and a natural stop
/// with tool calls is a request for them.
pub fn finalize_tool_calls(
    content: Vec<AssistantPart>,
    finish: Finish,
    profile: ApiProfile,
) -> (r: Result<(Vec<AssistantPart>, Finish), Error>)
    ensures
        match r {
            Ok((parts, end)) => finalized(views(content@), finish@, profile) == Ok::<
                (Seq<AssistantPartView>, FinishView),
                ErrorView,
            >((views(parts@), end@)),
            Err(e) => finalized(views(content@), finish@, profile) == Err::<
                (Seq<AssistantPartView>, FinishView),
                ErrorView,
            >(e@),
        },
{
    if finish.reason.discards_tool_calls() {
        return Ok((retain_other_parts(content), finish));
    }
    let mut end: Finish = finish;
    let mut parts: Vec<AssistantPart> = content;
    let ghost all = views(parts@);
    let mut has_tool_calls: bool = false;
    let mut i: usize = 0;
    while i < parts.len()
        invariant
            i <= parts@.len(),
            parts@.len() == all.len(),
            end == finish,
            !finish@.reason.discards(),
            all == views(content@),
            first_failure(all, profile, i as int) is None,
            forall|k: int| 0 <= k < i ==> (#[trigger] parts@[k])@ == normalized_part(all[k]),
            forall|k: int| i <= k < all.len() ==> (#[trigger] parts@[k])@ == all[k],
            has_tool_calls == exists|k: int| 0 <= k < i && #[trigger] all[k] is ToolCall,
        decreases parts@.len() - i,
    {
        assert(parts@[i as int]@ == all[i as int]);
        match &mut parts[i] {
            AssistantPart::ToolCall(call) => {
                call.normalize_blank_arguments();
                if let Err(source) = call.arguments_value() {
                    let message: String = cat(
                        cat(
                            cat(
                                cat(profile.as_str(), ": tool call `").as_str(),
                                call.call_id.as_str(),
                            ).as_str(),
                            "` has invalid JSON arguments: ",
                        ).as_str(),
                        source.as_str(),
                    );
                    proof {
                        lemma_first_failure(all, profile, i as int);
                    }
                    return Err(Error::malformed(message.as_str()).with_source(source.as_str()));
                }
                has_tool_calls = true;
                assert(all[i as int] is ToolCall);
            },
            _ => {},
        }
        i += 1;
    }
    if has_tool_calls && end.reason == FinishReason::Stop {
        end.reason = FinishReason::ToolCalls;
    }
    assert(views(parts@) =~= Seq::new(all.len(), |i: int| normalized_part(all[i])));
    Ok((parts, end))
}

/// A failure among the first parts is the failure of the whole.
proof fn lemma_first_failure(content: Seq<AssistantPartView>, profile: ApiProfile, i: int)
    requires
        0 <= i < content.len(),
        first_failure(content, profile, i + 1) is Some,
    ensures
        first_failure(content, profile, content.len() as int) == first_failure(
            content,
            profile,
            i + 1,
        ),
    decreases content.len() - i,
{
    if i + 1 < content.len() {
        lemma_first_failure(content, profile, i + 1);
    }
}

proof fn lemma_without_calls(content: Seq<AssistantPartView>)
    ensures
        !calls_tools(without_calls(content)),
    decreases content.len(),
{
    if content.len() > 0 {
        lemma_without_calls(content.drop_last());
        let rest = without_calls(content.drop_last());
        let all = without_calls(content);
        assert forall|i: int| 0 <= i < all.len() implies !(#[trigger] all[i] is ToolCall) by {
            if i < rest.len() {
                assert(all[i] == rest[i]);
                assert(!(rest[i] is ToolCall));
            }
        }
    }
}

proof fn lemma_no_failure(content: Seq<AssistantPartView>, profile: ApiProfile, n: int, i: int)
    requires
        0 <= i < n,
        first_failure(content, profile, n) is None,
    ensures
        arguments_failure(content[i], profile) is None,
    decreases n,
{
    if i < n - 1 {
        lemma_no_failure(content, profile, n - 1, i);
    }
}

/// A blocking result holds tool calls only where its finish lets them be acted
/// on, a natural stop is then a request for them, and their arguments are JSON.
pub proof fn finished_calls_can_be_acted_on(
    content: Seq<AssistantPartView>,
    finish: FinishView,
    profile: ApiProfile,
)
    ensures
        match finalized(content, finish, profile) {
            Ok((parts, end)) => {
                &&& calls_tools(parts) ==> !end.reason.discards() && !(end.reason is Stop)
                &&& forall|i: int|
                    0 <= i < parts.len() && (#[trigger] parts[i]) is ToolCall ==> json_parse(
                        parts[i]->ToolCall_0.arguments,
                    ) is Ok
            },
            Err(e) => e.kind is MalformedResponse && calls_tools(content),
        },
{
    lemma_without_calls(content);
    if finish.reason.discards() {
        let parts = without_calls(content);
        assert forall|i: int| 0 <= i < parts.len() && (#[trigger] parts[i]) is ToolCall implies
            json_parse(parts[i]->ToolCall_0.arguments) is Ok by {
            assert(calls_tools(parts));
        }
    } else if first_failure(content, profile, content.len() as int) is None {
        let parts = Seq::new(content.len(), |i: int| normalized_part(content[i]));
        assert forall|i: int| 0 <= i < parts.len() && (#[trigger] parts[i]) is ToolCall implies
            json_parse(parts[i]->ToolCall_0.arguments) is Ok && calls_tools(content) by {
            assert(content[i] is ToolCall);
            lemma_no_failure(content, profile, content.len() as int, i);
        }
    } else {
        lemma_failing_part(content, profile, content.len() as int);
    }
}

proof fn lemma_failing_part(content: Seq<AssistantPartView>, profile: ApiProfile, n: int)
    requires
        n <= content.len(),
        first_failure(content, profile, n) is Some,
    ensures
        calls_tools(content),
        first_failure(content, profile, n)->0.kind is MalformedResponse,
    decreases n,
{
    if n > 0 {
        if first_failure(content, profile, n - 1) is Some {
            lemma_failing_part(content, profile, n - 1);
        } else {
            assert(content[n - 1] is ToolCall);
        }
    }
}

} // verus!
