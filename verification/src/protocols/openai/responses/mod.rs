//! OpenAI Responses API and the backends that speak its wire format.
use vstd::prelude::*;

use crate::protocols::ApiProfile;

pub mod chatgpt;
pub mod replay;
pub mod request;
pub mod stream;
pub mod types;

verus! {

/// Which backend speaks the Responses wire format.
#[derive(Debug, Clone, Copy, PartialEq, Eq, Structural)]
pub enum ResponsesDialect {
    /// The official OpenAI API.
    OpenAi,
    /// xAI's Responses-compatible API.
    Xai,
    /// The ChatGPT subscription backend.
    ChatGpt,
    /// Amazon Bedrock's OpenAI-compatible endpoint.
    Bedrock,
}

impl ResponsesDialect {
    /// The profile of a backend.
    pub open spec fn api(self) -> ApiProfile {
        match self {
            ResponsesDialect::OpenAi => ApiProfile::OpenAiResponses,
            ResponsesDialect::Xai => ApiProfile::XaiResponses,
            ResponsesDialect::ChatGpt => ApiProfile::ChatGptResponses,
            ResponsesDialect::Bedrock => ApiProfile::BedrockOpenAiResponses,
        }
    }

    /// The profile of a backend.
    pub fn profile(self) -> (r: ApiProfile)
        ensures
            r == self.api(),
    {
        match self {
            ResponsesDialect::OpenAi => ApiProfile::OpenAiResponses,
            ResponsesDialect::Xai => ApiProfile::XaiResponses,
            ResponsesDialect::ChatGpt => ApiProfile::ChatGptResponses,
            ResponsesDialect::Bedrock => ApiProfile::BedrockOpenAiResponses,
        }
    }

    /// Whether this is the ChatGPT subscription backend.
    pub fn is_chatgpt(self) -> (r: bool)
        ensures
            r == (self is ChatGpt),
    {
        matches!(self, ResponsesDialect::ChatGpt)
    }
}

} // verus!
