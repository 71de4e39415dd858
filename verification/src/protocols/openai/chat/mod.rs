//! OpenAI Chat Completions and the dialects built on it.
use vstd::prelude::*;

use crate::address::{host_of, url_host};
use crate::model::opt;
use crate::protocols::ApiProfile;
use crate::text::{ends_with, is_suffix, lower, same, to_lower};

pub mod replay;
pub mod request;
pub mod stream;
pub mod types;

verus! {

/// Whether completion tokens include reasoning.
#[derive(Debug, Clone, Copy, PartialEq, Eq, Structural)]
pub enum OutputTokenAccounting {
    /// OpenAI and OpenRouter include reasoning in completion tokens.
    IncludesReasoning,
    /// xAI reports completion tokens without reasoning, so normalization adds it.
    ExcludesReasoning,
}

/// Which flavor of the Chat Completions wire format to speak.
#[derive(Debug, Clone, Copy, PartialEq, Eq, Structural)]
pub enum ChatDialect {
    /// OpenAI itself (and Azure OpenAI): the full wire format.
    OpenAi,
    /// Other Chat Completions servers: the widely supported subset, without
    /// OpenAI-only spellings that strict servers reject as unknown fields.
    Compatible,
    Xai,
    OpenRouter,
}

/// Whether a host is one of OpenAI's own endpoints.
pub open spec fn is_openai_host(host: Option<Seq<char>>) -> bool {
    match host {
        Some(host) => {
            ||| lower(host) == "api.openai.com"@
            ||| is_suffix(".openai.azure.com"@, lower(host))
            ||| is_suffix(".services.ai.azure.com"@, lower(host))
            ||| is_suffix(".cognitiveservices.azure.com"@, lower(host))
        },
        None => false,
    }
}

/// Whether a host is one of OpenAI's own endpoints.
pub fn serves_openai(host: Option<&str>) -> (r: bool)
    ensures
        r == is_openai_host(opt(host)),
{
    match host {
        Some(host) => {
            let lowered: String = to_lower(host);
            let h: &str = lowered.as_str();
            same(h, "api.openai.com") || ends_with(h, ".openai.azure.com") || ends_with(
                h,
                ".services.ai.azure.com",
            ) || ends_with(h, ".cognitiveservices.azure.com")
        },
        None => false,
    }
}

impl ChatDialect {
    /// The profile of a dialect.
    pub open spec fn api(self) -> ApiProfile {
        match self {
            ChatDialect::OpenAi => ApiProfile::OpenAiChatCompletions,
            ChatDialect::Compatible => ApiProfile::OpenAiChatCompletions,
            ChatDialect::Xai => ApiProfile::XaiChatCompletions,
            ChatDialect::OpenRouter => ApiProfile::OpenRouter,
        }
    }

    /// The dialect to speak to a host.
    pub open spec fn at_host(self, host: Option<Seq<char>>) -> ChatDialect {
        if self is OpenAi && !is_openai_host(host) {
            ChatDialect::Compatible
        } else {
            self
        }
    }

    /// The profile of a dialect.
    pub fn profile(self) -> (r: ApiProfile)
        ensures
            r == self.api(),
    {
        match self {
            ChatDialect::OpenAi | ChatDialect::Compatible => ApiProfile::OpenAiChatCompletions,
            ChatDialect::Xai => ApiProfile::XaiChatCompletions,
            ChatDialect::OpenRouter => ApiProfile::OpenRouter,
        }
    }

    /// Whether completion tokens include reasoning.
    pub fn output_token_accounting(self) -> (r: OutputTokenAccounting)
        ensures
            r == if self is Xai {
                OutputTokenAccounting::ExcludesReasoning
            } else {
                OutputTokenAccounting::IncludesReasoning
            },
    {
        match self {
            ChatDialect::Xai => OutputTokenAccounting::ExcludesReasoning,
            ChatDialect::OpenAi | ChatDialect::Compatible | ChatDialect::OpenRouter =>
                OutputTokenAccounting::IncludesReasoning,
        }
    }

    /// The dialect to speak to a host.
    pub fn for_host(self, host: Option<&str>) -> (r: ChatDialect)
        ensures
            r == self.at_host(opt(host)),
    {
        if self == ChatDialect::OpenAi && !serves_openai(host) {
            ChatDialect::Compatible
        } else {
            self
        }
    }

    /// The dialect to speak to `base_url`: the OpenAI profile only uses the
    /// full wire format against OpenAI's own endpoints.
    pub fn for_endpoint(self, base_url: &str) -> (r: ChatDialect)
        ensures
            r == self.at_host(url_host(base_url@)),
    {
        let host: Option<String> = host_of(base_url);
        self.for_host(crate::error::as_deref(&host))
    }
}

} // verus!
