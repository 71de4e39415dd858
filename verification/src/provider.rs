//! Provider configuration and the [`Provider`] handle.
use vstd::prelude::*;

use crate::auth::{Credentials, CredentialsView};
use crate::capabilities::{profile_capabilities, ModelCapabilities};
use crate::error::{new_error, Error, ErrorKind, ErrorView};
use crate::headers::{
    has_slot, headers_view, insert_value, name_text, new_headers, no_headers, value_bytes,
    HeadersView,
};
use crate::model::opt;
use crate::protocols::ApiProfile;
use crate::text::cat3;

verus! {

broadcast use crate::model::group_views;

/// How requests are authenticated.
pub enum Authentication {
    Credentials(Credentials),
    /// By a refreshable authenticator of the host.
    Authenticator,
}

/// How requests are authenticated.
#[verifier::ext_equal]
pub enum AuthenticationView {
    Credentials(CredentialsView),
    Authenticator,
}

impl View for Authentication {
    type V = AuthenticationView;

    open spec fn view(&self) -> AuthenticationView {
        match self {
            Authentication::Credentials(c) => AuthenticationView::Credentials(c@),
            Authentication::Authenticator => AuthenticationView::Authenticator,
        }
    }
}

/// Configuration for one provider connection.
///
/// Request preparation applies profile-required headers first, then provider
/// headers, then the extra headers of the request, and finally authentication.
/// Later values replace earlier values case-insensitively, except
/// `anthropic-beta`, whose comma-separated feature values are merged.
#[must_use]
pub struct ProviderConfig {
    profile: ApiProfile,
    authentication: Authentication,
    base_url: Option<String>,
    default_headers: http::HeaderMap<http::HeaderValue>,
}

/// Configuration for one provider connection.
#[verifier::ext_equal]
pub struct ProviderConfigView {
    pub profile: ApiProfile,
    pub authentication: AuthenticationView,
    /// A custom base URL. Without one the official endpoint is used.
    pub base_url: Option<Seq<char>>,
    /// Headers added to every request from this provider.
    pub default_headers: HeadersView,
}

impl View for ProviderConfig {
    type V = ProviderConfigView;

    closed spec fn view(&self) -> ProviderConfigView {
        ProviderConfigView {
            profile: self.profile,
            authentication: self.authentication@,
            base_url: opt(self.base_url),
            default_headers: headers_view(self.default_headers),
        }
    }
}

/// An API profile at its official endpoint.
pub open spec fn plain_config(profile: ApiProfile, c: CredentialsView) -> ProviderConfigView {
    ProviderConfigView {
        profile,
        authentication: AuthenticationView::Credentials(c),
        base_url: None,
        default_headers: no_headers(),
    }
}

/// Whether a text names an AWS region.
pub open spec fn is_region(region: Seq<char>) -> bool {
    region.len() > 0 && forall|i: int|
        0 <= i < region.len() ==> is_region_char(#[trigger] region[i])
}

/// Whether a character may stand in the name of an AWS region.
pub open spec fn is_region_char(c: char) -> bool {
    'a' <= c <= 'z' || '0' <= c <= '9' || c == '-'
}

/// The Bedrock endpoint of a region.
pub open spec fn bedrock_endpoint(region: Seq<char>) -> Seq<char> {
    "https://bedrock-runtime."@ + region + ".amazonaws.com"@
}

/// The failure of a text that names no AWS region.
pub open spec fn no_region(region: Seq<char>) -> ErrorView {
    new_error(ErrorKind::Configuration, "`"@ + region + "` is not an AWS region name"@)
}

fn names_region(region: &str) -> (r: bool)
    ensures
        r == is_region(region@),
{
    let n: usize = region.unicode_len();
    let mut i: usize = 0;
    while i < n
        invariant
            i <= n,
            n == region@.len(),
            forall|j: int| 0 <= j < i ==> is_region_char(#[trigger] region@[j]),
        decreases n - i,
    {
        let c: char = region.get_char(i);
        if !(('a' <= c && c <= 'z') || ('0' <= c && c <= '9') || c == '-') {
            assert(!is_region_char(region@[i as int]));
            return false;
        }
        i += 1;
    }
    n > 0
}

impl ProviderConfig {
    /// Configure an API profile with static credentials.
    pub fn new(profile: ApiProfile, credentials: Credentials) -> (r: ProviderConfig)
        ensures
            r@ == plain_config(profile, credentials@),
    {
        ProviderConfig {
            profile,
            authentication: Authentication::Credentials(credentials),
            base_url: None,
            default_headers: new_headers(),
        }
    }

    /// OpenAI Responses API.
    pub fn openai_responses(credentials: Credentials) -> (r: ProviderConfig)
        ensures
            r@ == plain_config(ApiProfile::OpenAiResponses, credentials@),
    {
        ProviderConfig::new(ApiProfile::OpenAiResponses, credentials)
    }

    /// OpenAI Chat Completions and compatible servers such as LiteLLM and Ollama.
    ///
    /// Against hosts other than OpenAI's own the portable wire spellings are
    /// used (`max_tokens`, `stream_options` with only `include_usage`).
    /// OpenAI's `gpt-5.x` models reject function tools on this API unless a
    /// reasoning effort is set explicitly (`ReasoningConfig::Disabled` sends
    /// `reasoning_effort: none`). The Responses API has no such restriction.
    pub fn openai_chat(credentials: Credentials) -> (r: ProviderConfig)
        ensures
            r@ == plain_config(ApiProfile::OpenAiChatCompletions, credentials@),
    {
        ProviderConfig::new(ApiProfile::OpenAiChatCompletions, credentials)
    }

    /// OpenRouter's Chat Completions dialect.
    pub fn openrouter(credentials: Credentials) -> (r: ProviderConfig)
        ensures
            r@ == plain_config(ApiProfile::OpenRouter, credentials@),
    {
        ProviderConfig::new(ApiProfile::OpenRouter, credentials)
    }

    /// ChatGPT subscription backend using the OpenAI Responses dialect.
    pub fn chatgpt(credentials: Credentials) -> (r: ProviderConfig)
        ensures
            r@ == plain_config(ApiProfile::ChatGptResponses, credentials@),
    {
        ProviderConfig::new(ApiProfile::ChatGptResponses, credentials)
    }

    /// SpaceXAI's Responses dialect.
    pub fn xai(credentials: Credentials) -> (r: ProviderConfig)
        ensures
            r@ == plain_config(ApiProfile::XaiResponses, credentials@),
    {
        ProviderConfig::new(ApiProfile::XaiResponses, credentials)
    }

    /// SpaceXAI's Chat Completions dialect.
    pub fn xai_chat(credentials: Credentials) -> (r: ProviderConfig)
        ensures
            r@ == plain_config(ApiProfile::XaiChatCompletions, credentials@),
    {
        ProviderConfig::new(ApiProfile::XaiChatCompletions, credentials)
    }

    /// Anthropic Messages API.
    pub fn anthropic(credentials: Credentials) -> (r: ProviderConfig)
        ensures
            r@ == plain_config(ApiProfile::AnthropicMessages, credentials@),
    {
        ProviderConfig::new(ApiProfile::AnthropicMessages, credentials)
    }

    /// Gemini GenerateContent API.
    pub fn gemini(credentials: Credentials) -> (r: ProviderConfig)
        ensures
            r@ == plain_config(ApiProfile::GeminiGenerateContent, credentials@),
    {
        ProviderConfig::new(ApiProfile::GeminiGenerateContent, credentials)
    }

    /// Anthropic models on Amazon Bedrock in `region`.
    ///
    /// Model ids are Bedrock's: a model id with its vendor, an inference profile
    /// or an ARN. Pass a Bedrock API key as [`Credentials::bearer`], or
    /// [`Credentials::none`] plus a SigV4 authenticator through
    /// [`ProviderConfig::with_authenticator`].
    pub fn bedrock_anthropic(region: &str, credentials: Credentials) -> (r: Result<
        ProviderConfig,
        Error,
    >)
        ensures
            match r {
                Ok(config) => is_region(region@) && config@ == (ProviderConfigView {
                    base_url: Some(bedrock_endpoint(region@)),
                    ..plain_config(ApiProfile::BedrockAnthropic, credentials@)
                }),
                Err(e) => !is_region(region@) && e@ == no_region(region@),
            },
    {
        if !names_region(region) {
            return Err(
                Error::configuration(cat3("`", region, "` is not an AWS region name").as_str()),
            );
        }
        Ok(
            ProviderConfig::new(ApiProfile::BedrockAnthropic, credentials).with_base_url(
                cat3("https://bedrock-runtime.", region, ".amazonaws.com"),
            ),
        )
    }

    /// Use a custom API base URL.
    ///
    /// Any path prefix is preserved. The selected profile appends its request
    /// path exactly once.
    pub fn with_base_url(self, base_url: String) -> (r: ProviderConfig)
        ensures
            r@ == (ProviderConfigView { base_url: Some(base_url@), ..self@ }),
    {
        let mut r: ProviderConfig = self;
        r.base_url = Some(base_url);
        r
    }

    /// Add a header to every request for this provider, replacing an earlier
    /// value with the same name.
    ///
    /// Per-request headers and authentication are applied later and can
    /// replace this value.
    pub fn with_header(self, name: http::HeaderName, value: http::HeaderValue) -> (r:
        ProviderConfig)
        requires
            has_slot(self@.default_headers),
        ensures
            r@ == (ProviderConfigView {
                default_headers: self@.default_headers.insert(
                    name_text(name),
                    seq![value_bytes(value)],
                ),
                ..self@
            }),
    {
        let mut r: ProviderConfig = self;
        insert_value(&mut r.default_headers, name, value);
        r
    }

    /// Replace the static credentials with a refreshable request authenticator,
    /// which the host keeps.
    pub fn with_authenticator(self) -> (r: ProviderConfig)
        ensures
            r@ == (ProviderConfigView {
                authentication: AuthenticationView::Authenticator,
                ..self@
            }),
    {
        let mut r: ProviderConfig = self;
        r.authentication = Authentication::Authenticator;
        r
    }

    /// The API behavior selected for this connection.
    pub fn profile(&self) -> (r: ApiProfile)
        ensures
            r == self@.profile,
    {
        self.profile
    }

    /// The base URL in place of the official endpoint, where there is one.
    pub fn custom_base_url(&self) -> (r: Option<&str>)
        ensures
            opt(r) == self@.base_url,
    {
        match &self.base_url {
            Some(url) => Some(url.as_str()),
            None => None,
        }
    }

    /// The headers added to every request.
    pub fn default_headers(&self) -> (r: &http::HeaderMap<http::HeaderValue>)
        ensures
            headers_view(*r) == self@.default_headers,
    {
        &self.default_headers
    }

    /// How requests are authenticated.
    pub fn authentication(&self) -> (r: &Authentication)
        ensures
            r@ == self@.authentication,
    {
        &self.authentication
    }
}

/// A configured provider connection.
pub struct Provider {
    config: ProviderConfig,
}

impl View for Provider {
    type V = ProviderConfigView;

    closed spec fn view(&self) -> ProviderConfigView {
        self.config@
    }
}

/// The effective base URL of a connection: custom, or the profile default.
pub open spec fn effective_base_url(c: ProviderConfigView) -> Seq<char> {
    match c.base_url {
        Some(url) => url,
        None => c.profile.endpoint(),
    }
}

impl Provider {
    /// A connection with some configuration.
    pub fn new(config: ProviderConfig) -> (r: Provider)
        ensures
            r@ == config@,
    {
        Provider { config }
    }

    /// The configuration of the connection.
    pub fn config(&self) -> (r: &ProviderConfig)
        ensures
            r@ == self@,
    {
        &self.config
    }

    /// The API behavior used to encode and decode requests for this connection.
    pub fn profile(&self) -> (r: ApiProfile)
        ensures
            r == self@.profile,
    {
        self.config.profile()
    }

    /// The settings models on this provider accept.
    pub fn capabilities(&self) -> (r: ModelCapabilities)
        ensures
            r@ == profile_capabilities(self@.profile),
    {
        ModelCapabilities::for_profile(self.profile())
    }

    /// The effective base URL (custom or the profile default).
    pub fn base_url(&self) -> (r: &str)
        ensures
            r@ == effective_base_url(self@),
    {
        match &self.config.base_url {
            Some(url) => url.as_str(),
            None => self.config.profile.default_base_url(),
        }
    }
}

} // verus!
