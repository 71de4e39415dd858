use cogfer::auth::{apply_credentials, bearer_token, Credentials};
use cogfer::capabilities::ModelCapabilities;
use cogfer::error::ErrorKind;
use cogfer::protocols::handler::{new_verify_request, verify_path};
use cogfer::protocols::ApiProfile;
use cogfer::provider::{Authentication, Provider, ProviderConfig};
use cogfer::xai::XaiTokens;
use http::{HeaderMap, HeaderName, HeaderValue};

fn headers_for(profile: ApiProfile, credentials: Credentials) -> HeaderMap {
    let mut headers = HeaderMap::new();
    apply_credentials(&mut headers, profile, &credentials)
        .unwrap()
        .unwrap();
    headers
}

fn tokens(expires_at: Option<i64>) -> XaiTokens {
    XaiTokens {
        access_token: "access".into(),
        refresh_token: Some("refresh".into()),
        expires_at,
    }
}

#[test]
fn api_keys_go_where_the_profile_expects_them() {
    let key = || Credentials::api_key("secret".into());

    assert_eq!(
        headers_for(ApiProfile::AnthropicMessages, key())["x-api-key"],
        "secret"
    );
    assert_eq!(
        headers_for(ApiProfile::GeminiGenerateContent, key())["x-goog-api-key"],
        "secret"
    );
    assert_eq!(
        headers_for(ApiProfile::OpenAiResponses, key())["authorization"],
        "Bearer secret"
    );
}

#[test]
fn bearer_tokens_are_bearer_tokens_everywhere() {
    for profile in [
        ApiProfile::AnthropicMessages,
        ApiProfile::BedrockAnthropic,
        ApiProfile::OpenRouter,
    ] {
        let headers = headers_for(profile, Credentials::bearer("token".into()));
        assert_eq!(headers["authorization"], "Bearer token");
        assert_eq!(bearer_token(&headers).as_deref(), Some("token"));
    }
}

#[test]
fn no_credentials_leave_the_headers_alone() {
    assert!(headers_for(ApiProfile::OpenAiResponses, Credentials::none()).is_empty());
    assert_eq!(bearer_token(&HeaderMap::new()), None);
}

#[test]
fn other_schemes_are_no_bearer_tokens() {
    let headers = HeaderMap::from_iter([(
        HeaderName::from_static("authorization"),
        HeaderValue::from_static("Basic abc"),
    )]);

    assert_eq!(bearer_token(&headers), None);
}

#[test]
fn credentials_have_the_final_say() {
    let mut headers = HeaderMap::from_iter([(
        HeaderName::from_static("authorization"),
        HeaderValue::from_static("Bearer caller"),
    )]);
    apply_credentials(
        &mut headers,
        ApiProfile::OpenAiResponses,
        &Credentials::api_key("configured".into()),
    )
    .unwrap()
    .unwrap();

    assert_eq!(headers["authorization"], "Bearer configured");
}

#[test]
fn unsendable_credentials_are_a_configuration_error() {
    let mut headers = HeaderMap::new();
    let error = apply_credentials(
        &mut headers,
        ApiProfile::OpenAiResponses,
        &Credentials::api_key("line\nbreak".into()),
    )
    .unwrap()
    .unwrap_err();

    assert_eq!(error.kind(), ErrorKind::Configuration);
    assert!(headers.is_empty());
}

#[test]
fn regions_form_the_bedrock_endpoint() {
    let Ok(config) = ProviderConfig::bedrock_anthropic("eu-west-3", Credentials::none()) else {
        panic!("a region was refused");
    };
    let provider = Provider::new(config);

    assert_eq!(provider.profile(), ApiProfile::BedrockAnthropic);
    assert_eq!(
        provider.base_url(),
        "https://bedrock-runtime.eu-west-3.amazonaws.com"
    );
}

#[test]
fn other_texts_are_no_regions() {
    for region in ["", "EU-WEST-3", "eu west", "evil.example/", "é"] {
        let Err(error) = ProviderConfig::bedrock_anthropic(region, Credentials::none()) else {
            panic!("{region} was accepted");
        };
        assert_eq!(error.kind(), ErrorKind::Configuration);
        assert_eq!(
            error.message(),
            format!("`{region}` is not an AWS region name")
        );
    }
}

#[test]
fn configurations_keep_what_they_are_given() {
    let config = ProviderConfig::gemini(Credentials::none())
        .with_base_url("https://proxy.example/v1".into())
        .with_header(
            HeaderName::from_static("x-team"),
            HeaderValue::from_static("a"),
        )
        .with_header(
            HeaderName::from_static("x-team"),
            HeaderValue::from_static("b"),
        )
        .with_authenticator();

    assert_eq!(config.profile(), ApiProfile::GeminiGenerateContent);
    assert_eq!(config.default_headers()["x-team"], "b");
    assert!(matches!(
        config.authentication(),
        Authentication::Authenticator
    ));
    let provider = Provider::new(config);
    assert_eq!(provider.base_url(), "https://proxy.example/v1");
    assert_eq!(
        provider.capabilities(),
        ModelCapabilities::for_profile(ApiProfile::GeminiGenerateContent)
    );
}

#[test]
fn every_shorthand_selects_its_profile() {
    for (config, profile) in [
        (
            ProviderConfig::openai_responses(Credentials::none()),
            ApiProfile::OpenAiResponses,
        ),
        (
            ProviderConfig::openai_chat(Credentials::none()),
            ApiProfile::OpenAiChatCompletions,
        ),
        (
            ProviderConfig::openrouter(Credentials::none()),
            ApiProfile::OpenRouter,
        ),
        (
            ProviderConfig::chatgpt(Credentials::none()),
            ApiProfile::ChatGptResponses,
        ),
        (
            ProviderConfig::xai(Credentials::none()),
            ApiProfile::XaiResponses,
        ),
        (
            ProviderConfig::xai_chat(Credentials::none()),
            ApiProfile::XaiChatCompletions,
        ),
        (
            ProviderConfig::anthropic(Credentials::none()),
            ApiProfile::AnthropicMessages,
        ),
    ] {
        assert_eq!(config.profile(), profile);
        assert_eq!(
            Provider::new(config).base_url(),
            profile.default_base_url()
        );
    }
}

#[test]
fn credential_checks_are_plain_get_requests() {
    assert_eq!(verify_path(ApiProfile::AnthropicMessages), Some("models"));
    assert_eq!(verify_path(ApiProfile::GeminiGenerateContent), None);
    let request = new_verify_request(
        ApiProfile::AnthropicMessages,
        "https://api.anthropic.com/v1/",
    )
    .unwrap();

    assert_eq!(request.url, "https://api.anthropic.com/v1/models");
    assert_eq!(request.headers["accept"], "application/json");
    assert_eq!(request.headers["anthropic-version"], "2023-06-01");
    assert!(request.body.is_none());
    assert!(new_verify_request(ApiProfile::AnthropicMessages, "no url").is_none());
    assert!(new_verify_request(
        ApiProfile::GeminiGenerateContent,
        "https://generativelanguage.googleapis.com"
    )
    .is_none());
}

#[test]
fn tokens_are_refreshed_five_minutes_early() {
    assert!(!tokens(Some(1000)).needs_refresh(699));
    assert!(tokens(Some(1000)).needs_refresh(700));
    assert!(!tokens(None).needs_refresh(i64::MAX));
    assert!(tokens(Some(i64::MIN)).needs_refresh(i64::MIN));
}

#[test]
fn refreshed_tokens_replace_the_old_ones() {
    let mut new = tokens(Some(5));
    new.access_token = "new".into();
    new.refresh_token = None;
    let merged = XaiTokens::merge_refreshed(&tokens(None), new);

    assert_eq!(merged.access_token(), "new");
    assert_eq!(merged.refresh_token(), None);
    assert_eq!(merged.expires_at(), Some(5));
    assert_eq!(merged.authorization(), "Bearer new");
    assert!(merged.is_current(Some("new")));
    assert!(!merged.is_current(Some("access")));
    assert!(!merged.is_current(None));
}
