//! What failures of providers are told as.
use vstd::prelude::*;

use crate::headers::HeadersView;
use crate::http_support::status_kind;
use crate::json::{json_parse_bytes, JsonView};
use crate::laws::{lacks, says, value_in};
use crate::protocols::anthropic;
use crate::protocols::openai::shared::openai_error;
use crate::protocols::ApiProfile;

verus! {

/// A status is worth another try exactly where it says that the server is busy
/// or too slow: 408, 429, 503, 504 and 529. One that blames the request is never
/// told as the provider's fault, nor the other way round.
pub proof fn statuses_mean_what_they_say(status: u16)
    ensures
        status_kind(status).is_retryable() <==> status == 408 || status == 429 || status == 503
            || status == 504 || status == 529,
        status_kind(status) is Authentication <==> status == 401,
        status_kind(status) is Permission <==> status == 402 || status == 403,
        status_kind(status) is NotFound <==> status == 404,
        status_kind(status) is RateLimited <==> status == 429,
        status_kind(status) is Timeout <==> status == 408 || status == 504,
        status_kind(status) is Overloaded <==> status == 503 || status == 529,
        status_kind(status) is InvalidRequest ==> 400 <= status < 500,
        status_kind(status) is Provider ==> !(400 <= status < 500),
        status == 400 || status == 422 ==> status_kind(status) is InvalidRequest,
        status == 500 || status == 502 ==> status_kind(status) is Provider,
{
}

/// A failure of an OpenAI API says what the provider said, where it came from
/// and with which status; without a code or type it is of the kind of its
/// status, too long a prompt is told as that, and an empty account is no reason
/// to try again.
pub proof fn provider_messages_are_kept(
    protocol: ApiProfile,
    status: u16,
    headers: HeadersView,
    body: Seq<u8>,
    v: JsonView,
    message: Seq<char>,
)
    requires
        json_parse_bytes(body) == Ok::<JsonView, Seq<char>>(v),
        value_in(v, "error"@) is Object,
        says(value_in(v, "error"@), "message"@, message),
        lacks(value_in(v, "error"@), "type"@),
    ensures
        ({
            let e = value_in(v, "error"@);
            let told = openai_error(protocol, status, headers, body);
            &&& told.message == message
            &&& told.origin == Some(protocol.text())
            &&& told.status == Some(status)
            &&& lacks(e, "code"@) ==> told.kind == status_kind(status)
            &&& says(e, "code"@, "context_length_exceeded"@) || says(
                e,
                "code"@,
                "string_above_max_length"@,
            ) ==> told.kind is ContextLength || told.kind is ContentPolicy
            &&& says(e, "code"@, "insufficient_quota"@) ==> !told.kind.is_retryable()
            &&& forall|code: Seq<char>| #[trigger] says(e, "code"@, code) ==> told.code == Some(
                code,
            )
        }),
{
    reveal_strlit("context_length_exceeded");
    reveal_strlit("string_above_max_length");
    reveal_strlit("insufficient_quota");
    assert("context_length_exceeded"@.len() == 23 && "string_above_max_length"@.len() == 23
        && "insufficient_quota"@.len() == 18);
}

/// A failure of the Messages API says what the provider said and with which
/// status, and its type says of what kind it is.
pub proof fn message_failures_are_kept(
    status: u16,
    headers: HeadersView,
    body: Seq<u8>,
    v: JsonView,
    message: Seq<char>,
    kind: Seq<char>,
)
    requires
        json_parse_bytes(body) == Ok::<JsonView, Seq<char>>(v),
        v is Object,
        lacks(v, "request_id"@),
        value_in(v, "error"@) is Object,
        says(value_in(v, "error"@), "message"@, message),
        says(value_in(v, "error"@), "type"@, kind),
    ensures
        ({
            let told = anthropic::types::anthropic_error(status, headers, body);
            let policy = told.kind is ContentPolicy;
            &&& told.message == message
            &&& told.code == Some(kind)
            &&& told.status == Some(status)
            &&& kind == "authentication_error"@ ==> told.kind is Authentication || policy
            &&& kind == "permission_error"@ || kind == "billing_error"@ ==> told.kind is Permission
                || policy
            &&& kind == "not_found_error"@ ==> told.kind is NotFound || policy
            &&& kind == "rate_limit_error"@ ==> told.kind is RateLimited || policy
            &&& kind == "overloaded_error"@ ==> told.kind is Overloaded || policy
            &&& kind == "timeout_error"@ ==> told.kind is Timeout || policy
            &&& kind == "api_error"@ ==> told.kind is Provider || policy
            &&& kind == "request_too_large"@ ==> told.kind is InvalidRequest || policy
            &&& kind == "invalid_request_error"@ ==> told.kind is InvalidRequest || told.kind
                is ContextLength || policy
        }),
{
    lemma_types();
}

proof fn lemma_types()
    ensures
        "authentication_error"@ != "permission_error"@,
        "authentication_error"@ != "billing_error"@,
        "authentication_error"@ != "not_found_error"@,
        "authentication_error"@ != "rate_limit_error"@,
        "authentication_error"@ != "overloaded_error"@,
        "authentication_error"@ != "timeout_error"@,
        "authentication_error"@ != "api_error"@,
        "authentication_error"@ != "request_too_large"@,
        "authentication_error"@ != "invalid_request_error"@,
        "permission_error"@ != "billing_error"@,
        "permission_error"@ != "not_found_error"@,
        "permission_error"@ != "rate_limit_error"@,
        "permission_error"@ != "overloaded_error"@,
        "permission_error"@ != "timeout_error"@,
        "permission_error"@ != "api_error"@,
        "permission_error"@ != "request_too_large"@,
        "permission_error"@ != "invalid_request_error"@,
        "billing_error"@ != "not_found_error"@,
        "billing_error"@ != "rate_limit_error"@,
        "billing_error"@ != "overloaded_error"@,
        "billing_error"@ != "timeout_error"@,
        "billing_error"@ != "api_error"@,
        "billing_error"@ != "request_too_large"@,
        "billing_error"@ != "invalid_request_error"@,
        "not_found_error"@ != "rate_limit_error"@,
        "not_found_error"@ != "overloaded_error"@,
        "not_found_error"@ != "timeout_error"@,
        "not_found_error"@ != "api_error"@,
        "not_found_error"@ != "request_too_large"@,
        "not_found_error"@ != "invalid_request_error"@,
        "rate_limit_error"@ != "overloaded_error"@,
        "rate_limit_error"@ != "timeout_error"@,
        "rate_limit_error"@ != "api_error"@,
        "rate_limit_error"@ != "request_too_large"@,
        "rate_limit_error"@ != "invalid_request_error"@,
        "overloaded_error"@ != "timeout_error"@,
        "overloaded_error"@ != "api_error"@,
        "overloaded_error"@ != "request_too_large"@,
        "overloaded_error"@ != "invalid_request_error"@,
        "timeout_error"@ != "api_error"@,
        "timeout_error"@ != "request_too_large"@,
        "timeout_error"@ != "invalid_request_error"@,
        "api_error"@ != "request_too_large"@,
        "api_error"@ != "invalid_request_error"@,
        "request_too_large"@ != "invalid_request_error"@,
{
    reveal_strlit("authentication_error");
    reveal_strlit("permission_error");
    reveal_strlit("billing_error");
    reveal_strlit("not_found_error");
    reveal_strlit("rate_limit_error");
    reveal_strlit("overloaded_error");
    reveal_strlit("timeout_error");
    reveal_strlit("api_error");
    reveal_strlit("request_too_large");
    reveal_strlit("invalid_request_error");
    assert("authentication_error"@.len() == 20 && "permission_error"@.len() == 16 && "billing_error"@.len() == 13 && "not_found_error"@.len() == 15 && "rate_limit_error"@.len() == 16 && "overloaded_error"@.len() == 16 && "timeout_error"@.len() == 13 && "api_error"@.len() == 9 && "request_too_large"@.len() == 17 && "invalid_request_error"@.len() == 21);
    assert("permission_error"@[0] != "rate_limit_error"@[0]);
    assert("permission_error"@[0] != "overloaded_error"@[0]);
    assert("rate_limit_error"@[0] != "overloaded_error"@[0]);
    assert("billing_error"@[0] != "timeout_error"@[0]);
}

} // verus!
