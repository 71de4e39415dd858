//! The Amazon Bedrock error envelope, shared by every profile Bedrock serves.
//!
//! Bedrock reports endpoint-level failures the AWS way regardless of the wire
//! format inside: the exception class arrives in the `x-amzn-errortype` header
//! and the body is a bare `{"message": ...}` envelope.
use vstd::prelude::*;

use super::error::{fallback_message, fallback_provider_error_message};
use super::ApiProfile;
use crate::error::{new_error, Error, ErrorKind, ErrorView};
use crate::headers::{header_text, headers_view, text_of_header, HeadersView};
use crate::http_support::{enrich_error_from_headers, enriched, error_kind_for_status, status_kind};
use crate::json::{field, json_parse_bytes, Json, JsonView};
use crate::model::opt;
use crate::text::{before_first, contains, cut_at, lower, occurs, to_lower};
use crate::wire;
use crate::wire::text_at;

verus! {

/// The header carrying the exception class on error responses, as
/// `ValidationException` or `ValidationException:http://...`.
pub const ERROR_TYPE: &'static str = "x-amzn-errortype";

/// Whether a class, in lower case, blames the credentials or the signature.
pub open spec fn blames_signature(exception: Seq<char>) -> bool {
    ||| occurs("signature"@, exception)
    ||| occurs("token"@, exception)
    ||| occurs("unrecognizedclient"@, exception)
    ||| occurs("skew"@, exception)
    ||| occurs("requestexpired"@, exception)
}

/// Whether AWS blamed the credentials or the signature rather than the
/// caller's permissions, meaning a fresh signature could succeed.
///
/// [`bedrock_error_kind`] classifies these as [`ErrorKind::Authentication`],
/// and a request signer retries exactly them, so the two cannot disagree.
pub fn is_signature_failure(exception: &str) -> (r: bool)
    ensures
        r == blames_signature(lower(exception@)),
{
    let exception: String = to_lower(exception);
    let e: &str = exception.as_str();
    contains(e, "signature") || contains(e, "token") || contains(e, "unrecognizedclient")
        || contains(e, "skew") || contains(e, "requestexpired")
}

/// The kind of an exception by its class, in lower case, and its status.
pub open spec fn exception_kind(e: Seq<char>, status: u16) -> ErrorKind {
    if blames_signature(e) {
        ErrorKind::Authentication
    } else if occurs("accessdenied"@, e) {
        ErrorKind::Permission
    } else if occurs("throttling"@, e) || occurs("quota"@, e) {
        ErrorKind::RateLimited
    } else if occurs("modelnotready"@, e) || occurs("serviceunavailable"@, e) {
        ErrorKind::Overloaded
    } else if occurs("timeout"@, e) {
        ErrorKind::Timeout
    } else if occurs("validation"@, e) {
        ErrorKind::InvalidRequest
    } else if occurs("resourcenotfound"@, e) {
        ErrorKind::NotFound
    } else if status == 408 {
        ErrorKind::Timeout
    } else if status == 424 {
        ErrorKind::Provider
    } else {
        status_kind(status)
    }
}

/// A text in lower case is its own lower case.
proof fn lemma_lower_twice(s: Seq<char>)
    ensures
        lower(lower(s)) == lower(s),
{
    assert(lower(lower(s)) =~= lower(s));
}

/// The class of an exception in lower case, empty where it has none.
pub open spec fn class_of(exception: Option<Seq<char>>) -> Seq<char> {
    match exception {
        Some(exception) => lower(exception),
        None => Seq::empty(),
    }
}

/// Classify an AWS exception by its class name and HTTP status.
pub fn bedrock_error_kind(exception: Option<&str>, status: u16) -> (r: ErrorKind)
    ensures
        r == exception_kind(class_of(opt(exception)), status),
{
    let class: String = match exception {
        Some(exception) => to_lower(exception),
        None => String::new(),
    };
    let e: &str = class.as_str();
    proof {
        match exception {
            Some(exception) => lemma_lower_twice(exception@),
            None => assert(lower(e@) =~= e@),
        }
    }
    if is_signature_failure(e) {
        ErrorKind::Authentication
    } else if contains(e, "accessdenied") {
        ErrorKind::Permission
    } else if contains(e, "throttling") || contains(e, "quota") {
        ErrorKind::RateLimited
    } else if contains(e, "modelnotready") || contains(e, "serviceunavailable") {
        ErrorKind::Overloaded
    } else if contains(e, "timeout") {
        ErrorKind::Timeout
    } else if contains(e, "validation") {
        ErrorKind::InvalidRequest
    } else if contains(e, "resourcenotfound") {
        ErrorKind::NotFound
    } else if status == 408 {
        ErrorKind::Timeout
    } else if status == 424 {
        ErrorKind::Provider
    } else {
        error_kind_for_status(status)
    }
}

/// An exception that blames the signature is an authentication failure, and no
/// other one is, unless the status says that credentials were rejected.
pub proof fn signature_failures_are_the_authentication_failures(
    exception: Seq<char>,
    status: u16,
)
    ensures
        blames_signature(lower(exception)) ==> exception_kind(class_of(Some(exception)), status)
            is Authentication,
        status != 401 && exception_kind(class_of(Some(exception)), status) is Authentication
            ==> blames_signature(lower(exception)),
{
}

/// The message of an exception, under one of its two names.
pub open spec fn message_of(v: JsonView) -> Option<Seq<char>> {
    if field(v, "message"@) is None {
        text_at(v, "Message"@)
    } else if field(v, "Message"@) is None {
        text_at(v, "message"@)
    } else {
        None
    }
}

/// The message of an exception envelope.
pub open spec fn envelope_message(body: Seq<u8>) -> Option<Seq<char>> {
    match json_parse_bytes(body) {
        Ok(v) => message_of(v),
        Err(_) => None,
    }
}

/// The message of an exception envelope.
pub fn exception_message(body: &[u8]) -> (r: Option<String>)
    ensures
        opt(r) == envelope_message(body@),
{
    match Json::parse_bytes(body) {
        Ok(v) => {
            if v.get("message").is_none() {
                wire::owned_text(&v, "Message")
            } else if v.get("Message").is_none() {
                wire::owned_text(&v, "message")
            } else {
                None
            }
        },
        Err(_) => None,
    }
}

/// The exception class in the headers, without a URI behind it.
pub open spec fn header_class(headers: HeadersView) -> Option<Seq<char>> {
    match header_text(headers, "x-amzn-errortype"@) {
        Some(text) => Some(before_first(text, ':')),
        None => None,
    }
}

/// The error that an AWS envelope reports.
pub open spec fn bedrock_error(
    profile: ApiProfile,
    status: u16,
    headers: HeadersView,
    body: Seq<u8>,
) -> ErrorView {
    let class = header_class(headers);
    let message = match envelope_message(body) {
        Some(message) => message,
        None => fallback_message(profile, status, body),
    };
    enriched(
        new_error(exception_kind(class_of(class), status), message).with_origin(
            profile.text(),
        ).with_code_opt(class),
        status,
        headers,
    )
}

/// Decode an AWS error envelope, attributed to `profile`.
pub fn decode_bedrock_error(
    profile: ApiProfile,
    status: u16,
    headers: &http::HeaderMap<http::HeaderValue>,
    body: &[u8],
) -> (r: Error)
    ensures
        r@ == bedrock_error(profile, status, headers_view(*headers), body@),
{
    proof {
        reveal_strlit("x-amzn-errortype");
        assert(lower("x-amzn-errortype"@) =~= "x-amzn-errortype"@);
    }
    let exception: Option<String> = match text_of_header(headers, ERROR_TYPE) {
        Some(text) => Some(cut_at(text.as_str(), ':')),
        None => None,
    };
    let kind: ErrorKind = bedrock_error_kind(crate::error::as_deref(&exception), status);
    let message: String = match exception_message(body) {
        Some(message) => message,
        None => fallback_provider_error_message(profile, status, body),
    };
    let mut error: Error = Error::new(kind, message.as_str()).with_origin(profile.as_str());
    if let Some(exception) = &exception {
        error = error.with_code(exception.as_str());
    }
    enrich_error_from_headers(error, status, headers)
}

} // verus!
