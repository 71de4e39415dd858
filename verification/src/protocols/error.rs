//! Errors that providers report.
use vstd::prelude::*;
use vstd::utf8::*;

use super::ApiProfile;
use crate::error::{new_error, Error, ErrorKind, ErrorView};
use crate::http_support::{error_kind_for_status, status_kind};
use crate::text::{cat3, decimal, decimal_text, lower, same, to_lower};
use crate::util::{truncate_for_error, truncated};

verus! {

/// What `String::from_utf8_lossy` makes of some bytes.
pub uninterp spec fn lossy_text(bytes: Seq<u8>) -> Seq<char>;

/// `String::from_utf8_lossy` gives the text of valid UTF-8 and replaces what is
/// not valid.
#[verifier::external_body]
pub(crate) fn utf8_lossy(bytes: &[u8]) -> (r: String)
    ensures
        r@ == lossy_text(bytes@),
        valid_utf8(bytes@) ==> r@ == decode_utf8(bytes@),
{
    String::from_utf8_lossy(bytes).into_owned()
}

/// The message for an answer that is not a known error of the provider.
pub open spec fn fallback_message(protocol: ApiProfile, status: u16, body: Seq<u8>) -> Seq<char> {
    protocol.text() + " returned HTTP "@ + decimal(status as nat) + ": "@ + truncated(
        lossy_text(body),
        200,
    )
}

/// The error for an answer that is not a known error of the provider.
pub open spec fn fallback_error(protocol: ApiProfile, status: u16, body: Seq<u8>) -> ErrorView {
    new_error(status_kind(status), fallback_message(protocol, status, body)).with_origin(
        protocol.text(),
    )
}

/// Build the common fallback for a non-JSON or unrecognized provider error.
pub fn fallback_provider_error(protocol: ApiProfile, status: u16, body: &[u8]) -> (r: Error)
    ensures
        r@ == fallback_error(protocol, status, body@),
{
    Error::new(
        error_kind_for_status(status),
        fallback_provider_error_message(protocol, status, body).as_str(),
    ).with_origin(protocol.as_str())
}

pub fn fallback_provider_error_message(
    protocol: ApiProfile,
    status: u16,
    body: &[u8],
) -> (r: String)
    ensures
        r@ == fallback_message(protocol, status, body@),
{
    let head: String = cat3(
        protocol.as_str(),
        " returned HTTP ",
        decimal_text(status as u64).as_str(),
    );
    cat3(head.as_str(), ": ", truncate_for_error(utf8_lossy(body).as_str(), 200).as_str())
}

/// Whether a code, in lower case, is one for a content policy.
pub open spec fn policy_code(code: Seq<char>) -> bool {
    ||| code == "content_policy_violation"@
    ||| code == "image_content_policy_violation"@
    ||| code == "content_filter"@
    ||| code == "refusal"@
    ||| code == "safety"@
    ||| code == "safety_refusal"@
    ||| code == "cyber_abuse"@
    ||| code == "cyber_safety"@
    ||| code == "blocklist"@
    ||| code == "prohibited_content"@
    ||| code == "image_safety"@
    ||| code == "image_prohibited_content"@
}

pub fn is_content_policy_code(code: &str) -> (r: bool)
    ensures
        r == policy_code(lower(code@)),
{
    let code: String = to_lower(code);
    let c: &str = code.as_str();
    same(c, "content_policy_violation") || same(c, "image_content_policy_violation") || same(
        c,
        "content_filter",
    ) || same(c, "refusal") || same(c, "safety") || same(c, "safety_refusal") || same(
        c,
        "cyber_abuse",
    ) || same(c, "cyber_safety") || same(c, "blocklist") || same(c, "prohibited_content") || same(
        c,
        "image_safety",
    ) || same(c, "image_prohibited_content")
}

/// The kind of an error with a code: a content policy, or another kind.
pub open spec fn policy_kind(code: Option<Seq<char>>, fallback: ErrorKind) -> ErrorKind {
    match code {
        Some(code) => if policy_code(lower(code)) {
            ErrorKind::ContentPolicy
        } else {
            fallback
        },
        None => fallback,
    }
}

pub fn content_policy_kind(code: Option<&str>, fallback: ErrorKind) -> (r: ErrorKind)
    ensures
        r == policy_kind(crate::model::opt(code), fallback),
{
    match code {
        Some(code) => if is_content_policy_code(code) {
            ErrorKind::ContentPolicy
        } else {
            fallback
        },
        None => fallback,
    }
}

} // verus!
