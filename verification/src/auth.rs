//! Static credentials, and how a request carries them.
use vstd::prelude::*;
use vstd::utf8::*;

use crate::error::{new_error, Error, ErrorKind, ErrorView};
use crate::headers::{
    can_be_value, has_slot, header, header_text, headers_view, is_name, is_visible, name_from,
    text_of_header, try_insert_value, value_from, HeadersView,
};
use crate::model::opt;
use crate::protocols::handler::{native_key, native_key_header};
use crate::protocols::ApiProfile;
use crate::transport::exchange::lemma_plain_value;
use crate::text::{cat, is_prefix, lower, part, starts_with};

verus! {

broadcast use crate::model::group_views;

/// What authenticates requests without ever changing.
#[derive(Clone)]
pub enum Credentials {
    /// Nothing, for servers that ask for nothing or where an authenticator
    /// takes over.
    Absent,
    /// An API key, sent where the profile expects one.
    ApiKey(String),
    /// A bearer token, sent as such by every profile.
    Bearer(String),
}

/// What authenticates requests without ever changing.
#[verifier::ext_equal]
pub enum CredentialsView {
    Absent,
    ApiKey(Seq<char>),
    Bearer(Seq<char>),
}

impl View for Credentials {
    type V = CredentialsView;

    open spec fn view(&self) -> CredentialsView {
        match self {
            Credentials::Absent => CredentialsView::Absent,
            Credentials::ApiKey(key) => CredentialsView::ApiKey(key@),
            Credentials::Bearer(token) => CredentialsView::Bearer(token@),
        }
    }
}

impl Credentials {
    /// No credentials.
    pub fn none() -> (r: Credentials)
        ensures
            r@ == CredentialsView::Absent,
    {
        Credentials::Absent
    }

    /// An API key.
    pub fn api_key(key: String) -> (r: Credentials)
        ensures
            r@ == CredentialsView::ApiKey(key@),
    {
        Credentials::ApiKey(key)
    }

    /// A bearer token.
    pub fn bearer(token: String) -> (r: Credentials)
        ensures
            r@ == CredentialsView::Bearer(token@),
    {
        Credentials::Bearer(token)
    }
}

/// The header that carries credentials: a native key where the profile has a
/// header for one, a bearer token everywhere else.
pub open spec fn credential(profile: ApiProfile, c: CredentialsView) -> Option<
    (Seq<char>, Seq<char>),
> {
    match c {
        CredentialsView::Absent => None,
        CredentialsView::ApiKey(key) => match native_key(profile) {
            Some(name) => Some((name, key)),
            None => Some(("authorization"@, "Bearer "@ + key)),
        },
        CredentialsView::Bearer(token) => Some(("authorization"@, "Bearer "@ + token)),
    }
}

/// The failure of credentials that no header can carry.
pub open spec fn unsendable_credentials() -> ErrorView {
    new_error(ErrorKind::Configuration, "credentials are not a valid header value"@)
}

/// The headers with the credentials, which replace whatever stands in their
/// header.
pub open spec fn authenticated(profile: ApiProfile, c: CredentialsView, h: HeadersView) -> Result<
    HeadersView,
    ErrorView,
> {
    match credential(profile, c) {
        Some((name, value)) => if can_be_value(value) {
            Ok(h.insert(name, seq![encode_utf8(value)]))
        } else {
            Err(unsendable_credentials())
        },
        None => Ok(h),
    }
}

proof fn lemma_credential_names()
    ensures
        is_name("authorization"@),
        lower("authorization"@) == "authorization"@,
        is_name("x-api-key"@),
        lower("x-api-key"@) == "x-api-key"@,
        is_name("x-goog-api-key"@),
        lower("x-goog-api-key"@) == "x-goog-api-key"@,
{
    reveal_strlit("authorization");
    reveal_strlit("x-api-key");
    reveal_strlit("x-goog-api-key");
    assert(lower("authorization"@) =~= "authorization"@);
    assert(lower("x-api-key"@) =~= "x-api-key"@);
    assert(lower("x-goog-api-key"@) =~= "x-goog-api-key"@);
}

fn set_credential(
    h: &mut http::HeaderMap<http::HeaderValue>,
    name: &str,
    value: &str,
) -> (r: Option<Result<(), Error>>)
    requires
        is_name(name@),
        lower(name@) == name@,
    ensures
        match r {
            Some(Ok(_)) => can_be_value(value@) && headers_view(*final(h)) == headers_view(
                *old(h),
            ).insert(name@, seq![encode_utf8(value@)]),
            Some(Err(e)) => !can_be_value(value@) && headers_view(*final(h)) == headers_view(
                *old(h),
            ) && e@ == unsendable_credentials(),
            None => can_be_value(value@) && headers_view(*final(h)) == headers_view(*old(h))
                && !has_slot(headers_view(*old(h))),
        },
{
    match value_from(value) {
        Some(value) => {
            if let Some(name) = name_from(name) {
                if !try_insert_value(h, name, value) {
                    return None;
                }
            }
            Some(Ok(()))
        },
        None => Some(Err(Error::configuration("credentials are not a valid header value"))),
    }
}

/// Adds static credentials to a request. This goes last, so that credentials
/// have the final say over their header. The outcome is `None` where the headers
/// hold so many names that they do not take another one.
pub fn apply_credentials(
    h: &mut http::HeaderMap<http::HeaderValue>,
    profile: ApiProfile,
    credentials: &Credentials,
) -> (r: Option<Result<(), Error>>)
    ensures
        match r {
            Some(Ok(_)) => authenticated(profile, credentials@, headers_view(*old(h))) == Ok::<
                HeadersView,
                ErrorView,
            >(headers_view(*final(h))),
            Some(Err(e)) => authenticated(profile, credentials@, headers_view(*old(h))) == Err::<
                HeadersView,
                ErrorView,
            >(e@) && headers_view(*final(h)) == headers_view(*old(h)),
            None => !has_slot(headers_view(*old(h))) && authenticated(
                profile,
                credentials@,
                headers_view(*old(h)),
            ) is Ok && headers_view(*final(h)) == headers_view(*old(h)),
        },
{
    proof {
        lemma_credential_names();
    }
    match credentials {
        Credentials::Absent => Some(Ok(())),
        Credentials::ApiKey(key) => match native_key_header(profile) {
            Some(name) => set_credential(h, name, key.as_str()),
            None => set_credential(h, "authorization", cat("Bearer ", key.as_str()).as_str()),
        },
        Credentials::Bearer(token) => set_credential(
            h,
            "authorization",
            cat("Bearer ", token.as_str()).as_str(),
        ),
    }
}

/// Credentials have the final say over their header, and leave all others.
pub proof fn credentials_have_the_final_say(
    profile: ApiProfile,
    c: CredentialsView,
    h: HeadersView,
    other: Seq<char>,
)
    ensures
        match (credential(profile, c), authenticated(profile, c, h)) {
            (Some((name, value)), Ok(after)) => {
                &&& header(after, name) == Some(encode_utf8(value))
                &&& other != name ==> header(after, other) == header(h, other)
            },
            (None, after) => after == Ok::<HeadersView, ErrorView>(h),
            (_, Err(_)) => true,
        },
{
}

/// A request that is given a bearer token of visible characters carries it.
pub proof fn bearer_tokens_are_carried(profile: ApiProfile, token: Seq<char>, h: HeadersView)
    requires
        forall|i: int| 0 <= i < token.len() ==> ' ' <= #[trigger] token[i] <= '~',
    ensures
        authenticated(profile, CredentialsView::Bearer(token), h) matches Ok(after)
            && carried_bearer(after) == Some(token),
{
    reveal_strlit("Bearer ");
    let value = "Bearer "@ + token;
    assert forall|i: int| 0 <= i < value.len() implies ' ' <= #[trigger] value[i] <= '~' by {
        if i >= 7 {
            assert(value[i] == token[i - 7]);
        }
    }
    lemma_plain_value(value);
    assert(is_ascii_chars(value));
    is_ascii_chars_encode_utf8(value);
    let bytes = encode_utf8(value);
    assert forall|i: int| 0 <= i < bytes.len() implies is_visible(#[trigger] bytes[i]) by {
        assert(' ' <= value[i] <= '~');
    }
    assert(Seq::new(bytes.len(), |i: int| bytes[i] as char) =~= value);
    assert(value.skip(7) =~= token);
    assert(value.take(7) =~= "Bearer "@);
}

/// The bearer token that headers carry.
pub open spec fn carried_bearer(h: HeadersView) -> Option<Seq<char>> {
    match header_text(h, "authorization"@) {
        Some(value) => if is_prefix("Bearer "@, value) {
            Some(value.skip("Bearer "@.len() as int))
        } else {
            None
        },
        None => None,
    }
}

/// The bearer token that a request carries.
pub fn bearer_token(h: &http::HeaderMap<http::HeaderValue>) -> (r: Option<String>)
    ensures
        opt(r) == carried_bearer(headers_view(*h)),
{
    proof {
        lemma_credential_names();
        reveal_strlit("Bearer ");
    }
    match text_of_header(h, "authorization") {
        Some(value) => if starts_with(value.as_str(), "Bearer ") {
            let n: usize = value.as_str().unicode_len();
            let token: String = part(value.as_str(), 7, n);
            assert(token@ =~= value@.skip(7));
            Some(token)
        } else {
            None
        },
        None => None,
    }
}

} // verus!
