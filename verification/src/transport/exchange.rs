//! Neutral HTTP requests and responses.
use vstd::prelude::*;
use vstd::utf8::*;

use crate::auth::{bearer_token, carried_bearer};
use crate::error::ErrorKind;
use crate::headers::{
    can_be_value, headers_view, insert_value, is_name, name_from, new_headers, no_headers,
    value_from, HeadersView,
};
use crate::http_support::{are_shown, redact_headers};
use crate::json::{json_text, Json};
use crate::model::{opt, views};
use crate::text::{cat3, decimal, decimal_text, lower};

verus! {

broadcast use {crate::model::group_views, crate::json::array_view};

/// How a request acts on its target.
#[derive(Debug, Clone, Copy, PartialEq, Eq, Structural)]
pub enum Method {
    Get,
    Post,
}

/// A neutral HTTP request.
pub struct HttpRequest {
    pub method: Method,
    /// Fully resolved endpoint URL.
    pub url: String,
    pub headers: http::HeaderMap<http::HeaderValue>,
    /// Encoded request body. API profiles send JSON.
    pub body: Option<Vec<u8>>,
}

/// A neutral HTTP request.
#[verifier::ext_equal]
pub struct HttpRequestView {
    pub method: Method,
    pub url: Seq<char>,
    pub headers: HeadersView,
    pub body: Option<Seq<u8>>,
}

impl View for HttpRequest {
    type V = HttpRequestView;

    open spec fn view(&self) -> HttpRequestView {
        HttpRequestView {
            method: self.method,
            url: self.url@,
            headers: headers_view(self.headers),
            body: opt(self.body),
        }
    }
}

/// A buffered HTTP response.
pub struct HttpResponse {
    pub status: u16,
    pub headers: http::HeaderMap<http::HeaderValue>,
    /// Complete buffered response body.
    pub body: Vec<u8>,
}

/// A buffered HTTP response.
#[verifier::ext_equal]
pub struct HttpResponseView {
    pub status: u16,
    pub headers: HeadersView,
    pub body: Seq<u8>,
}

impl View for HttpResponse {
    type V = HttpResponseView;

    open spec fn view(&self) -> HttpResponseView {
        HttpResponseView {
            status: self.status,
            headers: headers_view(self.headers),
            body: self.body@,
        }
    }
}

/// Whether a response declares more bytes than are accepted. The declared
/// length is not trusted further than that.
pub fn declares_too_much(length: Option<u64>, limit: usize) -> (r: bool)
    ensures
        r == (length matches Some(n) && n > limit),
{
    match length {
        Some(n) => n > limit as u64,
        None => false,
    }
}

/// The kind of a failure to exchange a request for a response. Invalid headers
/// and similar caller input are not network errors.
pub fn transport_error_kind(timed_out: bool, malformed: bool) -> (r: ErrorKind)
    ensures
        r == if timed_out {
            ErrorKind::Timeout
        } else if malformed {
            ErrorKind::InvalidRequest
        } else {
            ErrorKind::Transport
        },
{
    if timed_out {
        ErrorKind::Timeout
    } else if malformed {
        ErrorKind::InvalidRequest
    } else {
        ErrorKind::Transport
    }
}

/// Headers of which there is one.
pub open spec fn one_header(name: Seq<char>, value: Seq<char>) -> HeadersView {
    no_headers().insert(name, seq![encode_utf8(value)])
}

pub(crate) fn single_header(name: &str, value: &str) -> (r: http::HeaderMap<http::HeaderValue>)
    requires
        is_name(name@),
        lower(name@) == name@,
        can_be_value(value@),
    ensures
        headers_view(r) == one_header(name@, value@),
{
    let mut headers: http::HeaderMap<http::HeaderValue> = new_headers();
    if let Some(name) = name_from(name) {
        if let Some(value) = value_from(value) {
            insert_value(&mut headers, name, value);
        }
    }
    headers
}

/// A plain text can be a header value.
pub proof fn lemma_plain_value(text: Seq<char>)
    requires
        forall|i: int| 0 <= i < text.len() ==> ' ' <= #[trigger] text[i] <= '~',
    ensures
        can_be_value(text),
{
    assert(is_ascii_chars(text));
    is_ascii_chars_encode_utf8(text);
    assert forall|i: int| 0 <= i < encode_utf8(text).len() implies crate::headers::is_value_byte(
        #[trigger] encode_utf8(text)[i],
    ) by {
        assert(' ' <= text[i] <= '~');
    }
}

/// The bytes of a text.
pub(crate) fn bytes_of_text(text: &str) -> (r: Vec<u8>)
    ensures
        r@ == encode_utf8(text@),
{
    let mut bytes: Vec<u8> = Vec::new();
    bytes.extend_from_slice(text.as_bytes());
    assert(bytes@ =~= encode_utf8(text@));
    bytes
}

impl HttpRequest {
    /// A POST request with a JSON body.
    pub fn post_json(url: String, body: &Json) -> (r: HttpRequest)
        ensures
            r@ == (HttpRequestView {
                method: Method::Post,
                url: url@,
                headers: one_header("content-type"@, "application/json"@),
                body: Some(encode_utf8(json_text(body@))),
            }),
    {
        proof {
            reveal_strlit("content-type");
            reveal_strlit("application/json");
            assert(lower("content-type"@) =~= "content-type"@);
            lemma_plain_value("application/json"@);
        }
        HttpRequest {
            method: Method::Post,
            url,
            headers: single_header("content-type", "application/json"),
            body: Some(bytes_of_text(body.to_text().as_str())),
        }
    }

    /// A GET request that accepts a JSON response.
    pub fn get(url: String) -> (r: HttpRequest)
        ensures
            r@ == (HttpRequestView {
                method: Method::Get,
                url: url@,
                headers: one_header("accept"@, "application/json"@),
                body: None,
            }),
    {
        proof {
            reveal_strlit("accept");
            reveal_strlit("application/json");
            assert(lower("accept"@) =~= "accept"@);
            lemma_plain_value("application/json"@);
        }
        HttpRequest {
            method: Method::Get,
            url,
            headers: single_header("accept", "application/json"),
            body: None,
        }
    }

    /// The bearer token that the request carries.
    pub fn bearer_token(&self) -> (r: Option<String>)
        ensures
            opt(r) == carried_bearer(self@.headers),
    {
        bearer_token(&self.headers)
    }
}

// ---------------------------------------------------------------------------
// Descriptions
// ---------------------------------------------------------------------------

/// The first `n` of some headers, as they are shown.
pub open spec fn header_list(pairs: Seq<(Seq<char>, Seq<char>)>, n: int) -> Seq<char>
    decreases n,
{
    if n <= 0 {
        Seq::empty()
    } else {
        let (name, value) = pairs[n - 1];
        let before = header_list(pairs, n - 1);
        before + if n > 1 {
            ", "@
        } else {
            Seq::empty()
        } + name + ": "@ + value
    }
}

/// A response as it is shown: without its body, and with the headers that may
/// be shown.
pub open spec fn response_text(
    status: u16,
    pairs: Seq<(Seq<char>, Seq<char>)>,
    body_len: nat,
) -> Seq<char> {
    "HttpResponse { status: "@ + decimal(status as nat) + ", headers: {"@ + header_list(
        pairs,
        pairs.len() as int,
    ) + "}, body_len: "@ + decimal(body_len) + " }"@
}

fn list_text(pairs: &Vec<(String, String)>) -> (r: String)
    ensures
        r@ == header_list(views(pairs@), pairs@.len() as int),
{
    let ghost all = views(pairs@);
    let mut out: String = String::new();
    let mut i: usize = 0;
    while i < pairs.len()
        invariant
            i <= pairs@.len(),
            all == views(pairs@),
            out@ == header_list(all, i as int),
        decreases pairs@.len() - i,
    {
        let ghost before = out@;
        assert(all[i as int] == (pairs@[i as int].0@, pairs@[i as int].1@));
        if i > 0 {
            out.append(", ");
        }
        assert(before + Seq::<char>::empty() =~= before);
        out.append(pairs[i].0.as_str());
        out.append(": ");
        out.append(pairs[i].1.as_str());
        i += 1;
    }
    out
}

impl HttpResponse {
    /// A description that is safe to log: no body, and no header value that may
    /// be a secret.
    pub fn describe(&self) -> (r: String)
        ensures
            exists|pairs: Seq<(Seq<char>, Seq<char>)>| #[trigger]
                are_shown(pairs, self@.headers) && r@ == response_text(
                    self.status,
                    pairs,
                    self.body@.len(),
                ),
    {
        let pairs: Vec<(String, String)> = redact_headers(&self.headers);
        let mut out: String = cat3(
            "HttpResponse { status: ",
            decimal_text(self.status as u64).as_str(),
            ", headers: {",
        );
        out.append(list_text(&pairs).as_str());
        out.append("}, body_len: ");
        out.append(decimal_text(self.body.len() as u64).as_str());
        out.append(" }");
        assert(are_shown(views(pairs@), self@.headers));
        out
    }
}

} // verus!
