//! HTTP statuses and response headers.
use vstd::prelude::*;

use crate::error::{Delay, Error, ErrorKind, ErrorView};
use crate::headers::{
    bytes_of, entries_of, header_text, headers_view, list_headers, lists, name_str, text_of_header,
    text_of_value, visible_text, HeadersView,
};
use crate::model::views;
use crate::text::{chars_of, lower, same};

verus! {

broadcast use crate::model::group_views;

/// The kind of error that an HTTP status stands for.
pub open spec fn status_kind(status: u16) -> ErrorKind {
    if status == 401 {
        ErrorKind::Authentication
    } else if status == 402 || status == 403 {
        ErrorKind::Permission
    } else if status == 404 {
        ErrorKind::NotFound
    } else if status == 408 || status == 504 {
        ErrorKind::Timeout
    } else if status == 429 {
        ErrorKind::RateLimited
    } else if status == 503 || status == 529 {
        ErrorKind::Overloaded
    } else if 400 <= status < 500 {
        ErrorKind::InvalidRequest
    } else {
        ErrorKind::Provider
    }
}

/// The kind of error that an HTTP status stands for.
pub fn error_kind_for_status(status: u16) -> (r: ErrorKind)
    ensures
        r == status_kind(status),
{
    if status == 401 {
        ErrorKind::Authentication
    } else if status == 402 || status == 403 {
        ErrorKind::Permission
    } else if status == 404 {
        ErrorKind::NotFound
    } else if status == 408 || status == 504 {
        ErrorKind::Timeout
    } else if status == 429 {
        ErrorKind::RateLimited
    } else if status == 503 || status == 529 {
        ErrorKind::Overloaded
    } else if 400 <= status && status < 500 {
        ErrorKind::InvalidRequest
    } else {
        ErrorKind::Provider
    }
}

/// Whether a status is one of success.
pub open spec fn is_success(status: u16) -> bool {
    200 <= status < 300
}

/// The number that decimal digits stand for, where it fits.
pub open spec fn number_of_digits(s: Seq<char>) -> Option<u64>
    decreases s.len(),
{
    if s.len() == 0 {
        None
    } else if !('0' <= s.last() <= '9') {
        None
    } else {
        let d = s.last() as u32 - 48;
        if s.len() == 1 {
            Some(d as u64)
        } else {
            match number_of_digits(s.drop_last()) {
                Some(n) => if n * 10 + d <= u64::MAX {
                    Some((n * 10 + d) as u64)
                } else {
                    None
                },
                None => None,
            }
        }
    }
}

/// The number that decimal digits stand for, where it fits.
pub fn parse_digits(s: &str) -> (r: Option<u64>)
    ensures
        r == number_of_digits(s@),
{
    let v: Vec<char> = chars_of(s);
    if v.len() == 0 {
        return None;
    }
    let mut n: u64 = 0;
    let mut i: usize = 0;
    while i < v.len()
        invariant
            i <= v@.len(),
            v@ == s@,
            i > 0 ==> number_of_digits(s@.take(i as int)) == Some(n),
            i == 0 ==> n == 0,
        decreases v@.len() - i,
    {
        let c: char = v[i];
        assert(s@.take(i + 1).drop_last() =~= s@.take(i as int));
        assert(s@.take(i + 1).last() == c);
        if !('0' <= c && c <= '9') {
            proof {
                lemma_not_a_number(s@, i + 1);
            }
            return None;
        }
        let d: u64 = c as u64 - 48;
        match n.checked_mul(10) {
            Some(m) => match m.checked_add(d) {
                Some(k) => {
                    n = k;
                },
                None => {
                    proof {
                        lemma_not_a_number(s@, i + 1);
                    }
                    return None;
                },
            },
            None => {
                proof {
                    lemma_not_a_number(s@, i + 1);
                }
                return None;
            },
        }
        i += 1;
    }
    assert(s@.take(i as int) =~= s@);
    Some(n)
}

/// A text whose start is no number is none.
proof fn lemma_not_a_number(s: Seq<char>, i: int)
    requires
        0 < i <= s.len(),
        number_of_digits(s.take(i)) is None,
    ensures
        number_of_digits(s) is None,
    decreases s.len() - i,
{
    if i == s.len() {
        assert(s.take(i) =~= s);
    } else {
        assert(s.take(i + 1).drop_last() =~= s.take(i));
        lemma_not_a_number(s, i + 1);
    }
}

/// The provider's id of a request, in its response headers.
pub open spec fn request_id_of(h: HeadersView) -> Option<Seq<char>> {
    match header_text(h, "x-request-id"@) {
        Some(id) => Some(id),
        None => header_text(h, "request-id"@),
    }
}

/// The provider's id of a request, in its response headers.
pub fn find_request_id(headers: &http::HeaderMap<http::HeaderValue>) -> (r: Option<String>)
    ensures
        crate::model::opt(r) == request_id_of(headers_view(*headers)),
{
    proof {
        reveal_strlit("x-request-id");
        reveal_strlit("request-id");
        assert(lower("x-request-id"@) =~= "x-request-id"@);
        assert(lower("request-id"@) =~= "request-id"@);
    }
    match text_of_header(headers, "x-request-id") {
        Some(id) => Some(id),
        None => text_of_header(headers, "request-id"),
    }
}

/// How long response headers ask to wait, in whole seconds.
pub open spec fn retry_after_of(h: HeadersView) -> Option<Delay> {
    match header_text(h, "retry-after"@) {
        Some(text) => match number_of_digits(text) {
            Some(secs) => Some(Delay { secs, nanos: 0 }),
            None => None,
        },
        None => None,
    }
}

/// An error with what the response says of it: its status, the request id, and
/// how long to wait, each where the error does not say so itself.
pub open spec fn enriched(error: ErrorView, status: u16, h: HeadersView) -> ErrorView {
    ErrorView {
        status: if error.status is None {
            Some(status)
        } else {
            error.status
        },
        request_id: if error.request_id is None {
            request_id_of(h)
        } else {
            error.request_id
        },
        retry_after: if error.retry_after is None {
            retry_after_of(h)
        } else {
            error.retry_after
        },
        ..error
    }
}

/// Attach the status, the request id and the delay of a response to an error
/// that does not have them yet.
pub fn enrich_error_from_headers(
    error: Error,
    status: u16,
    headers: &http::HeaderMap<http::HeaderValue>,
) -> (r: Error)
    ensures
        r@ == enriched(error@, status, headers_view(*headers)),
{
    let mut error: Error = error;
    if error.status.is_none() {
        error.status = Some(status);
    }
    if error.request_id.is_none() {
        error.request_id = find_request_id(headers);
    }
    if error.retry_after.is_none() {
        proof {
            reveal_strlit("retry-after");
            assert(lower("retry-after"@) =~= "retry-after"@);
        }
        if let Some(text) = text_of_header(headers, "retry-after") {
            if let Some(secs) = parse_digits(text.as_str()) {
                error.retry_after = Some(Delay { secs, nanos: 0 });
            }
        }
    }
    error
}

/// Whether a byte stands for itself in a path segment.
pub open spec fn is_unreserved(b: u8) -> bool {
    ||| 48 <= b <= 57
    ||| 65 <= b <= 90
    ||| 97 <= b <= 122
    ||| b == 45
    ||| b == 46
    ||| b == 95
    ||| b == 126
}

/// A hexadecimal digit.
pub open spec fn hex_digit(n: u8) -> char {
    if n < 10 {
        (48 + n) as u8 as char
    } else {
        (55 + n) as u8 as char
    }
}

/// A byte in a path segment.
pub open spec fn encoded_byte(b: u8) -> Seq<char> {
    if is_unreserved(b) {
        seq![b as char]
    } else {
        seq!['%', hex_digit((b / 16) as u8), hex_digit((b % 16) as u8)]
    }
}

/// The first `n` bytes in a path segment.
pub open spec fn encoded_bytes(bytes: Seq<u8>, n: int) -> Seq<char>
    decreases n,
{
    if n <= 0 {
        Seq::empty()
    } else {
        encoded_bytes(bytes, n - 1) + encoded_byte(bytes[n - 1])
    }
}

/// A text as one segment of a path.
pub open spec fn path_segment(text: Seq<char>) -> Seq<char> {
    let bytes = vstd::utf8::encode_utf8(text);
    encoded_bytes(bytes, bytes.len() as int)
}

fn hex_char(n: u8) -> (r: char)
    requires
        n < 16,
    ensures
        r == hex_digit(n),
{
    if n < 10 {
        (48 + n) as char
    } else {
        (55 + n) as char
    }
}

/// A text as one segment of a path: everything but letters, digits and `-._~`
/// is percent-encoded.
pub fn encode_path_segment(text: &str) -> (r: String)
    ensures
        r@ == path_segment(text@),
{
    let bytes: &[u8] = text.as_bytes();
    let mut out: String = String::new();
    let mut i: usize = 0;
    while i < bytes.len()
        invariant
            i <= bytes@.len(),
            out@ == encoded_bytes(bytes@, i as int),
        decreases bytes@.len() - i,
    {
        let b: u8 = bytes[i];
        let ghost before = out@;
        if (48 <= b && b <= 57) || (65 <= b && b <= 90) || (97 <= b && b <= 122) || b == 45 || b
            == 46 || b == 95 || b == 126 {
            out.push(b as char);
        } else {
            out.push('%');
            out.push(hex_char(b / 16));
            out.push(hex_char(b % 16));
        }
        assert(out@ =~= before + encoded_byte(b));
        i += 1;
    }
    out
}

// ---------------------------------------------------------------------------
// Redaction
// ---------------------------------------------------------------------------

/// What stands for a value that may be a secret.
pub const REDACTED: &'static str = "<redacted>";

/// Whether the values of a header can be shown: all others may be secrets.
pub open spec fn is_harmless(name: Seq<char>) -> bool {
    ||| name == "accept"@
    ||| name == "content-type"@
    ||| name == "content-length"@
    ||| name == "retry-after"@
    ||| name == "x-request-id"@
}

/// What is shown of a header.
pub open spec fn shown(entry: (Seq<char>, Seq<u8>)) -> (Seq<char>, Seq<char>) {
    (
        entry.0,
        match visible_text(entry.1) {
            Some(text) => if is_harmless(entry.0) {
                text
            } else {
                REDACTED@
            },
            None => REDACTED@,
        },
    )
}

/// What is shown of some headers.
pub open spec fn all_shown(entries: Seq<(Seq<char>, Seq<u8>)>) -> Seq<(Seq<char>, Seq<char>)> {
    Seq::new(entries.len(), |i: int| shown(entries[i]))
}

/// Whether some pairs are what is shown of headers. The order of the names is
/// open.
pub open spec fn are_shown(pairs: Seq<(Seq<char>, Seq<char>)>, h: HeadersView) -> bool {
    exists|entries: Seq<(Seq<char>, Seq<u8>)>| #[trigger]
        lists(entries, h) && pairs == all_shown(entries)
}

fn harmless(name: &str) -> (r: bool)
    ensures
        r == is_harmless(name@),
{
    same(name, "accept") || same(name, "content-type") || same(name, "content-length") || same(
        name,
        "retry-after",
    ) || same(name, "x-request-id")
}

fn show(name: &http::HeaderName, value: &http::HeaderValue) -> (r: (String, String))
    ensures
        (r.0@, r.1@) == shown(
            (crate::headers::name_text(*name), crate::headers::value_bytes(*value)),
        ),
{
    let text: &str = name_str(name);
    let value_text: String = if harmless(text) {
        match text_of_value(bytes_of(value)) {
            Some(visible) => visible,
            None => REDACTED.to_owned(),
        }
    } else {
        REDACTED.to_owned()
    };
    (text.to_owned(), value_text)
}

/// The headers by name, with every value redacted that may be a secret.
pub fn redact_headers(headers: &http::HeaderMap<http::HeaderValue>) -> (r: Vec<(String, String)>)
    ensures
        are_shown(views(r@), headers_view(*headers)),
{
    let list: Vec<(http::HeaderName, http::HeaderValue)> = list_headers(headers);
    let ghost entries = entries_of(list@);
    let mut pairs: Vec<(String, String)> = Vec::new();
    let mut i: usize = 0;
    while i < list.len()
        invariant
            i <= list@.len(),
            entries == entries_of(list@),
            views(pairs@) == all_shown(entries.take(i as int)),
        decreases list@.len() - i,
    {
        let ghost before = entries.take(i as int);
        pairs.push(show(&list[i].0, &list[i].1));
        assert(entries[i as int] == entries.take(i + 1)[i as int]);
        assert(views(pairs@) =~= all_shown(entries.take(i + 1)));
        i += 1;
    }
    assert(entries.take(list@.len() as int) =~= entries);
    assert(lists(entries, headers_view(*headers)) && views(pairs@) == all_shown(entries));
    pairs
}

/// A value that is shown is that of a harmless header: secrets of other headers
/// make no difference.
pub proof fn secrets_are_not_shown(name: Seq<char>, a: Seq<u8>, b: Seq<u8>)
    requires
        !is_harmless(name),
    ensures
        shown((name, a)) == shown((name, b)),
        shown((name, a)) == (name, REDACTED@),
{
}

} // verus!
