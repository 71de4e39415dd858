//! Where requests are sent.
use vstd::prelude::*;
use vstd::utf8::*;

use crate::model::{opt, views};
use crate::text::{cat, cat3, chars_of, decimal, decimal_text, from_chars};

verus! {

broadcast use crate::model::group_views;

/// How many bytes a URL may have: the URL crate counts positions in 32 bits.
pub const MAX_URL: u64 = 4294967295;

/// The text of a URL in its normal form, as the URL crate writes it; `None`
/// where the text is no URL.
pub uninterp spec fn url_text(url: Seq<char>) -> Option<Seq<char>>;

/// The scheme of a URL, as the URL crate reads it; `None` where the text is no
/// URL.
pub uninterp spec fn url_scheme(url: Seq<char>) -> Option<Seq<char>>;

/// The host in the text of a URL, as the URL crate reads it; `None` where the
/// text is no URL or has no host.
pub uninterp spec fn url_host(url: Seq<char>) -> Option<Seq<char>>;

/// The port of a URL, as the URL crate reads it; `None` where the text is no URL
/// or has no port besides the default of its scheme.
pub uninterp spec fn url_port(url: Seq<char>) -> Option<u16>;

/// The path of a URL, percent-encoded, as the URL crate reads it; `None` where
/// the text is no URL.
pub uninterp spec fn url_path(url: Seq<char>) -> Option<Seq<char>>;

/// A URL with another path, as the URL crate writes it; `None` where the text is
/// no URL.
pub uninterp spec fn url_with_path(url: Seq<char>, path: Seq<char>) -> Option<Seq<char>>;

/// A URL with one more pair in its query, as the URL crate writes it; `None`
/// where the text is no URL.
pub uninterp spec fn url_with_pair(url: Seq<char>, name: Seq<char>, value: Seq<char>) -> Option<
    Seq<char>,
>;

/// How many bytes a text has.
pub open spec fn size(text: Seq<char>) -> nat {
    encode_utf8(text).len()
}

/// Whether a URL stays short enough when so many bytes are put into it: each may
/// take three when it is percent-encoded, and there are a few separators.
pub open spec fn takes(url: Seq<char>, more: nat) -> bool {
    url_text(url) matches Some(text) && size(text) + 3 * more + 16 <= MAX_URL
}

/// `url::Url::parse` and then `url::Url::as_str`: the URL in its normal form, or
/// nothing where the text is no URL. The result is a function of the text.
#[verifier::external_body]
fn text_of(url: &str) -> (r: Option<String>)
    ensures
        opt(r) == url_text(url@),
{
    url::Url::parse(url).ok().map(|url| url.as_str().to_owned())
}

/// `url::Url::parse` and then `url::Url::scheme`: the scheme of a URL, or nothing
/// where the text is no URL. The result is a function of the text.
#[verifier::external_body]
fn scheme_of(url: &str) -> (r: Option<String>)
    ensures
        opt(r) == url_scheme(url@),
{
    url::Url::parse(url).ok().map(|url| url.scheme().to_owned())
}

/// `url::Url::parse` and then `url::Url::host_str`: the host of a URL, in its
/// normal form, or nothing where the text is no URL or has no host. The result
/// is a function of the text.
#[verifier::external_body]
pub(crate) fn host_of(url: &str) -> (r: Option<String>)
    ensures
        opt(r) == url_host(url@),
{
    url::Url::parse(url).ok()?.host_str().map(|host| host.to_owned())
}

/// `url::Url::parse` and then `url::Url::port`: the port of a URL, or nothing
/// where the text is no URL or has no port besides the default of its scheme.
/// The result is a function of the text.
#[verifier::external_body]
fn port_of(url: &str) -> (r: Option<u16>)
    ensures
        r == url_port(url@),
{
    url::Url::parse(url).ok()?.port()
}

/// `url::Url::parse` and then `url::Url::path`: the path of a URL, or nothing
/// where the text is no URL. The result is a function of the text.
#[verifier::external_body]
fn path_of(url: &str) -> (r: Option<String>)
    ensures
        opt(r) == url_path(url@),
{
    url::Url::parse(url).ok().map(|url| url.path().to_owned())
}

/// `url::Url::parse` and then `url::Url::set_path`: the URL with another path,
/// or nothing where the text is no URL. The result is a function of both texts.
/// `set_path` panics where the URL would not fit in 32 bits.
#[verifier::external_body]
fn with_path(url: &str, path: &str) -> (r: Option<String>)
    requires
        takes(url@, size(path@)),
    ensures
        opt(r) == url_with_path(url@, path@),
{
    let mut url = url::Url::parse(url).ok()?;
    url.set_path(path);
    Some(url.into())
}

/// `url::Url::parse` and then `append_pair` on `url::Url::query_pairs_mut`: the
/// URL with one more pair in its query, or nothing where the text is no URL. The
/// result is a function of the texts. It panics where the URL would not fit in
/// 32 bits.
#[verifier::external_body]
fn with_pair(url: &str, name: &str, value: &str) -> (r: Option<String>)
    requires
        takes(url@, size(name@) + size(value@)),
    ensures
        opt(r) == url_with_pair(url@, name@, value@),
{
    let mut url = url::Url::parse(url).ok()?;
    url.query_pairs_mut().append_pair(name, value);
    Some(url.into())
}

/// A path without slashes at its end.
pub open spec fn without_slashes(path: Seq<char>) -> Seq<char>
    decreases path.len(),
{
    if path.len() > 0 && path.last() == '/' {
        without_slashes(path.drop_last())
    } else {
        path
    }
}

/// A path below another one.
pub open spec fn path_below(prefix: Seq<char>, path: Seq<char>) -> Seq<char> {
    without_slashes(prefix) + "/"@ + path
}

/// The URL of a path below a base URL, whose own path is kept. There is none
/// where the base is no URL, or where the URL would be too long.
pub open spec fn url_below(base: Seq<char>, path: Seq<char>) -> Option<Seq<char>> {
    match url_path(base) {
        Some(prefix) => if takes(base, size(path_below(prefix, path))) {
            url_with_path(base, path_below(prefix, path))
        } else {
            None
        },
        None => None,
    }
}

/// A URL with the first `n` pairs in its query.
pub open spec fn with_pairs(url: Seq<char>, pairs: Seq<(Seq<char>, Seq<char>)>, n: int) -> Option<
    Seq<char>,
>
    decreases n,
{
    if n <= 0 {
        Some(url)
    } else {
        match with_pairs(url, pairs, n - 1) {
            Some(url) => {
                let (name, value) = pairs[n - 1];
                if takes(url, size(name) + size(value)) {
                    url_with_pair(url, name, value)
                } else {
                    None
                }
            },
            None => None,
        }
    }
}

/// The URL of a path below a base URL, with a query.
pub open spec fn joined_url(
    base: Seq<char>,
    path: Seq<char>,
    query: Seq<(Seq<char>, Seq<char>)>,
) -> Option<Seq<char>> {
    match url_below(base, path) {
        Some(url) => with_pairs(url, query, query.len() as int),
        None => None,
    }
}

/// A path without slashes at its end.
fn cut_slashes(path: &str) -> (r: String)
    ensures
        r@ == without_slashes(path@),
{
    let mut chars: Vec<char> = chars_of(path);
    while chars.len() > 0 && chars[chars.len() - 1] == '/'
        invariant
            without_slashes(chars@) == without_slashes(path@),
        ensures
            chars@ == without_slashes(path@),
        decreases chars@.len(),
    {
        let ghost before = chars@;
        chars.pop();
        assert(chars@ =~= before.drop_last());
    }
    from_chars(chars.as_slice())
}

/// Whether a URL stays short enough when two texts are put into it.
fn has_room(url: &str, a: &str, b: &str) -> (r: bool)
    ensures
        r == takes(url@, size(a@) + size(b@)),
{
    let limit: u64 = MAX_URL / 3;
    let m: u64 = a.as_bytes().len() as u64;
    let n: u64 = b.as_bytes().len() as u64;
    match text_of(url) {
        Some(text) => {
            let used: u64 = text.as_str().as_bytes().len() as u64;
            used <= MAX_URL && m <= limit && n <= limit && used + 3 * m + 3 * n + 16 <= MAX_URL
        },
        None => false,
    }
}

fn below(base: &str, path: &str) -> (r: Option<String>)
    ensures
        opt(r) == url_below(base@, path@),
{
    let prefix: String = path_of(base)?;
    let full: String = cat3(cut_slashes(prefix.as_str()).as_str(), "/", path);
    assert(size(Seq::<char>::empty()) == 0) by {
        assert(encode_utf8(Seq::<char>::empty()) =~= Seq::empty());
    }
    proof {
        reveal_strlit("");
        assert(""@ =~= Seq::empty());
    }
    if !has_room(base, full.as_str(), "") {
        return None;
    }
    with_path(base, full.as_str())
}

fn add_pair(url: &str, name: &str, value: &str) -> (r: Option<String>)
    ensures
        opt(r) == if takes(url@, size(name@) + size(value@)) {
            url_with_pair(url@, name@, value@)
        } else {
            None
        },
{
    if !has_room(url, name, value) {
        return None;
    }
    with_pair(url, name, value)
}

/// The URL of a path below a base URL, with a query. The path of the base URL is
/// kept, and the path appended once. There is no such URL where the base is no
/// URL, or where the URL would be too long.
pub fn join_url(base: &str, path: &str, query: &Vec<(String, String)>) -> (r: Option<String>)
    ensures
        opt(r) == joined_url(base@, path@, views(query@)),
{
    let ghost pairs = views(query@);
    let mut url: String = below(base, path)?;
    let ghost first = url@;
    let mut i: usize = 0;
    while i < query.len()
        invariant
            i <= query@.len(),
            pairs == views(query@),
            url_below(base@, path@) == Some(first),
            with_pairs(first, pairs, i as int) == Some(url@),
        decreases query@.len() - i,
    {
        assert(pairs[i as int] == (query@[i as int].0@, query@[i as int].1@));
        match add_pair(url.as_str(), query[i].0.as_str(), query[i].1.as_str()) {
            Some(next) => url = next,
            None => {
                proof {
                    lemma_no_url(first, pairs, i + 1, pairs.len() as int);
                }
                return None;
            },
        }
        i += 1;
    }
    Some(url)
}

proof fn lemma_no_url(url: Seq<char>, pairs: Seq<(Seq<char>, Seq<char>)>, m: int, n: int)
    requires
        with_pairs(url, pairs, m) is None,
        m <= n,
    ensures
        with_pairs(url, pairs, n) is None,
    decreases n,
{
    if m < n {
        lemma_no_url(url, pairs, m, n - 1);
    }
}

/// It makes no difference whether the path of the base URL ends with slashes.
pub proof fn trailing_slashes_make_no_difference(prefix: Seq<char>, path: Seq<char>)
    ensures
        path_below(prefix.push('/'), path) == path_below(prefix, path),
        path_below(without_slashes(prefix), path) == path_below(prefix, path),
    decreases prefix.len(),
{
    assert(prefix.push('/').drop_last() =~= prefix);
    if prefix.len() > 0 && prefix.last() == '/' {
        trailing_slashes_make_no_difference(prefix.drop_last(), path);
    }
}

/// Whether a text is a URL.
pub fn is_url(text: &str) -> (r: bool)
    ensures
        r == (url_text(text@) is Some),
{
    text_of(text).is_some()
}

/// What stands for a text that is no URL.
pub const INVALID_URL: &'static str = "<invalid url>";

/// A port behind a host.
pub open spec fn port_text(port: Option<u16>) -> Seq<char> {
    match port {
        Some(port) => ":"@ + decimal(port as nat),
        None => Seq::empty(),
    }
}

/// A URL as it is shown: its scheme, host, port and path, without credentials,
/// query and fragment.
pub open spec fn sanitized(url: Seq<char>) -> Seq<char> {
    match (url_scheme(url), url_path(url)) {
        (Some(scheme), Some(path)) => match url_host(url) {
            Some(host) => scheme + "://"@ + host + port_text(url_port(url)) + path,
            None => scheme + ":"@ + path,
        },
        _ => INVALID_URL@,
    }
}

/// A URL that is safe to show: without credentials, query and fragment.
pub fn sanitized_url(url: &str) -> (r: String)
    ensures
        r@ == sanitized(url@),
{
    let scheme: String = match scheme_of(url) {
        Some(scheme) => scheme,
        None => return INVALID_URL.to_owned(),
    };
    let path: String = match path_of(url) {
        Some(path) => path,
        None => return INVALID_URL.to_owned(),
    };
    match host_of(url) {
        Some(host) => {
            let mut out: String = cat3(scheme.as_str(), "://", host.as_str());
            let ghost before = out@;
            if let Some(port) = port_of(url) {
                out.append(cat(":", decimal_text(port as u64).as_str()).as_str());
            }
            assert(out@ =~= before + port_text(url_port(url@)));
            out.append(path.as_str());
            out
        },
        None => cat3(scheme.as_str(), ":", path.as_str()),
    }
}

} // verus!
