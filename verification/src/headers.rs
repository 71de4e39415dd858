//! HTTP headers.
//!
//! Headers are the `HeaderMap` of `http`. Its contents are the values of each
//! name, in the order in which they were added; names are in lower case.
use vstd::prelude::*;
use vstd::utf8::*;

use crate::text::{before_first, cat3, cut_at, lower, part, same, trim, trimmed};

verus! {

/// What headers are: the values of each name.
pub type HeadersView = Map<Seq<char>, Seq<Seq<u8>>>;

/// The `HeaderMap` of `http`.
#[verifier::external_type_specification]
#[verifier::external_body]
#[verifier::reject_recursive_types(T)]
pub struct ExHeaderMap<T>(http::HeaderMap<T>);

/// The `HeaderName` of `http`.
#[verifier::external_type_specification]
#[verifier::external_body]
pub struct ExHeaderName(http::HeaderName);

/// The `HeaderValue` of `http`.
#[verifier::external_type_specification]
#[verifier::external_body]
pub struct ExHeaderValue(http::HeaderValue);

/// The values of each name.
pub uninterp spec fn headers_view(h: http::HeaderMap<http::HeaderValue>) -> HeadersView;

/// The characters of a name, in lower case.
pub uninterp spec fn name_text(n: http::HeaderName) -> Seq<char>;

/// The bytes of a value.
pub uninterp spec fn value_bytes(v: http::HeaderValue) -> Seq<u8>;

/// With fewer names than this, headers always take one more. The map stops
/// growing at 32768 slots; where hashes collide it refuses to fill more than a
/// fifth of them.
pub const MAX_HEADERS: usize = 6554;

/// No headers.
pub open spec fn no_headers() -> HeadersView {
    Map::empty()
}

/// `HeaderMap::new` is empty.
#[verifier::external_body]
pub(crate) fn new_headers() -> (r: http::HeaderMap<http::HeaderValue>)
    ensures
        headers_view(r) == no_headers(),
{
    http::HeaderMap::new()
}

/// `HeaderMap::clone` has the same contents.
#[verifier::external_body]
pub(crate) fn clone_headers(h: &http::HeaderMap<http::HeaderValue>) -> (r: http::HeaderMap<
    http::HeaderValue,
>)
    ensures
        headers_view(r) == headers_view(*h),
{
    h.clone()
}

/// `HeaderMap::get` gives the first value of a name, whatever the case of its
/// letters. It finds nothing under a text that can be no name.
#[verifier::external_body]
pub(crate) fn first_value<'a>(
    h: &'a http::HeaderMap<http::HeaderValue>,
    name: &str,
) -> (r: Option<&'a [u8]>)
    requires
        is_name(name@),
    ensures
        match r {
            Some(v) => headers_view(*h).contains_key(lower(name@)) && headers_view(
                *h,
            )[lower(name@)].len() > 0 && headers_view(*h)[lower(name@)][0] == v@,
            None => !headers_view(*h).contains_key(lower(name@)),
        },
{
    h.get(name).map(|v| v.as_bytes())
}

/// Whether headers have so many names.
pub open spec fn has_names(h: HeadersView, n: nat) -> bool {
    h.dom().finite() && h.dom().len() == n
}

/// `HeaderMap::keys_len` is the number of names.
#[verifier::external_body]
pub(crate) fn count_names(h: &http::HeaderMap<http::HeaderValue>) -> (r: usize)
    ensures
        has_names(headers_view(*h), r as nat),
{
    h.keys_len()
}

/// Whether there is room for one more header.
pub open spec fn has_slot(h: HeadersView) -> bool {
    h.dom().finite() && h.dom().len() < MAX_HEADERS
}

/// Whether there is room for one more header.
pub fn room_for_header(h: &http::HeaderMap<http::HeaderValue>) -> (r: bool)
    ensures
        r == has_slot(headers_view(*h)),
{
    count_names(h) < MAX_HEADERS
}

/// `HeaderMap::try_insert` replaces all values of a name by one, or fails and
/// leaves the map as it was. When it fails rests on how the hashes of the names
/// fall; with fewer than [`MAX_HEADERS`] names it does not.
#[verifier::external_body]
pub(crate) fn try_insert_value(
    h: &mut http::HeaderMap<http::HeaderValue>,
    name: http::HeaderName,
    value: http::HeaderValue,
) -> (r: bool)
    ensures
        r ==> headers_view(*final(h)) == headers_view(*old(h)).insert(
            name_text(name),
            seq![value_bytes(value)],
        ),
        !r ==> headers_view(*final(h)) == headers_view(*old(h)),
        has_slot(headers_view(*old(h))) ==> r,
{
    h.try_insert(name, value).is_ok()
}

/// Replaces all values of a name by one.
pub(crate) fn insert_value(
    h: &mut http::HeaderMap<http::HeaderValue>,
    name: http::HeaderName,
    value: http::HeaderValue,
)
    requires
        has_slot(headers_view(*old(h))),
    ensures
        headers_view(*final(h)) == headers_view(*old(h)).insert(
            name_text(name),
            seq![value_bytes(value)],
        ),
{
    let _ = try_insert_value(h, name, value);
}

/// The first value of a name.
pub open spec fn header(h: HeadersView, name: Seq<char>) -> Option<Seq<u8>> {
    if h.contains_key(name) {
        Some(h[name][0])
    } else {
        None
    }
}

/// Whether a byte may stand in a header that is read as text.
pub open spec fn is_visible(b: u8) -> bool {
    32 <= b < 127 || b == 9
}

/// The text of a header value, where all of it is visible ASCII.
pub open spec fn visible_text(v: Seq<u8>) -> Option<Seq<char>> {
    if forall|i: int| 0 <= i < v.len() ==> is_visible(#[trigger] v[i]) {
        Some(Seq::new(v.len(), |i: int| v[i] as char))
    } else {
        None
    }
}

/// The text of the first value of a name.
pub open spec fn header_text(h: HeadersView, name: Seq<char>) -> Option<Seq<char>> {
    match header(h, name) {
        Some(v) => visible_text(v),
        None => None,
    }
}

/// The text of a header value, where all of it is visible ASCII.
pub fn text_of_value(v: &[u8]) -> (r: Option<String>)
    ensures
        crate::model::opt(r) == visible_text(v@),
{
    let mut out: String = String::new();
    let mut i: usize = 0;
    while i < v.len()
        invariant
            i <= v@.len(),
            out@.len() == i,
            forall|j: int| 0 <= j < i ==> is_visible(#[trigger] v@[j]),
            forall|j: int| 0 <= j < i ==> #[trigger] out@[j] == v@[j] as char,
        decreases v@.len() - i,
    {
        let b: u8 = v[i];
        if !((32 <= b && b < 127) || b == 9) {
            assert(!is_visible(v@[i as int]));
            return None;
        }
        out.push(b as char);
        i += 1;
    }
    assert(out@ =~= Seq::new(v@.len(), |i: int| v@[i] as char));
    Some(out)
}

/// The text of the first value of a name, given in lower case.
pub fn text_of_header(
    h: &http::HeaderMap<http::HeaderValue>,
    name: &str,
) -> (r: Option<String>)
    requires
        is_name(name@),
        lower(name@) == name@,
    ensures
        crate::model::opt(r) == header_text(headers_view(*h), name@),
{
    match first_value(h, name) {
        Some(v) => text_of_value(v),
        None => None,
    }
}

/// Whether a character may stand in a header name.
pub open spec fn is_name_char(c: char) -> bool {
    ||| 'a' <= c <= 'z'
    ||| 'A' <= c <= 'Z'
    ||| '0' <= c <= '9'
    ||| c == '!' || c == '#' || c == '$' || c == '%' || c == '&' || c == '\'' || c == '*'
    ||| c == '+' || c == '-' || c == '.' || c == '^' || c == '_' || c == '`' || c == '|'
    ||| c == '~'
}

/// Whether a text can be a header name.
pub open spec fn is_name(text: Seq<char>) -> bool {
    0 < text.len() <= 65535 && forall|i: int|
        0 <= i < text.len() ==> is_name_char(#[trigger] text[i])
}

/// Whether a byte may stand in a header value.
pub open spec fn is_value_byte(b: u8) -> bool {
    b >= 32 && b != 127 || b == 9
}

/// Whether a text can be a header value.
pub open spec fn can_be_value(text: Seq<char>) -> bool {
    forall|i: int|
        0 <= i < encode_utf8(text).len() ==> is_value_byte(#[trigger] encode_utf8(text)[i])
}

/// `HeaderName::from_bytes` on the bytes of a text is the name in lower case,
/// or fails where the text can be no name.
#[verifier::external_body]
pub(crate) fn name_from(text: &str) -> (r: Option<http::HeaderName>)
    ensures
        match r {
            Some(name) => is_name(text@) && name_text(name) == lower(text@),
            None => !is_name(text@),
        },
{
    http::HeaderName::from_bytes(text.as_bytes()).ok()
}

/// `HeaderValue::from_str` is the bytes of the text, or fails where one of them
/// may not stand in a value.
#[verifier::external_body]
pub(crate) fn value_from(text: &str) -> (r: Option<http::HeaderValue>)
    ensures
        match r {
            Some(value) => value_bytes(value) == encode_utf8(text@) && can_be_value(text@),
            None => !can_be_value(text@),
        },
{
    http::HeaderValue::from_str(text).ok()
}

/// `HeaderName::as_str` is the name, in lower case.
#[verifier::external_body]
pub(crate) fn name_str(name: &http::HeaderName) -> (r: &str)
    ensures
        r@ == name_text(*name),
{
    name.as_str()
}

/// `HeaderName::clone` is the same name.
#[verifier::external_body]
pub(crate) fn clone_name(name: &http::HeaderName) -> (r: http::HeaderName)
    ensures
        name_text(r) == name_text(*name),
{
    name.clone()
}

/// `HeaderValue::as_bytes` is the bytes of the value.
#[verifier::external_body]
pub(crate) fn bytes_of(value: &http::HeaderValue) -> (r: &[u8])
    ensures
        r@ == value_bytes(*value),
{
    value.as_bytes()
}

/// `HeaderValue::clone` has the same bytes.
#[verifier::external_body]
pub(crate) fn clone_value(value: &http::HeaderValue) -> (r: http::HeaderValue)
    ensures
        value_bytes(r) == value_bytes(*value),
{
    value.clone()
}

/// The name and the value of each of some entries.
pub open spec fn entries_of(entries: Seq<(http::HeaderName, http::HeaderValue)>) -> Seq<
    (Seq<char>, Seq<u8>),
> {
    Seq::new(
        entries.len(),
        |i: int| (name_text(entries[i].0), value_bytes(entries[i].1)),
    )
}

/// The values that some entries have for a name, in order.
pub open spec fn values_for(entries: Seq<(Seq<char>, Seq<u8>)>, name: Seq<char>) -> Seq<Seq<u8>>
    decreases entries.len(),
{
    if entries.len() == 0 {
        Seq::empty()
    } else if entries.last().0 == name {
        values_for(entries.drop_last(), name).push(entries.last().1)
    } else {
        values_for(entries.drop_last(), name)
    }
}

/// Whether entries are all that headers hold: for each name its values, in
/// order. The order of the names is open.
pub open spec fn lists(entries: Seq<(Seq<char>, Seq<u8>)>, h: HeadersView) -> bool {
    &&& forall|i: int| 0 <= i < entries.len() ==> h.contains_key((#[trigger] entries[i]).0)
    &&& forall|name: Seq<char>| #[trigger]
        h.contains_key(name) ==> values_for(entries, name) == h[name]
}

/// `HeaderMap::iter` gives each name once per value of it, the values of a name
/// in the order in which they were added. The order of the names is not
/// promised.
#[verifier::external_body]
pub(crate) fn list_headers(h: &http::HeaderMap<http::HeaderValue>) -> (r: Vec<
    (http::HeaderName, http::HeaderValue),
>)
    ensures
        lists(entries_of(r@), headers_view(*h)),
{
    h.iter().map(|(name, value)| (name.clone(), value.clone())).collect()
}

// ---------------------------------------------------------------------------
// Merging
// ---------------------------------------------------------------------------

/// The header whose values are merged.
pub const ANTHROPIC_BETA: &'static str = "anthropic-beta";

/// Whether a flag is one of a comma-separated list.
pub open spec fn is_listed(list: Seq<char>, flag: Seq<char>) -> bool
    decreases list.len(),
{
    let first = before_first(list, ',');
    trimmed(first) == flag || first.len() < list.len() && is_listed(
        list.skip(first.len() as int + 1),
        flag,
    )
}

/// The characters of a text, each as one byte.
pub open spec fn ascii_bytes(text: Seq<char>) -> Seq<u8> {
    Seq::new(text.len(), |i: int| text[i] as u8)
}

/// The headers with one set. The flags of `anthropic-beta` are merged instead
/// of replaced, so that flags of the caller compose with those that the
/// protocol requires.
pub open spec fn applied(h: HeadersView, name: Seq<char>, value: Seq<u8>) -> HeadersView {
    match (header_text(h, name), visible_text(value)) {
        (Some(existing), Some(flag)) => if name == ANTHROPIC_BETA@ {
            if is_listed(existing, flag) {
                h
            } else {
                h.insert(name, seq![ascii_bytes(existing + ","@ + flag)])
            }
        } else {
            h.insert(name, seq![value])
        },
        _ => h.insert(name, seq![value]),
    }
}

/// The headers with the first `n` of some entries set.
pub open spec fn applied_upto(
    h: HeadersView,
    entries: Seq<(Seq<char>, Seq<u8>)>,
    n: int,
) -> HeadersView
    decreases n,
{
    if n <= 0 {
        h
    } else {
        applied(applied_upto(h, entries, n - 1), entries[n - 1].0, entries[n - 1].1)
    }
}

/// Whether there is room for some headers besides others.
pub open spec fn has_room(h: HeadersView, more: HeadersView) -> bool {
    h.dom().finite() && more.dom().finite() && h.dom().len() + more.dom().len() < MAX_HEADERS
}

proof fn lemma_first_part(s: Seq<char>, c: char)
    ensures
        before_first(s, c).len() <= s.len(),
        before_first(s, c).len() < s.len() ==> s[before_first(s, c).len() as int] == c,
    decreases s.len(),
{
    if s.len() > 0 && s[0] != c {
        lemma_first_part(s.skip(1), c);
    }
}

fn has_flag(list: &str, flag: &str) -> (r: bool)
    ensures
        r == is_listed(list@, flag@),
{
    let n: usize = list.unicode_len();
    let mut from: usize = 0;
    assert(list@.skip(0) =~= list@);
    loop
        invariant
            from <= n,
            n == list@.len(),
            is_listed(list@, flag@) == is_listed(list@.skip(from as int), flag@),
        decreases n - from,
    {
        let rest: String = part(list, from, n);
        assert(rest@ =~= list@.skip(from as int));
        let first: String = cut_at(rest.as_str(), ',');
        proof {
            lemma_first_part(rest@, ',');
        }
        if same(trim(first.as_str()).as_str(), flag) {
            return true;
        }
        let length: usize = first.as_str().unicode_len();
        if from + length >= n {
            return false;
        }
        assert(rest@.skip(length + 1) =~= list@.skip(from + length + 1));
        from = from + length + 1;
    }
}

proof fn lemma_visible(v: Seq<u8>)
    ensures
        visible_text(v) matches Some(text) ==> (is_ascii_chars(text) && ascii_bytes(text) == v
            && forall|i: int|
            0 <= i < text.len() ==> is_visible(#[trigger] ascii_bytes(text)[i])),
{
    if let Some(text) = visible_text(v) {
        assert forall|i: int| 0 <= i < text.len() implies text[i] as u8 == v[i] && (text[i] as u32)
            < 128 by {
            assert(is_visible(v[i]));
        }
        assert(ascii_bytes(text) =~= v);
        assert(is_ascii_chars(text));
        assert forall|i: int| 0 <= i < text.len() implies is_visible(
            #[trigger] ascii_bytes(text)[i],
        ) by {
            assert(is_visible(v[i]));
        }
    }
}

proof fn lemma_joined(a: Seq<char>, b: Seq<char>)
    requires
        visible_text(ascii_bytes(a)) == Some(a),
        visible_text(ascii_bytes(b)) == Some(b),
    ensures
        encode_utf8(a + ","@ + b) == ascii_bytes(a + ","@ + b),
        forall|i: int|
            0 <= i < encode_utf8(a + ","@ + b).len() ==> is_value_byte(
                #[trigger] encode_utf8(a + ","@ + b)[i],
            ),
{
    reveal_strlit(",");
    let all = a + ","@ + b;
    lemma_visible(ascii_bytes(a));
    lemma_visible(ascii_bytes(b));
    assert forall|i: int| 0 <= i < all.len() implies (all[i] as u32) < 128 && is_visible(
        all[i] as u8,
    ) by {
        if i < a.len() {
            assert(is_visible(ascii_bytes(a)[i]));
        } else if i > a.len() {
            assert(is_visible(ascii_bytes(b)[i - a.len() - 1]));
        }
    }
    assert(is_ascii_chars(all));
    is_ascii_chars_encode_utf8(all);
    assert(encode_utf8(all) =~= ascii_bytes(all));
}

/// Set a header, comma-merging `anthropic-beta` instead of replacing. Says
/// whether the headers took it: they do where there is room for one more.
pub fn try_apply_header(
    h: &mut http::HeaderMap<http::HeaderValue>,
    name: http::HeaderName,
    value: http::HeaderValue,
) -> (r: bool)
    ensures
        r ==> headers_view(*final(h)) == applied(
            headers_view(*old(h)),
            name_text(name),
            value_bytes(value),
        ),
        !r ==> headers_view(*final(h)) == headers_view(*old(h)),
        has_slot(headers_view(*old(h))) ==> r,
{
    if same(name_str(&name), ANTHROPIC_BETA) {
        proof {
            reveal_strlit("anthropic-beta");
            assert(lower(ANTHROPIC_BETA@) =~= ANTHROPIC_BETA@);
        }
        if let Some(existing) = text_of_header(h, ANTHROPIC_BETA) {
            if let Some(flag) = text_of_value(bytes_of(&value)) {
                if has_flag(existing.as_str(), flag.as_str()) {
                    return true;
                }
                proof {
                    lemma_visible(headers_view(*h)[ANTHROPIC_BETA@][0]);
                    lemma_visible(value_bytes(value));
                    lemma_joined(existing@, flag@);
                }
                let merged: String = cat3(existing.as_str(), ",", flag.as_str());
                return match value_from(merged.as_str()) {
                    Some(joined) => try_insert_value(h, name, joined),
                    None => true,
                };
            }
        }
    }
    try_insert_value(h, name, value)
}

/// Set a header, comma-merging `anthropic-beta` instead of replacing.
pub fn apply_header(
    h: &mut http::HeaderMap<http::HeaderValue>,
    name: http::HeaderName,
    value: http::HeaderValue,
)
    requires
        has_slot(headers_view(*old(h))),
    ensures
        headers_view(*final(h)) == applied(
            headers_view(*old(h)),
            name_text(name),
            value_bytes(value),
        ),
{
    let _ = try_apply_header(h, name, value);
}

pub proof fn lemma_applied_names(
    h: HeadersView,
    more: HeadersView,
    entries: Seq<(Seq<char>, Seq<u8>)>,
    n: int,
)
    requires
        h.dom().finite(),
        more.dom().finite(),
        0 <= n <= entries.len(),
        lists(entries, more),
    ensures
        applied_upto(h, entries, n).dom().subset_of(h.dom().union(more.dom())),
        applied_upto(h, entries, n).dom().finite(),
        applied_upto(h, entries, n).dom().len() <= h.dom().len() + more.dom().len(),
    decreases n,
{
    let all = h.dom().union(more.dom());
    if n > 0 {
        lemma_applied_names(h, more, entries, n - 1);
        assert(more.contains_key(entries[n - 1].0));
        let before = applied_upto(h, entries, n - 1);
        let after = applied_upto(h, entries, n);
        assert(after.dom().subset_of(all));
    }
    vstd::set_lib::lemma_len_union(h.dom(), more.dom());
    vstd::set_lib::lemma_len_subset(applied_upto(h, entries, n).dom(), all);
}

/// Set each of some headers. Says whether the headers took all of them: they do
/// where there is room. Otherwise those before the first that they did not take
/// are set.
pub fn try_apply_headers(
    h: &mut http::HeaderMap<http::HeaderValue>,
    more: &http::HeaderMap<http::HeaderValue>,
) -> (r: bool)
    ensures
        exists|entries: Seq<(Seq<char>, Seq<u8>)>, n: int| #[trigger]
            lists(entries, headers_view(*more)) && 0 <= n <= entries.len() && (r ==> n
                == entries.len()) && headers_view(*final(h)) == #[trigger] applied_upto(
                headers_view(*old(h)),
                entries,
                n,
            ),
        has_room(headers_view(*old(h)), headers_view(*more)) ==> r,
{
    let ghost start = headers_view(*h);
    let list: Vec<(http::HeaderName, http::HeaderValue)> = list_headers(more);
    let ghost entries = entries_of(list@);
    let mut i: usize = 0;
    while i < list.len()
        invariant
            i <= list@.len(),
            entries == entries_of(list@),
            lists(entries, headers_view(*more)),
            headers_view(*h) == applied_upto(start, entries, i as int),
            start == headers_view(*old(h)),
        decreases list@.len() - i,
    {
        proof {
            if has_room(start, headers_view(*more)) {
                lemma_applied_names(start, headers_view(*more), entries, i as int);
            }
        }
        assert(entries[i as int] == (name_text(list@[i as int].0), value_bytes(list@[i as int].1)));
        if !try_apply_header(h, clone_name(&list[i].0), clone_value(&list[i].1)) {
            return false;
        }
        i += 1;
    }
    true
}

/// Set each of some headers.
pub fn apply_headers(
    h: &mut http::HeaderMap<http::HeaderValue>,
    more: &http::HeaderMap<http::HeaderValue>,
)
    requires
        has_room(headers_view(*old(h)), headers_view(*more)),
    ensures
        exists|entries: Seq<(Seq<char>, Seq<u8>)>| #[trigger]
            lists(entries, headers_view(*more)) && headers_view(*final(h)) == applied_upto(
                headers_view(*old(h)),
                entries,
                entries.len() as int,
            ),
{
    let _ = try_apply_headers(h, more);
}

proof fn lemma_later(h: HeadersView, entries: Seq<(Seq<char>, Seq<u8>)>, name: Seq<char>, n: int)
    requires
        0 <= n <= entries.len(),
        name != ANTHROPIC_BETA@,
    ensures
        values_for(entries.take(n), name).len() > 0 ==> applied_upto(h, entries, n).contains_key(
            name,
        ) && applied_upto(h, entries, n)[name] == seq![values_for(entries.take(n), name).last()],
        values_for(entries.take(n), name).len() == 0 ==> applied_upto(h, entries, n).contains_key(
            name,
        ) == h.contains_key(name) && applied_upto(h, entries, n)[name] == h[name],
    decreases n,
{
    if n > 0 {
        lemma_later(h, entries, name, n - 1);
        assert(entries.take(n).drop_last() =~= entries.take(n - 1));
        assert(entries.take(n).last() == entries[n - 1]);
    }
}

proof fn lemma_no_values(entries: Seq<(Seq<char>, Seq<u8>)>, name: Seq<char>)
    requires
        forall|i: int| 0 <= i < entries.len() ==> (#[trigger] entries[i]).0 != name,
    ensures
        values_for(entries, name).len() == 0,
    decreases entries.len(),
{
    if entries.len() > 0 {
        let t = entries.drop_last();
        assert forall|i: int| 0 <= i < t.len() implies (#[trigger] t[i]).0 != name by {
            assert(entries[i].0 != name);
        }
        lemma_no_values(t, name);
    }
}

/// Later headers replace earlier ones, whatever order their names come in: each
/// name other than `anthropic-beta` ends up with the last value set for it, and
/// what is not set stays.
pub proof fn later_headers_win(
    h: HeadersView,
    more: HeadersView,
    entries: Seq<(Seq<char>, Seq<u8>)>,
    name: Seq<char>,
)
    requires
        lists(entries, more),
        name != ANTHROPIC_BETA@,
    ensures
        more.contains_key(name) && more[name].len() > 0 ==> header(
            applied_upto(h, entries, entries.len() as int),
            name,
        ) == Some(more[name].last()),
        !more.contains_key(name) ==> header(
            applied_upto(h, entries, entries.len() as int),
            name,
        ) == header(h, name),
{
    assert(entries.take(entries.len() as int) =~= entries);
    lemma_later(h, entries, name, entries.len() as int);
    if !more.contains_key(name) {
        assert forall|i: int| 0 <= i < entries.len() implies (#[trigger] entries[i]).0
            != name by {
            assert(more.contains_key(entries[i].0));
        }
        lemma_no_values(entries, name);
    }
}

/// Joining two lists of flags lists the flags of both.
pub proof fn joined_lists_keep_their_flags(a: Seq<char>, b: Seq<char>, flag: Seq<char>)
    ensures
        is_listed(a + ","@ + b, flag) == (is_listed(a, flag) || is_listed(b, flag)),
    decreases a.len(),
{
    reveal_strlit(",");
    let all = a + ","@ + b;
    let first = before_first(a, ',');
    lemma_first_part(a, ',');
    lemma_first_of_joined(a, b);
    let n = first.len() as int;
    if n < a.len() {
        joined_lists_keep_their_flags(a.skip(n + 1), b, flag);
        assert(all.skip(n + 1) =~= a.skip(n + 1) + ","@ + b);
    } else {
        assert(all.skip(n + 1) =~= b);
    }
}

proof fn lemma_first_of_joined(a: Seq<char>, b: Seq<char>)
    ensures
        before_first(a + ","@ + b, ',') == before_first(a, ','),
    decreases a.len(),
{
    reveal_strlit(",");
    let all = a + ","@ + b;
    if a.len() > 0 && a[0] != ',' {
        assert(all.skip(1) =~= a.skip(1) + ","@ + b);
        lemma_first_of_joined(a.skip(1), b);
    }
}

} // verus!
