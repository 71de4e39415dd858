//! Small helpers shared across modules.
use vstd::prelude::*;
use vstd::utf8::*;

use crate::json::{distinct_keys, entries_view, lemma_key, Json, JsonObject, JsonView};
use crate::text::{chars_of, from_chars};

verus! {

/// The deep merge of `incoming` into `target`: objects are merged key by key, a
/// null value removes its key, and anything else replaces what was there.
pub open spec fn merge(target: JsonView, incoming: JsonView) -> JsonView
    decreases incoming,
{
    match (target, incoming) {
        (JsonView::Object(t), JsonView::Object(i)) => JsonView::Object(
            Map::new(
                |k: Seq<char>|
                    if i.contains_key(k) {
                        !(i[k] is Null)
                    } else {
                        t.contains_key(k)
                    },
                |k: Seq<char>|
                    if i.contains_key(k) {
                        if t.contains_key(k) {
                            merge(t[k], i[k])
                        } else {
                            i[k]
                        }
                    } else {
                        t[k]
                    },
            ),
        ),
        _ => incoming,
    }
}

/// The deep merge of two objects.
pub open spec fn merge_objects(
    target: Map<Seq<char>, JsonView>,
    incoming: Map<Seq<char>, JsonView>,
) -> Map<Seq<char>, JsonView> {
    merge(JsonView::Object(target), JsonView::Object(incoming))->Object_0
}

/// What a deep merge of objects leaves at one key.
pub proof fn lemma_merge_at(
    t: Map<Seq<char>, JsonView>,
    i: Map<Seq<char>, JsonView>,
    k: Seq<char>,
)
    ensures
        merge(JsonView::Object(t), JsonView::Object(i)) is Object,
        merge_objects(t, i).contains_key(k) == if i.contains_key(k) {
            !(i[k] is Null)
        } else {
            t.contains_key(k)
        },
        merge_objects(t, i).contains_key(k) ==> merge_objects(t, i)[k] == if i.contains_key(k) {
            if t.contains_key(k) {
                merge(t[k], i[k])
            } else {
                i[k]
            }
        } else {
            t[k]
        },
{
    reveal_with_fuel(merge, 2);
}

/// One more key in the incoming object.
proof fn lemma_merge_step(
    t: Map<Seq<char>, JsonView>,
    m: Map<Seq<char>, JsonView>,
    k: Seq<char>,
    v: JsonView,
)
    requires
        !m.contains_key(k),
    ensures
        merge_objects(t, m.insert(k, v)) == if v is Null {
            merge_objects(t, m).remove(k)
        } else {
            merge_objects(t, m).insert(
                k,
                if t.contains_key(k) {
                    merge(t[k], v)
                } else {
                    v
                },
            )
        },
        merge_objects(t, m).contains_key(k) == t.contains_key(k),
        t.contains_key(k) ==> merge_objects(t, m)[k] == t[k],
{
    let l = merge_objects(t, m.insert(k, v));
    let r = if v is Null {
        merge_objects(t, m).remove(k)
    } else {
        merge_objects(t, m).insert(
            k,
            if t.contains_key(k) {
                merge(t[k], v)
            } else {
                v
            },
        )
    };
    lemma_merge_at(t, m, k);
    assert forall|x: Seq<char>|
        l.contains_key(x) == r.contains_key(x) && (l.contains_key(x) ==> l[x] == r[x]) by {
        lemma_merge_at(t, m.insert(k, v), x);
        lemma_merge_at(t, m, x);
    }
    assert(l =~= r);
}

/// Merging an empty object changes nothing.
pub proof fn merge_empty_is_identity(t: Map<Seq<char>, JsonView>)
    ensures
        merge(JsonView::Object(t), JsonView::Object(Map::empty())) == JsonView::Object(t),
{
    let l = merge_objects(t, Map::empty());
    assert forall|x: Seq<char>|
        l.contains_key(x) == t.contains_key(x) && (l.contains_key(x) ==> l[x] == t[x]) by {
        lemma_merge_at(t, Map::empty(), x);
    }
    lemma_merge_at(t, Map::empty(), Seq::empty());
    assert(l =~= t);
}

/// A null value removes its key.
pub proof fn merge_null_removes(t: Map<Seq<char>, JsonView>, k: Seq<char>)
    ensures
        merge(JsonView::Object(t), JsonView::Object(Map::empty().insert(k, JsonView::Null)))
            == JsonView::Object(t.remove(k)),
{
    lemma_merge_step(t, Map::empty(), k, JsonView::Null);
    merge_empty_is_identity(t);
    lemma_merge_at(t, Map::empty().insert(k, JsonView::Null), k);
}

/// A value that is no object replaces what was there, and so does anything
/// that is merged into a value that is no object.
pub proof fn merge_replaces_non_objects(t: JsonView, i: JsonView)
    requires
        !(t is Object && i is Object),
    ensures
        merge(t, i) == i,
{
}

/// A key that the incoming object does not have keeps its value.
pub proof fn merge_keeps_other_keys(
    t: Map<Seq<char>, JsonView>,
    i: Map<Seq<char>, JsonView>,
    k: Seq<char>,
)
    requires
        !i.contains_key(k),
    ensures
        merge_objects(t, i).contains_key(k) == t.contains_key(k),
        t.contains_key(k) ==> merge_objects(t, i)[k] == t[k],
{
    lemma_merge_at(t, i, k);
}

fn merged(target: Json, incoming: Json) -> (r: Json)
    ensures
        r@ == merge(target@, incoming@),
    decreases incoming,
{
    match incoming {
        Json::Object(i) => match target {
            Json::Object(t) => Json::Object(merged_objects(t, i)),
            _ => Json::Object(i),
        },
        other => other,
    }
}

/// The deep merge of two objects.
pub fn merged_objects(target: JsonObject, incoming: JsonObject) -> (r: JsonObject)
    ensures
        r@ == merge_objects(target@, incoming@),
        JsonView::Object(r@) == merge(JsonView::Object(target@), JsonView::Object(incoming@)),
    decreases incoming,
{
    let ghost t0 = target@;
    let mut t: JsonObject = target;
    let entries: Vec<(String, Json)> = incoming.into_entries();
    let ghost all = entries@;
    proof {
        merge_empty_is_identity(t0);
        assert(all.take(0) =~= Seq::empty());
        lemma_merge_at(t0, entries_view(all), Seq::empty());
    }
    for x in it: entries.into_iter()
        invariant
            decreases_to!(incoming => all),
            it.seq() == all,
            distinct_keys(all),
            t@ == merge_objects(t0, entries_view(all.take(it.index() as int))),
    {
        let ghost n = it.index() as int;
        let ghost m = entries_view(all.take(n));
        proof {
            assert(x == all[n]);
            assert(decreases_to!(all => all[n]));
            assert(decreases_to!(all[n] => all[n].1));
            if m.contains_key(x.0@) {
                let j = lemma_key(all.take(n), x.0@);
                assert(all[j].0@ != all[n].0@);
            }
            assert(all.take(n + 1).drop_last() =~= all.take(n));
            lemma_merge_step(t0, m, x.0@, x.1@);
        }
        let (key, value) = x;
        if value.is_null() {
            let _ = t.remove(key.as_str());
        } else {
            match t.remove(key.as_str()) {
                Some(existing) => {
                    assert(merge_objects(t0, m).remove(key@).insert(key@, merge(t0[key@], value@))
                        =~= merge_objects(t0, m).insert(key@, merge(t0[key@], value@)));
                    t.insert(key, merged(existing, value));
                },
                None => {
                    assert(merge_objects(t0, m).remove(key@) =~= merge_objects(t0, m));
                    t.insert(key, value);
                },
            }
        }
    }
    assert(all.take(all.len() as int) =~= all);
    t
}

/// Deep-merge `incoming`, using null values to remove keys.
pub fn json_merge(target: &mut Json, incoming: Json)
    ensures
        final(target)@ == merge(old(target)@, incoming@),
{
    let mut t: Json = Json::Null;
    std::mem::swap(&mut t, target);
    *target = merged(t, incoming);
}

/// How many bytes a character takes in UTF-8.
pub open spec fn width(c: char) -> nat {
    if c as u32 <= 0x7f {
        1
    } else if c as u32 <= 0x7ff {
        2
    } else if c as u32 <= 0xffff {
        3
    } else {
        4
    }
}

/// How many bytes a text takes in UTF-8.
pub open spec fn utf8_len(s: Seq<char>) -> nat
    decreases s.len(),
{
    if s.len() == 0 {
        0
    } else {
        width(s[0]) + utf8_len(s.skip(1))
    }
}

/// How many characters at the start of a text fit in `max` bytes.
pub open spec fn fitting(s: Seq<char>, max: nat) -> nat
    decreases s.len(),
{
    if s.len() > 0 && width(s[0]) <= max {
        1 + fitting(s.skip(1), (max - width(s[0])) as nat)
    } else {
        0
    }
}

/// A text cut to `max` bytes for an error message: where it is longer, the
/// longest start of it that fits, and an ellipsis.
pub open spec fn truncated(s: Seq<char>, max: nat) -> Seq<char> {
    if utf8_len(s) <= max {
        s
    } else {
        s.take(fitting(s, max) as int).push('\u{2026}')
    }
}

proof fn lemma_utf8_len(s: Seq<char>)
    ensures
        encode_utf8(s).len() == utf8_len(s),
    decreases s.len(),
{
    if s.len() > 0 {
        assert(s.skip(1) =~= s.drop_first());
        lemma_utf8_len(s.skip(1));
        char_is_scalar(s[0]);
    }
}

/// What fits is at most `max` bytes long, and one character more would be
/// longer.
pub proof fn truncation_is_longest_that_fits(s: Seq<char>, max: nat)
    ensures
        fitting(s, max) <= s.len(),
        utf8_len(s.take(fitting(s, max) as int)) <= max,
        fitting(s, max) < s.len() ==> utf8_len(s.take(fitting(s, max) as int + 1)) > max,
    decreases s.len(),
{
    if s.len() > 0 && width(s[0]) <= max {
        let rest = (max - width(s[0])) as nat;
        truncation_is_longest_that_fits(s.skip(1), rest);
        let n = fitting(s.skip(1), rest) as int;
        assert(s.take(n + 1).skip(1) =~= s.skip(1).take(n));
        if n + 1 < s.len() {
            assert(s.take(n + 2).skip(1) =~= s.skip(1).take(n + 1));
        }
    } else {
        assert(s.take(0) =~= Seq::empty());
        if s.len() > 0 {
            assert(s.take(1)[0] == s[0]);
            assert(s.take(1).skip(1) =~= Seq::empty());
        }
    }
}

fn char_width(c: char) -> (r: usize)
    ensures
        r == width(c),
{
    let n: u32 = c as u32;
    if n <= 0x7f {
        1
    } else if n <= 0x7ff {
        2
    } else if n <= 0xffff {
        3
    } else {
        4
    }
}

/// Truncate a string for inclusion in error messages, keeping char boundaries.
pub fn truncate_for_error(input: &str, max: usize) -> (r: String)
    ensures
        r@ == truncated(input@, max as nat),
{
    proof {
        lemma_utf8_len(input@);
    }
    if input.as_bytes().len() <= max {
        return input.to_owned();
    }
    let mut chars: Vec<char> = chars_of(input);
    let mut room: usize = max;
    let mut n: usize = 0;
    assert(input@.skip(0) =~= input@);
    while n < chars.len() && char_width(chars[n]) <= room
        invariant
            n <= chars@.len(),
            chars@ == input@,
            fitting(input@, max as nat) == n + fitting(input@.skip(n as int), room as nat),
        decreases chars@.len() - n,
    {
        room -= char_width(chars[n]);
        assert(input@.skip(n as int).skip(1) =~= input@.skip(n + 1));
        n += 1;
    }
    chars.truncate(n);
    let mut r: String = from_chars(chars.as_slice());
    r.push('\u{2026}');
    assert(r@ =~= input@.take(n as int).push('\u{2026}'));
    r
}

/// The reflected CRC-32 polynomial of IEEE 802.3.
pub const CRC_POLYNOMIAL: u32 = 0xEDB8_8320;

/// One bit of the polynomial division.
pub open spec fn crc_bit(crc: u32) -> u32 {
    if crc & 1 == 1 {
        (crc >> 1) ^ CRC_POLYNOMIAL
    } else {
        crc >> 1
    }
}

/// `n` bits of the polynomial division.
pub open spec fn crc_bits(crc: u32, n: nat) -> u32
    decreases n,
{
    if n == 0 {
        crc
    } else {
        crc_bit(crc_bits(crc, (n - 1) as nat))
    }
}

/// The register after some bytes.
pub open spec fn crc_register(bytes: Seq<u8>) -> u32
    decreases bytes.len(),
{
    if bytes.len() == 0 {
        0xFFFF_FFFFu32
    } else {
        crc_bits(crc_register(bytes.drop_last()) ^ bytes.last() as u32, 8)
    }
}

/// The CRC-32 of some bytes.
pub open spec fn crc_of(bytes: Seq<u8>) -> u32 {
    !crc_register(bytes)
}

/// CRC-32 (IEEE 802.3, as used by gzip and the AWS event stream encoding).
pub fn crc32(bytes: &[u8]) -> (r: u32)
    ensures
        r == crc_of(bytes@),
{
    let mut crc: u32 = 0xFFFF_FFFFu32;
    let mut i: usize = 0;
    while i < bytes.len()
        invariant
            i <= bytes@.len(),
            crc == crc_register(bytes@.take(i as int)),
        decreases bytes@.len() - i,
    {
        crc = crc ^ (bytes[i] as u32);
        let ghost start = crc;
        let mut n: u32 = 0;
        while n < 8
            invariant
                n <= 8,
                crc == crc_bits(start, n as nat),
            decreases 8 - n,
        {
            if crc & 1 == 1 {
                crc = (crc >> 1) ^ CRC_POLYNOMIAL;
            } else {
                crc = crc >> 1;
            }
            n += 1;
        }
        assert(bytes@.take(i + 1).drop_last() =~= bytes@.take(i as int));
        i += 1;
    }
    assert(bytes@.take(i as int) =~= bytes@);
    !crc
}

/// The six bits that a character of the standard or the URL-safe alphabet
/// stands for.
pub open spec fn sextet(c: char, url_safe: bool) -> Option<u32> {
    if 'A' <= c <= 'Z' {
        Some((c as u32 - 65) as u32)
    } else if 'a' <= c <= 'z' {
        Some((c as u32 - 97 + 26) as u32)
    } else if '0' <= c <= '9' {
        Some((c as u32 - 48 + 52) as u32)
    } else if c == (if url_safe {
        '-'
    } else {
        '+'
    }) {
        Some(62u32)
    } else if c == (if url_safe {
        '_'
    } else {
        '/'
    }) {
        Some(63u32)
    } else {
        None
    }
}

/// The text without the `=` at its end.
pub open spec fn without_padding(s: Seq<char>) -> Seq<char>
    decreases s.len(),
{
    if s.len() > 0 && s.last() == '=' {
        without_padding(s.drop_last())
    } else {
        s
    }
}

/// Byte `k` of the bytes that a sequence of six-bit groups makes up.
pub open spec fn packed_byte(v: Seq<u32>, k: int) -> u8 {
    let q = k / 3 * 4;
    if k % 3 == 0 {
        (v[q] * 4 + v[q + 1] / 16) as u8
    } else if k % 3 == 1 {
        (v[q + 1] % 16 * 16 + v[q + 2] / 4) as u8
    } else {
        (v[q + 2] % 4 * 64 + v[q + 3]) as u8
    }
}

/// The bytes that a base64 text stands for; padding is optional.
pub open spec fn base64_of(text: Seq<char>, url_safe: bool) -> Option<Seq<u8>> {
    let s = without_padding(text);
    if (forall|i: int| 0 <= i < s.len() ==> sextet(#[trigger] s[i], url_safe) is Some) && s.len() % 4
        != 1 {
        let v = Seq::new(s.len(), |i: int| sextet(s[i], url_safe)->0);
        Some(Seq::new((s.len() * 3 / 4) as nat, |k: int| packed_byte(v, k)))
    } else {
        None
    }
}

fn char_sextet(c: char, url_safe: bool) -> (r: Option<u32>)
    ensures
        r == sextet(c, url_safe),
        r matches Some(n) ==> n < 64,
{
    let n: u32 = c as u32;
    if 'A' <= c && c <= 'Z' {
        Some(n - 65)
    } else if 'a' <= c && c <= 'z' {
        Some(n - 97 + 26)
    } else if '0' <= c && c <= '9' {
        Some(n - 48 + 52)
    } else if c == (if url_safe {
        '-'
    } else {
        '+'
    }) {
        Some(62)
    } else if c == (if url_safe {
        '_'
    } else {
        '/'
    }) {
        Some(63)
    } else {
        None
    }
}

/// Decode base64 in the standard or URL-safe alphabet, tolerating optional
/// padding.
pub fn base64_decode(input: &str, url_safe: bool) -> (r: Option<Vec<u8>>)
    ensures
        match r {
            Some(bytes) => base64_of(input@, url_safe) == Some(bytes@),
            None => base64_of(input@, url_safe) is None,
        },
{
    let chars: Vec<char> = chars_of(input);
    let mut len: usize = chars.len();
    assert(input@.take(len as int) =~= input@);
    while len > 0 && chars[len - 1] == '='
        invariant
            len <= chars@.len(),
            chars@ == input@,
            without_padding(input@.take(len as int)) == without_padding(input@),
        decreases len,
    {
        assert(input@.take(len as int).drop_last() =~= input@.take(len - 1));
        len -= 1;
    }
    let ghost s = without_padding(input@);
    assert(s == input@.take(len as int));
    let mut v: Vec<u32> = Vec::new();
    let mut i: usize = 0;
    while i < len
        invariant
            i <= len <= chars@.len(),
            chars@ == input@,
            s == input@.take(len as int),
            s == without_padding(input@),
            v@.len() == i,
            forall|j: int| 0 <= j < i ==> sextet(#[trigger] s[j], url_safe) == Some(v@[j]),
            forall|j: int| 0 <= j < i ==> #[trigger] v@[j] < 64,
        decreases len - i,
    {
        match char_sextet(chars[i], url_safe) {
            Some(n) => {
                assert(s[i as int] == chars@[i as int]);
                v.push(n);
            },
            None => {
                assert(sextet(s[i as int], url_safe) is None);
                return None;
            },
        }
        i += 1;
    }
    if len % 4 == 1 {
        return None;
    }
    let ghost all = Seq::new(s.len(), |i: int| sextet(s[i], url_safe)->0);
    assert(v@ =~= all);
    assert(base64_of(input@, url_safe) == Some(
        Seq::new((s.len() * 3 / 4) as nat, |k: int| packed_byte(all, k)),
    ));
    let mut out: Vec<u8> = Vec::new();
    let mut q: usize = 0;
    while q < len
        invariant
            v@.len() == len,
            v@ == all,
            s.len() == len,
            base64_of(input@, url_safe) == Some(
                Seq::new((s.len() * 3 / 4) as nat, |k: int| packed_byte(all, k)),
            ),
            len % 4 != 1,
            q % 4 == 0,
            q <= len + 3,
            q > len ==> len % 4 != 0 && q == len / 4 * 4 + 4,
            out@.len() == if q <= len {
                q / 4 * 3
            } else {
                len * 3 / 4
            },
            forall|j: int| 0 <= j < len ==> #[trigger] v@[j] < 64,
            forall|k: int| 0 <= k < out@.len() ==> #[trigger] out@[k] == packed_byte(all, k),
        decreases len + 4 - q,
    {
        let a: u32 = v[q];
        let b: u32 = v[q + 1];
        assert(out@.len() % 3 == 0 && out@.len() / 3 * 4 == q);
        out.push((a * 4 + b / 16) as u8);
        if len - q > 2 {
            let c: u32 = v[q + 2];
            out.push((b % 16 * 16 + c / 4) as u8);
            if len - q > 3 {
                let d: u32 = v[q + 3];
                out.push((c % 4 * 64 + d) as u8);
            }
        }
        if len - q < 4 {
            assert(out@.len() == len * 3 / 4);
            assert(out@ =~= Seq::new((s.len() * 3 / 4) as nat, |k: int| packed_byte(all, k)));
            return Some(out);
        }
        q += 4;
    }
    assert(out@ =~= Seq::new((s.len() * 3 / 4) as nat, |k: int| packed_byte(all, k)));
    Some(out)
}

} // verus!
