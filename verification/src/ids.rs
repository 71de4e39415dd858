//! Random identifiers.
use vstd::prelude::*;

use crate::model::views;

verus! {

broadcast use crate::model::group_views;

/// Whether a character is a lower-case hexadecimal digit.
pub open spec fn is_hex(c: char) -> bool {
    '0' <= c <= '9' || 'a' <= c <= 'f'
}

/// Whether a text is a random UUID without hyphens.
pub open spec fn is_simple_uuid(s: Seq<char>) -> bool {
    &&& s.len() == 32
    &&& forall|i: int| 0 <= i < 32 ==> is_hex(#[trigger] s[i])
    &&& s[12] == '4'
}

/// Whether a text is a random UUID with hyphens.
pub open spec fn is_hyphenated_uuid(s: Seq<char>) -> bool {
    &&& s.len() == 36
    &&& forall|i: int|
        0 <= i < 36 ==> if i == 8 || i == 13 || i == 18 || i == 23 {
            #[trigger] s[i] == '-'
        } else {
            is_hex(s[i])
        }
    &&& s[14] == '4'
}

/// `uuid::Uuid::new_v4` in its simple format: 32 lower-case hexadecimal digits
/// of a version 4 UUID. Which UUID it is rests on chance.
#[verifier::external_body]
pub(crate) fn simple_uuid() -> (r: String)
    ensures
        is_simple_uuid(r@),
{
    uuid::Uuid::new_v4().simple().to_string()
}

/// `uuid::Uuid::new_v4` in its hyphenated format: the lower-case hexadecimal
/// digits of a version 4 UUID in five groups. Which UUID it is rests on chance.
#[verifier::external_body]
pub(crate) fn hyphenated_uuid() -> (r: String)
    ensures
        is_hyphenated_uuid(r@),
{
    uuid::Uuid::new_v4().hyphenated().to_string()
}

/// There is a UUID with hyphens.
pub proof fn some_hyphenated_uuid() -> (r: Seq<char>)
    ensures
        is_hyphenated_uuid(r),
{
    Seq::new(
        36,
        |i: int|
            if i == 8 || i == 13 || i == 18 || i == 23 {
                '-'
            } else {
                '4'
            },
    )
}

/// Whether texts are random UUIDs without hyphens.
pub open spec fn are_simple_uuids(ids: Seq<Seq<char>>) -> bool {
    forall|i: int| 0 <= i < ids.len() ==> is_simple_uuid(#[trigger] ids[i])
}

/// There are as many UUIDs without hyphens as wanted.
pub proof fn some_simple_uuids(n: nat) -> (r: Seq<Seq<char>>)
    ensures
        r.len() == n,
        are_simple_uuids(r),
{
    let id = Seq::new(32, |i: int| '4');
    assert(is_simple_uuid(id));
    Seq::new(n, |i: int| id)
}

/// Some random UUIDs without hyphens.
pub fn simple_uuids(n: usize) -> (r: Vec<String>)
    ensures
        views(r@).len() == n,
        are_simple_uuids(views(r@)),
{
    let mut ids: Vec<String> = Vec::new();
    let mut i: usize = 0;
    while i < n
        invariant
            i <= n,
            ids@.len() == i,
            forall|k: int| 0 <= k < i ==> is_simple_uuid((#[trigger] ids@[k])@),
        decreases n - i,
    {
        ids.push(simple_uuid());
        i += 1;
    }
    ids
}

} // verus!
