//! Reading the members of JSON objects that providers send.
//!
//! A member that may be missing may also be null. One of another type than the
//! one expected makes the object unreadable.
use vstd::prelude::*;

use crate::json::{bool_of, field, str_of, u64_of, Json, JsonView};
use crate::model::{opt, views};

verus! {

/// Says that a member has another type than the one expected.
pub const UNEXPECTED_TYPE: &'static str = "unexpected type";

/// The member of an object, where it is there and not null.
pub open spec fn value_at(v: JsonView, key: Seq<char>) -> Option<JsonView> {
    match field(v, key) {
        Some(JsonView::Null) => None,
        other => other,
    }
}

/// The text of a member.
pub open spec fn text_at(v: JsonView, key: Seq<char>) -> Option<Seq<char>> {
    match field(v, key) {
        Some(x) => str_of(x),
        None => None,
    }
}

/// The count of a member.
pub open spec fn count_at(v: JsonView, key: Seq<char>) -> Option<u64> {
    match field(v, key) {
        Some(x) => u64_of(x),
        None => None,
    }
}

/// The truth value of a member.
pub open spec fn flag_at(v: JsonView, key: Seq<char>) -> Option<bool> {
    match field(v, key) {
        Some(x) => bool_of(x),
        None => None,
    }
}

/// The elements of a member.
pub open spec fn list_at(v: JsonView, key: Seq<char>) -> Option<Seq<JsonView>> {
    match field(v, key) {
        Some(JsonView::Array(a)) => Some(a),
        _ => None,
    }
}

/// The text of a member, empty where it has none.
pub open spec fn tag_at(v: JsonView, key: Seq<char>) -> Seq<char> {
    match text_at(v, key) {
        Some(text) => text,
        None => Seq::empty(),
    }
}

/// The elements of a member, none where it has none.
pub open spec fn items_at(v: JsonView, key: Seq<char>) -> Seq<JsonView> {
    match list_at(v, key) {
        Some(items) => items,
        None => Seq::empty(),
    }
}

/// Whether a member is missing, null or a text.
pub open spec fn text_ok(v: JsonView, key: Seq<char>) -> bool {
    value_at(v, key) is None || value_at(v, key)->0 is String
}

/// Whether a member is missing or a text.
pub open spec fn tag_ok(v: JsonView, key: Seq<char>) -> bool {
    field(v, key) is None || field(v, key)->0 is String
}

/// Whether a member is missing, null or a count.
pub open spec fn count_ok(v: JsonView, key: Seq<char>) -> bool {
    value_at(v, key) is None || u64_of(value_at(v, key)->0) is Some
}

/// Whether a member is missing, null or a truth value.
pub open spec fn flag_ok(v: JsonView, key: Seq<char>) -> bool {
    value_at(v, key) is None || value_at(v, key)->0 is Bool
}

/// Whether a member is missing, null or an array.
pub open spec fn list_ok(v: JsonView, key: Seq<char>) -> bool {
    value_at(v, key) is None || value_at(v, key)->0 is Array
}

/// Whether a member is missing or an array.
pub open spec fn items_ok(v: JsonView, key: Seq<char>) -> bool {
    field(v, key) is None || field(v, key)->0 is Array
}

/// The member of an object, where it is there and not null.
pub fn value<'a>(v: &'a Json, key: &str) -> (r: Option<&'a Json>)
    ensures
        opt(r) == value_at(v@, key@),
{
    match v.get(key) {
        Some(x) => if x.is_null() {
            None
        } else {
            Some(x)
        },
        None => None,
    }
}

/// The text of a member.
pub fn text<'a>(v: &'a Json, key: &str) -> (r: Option<&'a str>)
    ensures
        opt(r) == text_at(v@, key@),
{
    match v.get(key) {
        Some(x) => x.as_str(),
        None => None,
    }
}

/// The text of a member, on its own.
pub fn owned_text(v: &Json, key: &str) -> (r: Option<String>)
    ensures
        opt(r) == text_at(v@, key@),
{
    match text(v, key) {
        Some(s) => Some(s.to_owned()),
        None => None,
    }
}

/// The text of a member, empty where it has none.
pub fn tag<'a>(v: &'a Json, key: &str) -> (r: &'a str)
    ensures
        r@ == tag_at(v@, key@),
{
    match text(v, key) {
        Some(s) => s,
        None => {
            let empty: &'static str = "";
            proof {
                reveal_strlit("");
            }
            assert(empty@ =~= Seq::empty());
            empty
        },
    }
}

/// The count of a member.
pub fn count(v: &Json, key: &str) -> (r: Option<u64>)
    ensures
        r == count_at(v@, key@),
{
    match v.get(key) {
        Some(x) => x.as_u64(),
        None => None,
    }
}

/// The truth value of a member.
pub fn flag(v: &Json, key: &str) -> (r: Option<bool>)
    ensures
        r == flag_at(v@, key@),
{
    match v.get(key) {
        Some(x) => x.as_bool(),
        None => None,
    }
}

/// The elements of a member.
pub fn list<'a>(v: &'a Json, key: &str) -> (r: Option<&'a Vec<Json>>)
    ensures
        match r {
            Some(items) => list_at(v@, key@) == Some(views(items@)),
            None => list_at(v@, key@) is None,
        },
        r matches Some(items) ==> decreases_to!(*v => *items),
{
    match v.get(key) {
        Some(x) => x.as_array(),
        None => None,
    }
}

/// Whether a member is missing, null or a text.
pub fn may_be_text(v: &Json, key: &str) -> (r: bool)
    ensures
        r == text_ok(v@, key@),
{
    match value(v, key) {
        Some(x) => matches!(x, Json::String(_)),
        None => true,
    }
}

/// Whether a member is missing or a text.
pub fn may_be_tag(v: &Json, key: &str) -> (r: bool)
    ensures
        r == tag_ok(v@, key@),
{
    match v.get(key) {
        Some(x) => matches!(x, Json::String(_)),
        None => true,
    }
}

/// Whether a member is missing, null or a count.
pub fn may_be_count(v: &Json, key: &str) -> (r: bool)
    ensures
        r == count_ok(v@, key@),
{
    match value(v, key) {
        Some(x) => x.as_u64().is_some(),
        None => true,
    }
}

/// Whether a member is missing, null or a truth value.
pub fn may_be_flag(v: &Json, key: &str) -> (r: bool)
    ensures
        r == flag_ok(v@, key@),
{
    match value(v, key) {
        Some(x) => matches!(x, Json::Bool(_)),
        None => true,
    }
}

/// Whether a member is missing, null or an array.
pub fn may_be_list(v: &Json, key: &str) -> (r: bool)
    ensures
        r == list_ok(v@, key@),
{
    match value(v, key) {
        Some(x) => matches!(x, Json::Array(_)),
        None => true,
    }
}

/// Whether a member is missing or an array.
pub fn may_be_items(v: &Json, key: &str) -> (r: bool)
    ensures
        r == items_ok(v@, key@),
{
    match v.get(key) {
        Some(x) => matches!(x, Json::Array(_)),
        None => true,
    }
}

/// A text, where it is not empty.
pub open spec fn filled(text: Option<Seq<char>>) -> Option<Seq<char>> {
    match text {
        Some(text) => if text.len() > 0 {
            Some(text)
        } else {
            None
        },
        None => None,
    }
}

/// A text, where it is not empty.
pub fn unless_empty(text: Option<&str>) -> (r: Option<String>)
    ensures
        opt(r) == filled(opt(text)),
{
    match text {
        Some(text) => if text.is_empty() {
            None
        } else {
            Some(text.to_owned())
        },
        None => None,
    }
}

} // verus!
