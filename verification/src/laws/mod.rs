//! What the library promises of its operations as a whole, over the values that
//! go in and come out.
use vstd::prelude::*;

use crate::json::JsonView;

pub mod anthropic_streams;
pub mod calls;
pub mod chat_reasoning;
pub mod chat_streams;
pub mod failures;
pub mod frames;
pub mod gemini_requests;
pub mod gemini_streams;
pub mod history;
pub mod requests;
pub mod responses_results;
pub mod responses_streams;
pub mod results;
pub mod telling;
pub mod usage_reports;
pub mod validation;

verus! {

/// Whether a key of an object holds a value.
pub open spec fn holds(v: JsonView, key: Seq<char>, x: JsonView) -> bool {
    v matches JsonView::Object(m) && m.contains_key(key) && m[key] == x
}

/// Whether a key of an object holds a text.
pub open spec fn says(v: JsonView, key: Seq<char>, text: Seq<char>) -> bool {
    holds(v, key, JsonView::String(text))
}

/// Whether a value has nothing under a key, or null.
pub open spec fn lacks(v: JsonView, key: Seq<char>) -> bool {
    v matches JsonView::Object(m) ==> !m.contains_key(key) || m[key] is Null
}

/// Whether members hold a value under a key exactly where there is one.
pub open spec fn carries(
    m: Map<Seq<char>, JsonView>,
    key: Seq<char>,
    x: Option<JsonView>,
) -> bool {
    match x {
        Some(v) => m.contains_key(key) && m[key] == v,
        None => !m.contains_key(key),
    }
}

/// What a key of an object holds, null where it holds nothing.
pub open spec fn value_in(v: JsonView, key: Seq<char>) -> JsonView {
    match v {
        JsonView::Object(m) => if m.contains_key(key) {
            m[key]
        } else {
            JsonView::Null
        },
        _ => JsonView::Null,
    }
}

/// The text that a value is, empty where it is none.
pub open spec fn as_text(v: JsonView) -> Seq<char> {
    match v {
        JsonView::String(text) => text,
        _ => Seq::empty(),
    }
}

/// The elements of a value, none where it is no array.
pub open spec fn as_items(v: JsonView) -> Seq<JsonView> {
    match v {
        JsonView::Array(items) => items,
        _ => Seq::empty(),
    }
}

/// Some texts, one after another.
pub open spec fn joined(texts: Seq<Seq<char>>) -> Seq<char>
    decreases texts.len(),
{
    if texts.len() == 0 {
        Seq::empty()
    } else {
        joined(texts.drop_last()) + texts.last()
    }
}

pub proof fn lemma_joined_one(text: Seq<char>)
    ensures
        joined(seq![text]) == text,
{
    assert(seq![text].drop_last() =~= Seq::empty());
    assert(joined(seq![text].drop_last()) =~= Seq::<char>::empty());
    assert(Seq::<char>::empty() + text =~= text);
}

} // verus!
