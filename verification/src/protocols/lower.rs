//! What every protocol makes of a request, and what their lowerings share.
use vstd::prelude::*;

use crate::json::{Json, JsonView};
use crate::metadata::MetadataView;
use crate::model::views;
use crate::response::{Warning, WarningView};
use crate::util::merge;

verus! {

broadcast use {crate::model::group_views, crate::json::array_view};

/// A request in its wire format: what to send, and where below the base URL.
#[derive(Debug)]
pub struct LoweredRequest {
    /// The path below the base URL.
    pub path: String,
    /// The query, by name and value.
    pub query: Vec<(String, String)>,
    /// The headers that the protocol sets, by name and value.
    pub headers: Vec<(String, String)>,
    pub body: Json,
    pub warnings: Vec<Warning>,
}

#[verifier::ext_equal]
pub struct LoweredView {
    pub path: Seq<char>,
    pub query: Seq<(Seq<char>, Seq<char>)>,
    pub headers: Seq<(Seq<char>, Seq<char>)>,
    pub body: JsonView,
    pub warnings: Seq<WarningView>,
}

impl View for LoweredRequest {
    type V = LoweredView;

    open spec fn view(&self) -> LoweredView {
        LoweredView {
            path: self.path@,
            query: views(self.query@),
            headers: views(self.headers@),
            body: self.body@,
            warnings: views(self.warnings@),
        }
    }
}

/// The options of a profile namespace, merged into a body.
pub open spec fn with_options(body: JsonView, options: MetadataView, namespace: Seq<char>) -> JsonView {
    if options.contains_key(namespace) {
        merge(body, options[namespace])
    } else {
        body
    }
}

/// A list of texts on the wire.
pub open spec fn texts_json(texts: Seq<Seq<char>>) -> JsonView {
    JsonView::Array(Seq::new(texts.len(), |i: int| JsonView::String(texts[i])))
}

/// A list of texts on the wire.
pub fn texts(list: &Vec<String>) -> (r: Json)
    ensures
        r@ == texts_json(views(list@)),
{
    let ghost all = views(list@);
    let mut items: Vec<Json> = Vec::new();
    let mut i: usize = 0;
    while i < list.len()
        invariant
            i <= list@.len(),
            all == views(list@),
            items@.len() == i,
            forall|k: int| 0 <= k < i ==> (#[trigger] items@[k])@ == JsonView::String(all[k]),
        decreases list@.len() - i,
    {
        items.push(Json::text(list[i].as_str()));
        i += 1;
    }
    assert(views(items@) =~= Seq::new(all.len(), |i: int| JsonView::String(all[i])));
    Json::Array(items)
}

/// A name and its value.
pub fn pair(name: &str, value: &str) -> (r: (String, String))
    ensures
        r@ == (name@, value@),
{
    (name.to_owned(), value.to_owned())
}

} // verus!
