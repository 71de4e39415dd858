//! Namespaced provider extras.
use vstd::prelude::*;

use crate::json::{distinct_keys, entries_view, Json, JsonObject, JsonView};
use crate::util::{merge_objects, merged_objects};

verus! {

/// Provider extras by namespace, such as `"openai"` or `"anthropic"`.
#[derive(Debug, PartialEq)]
pub struct ProviderMetadata {
    namespaces: JsonObject,
}

/// What provider extras are: a value for each namespace.
pub type MetadataView = Map<Seq<char>, JsonView>;

/// No extras.
pub open spec fn no_metadata() -> MetadataView {
    Map::empty()
}

impl View for ProviderMetadata {
    type V = MetadataView;

    closed spec fn view(&self) -> MetadataView {
        self.namespaces@
    }
}

impl ProviderMetadata {
    /// No extras.
    pub fn new() -> (r: ProviderMetadata)
        ensures
            r@ == no_metadata(),
    {
        ProviderMetadata { namespaces: JsonObject::new() }
    }

    /// The extras of one namespace.
    pub fn with(namespace: &str, value: Json) -> (r: ProviderMetadata)
        ensures
            r@ == no_metadata().insert(namespace@, value@),
    {
        ProviderMetadata { namespaces: JsonObject::new().put(namespace, value) }
    }

    /// Whether there are no extras.
    pub fn is_empty(&self) -> (r: bool)
        ensures
            r == (self@ == no_metadata()),
    {
        self.namespaces.is_empty()
    }

    /// The extras of a namespace.
    pub fn get(&self, namespace: &str) -> (r: Option<&Json>)
        ensures
            match r {
                Some(v) => self@.contains_key(namespace@) && self@[namespace@] == v@,
                None => !self@.contains_key(namespace@),
            },
    {
        self.namespaces.get(namespace)
    }

    /// The extras of all namespaces, each with its namespace.
    pub fn entries(&self) -> (r: &Vec<(String, Json)>)
        ensures
            distinct_keys(r@),
            entries_view(r@) == self@,
    {
        self.namespaces.as_entries()
    }

    /// Sets the extras of a namespace.
    pub fn insert(&mut self, namespace: &str, value: Json)
        ensures
            final(self)@ == old(self)@.insert(namespace@, value@),
    {
        self.namespaces.insert(namespace.to_owned(), value);
    }

    /// Deep-merge later extras into these: objects are merged key by key, a
    /// null value removes its key, and anything else replaces what was there.
    pub fn merge(&mut self, later: ProviderMetadata)
        ensures
            final(self)@ == merge_objects(old(self)@, later@),
    {
        let mut before: JsonObject = JsonObject::new();
        std::mem::swap(&mut before, &mut self.namespaces);
        self.namespaces = merged_objects(before, later.namespaces);
    }
}

impl Clone for ProviderMetadata {
    fn clone(&self) -> (r: ProviderMetadata)
        ensures
            r@ == self@,
    {
        ProviderMetadata { namespaces: self.namespaces.clone() }
    }
}

impl Default for ProviderMetadata {
    fn default() -> (r: ProviderMetadata)
        ensures
            r@ == no_metadata(),
    {
        ProviderMetadata::new()
    }
}

} // verus!
