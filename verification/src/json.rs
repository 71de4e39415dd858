//! JSON values.
//!
//! A [`Json`] is a tree of plain values. Its view, [`JsonView`], is the value
//! itself: an array is a sequence and an object is a map from keys to values.
//! Text is parsed and printed by `serde_json`.
use vstd::prelude::*;

use crate::model::{opt, views};
use crate::text::same;

verus! {

/// A JSON number that has a fraction or an exponent, or is out of the range of
/// the 64-bit integers. It always is finite.
#[derive(Debug)]
pub struct Float {
    value: serde_json::Value,
}

/// A JSON number.
#[derive(Debug)]
pub enum JsonNumber {
    /// An integer that is not negative.
    U(u64),
    /// An integer.
    I(i64),
    /// Any other number.
    F(Float),
}

/// A JSON value.
#[derive(Debug)]
pub enum Json {
    Null,
    Bool(bool),
    Number(JsonNumber),
    String(String),
    Array(Vec<Json>),
    Object(JsonObject),
}

/// A JSON object: values by key, each key at most once.
#[derive(Debug)]
pub struct JsonObject {
    entries: Vec<(String, Json)>,
}

/// What a JSON number is: an integer that is not negative, a negative integer,
/// or the shortest decimal notation of any other number.
pub enum NumberView {
    U(u64),
    I(i64),
    F(Seq<char>),
}

/// What a JSON value is.
pub enum JsonView {
    Null,
    Bool(bool),
    Number(NumberView),
    String(Seq<char>),
    Array(Seq<JsonView>),
    Object(Map<Seq<char>, JsonView>),
}

/// A `serde_json::Value`.
#[verifier::external_type_specification]
#[verifier::external_body]
pub struct ExValue(serde_json::Value);

/// What a `serde_json::Value` holds.
pub uninterp spec fn value_view(v: serde_json::Value) -> JsonView;

/// What `serde_json::from_str` makes of a text: the value, or the message of
/// the error.
pub uninterp spec fn json_parse(text: Seq<char>) -> Result<JsonView, Seq<char>>;

/// What `serde_json::from_slice` makes of bytes: the value, or the message of
/// the error.
pub uninterp spec fn json_parse_bytes(bytes: Seq<u8>) -> Result<JsonView, Seq<char>>;

/// The compact text that `serde_json` prints for a value.
pub uninterp spec fn json_text(v: JsonView) -> Seq<char>;

impl Float {
    #[verifier::type_invariant]
    spec fn is_float(self) -> bool {
        value_view(self.value) is Number && value_view(self.value)->Number_0 is F
    }
}

impl View for Float {
    type V = Seq<char>;

    closed spec fn view(&self) -> Seq<char> {
        value_view(self.value)->Number_0->F_0
    }
}

impl View for JsonNumber {
    type V = NumberView;

    open spec fn view(&self) -> NumberView {
        match *self {
            JsonNumber::U(n) => NumberView::U(n),
            JsonNumber::I(n) => if n >= 0 {
                NumberView::U(n as u64)
            } else {
                NumberView::I(n)
            },
            JsonNumber::F(f) => NumberView::F(f@),
        }
    }
}

/// The view of a JSON value.
pub open spec fn json_view(j: Json) -> JsonView
    decreases j,
{
    match j {
        Json::Null => JsonView::Null,
        Json::Bool(b) => JsonView::Bool(b),
        Json::Number(n) => JsonView::Number(n@),
        Json::String(s) => JsonView::String(s@),
        Json::Array(a) => JsonView::Array(
            Seq::new(
                a@.len(),
                |i: int|
                    if 0 <= i < a@.len() {
                        json_view(a@[i])
                    } else {
                        JsonView::Null
                    },
            ),
        ),
        Json::Object(o) => JsonView::Object(object_view(o)),
    }
}

/// The view of a JSON object.
pub closed spec fn object_view(o: JsonObject) -> Map<Seq<char>, JsonView>
    decreases o,
{
    entries_view(o.entries@)
}

/// The map that a list of entries makes: of entries with the same key the last
/// one counts.
pub open spec fn entries_view(s: Seq<(String, Json)>) -> Map<Seq<char>, JsonView>
    decreases s,
{
    if s.len() == 0 {
        Map::empty()
    } else {
        entries_view(s.drop_last()).insert(s.last().0@, json_view(s.last().1))
    }
}

/// Whether no key stands twice in a list of entries.
pub open spec fn distinct_keys<T>(s: Seq<(String, T)>) -> bool {
    forall|i: int, j: int| 0 <= i < j < s.len() ==> #[trigger] s[i].0@ != #[trigger] s[j].0@
}

impl View for Json {
    type V = JsonView;

    open spec fn view(&self) -> JsonView {
        json_view(*self)
    }
}

impl View for JsonObject {
    type V = Map<Seq<char>, JsonView>;

    open spec fn view(&self) -> Map<Seq<char>, JsonView> {
        object_view(*self)
    }
}

/// An array's view is made of its elements' views.
pub broadcast proof fn array_view(a: Vec<Json>)
    ensures
        #[trigger] json_view(Json::Array(a)) == JsonView::Array(views(a@)),
{
    assert(json_view(Json::Array(a))->Array_0 =~= views(a@));
}

/// An entry of a list with distinct keys is in the list's map.
pub proof fn lemma_entry(s: Seq<(String, Json)>, i: int)
    requires
        0 <= i < s.len(),
        distinct_keys(s),
    ensures
        entries_view(s).contains_key(s[i].0@),
        entries_view(s)[s[i].0@] == s[i].1@,
    decreases s.len(),
{
    let t = s.drop_last();
    if i < s.len() - 1 {
        assert forall|j: int, k: int| 0 <= j < k < t.len() implies #[trigger] t[j].0@
            != #[trigger] t[k].0@ by {
            assert(s[j].0@ != s[k].0@);
        }
        lemma_entry(t, i);
        assert(s[i].0@ != s[s.len() - 1].0@);
    }
}

/// A key of the map is the key of some entry.
pub proof fn lemma_key(s: Seq<(String, Json)>, k: Seq<char>) -> (i: int)
    requires
        entries_view(s).contains_key(k),
    ensures
        0 <= i < s.len(),
        s[i].0@ == k,
    decreases s.len(),
{
    if s.last().0@ == k {
        s.len() - 1
    } else {
        lemma_key(s.drop_last(), k)
    }
}

/// The map of a list of entries is finite.
pub proof fn lemma_entries_finite(s: Seq<(String, Json)>)
    ensures
        entries_view(s).dom().finite(),
    decreases s.len(),
{
    if s.len() > 0 {
        lemma_entries_finite(s.drop_last());
    }
}

/// Replacing the value of one entry of a list with distinct keys.
proof fn lemma_update(s: Seq<(String, Json)>, i: int, x: (String, Json))
    requires
        0 <= i < s.len(),
        distinct_keys(s),
        x.0@ == s[i].0@,
    ensures
        distinct_keys(s.update(i, x)),
        entries_view(s.update(i, x)) == entries_view(s).insert(x.0@, x.1@),
    decreases s.len(),
{
    let u = s.update(i, x);
    assert forall|j: int, k: int| 0 <= j < k < u.len() implies #[trigger] u[j].0@
        != #[trigger] u[k].0@ by {
        assert(s[j].0@ != s[k].0@);
    }
    let t = s.drop_last();
    if i == s.len() - 1 {
        assert(u.drop_last() =~= t);
        assert(entries_view(u) =~= entries_view(s).insert(x.0@, x.1@));
    } else {
        assert forall|j: int, k: int| 0 <= j < k < t.len() implies #[trigger] t[j].0@
            != #[trigger] t[k].0@ by {
            assert(s[j].0@ != s[k].0@);
        }
        lemma_update(t, i, x);
        assert(u.drop_last() =~= t.update(i, x));
        assert(s[i].0@ != s[s.len() - 1].0@);
        assert(entries_view(u) =~= entries_view(s).insert(x.0@, x.1@));
    }
}

/// Removing one entry of a list with distinct keys.
proof fn lemma_remove(s: Seq<(String, Json)>, i: int)
    requires
        0 <= i < s.len(),
        distinct_keys(s),
    ensures
        distinct_keys(s.remove(i)),
        entries_view(s.remove(i)) == entries_view(s).remove(s[i].0@),
    decreases s.len(),
{
    let u = s.remove(i);
    assert forall|j: int, k: int| 0 <= j < k < u.len() implies #[trigger] u[j].0@
        != #[trigger] u[k].0@ by {
        let a = if j < i { j } else { j + 1 };
        let b = if k < i { k } else { k + 1 };
        assert(s[a].0@ != s[b].0@);
    }
    let t = s.drop_last();
    if i == s.len() - 1 {
        assert(u =~= t);
        if entries_view(t).contains_key(s[i].0@) {
            let j = lemma_key(t, s[i].0@);
            assert(s[j].0@ != s[i].0@);
        }
        assert(entries_view(u) =~= entries_view(s).remove(s[i].0@));
    } else {
        assert forall|j: int, k: int| 0 <= j < k < t.len() implies #[trigger] t[j].0@
            != #[trigger] t[k].0@ by {
            assert(s[j].0@ != s[k].0@);
        }
        lemma_remove(t, i);
        assert(u.drop_last() =~= t.remove(i));
        assert(u.last() == s.last());
        assert(s[i].0@ != s[s.len() - 1].0@);
        assert(entries_view(u) =~= entries_view(s).remove(s[i].0@));
    }
}

impl JsonObject {
    #[verifier::type_invariant]
    spec fn keys_are_distinct(self) -> bool {
        distinct_keys(self.entries@)
    }

    /// An object without entries.
    pub fn new() -> (r: JsonObject)
        ensures
            r@ == Map::<Seq<char>, JsonView>::empty(),
    {
        JsonObject { entries: Vec::new() }
    }

    /// The position of a key.
    fn position(&self, key: &str) -> (r: Option<usize>)
        ensures
            match r {
                Some(i) => i < self.entries@.len() && self.entries@[i as int].0@ == key@
                    && self@.contains_key(key@) && self@[key@] == self.entries@[i as int].1@,
                None => !self@.contains_key(key@),
            },
    {
        proof {
            use_type_invariant(self);
        }
        let mut i: usize = 0;
        while i < self.entries.len()
            invariant
                i <= self.entries@.len(),
                distinct_keys(self.entries@),
                forall|j: int| 0 <= j < i ==> #[trigger] self.entries@[j].0@ != key@,
            decreases self.entries@.len() - i,
        {
            if same(self.entries[i].0.as_str(), key) {
                proof {
                    lemma_entry(self.entries@, i as int);
                }
                return Some(i);
            }
            i += 1;
        }
        proof {
            if self@.contains_key(key@) {
                let j = lemma_key(self.entries@, key@);
                assert(self.entries@[j].0@ != key@);
            }
        }
        None
    }

    /// The value of a key.
    pub fn get(&self, key: &str) -> (r: Option<&Json>)
        ensures
            match r {
                Some(v) => self@.contains_key(key@) && self@[key@] == v@,
                None => !self@.contains_key(key@),
            },
            r matches Some(v) ==> decreases_to!(*self => *v),
    {
        match self.position(key) {
            Some(i) => {
                assert(decreases_to!(*self => self.entries@[i as int]));
                Some(&self.entries[i].1)
            },
            None => None,
        }
    }

    /// Whether a key has a value.
    pub fn contains_key(&self, key: &str) -> (r: bool)
        ensures
            r == self@.contains_key(key@),
    {
        self.position(key).is_some()
    }

    /// Whether the object has no entries.
    pub fn is_empty(&self) -> (r: bool)
        ensures
            r == (self@ == Map::<Seq<char>, JsonView>::empty()),
    {
        proof {
            use_type_invariant(self);
            if self.entries@.len() > 0 {
                lemma_entry(self.entries@, 0);
                assert(!Map::<Seq<char>, JsonView>::empty().contains_key(self.entries@[0].0@));
            }
        }
        self.entries.len() == 0
    }

    /// Gives a key a value, in place of the one it had.
    pub fn insert(&mut self, key: String, value: Json)
        ensures
            final(self)@ == old(self)@.insert(key@, value@),
    {
        let found: Option<usize> = self.position(key.as_str());
        proof {
            use_type_invariant(&*self);
        }
        let mut entries: Vec<(String, Json)> = Vec::new();
        std::mem::swap(&mut entries, &mut self.entries);
        let ghost before = entries@;
        match found {
            Some(i) => {
                proof {
                    lemma_update(before, i as int, (key, value));
                }
                entries.set(i, (key, value));
            },
            None => {
                proof {
                    assert forall|j: int| 0 <= j < before.len() implies #[trigger] before[j].0@
                        != key@ by {
                        lemma_entry(before, j);
                    }
                    assert(before.push((key, value)).drop_last() =~= before);
                }
                entries.push((key, value));
            },
        }
        self.entries = entries;
    }

    /// Takes a key and its value out of the object.
    pub fn remove(&mut self, key: &str) -> (r: Option<Json>)
        ensures
            final(self)@ == old(self)@.remove(key@),
            match r {
                Some(v) => old(self)@.contains_key(key@) && old(self)@[key@] == v@,
                None => !old(self)@.contains_key(key@),
            },
    {
        match self.position(key) {
            Some(i) => {
                proof {
                    use_type_invariant(&*self);
                    lemma_remove(self.entries@, i as int);
                }
                let mut entries: Vec<(String, Json)> = Vec::new();
                std::mem::swap(&mut entries, &mut self.entries);
                let (_, value) = entries.remove(i);
                self.entries = entries;
                Some(value)
            },
            None => {
                assert(self@.remove(key@) =~= self@);
                None
            },
        }
    }

    /// The object with one more value.
    pub fn put(self, key: &str, value: Json) -> (r: JsonObject)
        ensures
            r@ == self@.insert(key@, value@),
    {
        let mut r: JsonObject = self;
        r.insert(key.to_owned(), value);
        r
    }

    /// The object with one more member, where there is one.
    pub fn put_opt(self, key: &str, value: Option<Json>) -> (r: JsonObject)
        ensures
            r@ == with_member(self@, key@, opt(value)),
    {
        match value {
            Some(v) => self.put(key, v),
            None => self,
        }
    }

    /// The entries of the object.
    pub fn into_entries(self) -> (r: Vec<(String, Json)>)
        ensures
            distinct_keys(r@),
            entries_view(r@) == self@,
            decreases_to!(self => r@),
    {
        proof {
            use_type_invariant(&self);
            assert(decreases_to!(self => self.entries));
            assert(decreases_to!(self.entries => self.entries@));
        }
        self.entries
    }

    /// The entries of the object, by reference.
    pub fn as_entries(&self) -> (r: &Vec<(String, Json)>)
        ensures
            distinct_keys(r@),
            entries_view(r@) == self@,
            decreases_to!(*self => r@),
    {
        proof {
            use_type_invariant(self);
            assert(decreases_to!(*self => self.entries));
            assert(decreases_to!(self.entries => self.entries@));
        }
        &self.entries
    }

    /// An object with the given entries.
    pub fn from_entries(entries: Vec<(String, Json)>) -> (r: JsonObject)
        requires
            distinct_keys(entries@),
        ensures
            r@ == entries_view(entries@),
    {
        JsonObject { entries }
    }
}

/// One level of a `serde_json::Value`.
enum Node {
    Null,
    Bool(bool),
    Number { unsigned: Option<u64>, signed: Option<i64>, text: String, value: serde_json::Value },
    String(String),
    Array(Vec<serde_json::Value>),
    Object(Vec<(String, serde_json::Value)>),
}

/// What a number is that reads as the given integers and prints as the given
/// text.
spec fn number_of(unsigned: Option<u64>, signed: Option<i64>, text: Seq<char>) -> NumberView {
    match unsigned {
        Some(n) => NumberView::U(n),
        None => match signed {
            Some(n) => if n >= 0 {
                NumberView::U(n as u64)
            } else {
                NumberView::I(n)
            },
            None => NumberView::F(text),
        },
    }
}

/// The map that entries with `serde_json` values make.
spec fn value_entries_view(s: Seq<(String, serde_json::Value)>) -> Map<Seq<char>, JsonView>
    decreases s.len(),
{
    if s.len() == 0 {
        Map::empty()
    } else {
        value_entries_view(s.drop_last()).insert(s.last().0@, value_view(s.last().1))
    }
}

/// The views of `serde_json` values.
spec fn value_views(s: Seq<serde_json::Value>) -> Seq<JsonView> {
    Seq::new(s.len(), |i: int| value_view(s[i]))
}

/// What the value of one level is.
spec fn node_view(node: Node) -> JsonView {
    match node {
        Node::Null => JsonView::Null,
        Node::Bool(b) => JsonView::Bool(b),
        Node::Number { value, .. } => value_view(value),
        Node::String(s) => JsonView::String(s@),
        Node::Array(a) => JsonView::Array(value_views(a@)),
        Node::Object(o) => JsonView::Object(value_entries_view(o@)),
    }
}

/// `serde_json::from_str`, to a `serde_json::Value`: the result is a function
/// of the text, and an error is kept as its message.
#[verifier::external_body]
fn value_parse(text: &str) -> (r: Result<serde_json::Value, String>)
    ensures
        match r {
            Ok(v) => json_parse(text@) == Ok::<JsonView, Seq<char>>(value_view(v)),
            Err(e) => json_parse(text@) == Err::<JsonView, Seq<char>>(e@),
        },
{
    serde_json::from_str::<serde_json::Value>(text).map_err(|e| e.to_string())
}

/// `serde_json::from_slice`, to a `serde_json::Value`: the result is a function
/// of the bytes, and an error is kept as its message.
#[verifier::external_body]
fn value_parse_bytes(bytes: &[u8]) -> (r: Result<serde_json::Value, String>)
    ensures
        match r {
            Ok(v) => json_parse_bytes(bytes@) == Ok::<JsonView, Seq<char>>(value_view(v)),
            Err(e) => json_parse_bytes(bytes@) == Err::<JsonView, Seq<char>>(e@),
        },
{
    serde_json::from_slice::<serde_json::Value>(bytes).map_err(|e| e.to_string())
}

/// Opens the variants of `serde_json::Value`. A number is read with
/// `Number::as_u64` and `Number::as_i64` and printed with its `Display`; that
/// these tell what the number is, and that no key of an object stands twice, is
/// what the contract claims.
#[verifier::external_body]
fn value_open(v: serde_json::Value) -> (r: Node)
    ensures
        node_view(r) == value_view(v),
        r matches Node::Number { unsigned, signed, text, .. } ==> value_view(v)
            == JsonView::Number(number_of(unsigned, signed, text@)),
        r matches Node::Object(o) ==> distinct_keys(o@),
{
    match v {
        serde_json::Value::Null => Node::Null,
        serde_json::Value::Bool(b) => Node::Bool(b),
        serde_json::Value::Number(n) => Node::Number {
            unsigned: n.as_u64(),
            signed: n.as_i64(),
            text: n.to_string(),
            value: serde_json::Value::Number(n),
        },
        serde_json::Value::String(s) => Node::String(s),
        serde_json::Value::Array(a) => Node::Array(a),
        serde_json::Value::Object(o) => Node::Object(o.into_iter().collect()),
    }
}

/// Builds a `serde_json::Value` of one level: the variant with the given
/// contents.
#[verifier::external_body]
fn value_close(node: Node) -> (r: serde_json::Value)
    requires
        node matches Node::Object(o) ==> distinct_keys(o@),
    ensures
        value_view(r) == node_view(node),
{
    match node {
        Node::Null => serde_json::Value::Null,
        Node::Bool(b) => serde_json::Value::Bool(b),
        Node::Number { value, .. } => value,
        Node::String(s) => serde_json::Value::String(s),
        Node::Array(a) => serde_json::Value::Array(a),
        Node::Object(o) => serde_json::Value::Object(o.into_iter().collect()),
    }
}

/// `serde_json::Value::from` on a `u64` is that number.
#[verifier::external_body]
fn value_unsigned(n: u64) -> (r: serde_json::Value)
    ensures
        value_view(r) == JsonView::Number(NumberView::U(n)),
{
    serde_json::Value::from(n)
}

/// `serde_json::Value::from` on an `i64` is that number.
#[verifier::external_body]
fn value_signed(n: i64) -> (r: serde_json::Value)
    ensures
        value_view(r) == JsonView::Number(
            if n >= 0 {
                NumberView::U(n as u64)
            } else {
                NumberView::I(n)
            },
        ),
{
    serde_json::Value::from(n)
}

/// `serde_json::Value::clone` gives an equal value.
#[verifier::external_body]
fn value_clone(v: &serde_json::Value) -> (r: serde_json::Value)
    ensures
        value_view(r) == value_view(*v),
{
    v.clone()
}

/// The `Display` of `serde_json::Value` prints compact JSON text, a function of
/// the value.
#[verifier::external_body]
fn value_text(v: &serde_json::Value) -> (r: String)
    ensures
        r@ == json_text(value_view(*v)),
{
    v.to_string()
}

impl Float {
    /// The float that a `serde_json::Value` is, if it is one.
    pub fn from_value(value: serde_json::Value) -> (r: Option<Float>)
        ensures
            match r {
                Some(f) => value_view(value) == JsonView::Number(NumberView::F(f@)),
                None => !(value_view(value) matches JsonView::Number(NumberView::F(_))),
            },
    {
        let value_copy = value_clone(&value);
        match value_open(value) {
            Node::Number { unsigned, signed, text, value: _ } => {
                if unsigned.is_none() && signed.is_none() {
                    Some(Float { value: value_copy })
                } else {
                    None
                }
            },
            _ => None,
        }
    }

    /// The float that a JSON text is, if it is one.
    pub fn parse(text: &str) -> (r: Option<Float>)
        ensures
            match r {
                Some(f) => json_parse(text@) == Ok::<JsonView, Seq<char>>(
                    JsonView::Number(NumberView::F(f@)),
                ),
                None => !(json_parse(text@) matches Ok(JsonView::Number(NumberView::F(_)))),
            },
    {
        match value_parse(text) {
            Ok(value) => Float::from_value(value),
            Err(_) => None,
        }
    }

    /// The shortest decimal notation of the number.
    pub fn text(&self) -> (r: String)
        ensures
            r@ == self@,
    {
        proof {
            use_type_invariant(self);
        }
        match value_open(value_clone(&self.value)) {
            Node::Number { unsigned, signed, text, value: _ } => text,
            _ => String::new(),
        }
    }
}

impl Clone for Float {
    fn clone(&self) -> (r: Float)
        ensures
            r@ == self@,
    {
        proof {
            use_type_invariant(self);
        }
        Float { value: value_clone(&self.value) }
    }
}

impl Clone for JsonNumber {
    fn clone(&self) -> (r: JsonNumber)
        ensures
            r@ == self@,
    {
        match self {
            JsonNumber::U(n) => JsonNumber::U(*n),
            JsonNumber::I(n) => JsonNumber::I(*n),
            JsonNumber::F(f) => JsonNumber::F(f.clone()),
        }
    }
}

fn clone_json(j: &Json) -> (r: Json)
    ensures
        r@ == j@,
    decreases j,
{
    broadcast use {crate::model::group_views, array_view};

    match j {
        Json::Null => Json::Null,
        Json::Bool(b) => Json::Bool(*b),
        Json::Number(n) => Json::Number(n.clone()),
        Json::String(s) => Json::String(s.clone()),
        Json::Array(a) => {
            let mut r: Vec<Json> = Vec::new();
            let mut i: usize = 0;
            while i < a.len()
                invariant
                    i <= a@.len(),
                    decreases_to!(*j => *a),
                    views(r@) == views(a@).take(i as int),
                decreases a@.len() - i,
            {
                assert(decreases_to!(*a => a@[i as int]));
                r.push(clone_json(&a[i]));
                assert(views(a@).take(i + 1) =~= views(a@).take(i as int).push(a@[i as int]@));
                i += 1;
            }
            assert(views(a@).take(i as int) =~= views(a@));
            Json::Array(r)
        },
        Json::Object(o) => Json::Object(clone_object(o)),
    }
}

fn clone_object(o: &JsonObject) -> (r: JsonObject)
    ensures
        r@ == o@,
    decreases o,
{
    let entries: &Vec<(String, Json)> = o.as_entries();
    let mut r: Vec<(String, Json)> = Vec::new();
    let mut i: usize = 0;
    while i < entries.len()
        invariant
            i <= entries@.len(),
            decreases_to!(*o => entries@),
            r@.len() == i,
            distinct_keys(entries@),
            forall|k: int| 0 <= k < i ==> (#[trigger] r@[k]).0@ == entries@[k].0@,
            entries_view(r@) == entries_view(entries@.take(i as int)),
        decreases entries@.len() - i,
    {
        assert(decreases_to!(entries@ => entries@[i as int]));
        let value: Json = clone_json(&entries[i].1);
        let ghost before = r@;
        r.push((entries[i].0.clone(), value));
        assert(r@.drop_last() =~= before);
        assert(entries@.take(i + 1).drop_last() =~= entries@.take(i as int));
        i += 1;
    }
    assert(entries@.take(i as int) =~= entries@);
    assert forall|j: int, k: int| 0 <= j < k < r@.len() implies #[trigger] r@[j].0@
        != #[trigger] r@[k].0@ by {
        assert(entries@[j].0@ != entries@[k].0@);
    }
    JsonObject::from_entries(r)
}

impl Clone for Json {
    fn clone(&self) -> (r: Json)
        ensures
            r@ == self@,
    {
        clone_json(self)
    }
}

impl Clone for JsonObject {
    fn clone(&self) -> (r: JsonObject)
        ensures
            r@ == self@,
    {
        clone_object(self)
    }
}

/// Turns a `serde_json::Value` into the value of this library that it is.
pub fn from_value(v: serde_json::Value) -> (r: Json)
    ensures
        r@ == value_view(v),
    decreases value_view(v),
{
    broadcast use {crate::model::group_views, array_view};

    match value_open(v) {
        Node::Null => Json::Null,
        Node::Bool(b) => Json::Bool(b),
        Node::Number { unsigned, signed, text, value } => {
            match unsigned {
                Some(n) => Json::Number(JsonNumber::U(n)),
                None => match signed {
                    Some(n) => Json::Number(JsonNumber::I(n)),
                    None => Json::Number(JsonNumber::F(Float { value })),
                },
            }
        },
        Node::String(s) => Json::String(s),
        Node::Array(a) => {
            let ghost all = a@;
            let mut r: Vec<Json> = Vec::new();
            for x in it: a.into_iter()
                invariant
                    value_view(v) == JsonView::Array(value_views(all)),
                    it.seq() == all,
                    views(r@) == value_views(all).take(it.index() as int),
            {
                assert(x == all[it.index() as int]);
                assert(value_views(all)[it.index() as int] == value_view(x));
                assert(decreases_to!(value_view(v) => value_view(v)->Array_0));
                assert(decreases_to!(value_views(all) => value_views(all)[it.index() as int]));
                r.push(from_value(x));
                assert(value_views(all).take(it.index() + 1) =~= value_views(all).take(
                    it.index() as int,
                ).push(value_view(x)));
            }
            assert(value_views(all).take(all.len() as int) =~= value_views(all));
            Json::Array(r)
        },
        Node::Object(o) => {
            let ghost all = o@;
            let mut r: Vec<(String, Json)> = Vec::new();
            proof {
                lemma_value_entries_finite(all);
            }
            for x in it: o.into_iter()
                invariant
                    value_view(v) == JsonView::Object(value_entries_view(all)),
                    it.seq() == all,
                    distinct_keys(all),
                    value_entries_view(all).dom().finite(),
                    r@.len() == it.index(),
                    forall|k: int| 0 <= k < r@.len() ==> (#[trigger] r@[k]).0@ == all[k].0@,
                    entries_view(r@) == value_entries_view(all.take(it.index() as int)),
            {
                let ghost before = r@;
                let ghost n = it.index() as int;
                assert(x == all[n]);
                proof {
                    lemma_value_entry(all, n);
                }
                assert(decreases_to!(value_view(v) => value_view(v)->Object_0));
                assert(decreases_to!(value_entries_view(all) => value_entries_view(all)[all[n].0@]));
                let (key, value) = x;
                r.push((key, from_value(value)));
                assert(r@.drop_last() =~= before);
                assert(all.take(n + 1).drop_last() =~= all.take(n));
            }
            assert(all.take(all.len() as int) =~= all);
            assert forall|j: int, k: int| 0 <= j < k < r@.len() implies #[trigger] r@[j].0@
                != #[trigger] r@[k].0@ by {
                assert(all[j].0@ != all[k].0@);
            }
            Json::Object(JsonObject::from_entries(r))
        },
    }
}

proof fn lemma_value_entries_finite(s: Seq<(String, serde_json::Value)>)
    ensures
        value_entries_view(s).dom().finite(),
    decreases s.len(),
{
    if s.len() > 0 {
        lemma_value_entries_finite(s.drop_last());
    }
}

proof fn lemma_value_entry(s: Seq<(String, serde_json::Value)>, i: int)
    requires
        0 <= i < s.len(),
        distinct_keys(s),
    ensures
        value_entries_view(s).contains_key(s[i].0@),
        value_entries_view(s)[s[i].0@] == value_view(s[i].1),
    decreases s.len(),
{
    let t = s.drop_last();
    if i < s.len() - 1 {
        assert forall|j: int, k: int| 0 <= j < k < t.len() implies #[trigger] t[j].0@
            != #[trigger] t[k].0@ by {
            assert(s[j].0@ != s[k].0@);
        }
        lemma_value_entry(t, i);
        assert(s[i].0@ != s[s.len() - 1].0@);
    }
}

/// Turns a value into the `serde_json::Value` that it is.
pub fn to_value(j: &Json) -> (r: serde_json::Value)
    ensures
        value_view(r) == j@,
    decreases j,
{
    broadcast use {crate::model::group_views, array_view};

    match j {
        Json::Null => value_close(Node::Null),
        Json::Bool(b) => value_close(Node::Bool(*b)),
        Json::Number(n) => match n {
            JsonNumber::U(n) => value_unsigned(*n),
            JsonNumber::I(n) => value_signed(*n),
            JsonNumber::F(f) => {
                proof {
                    use_type_invariant(f);
                }
                value_clone(&f.value)
            },
        },
        Json::String(s) => value_close(Node::String(s.clone())),
        Json::Array(a) => {
            let mut r: Vec<serde_json::Value> = Vec::new();
            let mut i: usize = 0;
            while i < a.len()
                invariant
                    i <= a@.len(),
                    decreases_to!(*j => *a),
                    value_views(r@) == views(a@).take(i as int),
                decreases a@.len() - i,
            {
                assert(decreases_to!(*a => a@[i as int]));
                let ghost before = r@;
                r.push(to_value(&a[i]));
                assert(value_views(r@) =~= value_views(before).push(a@[i as int]@));
                assert(views(a@).take(i + 1) =~= views(a@).take(i as int).push(a@[i as int]@));
                i += 1;
            }
            assert(views(a@).take(i as int) =~= views(a@));
            value_close(Node::Array(r))
        },
        Json::Object(o) => {
            let entries: &Vec<(String, Json)> = o.as_entries();
            let mut r: Vec<(String, serde_json::Value)> = Vec::new();
            let mut i: usize = 0;
            assert(decreases_to!(*j => *o));
            while i < entries.len()
                invariant
                    i <= entries@.len(),
                    decreases_to!(*j => *o),
                    decreases_to!(*o => entries@),
                    r@.len() == i,
                    distinct_keys(entries@),
                    forall|k: int| 0 <= k < i ==> (#[trigger] r@[k]).0@ == entries@[k].0@,
                    value_entries_view(r@) == entries_view(entries@.take(i as int)),
                decreases entries@.len() - i,
            {
                assert(decreases_to!(entries@ => entries@[i as int]));
                let value: serde_json::Value = to_value(&entries[i].1);
                let ghost before = r@;
                r.push((entries[i].0.clone(), value));
                assert(r@.drop_last() =~= before);
                assert(entries@.take(i + 1).drop_last() =~= entries@.take(i as int));
                i += 1;
            }
            assert(entries@.take(i as int) =~= entries@);
            assert forall|j: int, k: int| 0 <= j < k < r@.len() implies #[trigger] r@[j].0@
                != #[trigger] r@[k].0@ by {
                assert(entries@[j].0@ != entries@[k].0@);
            }
            value_close(Node::Object(r))
        },
    }
}

impl Json {
    /// Parses a JSON text.
    pub fn parse(text: &str) -> (r: Result<Json, String>)
        ensures
            match r {
                Ok(v) => json_parse(text@) == Ok::<JsonView, Seq<char>>(v@),
                Err(e) => json_parse(text@) == Err::<JsonView, Seq<char>>(e@),
            },
    {
        match value_parse(text) {
            Ok(v) => Ok(from_value(v)),
            Err(e) => Err(e),
        }
    }

    /// Parses JSON bytes.
    pub fn parse_bytes(bytes: &[u8]) -> (r: Result<Json, String>)
        ensures
            match r {
                Ok(v) => json_parse_bytes(bytes@) == Ok::<JsonView, Seq<char>>(v@),
                Err(e) => json_parse_bytes(bytes@) == Err::<JsonView, Seq<char>>(e@),
            },
    {
        match value_parse_bytes(bytes) {
            Ok(v) => Ok(from_value(v)),
            Err(e) => Err(e),
        }
    }

    /// Prints the value as compact JSON text.
    pub fn to_text(&self) -> (r: String)
        ensures
            r@ == json_text(self@),
    {
        value_text(&to_value(self))
    }

    /// A text as a JSON value.
    pub fn text(s: &str) -> (r: Json)
        ensures
            r@ == JsonView::String(s@),
    {
        Json::String(s.to_owned())
    }

    /// A number as a JSON value.
    pub fn number(n: u64) -> (r: Json)
        ensures
            r@ == JsonView::Number(NumberView::U(n)),
    {
        Json::Number(JsonNumber::U(n))
    }

    /// A text as a JSON value, where there is one.
    pub fn text_opt(s: Option<&str>) -> (r: Option<Json>)
        ensures
            opt(r) == text_value(opt(s)),
    {
        match s {
            Some(s) => Some(Json::text(s)),
            None => None,
        }
    }

    /// An array of one value.
    pub fn one(value: Json) -> (r: Json)
        ensures
            r@ == JsonView::Array(seq![value@]),
    {
        broadcast use {crate::model::group_views, array_view};

        let mut items: Vec<Json> = Vec::new();
        items.push(value);
        assert(views(items@) =~= seq![value@]);
        Json::Array(items)
    }

    /// Whether the value is null.
    pub fn is_null(&self) -> (r: bool)
        ensures
            r == (self@ is Null),
    {
        matches!(self, Json::Null)
    }

    /// The text, if the value is one.
    pub fn as_str(&self) -> (r: Option<&str>)
        ensures
            opt(r) == str_of(self@),
    {
        match self {
            Json::String(s) => Some(s.as_str()),
            _ => None,
        }
    }

    /// The number, if the value is an integer that is not negative and fits.
    pub fn as_u64(&self) -> (r: Option<u64>)
        ensures
            r == u64_of(self@),
    {
        match self {
            Json::Number(JsonNumber::U(n)) => Some(*n),
            Json::Number(JsonNumber::I(n)) => if *n >= 0 {
                Some(*n as u64)
            } else {
                None
            },
            _ => None,
        }
    }

    /// The truth value, if the value is one.
    pub fn as_bool(&self) -> (r: Option<bool>)
        ensures
            r == bool_of(self@),
    {
        match self {
            Json::Bool(b) => Some(*b),
            _ => None,
        }
    }

    /// The elements, if the value is an array.
    pub fn as_array(&self) -> (r: Option<&Vec<Json>>)
        ensures
            match r {
                Some(a) => self@ == JsonView::Array(views(a@)),
                None => !(self@ is Array),
            },
            r matches Some(a) ==> decreases_to!(*self => *a),
    {
        broadcast use {crate::model::group_views, array_view};

        match self {
            Json::Array(a) => Some(a),
            _ => None,
        }
    }

    /// The value of a key, if the value is an object that has it.
    pub fn get(&self, key: &str) -> (r: Option<&Json>)
        ensures
            opt(r) == field(self@, key@),
            r matches Some(v) ==> decreases_to!(*self => *v),
    {
        match self {
            Json::Object(o) => {
                assert(decreases_to!(*self => *o));
                o.get(key)
            },
            _ => None,
        }
    }
}

/// An object without members.
pub open spec fn no_members() -> Map<Seq<char>, JsonView> {
    Map::empty()
}

/// An object with one more member, where there is one.
pub open spec fn with_member(
    o: Map<Seq<char>, JsonView>,
    key: Seq<char>,
    value: Option<JsonView>,
) -> Map<Seq<char>, JsonView> {
    match value {
        Some(v) => o.insert(key, v),
        None => o,
    }
}

/// A text as a JSON value, where there is one.
pub open spec fn text_value(s: Option<Seq<char>>) -> Option<JsonView> {
    match s {
        Some(s) => Some(JsonView::String(s)),
        None => None,
    }
}

/// The text that a value is.
pub open spec fn str_of(v: JsonView) -> Option<Seq<char>> {
    match v {
        JsonView::String(s) => Some(s),
        _ => None,
    }
}

/// The integer that a value is, where it is not negative and fits.
pub open spec fn u64_of(v: JsonView) -> Option<u64> {
    match v {
        JsonView::Number(NumberView::U(n)) => Some(n),
        _ => None,
    }
}

/// The truth value that a value is.
pub open spec fn bool_of(v: JsonView) -> Option<bool> {
    match v {
        JsonView::Bool(b) => Some(b),
        _ => None,
    }
}

/// The value of a key of an object; other values have no keys.
pub open spec fn field(v: JsonView, key: Seq<char>) -> Option<JsonView> {
    match v {
        JsonView::Object(m) => if m.contains_key(key) {
            Some(m[key])
        } else {
            None
        },
        _ => None,
    }
}

/// The text of a key of an object.
pub open spec fn str_field(v: JsonView, key: Seq<char>) -> Option<Seq<char>> {
    match field(v, key) {
        Some(x) => str_of(x),
        None => None,
    }
}

/// A list of entries with distinct keys makes a map of as many keys.
proof fn lemma_entries_len(s: Seq<(String, Json)>)
    requires
        distinct_keys(s),
    ensures
        entries_view(s).dom().finite(),
        entries_view(s).dom().len() == s.len(),
    decreases s.len(),
{
    if s.len() > 0 {
        let t = s.drop_last();
        assert forall|j: int, k: int| 0 <= j < k < t.len() implies #[trigger] t[j].0@
            != #[trigger] t[k].0@ by {
            assert(s[j].0@ != s[k].0@);
        }
        lemma_entries_len(t);
        if entries_view(t).contains_key(s.last().0@) {
            let j = lemma_key(t, s.last().0@);
            assert(s[j].0@ != s[s.len() - 1].0@);
        }
    }
}

fn same_json(a: &Json, b: &Json) -> (r: bool)
    ensures
        r == (a@ == b@),
    decreases a,
{
    broadcast use {crate::model::group_views, array_view};

    match (a, b) {
        (Json::Null, Json::Null) => true,
        (Json::Bool(x), Json::Bool(y)) => *x == *y,
        (Json::Number(x), Json::Number(y)) => same_number(x, y),
        (Json::String(x), Json::String(y)) => same(x.as_str(), y.as_str()),
        (Json::Array(x), Json::Array(y)) => {
            if x.len() != y.len() {
                assert(views(x@).len() != views(y@).len());
                return false;
            }
            let mut i: usize = 0;
            while i < x.len()
                invariant
                    i <= x@.len(),
                    x@.len() == y@.len(),
                    a@ == JsonView::Array(views(x@)),
                    b@ == JsonView::Array(views(y@)),
                    decreases_to!(*a => *x),
                    forall|k: int| 0 <= k < i ==> views(x@)[k] == views(y@)[k],
                decreases x@.len() - i,
            {
                assert(decreases_to!(*x => x@[i as int]));
                if !same_json(&x[i], &y[i]) {
                    assert(views(x@)[i as int] != views(y@)[i as int]);
                    return false;
                }
                i += 1;
            }
            assert(views(x@) =~= views(y@));
            true
        },
        (Json::Object(x), Json::Object(y)) => same_object(x, y),
        _ => false,
    }
}

fn same_number(a: &JsonNumber, b: &JsonNumber) -> (r: bool)
    ensures
        r == (a@ == b@),
{
    match (a, b) {
        (JsonNumber::U(x), JsonNumber::U(y)) => *x == *y,
        (JsonNumber::I(x), JsonNumber::I(y)) => *x == *y,
        (JsonNumber::U(x), JsonNumber::I(y)) => *y >= 0 && *x == *y as u64,
        (JsonNumber::I(x), JsonNumber::U(y)) => *x >= 0 && *y == *x as u64,
        (JsonNumber::F(x), JsonNumber::F(y)) => same(x.text().as_str(), y.text().as_str()),
        _ => false,
    }
}

fn same_object(a: &JsonObject, b: &JsonObject) -> (r: bool)
    ensures
        r == (a@ == b@),
    decreases a,
{
    let x: &Vec<(String, Json)> = a.as_entries();
    let y: &Vec<(String, Json)> = b.as_entries();
    proof {
        lemma_entries_len(x@);
        lemma_entries_len(y@);
    }
    if x.len() != y.len() {
        return false;
    }
    let mut i: usize = 0;
    while i < x.len()
        invariant
            i <= x@.len(),
            distinct_keys(x@),
            a@ == entries_view(x@),
            decreases_to!(*a => x@),
            forall|k: int|
                0 <= k < i ==> b@.contains_key((#[trigger] x@[k]).0@) && b@[x@[k].0@] == x@[k].1@,
        decreases x@.len() - i,
    {
        proof {
            lemma_entry(x@, i as int);
        }
        assert(decreases_to!(x@ => x@[i as int]));
        match b.get(x[i].0.as_str()) {
            Some(v) => {
                if !same_json(&x[i].1, v) {
                    return false;
                }
            },
            None => {
                return false;
            },
        }
        i += 1;
    }
    proof {
        assert forall|k: Seq<char>| #[trigger] a@.dom().contains(k) implies b@.dom().contains(k)
            && b@[k] == a@[k] by {
            let j = lemma_key(x@, k);
            lemma_entry(x@, j);
        }
        assert(a@.dom().subset_of(b@.dom()));
        vstd::set_lib::lemma_subset_equality(a@.dom(), b@.dom());
        assert(a@ =~= b@);
    }
    true
}

impl PartialEq for Json {
    fn eq(&self, other: &Json) -> (r: bool) {
        same_json(self, other)
    }
}

impl vstd::std_specs::cmp::PartialEqSpecImpl for Json {
    open spec fn obeys_eq_spec() -> bool {
        true
    }

    open spec fn eq_spec(&self, other: &Json) -> bool {
        self@ == other@
    }
}

impl PartialEq for JsonObject {
    fn eq(&self, other: &JsonObject) -> (r: bool) {
        same_object(self, other)
    }
}

impl vstd::std_specs::cmp::PartialEqSpecImpl for JsonObject {
    open spec fn obeys_eq_spec() -> bool {
        true
    }

    open spec fn eq_spec(&self, other: &JsonObject) -> bool {
        self@ == other@
    }
}

impl PartialEq for Float {
    fn eq(&self, other: &Float) -> (r: bool) {
        same(self.text().as_str(), other.text().as_str())
    }
}

impl vstd::std_specs::cmp::PartialEqSpecImpl for Float {
    open spec fn obeys_eq_spec() -> bool {
        true
    }

    open spec fn eq_spec(&self, other: &Float) -> bool {
        self@ == other@
    }
}

} // verus!
