//! JSON documents, built with `serde_json::Value`.
use crate::string_map::{self, StringMap};
use crate::text;
use serde_json::Value;
use vstd::prelude::*;

verus! {

/// `serde_json::Value`, a JSON document.
#[verifier::external_type_specification]
#[verifier::external_body]
pub struct ExValue(Value);

/// What a JSON document holds. `Number` is an integer of 64 bits, and `Fraction` any other
/// number, by its notation.
pub enum JsonView {
    Null,
    Bool(bool),
    Number(int),
    Fraction(Seq<char>),
    Text(Seq<char>),
    List(Seq<JsonView>),
    Object(Map<Seq<char>, JsonView>),
}

/// What a JSON document holds.
pub uninterp spec fn json_held(v: Value) -> JsonView;

/// The null document.
#[verifier::external_body]
pub(crate) fn json_null() -> (r: Value)
    ensures
        json_held(r) == JsonView::Null,
{
    Value::Null
}

/// `Value::Bool`.
#[verifier::external_body]
pub(crate) fn json_bool(b: bool) -> (r: Value)
    ensures
        json_held(r) == JsonView::Bool(b),
{
    Value::Bool(b)
}

/// `Value::from` of a signed number.
#[verifier::external_body]
pub(crate) fn json_int(n: i64) -> (r: Value)
    ensures
        json_held(r) == JsonView::Number(n as int),
{
    Value::from(n)
}

/// `Value::from` of an unsigned number.
#[verifier::external_body]
pub(crate) fn json_number(n: u64) -> (r: Value)
    ensures
        json_held(r) == JsonView::Number(n as int),
{
    Value::from(n)
}

/// `Value::String`.
#[verifier::external_body]
pub(crate) fn json_text(s: &str) -> (r: Value)
    ensures
        json_held(r) == JsonView::Text(s@),
{
    Value::String(s.to_owned())
}

/// What a sequence of documents holds.
pub open spec fn all_held(v: Seq<Value>) -> Seq<JsonView> {
    v.map_values(|x: Value| json_held(x))
}

/// `Value::Array`.
#[verifier::external_body]
pub(crate) fn json_list(v: Vec<Value>) -> (r: Value)
    ensures
        json_held(r) == JsonView::List(all_held(v@)),
{
    Value::Array(v)
}

/// `Value::Object` of an empty `serde_json::Map`.
#[verifier::external_body]
pub(crate) fn json_object() -> (r: Value)
    ensures
        json_held(r) == JsonView::Object(Map::empty()),
{
    Value::Object(serde_json::Map::new())
}

/// An object with a member set, by `serde_json::Map::insert`.
#[verifier::external_body]
pub(crate) fn json_put(object: Value, key: &str, value: Value) -> (r: Value)
    requires
        json_held(object) is Object,
    ensures
        json_held(r) == JsonView::Object(
            json_held(object)->Object_0.insert(key@, json_held(value)),
        ),
{
    let mut object = object;
    if let Value::Object(members) = &mut object {
        members.insert(key.to_owned(), value);
    }
    object
}

impl JsonView {
    /// The empty object.
    pub open spec fn object() -> JsonView {
        JsonView::Object(Map::empty())
    }

    /// The object with a member set.
    #[verifier::opaque]
    pub open spec fn with(self, key: Seq<char>, value: JsonView) -> JsonView {
        JsonView::Object(self->Object_0.insert(key, value))
    }

    /// The object with a member set to a text.
    pub open spec fn text(self, key: Seq<char>, value: Seq<char>) -> JsonView {
        self.with(key, JsonView::Text(value))
    }

    /// The object with a member set to a number.
    pub open spec fn number(self, key: Seq<char>, value: int) -> JsonView {
        self.with(key, JsonView::Number(value))
    }

    /// The object with a member set to a truth value.
    pub open spec fn flag(self, key: Seq<char>, value: bool) -> JsonView {
        self.with(key, JsonView::Bool(value))
    }

    /// The object with a member set to a list.
    pub open spec fn list(self, key: Seq<char>, value: Seq<JsonView>) -> JsonView {
        self.with(key, JsonView::List(value))
    }

    /// The object with a member set to a text, or to null.
    pub open spec fn opt_text(self, key: Seq<char>, value: Option<Seq<char>>) -> JsonView {
        match value {
            Some(s) => self.text(key, s),
            None => self.with(key, JsonView::Null),
        }
    }

    /// The object with a member set to a number, or to null.
    pub open spec fn opt_number(self, key: Seq<char>, value: Option<i64>) -> JsonView {
        match value {
            Some(n) => self.number(key, n as int),
            None => self.with(key, JsonView::Null),
        }
    }
}

/// A member of a document.
pub open spec fn member(j: JsonView, key: Seq<char>) -> Option<JsonView> {
    match j {
        JsonView::Object(m) => if m.contains_key(key) {
            Some(m[key])
        } else {
            None
        },
        _ => None,
    }
}

/// Setting a member sets that member and no other.
pub proof fn lemma_member(j: JsonView, key: Seq<char>, value: JsonView, other: Seq<char>)
    ensures
        j.with(key, value) is Object,
        member(j.with(key, value), key) == Some(value),
        other != key && j is Object ==> member(j.with(key, value), other) == member(j, other),
{
    reveal(JsonView::with);
}

/// An object whose members are texts.
pub open spec fn entries_json(v: Seq<(Seq<char>, Seq<char>)>) -> JsonView
    decreases v.len(),
{
    if v.len() == 0 {
        JsonView::object()
    } else {
        entries_json(v.drop_last()).text(v.last().0, v.last().1)
    }
}

/// An object in the making.
pub struct Doc {
    value: Value,
}

impl View for Doc {
    type V = JsonView;

    closed spec fn view(&self) -> JsonView {
        json_held(self.value)
    }
}

impl Doc {
    /// The empty object.
    pub fn new() -> (r: Doc)
        ensures
            r@ == JsonView::object(),
            r@ is Object,
    {
        Doc { value: json_object() }
    }

    /// Sets a member.
    pub fn with(self, key: &str, value: Value) -> (r: Doc)
        requires
            self@ is Object,
        ensures
            r@ == self@.with(key@, json_held(value)),
            r@ is Object,
    {
        reveal(JsonView::with);
        Doc { value: json_put(self.value, key, value) }
    }

    /// Sets a member to a text.
    pub fn text(self, key: &str, value: &str) -> (r: Doc)
        requires
            self@ is Object,
        ensures
            r@ == self@.text(key@, value@),
            r@ is Object,
    {
        self.with(key, json_text(value))
    }

    /// Sets a member to a number.
    pub fn number(self, key: &str, value: i64) -> (r: Doc)
        requires
            self@ is Object,
        ensures
            r@ == self@.number(key@, value as int),
            r@ is Object,
    {
        self.with(key, json_int(value))
    }

    /// Sets a member to a count.
    pub fn count(self, key: &str, value: u64) -> (r: Doc)
        requires
            self@ is Object,
        ensures
            r@ == self@.number(key@, value as int),
            r@ is Object,
    {
        self.with(key, json_number(value))
    }

    /// Sets a member to a text, or to null.
    pub fn opt_text(self, key: &str, value: &Option<String>) -> (r: Doc)
        requires
            self@ is Object,
        ensures
            r@ == self@.opt_text(key@, text::opt_text(*value)),
            r@ is Object,
    {
        match value {
            Some(s) => self.text(key, s.as_str()),
            None => self.with(key, json_null()),
        }
    }

    /// Sets a member to a number, or to null.
    pub fn opt_number(self, key: &str, value: Option<i64>) -> (r: Doc)
        requires
            self@ is Object,
        ensures
            r@ == self@.opt_number(key@, value),
            r@ is Object,
    {
        match value {
            Some(n) => self.number(key, n),
            None => self.with(key, json_null()),
        }
    }

    /// Sets a member to a truth value.
    pub fn flag(self, key: &str, value: bool) -> (r: Doc)
        requires
            self@ is Object,
        ensures
            r@ == self@.flag(key@, value),
            r@ is Object,
    {
        self.with(key, json_bool(value))
    }

    /// Sets a member to another object.
    pub fn doc(self, key: &str, value: Doc) -> (r: Doc)
        requires
            self@ is Object,
        ensures
            r@ == self@.with(key@, value@),
            r@ is Object,
    {
        self.with(key, value.value)
    }

    /// Sets a member to a list.
    pub fn list(self, key: &str, value: Vec<Value>) -> (r: Doc)
        requires
            self@ is Object,
        ensures
            r@ == self@.list(key@, all_held(value@)),
            r@ is Object,
    {
        self.with(key, json_list(value))
    }

    /// The finished document.
    pub fn done(self) -> (r: Value)
        ensures
            json_held(r) == self@,
    {
        self.value
    }

    /// An object that holds the entries of a map.
    pub fn of_map(m: &StringMap) -> (r: Doc)
        ensures
            r@ == entries_json(m@),
            r@ is Object,
    {
        let mut d = Doc::new();
        let mut i: usize = 0;
        assert(m@.take(0) =~= Seq::<(Seq<char>, Seq<char>)>::empty());
        while i < m.entries.len()
            invariant
                i <= m.entries@.len(),
                d@ == entries_json(m@.take(i as int)),
                d@ is Object,
            decreases m.entries@.len() - i,
        {
            assert(m@.take(i + 1).drop_last() =~= m@.take(i as int));
            assert(m@.take(i + 1).last() == string_map::pair_view(m.entries@[i as int]));
            d = d.text(m.entries[i].0.as_str(), m.entries[i].1.as_str());
            i += 1;
        }
        assert(m@.take(m.entries@.len() as int) =~= m@);
        d
    }
}

/// No documents.
pub open spec fn none() -> Seq<JsonView> {
    Seq::empty()
}

/// A list in the making.
pub struct Items {
    items: Vec<Value>,
}

impl View for Items {
    type V = Seq<JsonView>;

    closed spec fn view(&self) -> Seq<JsonView> {
        all_held(self.items@)
    }
}

impl Items {
    /// The empty list.
    pub fn new() -> (r: Items)
        ensures
            r@ == none(),
    {
        let r = Items { items: Vec::new() };
        assert(r@ =~= none());
        r
    }

    /// Appends a document.
    pub fn item(self, value: Value) -> (r: Items)
        ensures
            r@ == self@.push(json_held(value)),
    {
        let mut r = self;
        r.items.push(value);
        assert(r@ =~= self@.push(json_held(value)));
        r
    }

    /// Appends an object.
    pub fn doc(self, value: Doc) -> (r: Items)
        ensures
            r@ == self@.push(value@),
    {
        self.item(value.value)
    }

    /// Appends a text.
    pub fn text(self, value: &str) -> (r: Items)
        ensures
            r@ == self@.push(JsonView::Text(value@)),
    {
        self.item(json_text(value))
    }

    /// The finished list.
    pub fn done(self) -> (r: Vec<Value>)
        ensures
            all_held(r@) == self@,
    {
        self.items
    }
}

/// A copy of a document, by its `clone`.
#[verifier::external_body]
pub(crate) fn json_copy(v: &Value) -> (r: Value)
    ensures
        json_held(r) == json_held(*v),
{
    v.clone()
}

/// The bytes in which a document is written.
pub uninterp spec fn json_bytes(v: JsonView) -> Seq<u8>;

/// Writes a document with `serde_json::to_vec`. Writing a `Value` does not fail.
#[verifier::external_body]
pub(crate) fn json_to_vec(v: &Value) -> (r: Vec<u8>)
    ensures
        r@ == json_bytes(json_held(*v)),
{
    serde_json::to_vec(v).unwrap_or_default()
}

/// What `serde_json` reads from some bytes: nothing where they are no JSON document.
pub uninterp spec fn json_read(bytes: Seq<u8>) -> Option<JsonView>;

/// Reads a document with `serde_json::from_slice`. What is read depends on the bytes alone.
#[verifier::external_body]
pub(crate) fn json_from_slice(bytes: &[u8]) -> (r: Option<Value>)
    ensures
        (match r {
            Some(v) => Some(json_held(v)),
            None => None,
        }) == json_read(bytes@),
{
    serde_json::from_slice::<Value>(bytes).ok()
}

/// `Value::is_object`.
#[verifier::external_body]
fn json_is_object(v: &Value) -> (r: bool)
    ensures
        r == (json_held(*v) is Object),
{
    v.is_object()
}

impl Doc {
    /// An object to be continued; nothing where the document is no object.
    pub fn of_object(value: Value) -> (r: Option<Doc>)
        ensures
            match r {
                Some(d) => d@ == json_held(value) && d@ is Object,
                None => !(json_held(value) is Object),
            },
    {
        if json_is_object(&value) {
            Some(Doc { value })
        } else {
            None
        }
    }
}

/// A member of a document that is perhaps there.
pub open spec fn of(o: Option<JsonView>, key: Seq<char>) -> Option<JsonView> {
    match o {
        Some(j) => member(j, key),
        None => None,
    }
}

/// An item of a list that is perhaps there.
pub open spec fn nth(o: Option<JsonView>, i: int) -> Option<JsonView> {
    match o {
        Some(JsonView::List(s)) => if 0 <= i < s.len() {
            Some(s[i])
        } else {
            None
        },
        _ => None,
    }
}

} // verus!
