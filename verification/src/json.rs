//! JSON values as the render pipeline reads them.
//!
//! A record that flows from a query into the renderer is a [`Json`] value. The
//! pipeline looks at the shape of a record (its control key, its header
//! entries, its nested records); numbers are carried through untouched.

use vstd::prelude::*;

verus! {

#[verifier::external_type_specification]
#[verifier::external_body]
pub struct ExNumber(serde_json::Number);

#[verifier::external_type_specification]
#[verifier::external_body]
pub struct ExValue(serde_json::Value);

/// A clone of a `serde_json::Number` is the same number.
pub assume_specification[ <serde_json::Number as Clone>::clone ](
    n: &serde_json::Number,
) -> (r: serde_json::Number)
    ensures
        r == *n,
;

/// A JSON value.
///
/// An object is a list of entries. Where a key occurs twice the later entry
/// shadows the earlier one, as a later insertion into a map would.
#[derive(Debug, PartialEq)]
pub enum Json {
    Null,
    Bool(bool),
    Number(serde_json::Number),
    String(String),
    Array(Vec<Json>),
    Object(Vec<(String, Json)>),
}

/// The value that `entries` bind to `key`: that of the last entry with this key.
pub open spec fn lookup(entries: Seq<(String, Json)>, key: Seq<char>) -> Option<Json>
    decreases entries.len(),
{
    if entries.len() == 0 {
        None
    } else if entries.last().0@ == key {
        Some(entries.last().1)
    } else {
        lookup(entries.drop_last(), key)
    }
}

/// What `serde_json::from_str` makes of a text: `None` where it reports an error.
pub uninterp spec fn parsed_value(text: Seq<char>) -> Option<serde_json::Value>;

/// The [`Json`] that stands for a `serde_json::Value`.
pub uninterp spec fn json_of_value(value: serde_json::Value) -> Json;

/// The JSON number that `serde_json::Number::from` makes of an unsigned integer.
pub uninterp spec fn number_of_u64(n: u64) -> serde_json::Number;

/// The compact JSON text that `serde_json` prints for a value.
pub uninterp spec fn printed_value(value: serde_json::Value) -> Seq<char>;

/// The `serde_json::Value` that a [`Json`] stands for.
pub uninterp spec fn value_of_json(json: Json) -> serde_json::Value;

/// The compact JSON text of a value.
pub open spec fn json_text(json: Json) -> Seq<char> {
    printed_value(value_of_json(json))
}

/// Whether two values are the same JSON: the same kind of value with the
/// same content, entry by entry.
pub open spec fn same_json(a: Json, b: Json) -> bool
    decreases a,
{
    match (a, b) {
        (Json::Null, Json::Null) => true,
        (Json::Bool(x), Json::Bool(y)) => x == y,
        (Json::Number(x), Json::Number(y)) => x == y,
        (Json::String(x), Json::String(y)) => x@ == y@,
        (Json::Array(x), Json::Array(y)) => {
            &&& x@.len() == y@.len()
            &&& forall|i: int| 0 <= i < x@.len() ==> same_json(#[trigger] x@[i], y@[i])
        },
        (Json::Object(x), Json::Object(y)) => {
            &&& x@.len() == y@.len()
            &&& forall|i: int|
                0 <= i < x@.len() ==> (#[trigger] x@[i]).0@ == y@[i].0@ && same_json(
                    x@[i].1,
                    y@[i].1,
                )
        },
        _ => false,
    }
}

/// The JSON value that a text denotes, if it is well-formed JSON.
pub open spec fn parsed_json(text: Seq<char>) -> Option<Json> {
    match parsed_value(text) {
        Some(v) => Some(json_of_value(v)),
        None => None,
    }
}

/// Whether two string slices hold the same characters.
pub(crate) fn str_eq(a: &str, b: &str) -> (r: bool)
    ensures
        r == (a@ == b@),
{
    a.to_owned() == b.to_owned()
}

/// Calls `serde_json::from_str` for a `serde_json::Value`. The result is a
/// function of the text alone; an error is reported as `None`.
#[verifier::external_body]
fn parse_value(text: &str) -> (r: Option<serde_json::Value>)
    ensures
        r == parsed_value(text@),
{
    serde_json::from_str::<serde_json::Value>(text).ok()
}

/// Takes a `serde_json::Value` apart, variant by variant, into a [`Json`].
/// An object's entries come in the order in which its map yields them.
#[verifier::external_body]
fn json_from_value(value: serde_json::Value) -> (r: Json)
    ensures
        r == json_of_value(value),
{
    match value {
        serde_json::Value::Null => Json::Null,
        serde_json::Value::Bool(b) => Json::Bool(b),
        serde_json::Value::Number(n) => Json::Number(n),
        serde_json::Value::String(s) => Json::String(s),
        serde_json::Value::Array(a) => Json::Array(a.into_iter().map(json_from_value).collect()),
        serde_json::Value::Object(o) => {
            Json::Object(o.into_iter().map(|(k, v)| (k, json_from_value(v))).collect())
        },
    }
}

/// Builds the `serde_json::Value` that a [`Json`] stands for, variant by
/// variant. The entries of an object are inserted into a map in their order,
/// so that a later entry replaces an earlier one with the same key.
#[verifier::external_body]
pub(crate) fn json_to_value(json: &Json) -> (r: serde_json::Value)
    ensures
        r == value_of_json(*json),
{
    match json {
        Json::Null => serde_json::Value::Null,
        Json::Bool(b) => serde_json::Value::Bool(*b),
        Json::Number(n) => serde_json::Value::Number(n.clone()),
        Json::String(s) => serde_json::Value::String(s.clone()),
        Json::Array(a) => serde_json::Value::Array(a.iter().map(json_to_value).collect()),
        Json::Object(o) => {
            serde_json::Value::Object(o.iter().map(|(k, v)| (k.clone(), json_to_value(v))).collect())
        },
    }
}

/// Calls `serde_json::Number::from` on a `u64`.
#[verifier::external_body]
fn number_from_u64(n: u64) -> (r: serde_json::Number)
    ensures
        r == number_of_u64(n),
{
    serde_json::Number::from(n)
}

/// Calls `serde_json::Value::to_string`, which prints compact JSON text.
#[verifier::external_body]
fn print_value(value: &serde_json::Value) -> (r: String)
    ensures
        r@ == printed_value(*value),
{
    value.to_string()
}

impl Json {
    /// The characters of a JSON string; `None` for every other value.
    pub open spec fn spec_as_str(self) -> Option<Seq<char>> {
        match self {
            Json::String(s) => Some(s@),
            _ => None,
        }
    }

    /// The value bound to `key` in an object; `None` for a missing key and
    /// for every value that is no object.
    pub open spec fn spec_get(self, key: Seq<char>) -> Option<Json> {
        match self {
            Json::Object(entries) => lookup(entries@, key),
            _ => None,
        }
    }

    /// A JSON number that holds `n`.
    pub fn from_u64(n: u64) -> (r: Json)
        ensures
            r == Json::Number(number_of_u64(n)),
    {
        Json::Number(number_from_u64(n))
    }

    /// A JSON string that holds the characters of `s`.
    pub fn from_str(s: &str) -> (r: Json)
        ensures
            r.spec_as_str() == Some(s@),
    {
        Json::String(s.to_owned())
    }

    /// The string slice inside a JSON string.
    pub fn as_str(&self) -> (r: Option<&str>)
        ensures
            match r {
                Some(s) => self.spec_as_str() == Some(s@),
                None => self.spec_as_str() is None,
            },
    {
        match self {
            Json::String(s) => Some(s.as_str()),
            _ => None,
        }
    }

    /// Looks a key up in an object.
    pub fn get(&self, key: &str) -> (r: Option<&Json>)
        ensures
            match r {
                Some(v) => self.spec_get(key@) == Some(*v),
                None => self.spec_get(key@) is None,
            },
    {
        match self {
            Json::Object(entries) => {
                let mut i: usize = entries.len();
                assert(entries@.take(i as int) == entries@);
                while i > 0
                    invariant
                        i <= entries.len(),
                        self.spec_get(key@) == lookup(entries@, key@),
                        lookup(entries@, key@) == lookup(entries@.take(i as int), key@),
                    decreases i,
                {
                    i -= 1;
                    let found = str_eq(entries[i].0.as_str(), key);
                    proof {
                        let prefix = entries@.take(i + 1);
                        assert(prefix.last() == entries@[i as int]);
                        assert(prefix.drop_last() == entries@.take(i as int));
                        assert(lookup(prefix, key@) == if found {
                            Some(entries@[i as int].1)
                        } else {
                            lookup(entries@.take(i as int), key@)
                        });
                    }
                    if found {
                        return Some(&entries[i].1);
                    }
                }
                assert(entries@.take(0).len() == 0);
                None
            },
            _ => None,
        }
    }

    /// Moves the value out and leaves `null` in its place.
    pub fn take(&mut self) -> (r: Json)
        ensures
            r == *old(self),
            *final(self) == Json::Null,
    {
        let mut taken = Json::Null;
        core::mem::swap(self, &mut taken);
        taken
    }

    /// The value that stands for a `serde_json::Value`.
    pub fn from_value(value: serde_json::Value) -> (r: Json)
        ensures
            r == json_of_value(value),
    {
        json_from_value(value)
    }

    /// Parses JSON text.
    pub fn parse(text: &str) -> (r: Option<Json>)
        ensures
            r == parsed_json(text@),
    {
        match parse_value(text) {
            Some(v) => Some(json_from_value(v)),
            None => None,
        }
    }

    /// The compact JSON text of a value, as `serde_json` prints it.
    pub fn to_text(&self) -> (r: String)
        ensures
            r@ == json_text(*self),
    {
        let value = json_to_value(self);
        print_value(&value)
    }

    /// A copy of the value.
    pub fn duplicate(&self) -> (r: Json)
        ensures
            same_json(*self, r),
        decreases *self,
    {
        match self {
            Json::Null => Json::Null,
            Json::Bool(b) => Json::Bool(*b),
            Json::Number(n) => Json::Number(n.clone()),
            Json::String(s) => Json::String(s.clone()),
            Json::Array(items) => {
                let mut copy: Vec<Json> = Vec::new();
                let mut i: usize = 0;
                while i < items.len()
                    invariant
                        i <= items.len(),
                        *self == Json::Array(*items),
                        copy@.len() == i,
                        forall|j: int| 0 <= j < i ==> same_json(#[trigger] items@[j], copy@[j]),
                    decreases items.len() - i,
                {
                    proof {
                        assert(self->Array_0 == *items);
                        assert(decreases_to!(*self => self->Array_0@[i as int]));
                    }
                    copy.push(items[i].duplicate());
                    i += 1;
                }
                Json::Array(copy)
            },
            Json::Object(entries) => {
                let mut copy: Vec<(String, Json)> = Vec::new();
                let mut i: usize = 0;
                while i < entries.len()
                    invariant
                        i <= entries.len(),
                        *self == Json::Object(*entries),
                        copy@.len() == i,
                        forall|j: int|
                            0 <= j < i ==> (#[trigger] entries@[j]).0@ == copy@[j].0@ && same_json(
                                entries@[j].1,
                                copy@[j].1,
                            ),
                    decreases entries.len() - i,
                {
                    proof {
                        assert(self->Object_0 == *entries);
                        assert(decreases_to!(*self => self->Object_0@[i as int].1));
                    }
                    let value = entries[i].1.duplicate();
                    copy.push((entries[i].0.clone(), value));
                    i += 1;
                }
                Json::Object(copy)
            },
        }
    }
}

/// The string under `key` of an object: `None` where `json` is no object, has
/// no such key, or holds something other than a string there.
pub open spec fn object_str(json: Json, key: Seq<char>) -> Option<Seq<char>> {
    match json.spec_get(key) {
        Some(v) => v.spec_as_str(),
        None => None,
    }
}

/// Reads the string that an object holds under `key`.
pub fn get_object_str<'a>(json: &'a Json, key: &str) -> (r: Option<&'a str>)
    ensures
        match r {
            Some(s) => object_str(*json, key@) == Some(s@),
            None => object_str(*json, key@) is None,
        },
{
    match json.get(key) {
        Some(v) => v.as_str(),
        None => None,
    }
}

impl Clone for Json {
    fn clone(&self) -> (r: Self)
        ensures
            same_json(*self, r),
    {
        self.duplicate()
    }
}

} // verus!
