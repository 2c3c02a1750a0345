//! Decoded values as `serde_json` values, the form the configuration builder
//! consumes.

use vstd::prelude::*;
use crate::decode::Decoder;
use crate::value::{ConfigValue, ValueView, entries_map, distinct_keys};

verus! {

#[verifier::external_type_specification]
#[verifier::external_body]
pub struct ExJson(serde_json::Value);

/// The JSON string holding `s`.
pub uninterp spec fn json_string_of(s: Seq<char>) -> serde_json::Value;

/// The JSON number holding `i`.
pub uninterp spec fn json_integer_of(i: int) -> serde_json::Value;

/// The JSON array of the strings `items`, in order.
pub uninterp spec fn json_array_of(items: Seq<Seq<char>>) -> serde_json::Value;

/// The JSON object mapping each key of `m` to the JSON string of its value.
pub uninterp spec fn json_object_of(m: Map<Seq<char>, Seq<char>>) -> serde_json::Value;

/// Relies on serde_json's `From<String> for Value`, which wraps the string in
/// `Value::String`.
#[verifier::external_body]
fn json_string(s: String) -> (r: serde_json::Value)
    ensures
        r == json_string_of(s@),
{
    serde_json::Value::from(s)
}

/// Relies on serde_json's `From<isize> for Value`, which wraps the integer in
/// `Value::Number`.
#[verifier::external_body]
fn json_integer(i: isize) -> (r: serde_json::Value)
    ensures
        r == json_integer_of(i as int),
{
    serde_json::Value::from(i)
}

/// Relies on serde_json's `From<Vec<String>> for Value`, which makes a
/// `Value::Array` of `Value::String`s in the vector's order.
#[verifier::external_body]
fn json_array(items: Vec<String>) -> (r: serde_json::Value)
    ensures
        r == json_array_of(items.deep_view()),
{
    serde_json::Value::from(items)
}

/// Relies on serde_json's `FromIterator<(String, String)> for Value`, which
/// makes a `Value::Object` holding each pair with its value as a
/// `Value::String`. With no key repeated, the object depends on the set of
/// pairs alone, not on their order.
#[verifier::external_body]
fn json_object(entries: Vec<(String, String)>) -> (r: serde_json::Value)
    requires
        distinct_keys(entries.deep_view()),
    ensures
        r == json_object_of(entries_map(entries.deep_view())),
{
    entries.into_iter().collect()
}

/// The JSON form of a decoded value.
pub open spec fn json_of(v: ValueView) -> serde_json::Value {
    match v {
        ValueView::Str(s) => json_string_of(s),
        ValueView::Int(i) => json_integer_of(i),
        ValueView::Array(items) => json_array_of(items),
        ValueView::Object(m) => json_object_of(m),
    }
}

impl ConfigValue {
    /// Turns this value into its JSON form.
    pub fn into_json(self) -> (r: serde_json::Value)
        requires
            self.wf(),
        ensures
            r == json_of(self@),
    {
        match self {
            ConfigValue::Str(s) => json_string(s),
            ConfigValue::Int(i) => json_integer(i),
            ConfigValue::Array(items) => json_array(items),
            ConfigValue::Object(entries) => json_object(entries),
        }
    }
}

impl Decoder {
    /// Applies this decoder to the raw value `s` and gives the result in JSON
    /// form; `None` is a decoding failure.
    pub fn parse(&self, s: &str) -> (r: Option<serde_json::Value>)
        ensures
            match self.spec_decode(s@) {
                Some(v) => r == Some(json_of(v)),
                None => r is None,
            },
    {
        match self.decode(s) {
            Some(v) => Some(v.into_json()),
            None => None,
        }
    }
}

} // verus!
