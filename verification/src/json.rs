//! A plain model of a JSON document, and the lookups that the library makes
//! in one: `value[key]`, `as_array` and `as_str` with serde_json's meaning
//! (indexing a missing key, or a value that is not an object, yields `null`).

use vstd::prelude::*;
use vstd::string::*;
use crate::text::str_eq;

verus! {

/// A JSON value. Numbers are kept as their text: nothing in the library
/// computes with them.
pub enum JsonValue {
    Null,
    Bool(bool),
    Number(String),
    Str(String),
    Array(Vec<JsonValue>),
    Object(Vec<(String, JsonValue)>),
}

#[verifier::external_type_specification]
#[verifier::external_body]
pub struct ExSerdeValue(serde_json::Value);

/// What `serde_json::from_str` makes of `text`: the JSON document, in the
/// library's model, or, when `text` is not JSON, serde_json's error message
/// (the text of `serde_json::Error`'s `Display`).
pub uninterp spec fn parsed_json(text: Seq<char>) -> Result<JsonValue, Seq<char>>;

/// Carries a `serde_json::Value` over into the library's model, variant for
/// variant (a number as the text `Number::to_string` gives, an object's
/// members in the map's order). Nothing is claimed of it on its own: its
/// result reaches verified code only through `parse_json`.
#[verifier::external_body]
fn from_serde_value(v: &serde_json::Value) -> JsonValue {
    match v {
        serde_json::Value::Null => JsonValue::Null,
        serde_json::Value::Bool(b) => JsonValue::Bool(*b),
        serde_json::Value::Number(n) => JsonValue::Number(n.to_string()),
        serde_json::Value::String(s) => JsonValue::Str(s.clone()),
        serde_json::Value::Array(items) => JsonValue::Array(items.iter().map(from_serde_value).collect()),
        serde_json::Value::Object(map) => JsonValue::Object(map.iter().map(|(k, x)| (k.clone(), from_serde_value(x))).collect()),
    }
}

/// Parses `text` with `serde_json::from_str` into a `serde_json::Value` and
/// carries it over into the library's model; on an error it returns the
/// error's message. The contract claims that the outcome, document or
/// message, is a function of `text` alone, named `parsed_json`. What JSON
/// makes of a given text, and the wording of the messages, are left unsaid.
#[verifier::external_body]
pub fn parse_json(text: &str) -> (r: Result<JsonValue, String>)
    ensures
        match r {
            Ok(j) => parsed_json(text@) == Ok::<JsonValue, Seq<char>>(j),
            Err(e) => parsed_json(text@) == Err::<JsonValue, Seq<char>>(e@),
        },
{
    match serde_json::from_str::<serde_json::Value>(text) {
        Ok(v) => Ok(from_serde_value(&v)),
        Err(e) => Err(e.to_string()),
    }
}

/// The value stored under `key` among `fields`, the first such entry.
pub open spec fn find_field(fields: Seq<(String, JsonValue)>, key: Seq<char>) -> Option<JsonValue>
    decreases fields.len(),
{
    if fields.len() == 0 {
        None
    } else if fields[0].0@ == key {
        Some(fields[0].1)
    } else {
        find_field(fields.drop_first(), key)
    }
}

/// A member is found wherever it stands among the fields: the value of the
/// first field named `key` is the one looked up.
pub proof fn lemma_find_field_at(fields: Seq<(String, JsonValue)>, key: Seq<char>, p: int)
    requires
        0 <= p < fields.len(),
        fields[p].0@ == key,
        forall|j: int| 0 <= j < p ==> (#[trigger] fields[j]).0@ != key,
    ensures
        find_field(fields, key) == Some(fields[p].1),
    decreases p,
{
    if p > 0 {
        let rest = fields.drop_first();
        assert forall|j: int| 0 <= j < p - 1 implies (#[trigger] rest[j]).0@ != key by {
            assert(rest[j] == fields[j + 1]);
        }
        assert(fields[0].0@ != key);
        lemma_find_field_at(rest, key, p - 1);
    }
}

/// A key that no field has is not found.
pub proof fn lemma_find_field_absent(fields: Seq<(String, JsonValue)>, key: Seq<char>)
    requires
        forall|j: int| 0 <= j < fields.len() ==> (#[trigger] fields[j]).0@ != key,
    ensures
        find_field(fields, key) is None,
    decreases fields.len(),
{
    if fields.len() > 0 {
        let rest = fields.drop_first();
        assert forall|j: int| 0 <= j < rest.len() implies (#[trigger] rest[j]).0@ != key by {
            assert(rest[j] == fields[j + 1]);
        }
        assert(fields[0].0@ != key);
        lemma_find_field_absent(rest, key);
    }
}

/// `value[key]`: the member named `key` of an object, `None` standing for
/// the `null` that serde_json's indexing yields otherwise.
pub open spec fn json_get(value: JsonValue, key: Seq<char>) -> Option<JsonValue> {
    match value {
        JsonValue::Object(fields) => find_field(fields@, key),
        _ => None,
    }
}

/// `value[k1][k2]`, with `null` propagated as in serde_json.
pub open spec fn json_get2(value: JsonValue, k1: Seq<char>, k2: Seq<char>) -> Option<JsonValue> {
    match json_get(value, k1) {
        Some(inner) => json_get(inner, k2),
        None => None,
    }
}

/// `as_array` of an optional value (`None` standing for `null`).
pub open spec fn json_array(value: Option<JsonValue>) -> Option<Seq<JsonValue>> {
    match value {
        Some(JsonValue::Array(items)) => Some(items@),
        _ => None,
    }
}

/// `as_str` of an optional value (`None` standing for `null`).
pub open spec fn json_str(value: Option<JsonValue>) -> Option<Seq<char>> {
    match value {
        Some(JsonValue::Str(s)) => Some(s@),
        _ => None,
    }
}

impl JsonValue {
    /// `self[key]`; `None` where serde_json yields `null`.
    pub fn get(&self, key: &str) -> (r: Option<&JsonValue>)
        ensures
            match r {
                Some(v) => json_get(*self, key@) == Some(*v),
                None => json_get(*self, key@) is None,
            },
    {
        match self {
            JsonValue::Object(fields) => {
                let n = fields.len();
                let mut i: usize = 0;
                assert(fields@.skip(0) =~= fields@);
                while i < n
                    invariant
                        n == fields@.len(),
                        i <= n,
                        json_get(*self, key@) == find_field(fields@, key@),
                        find_field(fields@, key@) == find_field(fields@.skip(i as int), key@),
                    decreases n - i,
                {
                    assert(fields@.skip(i as int).drop_first() =~= fields@.skip(i + 1));
                    assert(fields@.skip(i as int)[0] == fields@[i as int]);
                    if str_eq(fields[i].0.as_str(), key) {
                        assert(find_field(fields@.skip(i as int), key@) == Some(fields@[i as int].1));
                        return Some(&fields[i].1);
                    }
                    i = i + 1;
                }
                None
            },
            _ => None,
        }
    }

    /// The member `key` of this value, when it is a string.
    pub fn string_member(&self, key: &str) -> (r: Option<String>)
        ensures
            match r {
                Some(s) => json_str(json_get(*self, key@)) == Some(s@),
                None => json_str(json_get(*self, key@)) is None,
            },
    {
        match self.get(key) {
            Some(v) => match v.as_str() {
                Some(s) => Some(String::from_str(s)),
                None => None,
            },
            None => None,
        }
    }

    /// `as_array` of this value.
    pub fn as_array(&self) -> (r: Option<&Vec<JsonValue>>)
        ensures
            match r {
                Some(items) => json_array(Some(*self)) == Some(items@),
                None => json_array(Some(*self)) is None,
            },
    {
        match self {
            JsonValue::Array(items) => Some(items),
            _ => None,
        }
    }

    /// `as_str` of this value.
    pub fn as_str(&self) -> (r: Option<&str>)
        ensures
            match r {
                Some(s) => json_str(Some(*self)) == Some(s@),
                None => json_str(Some(*self)) is None,
            },
    {
        match self {
            JsonValue::Str(s) => Some(s.as_str()),
            _ => None,
        }
    }
}

} // verus!
