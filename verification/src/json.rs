//! A plain model of parsed JSON (and TOML) documents.
//!
//! Object members keep the order in which the parser's map yields them
//! (sorted by key for `serde_json` and `toml` maps); keys are distinct.

use vstd::prelude::*;

use crate::text::{chars_of, eq_vec};

verus! {

#[derive(Debug)]
pub enum JsonValue {
    Null,
    Bool(bool),
    /// A number (or, for TOML, a date-time), kept as its text.
    Number(String),
    Str(String),
    Array(Vec<JsonValue>),
    Object(Vec<(String, JsonValue)>),
}

/// The value of the first member named `key`, from index `i` on.
pub open spec fn member_from(entries: Seq<(String, JsonValue)>, key: Seq<char>, i: int) -> Option<JsonValue>
    decreases entries.len() - i,
{
    if i < 0 || i >= entries.len() {
        None
    } else if entries[i].0@ == key {
        Some(entries[i].1)
    } else {
        member_from(entries, key, i + 1)
    }
}

impl JsonValue {
    /// `Value::get(key)`: the member of an object, nothing for other values.
    pub open spec fn spec_get(self, key: Seq<char>) -> Option<JsonValue> {
        match self {
            JsonValue::Object(entries) => member_from(entries@, key, 0),
            _ => None,
        }
    }

    /// `Value::as_str`.
    pub open spec fn spec_as_str(self) -> Option<Seq<char>> {
        match self {
            JsonValue::Str(s) => Some(s@),
            _ => None,
        }
    }

    pub fn get(&self, key: &str) -> (r: Option<&JsonValue>)
        ensures
            match self.spec_get(key@) {
                Some(v) => r matches Some(x) && *x == v,
                None => r is None,
            },
    {
        match self {
            JsonValue::Object(entries) => {
                let k = chars_of(key);
                let mut i: usize = 0;
                while i < entries.len()
                    invariant
                        i <= entries@.len(),
                        k@ == key@,
                        self.spec_get(key@) == member_from(entries@, key@, 0),
                        member_from(entries@, key@, 0) == member_from(entries@, key@, i as int),
                    decreases entries.len() - i,
                {
                    let ek = chars_of(entries[i].0.as_str());
                    if eq_vec(&ek, &k) {
                        assert(entries@[i as int].0@ == key@);
                        assert(member_from(entries@, key@, i as int) == Some(entries@[i as int].1));
                        return Some(&entries[i].1);
                    }
                    i = i + 1;
                }
                None
            },
            _ => None,
        }
    }

    pub fn as_str(&self) -> (r: Option<&String>)
        ensures
            match self.spec_as_str() {
                Some(s) => r matches Some(x) && x@ == s,
                None => r is None,
            },
    {
        match self {
            JsonValue::Str(s) => Some(s),
            _ => None,
        }
    }
}


// ---------------------------------------------------------------------------
// Parsing
// ---------------------------------------------------------------------------

#[verifier::external_type_specification]
#[verifier::external_body]
pub struct ExSerdeJsonValue(serde_json::Value);

#[verifier::external_type_specification]
#[verifier::external_body]
pub struct ExTomlValue(toml::Value);

/// The document `serde_json::from_str::<serde_json::Value>` reads from a
/// text, in this model, or the parser's error message.
pub uninterp spec fn json_document(text: Seq<char>) -> Result<JsonValue, Seq<char>>;

/// The document `toml::from_str::<toml::Value>` reads from a text, in this
/// model, or the parser's error message.
pub uninterp spec fn toml_document(text: Seq<char>) -> Result<JsonValue, Seq<char>>;

/// A `serde_json::Value` in this model: numbers as their text, members in the
/// map's order. Only conversion; nothing is stated of it on its own.
#[verifier::external_body]
fn json_model(v: &serde_json::Value) -> JsonValue {
    match v {
        serde_json::Value::Null => JsonValue::Null,
        serde_json::Value::Bool(b) => JsonValue::Bool(*b),
        serde_json::Value::Number(n) => JsonValue::Number(n.to_string()),
        serde_json::Value::String(s) => JsonValue::Str(s.clone()),
        serde_json::Value::Array(items) => JsonValue::Array(items.iter().map(json_model).collect()),
        serde_json::Value::Object(m) => JsonValue::Object(m.iter().map(|(k, x)| (k.clone(), json_model(x))).collect()),
    }
}

/// A `toml::Value` in this model: integers, floats and date-times as their
/// text, tables in the map's order. Only conversion; nothing is stated of it
/// on its own.
#[verifier::external_body]
fn toml_model(v: &toml::Value) -> JsonValue {
    match v {
        toml::Value::String(s) => JsonValue::Str(s.clone()),
        toml::Value::Integer(i) => JsonValue::Number(i.to_string()),
        toml::Value::Float(x) => JsonValue::Number(x.to_string()),
        toml::Value::Boolean(b) => JsonValue::Bool(*b),
        toml::Value::Datetime(d) => JsonValue::Number(d.to_string()),
        toml::Value::Array(items) => JsonValue::Array(items.iter().map(toml_model).collect()),
        toml::Value::Table(t) => JsonValue::Object(t.iter().map(|(k, x)| (k.clone(), toml_model(x))).collect()),
    }
}

/// `serde_json::from_str::<serde_json::Value>`, its document taken into this
/// model, its error displayed. What it reads is named, not spelled out.
#[verifier::external_body]
pub(crate) fn parse_json_text(text: &str) -> (r: Result<JsonValue, String>)
    ensures
        match json_document(text@) {
            Ok(d) => r matches Ok(v) && v == d,
            Err(m) => r matches Err(e) && e@ == m,
        },
{
    serde_json::from_str::<serde_json::Value>(text).map(|v| json_model(&v)).map_err(|e| e.to_string())
}

/// `toml::from_str::<toml::Value>`, its document taken into this model, its
/// error displayed. What it reads is named, not spelled out.
#[verifier::external_body]
pub(crate) fn parse_toml_text(text: &str) -> (r: Result<JsonValue, String>)
    ensures
        match toml_document(text@) {
            Ok(d) => r matches Ok(v) && v == d,
            Err(m) => r matches Err(e) && e@ == m,
        },
{
    toml::from_str::<toml::Value>(text).map(|v| toml_model(&v)).map_err(|e| e.to_string())
}

/// The JSON document a text holds, or the parser's error message.
pub fn parse_json(text: &str) -> (r: Result<JsonValue, String>)
    ensures
        match json_document(text@) {
            Ok(d) => r matches Ok(v) && v == d,
            Err(m) => r matches Err(e) && e@ == m,
        },
{
    parse_json_text(text)
}

/// The TOML document a text holds, or the parser's error message.
pub fn parse_toml(text: &str) -> (r: Result<JsonValue, String>)
    ensures
        match toml_document(text@) {
            Ok(d) => r matches Ok(v) && v == d,
            Err(m) => r matches Err(e) && e@ == m,
        },
{
    parse_toml_text(text)
}

} // verus!
