//! JSON values held as plain data: what the kit's protocol messages carry.

use vstd::prelude::*;

use crate::text::{string_push, str_eq};

verus! {

/// A JSON number: the text it is written as, and its value where it is an
/// integer that fits in `i64`.
#[derive(Debug)]
pub struct JsonNumber {
    pub text: String,
    pub int: Option<i64>,
}

/// A JSON value. An object keeps its members in order; a lookup finds the
/// first member with the key.
#[derive(Debug)]
pub enum Json {
    Null,
    Bool(bool),
    Number(JsonNumber),
    Text(String),
    Array(Vec<Json>),
    Object(Vec<(String, Json)>),
}

#[verifier::external_type_specification]
#[verifier::external_body]
pub struct ExJsonValue(serde_json::Value);

/// The value `serde_json` reads from `text`, in this library's terms; none
/// where the text is not JSON.
pub uninterp spec fn decoded_json(text: Seq<char>) -> Option<Json>;

/// `serde_json::Value` turned into a `Json`, variant by variant: a number
/// keeps its text and its `i64` value where it has one, an object its
/// members in the order the value holds them.
#[verifier::external_body]
fn json_from_value(value: serde_json::Value) -> Json {
    match value {
        serde_json::Value::Null => Json::Null,
        serde_json::Value::Bool(b) => Json::Bool(b),
        serde_json::Value::Number(n) => Json::Number(JsonNumber { text: n.to_string(), int: n.as_i64() }),
        serde_json::Value::String(s) => Json::Text(s),
        serde_json::Value::Array(items) => Json::Array(items.into_iter().map(json_from_value).collect()),
        serde_json::Value::Object(map) => Json::Object(map.into_iter().map(|(k, v)| (k, json_from_value(v))).collect()),
    }
}

/// `serde_json::from_str` into a `serde_json::Value`: the value it reads, or
/// the parser's description of why the text is not JSON (its wording is not
/// stated).
#[verifier::external_body]
pub fn decode_json(text: &str) -> (r: Result<Json, String>)
    ensures
        r is Ok <==> decoded_json(text@) is Some,
        r matches Ok(v) ==> decoded_json(text@) == Some(v),
{
    match serde_json::from_str::<serde_json::Value>(text) {
        Ok(v) => Ok(json_from_value(v)),
        Err(e) => Err(e.to_string()),
    }
}

/// The first member at or after position `i` whose key is `key`.
pub open spec fn lookup_from(entries: Seq<(String, Json)>, key: Seq<char>, i: int) -> Option<Json>
    decreases entries.len() - i,
{
    if i < 0 || i >= entries.len() {
        None
    } else if entries[i].0@ == key {
        Some(entries[i].1)
    } else {
        lookup_from(entries, key, i + 1)
    }
}

/// The member `key` of an object; nothing for any other value.
pub open spec fn json_get(v: Json, key: Seq<char>) -> Option<Json> {
    match v {
        Json::Object(entries) => lookup_from(entries@, key, 0),
        _ => None,
    }
}

pub open spec fn text_of(v: Option<Json>) -> Option<Seq<char>> {
    match v {
        Some(Json::Text(s)) => Some(s@),
        _ => None,
    }
}

pub open spec fn bool_of(v: Option<Json>) -> Option<bool> {
    match v {
        Some(Json::Bool(b)) => Some(b),
        _ => None,
    }
}

pub open spec fn int_of(v: Option<Json>) -> Option<i64> {
    match v {
        Some(Json::Number(n)) => n.int,
        _ => None,
    }
}

/// The value is the string `t`.
pub open spec fn json_is_text(v: Json, t: Seq<char>) -> bool {
    match v {
        Json::Text(x) => x@ == t,
        _ => false,
    }
}

/// The text of member `key`, where it is a string.
pub open spec fn field_text(v: Json, key: Seq<char>) -> Option<Seq<char>> {
    text_of(json_get(v, key))
}

/// The value of member `key`, where it is a boolean.
pub open spec fn field_bool(v: Json, key: Seq<char>) -> Option<bool> {
    bool_of(json_get(v, key))
}

impl Json {
    /// The member `key`, where this is an object that has one.
    pub fn get(&self, key: &str) -> (r: Option<&Json>)
        ensures
            r matches Some(x) ==> json_get(*self, key@) == Some(*x),
            r is None ==> json_get(*self, key@) is None,
    {
        match self {
            Json::Object(entries) => {
                let mut i: usize = 0;
                while i < entries.len()
                    invariant
                        i <= entries@.len(),
                        lookup_from(entries@, key@, 0) == lookup_from(entries@, key@, i as int),
                        json_get(*self, key@) == lookup_from(entries@, key@, 0),
                    decreases entries.len() - i,
                {
                    if str_eq(entries[i].0.as_str(), key) {
                        proof {
                            assert(lookup_from(entries@, key@, i as int) == Some(entries@[i as int].1));
                        }
                        return Some(&entries[i].1);
                    }
                    i = i + 1;
                }
                None
            },
            _ => None,
        }
    }

    pub fn as_str(&self) -> (r: Option<&str>)
        ensures
            r matches Some(s) ==> text_of(Some(*self)) == Some(s@),
            r is None ==> text_of(Some(*self)) is None,
    {
        match self {
            Json::Text(s) => Some(s.as_str()),
            _ => None,
        }
    }

    pub fn as_bool(&self) -> (r: Option<bool>)
        ensures
            r == bool_of(Some(*self)),
    {
        match self {
            Json::Bool(b) => Some(*b),
            _ => None,
        }
    }

    pub fn as_i64(&self) -> (r: Option<i64>)
        ensures
            r == int_of(Some(*self)),
    {
        match self {
            Json::Number(n) => n.int,
            _ => None,
        }
    }

    pub fn as_array(&self) -> (r: Option<&Vec<Json>>)
        ensures
            r matches Some(items) ==> *self == Json::Array(*items),
            r is None ==> !(*self is Array),
    {
        match self {
            Json::Array(items) => Some(items),
            _ => None,
        }
    }

    pub fn is_object(&self) -> (b: bool)
        ensures
            b == (*self is Object),
    {
        match self {
            Json::Object(_) => true,
            _ => false,
        }
    }

    /// The text of member `key`, where it is a string.
    pub fn text_field(&self, key: &str) -> (r: Option<&str>)
        ensures
            r matches Some(s) ==> field_text(*self, key@) == Some(s@),
            r is None ==> field_text(*self, key@) is None,
    {
        match self.get(key) {
            Some(v) => v.as_str(),
            None => None,
        }
    }

    /// The value of member `key`, where it is a boolean.
    pub fn bool_field(&self, key: &str) -> (r: Option<bool>)
        ensures
            r == field_bool(*self, key@),
    {
        match self.get(key) {
            Some(v) => v.as_bool(),
            None => None,
        }
    }

    /// An empty object.
    pub fn empty_object() -> (v: Json)
        ensures
            v matches Json::Object(e) && e@.len() == 0,
    {
        Json::Object(Vec::new())
    }
}

/// The text of a boolean or null value as JSON writes it.
pub open spec fn scalar_text(v: Json) -> Option<Seq<char>> {
    match v {
        Json::Null => Some("null"@),
        Json::Bool(b) => Some(
            if b {
                "true"@
            } else {
                "false"@
            },
        ),
        _ => None,
    }
}

fn push_escaped(out: &mut String, text: &str) {
    let n = text.unicode_len();
    let mut i: usize = 0;
    while i < n
        invariant
            n == text@.len(),
            i <= n,
        decreases n - i,
    {
        let c = text.get_char(i);
        if c == '"' {
            out.append("\\\"");
        } else if c == '\\' {
            out.append("\\\\");
        } else if c == '\n' {
            out.append("\\n");
        } else if c == '\r' {
            out.append("\\r");
        } else if c == '\t' {
            out.append("\\t");
        } else if c == '\u{8}' {
            out.append("\\b");
        } else if c == '\u{c}' {
            out.append("\\f");
        } else if (c as u32) < 0x20 {
            let code = c as u32;
            out.append("\\u00");
            string_push(out, hex_digit(code / 16));
            string_push(out, hex_digit(code % 16));
        } else {
            string_push(out, c);
        }
        i = i + 1;
    }
}

fn hex_digit(d: u32) -> char
    requires
        d < 16,
{
    if d < 10 {
        ((d as u8) + 48) as char
    } else {
        ((d as u8) + 87) as char
    }
}

impl Json {
    /// The value written as compact JSON text.
    pub fn render(&self) -> (s: String)
        ensures
            scalar_text(*self) matches Some(t) ==> s@ == t,
        decreases self,
    {
        match self {
            Json::Null => String::from_str("null"),
            Json::Bool(b) => if *b {
                String::from_str("true")
            } else {
                String::from_str("false")
            },
            Json::Number(n) => n.text.clone(),
            Json::Text(t) => {
                let mut out = String::from_str("\"");
                push_escaped(&mut out, t.as_str());
                out.append("\"");
                out
            },
            Json::Array(items) => {
                let mut out = String::from_str("[");
                let mut i: usize = 0;
                while i < items.len()
                    invariant
                        i <= items@.len(),
                        *self == Json::Array(*items),
                    decreases items.len() - i,
                {
                    if i > 0 {
                        out.append(",");
                    }
                    proof {
                        assert(decreases_to!(*self => (*self)->Array_0));
                        assert(decreases_to!(*items => items@));
                        assert(decreases_to!(items@ => items@[i as int]));
                    }
                    let t = items[i].render();
                    out.append(t.as_str());
                    i = i + 1;
                }
                out.append("]");
                out
            },
            Json::Object(entries) => {
                let mut out = String::from_str("{");
                let mut i: usize = 0;
                while i < entries.len()
                    invariant
                        i <= entries@.len(),
                        *self == Json::Object(*entries),
                    decreases entries.len() - i,
                {
                    if i > 0 {
                        out.append(",");
                    }
                    out.append("\"");
                    push_escaped(&mut out, entries[i].0.as_str());
                    out.append("\":");
                    proof {
                        assert(decreases_to!(*self => (*self)->Object_0));
                        assert(decreases_to!(*entries => entries@));
                        assert(decreases_to!(entries@ => entries@[i as int]));
                        assert(decreases_to!(entries@[i as int] => entries@[i as int].1));
                    }
                    let t = entries[i].1.render();
                    out.append(t.as_str());
                    i = i + 1;
                }
                out.append("}");
                out
            },
        }
    }
}

} // verus!
