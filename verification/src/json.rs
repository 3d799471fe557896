use vstd::prelude::*;

use crate::text::{parse_i64, parse_i64_str, str_equal};

use serde_json::Value;

verus! {

/// A JSON number, as far as this crate reads it: an integer that fits in
/// `u64`, a negative integer that fits in `i64`, or any other number.
pub enum JsonNumber {
    PosInt(u64),
    NegInt(i64),
    Float,
}

/// A JSON document. Object members keep the order the document gives;
/// a lookup takes the first member with the key.
pub enum Json {
    Null,
    Bool(bool),
    Number(JsonNumber),
    String(String),
    Array(Vec<Json>),
    Object(Vec<(String, Json)>),
}

/// `Value::as_i64`: the number when it is an integer within `i64`.
pub open spec fn as_i64(j: Json) -> Option<i64> {
    match j {
        Json::Number(JsonNumber::PosInt(n)) => if n <= i64::MAX {
            Some(n as i64)
        } else {
            None
        },
        Json::Number(JsonNumber::NegInt(n)) => Some(n),
        _ => None,
    }
}

/// `Value::as_str`.
pub open spec fn as_str(j: Json) -> Option<Seq<char>> {
    match j {
        Json::String(s) => Some(s@),
        _ => None,
    }
}

/// The value of the first member named `key`.
pub open spec fn lookup(members: Seq<(String, Json)>, key: Seq<char>) -> Option<Json>
    decreases members.len(),
{
    if members.len() == 0 {
        None
    } else if members[0].0@ == key {
        Some(members[0].1)
    } else {
        lookup(members.skip(1), key)
    }
}

/// `Value::get` with a key: the member `key` of an object.
pub open spec fn get(j: Json, key: Seq<char>) -> Option<Json> {
    match j {
        Json::Object(members) => lookup(members@, key),
        _ => None,
    }
}

/// `value[key]`: the member `key` of an object, or null.
pub open spec fn member_value(j: Json, key: Seq<char>) -> Json {
    match get(j, key) {
        Some(v) => v,
        None => Json::Null,
    }
}

/// Whether an optional value holds a string.
pub open spec fn opt_str(j: Option<Json>) -> Option<Seq<char>> {
    match j {
        Some(v) => as_str(v),
        None => None,
    }
}

/// The integer a JSON value stands for: an integer number, or a string that
/// parses as one.
pub open spec fn number_of(j: Option<Json>) -> Option<i64> {
    match j {
        None => None,
        Some(v) => match as_i64(v) {
            Some(n) => Some(n),
            None => match as_str(v) {
                Some(s) => parse_i64(s),
                None => None,
            },
        },
    }
}

pub open spec fn deref_opt(o: Option<&Json>) -> Option<Json> {
    match o {
        Some(v) => Some(*v),
        None => None,
    }
}

impl Json {
    /// `Value::as_i64`.
    pub fn as_i64(&self) -> (r: Option<i64>)
        ensures
            r == as_i64(*self),
    {
        match self {
            Json::Number(JsonNumber::PosInt(n)) => if *n <= 0x7fff_ffff_ffff_ffff {
                Some(*n as i64)
            } else {
                None
            },
            Json::Number(JsonNumber::NegInt(n)) => Some(*n),
            _ => None,
        }
    }

    /// `Value::as_str`.
    pub fn as_str(&self) -> (r: Option<&str>)
        ensures
            match r {
                Some(s) => as_str(*self) == Some(s@),
                None => as_str(*self) is None,
            },
    {
        match self {
            Json::String(s) => Some(s.as_str()),
            _ => None,
        }
    }

    /// `Value::as_array`.
    pub fn as_array(&self) -> (r: Option<&Vec<Json>>)
        ensures
            match r {
                Some(items) => *self == Json::Array(*items),
                None => !(*self is Array),
            },
    {
        match self {
            Json::Array(items) => Some(items),
            _ => None,
        }
    }

    /// `Value::get` with a key.
    pub fn get(&self, key: &str) -> (r: Option<&Json>)
        ensures
            deref_opt(r) == get(*self, key@),
    {
        match self {
            Json::Object(members) => {
                let mut i: usize = 0;
                assert(members@.skip(0) == members@);
                while i < members.len()
                    invariant
                        i <= members.len(),
                        *self == Json::Object(*members),
                        lookup(members@, key@) == lookup(members@.skip(i as int), key@),
                    decreases members.len() - i,
                {
                    if str_equal(members[i].0.as_str(), key) {
                        return Some(&members[i].1);
                    }
                    assert(members@.skip(i as int).skip(1) == members@.skip(i + 1));
                    i = i + 1;
                }
                None
            },
            _ => None,
        }
    }
}

/// `value[key]`, null when there is no such member.
pub fn member<'a>(j: &'a Json, key: &str, null: &'a Json) -> (r: &'a Json)
    requires
        *null == Json::Null,
    ensures
        *r == member_value(*j, key@),
{
    match j.get(key) {
        Some(v) => v,
        None => null,
    }
}

/// The integer a JSON value stands for: an integer number, or a string that
/// parses as one.
pub fn number(value: Option<&Json>) -> (r: Option<i64>)
    ensures
        r == number_of(deref_opt(value)),
{
    match value {
        None => None,
        Some(v) => match v.as_i64() {
            Some(n) => Some(n),
            None => match v.as_str() {
                Some(s) => parse_i64_str(s),
                None => None,
            },
        },
    }
}


// ---------------------------------------------------------------------------
// Reading JSON text
// ---------------------------------------------------------------------------

#[verifier::external_type_specification]
#[verifier::external_body]
pub struct ExValue(Value);

/// What `serde_json::from_str::<Value>` makes of a text, in this crate's
/// model: `None` where the text is not JSON.
pub uninterp spec fn json_text(text: Seq<char>) -> Option<Json>;

/// What `serde_json::from_slice::<Value>` makes of bytes, in this crate's
/// model: `None` where the bytes are not JSON.
pub uninterp spec fn json_bytes(bytes: Seq<u8>) -> Option<Json>;

/// A `serde_json::Value` in this crate's model, variant by variant.
#[verifier::external_body]
fn json_of_value(v: &Value) -> Json {
    match v {
        Value::Null => Json::Null,
        Value::Bool(b) => Json::Bool(*b),
        Value::Number(n) => Json::Number(match (n.as_u64(), n.as_i64()) {
            (Some(u), _) => JsonNumber::PosInt(u),
            (None, Some(i)) => JsonNumber::NegInt(i),
            (None, None) => JsonNumber::Float,
        }),
        Value::String(t) => Json::String(t.clone()),
        Value::Array(items) => Json::Array(items.iter().map(json_of_value).collect()),
        Value::Object(map) => Json::Object(map.iter().map(|(k, x)| (k.clone(), json_of_value(x))).collect()),
    }
}

/// `serde_json::from_str::<Value>`, in this crate's model: the result is a
/// function of the text alone, named `json_text`.
#[verifier::external_body]
pub(crate) fn parse_json(text: &str) -> (r: Option<Json>)
    ensures
        r == json_text(text@),
{
    serde_json::from_str::<Value>(text).ok().map(|v| json_of_value(&v))
}

/// `serde_json::from_slice::<Value>`, in this crate's model: the result is
/// a function of the bytes alone, named `json_bytes`.
#[verifier::external_body]
pub(crate) fn parse_json_bytes(bytes: &[u8]) -> (r: Option<Json>)
    ensures
        r == json_bytes(bytes@),
{
    serde_json::from_slice::<Value>(bytes).ok().map(|v| json_of_value(&v))
}

} // verus!
