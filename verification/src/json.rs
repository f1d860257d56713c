//! A JSON document as the library reads it.
//!
//! A document reaches the library already parsed: objects keep their
//! members in the order the parser handed them over, and numbers, arrays
//! and objects also carry the compact text the parser's writer gives for
//! them, which is what a literal property holding such a value is stored
//! as. The library takes that text as it comes and claims nothing about
//! how it was written.
use vstd::prelude::*;
use crate::text::{chars_eq, chars_of};

verus! {

/// A JSON number: its text and, when it is an integer that fits, its value.
pub struct JsonNumber {
    pub text: String,
    pub integer: Option<i64>,
}

/// A JSON value.
pub enum Json {
    Null,
    Bool(bool),
    Number(JsonNumber),
    Str(String),
    /// The items and the compact serialisation of the array.
    Array(Vec<Json>, String),
    /// The members in order and the compact serialisation of the object.
    Object(Vec<(String, Json)>, String),
}

/// The value of the first member named `key`.
pub open spec fn entry_get(entries: Seq<(String, Json)>, key: Seq<char>) -> Option<Json>
    decreases entries.len(),
{
    if entries.len() == 0 {
        None
    } else if entries[0].0@ == key {
        Some(entries[0].1)
    } else {
        entry_get(entries.drop_first(), key)
    }
}

/// `Value::get(key)`: the member of an object, `None` for anything else.
pub open spec fn json_get(v: Json, key: Seq<char>) -> Option<Json> {
    match v {
        Json::Object(es, _) => entry_get(es@, key),
        _ => None,
    }
}

/// `.and_then(Value::as_str)`.
pub open spec fn json_str(v: Option<Json>) -> Option<Seq<char>> {
    match v {
        Some(Json::Str(s)) => Some(s@),
        _ => None,
    }
}

/// `.and_then(Value::as_i64)`.
pub open spec fn json_i64(v: Option<Json>) -> Option<i64> {
    match v {
        Some(Json::Number(n)) => n.integer,
        _ => None,
    }
}

/// The text `Value::to_string` gives for a value kept as a literal
/// (a string is taken without quotes).
pub open spec fn literal_text(v: Json) -> Seq<char> {
    match v {
        Json::Null => "null"@,
        Json::Bool(b) => if b {
            "true"@
        } else {
            "false"@
        },
        Json::Number(n) => n.text@,
        Json::Str(s) => s@,
        Json::Array(_, t) => t@,
        Json::Object(_, t) => t@,
    }
}

pub proof fn lemma_entry_get_prefix(es: Seq<(String, Json)>, key: Seq<char>, i: int)
    requires
        0 <= i <= es.len(),
        forall|j: int| 0 <= j < i ==> es[j].0@ != key,
    ensures
        entry_get(es, key) == entry_get(es.subrange(i, es.len() as int), key),
    decreases i,
{
    if i > 0 {
        lemma_entry_get_prefix(es.drop_first(), key, i - 1);
        assert(es.drop_first().subrange(i - 1, es.len() - 1) =~= es.subrange(i, es.len() as int));
    } else {
        assert(es.subrange(0, es.len() as int) =~= es);
    }
}

/// The value of the first member of `entries` named `key`.
pub fn entries_get<'a>(entries: &'a Vec<(String, Json)>, key: &str) -> (r: Option<&'a Json>)
    ensures
        r matches Some(x) ==> entry_get(entries@, key@) == Some(*x),
        r is None ==> entry_get(entries@, key@) is None,
{
    let kc = chars_of(key);
    let n = entries.len();
    for i in 0..n
        invariant
            n == entries@.len(),
            kc@ == key@,
            forall|j: int| 0 <= j < i ==> entries@[j].0@ != key@,
    {
        let ec = chars_of(entries[i].0.as_str());
        if chars_eq(ec.as_slice(), kc.as_slice()) {
            proof {
                lemma_entry_get_prefix(entries@, key@, i as int);
            }
            return Some(&entries[i].1);
        }
    }
    proof {
        lemma_entry_get_prefix(entries@, key@, n as int);
    }
    None
}

/// `Value::get(key)`.
pub fn get<'a>(v: &'a Json, key: &str) -> (r: Option<&'a Json>)
    ensures
        r matches Some(x) ==> json_get(*v, key@) == Some(*x),
        r is None ==> json_get(*v, key@) is None,
{
    match v {
        Json::Object(es, _) => entries_get(es, key),
        _ => None,
    }
}

/// An optional reference read as an optional value.
pub open spec fn opt_value(v: Option<&Json>) -> Option<Json> {
    match v {
        Some(x) => Some(*x),
        None => None,
    }
}

/// `Value::as_str` on an optional value.
pub fn as_str(v: Option<&Json>) -> (r: Option<String>)
    ensures
        r matches Some(s) ==> json_str(opt_value(v)) == Some(s@),
        r is None ==> json_str(opt_value(v)) is None,
{
    match v {
        Some(Json::Str(s)) => Some(s.clone()),
        _ => None,
    }
}

/// `Value::as_i64` on an optional value.
pub fn as_i64(v: Option<&Json>) -> (r: Option<i64>)
    ensures
        r == json_i64(opt_value(v)),
{
    match v {
        Some(Json::Number(n)) => n.integer,
        _ => None,
    }
}

/// The literal text of a value (see `literal_text`).
pub fn literal_string(v: &Json) -> (r: String)
    ensures
        r@ == literal_text(*v),
{
    match v {
        Json::Null => String::from_str("null"),
        Json::Bool(b) => if *b {
            String::from_str("true")
        } else {
            String::from_str("false")
        },
        Json::Number(n) => n.text.clone(),
        Json::Str(s) => s.clone(),
        Json::Array(_, t) => t.clone(),
        Json::Object(_, t) => t.clone(),
    }
}

} // verus!
