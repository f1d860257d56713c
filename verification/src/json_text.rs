//! JSON text stored in properties, read with `serde_json`.
//!
//! What `serde_json::from_str` accepts and yields takes the JSON grammar to
//! state, so its results are named here and the logic built on them is
//! verified for every value of the names.
use vstd::prelude::*;

verus! {

/// What reading `text` as a JSON array gives, for each element, the string
/// members named by `keys` (`None` where the member is absent or not a
/// string, or the element is not an object); `None` when `text` is not a
/// JSON array.
pub uninterp spec fn json_records(text: Seq<char>, keys: Seq<Seq<char>>) -> Option<
    Seq<Seq<Option<Seq<char>>>>,
>;

/// The views of the keys.
pub open spec fn key_views(keys: Seq<&str>) -> Seq<Seq<char>> {
    keys.map_values(|k: &str| k@)
}

/// The views of records read from JSON text.
pub open spec fn records_view(v: Seq<Vec<Option<String>>>) -> Seq<Seq<Option<Seq<char>>>> {
    v.map_values(
        |r: Vec<Option<String>>|
            r@.map_values(
                |f: Option<String>|
                    match f {
                        Some(s) => Some(s@),
                        None => None,
                    },
            ),
    )
}

/// Calls `serde_json::from_str::<Vec<serde_json::Value>>` and keeps, for each
/// element, `element.get(key).and_then(Value::as_str)` for each of `keys`.
/// Each record has one field per key.
#[verifier::external_body]
pub(crate) fn parse_json_records(text: &str, keys: &[&str]) -> (r: Option<Vec<Vec<Option<String>>>>)
    ensures
        r matches Some(v) ==> json_records(text@, key_views(keys@)) == Some(records_view(v@))
            && forall|i: int| 0 <= i < v@.len() ==> (#[trigger] v@[i])@.len() == keys@.len(),
        r is None ==> json_records(text@, key_views(keys@)) is None,
{
    let values: Vec<serde_json::Value> = serde_json::from_str(text).ok()?;
    Some(
        values.iter().map(
            |v| keys.iter().map(|k| v.get(*k).and_then(|x| x.as_str()).map(String::from)).collect(),
        ).collect(),
    )
}

/// What `serde_json::from_str::<Vec<String>>` gives for `text`, `None` on error.
pub uninterp spec fn json_string_list(text: Seq<char>) -> Option<Seq<Seq<char>>>;

/// Calls `serde_json::from_str::<Vec<String>>`.
#[verifier::external_body]
pub(crate) fn parse_json_string_list(text: &str) -> (r: Option<Vec<String>>)
    ensures
        r matches Some(v) ==> json_string_list(text@) == Some(v@.map_values(|s: String| s@)),
        r is None ==> json_string_list(text@) is None,
{
    serde_json::from_str::<Vec<String>>(text).ok()
}

/// What `serde_json::from_str::<Vec<i64>>` gives for `text`, `None` on error.
pub uninterp spec fn json_integer_list(text: Seq<char>) -> Option<Seq<i64>>;

/// Calls `serde_json::from_str::<Vec<i64>>`.
#[verifier::external_body]
pub(crate) fn parse_json_integer_list(text: &str) -> (r: Option<Vec<i64>>)
    ensures
        r matches Some(v) ==> json_integer_list(text@) == Some(v@),
        r is None ==> json_integer_list(text@) is None,
{
    serde_json::from_str::<Vec<i64>>(text).ok()
}

/// A value of a flat JSON object.
#[derive(Debug)]
pub enum JsonScalar {
    Text(String),
    Integer(i64),
}

/// The view of a scalar: its text or its number.
pub enum JsonScalarView {
    Text(Seq<char>),
    Integer(i64),
}

impl View for JsonScalar {
    type V = JsonScalarView;

    open spec fn view(&self) -> JsonScalarView {
        match self {
            JsonScalar::Text(s) => JsonScalarView::Text(s@),
            JsonScalar::Integer(n) => JsonScalarView::Integer(*n),
        }
    }
}

/// The views of the members of an object.
pub open spec fn member_views(m: Seq<(String, JsonScalar)>) -> Seq<(Seq<char>, JsonScalarView)> {
    m.map_values(|p: (String, JsonScalar)| (p.0@, p.1@))
}

/// What `serde_json` writes for the object built by inserting the members
/// in order into a `serde_json::Map` (`Value::to_string`).
pub uninterp spec fn json_object_text(members: Seq<(Seq<char>, JsonScalarView)>) -> Seq<char>;

/// Builds a `serde_json::Map` from the members, each value a
/// `serde_json::Value` string or number, and writes it with `to_string`.
#[verifier::external_body]
pub(crate) fn object_text(members: &Vec<(String, JsonScalar)>) -> (r: String)
    ensures
        r@ == json_object_text(member_views(members@)),
{
    let mut m = serde_json::Map::new();
    for (k, v) in members.iter() {
        let value = match v {
            JsonScalar::Text(s) => serde_json::Value::from(s.clone()),
            JsonScalar::Integer(n) => serde_json::Value::from(*n),
        };
        m.insert(k.clone(), value);
    }
    serde_json::Value::Object(m).to_string()
}

} // verus!
