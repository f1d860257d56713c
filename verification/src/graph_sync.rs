//! The graph projection: Cypher statements that mirror entities and
//! relations, and the reading of governance graph rows.
use vstd::prelude::*;
use crate::text::{chars_of, text_of, push_chars, push_str, alphanumeric, is_alphanumeric};

verus! {

/// A node of the governance map.
#[derive(Debug)]
pub struct GraphNode {
    pub id: i64,
    pub entity_type: String,
    pub name: String,
    pub label: String,
}

/// An edge of the governance map.
#[derive(Debug)]
pub struct GraphEdge {
    pub source: i64,
    pub target: i64,
    pub rel_type: String,
}

/// A character kept in a graph label: letters, digits and underscores stay,
/// anything else becomes an underscore.
pub open spec fn label_char(c: char) -> char {
    if alphanumeric(c) || c == '_' {
        c
    } else {
        '_'
    }
}

/// An entity type or relation name made usable as a graph label.
pub open spec fn sanitized(s: Seq<char>) -> Seq<char> {
    s.map_values(|c: char| label_char(c))
}

/// A sanitized label keeps the length of the name and holds only
/// alphanumeric characters and underscores; a name made of those is kept
/// as it is.
pub proof fn lemma_sanitized_label(s: Seq<char>)
    ensures
        sanitized(s).len() == s.len(),
        forall|i: int|
            0 <= i < s.len() ==> alphanumeric(#[trigger] sanitized(s)[i]) || sanitized(s)[i]
                == '_',
        (forall|i: int| 0 <= i < s.len() ==> alphanumeric(#[trigger] s[i]) || s[i] == '_')
            ==> sanitized(s) == s,
{
    if forall|i: int| 0 <= i < s.len() ==> alphanumeric(#[trigger] s[i]) || s[i] == '_' {
        assert(sanitized(s) =~= s);
    }
}

/// Makes an entity type or relation name usable as a graph label: every
/// character that is neither alphanumeric nor `_` becomes `_`.
pub fn sanitize_label(s: &str) -> (r: String)
    ensures
        r@ == sanitized(s@),
{
    let v = chars_of(s);
    let mut out: Vec<char> = Vec::new();
    let n = v.len();
    for i in 0..n
        invariant
            n == v@.len(),
            out@ == sanitized(v@.subrange(0, i as int)),
    {
        let c = v[i];
        let k = if is_alphanumeric(c) || c == '_' {
            c
        } else {
            '_'
        };
        out.push(k);
        assert(out@ =~= sanitized(v@.subrange(0, i + 1)));
    }
    assert(v@.subrange(0, n as int) =~= v@);
    text_of(out.as_slice())
}

/// The SET items of the property keys, in order.
pub open spec fn property_sets(keys: Seq<String>) -> Seq<char>
    decreases keys.len(),
{
    if keys.len() == 0 {
        Seq::empty()
    } else {
        property_sets(keys.drop_last()) + ", n.`"@ + keys.last()@ + "` = $prop_"@ + keys.last()@
    }
}

/// The statement that creates or updates the node of an entity, with its
/// name, label and the given property keys (each bound as `$prop_<key>`).
pub open spec fn entity_merge_spec(entity_type: Seq<char>, keys: Seq<String>) -> Seq<char> {
    "MERGE (n:"@ + sanitized(entity_type) + " {id: $id}) SET n.name = $name, n.label = $label"@
        + property_sets(keys)
}

/// The statement that mirrors an entity and its properties.
pub fn entity_merge_cypher(entity_type: &str, keys: &Vec<String>) -> (r: String)
    ensures
        r@ == entity_merge_spec(entity_type@, keys@),
{
    let mut out = chars_of("MERGE (n:");
    let lbl = sanitize_label(entity_type);
    push_str(&mut out, lbl.as_str());
    push_str(&mut out, " {id: $id}) SET n.name = $name, n.label = $label");
    let ghost head = out@;
    let n = keys.len();
    for i in 0..n
        invariant
            n == keys@.len(),
            out@ == head + property_sets(keys@.subrange(0, i as int)),
    {
        assert(keys@.subrange(0, i + 1).drop_last() =~= keys@.subrange(0, i as int));
        push_str(&mut out, ", n.`");
        push_str(&mut out, keys[i].as_str());
        push_str(&mut out, "` = $prop_");
        push_str(&mut out, keys[i].as_str());
        assert(out@ =~= head + property_sets(keys@.subrange(0, i + 1)));
    }
    assert(keys@.subrange(0, n as int) =~= keys@);
    text_of(out.as_slice())
}

/// The parameter name of a property: `prop_` and the key.
pub fn property_param(key: &str) -> (r: String)
    ensures
        r@ == "prop_"@ + key@,
{
    let mut out = chars_of("prop_");
    push_str(&mut out, key);
    text_of(out.as_slice())
}

/// The statement that links two nodes by a relation.
pub fn relation_merge_cypher(relation_type: &str) -> (r: String)
    ensures
        r@ == "MATCH (s {id: $src}), (t {id: $tgt}) MERGE (s)-[r:"@ + sanitized(relation_type@)
            + "]->(t)"@,
{
    let mut out = chars_of("MATCH (s {id: $src}), (t {id: $tgt}) MERGE (s)-[r:");
    let lbl = sanitize_label(relation_type);
    push_str(&mut out, lbl.as_str());
    push_str(&mut out, "]->(t)");
    text_of(out.as_slice())
}

/// The statement that removes one relation between two nodes.
pub fn relation_delete_cypher(relation_type: &str) -> (r: String)
    ensures
        r@ == "MATCH (s {id: $src})-[r:"@ + sanitized(relation_type@)
            + "]->(t {id: $tgt}) DELETE r"@,
{
    let mut out = chars_of("MATCH (s {id: $src})-[r:");
    let lbl = sanitize_label(relation_type);
    push_str(&mut out, lbl.as_str());
    push_str(&mut out, "]->(t {id: $tgt}) DELETE r");
    text_of(out.as_slice())
}

/// A node row of the governance map: kept when its id, type and name could
/// be read; a missing label reads as empty.
pub fn governance_node(
    id: Option<i64>,
    entity_type: Option<String>,
    name: Option<String>,
    label: Option<String>,
) -> (r: Option<GraphNode>)
    ensures
        r is Some <==> (id is Some && entity_type is Some && name is Some),
        r matches Some(n) ==> n.id == id->0 && n.entity_type == entity_type->0 && n.name
            == name->0 && (label matches Some(l) ==> n.label == l) && (label is None
            ==> n.label@ == Seq::<char>::empty()),
{
    match (id, entity_type, name) {
        (Some(i), Some(t), Some(n)) => {
            let l = match label {
                Some(l) => l,
                None => String::new(),
            };
            Some(GraphNode { id: i, entity_type: t, name: n, label: l })
        },
        _ => None,
    }
}

/// An edge row of the governance map: kept when all three fields could be
/// read.
pub fn governance_edge(source: Option<i64>, target: Option<i64>, rel_type: Option<String>) -> (r:
    Option<GraphEdge>)
    ensures
        r is Some <==> (source is Some && target is Some && rel_type is Some),
        r matches Some(e) ==> e.source == source->0 && e.target == target->0 && e.rel_type
            == rel_type->0,
{
    match (source, target, rel_type) {
        (Some(s), Some(t), Some(k)) => Some(GraphEdge { source: s, target: t, rel_type: k }),
        _ => None,
    }
}

/// The answer of the capability check: unknown when the query failed (the
/// caller then asks the relational store), the row's flag when a row was
/// read (unknown if the flag could not be read), and "no" when no row came.
pub fn capability_answer(query_ran: bool, first_row: Option<Option<bool>>) -> (r: Option<bool>)
    ensures
        !query_ran ==> r is None,
        query_ran ==> r == match first_row {
            Some(flag) => flag,
            None => Some(false),
        },
{
    if !query_ran {
        return None;
    }
    match first_row {
        Some(flag) => flag,
        None => Some(false),
    }
}

} // verus!
