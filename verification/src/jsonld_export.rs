//! Writing the exported entity graph as a JSON-LD document: the `@context`
//! that names every property key and relation type, and one `@graph` node
//! per entity with its literal properties and its outgoing links.
use vstd::prelude::*;
use crate::text::{chars_of, chars_eq, text_of, push_chars, push_str};
use crate::jsonld::{class_name, ref_iri, entity_type_to_class, ref_to_iri};
use crate::data_manager::{EntityExport, RelationExport, ExportPayload};

verus! {

/// A value of a graph node member.
#[derive(Debug)]
pub enum NodeValue {
    /// A string literal.
    Text(String),
    /// An integer literal.
    Integer(i64),
    /// One link: `{"@id": iri}`.
    Link(String),
    /// Several links: an array of `{"@id": iri}`.
    Links(Vec<String>),
}

/// The view of a node value.
pub enum NodeValueView {
    Text(Seq<char>),
    Integer(i64),
    Link(Seq<char>),
    Links(Seq<Seq<char>>),
}

/// The views of a list of strings.
pub open spec fn string_views(v: Seq<String>) -> Seq<Seq<char>> {
    v.map_values(|s: String| s@)
}

impl View for NodeValue {
    type V = NodeValueView;

    open spec fn view(&self) -> NodeValueView {
        match self {
            NodeValue::Text(s) => NodeValueView::Text(s@),
            NodeValue::Integer(n) => NodeValueView::Integer(*n),
            NodeValue::Link(s) => NodeValueView::Link(s@),
            NodeValue::Links(v) => NodeValueView::Links(string_views(v@)),
        }
    }
}

/// A node of the `@graph`: its members in the order they are set; as a
/// JSON object a later member with the same key replaces an earlier one.
#[derive(Debug)]
pub struct JsonLdNode {
    pub members: Vec<(String, NodeValue)>,
}

/// The views of the members of a node.
pub open spec fn member_views(m: Seq<(String, NodeValue)>) -> Seq<(Seq<char>, NodeValueView)> {
    m.map_values(|p: (String, NodeValue)| (p.0@, p.1@))
}

/// A JSON-LD document: `{"@context": ..., "@graph": [...]}`, the context
/// as key/value pairs in the order set (a later pair wins).
#[derive(Debug)]
pub struct JsonLdDocument {
    pub context: Vec<(String, String)>,
    pub graph: Vec<JsonLdNode>,
}

/// The `"type:name"` reference of an entity.
pub open spec fn entity_ref(e: EntityExport) -> Seq<char> {
    e.entity_type@ + ":"@ + e.name@
}

/// The members every node has: its IRI, its class, its label, and its sort
/// order when it is not 0.
pub open spec fn node_base(e: EntityExport) -> Seq<(Seq<char>, NodeValueView)> {
    seq![
        ("@id"@, NodeValueView::Text("ahlt:"@ + e.entity_type@ + "/"@ + e.name@)),
        ("@type"@, NodeValueView::Text("ahlt:"@ + class_name(e.entity_type@))),
        ("ahlt:label"@, NodeValueView::Text(e.label@)),
    ] + if e.sort_order != 0 {
        seq![("ahlt:sort_order"@, NodeValueView::Integer(e.sort_order))]
    } else {
        Seq::empty()
    }
}

/// The literal members of the properties: `ahlt:<key>` to the value.
pub open spec fn node_literals(ps: Seq<(String, String)>) -> Seq<(Seq<char>, NodeValueView)> {
    ps.map_values(|p: (String, String)| ("ahlt:"@ + p.0@, NodeValueView::Text(p.1@)))
}

/// The relation types used by the relations leaving `src`, each once, in
/// the order they first occur.
pub open spec fn predicates_of(rels: Seq<RelationExport>, src: Seq<char>) -> Seq<Seq<char>>
    decreases rels.len(),
{
    if rels.len() == 0 {
        Seq::empty()
    } else {
        let p = predicates_of(rels.drop_last(), src);
        let r = rels.last();
        if r.source@ == src && !p.contains(r.relation_type@) {
            p.push(r.relation_type@)
        } else {
            p
        }
    }
}

/// The IRIs of the targets of the relations of type `pred` leaving `src`,
/// in order.
pub open spec fn targets_of(rels: Seq<RelationExport>, src: Seq<char>, pred: Seq<char>) -> Seq<
    Seq<char>,
>
    decreases rels.len(),
{
    if rels.len() == 0 {
        Seq::empty()
    } else {
        let t = targets_of(rels.drop_last(), src, pred);
        let r = rels.last();
        if r.source@ == src && r.relation_type@ == pred {
            t.push(ref_iri(r.target@))
        } else {
            t
        }
    }
}

/// The link member of one relation type: a single link, or an array when
/// there are several targets.
pub open spec fn link_member(rels: Seq<RelationExport>, src: Seq<char>, pred: Seq<char>) -> (
    Seq<char>,
    NodeValueView,
) {
    let ts = targets_of(rels, src, pred);
    (
        "ahlt:"@ + pred,
        if ts.len() == 1 {
            NodeValueView::Link(ts[0])
        } else {
            NodeValueView::Links(ts)
        },
    )
}

/// The link members of the entity with reference `src`, one per relation
/// type it uses.
pub open spec fn node_links(rels: Seq<RelationExport>, src: Seq<char>) -> Seq<
    (Seq<char>, NodeValueView),
> {
    predicates_of(rels, src).map_values(|p: Seq<char>| link_member(rels, src, p))
}

/// The members of the node of entity `e`, in the order they are set.
pub open spec fn node_of(e: EntityExport, rels: Seq<RelationExport>) -> Seq<
    (Seq<char>, NodeValueView),
> {
    node_base(e) + node_literals(e.properties@) + node_links(rels, entity_ref(e))
}

/// `"ahlt:"` followed by `s`.
fn ahlt(s: &str) -> (r: String)
    ensures
        r@ == "ahlt:"@ + s@,
{
    let mut v = chars_of("ahlt:");
    push_str(&mut v, s);
    text_of(v.as_slice())
}

/// Whether `x` is among the texts of `v`.
fn holds_text(v: &Vec<String>, x: &[char]) -> (r: bool)
    ensures
        r == string_views(v@).contains(x@),
{
    let n = v.len();
    for i in 0..n
        invariant
            n == v@.len(),
            forall|j: int| 0 <= j < i ==> v@[j]@ != x@,
    {
        let c = chars_of(v[i].as_str());
        if chars_eq(c.as_slice(), x) {
            assert(string_views(v@)[i as int] == x@);
            return true;
        }
    }
    assert forall|j: int| 0 <= j < string_views(v@).len() implies string_views(v@)[j] != x@ by {
        assert(string_views(v@)[j] == v@[j]@);
    }
    false
}

/// The relation types leaving `src`.
fn predicates_exec(rels: &Vec<RelationExport>, src: &[char]) -> (r: Vec<String>)
    ensures
        string_views(r@) == predicates_of(rels@, src@),
{
    let mut out: Vec<String> = Vec::new();
    let n = rels.len();
    for i in 0..n
        invariant
            n == rels@.len(),
            string_views(out@) == predicates_of(rels@.subrange(0, i as int), src@),
    {
        let ghost pre = rels@.subrange(0, i + 1);
        assert(pre.drop_last() =~= rels@.subrange(0, i as int));
        let s = chars_of(rels[i].source.as_str());
        if chars_eq(s.as_slice(), src) {
            let p = chars_of(rels[i].relation_type.as_str());
            if !holds_text(&out, p.as_slice()) {
                let ghost before = out@;
                out.push(text_of(p.as_slice()));
                assert(string_views(out@) =~= string_views(before).push(p@));
            }
        }
    }
    assert(rels@.subrange(0, n as int) =~= rels@);
    out
}

/// The target IRIs of the relations of type `pred` leaving `src`.
fn targets_exec(rels: &Vec<RelationExport>, src: &[char], pred: &[char]) -> (r: Vec<String>)
    ensures
        string_views(r@) == targets_of(rels@, src@, pred@),
{
    let mut out: Vec<String> = Vec::new();
    let n = rels.len();
    for i in 0..n
        invariant
            n == rels@.len(),
            string_views(out@) == targets_of(rels@.subrange(0, i as int), src@, pred@),
    {
        let ghost pre = rels@.subrange(0, i + 1);
        assert(pre.drop_last() =~= rels@.subrange(0, i as int));
        let s = chars_of(rels[i].source.as_str());
        let p = chars_of(rels[i].relation_type.as_str());
        if chars_eq(s.as_slice(), src) && chars_eq(p.as_slice(), pred) {
            let ghost before = out@;
            out.push(ref_to_iri(rels[i].target.as_str()));
            assert(string_views(out@) =~= string_views(before).push(ref_iri(rels@[i as int].target@)));
        }
    }
    assert(rels@.subrange(0, n as int) =~= rels@);
    out
}

/// The node of one entity (see `node_of`).
pub fn entity_node(e: &EntityExport, rels: &Vec<RelationExport>) -> (r: JsonLdNode)
    ensures
        member_views(r.members@) == node_of(*e, rels@),
{
    let mut m: Vec<(String, NodeValue)> = Vec::new();
    let mut iri = chars_of("ahlt:");
    push_str(&mut iri, e.entity_type.as_str());
    push_str(&mut iri, "/");
    push_str(&mut iri, e.name.as_str());
    m.push((String::from_str("@id"), NodeValue::Text(text_of(iri.as_slice()))));
    let class = entity_type_to_class(e.entity_type.as_str());
    m.push((String::from_str("@type"), NodeValue::Text(ahlt(class.as_str()))));
    m.push((String::from_str("ahlt:label"), NodeValue::Text(text_of(chars_of(e.label.as_str()).as_slice()))));
    if e.sort_order != 0 {
        m.push((String::from_str("ahlt:sort_order"), NodeValue::Integer(e.sort_order)));
    }
    assert(member_views(m@) =~= node_base(*e));
    let ghost base = member_views(m@);
    let np = e.properties.len();
    for i in 0..np
        invariant
            np == e.properties@.len(),
            member_views(m@) == base + node_literals(e.properties@.subrange(0, i as int)),
    {
        let ghost before = m@;
        let (k, v) = (&e.properties[i].0, &e.properties[i].1);
        m.push((ahlt(k.as_str()), NodeValue::Text(text_of(chars_of(v.as_str()).as_slice()))));
        let ghost item = ("ahlt:"@ + e.properties@[i as int].0@, NodeValueView::Text(
            e.properties@[i as int].1@,
        ));
        assert(member_views(m@) =~= member_views(before).push(item));
        assert(node_literals(e.properties@.subrange(0, i + 1)) =~= node_literals(
            e.properties@.subrange(0, i as int),
        ).push(item));
        assert(member_views(m@) =~= base + node_literals(e.properties@.subrange(0, i + 1)));
    }
    assert(e.properties@.subrange(0, np as int) =~= e.properties@);
    let ghost with_literals = member_views(m@);
    let mut src = chars_of(e.entity_type.as_str());
    push_str(&mut src, ":");
    push_str(&mut src, e.name.as_str());
    let preds = predicates_exec(rels, src.as_slice());
    let ghost pv = string_views(preds@);
    let k = preds.len();
    for i in 0..k
        invariant
            k == preds@.len(),
            pv == string_views(preds@),
            pv == predicates_of(rels@, src@),
            src@ == entity_ref(*e),
            member_views(m@) == with_literals + pv.subrange(0, i as int).map_values(
                |p: Seq<char>| link_member(rels@, src@, p),
            ),
    {
        let ghost before = m@;
        let pc = chars_of(preds[i].as_str());
        let ts = targets_exec(rels, src.as_slice(), pc.as_slice());
        let key = ahlt(preds[i].as_str());
        let value = if ts.len() == 1 {
            let t0 = text_of(chars_of(ts[0].as_str()).as_slice());
            NodeValue::Link(t0)
        } else {
            NodeValue::Links(ts)
        };
        m.push((key, value));
        assert(pv[i as int] == preds@[i as int]@);
        let ghost item = link_member(rels@, src@, pv[i as int]);
        assert(member_views(m@) =~= member_views(before).push(item));
        assert(pv.subrange(0, i + 1).map_values(|p: Seq<char>| link_member(rels@, src@, p))
            =~= pv.subrange(0, i as int).map_values(|p: Seq<char>| link_member(rels@, src@, p)).push(
            item,
        ));
        assert(member_views(m@) =~= with_literals + pv.subrange(0, i + 1).map_values(
            |p: Seq<char>| link_member(rels@, src@, p),
        ));
    }
    assert(pv.subrange(0, k as int) =~= pv);
    assert(member_views(m@) =~= node_of(*e, rels@));
    JsonLdNode { members: m }
}

/// The views of a list of pairs.
pub open spec fn context_views(c: Seq<(String, String)>) -> Seq<(Seq<char>, Seq<char>)> {
    c.map_values(|p: (String, String)| (p.0@, p.1@))
}

/// The context entries of the relation types: each names `ahlt:<type>`
/// unless its name is already a key of the context.
pub open spec fn context_with_relations(
    base: Seq<(Seq<char>, Seq<char>)>,
    rel_types: Seq<String>,
) -> Seq<(Seq<char>, Seq<char>)>
    decreases rel_types.len(),
{
    if rel_types.len() == 0 {
        base
    } else {
        let c = context_with_relations(base, rel_types.drop_last());
        let r = rel_types.last()@;
        if c.map_values(|p: (Seq<char>, Seq<char>)| p.0).contains(r) {
            c
        } else {
            c.push((r, "ahlt:"@ + r))
        }
    }
}

/// The `@context`: the `ahlt` and `rdf` namespaces, each property key
/// mapped to `ahlt:<key>`, then each relation type not yet named.
pub open spec fn context_spec(keys: Seq<String>, rel_types: Seq<String>) -> Seq<
    (Seq<char>, Seq<char>),
> {
    context_with_relations(
        seq![
            ("ahlt"@, "http://ahlt.local/ontology/"@),
            ("rdf"@, "http://www.w3.org/1999/02/22-rdf-syntax-ns#"@),
        ] + keys.map_values(|k: String| (k@, "ahlt:"@ + k@)),
        rel_types,
    )
}

/// Whether `x` is a key of the context built so far.
fn context_has(c: &Vec<(String, String)>, x: &[char]) -> (r: bool)
    ensures
        r == context_views(c@).map_values(|p: (Seq<char>, Seq<char>)| p.0).contains(x@),
{
    let ghost keys = context_views(c@).map_values(|p: (Seq<char>, Seq<char>)| p.0);
    let n = c.len();
    for i in 0..n
        invariant
            n == c@.len(),
            keys == context_views(c@).map_values(|p: (Seq<char>, Seq<char>)| p.0),
            forall|j: int| 0 <= j < i ==> c@[j].0@ != x@,
    {
        let k = chars_of(c[i].0.as_str());
        if chars_eq(k.as_slice(), x) {
            assert(keys[i as int] == x@);
            return true;
        }
    }
    assert forall|j: int| 0 <= j < keys.len() implies keys[j] != x@ by {
        assert(keys[j] == c@[j].0@);
    }
    false
}

/// The `@context` of an export (see `context_spec`), from the distinct
/// property keys and the relation type names.
pub fn build_context(keys: &Vec<String>, rel_types: &Vec<String>) -> (r: Vec<(String, String)>)
    ensures
        context_views(r@) == context_spec(keys@, rel_types@),
{
    let mut c: Vec<(String, String)> = Vec::new();
    c.push((String::from_str("ahlt"), String::from_str("http://ahlt.local/ontology/")));
    c.push(
        (String::from_str("rdf"), String::from_str("http://www.w3.org/1999/02/22-rdf-syntax-ns#")),
    );
    let ghost head = context_views(c@);
    let n = keys.len();
    for i in 0..n
        invariant
            n == keys@.len(),
            context_views(c@) == head + keys@.subrange(0, i as int).map_values(
                |k: String| (k@, "ahlt:"@ + k@),
            ),
    {
        let ghost before = c@;
        c.push((text_of(chars_of(keys[i].as_str()).as_slice()), ahlt(keys[i].as_str())));
        let ghost item = (keys@[i as int]@, "ahlt:"@ + keys@[i as int]@);
        assert(context_views(c@) =~= context_views(before).push(item));
        assert(keys@.subrange(0, i + 1).map_values(|k: String| (k@, "ahlt:"@ + k@)) =~= keys@.subrange(
            0,
            i as int,
        ).map_values(|k: String| (k@, "ahlt:"@ + k@)).push(item));
        assert(context_views(c@) =~= head + keys@.subrange(0, i + 1).map_values(
            |k: String| (k@, "ahlt:"@ + k@),
        ));
    }
    assert(keys@.subrange(0, n as int) =~= keys@);
    let ghost base = context_views(c@);
    assert(base =~= seq![
        ("ahlt"@, "http://ahlt.local/ontology/"@),
        ("rdf"@, "http://www.w3.org/1999/02/22-rdf-syntax-ns#"@),
    ] + keys@.map_values(|k: String| (k@, "ahlt:"@ + k@)));
    let m = rel_types.len();
    for i in 0..m
        invariant
            m == rel_types@.len(),
            context_views(c@) == context_with_relations(base, rel_types@.subrange(0, i as int)),
    {
        assert(rel_types@.subrange(0, i + 1).drop_last() =~= rel_types@.subrange(0, i as int));
        let r = chars_of(rel_types[i].as_str());
        if !context_has(&c, r.as_slice()) {
            let ghost before = c@;
            c.push((text_of(r.as_slice()), ahlt(rel_types[i].as_str())));
            assert(context_views(c@) =~= context_views(before).push((r@, "ahlt:"@ + r@)));
        }
    }
    assert(rel_types@.subrange(0, m as int) =~= rel_types@);
    c
}

/// The JSON-LD document of an export: its context and one node per
/// entity, in order.
pub fn export_jsonld(payload: &ExportPayload, keys: &Vec<String>, rel_types: &Vec<String>) -> (r:
    JsonLdDocument)
    ensures
        context_views(r.context@) == context_spec(keys@, rel_types@),
        r.graph@.len() == payload.entities@.len(),
        forall|i: int|
            0 <= i < r.graph@.len() ==> member_views((#[trigger] r.graph@[i]).members@) == node_of(
                payload.entities@[i],
                payload.relations@,
            ),
{
    let context = build_context(keys, rel_types);
    let mut graph: Vec<JsonLdNode> = Vec::new();
    let n = payload.entities.len();
    for i in 0..n
        invariant
            n == payload.entities@.len(),
            graph@.len() == i,
            forall|j: int|
                0 <= j < i ==> member_views((#[trigger] graph@[j]).members@) == node_of(
                    payload.entities@[j],
                    payload.relations@,
                ),
    {
        graph.push(entity_node(&payload.entities[i], &payload.relations));
    }
    JsonLdDocument { context, graph }
}

} // verus!
