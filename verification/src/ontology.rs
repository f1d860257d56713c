//! The ontology explorer: schema graph, type summaries, relation patterns,
//! the instance graph and the data browser.
use vstd::prelude::*;
use crate::text::{
    chars_of, text_of, chars_eq, chars_eq_str, replace_char, replace_char_exec, uppercase_of,
    char_to_uppercase, push_chars,
};
use crate::props::pair_views;

verus! {

/// Summary of an entity type for the concepts view.
#[derive(Debug)]
pub struct EntityTypeSummary {
    pub entity_type: String,
    pub count: i64,
    pub property_keys: Vec<String>,
    pub sample_entities: Vec<EntitySample>,
}

/// An entity shown as a sample of its type.
#[derive(Debug)]
pub struct EntitySample {
    pub id: i64,
    pub name: String,
    pub label: String,
}

/// Relation type summary showing connection patterns.
#[derive(Debug)]
pub struct RelationTypeSummary {
    pub name: String,
    pub label: String,
    pub usage_count: i64,
    pub patterns: Vec<RelationPattern>,
}

/// How often a relation type links one entity type to another.
#[derive(Debug)]
pub struct RelationPattern {
    pub source_type: String,
    pub target_type: String,
    pub count: i64,
}

/// Graph node for the force-directed visualization. Its properties are the
/// key/value pairs in the order read; as a map, a later pair wins.
#[derive(Debug)]
pub struct GraphNode {
    pub id: i64,
    pub entity_type: String,
    pub name: String,
    pub label: String,
    pub properties: Vec<(String, String)>,
}

/// Graph edge for the force-directed visualization.
#[derive(Debug)]
pub struct GraphEdge {
    pub source: i64,
    pub target: i64,
    pub relation_type: String,
    pub relation_label: String,
}

/// Complete graph data.
#[derive(Debug)]
pub struct GraphData {
    pub nodes: Vec<GraphNode>,
    pub edges: Vec<GraphEdge>,
    pub entity_types: Vec<String>,
}

/// Schema-level node: one per entity type.
#[derive(Debug)]
pub struct SchemaNode {
    pub id: String,
    pub label: String,
    pub count: i64,
    pub property_keys: Vec<String>,
}

/// Schema-level edge: one per (source type, target type, relation type).
#[derive(Debug)]
pub struct SchemaEdge {
    pub source: String,
    pub target: String,
    pub relation_type: String,
    pub relation_label: String,
    pub count: i64,
}

/// Schema graph data for the concepts view.
#[derive(Debug)]
pub struct SchemaGraphData {
    pub nodes: Vec<SchemaNode>,
    pub edges: Vec<SchemaEdge>,
}

/// Entity row for the data browser list view.
#[derive(Debug)]
pub struct EntityListItem {
    pub id: i64,
    pub entity_type: String,
    pub name: String,
    pub label: String,
}

/// A single property key-value pair.
#[derive(Debug)]
pub struct EntityProperty {
    pub key: String,
    pub value: String,
}

/// A related entity (incoming or outgoing).
#[derive(Debug)]
pub struct RelatedEntity {
    pub id: i64,
    pub entity_type: String,
    pub name: String,
    pub label: String,
    pub relation_type: String,
    pub relation_label: String,
}

/// Full detail of a single entity: base fields, properties and relations.
#[derive(Debug)]
pub struct EntityDetail {
    pub id: i64,
    pub entity_type: String,
    pub name: String,
    pub label: String,
    pub sort_order: i64,
    pub is_active: bool,
    pub created_at: String,
    pub updated_at: String,
    pub properties: Vec<EntityProperty>,
    pub outgoing: Vec<RelatedEntity>,
    pub incoming: Vec<RelatedEntity>,
}

/// The label of an entity type in the schema graph: underscores become
/// spaces, and a first character that is one byte long (ASCII) is put in
/// upper case.
pub open spec fn schema_label_spec(t: Seq<char>) -> Seq<char> {
    let l = replace_char(t, '_', " "@);
    if l.len() > 0 && (l[0] as u32) < 128 {
        uppercase_of(l[0]) + l.drop_first()
    } else {
        l
    }
}

/// The label of an entity type in the schema graph.
pub fn schema_label(t: &str) -> (r: String)
    ensures
        r@ == schema_label_spec(t@),
{
    let tc = chars_of(t);
    let sp = chars_of(" ");
    let l = replace_char_exec(tc.as_slice(), '_', sp.as_slice());
    if l.len() > 0 && (l[0] as u32) < 128 {
        let mut out = char_to_uppercase(l[0]);
        let rest = crate::text::tail_from(l.as_slice(), 1);
        push_chars(&mut out, rest.as_slice());
        assert(rest@ =~= l@.drop_first());
        text_of(out.as_slice())
    } else {
        text_of(l.as_slice())
    }
}

/// The keys listed for type `t`, in order.
pub open spec fn keys_for(type_keys: Seq<(String, String)>, t: Seq<char>) -> Seq<Seq<char>>
    decreases type_keys.len(),
{
    if type_keys.len() == 0 {
        Seq::empty()
    } else if type_keys.last().0@ == t {
        keys_for(type_keys.drop_last(), t).push(type_keys.last().1@)
    } else {
        keys_for(type_keys.drop_last(), t)
    }
}

/// The views of a list of strings.
pub open spec fn string_views(v: Seq<String>) -> Seq<Seq<char>> {
    v.map_values(|s: String| s@)
}

/// A fresh `String` with the same text.
pub fn copy_string(s: &String) -> (r: String)
    ensures
        r@ == s@,
{
    let v = chars_of(s.as_str());
    text_of(v.as_slice())
}

/// The property keys of type `t`.
fn keys_for_exec(type_keys: &Vec<(String, String)>, t: &[char]) -> (r: Vec<String>)
    ensures
        string_views(r@) == keys_for(type_keys@, t@),
{
    let mut out: Vec<String> = Vec::new();
    let n = type_keys.len();
    for i in 0..n
        invariant
            n == type_keys@.len(),
            string_views(out@) == keys_for(type_keys@.subrange(0, i as int), t@),
    {
        let ghost pre = type_keys@.subrange(0, i + 1);
        assert(pre.drop_last() =~= type_keys@.subrange(0, i as int));
        let tt = chars_of(type_keys[i].0.as_str());
        if chars_eq(tt.as_slice(), t) {
            let ghost before = out@;
            out.push(copy_string(&type_keys[i].1));
            assert(string_views(out@) =~= string_views(before).push(type_keys@[i as int].1@));
        }
    }
    assert(type_keys@.subrange(0, n as int) =~= type_keys@);
    out
}

/// The schema node of a type with its count.
pub open spec fn schema_node_matches(
    node: SchemaNode,
    tc: (String, i64),
    type_keys: Seq<(String, String)>,
) -> bool {
    &&& node.id@ == tc.0@
    &&& node.label@ == schema_label_spec(tc.0@)
    &&& node.count == tc.1
    &&& string_views(node.property_keys@) == keys_for(type_keys, tc.0@)
}

/// One schema node per (type, count) row, with the type's property keys.
pub fn schema_nodes(type_counts: &Vec<(String, i64)>, type_keys: &Vec<(String, String)>) -> (r:
    Vec<SchemaNode>)
    ensures
        r@.len() == type_counts@.len(),
        forall|i: int|
            0 <= i < r@.len() ==> schema_node_matches(
                #[trigger] r@[i],
                type_counts@[i],
                type_keys@,
            ),
{
    let mut out: Vec<SchemaNode> = Vec::new();
    let n = type_counts.len();
    for i in 0..n
        invariant
            n == type_counts@.len(),
            out@.len() == i,
            forall|j: int|
                0 <= j < i ==> schema_node_matches(#[trigger] out@[j], type_counts@[j], type_keys@),
    {
        let t = &type_counts[i].0;
        let tc = chars_of(t.as_str());
        let keys = keys_for_exec(type_keys, tc.as_slice());
        out.push(
            SchemaNode {
                id: copy_string(t),
                label: schema_label(t.as_str()),
                count: type_counts[i].1,
                property_keys: keys,
            },
        );
    }
    out
}

/// The view of a sample.
pub open spec fn sample_view(s: EntitySample) -> (i64, Seq<char>, Seq<char>) {
    (s.id, s.name@, s.label@)
}

/// The samples of type `t`, in order.
pub open spec fn samples_for(samples: Seq<(String, EntitySample)>, t: Seq<char>) -> Seq<
    (i64, Seq<char>, Seq<char>),
>
    decreases samples.len(),
{
    if samples.len() == 0 {
        Seq::empty()
    } else if samples.last().0@ == t {
        samples_for(samples.drop_last(), t).push(sample_view(samples.last().1))
    } else {
        samples_for(samples.drop_last(), t)
    }
}

/// How many samples a type summary shows.
pub open spec fn sample_limit() -> int {
    5
}

/// The first samples of type `t`, at most five.
pub open spec fn first_samples(samples: Seq<(String, EntitySample)>, t: Seq<char>) -> Seq<
    (i64, Seq<char>, Seq<char>),
> {
    let all = samples_for(samples, t);
    if all.len() > sample_limit() {
        all.take(sample_limit())
    } else {
        all
    }
}

/// The views of a list of samples.
pub open spec fn sample_views(v: Seq<EntitySample>) -> Seq<(i64, Seq<char>, Seq<char>)> {
    v.map_values(|s: EntitySample| sample_view(s))
}

/// `samples_for` of a prefix is a prefix.
proof fn lemma_samples_for_prefix(samples: Seq<(String, EntitySample)>, t: Seq<char>, i: int)
    requires
        0 <= i <= samples.len(),
    ensures
        samples_for(samples.subrange(0, i), t).len() <= samples_for(samples, t).len(),
        samples_for(samples, t).subrange(0, samples_for(samples.subrange(0, i), t).len() as int)
            == samples_for(samples.subrange(0, i), t),
    decreases samples.len() - i,
{
    if i < samples.len() {
        lemma_samples_for_prefix(samples, t, i + 1);
        let a = samples_for(samples.subrange(0, i), t);
        let b = samples_for(samples.subrange(0, i + 1), t);
        assert(samples.subrange(0, i + 1).drop_last() =~= samples.subrange(0, i));
        let all = samples_for(samples, t);
        assert(all.subrange(0, a.len() as int) =~= b.subrange(0, a.len() as int));
    } else {
        assert(samples.subrange(0, i) =~= samples);
        assert(samples_for(samples, t).subrange(0, samples_for(samples, t).len() as int)
            =~= samples_for(samples, t));
    }
}

/// The first five samples of type `t`.
fn samples_exec(samples: &Vec<(String, EntitySample)>, t: &[char]) -> (r: Vec<EntitySample>)
    ensures
        sample_views(r@) == first_samples(samples@, t@),
{
    let mut out: Vec<EntitySample> = Vec::new();
    let n = samples.len();
    let mut i: usize = 0;
    while i < n && out.len() < 5
        invariant
            i <= n,
            n == samples@.len(),
            out@.len() <= 5,
            sample_views(out@) == samples_for(samples@.subrange(0, i as int), t@),
        decreases n - i,
    {
        let ghost pre = samples@.subrange(0, i + 1);
        assert(pre.drop_last() =~= samples@.subrange(0, i as int));
        let tt = chars_of(samples[i].0.as_str());
        if chars_eq(tt.as_slice(), t) {
            let s = &samples[i].1;
            let ghost before = out@;
            out.push(EntitySample { id: s.id, name: copy_string(&s.name), label: copy_string(&s.label) });
            assert(sample_views(out@) =~= sample_views(before).push(sample_view(*s)));
        }
        i = i + 1;
    }
    proof {
        lemma_samples_for_prefix(samples@, t@, i as int);
        let all = samples_for(samples@, t@);
        if i == n {
            assert(samples@.subrange(0, n as int) =~= samples@);
        } else {
            assert(out@.len() == 5);
        }
        assert(sample_views(out@) =~= first_samples(samples@, t@));
    }
    out
}

/// The summary of a type with its count.
pub open spec fn type_summary_matches(
    s: EntityTypeSummary,
    tc: (String, i64),
    type_keys: Seq<(String, String)>,
    samples: Seq<(String, EntitySample)>,
) -> bool {
    &&& s.entity_type@ == tc.0@
    &&& s.count == tc.1
    &&& string_views(s.property_keys@) == keys_for(type_keys, tc.0@)
    &&& sample_views(s.sample_entities@) == first_samples(samples, tc.0@)
}

/// One summary per (type, count) row: the type's property keys and its
/// first five sample entities.
pub fn entity_type_summaries(
    type_counts: &Vec<(String, i64)>,
    type_keys: &Vec<(String, String)>,
    samples: &Vec<(String, EntitySample)>,
) -> (r: Vec<EntityTypeSummary>)
    ensures
        r@.len() == type_counts@.len(),
        forall|i: int|
            0 <= i < r@.len() ==> type_summary_matches(
                #[trigger] r@[i],
                type_counts@[i],
                type_keys@,
                samples@,
            ),
{
    let mut out: Vec<EntityTypeSummary> = Vec::new();
    let n = type_counts.len();
    for i in 0..n
        invariant
            n == type_counts@.len(),
            out@.len() == i,
            forall|j: int|
                0 <= j < i ==> type_summary_matches(
                    #[trigger] out@[j],
                    type_counts@[j],
                    type_keys@,
                    samples@,
                ),
    {
        let t = &type_counts[i].0;
        let tc = chars_of(t.as_str());
        let keys = keys_for_exec(type_keys, tc.as_slice());
        let smp = samples_exec(samples, tc.as_slice());
        out.push(
            EntityTypeSummary {
                entity_type: copy_string(t),
                count: type_counts[i].1,
                property_keys: keys,
                sample_entities: smp,
            },
        );
    }
    out
}

/// The view of a pattern.
pub open spec fn pattern_view(p: RelationPattern) -> (Seq<char>, Seq<char>, i64) {
    (p.source_type@, p.target_type@, p.count)
}

/// The patterns of relation type `name`, in order.
pub open spec fn patterns_for(patterns: Seq<(String, RelationPattern)>, name: Seq<char>) -> Seq<
    (Seq<char>, Seq<char>, i64),
>
    decreases patterns.len(),
{
    if patterns.len() == 0 {
        Seq::empty()
    } else if patterns.last().0@ == name {
        patterns_for(patterns.drop_last(), name).push(pattern_view(patterns.last().1))
    } else {
        patterns_for(patterns.drop_last(), name)
    }
}

/// The views of a list of patterns.
pub open spec fn pattern_views(v: Seq<RelationPattern>) -> Seq<(Seq<char>, Seq<char>, i64)> {
    v.map_values(|p: RelationPattern| pattern_view(p))
}

/// The patterns of one relation type.
fn patterns_exec(patterns: &Vec<(String, RelationPattern)>, name: &[char]) -> (r: Vec<
    RelationPattern,
>)
    ensures
        pattern_views(r@) == patterns_for(patterns@, name@),
{
    let mut out: Vec<RelationPattern> = Vec::new();
    let n = patterns.len();
    for i in 0..n
        invariant
            n == patterns@.len(),
            pattern_views(out@) == patterns_for(patterns@.subrange(0, i as int), name@),
    {
        let ghost pre = patterns@.subrange(0, i + 1);
        assert(pre.drop_last() =~= patterns@.subrange(0, i as int));
        let nm = chars_of(patterns[i].0.as_str());
        if chars_eq(nm.as_slice(), name) {
            let p = &patterns[i].1;
            let ghost before = out@;
            out.push(
                RelationPattern {
                    source_type: copy_string(&p.source_type),
                    target_type: copy_string(&p.target_type),
                    count: p.count,
                },
            );
            assert(pattern_views(out@) =~= pattern_views(before).push(pattern_view(*p)));
        }
    }
    assert(patterns@.subrange(0, n as int) =~= patterns@);
    out
}

/// Each relation type summary with the patterns of its relation type, in
/// the order the patterns were read.
pub fn relation_type_summaries(
    summaries: Vec<RelationTypeSummary>,
    patterns: &Vec<(String, RelationPattern)>,
) -> (r: Vec<RelationTypeSummary>)
    ensures
        r@.len() == summaries@.len(),
        forall|i: int|
            0 <= i < r@.len() ==> {
                &&& (#[trigger] r@[i]).name == summaries@[i].name
                &&& r@[i].label == summaries@[i].label
                &&& r@[i].usage_count == summaries@[i].usage_count
                &&& pattern_views(r@[i].patterns@) == patterns_for(patterns@, summaries@[i].name@)
            },
{
    let ghost all = summaries@;
    let mut rest = summaries;
    let mut out: Vec<RelationTypeSummary> = Vec::new();
    let n = rest.len();
    let mut i: usize = 0;
    while i < n
        invariant
            i <= n,
            n == all.len(),
            rest@ == all.subrange(i as int, n as int),
            out@.len() == i,
            forall|j: int|
                0 <= j < i ==> {
                    &&& (#[trigger] out@[j]).name == all[j].name
                    &&& out@[j].label == all[j].label
                    &&& out@[j].usage_count == all[j].usage_count
                    &&& pattern_views(out@[j].patterns@) == patterns_for(patterns@, all[j].name@)
                },
        decreases n - i,
    {
        let s = rest.remove(0);
        assert(s == all[i as int]);
        let nm = chars_of(s.name.as_str());
        let ps = patterns_exec(patterns, nm.as_slice());
        out.push(
            RelationTypeSummary {
                name: s.name,
                label: s.label,
                usage_count: s.usage_count,
                patterns: ps,
            },
        );
        assert(rest@ =~= all.subrange(i + 1, n as int));
        i = i + 1;
    }
    out
}

/// The properties of entity `id`, as (key, value) pairs in order.
pub open spec fn properties_of(props: Seq<(i64, String, String)>, id: i64) -> Seq<
    (Seq<char>, Seq<char>),
>
    decreases props.len(),
{
    if props.len() == 0 {
        Seq::empty()
    } else if props.last().0 == id {
        properties_of(props.drop_last(), id).push((props.last().1@, props.last().2@))
    } else {
        properties_of(props.drop_last(), id)
    }
}

/// The properties of one entity.
fn properties_exec(props: &Vec<(i64, String, String)>, id: i64) -> (r: Vec<(String, String)>)
    ensures
        pair_views(r@) == properties_of(props@, id),
{
    let mut out: Vec<(String, String)> = Vec::new();
    let n = props.len();
    for i in 0..n
        invariant
            n == props@.len(),
            pair_views(out@) == properties_of(props@.subrange(0, i as int), id),
    {
        let ghost pre = props@.subrange(0, i + 1);
        assert(pre.drop_last() =~= props@.subrange(0, i as int));
        if props[i].0 == id {
            let ghost before = out@;
            out.push((copy_string(&props[i].1), copy_string(&props[i].2)));
            assert(pair_views(out@) =~= pair_views(before).push((props@[i as int].1@, props@[i as int].2@)));
        }
    }
    assert(props@.subrange(0, n as int) =~= props@);
    out
}

/// Whether no node before position `i` has the id of node `i`.
pub open spec fn first_with_id(nodes: Seq<(i64, String, String, String)>, i: int) -> bool {
    forall|j: int| 0 <= j < i ==> nodes[j].0 != nodes[i].0
}

/// The graph node built from a row.
pub open spec fn graph_node_matches(
    node: GraphNode,
    row: (i64, String, String, String),
    props: Seq<(i64, String, String)>,
    first: bool,
) -> bool {
    &&& node.id == row.0
    &&& node.entity_type@ == row.1@
    &&& node.name@ == row.2@
    &&& node.label@ == row.3@
    &&& pair_views(node.properties@) == if first {
        properties_of(props, row.0)
    } else {
        Seq::empty()
    }
}

/// Whether an earlier row has the same id.
fn id_seen(rows: &Vec<(i64, String, String, String)>, i: usize) -> (r: bool)
    requires
        i < rows@.len(),
    ensures
        r == !first_with_id(rows@, i as int),
{
    let id = rows[i].0;
    for j in 0..i
        invariant
            i < rows@.len(),
            id == rows@[i as int].0,
            forall|k: int| 0 <= k < j ==> rows@[k].0 != id,
    {
        if rows[j].0 == id {
            return true;
        }
    }
    false
}

/// The graph nodes, each (id, type, name, label) row with the properties of
/// its entity attached; a second node with an id already seen gets none
/// (the properties of an entity are handed out once).
pub fn graph_nodes(rows: &Vec<(i64, String, String, String)>, props: &Vec<(i64, String, String)>) -> (r:
    Vec<GraphNode>)
    ensures
        r@.len() == rows@.len(),
        forall|i: int|
            0 <= i < r@.len() ==> graph_node_matches(
                #[trigger] r@[i],
                rows@[i],
                props@,
                first_with_id(rows@, i),
            ),
{
    let mut out: Vec<GraphNode> = Vec::new();
    let n = rows.len();
    for i in 0..n
        invariant
            n == rows@.len(),
            out@.len() == i,
            forall|j: int|
                0 <= j < i ==> graph_node_matches(
                    #[trigger] out@[j],
                    rows@[j],
                    props@,
                    first_with_id(rows@, j),
                ),
    {
        let seen = id_seen(rows, i);
        let properties = if seen {
            let v: Vec<(String, String)> = Vec::new();
            assert(pair_views(v@) =~= Seq::empty());
            v
        } else {
            properties_exec(props, rows[i].0)
        };
        out.push(
            GraphNode {
                id: rows[i].0,
                entity_type: copy_string(&rows[i].1),
                name: copy_string(&rows[i].2),
                label: copy_string(&rows[i].3),
                properties,
            },
        );
    }
    out
}

/// The data browser query and its bound type: all entities, or those of
/// the chosen type when a non-empty type is given.
pub fn entity_list_query(type_filter: Option<&str>) -> (r: (String, Option<String>))
    ensures
        match type_filter {
            Some(t) if t@.len() > 0 => (r.0@
                == "SELECT id, entity_type, name, label FROM entities WHERE entity_type = $1 ORDER BY entity_type, sort_order, id"@
                && (r.1 matches Some(b) && b@ == t@)),
            _ => (r.0@ == "SELECT id, entity_type, name, label FROM entities ORDER BY entity_type, sort_order, id"@
                && r.1 is None),
        },
{
    match type_filter {
        Some(t) => {
            if !t.is_empty() {
                return (
                    String::from_str(
                        "SELECT id, entity_type, name, label FROM entities WHERE entity_type = $1 ORDER BY entity_type, sort_order, id",
                    ),
                    Some(text_of(chars_of(t).as_slice())),
                );
            }
        },
        None => {},
    }
    (
        String::from_str(
            "SELECT id, entity_type, name, label FROM entities ORDER BY entity_type, sort_order, id",
        ),
        None,
    )
}

} // verus!
