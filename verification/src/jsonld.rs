//! JSON-LD naming (IRIs, class names) and reading a JSON-LD document back
//! into an import payload.
use vstd::prelude::*;
use crate::text::{
    chars_of, chars_eq_str, text_of, push_chars, push_str, has_prefix, starts_with,
    strip_prefix_or_keep, strip_prefix_or_keep_exec, split_once, split_once_exec, uppercase_of,
    first_index_of,
    char_to_uppercase,
};
use crate::props::{props_map, distinct_keys, props_insert};
use crate::json::{
    Json, entry_get, json_get, json_str, json_i64, literal_text, entries_get, get, as_str, as_i64,
    literal_string,
};
use crate::data_manager::{
    ConflictMode, EntityImport, RelationImport, ImportPayload, EntityImportView,
    RelationImportView, ImportPayloadView, entity_views, relation_views, payload_wf,
};

verus! {

/// The compact namespace prefix of the ontology.
pub open spec fn ahlt_prefix() -> Seq<char> {
    "ahlt:"@
}

/// The full namespace of the ontology.
pub open spec fn ahlt_namespace() -> Seq<char> {
    "http://ahlt.local/ontology/"@
}

// ---------------------------------------------------------------------
// Naming helpers
// ---------------------------------------------------------------------

/// The class name of an entity type: each `_`-separated part with its
/// first character upper-cased, the underscores dropped
/// (`"tor_function"` becomes `"TorFunction"`).
pub open spec fn class_name(s: Seq<char>) -> Seq<char>
    decreases s.len(),
{
    if s.len() == 0 {
        Seq::empty()
    } else {
        let c = s.last();
        let starts_part = s.len() == 1 || s[s.len() - 2] == '_';
        class_name(s.drop_last()) + (if c == '_' {
            Seq::empty()
        } else if starts_part {
            uppercase_of(c)
        } else {
            seq![c]
        })
    }
}

/// Converts an entity type to its PascalCase class name.
pub fn entity_type_to_class(entity_type: &str) -> (r: String)
    ensures
        r@ == class_name(entity_type@),
{
    let s = chars_of(entity_type);
    let n = s.len();
    let mut out: Vec<char> = Vec::new();
    for i in 0..n
        invariant
            n == s@.len(),
            s@ == entity_type@,
            out@ == class_name(s@.subrange(0, i as int)),
    {
        let ghost p = s@.subrange(0, i + 1);
        assert(p.drop_last() =~= s@.subrange(0, i as int));
        assert(p.last() == s@[i as int]);
        assert(i > 0 ==> p[p.len() - 2] == s@[i - 1]);
        let c = s[i];
        if c != '_' {
            if i == 0 || s[i - 1] == '_' {
                let up = char_to_uppercase(c);
                push_chars(&mut out, up.as_slice());
            } else {
                out.push(c);
            }
        }
        assert(out@ =~= class_name(p));
    }
    assert(s@.subrange(0, n as int) =~= s@);
    text_of(out.as_slice())
}

/// The path of an IRI after its namespace, if it is in the ontology.
pub open spec fn iri_path(iri: Seq<char>) -> Option<Seq<char>> {
    if has_prefix(iri, ahlt_prefix()) {
        Some(iri.subrange(ahlt_prefix().len() as int, iri.len() as int))
    } else if has_prefix(iri, ahlt_namespace()) {
        Some(iri.subrange(ahlt_namespace().len() as int, iri.len() as int))
    } else {
        None
    }
}

/// Reading `"ahlt:type/name"` (or the full namespace form) as `(type, name)`.
pub open spec fn iri_type_name(iri: Seq<char>) -> Result<(Seq<char>, Seq<char>), Seq<char>> {
    match iri_path(iri) {
        None => Err("IRI does not start with ahlt: or full namespace: "@ + iri),
        Some(p) => match split_once(p, '/') {
            Some(tn) => Ok(tn),
            None => Err("IRI missing type/name separator: "@ + iri),
        },
    }
}

/// `text` followed by `tail`.
fn concat_str(text: &str, tail: &[char]) -> (r: String)
    ensures
        r@ == text@ + tail@,
{
    let mut v = chars_of(text);
    push_chars(&mut v, tail);
    text_of(v.as_slice())
}

/// Parses an IRI like `"ahlt:tor/budget_committee"` into `("tor", "budget_committee")`.
pub fn iri_to_type_name(iri: &str) -> (r: Result<(String, String), String>)
    ensures
        match r {
            Ok((t, n)) => iri_type_name(iri@) == Ok::<_, Seq<char>>((t@, n@)),
            Err(e) => iri_type_name(iri@) == Err::<(Seq<char>, Seq<char>), _>(e@),
        },
{
    let s = chars_of(iri);
    let p1 = chars_of("ahlt:");
    let p2 = chars_of("http://ahlt.local/ontology/");
    let path: Vec<char>;
    if starts_with(s.as_slice(), p1.as_slice()) {
        path = crate::text::tail_from(s.as_slice(), p1.len());
    } else if starts_with(s.as_slice(), p2.as_slice()) {
        path = crate::text::tail_from(s.as_slice(), p2.len());
    } else {
        return Err(concat_str("IRI does not start with ahlt: or full namespace: ", s.as_slice()));
    }
    match split_once_exec(path.as_slice(), '/') {
        Some((t, n)) => Ok((text_of(t.as_slice()), text_of(n.as_slice()))),
        None => Err(concat_str("IRI missing type/name separator: ", s.as_slice())),
    }
}

/// The IRI of a `"type:name"` reference.
pub open spec fn ref_iri(r: Seq<char>) -> Seq<char> {
    match split_once(r, ':') {
        Some((t, n)) => ahlt_prefix() + t + "/"@ + n,
        None => "ahlt:unknown/"@ + r,
    }
}

/// Converts an `"entity_type:name"` reference to an IRI.
pub fn ref_to_iri(ref_str: &str) -> (r: String)
    ensures
        r@ == ref_iri(ref_str@),
{
    let s = chars_of(ref_str);
    match split_once_exec(s.as_slice(), ':') {
        Some((t, n)) => {
            let mut out = chars_of("ahlt:");
            push_chars(&mut out, t.as_slice());
            push_str(&mut out, "/");
            push_chars(&mut out, n.as_slice());
            text_of(out.as_slice())
        },
        None => concat_str("ahlt:unknown/", s.as_slice()),
    }
}

/// The IRI `ahlt:<type>/<name>` reads back as that type and name when the
/// type holds no `/`.
pub proof fn lemma_type_name_iri(t: Seq<char>, n: Seq<char>)
    requires
        !t.contains('/'),
    ensures
        iri_type_name(ahlt_prefix() + t + "/"@ + n) == Ok::<_, Seq<char>>((t, n)),
{
    let iri = ahlt_prefix() + t + "/"@ + n;
    reveal_strlit("ahlt:");
    reveal_strlit("/");
    assert(iri.subrange(0, 5) =~= "ahlt:"@);
    let path = iri.subrange(5, iri.len() as int);
    assert(path =~= t + "/"@ + n);
    assert(path[t.len() as int] == '/');
    assert forall|j: int| 0 <= j < t.len() implies path[j] != '/' by {
        assert(path[j] == t[j]);
    }
    crate::text::lemma_first_index_of_unique(path, '/', t.len() as int);
    assert(path.subrange(0, t.len() as int) =~= t);
    assert(path.subrange((t.len() + 1) as int, path.len() as int) =~= n);
}

/// A reference written as an IRI reads back as the same type and name,
/// when its type holds no `/` (the IRI's separator).
pub proof fn lemma_ref_iri_round_trip(r: Seq<char>)
    requires
        split_once(r, ':') is Some,
        !(split_once(r, ':')->0).0.contains('/'),
    ensures
        iri_type_name(ref_iri(r)) == Ok::<_, Seq<char>>(split_once(r, ':')->0),
{
    let (t, n) = split_once(r, ':')->0;
    lemma_type_name_iri(t, n);
}

/// An IRI read as a type and name gives a reference whose IRI is the
/// compact form `ahlt:<type>/<name>`, which is the IRI itself when it was
/// written in compact form, provided the type holds no `:`; a text without
/// `:` is an unknown reference.
pub proof fn lemma_iri_reference_iri(iri: Seq<char>, t: Seq<char>, n: Seq<char>, plain: Seq<char>)
    requires
        iri_type_name(iri) == Ok::<_, Seq<char>>((t, n)),
        !t.contains(':'),
        !plain.contains(':'),
    ensures
        ref_iri(t + ":"@ + n) == ahlt_prefix() + t + "/"@ + n,
        has_prefix(iri, ahlt_prefix()) ==> ref_iri(t + ":"@ + n) == iri,
        ref_iri(plain) == "ahlt:unknown/"@ + plain,
{
    reveal_strlit(":");
    reveal_strlit("/");
    reveal_strlit("ahlt:");
    let r = t + ":"@ + n;
    assert(r[t.len() as int] == ':');
    assert forall|j: int| 0 <= j < t.len() implies r[j] != ':' by {
        assert(r[j] == t[j]);
    }
    crate::text::lemma_first_index_of_unique(r, ':', t.len() as int);
    assert(r.subrange(0, t.len() as int) =~= t);
    assert(r.subrange((t.len() + 1) as int, r.len() as int) =~= n);
    if has_prefix(iri, ahlt_prefix()) {
        let path = iri.subrange(5, iri.len() as int);
        crate::text::lemma_first_index_of(path, '/');
        let i = first_index_of(path, '/')->0;
        assert(path =~= path.subrange(0, i) + "/"@ + path.subrange(i + 1, path.len() as int));
        assert(iri =~= iri.subrange(0, 5) + path);
        assert(iri.subrange(0, 5) =~= ahlt_prefix());
    }
    crate::text::lemma_first_index_of(plain, ':');
}

/// Strips the `"ahlt:"` prefix from a property key, if present.
pub fn strip_ahlt_prefix(key: &str) -> (r: String)
    ensures
        r@ == strip_prefix_or_keep(key@, ahlt_prefix()),
{
    let s = chars_of(key);
    let p = chars_of("ahlt:");
    let out = strip_prefix_or_keep_exec(s.as_slice(), p.as_slice());
    text_of(out.as_slice())
}

// ---------------------------------------------------------------------
// Reading a JSON-LD document
// ---------------------------------------------------------------------

/// A relation read from a node: `prop` from `source` to `target_type:target_name`.
pub open spec fn read_relation(
    prop: Seq<char>,
    source: Seq<char>,
    target_type: Seq<char>,
    target_name: Seq<char>,
) -> RelationImportView {
    RelationImportView {
        relation_type: prop,
        source: source,
        target: target_type + ":"@ + target_name,
        properties: Map::empty(),
    }
}

/// Every item has an `@id` member (of any kind).
pub open spec fn all_have_id(items: Seq<Json>) -> bool {
    forall|i: int| 0 <= i < items.len() ==> json_get(#[trigger] items[i], "@id"@) is Some
}

/// The relations named by an array of `{"@id": ..}` items, in order; items
/// whose `@id` is not a string are passed over.
pub open spec fn array_relations(items: Seq<Json>, prop: Seq<char>, source: Seq<char>) -> Result<
    Seq<RelationImportView>,
    Seq<char>,
>
    decreases items.len(),
{
    if items.len() == 0 {
        Ok(Seq::empty())
    } else {
        match array_relations(items.drop_last(), prop, source) {
            Err(e) => Err(e),
            Ok(rs) => match json_str(json_get(items.last(), "@id"@)) {
                None => Ok(rs),
                Some(t) => match iri_type_name(t) {
                    Err(e) => Err(e),
                    Ok((tt, tn)) => Ok(rs.push(read_relation(prop, source, tt, tn))),
                },
            },
        }
    }
}

/// Whether a member key is a JSON-LD keyword or metadata field.
pub open spec fn skipped_key(key: Seq<char>) -> bool {
    (key.len() > 0 && key[0] == '@') || key == "ahlt:label"@ || key == "ahlt:sort_order"@
}

/// Reading one member `(key, val)` of a node whose reference is `source`,
/// given the properties and relations read so far.
pub open spec fn member_step(
    acc: (Map<Seq<char>, Seq<char>>, Seq<RelationImportView>),
    key: Seq<char>,
    val: Json,
    source: Seq<char>,
) -> Result<(Map<Seq<char>, Seq<char>>, Seq<RelationImportView>), Seq<char>> {
    if skipped_key(key) {
        Ok(acc)
    } else {
        let prop = strip_prefix_or_keep(key, ahlt_prefix());
        let literal = Ok((acc.0.insert(prop, literal_text(val)), acc.1));
        match val {
            Json::Object(es, _) => match json_str(entry_get(es@, "@id"@)) {
                Some(t) => match iri_type_name(t) {
                    Err(e) => Err(e),
                    Ok((tt, tn)) => Ok((acc.0, acc.1.push(read_relation(prop, source, tt, tn)))),
                },
                None => literal,
            },
            Json::Array(items, _) => if items@.len() > 0 && all_have_id(items@) {
                match array_relations(items@, prop, source) {
                    Err(e) => Err(e),
                    Ok(rs) => Ok((acc.0, acc.1 + rs)),
                }
            } else {
                literal
            },
            _ => literal,
        }
    }
}

/// Reading the members of a node in order; the first error stops.
pub open spec fn members_result(es: Seq<(String, Json)>, source: Seq<char>) -> Result<
    (Map<Seq<char>, Seq<char>>, Seq<RelationImportView>),
    Seq<char>,
>
    decreases es.len(),
{
    if es.len() == 0 {
        Ok((Map::empty(), Seq::empty()))
    } else {
        match members_result(es.drop_last(), source) {
            Err(e) => Err(e),
            Ok(acc) => member_step(acc, es.last().0@, es.last().1, source),
        }
    }
}

/// Reading the members of one `@graph` node: its entity and the relations
/// it states.
pub open spec fn node_members_result(es: Seq<(String, Json)>) -> Result<
    (EntityImportView, Seq<RelationImportView>),
    Seq<char>,
> {
    match json_str(entry_get(es, "@id"@)) {
        None => Err("Each node must have @id"@),
        Some(id) => match iri_type_name(id) {
            Err(e) => Err(e),
            Ok((et, name)) => {
                let label = match json_str(entry_get(es, "ahlt:label"@)) {
                    Some(l) => l,
                    None => name,
                };
                let sort_order = match json_i64(entry_get(es, "ahlt:sort_order"@)) {
                    Some(v) => v,
                    None => 0,
                };
                match members_result(es, et + ":"@ + name) {
                    Err(e) => Err(e),
                    Ok((props, rels)) => Ok(
                        (
                            EntityImportView {
                                entity_type: et,
                                name: name,
                                label: label,
                                sort_order: sort_order,
                                properties: props,
                            },
                            rels,
                        ),
                    ),
                }
            },
        },
    }
}

/// Reading one `@graph` node: its entity and the relations it states.
pub open spec fn node_result(node: Json) -> Result<(EntityImportView, Seq<RelationImportView>), Seq<char>> {
    match node {
        Json::Object(es, _) => node_members_result(es@),
        _ => Err("Each @graph item must be an object"@),
    }
}

/// Reading all nodes in order: entities one per node, relations in the
/// order the nodes state them.
pub open spec fn nodes_result(nodes: Seq<Json>) -> Result<
    (Seq<EntityImportView>, Seq<RelationImportView>),
    Seq<char>,
>
    decreases nodes.len(),
{
    if nodes.len() == 0 {
        Ok((Seq::empty(), Seq::empty()))
    } else {
        match nodes_result(nodes.drop_last()) {
            Err(e) => Err(e),
            Ok((ents, rels)) => match node_result(nodes.last()) {
                Err(e) => Err(e),
                Ok((ent, node_rels)) => Ok((ents.push(ent), rels + node_rels)),
            },
        }
    }
}

/// The conflict mode a document asks for.
pub open spec fn conflict_mode_of(es: Seq<(String, Json)>) -> ConflictMode {
    match json_str(entry_get(es, "ahlt:conflict_mode"@)) {
        Some(s) => if s == "upsert"@ {
            ConflictMode::Upsert
        } else if s == "fail"@ {
            ConflictMode::Fail
        } else {
            ConflictMode::Skip
        },
        None => ConflictMode::Skip,
    }
}

/// What reading a JSON-LD document gives.
pub open spec fn jsonld_payload(v: Json) -> Result<ImportPayloadView, Seq<char>> {
    match v {
        Json::Object(es, _) => match entry_get(es@, "@graph"@) {
            Some(Json::Array(items, _)) => match nodes_result(items@) {
                Err(e) => Err(e),
                Ok((ents, rels)) => Ok(
                    ImportPayloadView {
                        conflict_mode: conflict_mode_of(es@),
                        entities: ents,
                        relations: rels,
                    },
                ),
            },
            _ => Err("JSON-LD must contain @graph array"@),
        },
        _ => Err("JSON-LD must be an object"@),
    }
}

proof fn lemma_array_relations_err(items: Seq<Json>, prop: Seq<char>, source: Seq<char>, i: int)
    requires
        0 <= i <= items.len(),
        array_relations(items.subrange(0, i), prop, source) is Err,
    ensures
        array_relations(items, prop, source) == array_relations(items.subrange(0, i), prop, source),
    decreases items.len() - i,
{
    if i == items.len() {
        assert(items.subrange(0, i) =~= items);
    } else {
        let t = items.drop_last();
        assert(t.subrange(0, i) =~= items.subrange(0, i));
        lemma_array_relations_err(t, prop, source, i);
    }
}

proof fn lemma_members_err(es: Seq<(String, Json)>, source: Seq<char>, i: int)
    requires
        0 <= i <= es.len(),
        members_result(es.subrange(0, i), source) is Err,
    ensures
        members_result(es, source) == members_result(es.subrange(0, i), source),
    decreases es.len() - i,
{
    if i == es.len() {
        assert(es.subrange(0, i) =~= es);
    } else {
        let t = es.drop_last();
        assert(t.subrange(0, i) =~= es.subrange(0, i));
        lemma_members_err(t, source, i);
    }
}

proof fn lemma_nodes_err(nodes: Seq<Json>, i: int)
    requires
        0 <= i <= nodes.len(),
        nodes_result(nodes.subrange(0, i)) is Err,
    ensures
        nodes_result(nodes) == nodes_result(nodes.subrange(0, i)),
    decreases nodes.len() - i,
{
    if i == nodes.len() {
        assert(nodes.subrange(0, i) =~= nodes);
    } else {
        let t = nodes.drop_last();
        assert(t.subrange(0, i) =~= nodes.subrange(0, i));
        lemma_nodes_err(t, i);
    }
}

/// The relation `prop` from `source` to the entity named by `target_iri`.
fn make_relation(prop: &[char], source: &[char], target_iri: &str) -> (r: Result<
    RelationImport,
    String,
>)
    ensures
        match r {
            Ok(rel) => iri_type_name(target_iri@) matches Ok((tt, tn)) && rel@ == read_relation(
                prop@,
                source@,
                tt,
                tn,
            ) && rel.properties@.len() == 0,
            Err(e) => iri_type_name(target_iri@) == Err::<(Seq<char>, Seq<char>), _>(e@),
        },
{
    match iri_to_type_name(target_iri) {
        Err(e) => Err(e),
        Ok((tt, tn)) => {
            let mut target = chars_of(tt.as_str());
            push_str(&mut target, ":");
            push_str(&mut target, tn.as_str());
            let rel = RelationImport {
                relation_type: text_of(prop),
                source: text_of(source),
                target: text_of(target.as_slice()),
                properties: Vec::new(),
            };
            assert(props_map(rel.properties@) =~= Map::empty());
            Ok(rel)
        },
    }
}

/// Whether every item has an `@id` member.
fn all_items_have_id(items: &Vec<Json>) -> (r: bool)
    ensures
        r == all_have_id(items@),
{
    let n = items.len();
    for i in 0..n
        invariant
            n == items@.len(),
            forall|j: int| 0 <= j < i ==> json_get(#[trigger] items@[j], "@id"@) is Some,
    {
        if get(&items[i], "@id").is_none() {
            return false;
        }
    }
    true
}

/// Reads the relations of an array of references, appending them to `rels`.
fn read_array_relations(
    items: &Vec<Json>,
    prop: &[char],
    source: &[char],
    rels: &mut Vec<RelationImport>,
) -> (r: Result<(), String>)
    requires
        forall|i: int| 0 <= i < old(rels)@.len() ==> distinct_keys(#[trigger] old(rels)@[i].properties@),
    ensures
        forall|i: int| 0 <= i < final(rels)@.len() ==> distinct_keys(#[trigger] final(rels)@[i].properties@),
        match r {
            Ok(_) => array_relations(items@, prop@, source@) matches Ok(rs) && relation_views(
                final(rels)@,
            ) == relation_views(old(rels)@) + rs,
            Err(e) => array_relations(items@, prop@, source@) == Err::<Seq<RelationImportView>, _>(
                e@,
            ),
        },
{
    let ghost start = relation_views(rels@);
    let n = items.len();
    for i in 0..n
        invariant
            n == items@.len(),
            forall|k: int| 0 <= k < rels@.len() ==> distinct_keys(#[trigger] rels@[k].properties@),
            array_relations(items@.subrange(0, i as int), prop@, source@) matches Ok(rs)
                && relation_views(rels@) == start + rs,
    {
        let ghost pre = items@.subrange(0, i as int);
        let ghost rs0 = array_relations(pre, prop@, source@)->Ok_0;
        assert(items@.subrange(0, i + 1).drop_last() =~= pre);
        assert(items@.subrange(0, i + 1).last() == items@[i as int]);
        let id = as_str(get(&items[i], "@id"));
        match id {
            Some(t) => {
                match make_relation(prop, source, t.as_str()) {
                    Err(e) => {
                        proof {
                            lemma_array_relations_err(items@, prop@, source@, i + 1);
                        }
                        return Err(e);
                    },
                    Ok(rel) => {
                        let ghost before = rels@;
                        rels.push(rel);
                        assert(relation_views(rels@) =~= relation_views(before).push(rel@));
                        assert(distinct_keys(rel.properties@));
                    },
                }
            },
            None => {},
        }
        assert(array_relations(items@.subrange(0, i + 1), prop@, source@) matches Ok(rs)
            && relation_views(rels@) =~= start + rs);
    }
    assert(items@.subrange(0, n as int) =~= items@);
    Ok(())
}

/// Reads the members of a node; properties go to `props`, relations to `rels`.
fn read_members(
    es: &Vec<(String, Json)>,
    source: &[char],
    props: &mut Vec<(String, String)>,
    rels: &mut Vec<RelationImport>,
) -> (r: Result<(), String>)
    requires
        old(props)@.len() == 0,
        forall|i: int| 0 <= i < old(rels)@.len() ==> distinct_keys(#[trigger] old(rels)@[i].properties@),
    ensures
        distinct_keys(final(props)@),
        forall|i: int| 0 <= i < final(rels)@.len() ==> distinct_keys(#[trigger] final(rels)@[i].properties@),
        match r {
            Ok(_) => members_result(es@, source@) matches Ok((pm, rs)) && pm == props_map(
                final(props)@,
            ) && relation_views(final(rels)@) == relation_views(old(rels)@) + rs,
            Err(e) => members_result(es@, source@) == Err::<
                (Map<Seq<char>, Seq<char>>, Seq<RelationImportView>),
                _,
            >(e@),
        },
{
    let ghost start = relation_views(rels@);
    assert(props_map(props@) =~= Map::empty());
    assert(relation_views(rels@) =~= start + Seq::<RelationImportView>::empty());
    let n = es.len();
    for i in 0..n
        invariant
            n == es@.len(),
            distinct_keys(props@),
            forall|k: int| 0 <= k < rels@.len() ==> distinct_keys(#[trigger] rels@[k].properties@),
            members_result(es@.subrange(0, i as int), source@) matches Ok((pm, rs)) && pm
                == props_map(props@) && relation_views(rels@) == start + rs,
    {
        let ghost pre = es@.subrange(0, i as int);
        assert(es@.subrange(0, i + 1).drop_last() =~= pre);
        assert(es@.subrange(0, i + 1).last() == es@[i as int]);
        let ghost acc = members_result(pre, source@)->Ok_0;
        let key = &es[i].0;
        let val = &es[i].1;
        let kc = chars_of(key.as_str());
        let skip = (kc.len() > 0 && kc[0] == '@') || chars_eq_str(kc.as_slice(), "ahlt:label")
            || chars_eq_str(kc.as_slice(), "ahlt:sort_order");
        if !skip {
            let prop = strip_ahlt_prefix(key.as_str());
            let pc = chars_of(prop.as_str());
            let mut literal = true;
            match val {
                Json::Object(inner, _) => {
                    let id = as_str(entries_get(inner, "@id"));
                    match id {
                        Some(t) => {
                            match make_relation(pc.as_slice(), source, t.as_str()) {
                                Err(e) => {
                                    proof {
                                        lemma_members_err(es@, source@, i + 1);
                                    }
                                    return Err(e);
                                },
                                Ok(rel) => {
                                    let ghost before = rels@;
                                    rels.push(rel);
                                    assert(relation_views(rels@) =~= relation_views(before).push(
                                        rel@,
                                    ));
                                    assert(distinct_keys(rel.properties@));
                                    literal = false;
                                },
                            }
                        },
                        None => {},
                    }
                },
                Json::Array(items, _) => {
                    if items.len() > 0 && all_items_have_id(items) {
                        let ghost before = relation_views(rels@);
                        match read_array_relations(items, pc.as_slice(), source, rels) {
                            Err(e) => {
                                proof {
                                    lemma_members_err(es@, source@, i + 1);
                                }
                                return Err(e);
                            },
                            Ok(_) => {
                                literal = false;
                            },
                        }
                    }
                },
                _ => {},
            }
            if literal {
                let text = literal_string(val);
                props_insert(props, prop, text);
            }
        }
        assert(members_result(es@.subrange(0, i + 1), source@) matches Ok((pm, rs)) && pm
            =~= props_map(props@) && relation_views(rels@) =~= start + rs);
    }
    assert(es@.subrange(0, n as int) =~= es@);
    Ok(())
}

/// Reads one `@graph` node, appending its relations to `rels`.
fn read_node(node: &Json, rels: &mut Vec<RelationImport>) -> (r: Result<EntityImport, String>)
    requires
        forall|i: int| 0 <= i < old(rels)@.len() ==> distinct_keys(#[trigger] old(rels)@[i].properties@),
    ensures
        forall|i: int| 0 <= i < final(rels)@.len() ==> distinct_keys(#[trigger] final(rels)@[i].properties@),
        match r {
            Ok(ent) => node_result(*node) matches Ok((ev, rs)) && ent@ == ev && relation_views(
                final(rels)@,
            ) == relation_views(old(rels)@) + rs && distinct_keys(ent.properties@),
            Err(e) => node_result(*node) == Err::<
                (EntityImportView, Seq<RelationImportView>),
                _,
            >(e@),
        },
{
    match node {
        Json::Object(es, _) => {
            let id = match as_str(entries_get(es, "@id")) {
                Some(s) => s,
                None => {
                    return Err(String::from_str("Each node must have @id"));
                },
            };
            let (entity_type, name) = match iri_to_type_name(id.as_str()) {
                Ok(tn) => tn,
                Err(e) => {
                    return Err(e);
                },
            };
            let label = match as_str(entries_get(es, "ahlt:label")) {
                Some(l) => l,
                None => name.clone(),
            };
            let sort_order = match as_i64(entries_get(es, "ahlt:sort_order")) {
                Some(v) => v,
                None => 0,
            };
            let mut source = chars_of(entity_type.as_str());
            push_str(&mut source, ":");
            push_str(&mut source, name.as_str());
            let mut properties: Vec<(String, String)> = Vec::new();
            match read_members(es, source.as_slice(), &mut properties, rels) {
                Err(e) => {
                    return Err(e);
                },
                Ok(_) => {},
            }
            Ok(EntityImport { entity_type, name, label, sort_order, properties })
        },
        _ => Err(String::from_str("Each @graph item must be an object")),
    }
}

/// Parses a JSON-LD document (`@graph` of nodes) back into an import payload.
pub fn parse_jsonld(value: &Json) -> (r: Result<ImportPayload, String>)
    ensures
        match r {
            Ok(p) => jsonld_payload(*value) == Ok::<_, Seq<char>>(p@) && payload_wf(p),
            Err(e) => jsonld_payload(*value) == Err::<ImportPayloadView, _>(e@),
        },
{
    let es = match value {
        Json::Object(es, _) => es,
        _ => {
            return Err(String::from_str("JSON-LD must be an object"));
        },
    };
    let mode_text = as_str(entries_get(es, "ahlt:conflict_mode"));
    let conflict_mode = match mode_text {
        Some(s) => {
            let sc = chars_of(s.as_str());
            if chars_eq_str(sc.as_slice(), "upsert") {
                ConflictMode::Upsert
            } else if chars_eq_str(sc.as_slice(), "fail") {
                ConflictMode::Fail
            } else {
                ConflictMode::Skip
            }
        },
        None => ConflictMode::Skip,
    };
    let graph = match entries_get(es, "@graph") {
        Some(Json::Array(items, _)) => items,
        _ => {
            return Err(String::from_str("JSON-LD must contain @graph array"));
        },
    };
    let mut entities: Vec<EntityImport> = Vec::new();
    let mut relations: Vec<RelationImport> = Vec::new();
    let n = graph.len();
    assert(conflict_mode == conflict_mode_of(es@));
    assert(jsonld_payload(*value) == match nodes_result(graph@) {
        Err(e) => Err(e),
        Ok((ents, rels)) => Ok(
            ImportPayloadView { conflict_mode: conflict_mode, entities: ents, relations: rels },
        ),
    });
    for i in 0..n
        invariant
            n == graph@.len(),
            jsonld_payload(*value) == match nodes_result(graph@) {
                Err(e) => Err(e),
                Ok((ents, rels)) => Ok(
                    ImportPayloadView { conflict_mode: conflict_mode, entities: ents, relations: rels },
                ),
            },
            forall|k: int| 0 <= k < relations@.len() ==> distinct_keys(#[trigger] relations@[k].properties@),
            forall|k: int| 0 <= k < entities@.len() ==> distinct_keys(#[trigger] entities@[k].properties@),
            nodes_result(graph@.subrange(0, i as int)) matches Ok((ents, rels)) && ents
                == entity_views(entities@) && rels == relation_views(relations@),
    {
        let ghost pre = graph@.subrange(0, i as int);
        assert(graph@.subrange(0, i + 1).drop_last() =~= pre);
        assert(graph@.subrange(0, i + 1).last() == graph@[i as int]);
        match read_node(&graph[i], &mut relations) {
            Err(e) => {
                proof {
                    lemma_nodes_err(graph@, i + 1);
                }
                return Err(e);
            },
            Ok(ent) => {
                let ghost before = entities@;
                entities.push(ent);
                assert(entity_views(entities@) =~= entity_views(before).push(ent@));
            },
        }
    }
    assert(graph@.subrange(0, n as int) =~= graph@);
    Ok(ImportPayload { conflict_mode, entities, relations })
}

/// The conflict mode of an import read from a JSON-LD document is the one
/// its `ahlt:conflict_mode` member names: `upsert` for the string
/// "upsert", `fail` for "fail", and `skip` for any other value or when the
/// member is absent.
pub proof fn lemma_document_conflict_mode(j: Json)
    ensures
        jsonld_payload(j) matches Ok(p) ==> match j {
            Json::Object(es, _) => match entry_get(es@, "ahlt:conflict_mode"@) {
                Some(Json::Str(m)) => (m@ == "upsert"@ ==> p.conflict_mode == ConflictMode::Upsert)
                    && (m@ == "fail"@ ==> p.conflict_mode == ConflictMode::Fail) && (m@ != "upsert"@
                    && m@ != "fail"@ ==> p.conflict_mode == ConflictMode::Skip),
                _ => p.conflict_mode == ConflictMode::Skip,
            },
            _ => false,
        },
{
    reveal_strlit("upsert");
    reveal_strlit("fail");
    assert("upsert"@ != "fail"@) by {
        assert("upsert"@.len() != "fail"@.len());
    }
}

/// A node read as an entity takes its type and name from its `@id` IRI
/// (`ahlt:<type>/<name>`), its label from its `ahlt:label` string (its name
/// when there is none) and its sort order from its `ahlt:sort_order`
/// integer (0 when there is none); a node without a string `@id` is
/// refused.
pub proof fn lemma_node_entity_fields(es: Seq<(String, Json)>)
    ensures
        json_str(entry_get(es, "@id"@)) is None ==> node_members_result(es) is Err,
        node_members_result(es) matches Ok(r) ==> {
            &&& json_str(entry_get(es, "@id"@)) matches Some(id) && iri_type_name(id) == Ok::<
                _,
                Seq<char>,
            >((r.0.entity_type, r.0.name))
            &&& r.0.label == match entry_get(es, "ahlt:label"@) {
                Some(Json::Str(l)) => l@,
                _ => r.0.name,
            }
            &&& r.0.sort_order == match entry_get(es, "ahlt:sort_order"@) {
                Some(Json::Number(n)) => match n.integer {
                    Some(v) => v,
                    None => 0,
                },
                _ => 0,
            }
        },
{
}

} // verus!
