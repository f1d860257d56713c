//! Reading an exported node back: the JSON-LD reader applied to the node
//! that the writer makes for an entity gives back the entity and the
//! relations it states.
use vstd::prelude::*;
use crate::text::{split_once, strip_prefix_or_keep, has_prefix, lemma_first_index_of};
use crate::props::{props_map, distinct_keys};
use crate::jsonld_member_order::{members_distinct, lemma_node_reading_ignores_member_order};
use crate::json::{Json, JsonNumber, entry_get, json_str, json_i64, json_get, literal_text};
use crate::jsonld::{
    ahlt_prefix, iri_type_name, ref_iri, read_relation, skipped_key, member_step, members_result,
    node_result, node_members_result, array_relations, all_have_id, lemma_type_name_iri, lemma_ref_iri_round_trip,
};
use crate::data_manager::{EntityExport, RelationExport, EntityImportView, RelationImportView};
use crate::jsonld_export::{
    NodeValueView, node_of, node_base, node_literals, node_links, link_member, predicates_of,
    targets_of, entity_ref,
};

verus! {

/// `v` is the JSON object `{"@id": iri}`.
pub open spec fn link_repr(v: Json, iri: Seq<char>) -> bool {
    match v {
        Json::Object(es, _) => es@.len() == 1 && es@[0].0@ == "@id"@ && (es@[0].1 matches Json::Str(
            t,
        ) && t@ == iri),
        _ => false,
    }
}

/// `v` is the JSON form of the member value `x`.
pub open spec fn value_repr(v: Json, x: NodeValueView) -> bool {
    match x {
        NodeValueView::Text(s) => (v matches Json::Str(t) && t@ == s),
        NodeValueView::Integer(n) => (v matches Json::Number(num) && num.integer == Some(n)),
        NodeValueView::Link(iri) => link_repr(v, iri),
        NodeValueView::Links(iris) => match v {
            Json::Array(items, _) => items@.len() == iris.len() && forall|k: int|
                0 <= k < iris.len() ==> link_repr(#[trigger] items@[k], iris[k]),
            _ => false,
        },
    }
}

/// The members of a JSON object, in order, are the node's members.
pub open spec fn members_repr(es: Seq<(String, Json)>, m: Seq<(Seq<char>, NodeValueView)>) -> bool {
    &&& es.len() == m.len()
    &&& forall|i: int| 0 <= i < es.len() ==> (#[trigger] es[i]).0@ == m[i].0 && value_repr(es[i].1, m[i].1)
}

/// `j` is the JSON object of a node, its members in the order written.
pub open spec fn node_repr(j: Json, m: Seq<(Seq<char>, NodeValueView)>) -> bool {
    match j {
        Json::Object(es, _) => members_repr(es@, m),
        _ => false,
    }
}

/// Reading one more member.
proof fn lemma_members_step(es: Seq<(String, Json)>, k: int, source: Seq<char>)
    requires
        0 <= k < es.len(),
    ensures
        members_result(es.take(k + 1), source) == match members_result(es.take(k), source) {
            Err(e) => Err(e),
            Ok(acc) => member_step(acc, es[k].0@, es[k].1, source),
        },
{
    assert(es.take(k + 1).drop_last() =~= es.take(k));
    assert(es.take(k + 1).last() == es[k]);
}

/// `ahlt:<k>` as a member key: read back as `k`, and not a skipped key
/// unless `k` is `label` or `sort_order`.
proof fn lemma_ahlt_key(k: Seq<char>)
    ensures
        strip_prefix_or_keep(ahlt_prefix() + k, ahlt_prefix()) == k,
        skipped_key(ahlt_prefix() + k) <==> (k == "label"@ || k == "sort_order"@),
        (ahlt_prefix() + k == "ahlt:sort_order"@) <==> (k == "sort_order"@),
{
    reveal_strlit("ahlt:");
    reveal_strlit("ahlt:label");
    reveal_strlit("ahlt:sort_order");
    reveal_strlit("label");
    reveal_strlit("sort_order");
    let key = ahlt_prefix() + k;
    assert(key.subrange(0, 5) =~= ahlt_prefix());
    assert(key.subrange(5, key.len() as int) =~= k);
    assert(key[0] == 'a');
    if key == "ahlt:label"@ {
        assert("ahlt:label"@.subrange(5, 10) =~= "label"@);
    }
    if k == "label"@ {
        assert(key =~= "ahlt:label"@);
    }
    if key == "ahlt:sort_order"@ {
        assert("ahlt:sort_order"@.subrange(5, 15) =~= "sort_order"@);
    }
    if k == "sort_order"@ {
        assert(key =~= "ahlt:sort_order"@);
    }
}

/// Joining the two parts of a split gives back the text.
proof fn lemma_split_join(s: Seq<char>)
    requires
        split_once(s, ':') is Some,
    ensures
        (split_once(s, ':')->0).0 + ":"@ + (split_once(s, ':')->0).1 == s,
{
    lemma_first_index_of(s, ':');
    reveal_strlit(":");
    let (a, b) = split_once(s, ':')->0;
    assert(a + ":"@ + b =~= s);
}

/// The first member with a key is found.
proof fn lemma_entry_found(es: Seq<(String, Json)>, key: Seq<char>, i: int)
    requires
        0 <= i < es.len(),
        es[i].0@ == key,
        forall|j: int| 0 <= j < i ==> es[j].0@ != key,
    ensures
        entry_get(es, key) == Some(es[i].1),
{
    crate::json::lemma_entry_get_prefix(es, key, i);
    assert(es.subrange(i, es.len() as int)[0] == es[i]);
}

/// A key no member has is not found.
proof fn lemma_entry_absent(es: Seq<(String, Json)>, key: Seq<char>)
    requires
        forall|j: int| 0 <= j < es.len() ==> es[j].0@ != key,
    ensures
        entry_get(es, key) is None,
{
    crate::json::lemma_entry_get_prefix(es, key, es.len() as int);
    assert(es.subrange(es.len() as int, es.len() as int).len() == 0);
}

/// The targets (as references) of the relations of type `pred` leaving
/// `src`, in order.
pub open spec fn target_refs(rels: Seq<RelationExport>, src: Seq<char>, pred: Seq<char>) -> Seq<
    Seq<char>,
>
    decreases rels.len(),
{
    if rels.len() == 0 {
        Seq::empty()
    } else {
        let t = target_refs(rels.drop_last(), src, pred);
        let r = rels.last();
        if r.source@ == src && r.relation_type@ == pred {
            t.push(r.target@)
        } else {
            t
        }
    }
}

/// A relation as the reader gives it back.
pub open spec fn read_back(pred: Seq<char>, src: Seq<char>, target: Seq<char>) -> RelationImportView {
    RelationImportView { relation_type: pred, source: src, target: target, properties: Map::empty() }
}

/// The relations of type `pred` leaving `src`, as read back.
pub open spec fn relations_of_pred(rels: Seq<RelationExport>, src: Seq<char>, pred: Seq<char>) -> Seq<
    RelationImportView,
> {
    target_refs(rels, src, pred).map_values(|t: Seq<char>| read_back(pred, src, t))
}

/// The relations leaving `src`, grouped by the given relation types in
/// order, as read back.
pub open spec fn grouped_relations(
    rels: Seq<RelationExport>,
    src: Seq<char>,
    preds: Seq<Seq<char>>,
) -> Seq<RelationImportView>
    decreases preds.len(),
{
    if preds.len() == 0 {
        Seq::empty()
    } else {
        grouped_relations(rels, src, preds.drop_last()) + relations_of_pred(rels, src, preds.last())
    }
}

/// A reference that reads back through its IRI: it has a `:` and its type
/// holds no `/`.
pub open spec fn reference_ok(t: Seq<char>) -> bool {
    split_once(t, ':') is Some && !(split_once(t, ':')->0).0.contains('/')
}

/// The targets of the relations leaving `src` all read back.
pub open spec fn targets_readable(rels: Seq<RelationExport>, src: Seq<char>) -> bool {
    forall|i: int| 0 <= i < rels.len() && (#[trigger] rels[i]).source@ == src ==> reference_ok(rels[i].target@)
}

proof fn lemma_targets_iris(rels: Seq<RelationExport>, src: Seq<char>, pred: Seq<char>)
    ensures
        targets_of(rels, src, pred) == target_refs(rels, src, pred).map_values(|t: Seq<char>| ref_iri(t)),
    decreases rels.len(),
{
    if rels.len() > 0 {
        lemma_targets_iris(rels.drop_last(), src, pred);
        let a = target_refs(rels.drop_last(), src, pred);
        let r = rels.last();
        if r.source@ == src && r.relation_type@ == pred {
            assert(a.push(r.target@).map_values(|t: Seq<char>| ref_iri(t)) =~= a.map_values(
                |t: Seq<char>| ref_iri(t),
            ).push(ref_iri(r.target@)));
        }
    }
}

proof fn lemma_targets_ok(rels: Seq<RelationExport>, src: Seq<char>, pred: Seq<char>)
    requires
        targets_readable(rels, src),
    ensures
        forall|k: int|
            0 <= k < target_refs(rels, src, pred).len() ==> reference_ok(
                #[trigger] target_refs(rels, src, pred)[k],
            ),
    decreases rels.len(),
{
    if rels.len() > 0 {
        let d = rels.drop_last();
        assert forall|i: int| 0 <= i < d.len() && (#[trigger] d[i]).source@ == src implies reference_ok(
            d[i].target@,
        ) by {
            assert(d[i] == rels[i]);
        }
        lemma_targets_ok(d, src, pred);
        let r = rels.last();
        assert(rels[rels.len() - 1] == r);
        let a = target_refs(d, src, pred);
        let t = target_refs(rels, src, pred);
        assert forall|k: int| 0 <= k < t.len() implies reference_ok(#[trigger] t[k]) by {
            if k < a.len() {
                assert(t[k] == a[k]);
            } else {
                assert(r.source@ == src);
                assert(t[k] == r.target@);
            }
        }
    }
}

proof fn lemma_predicates_have_targets(rels: Seq<RelationExport>, src: Seq<char>)
    ensures
        forall|i: int|
            0 <= i < predicates_of(rels, src).len() ==> target_refs(
                rels,
                src,
                #[trigger] predicates_of(rels, src)[i],
            ).len() >= 1,
    decreases rels.len(),
{
    if rels.len() > 0 {
        let d = rels.drop_last();
        lemma_predicates_have_targets(d, src);
        let p = predicates_of(d, src);
        let ps = predicates_of(rels, src);
        assert forall|i: int| 0 <= i < ps.len() implies target_refs(rels, src, #[trigger] ps[i]).len()
            >= 1 by {
            if i < p.len() {
                assert(ps[i] == p[i]);
                assert(target_refs(d, src, p[i]).len() >= 1);
            }
        }
    }
}

/// Reading an array of links back.
proof fn lemma_array_links(items: Seq<Json>, ts: Seq<Seq<char>>, pred: Seq<char>, src: Seq<char>)
    requires
        items.len() == ts.len(),
        forall|k: int| 0 <= k < ts.len() ==> link_repr(#[trigger] items[k], ref_iri(ts[k])),
        forall|k: int| 0 <= k < ts.len() ==> reference_ok(#[trigger] ts[k]),
    ensures
        all_have_id(items),
        array_relations(items, pred, src) == Ok::<_, Seq<char>>(
            ts.map_values(|t: Seq<char>| read_back(pred, src, t)),
        ),
    decreases items.len(),
{
    reveal_strlit("@id");
    assert forall|i: int| 0 <= i < items.len() implies json_get(#[trigger] items[i], "@id"@) is Some by {
        assert(link_repr(items[i], ref_iri(ts[i])));
        match items[i] {
            Json::Object(es, _) => {
                lemma_entry_found(es@, "@id"@, 0);
            },
            _ => {},
        }
    }
    if items.len() > 0 {
        let n = items.len() - 1;
        let di = items.drop_last();
        let dt = ts.drop_last();
        assert forall|k: int| 0 <= k < dt.len() implies link_repr(#[trigger] di[k], ref_iri(dt[k])) by {
            assert(di[k] == items[k] && dt[k] == ts[k]);
        }
        assert forall|k: int| 0 <= k < dt.len() implies reference_ok(#[trigger] dt[k]) by {
            assert(dt[k] == ts[k]);
        }
        lemma_array_links(di, dt, pred, src);
        let t = ts[n];
        assert(link_repr(items[n], ref_iri(t)));
        match items[n] {
            Json::Object(es, _) => {
                lemma_entry_found(es@, "@id"@, 0);
            },
            _ => {},
        }
        assert(json_str(json_get(items.last(), "@id"@)) == Some(ref_iri(t)));
        lemma_ref_iri_round_trip(t);
        lemma_split_join(t);
        assert(ts.map_values(|x: Seq<char>| read_back(pred, src, x)) =~= dt.map_values(
            |x: Seq<char>| read_back(pred, src, x),
        ).push(read_back(pred, src, t)));
    } else {
        assert(ts.map_values(|x: Seq<char>| read_back(pred, src, x)) =~= Seq::<RelationImportView>::empty());
    }
}

/// No property of the entity is named `label` or `sort_order` (those keys
/// are the node's own).
pub open spec fn keys_readable(e: EntityExport) -> bool {
    forall|i: int|
        0 <= i < e.properties@.len() ==> (#[trigger] e.properties@[i]).0@ != "label"@
            && e.properties@[i].0@ != "sort_order"@
}

/// No relation type leaving `src` is named `label` or `sort_order`.
pub open spec fn predicates_readable(rels: Seq<RelationExport>, src: Seq<char>) -> bool {
    forall|i: int|
        0 <= i < predicates_of(rels, src).len() ==> (#[trigger] predicates_of(rels, src)[i])
            != "label"@ && predicates_of(rels, src)[i] != "sort_order"@
}

/// The members of the node's header (id, type, label, sort order) are
/// passed over.
proof fn lemma_read_header(es: Seq<(String, Json)>, e: EntityExport, rels: Seq<RelationExport>, k: int)
    requires
        members_repr(es, node_of(e, rels)),
        0 <= k <= node_base(e).len(),
    ensures
        members_result(es.take(k), entity_ref(e)) == Ok::<_, Seq<char>>(
            (Map::<Seq<char>, Seq<char>>::empty(), Seq::<RelationImportView>::empty()),
        ),
    decreases k,
{
    reveal_strlit("@id");
    reveal_strlit("@type");
    let src = entity_ref(e);
    if k == 0 {
        assert(es.take(0) =~= Seq::<(String, Json)>::empty());
    } else {
        lemma_read_header(es, e, rels, k - 1);
        lemma_members_step(es, k - 1, src);
        let m = node_of(e, rels);
        assert(m[k - 1] == node_base(e)[k - 1]);
        assert(es[k - 1].0@ == m[k - 1].0);
        assert(skipped_key(es[k - 1].0@));
    }
}

/// The literal members give back the properties, in order.
proof fn lemma_read_literals(es: Seq<(String, Json)>, e: EntityExport, rels: Seq<RelationExport>, k: int)
    requires
        members_repr(es, node_of(e, rels)),
        keys_readable(e),
        0 <= k <= e.properties@.len(),
    ensures
        members_result(es.take(node_base(e).len() + k), entity_ref(e)) == Ok::<_, Seq<char>>(
            (props_map(e.properties@.take(k)), Seq::<RelationImportView>::empty()),
        ),
    decreases k,
{
    let src = entity_ref(e);
    let b = node_base(e).len() as int;
    let ps = e.properties@;
    if k == 0 {
        lemma_read_header(es, e, rels, b);
        assert(ps.take(0) =~= Seq::<(String, String)>::empty());
    } else {
        lemma_read_literals(es, e, rels, k - 1);
        lemma_members_step(es, b + k - 1, src);
        let m = node_of(e, rels);
        let lits = node_literals(ps);
        assert(m[b + k - 1] == lits[k - 1]);
        let key = ps[k - 1].0@;
        assert(lits[k - 1] == (ahlt_prefix() + key, NodeValueView::Text(ps[k - 1].1@)));
        lemma_ahlt_key(key);
        assert(es[b + k - 1].0@ == ahlt_prefix() + key);
        assert(ps.take(k).drop_last() =~= ps.take(k - 1));
        assert(ps.take(k).last() == ps[k - 1]);
    }
}

/// The link members give back the relations, grouped by relation type.
proof fn lemma_read_links(es: Seq<(String, Json)>, e: EntityExport, rels: Seq<RelationExport>, k: int)
    requires
        members_repr(es, node_of(e, rels)),
        keys_readable(e),
        predicates_readable(rels, entity_ref(e)),
        targets_readable(rels, entity_ref(e)),
        0 <= k <= predicates_of(rels, entity_ref(e)).len(),
    ensures
        members_result(es.take(node_base(e).len() + e.properties@.len() + k), entity_ref(e))
            == Ok::<_, Seq<char>>(
            (
                props_map(e.properties@),
                grouped_relations(rels, entity_ref(e), predicates_of(rels, entity_ref(e)).take(k)),
            ),
        ),
    decreases k,
{
    let src = entity_ref(e);
    let b = node_base(e).len() as int;
    let l = e.properties@.len() as int;
    let preds = predicates_of(rels, src);
    if k == 0 {
        lemma_read_literals(es, e, rels, l);
        assert(e.properties@.take(l) =~= e.properties@);
        assert(preds.take(0) =~= Seq::<Seq<char>>::empty());
    } else {
        lemma_read_links(es, e, rels, k - 1);
        let i = b + l + k - 1;
        lemma_members_step(es, i, src);
        let m = node_of(e, rels);
        let p = preds[k - 1];
        assert(m[i] == node_links(rels, src)[k - 1]);
        assert(m[i] == link_member(rels, src, p));
        lemma_ahlt_key(p);
        assert(es[i].0@ == ahlt_prefix() + p);
        let tr = target_refs(rels, src, p);
        lemma_targets_iris(rels, src, p);
        lemma_targets_ok(rels, src, p);
        lemma_predicates_have_targets(rels, src);
        assert(tr.len() >= 1);
        let ts = targets_of(rels, src, p);
        assert(ts.len() == tr.len());
        let acc = (props_map(e.properties@), grouped_relations(rels, src, preds.take(k - 1)));
        let v = es[i].1;
        assert(value_repr(v, m[i].1));
        if ts.len() == 1 {
            assert(ts[0] == ref_iri(tr[0]));
            reveal_strlit("@id");
            assert(m[i].1 == NodeValueView::Link(ts[0]));
            lemma_ref_iri_round_trip(tr[0]);
            lemma_split_join(tr[0]);
            let (ta, tb) = split_once(tr[0], ':')->0;
            assert(read_relation(p, src, ta, tb) == read_back(p, src, tr[0]));
            assert(relations_of_pred(rels, src, p) =~= seq![read_back(p, src, tr[0])]);
            assert(acc.1.push(read_back(p, src, tr[0])) =~= acc.1 + relations_of_pred(rels, src, p));
            match v {
                Json::Object(es2, _) => {
                    lemma_entry_found(es2@, "@id"@, 0);
                    assert(json_str(entry_get(es2@, "@id"@)) == Some(ts[0]));
                    assert(iri_type_name(ts[0]) == Ok::<_, Seq<char>>((ta, tb)));
                    assert(member_step(acc, es[i].0@, v, src) == Ok::<_, Seq<char>>(
                        (acc.0, acc.1 + relations_of_pred(rels, src, p)),
                    ));
                },
                _ => {},
            }
        } else {
            assert(m[i].1 == NodeValueView::Links(ts));
            match v {
                Json::Array(items, _) => {
                    assert forall|q: int| 0 <= q < tr.len() implies link_repr(
                        #[trigger] items@[q],
                        ref_iri(tr[q]),
                    ) by {
                        assert(ts[q] == ref_iri(tr[q]));
                        assert(link_repr(items@[q], ts[q]));
                    }
                    lemma_array_links(items@, tr, p, src);
                    assert(items@.len() > 0);
                    assert(relations_of_pred(rels, src, p) == tr.map_values(
                        |t: Seq<char>| read_back(p, src, t),
                    ));
                    assert(member_step(acc, es[i].0@, v, src) == Ok::<_, Seq<char>>(
                        (acc.0, acc.1 + relations_of_pred(rels, src, p)),
                    ));
                },
                _ => {},
            }
        }
        assert(preds.take(k).drop_last() =~= preds.take(k - 1));
        assert(preds.take(k).last() == p);
    }
}

/// The members of an entity's node, in the order written, read back as
/// the entity and the relations leaving it.
proof fn lemma_exported_members_read_back(e: EntityExport, rels: Seq<RelationExport>, es: Seq<(String, Json)>)
    requires
        members_repr(es, node_of(e, rels)),
        !e.entity_type@.contains('/'),
        keys_readable(e),
        predicates_readable(rels, entity_ref(e)),
        targets_readable(rels, entity_ref(e)),
    ensures
        node_members_result(es) == Ok::<_, Seq<char>>(
            (
                EntityImportView {
                    entity_type: e.entity_type@,
                    name: e.name@,
                    label: e.label@,
                    sort_order: e.sort_order,
                    properties: props_map(e.properties@),
                },
                grouped_relations(rels, entity_ref(e), predicates_of(rels, entity_ref(e))),
            ),
        ),
{
    reveal_strlit("@id");
    reveal_strlit("@type");
    reveal_strlit("ahlt:label");
    reveal_strlit("ahlt:sort_order");
    assert("@id"@.len() == 3 && "@type"@.len() == 5 && "ahlt:label"@.len() == 10
        && "ahlt:sort_order"@.len() == 15);
    let src = entity_ref(e);
    let m = node_of(e, rels);
    let b = node_base(e).len() as int;
    let l = e.properties@.len() as int;
    let preds = predicates_of(rels, src);
    assert(es[0].0@ == "@id"@);
    lemma_entry_found(es, "@id"@, 0);
    let iri = ahlt_prefix() + e.entity_type@ + "/"@ + e.name@;
    assert(m[0] == node_base(e)[0]);
    assert(json_str(entry_get(es, "@id"@)) == Some(iri));
    lemma_type_name_iri(e.entity_type@, e.name@);
    assert(m[1] == node_base(e)[1]);
    assert(m[2] == node_base(e)[2]);
    assert(es[1].0@ == m[1].0 && es[2].0@ == m[2].0);
    assert(es[0].0@ != "ahlt:label"@ && es[1].0@ != "ahlt:label"@);
    lemma_entry_found(es, "ahlt:label"@, 2);
    assert(json_str(entry_get(es, "ahlt:label"@)) == Some(e.label@));
    if e.sort_order != 0 {
        assert(m[3] == node_base(e)[3]);
        assert(es[3].0@ == m[3].0);
        assert(es[0].0@ != "ahlt:sort_order"@ && es[1].0@ != "ahlt:sort_order"@
            && es[2].0@ != "ahlt:sort_order"@);
        lemma_entry_found(es, "ahlt:sort_order"@, 3);
    } else {
        assert forall|q: int| 0 <= q < es.len() implies es[q].0@ != "ahlt:sort_order"@ by {
            assert(es[q].0@ == m[q].0);
            if q < b {
                assert(m[q] == node_base(e)[q]);
            } else if q < b + l {
                let lits = node_literals(e.properties@);
                assert(m[q] == lits[q - b]);
                let key = e.properties@[q - b].0@;
                assert(key != "sort_order"@);
                lemma_ahlt_key(key);
            } else {
                let pq = preds[q - b - l];
                assert(m[q] == node_links(rels, src)[q - b - l]);
                assert(m[q] == link_member(rels, src, pq));
                assert(pq != "sort_order"@);
                lemma_ahlt_key(pq);
            }
        }
        lemma_entry_absent(es, "ahlt:sort_order"@);
    }
    assert(json_i64(entry_get(es, "ahlt:sort_order"@)) == (if e.sort_order != 0 {
        Some(e.sort_order)
    } else {
        None
    }));
    lemma_read_links(es, e, rels, preds.len() as int);
    assert(es.take(b + l + preds.len()) =~= es);
    assert(preds.take(preds.len() as int) =~= preds);
    assert(e.entity_type@ + ":"@ + e.name@ == src);
}

/// Writing an entity's node and reading it back gives back the entity
/// (type, name, label, sort order and properties) and the relations that
/// leave it, grouped by relation type: when the entity type holds no `/`,
/// no property or relation type is named `label` or `sort_order`, and
/// every target reference has a `:` and a type without `/`. The node is
/// read with its members in the order they were written.
pub proof fn lemma_exported_node_reads_back(e: EntityExport, rels: Seq<RelationExport>, j: Json)
    requires
        node_repr(j, node_of(e, rels)),
        !e.entity_type@.contains('/'),
        keys_readable(e),
        predicates_readable(rels, entity_ref(e)),
        targets_readable(rels, entity_ref(e)),
    ensures
        node_result(j) == Ok::<_, Seq<char>>(
            (
                EntityImportView {
                    entity_type: e.entity_type@,
                    name: e.name@,
                    label: e.label@,
                    sort_order: e.sort_order,
                    properties: props_map(e.properties@),
                },
                grouped_relations(rels, entity_ref(e), predicates_of(rels, entity_ref(e))),
            ),
        ),
{
    match j {
        Json::Object(es, _) => lemma_exported_members_read_back(e, rels, es@),
        _ => {},
    }
}

/// An exported entity as the reader gives it back.
pub open spec fn entity_read_back(e: EntityExport) -> EntityImportView {
    EntityImportView {
        entity_type: e.entity_type@,
        name: e.name@,
        label: e.label@,
        sort_order: e.sort_order,
        properties: props_map(e.properties@),
    }
}

/// The relations stated by the nodes of the entities, node by node.
pub open spec fn stated_relations(ents: Seq<EntityExport>, rels: Seq<RelationExport>) -> Seq<
    RelationImportView,
>
    decreases ents.len(),
{
    if ents.len() == 0 {
        Seq::empty()
    } else {
        let e = ents.last();
        stated_relations(ents.drop_last(), rels) + grouped_relations(
            rels,
            entity_ref(e),
            predicates_of(rels, entity_ref(e)),
        )
    }
}

/// An entity whose node reads back (see `lemma_exported_node_reads_back`).
pub open spec fn entity_readable(e: EntityExport, rels: Seq<RelationExport>) -> bool {
    &&& !e.entity_type@.contains('/')
    &&& keys_readable(e)
    &&& predicates_readable(rels, entity_ref(e))
    &&& targets_readable(rels, entity_ref(e))
}

/// Reading the `@graph` of an export back gives every entity, in order,
/// and the relations their nodes state.
pub proof fn lemma_exported_graph_reads_back(
    ents: Seq<EntityExport>,
    rels: Seq<RelationExport>,
    items: Seq<Json>,
)
    requires
        items.len() == ents.len(),
        forall|i: int| 0 <= i < ents.len() ==> node_repr(#[trigger] items[i], node_of(ents[i], rels)),
        forall|i: int| 0 <= i < ents.len() ==> entity_readable(#[trigger] ents[i], rels),
    ensures
        crate::jsonld::nodes_result(items) == Ok::<_, Seq<char>>(
            (ents.map_values(|e: EntityExport| entity_read_back(e)), stated_relations(ents, rels)),
        ),
    decreases ents.len(),
{
    if ents.len() > 0 {
        let n = ents.len() - 1;
        let de = ents.drop_last();
        let di = items.drop_last();
        assert forall|i: int| 0 <= i < de.len() implies node_repr(#[trigger] di[i], node_of(de[i], rels)) by {
            assert(di[i] == items[i] && de[i] == ents[i]);
        }
        assert forall|i: int| 0 <= i < de.len() implies entity_readable(#[trigger] de[i], rels) by {
            assert(de[i] == ents[i]);
        }
        lemma_exported_graph_reads_back(de, rels, di);
        assert(node_repr(items[n], node_of(ents[n], rels)));
        assert(entity_readable(ents[n], rels));
        lemma_exported_node_reads_back(ents[n], rels, items[n]);
        assert(ents.map_values(|e: EntityExport| entity_read_back(e)) =~= de.map_values(
            |e: EntityExport| entity_read_back(e),
        ).push(entity_read_back(ents[n])));
    } else {
        assert(ents.map_values(|e: EntityExport| entity_read_back(e)) =~= Seq::<EntityImportView>::empty());
    }
}

/// Reading an exported document back: a JSON object whose members are the
/// context and then the graph array of the entities' nodes reads as an
/// import (in the default `skip` mode) of every exported entity and of the
/// relations their nodes state, when every entity's node reads back.
pub proof fn lemma_exported_document_reads_back(
    ents: Seq<EntityExport>,
    rels: Seq<RelationExport>,
    j: Json,
)
    requires
        match j {
            Json::Object(es, _) => es@.len() == 2 && es@[0].0@ == "@context"@ && es@[1].0@
                == "@graph"@ && match es@[1].1 {
                Json::Array(items, _) => items@.len() == ents.len() && forall|i: int|
                    0 <= i < ents.len() ==> node_repr(#[trigger] items@[i], node_of(ents[i], rels)),
                _ => false,
            },
            _ => false,
        },
        forall|i: int| 0 <= i < ents.len() ==> entity_readable(#[trigger] ents[i], rels),
    ensures
        crate::jsonld::jsonld_payload(j) == Ok::<_, Seq<char>>(
            crate::data_manager::ImportPayloadView {
                conflict_mode: crate::data_manager::ConflictMode::Skip,
                entities: ents.map_values(|e: EntityExport| entity_read_back(e)),
                relations: stated_relations(ents, rels),
            },
        ),
{
    reveal_strlit("@context");
    reveal_strlit("@graph");
    reveal_strlit("ahlt:conflict_mode");
    assert("@context"@.len() == 8 && "@graph"@.len() == 6 && "ahlt:conflict_mode"@.len() == 18);
    match j {
        Json::Object(es, _) => {
            let es = es@;
            lemma_entry_found(es, "@graph"@, 1);
            assert forall|q: int| 0 <= q < es.len() implies es[q].0@ != "ahlt:conflict_mode"@ by {}
            lemma_entry_absent(es, "ahlt:conflict_mode"@);
            match es[1].1 {
                Json::Array(items, _) => {
                    lemma_exported_graph_reads_back(ents, rels, items@);
                },
                _ => {},
            }
        },
        _ => {},
    }
}


// ---------------------------------------------------------------------
// Members in any order
// ---------------------------------------------------------------------

/// The relation types leaving `src` are listed once each.
pub(crate) proof fn lemma_predicates_distinct(rels: Seq<RelationExport>, src: Seq<char>)
    ensures
        forall|a: int, b: int|
            0 <= a < b < predicates_of(rels, src).len() ==> predicates_of(rels, src)[a]
                != predicates_of(rels, src)[b],
    decreases rels.len(),
{
    if rels.len() > 0 {
        lemma_predicates_distinct(rels.drop_last(), src);
        let p = predicates_of(rels.drop_last(), src);
        let r = rels.last();
        if r.source@ == src && !p.contains(r.relation_type@) {
            let q = p.push(r.relation_type@);
            assert forall|a: int, b: int| 0 <= a < b < q.len() implies q[a] != q[b] by {
                if b == p.len() {
                    assert(q[a] == p[a]);
                }
            }
        }
    }
}

/// No property of the entity is named like a relation type leaving it, and
/// no two properties share a name.
pub open spec fn keys_apart(e: EntityExport, rels: Seq<RelationExport>) -> bool {
    &&& distinct_keys(e.properties@)
    &&& forall|i: int, q: int|
        0 <= i < e.properties@.len() && 0 <= q < predicates_of(rels, entity_ref(e)).len() ==> (
        #[trigger] e.properties@[i]).0@ != #[trigger] predicates_of(rels, entity_ref(e))[q]
}

/// The name behind the `ahlt:` key of member `i` of an entity's node (the
/// property or relation type it writes); only meaningful past the header.
pub open spec fn member_name(e: EntityExport, rels: Seq<RelationExport>, i: int) -> Seq<char> {
    let b = node_base(e).len() as int;
    let l = e.properties@.len() as int;
    if i < b + l {
        e.properties@[i - b].0@
    } else {
        predicates_of(rels, entity_ref(e))[i - b - l]
    }
}

/// Past the header, a member's key is `ahlt:` and its name, and it is read;
/// header members are passed over.
proof fn lemma_member_key(e: EntityExport, rels: Seq<RelationExport>, es: Seq<(String, Json)>, i: int)
    requires
        members_repr(es, node_of(e, rels)),
        keys_readable(e),
        predicates_readable(rels, entity_ref(e)),
        0 <= i < es.len(),
    ensures
        i < node_base(e).len() ==> skipped_key(es[i].0@),
        i >= node_base(e).len() ==> es[i].0@ == ahlt_prefix() + member_name(e, rels, i)
            && !skipped_key(es[i].0@) && strip_prefix_or_keep(es[i].0@, ahlt_prefix())
            == member_name(e, rels, i),
{
    reveal_strlit("@id");
    reveal_strlit("@type");
    reveal_strlit("ahlt:label");
    reveal_strlit("ahlt:sort_order");
    let m = node_of(e, rels);
    let b = node_base(e).len() as int;
    let l = e.properties@.len() as int;
    let src = entity_ref(e);
    let preds = predicates_of(rels, src);
    assert(es[i].0@ == m[i].0);
    if i < b {
        assert(m[i] == node_base(e)[i]);
        if i == 0 {
            assert("@id"@[0] == '@');
        } else if i == 1 {
            assert("@type"@[0] == '@');
        }
    } else if i < b + l {
        assert(m[i] == node_literals(e.properties@)[i - b]);
        lemma_ahlt_key(e.properties@[i - b].0@);
    } else {
        assert(m[i] == node_links(rels, src)[i - b - l]);
        assert(m[i] == link_member(rels, src, preds[i - b - l]));
        lemma_ahlt_key(preds[i - b - l]);
    }
}

/// The members of an entity's node share no key and name no property
/// twice, when its properties are apart from each other and from its
/// relation types.
proof fn lemma_exported_members_distinct(e: EntityExport, rels: Seq<RelationExport>, es: Seq<(String, Json)>)
    requires
        members_repr(es, node_of(e, rels)),
        keys_readable(e),
        predicates_readable(rels, entity_ref(e)),
        keys_apart(e, rels),
    ensures
        members_distinct(es),
{
    reveal_strlit("@id");
    reveal_strlit("@type");
    reveal_strlit("ahlt:label");
    reveal_strlit("ahlt:sort_order");
    let b = node_base(e).len() as int;
    let l = e.properties@.len() as int;
    let src = entity_ref(e);
    lemma_predicates_distinct(rels, src);
    assert forall|i: int, j: int| 0 <= i < es.len() && 0 <= j < es.len() && i != j implies {
        &&& (#[trigger] es[i]).0@ != (#[trigger] es[j]).0@
        &&& (!skipped_key(es[i].0@) && !skipped_key(es[j].0@)) ==> strip_prefix_or_keep(
            es[i].0@,
            ahlt_prefix(),
        ) != strip_prefix_or_keep(es[j].0@, ahlt_prefix())
    } by {
        lemma_member_key(e, rels, es, i);
        lemma_member_key(e, rels, es, j);
        let m = node_of(e, rels);
        if i >= b && j >= b {
            let ni = member_name(e, rels, i);
            let nj = member_name(e, rels, j);
            if i < b + l && j < b + l {
                if i < j {
                    assert(e.properties@[i - b].0@ != e.properties@[j - b].0@);
                } else {
                    assert(e.properties@[j - b].0@ != e.properties@[i - b].0@);
                }
            } else if i < b + l {
                assert(e.properties@[i - b].0@ != predicates_of(rels, src)[j - b - l]);
            } else if j < b + l {
                assert(e.properties@[j - b].0@ != predicates_of(rels, src)[i - b - l]);
            }
            assert(ni != nj);
        } else if i < b && j < b {
            assert(es[i].0@ == m[i].0 && es[j].0@ == m[j].0);
            assert(m[i] == node_base(e)[i] && m[j] == node_base(e)[j]);
            assert("@id"@.len() == 3 && "@type"@.len() == 5 && "ahlt:label"@.len() == 10
                && "ahlt:sort_order"@.len() == 15);
        }
    }
}

/// `j` is the JSON object of a node whose members are those written, in
/// any order.
pub open spec fn node_repr_any_order(j: Json, m: Seq<(Seq<char>, NodeValueView)>) -> bool {
    match j {
        Json::Object(es, _) => exists|es0: Seq<(String, Json)>|
            #[trigger] members_repr(es0, m) && es0.to_multiset() == es@.to_multiset(),
        _ => false,
    }
}

/// An entity whose node reads back whatever the order of its members.
pub open spec fn entity_readable_any_order(e: EntityExport, rels: Seq<RelationExport>) -> bool {
    &&& entity_readable(e, rels)
    &&& keys_apart(e, rels)
}

/// An entity's node with its members in any order reads back as the entity
/// and the relations leaving it (counted with repetition), when its
/// properties are apart from each other and from its relation types.
pub proof fn lemma_exported_node_reads_back_any_order(
    e: EntityExport,
    rels: Seq<RelationExport>,
    j: Json,
)
    requires
        node_repr_any_order(j, node_of(e, rels)),
        entity_readable_any_order(e, rels),
    ensures
        node_result(j) matches Ok(r) && r.0 == entity_read_back(e) && r.1.to_multiset()
            == grouped_relations(rels, entity_ref(e), predicates_of(rels, entity_ref(e))).to_multiset(),
{
    match j {
        Json::Object(es, _) => {
            let es0 = choose|es0: Seq<(String, Json)>|
                #[trigger] members_repr(es0, node_of(e, rels)) && es0.to_multiset() == es@.to_multiset();
            lemma_exported_members_read_back(e, rels, es0);
            lemma_exported_members_distinct(e, rels, es0);
            lemma_node_reading_ignores_member_order(es0, es@);
        },
        _ => {},
    }
}

/// Reading the `@graph` of an export back, each node's members in any
/// order, gives every entity in order and the relations their nodes state
/// (counted with repetition).
pub proof fn lemma_exported_graph_reads_back_any_order(
    ents: Seq<EntityExport>,
    rels: Seq<RelationExport>,
    items: Seq<Json>,
)
    requires
        items.len() == ents.len(),
        forall|i: int|
            0 <= i < ents.len() ==> node_repr_any_order(#[trigger] items[i], node_of(ents[i], rels)),
        forall|i: int| 0 <= i < ents.len() ==> entity_readable_any_order(#[trigger] ents[i], rels),
    ensures
        crate::jsonld::nodes_result(items) matches Ok(r) && r.0 == ents.map_values(
            |e: EntityExport| entity_read_back(e),
        ) && r.1.to_multiset() == stated_relations(ents, rels).to_multiset(),
    decreases ents.len(),
{
    if ents.len() > 0 {
        let n = ents.len() - 1;
        let de = ents.drop_last();
        let di = items.drop_last();
        assert forall|i: int| 0 <= i < de.len() implies node_repr_any_order(
            #[trigger] di[i],
            node_of(de[i], rels),
        ) by {
            assert(di[i] == items[i] && de[i] == ents[i]);
        }
        assert forall|i: int| 0 <= i < de.len() implies entity_readable_any_order(#[trigger] de[i], rels) by {
            assert(de[i] == ents[i]);
        }
        lemma_exported_graph_reads_back_any_order(de, rels, di);
        assert(node_repr_any_order(items[n], node_of(ents[n], rels)));
        assert(entity_readable_any_order(ents[n], rels));
        lemma_exported_node_reads_back_any_order(ents[n], rels, items[n]);
        assert(ents.map_values(|e: EntityExport| entity_read_back(e)) =~= de.map_values(
            |e: EntityExport| entity_read_back(e),
        ).push(entity_read_back(ents[n])));
        let prev = crate::jsonld::nodes_result(di)->Ok_0;
        let cur = node_result(items[n])->Ok_0;
        let g = grouped_relations(rels, entity_ref(ents[n]), predicates_of(rels, entity_ref(ents[n])));
        vstd::seq_lib::lemma_multiset_commutative(prev.1, cur.1);
        vstd::seq_lib::lemma_multiset_commutative(stated_relations(de, rels), g);
        assert(ents.last() == ents[n]);
        assert(items.last() == items[n]);
    } else {
        assert(ents.map_values(|e: EntityExport| entity_read_back(e)) =~= Seq::<EntityImportView>::empty());
    }
}

/// Reading an exported document back when a JSON writer has given every
/// object's members in its own order: an object with the context and the
/// graph array (in either order) of the entities' nodes, each node's
/// members in any order, reads as an import (in the default `skip` mode)
/// of every exported entity, in order, and of the relations their nodes
/// state, counted with repetition; when every entity's node reads back and
/// its properties are apart from each other and from its relation types.
pub proof fn lemma_exported_document_reads_back_any_order(
    ents: Seq<EntityExport>,
    rels: Seq<RelationExport>,
    j: Json,
)
    requires
        match j {
            Json::Object(es, _) => es@.len() == 2 && ((es@[0].0@ == "@graph"@ && es@[1].0@
                == "@context"@) || (es@[0].0@ == "@context"@ && es@[1].0@ == "@graph"@))
                && match entry_get(es@, "@graph"@) {
                Some(Json::Array(items, _)) => items@.len() == ents.len() && forall|i: int|
                    0 <= i < ents.len() ==> node_repr_any_order(
                        #[trigger] items@[i],
                        node_of(ents[i], rels),
                    ),
                _ => false,
            },
            _ => false,
        },
        forall|i: int| 0 <= i < ents.len() ==> entity_readable_any_order(#[trigger] ents[i], rels),
    ensures
        crate::jsonld::jsonld_payload(j) matches Ok(p) && p.conflict_mode
            == crate::data_manager::ConflictMode::Skip && p.entities == ents.map_values(
            |e: EntityExport| entity_read_back(e),
        ) && p.relations.to_multiset() == stated_relations(ents, rels).to_multiset(),
{
    reveal_strlit("@context");
    reveal_strlit("@graph");
    reveal_strlit("ahlt:conflict_mode");
    assert("@context"@.len() == 8 && "@graph"@.len() == 6 && "ahlt:conflict_mode"@.len() == 18);
    match j {
        Json::Object(es, _) => {
            let es = es@;
            assert forall|q: int| 0 <= q < es.len() implies es[q].0@ != "ahlt:conflict_mode"@ by {}
            lemma_entry_absent(es, "ahlt:conflict_mode"@);
            match entry_get(es, "@graph"@) {
                Some(Json::Array(items, _)) => {
                    lemma_exported_graph_reads_back_any_order(ents, rels, items@);
                },
                _ => {},
            }
        },
        _ => {},
    }
}

} // verus!
