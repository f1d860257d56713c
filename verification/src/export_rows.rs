//! Assembling an export payload from the rows read out of the store.
use vstd::prelude::*;
use crate::text::{
    chars_of, text_of, push_chars, push_str, decimal, decimal_chars, strip_prefix_or_keep,
    strip_prefix_or_keep_exec,
};
use crate::props::{props_map, distinct_keys, props_insert};
use crate::data_manager::{EntityExport, RelationExport, ExportPayload};

verus! {

/// The `"type:name"` reference of entity `id`: the last row naming it wins.
pub open spec fn ref_lookup(rows: Seq<(i64, String, String)>, id: i64) -> Option<Seq<char>>
    decreases rows.len(),
{
    if rows.len() == 0 {
        None
    } else if rows.last().0 == id {
        Some(rows.last().1@ + ":"@ + rows.last().2@)
    } else {
        ref_lookup(rows.drop_last(), id)
    }
}

/// The properties of `id` among `(owner, key, value)` rows, later rows winning.
pub open spec fn owned_props(rows: Seq<(i64, String, String)>, id: i64) -> Map<Seq<char>, Seq<char>>
    decreases rows.len(),
{
    if rows.len() == 0 {
        Map::empty()
    } else if rows.last().0 == id {
        owned_props(rows.drop_last(), id).insert(rows.last().1@, rows.last().2@)
    } else {
        owned_props(rows.drop_last(), id)
    }
}

/// A reference, or `"unknown:<id>"` when the id names no entity.
pub open spec fn resolved_ref(rows: Seq<(i64, String, String)>, id: i64) -> Seq<char> {
    match ref_lookup(rows, id) {
        Some(r) => r,
        None => "unknown:"@ + decimal(id as int),
    }
}

/// A relation type name: its reference without `"relation_type:"`.
pub open spec fn resolved_relation_type(rows: Seq<(i64, String, String)>, id: i64) -> Seq<char> {
    match ref_lookup(rows, id) {
        Some(r) => strip_prefix_or_keep(r, "relation_type:"@),
        None => "unknown:"@ + decimal(id as int),
    }
}

/// Whether an earlier element of `ids` (before position `i`) equals `ids[i]`.
pub open spec fn seen_before(ids: Seq<i64>, i: int) -> bool {
    exists|j: int| 0 <= j < i && ids[j] == ids[i]
}

/// The relation rows kept: all of them, or under a type filter only those
/// whose source and target are among the exported entities.
pub open spec fn kept_relation(
    filtered: bool,
    entity_ids: Seq<i64>,
    row: (i64, i64, i64, i64),
) -> bool {
    !filtered || (entity_ids.contains(row.2) && entity_ids.contains(row.3))
}

/// The ids of the entity rows.
pub open spec fn entity_row_ids(rows: Seq<(i64, String, String, String, i64)>) -> Seq<i64> {
    rows.map_values(|r: (i64, String, String, String, i64)| r.0)
}

/// The ids of the relation rows.
pub open spec fn relation_row_ids(rows: Seq<(i64, i64, i64, i64)>) -> Seq<i64> {
    rows.map_values(|r: (i64, i64, i64, i64)| r.0)
}

/// The relation rows kept, in order.
pub open spec fn kept_relations(
    rows: Seq<(i64, i64, i64, i64)>,
    filtered: bool,
    entity_ids: Seq<i64>,
) -> Seq<(i64, i64, i64, i64)> {
    rows.filter(|r: (i64, i64, i64, i64)| kept_relation(filtered, entity_ids, r))
}

/// Under a type filter, every kept relation links two exported entities;
/// without one, every relation is kept.
pub proof fn lemma_kept_relations_closed(
    rows: Seq<(i64, i64, i64, i64)>,
    filtered: bool,
    entity_ids: Seq<i64>,
)
    ensures
        forall|i: int|
            0 <= i < kept_relations(rows, filtered, entity_ids).len() ==> (filtered ==> (
            entity_ids.contains(#[trigger] kept_relations(rows, filtered, entity_ids)[i].2)
                && entity_ids.contains(kept_relations(rows, filtered, entity_ids)[i].3))),
        !filtered ==> kept_relations(rows, filtered, entity_ids) == rows,
{
    let pred = |r: (i64, i64, i64, i64)| kept_relation(filtered, entity_ids, r);
    rows.filter_lemma(pred);
    if !filtered {
        lemma_filter_keeps_all(rows, pred);
    }
}

proof fn lemma_filter_keeps_all(s: Seq<(i64, i64, i64, i64)>, pred: spec_fn((i64, i64, i64, i64)) -> bool)
    requires
        forall|i: int| 0 <= i < s.len() ==> pred(#[trigger] s[i]),
    ensures
        s.filter(pred) == s,
    decreases s.len(),
{
    reveal_with_fuel(Seq::<_>::filter, 1);
    if s.len() > 0 {
        let d = s.drop_last();
        assert forall|i: int| 0 <= i < d.len() implies pred(#[trigger] d[i]) by {
            assert(d[i] == s[i]);
        }
        lemma_filter_keeps_all(d, pred);
        assert(pred(s[s.len() - 1]));
        assert(d.push(s.last()) =~= s);
    } else {
        assert(s.filter(pred) =~= s);
    }
}

/// The rows read for an export.
pub struct ExportRows {
    /// `(id, entity_type, name)` of every entity.
    pub refs: Vec<(i64, String, String)>,
    /// `(id, entity_type, name, label, sort_order)` of the exported entities.
    pub entities: Vec<(i64, String, String, String, i64)>,
    /// `(entity_id, key, value)` of every entity property.
    pub entity_props: Vec<(i64, String, String)>,
    /// `(id, relation_type_id, source_id, target_id)` of every relation.
    pub relations: Vec<(i64, i64, i64, i64)>,
    /// `(relation_id, key, value)` of every relation property.
    pub relation_props: Vec<(i64, String, String)>,
    /// Whether the export is limited to some entity types.
    pub filtered: bool,
}

/// What the export payload holds for the given rows: every entity row in
/// order, with its properties (given to the first entity of an id); the kept
/// relations in order with their references resolved and their properties
/// (given to the first relation of an id).
pub open spec fn assembled(rows: ExportRows, p: ExportPayload) -> bool {
    let er = rows.entities@;
    let ids = entity_row_ids(er);
    let kept = kept_relations(rows.relations@, rows.filtered, ids);
    &&& p.entities@.len() == er.len()
    &&& forall|i: int|
        0 <= i < er.len() ==> {
            let e = #[trigger] p.entities@[i];
            &&& e.id == er[i].0
            &&& e.entity_type@ == er[i].1@
            &&& e.name@ == er[i].2@
            &&& e.label@ == er[i].3@
            &&& e.sort_order == er[i].4
            &&& distinct_keys(e.properties@)
            &&& props_map(e.properties@) == if seen_before(ids, i) {
                Map::empty()
            } else {
                owned_props(rows.entity_props@, er[i].0)
            }
        }
    &&& p.relations@.len() == kept.len()
    &&& forall|i: int|
        0 <= i < kept.len() ==> {
            let r = #[trigger] p.relations@[i];
            &&& r.id == kept[i].0
            &&& r.relation_type@ == resolved_relation_type(rows.refs@, kept[i].1)
            &&& r.source@ == resolved_ref(rows.refs@, kept[i].2)
            &&& r.target@ == resolved_ref(rows.refs@, kept[i].3)
            &&& distinct_keys(r.properties@)
            &&& props_map(r.properties@) == if seen_before(relation_row_ids(kept), i) {
                Map::empty()
            } else {
                owned_props(rows.relation_props@, kept[i].0)
            }
        }
}

/// Finds the reference of entity `id`.
fn lookup_ref(rows: &Vec<(i64, String, String)>, id: i64) -> (r: Option<Vec<char>>)
    ensures
        r matches Some(v) ==> ref_lookup(rows@, id) == Some(v@),
        r is None ==> ref_lookup(rows@, id) is None,
{
    let mut found: Option<Vec<char>> = None;
    let n = rows.len();
    for i in 0..n
        invariant
            n == rows@.len(),
            found matches Some(v) ==> ref_lookup(rows@.subrange(0, i as int), id) == Some(v@),
            found is None ==> ref_lookup(rows@.subrange(0, i as int), id) is None,
    {
        assert(rows@.subrange(0, i + 1).drop_last() =~= rows@.subrange(0, i as int));
        if rows[i].0 == id {
            let mut v = chars_of(rows[i].1.as_str());
            push_str(&mut v, ":");
            push_str(&mut v, rows[i].2.as_str());
            found = Some(v);
        }
    }
    assert(rows@.subrange(0, n as int) =~= rows@);
    found
}

fn unknown_ref(id: i64) -> (r: Vec<char>)
    ensures
        r@ == "unknown:"@ + decimal(id as int),
{
    let mut v = chars_of("unknown:");
    let d = decimal_chars(id);
    push_chars(&mut v, d.as_slice());
    v
}

fn resolve_ref(rows: &Vec<(i64, String, String)>, id: i64) -> (r: String)
    ensures
        r@ == resolved_ref(rows@, id),
{
    match lookup_ref(rows, id) {
        Some(v) => text_of(v.as_slice()),
        None => text_of(unknown_ref(id).as_slice()),
    }
}

fn resolve_relation_type(rows: &Vec<(i64, String, String)>, id: i64) -> (r: String)
    ensures
        r@ == resolved_relation_type(rows@, id),
{
    match lookup_ref(rows, id) {
        Some(v) => {
            let p = chars_of("relation_type:");
            text_of(strip_prefix_or_keep_exec(v.as_slice(), p.as_slice()).as_slice())
        },
        None => text_of(unknown_ref(id).as_slice()),
    }
}

/// The property list of `id` among `(owner, key, value)` rows.
fn collect_props(rows: &Vec<(i64, String, String)>, id: i64) -> (r: Vec<(String, String)>)
    ensures
        distinct_keys(r@),
        props_map(r@) == owned_props(rows@, id),
{
    let mut out: Vec<(String, String)> = Vec::new();
    assert(props_map(out@) =~= Map::empty());
    let n = rows.len();
    for i in 0..n
        invariant
            n == rows@.len(),
            distinct_keys(out@),
            props_map(out@) == owned_props(rows@.subrange(0, i as int), id),
    {
        assert(rows@.subrange(0, i + 1).drop_last() =~= rows@.subrange(0, i as int));
        if rows[i].0 == id {
            props_insert(&mut out, rows[i].1.clone(), rows[i].2.clone());
        }
    }
    assert(rows@.subrange(0, n as int) =~= rows@);
    out
}

/// Whether `x` occurs in `ids`.
fn contains_id(ids: &Vec<i64>, x: i64) -> (r: bool)
    ensures
        r == ids@.contains(x),
{
    let n = ids.len();
    for i in 0..n
        invariant
            n == ids@.len(),
            forall|j: int| 0 <= j < i ==> ids@[j] != x,
    {
        if ids[i] == x {
            assert(ids@[i as int] == x);
            return true;
        }
    }
    false
}

/// Builds the export payload (entities with properties, resolved relations)
/// from the rows read out of the store.
pub fn assemble_export(rows: &ExportRows) -> (p: ExportPayload)
    ensures
        assembled(*rows, p),
{
    let er = &rows.entities;
    let n = er.len();
    let mut ids: Vec<i64> = Vec::new();
    for i in 0..n
        invariant
            n == er@.len(),
            ids@ == entity_row_ids(er@).subrange(0, i as int),
    {
        ids.push(er[i].0);
        assert(ids@ =~= entity_row_ids(er@).subrange(0, i + 1));
    }
    assert(ids@ =~= entity_row_ids(er@));
    let mut entities: Vec<EntityExport> = Vec::new();
    for i in 0..n
        invariant
            n == er@.len(),
            ids@ == entity_row_ids(er@),
            entities@.len() == i,
            forall|k: int|
                0 <= k < i ==> {
                    let e = #[trigger] entities@[k];
                    &&& e.id == er@[k].0
                    &&& e.entity_type@ == er@[k].1@
                    &&& e.name@ == er@[k].2@
                    &&& e.label@ == er@[k].3@
                    &&& e.sort_order == er@[k].4
                    &&& distinct_keys(e.properties@)
                    &&& props_map(e.properties@) == if seen_before(ids@, k) {
                        Map::empty()
                    } else {
                        owned_props(rows.entity_props@, er@[k].0)
                    }
                },
    {
        let id = er[i].0;
        let mut earlier = false;
        for j in 0..i
            invariant
                i < n,
                n == ids@.len(),
                ids@[i as int] == id,
                earlier == exists|k: int| 0 <= k < j && ids@[k] == ids@[i as int],
        {
            if ids[j] == id {
                earlier = true;
            }
        }
        let properties = if earlier {
            let v: Vec<(String, String)> = Vec::new();
            assert(props_map(v@) =~= Map::empty());
            v
        } else {
            collect_props(&rows.entity_props, id)
        };
        entities.push(
            EntityExport {
                id,
                entity_type: er[i].1.clone(),
                name: er[i].2.clone(),
                label: er[i].3.clone(),
                sort_order: er[i].4,
                properties,
            },
        );
    }
    let rr = &rows.relations;
    let m = rr.len();
    let mut relations: Vec<RelationExport> = Vec::new();
    let mut kept_ids: Vec<i64> = Vec::new();
    let ghost keep = |r: (i64, i64, i64, i64)| kept_relation(rows.filtered, ids@, r);
    for i in 0..m
        invariant
            m == rr@.len(),
            ids@ == entity_row_ids(er@),
            keep == (|r: (i64, i64, i64, i64)| kept_relation(rows.filtered, ids@, r)),
            relations@.len() == kept_ids@.len(),
            rr@.subrange(0, i as int).filter(keep).len() == relations@.len(),
            kept_ids@ == relation_row_ids(rr@.subrange(0, i as int).filter(keep)),
            forall|k: int|
                0 <= k < relations@.len() ==> {
                    let r = #[trigger] relations@[k];
                    let row = rr@.subrange(0, i as int).filter(keep)[k];
                    &&& r.id == row.0
                    &&& r.relation_type@ == resolved_relation_type(rows.refs@, row.1)
                    &&& r.source@ == resolved_ref(rows.refs@, row.2)
                    &&& r.target@ == resolved_ref(rows.refs@, row.3)
                    &&& distinct_keys(r.properties@)
                    &&& props_map(r.properties@) == if seen_before(kept_ids@, k) {
                        Map::empty()
                    } else {
                        owned_props(rows.relation_props@, row.0)
                    }
                },
    {
        let ghost pre = rr@.subrange(0, i as int);
        assert(rr@.subrange(0, i + 1).drop_last() =~= pre);
        proof {
            reveal_with_fuel(Seq::<_>::filter, 1);
        }
        let row = rr[i];
        let keep_it = !rows.filtered || (contains_id(&ids, row.2) && contains_id(&ids, row.3));
        if keep_it {
            let mut earlier = false;
            let kn = kept_ids.len();
            for j in 0..kn
                invariant
                    kn == kept_ids@.len(),
                    earlier == exists|k: int| 0 <= k < j && kept_ids@[k] == row.0,
            {
                if kept_ids[j] == row.0 {
                    earlier = true;
                }
            }
            let properties = if earlier {
                let v: Vec<(String, String)> = Vec::new();
                assert(props_map(v@) =~= Map::empty());
                v
            } else {
                collect_props(&rows.relation_props, row.0)
            };
            let ghost old_kept = kept_ids@;
            kept_ids.push(row.0);
            relations.push(
                RelationExport {
                    id: row.0,
                    relation_type: resolve_relation_type(&rows.refs, row.1),
                    source: resolve_ref(&rows.refs, row.2),
                    target: resolve_ref(&rows.refs, row.3),
                    properties,
                },
            );
            assert(rr@.subrange(0, i + 1).filter(keep) =~= pre.filter(keep).push(row));
            assert(kept_ids@ =~= relation_row_ids(rr@.subrange(0, i + 1).filter(keep)));
            assert forall|k: int| 0 <= k < old_kept.len() implies seen_before(kept_ids@, k)
                == seen_before(old_kept, k) by {
                assert forall|j: int| 0 <= j < k implies kept_ids@[j] == old_kept[j] by {}
            }
            let ghost last = (kept_ids@.len() - 1) as int;
            assert(seen_before(kept_ids@, last) == earlier) by {
                if earlier {
                    let j = choose|j: int| 0 <= j < kn && old_kept[j] == row.0;
                    assert(kept_ids@[j] == kept_ids@[last]);
                }
            }
        } else {
            assert(rr@.subrange(0, i + 1).filter(keep) =~= pre.filter(keep));
        }
    }
    assert(rr@.subrange(0, m as int) =~= rr@);
    ExportPayload { entities, relations }
}

} // verus!
