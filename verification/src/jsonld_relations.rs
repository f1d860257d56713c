//! The relations an exported JSON-LD document states are the exported
//! relations: every relation is written once, in the node of its source,
//! grouped with the others of its type.
use vstd::prelude::*;
use vstd::seq_lib::*;
use crate::data_manager::{EntityExport, RelationExport, RelationImportView};
use crate::jsonld_export::{entity_ref, predicates_of, node_of};
use crate::jsonld_round_trip::{
    read_back, target_refs, relations_of_pred, grouped_relations, stated_relations,
    node_repr_any_order, entity_readable_any_order, entity_read_back,
    lemma_exported_document_reads_back_any_order, lemma_predicates_distinct,
};
use crate::json::{Json, entry_get};
use crate::text::{split_once, lemma_first_index_of_unique};

verus! {

/// An exported relation as the reader gives it back (the JSON-LD document
/// carries no relation properties).
pub open spec fn relation_read_back(r: RelationExport) -> RelationImportView {
    read_back(r.relation_type@, r.source@, r.target@)
}

/// The exported relations as the reader gives them back, in order.
pub open spec fn relations_read_back(rels: Seq<RelationExport>) -> Seq<RelationImportView> {
    rels.map_values(|r: RelationExport| relation_read_back(r))
}

/// The relations leaving `src`, in order, as read back.
pub open spec fn leaving(rels: Seq<RelationExport>, src: Seq<char>) -> Seq<RelationImportView>
    decreases rels.len(),
{
    if rels.len() == 0 {
        Seq::empty()
    } else {
        let l = leaving(rels.drop_last(), src);
        if rels.last().source@ == src {
            l.push(relation_read_back(rels.last()))
        } else {
            l
        }
    }
}

/// The relations leaving each entity, entity by entity.
pub open spec fn leaving_all(ents: Seq<EntityExport>, rels: Seq<RelationExport>) -> Seq<
    RelationImportView,
>
    decreases ents.len(),
{
    if ents.len() == 0 {
        Seq::empty()
    } else {
        leaving_all(ents.drop_last(), rels) + leaving(rels, entity_ref(ents.last()))
    }
}

/// How many of the entities have the reference `s`.
pub open spec fn ref_count(ents: Seq<EntityExport>, s: Seq<char>) -> nat
    decreases ents.len(),
{
    if ents.len() == 0 {
        0
    } else {
        ref_count(ents.drop_last(), s) + if entity_ref(ents.last()) == s {
            1nat
        } else {
            0nat
        }
    }
}

/// A relation type with a target leaving `src` is among its relation types.
proof fn lemma_target_refs_predicate(rels: Seq<RelationExport>, src: Seq<char>, p: Seq<char>)
    ensures
        target_refs(rels, src, p).len() > 0 ==> predicates_of(rels, src).contains(p),
    decreases rels.len(),
{
    if rels.len() > 0 {
        let d = rels.drop_last();
        lemma_target_refs_predicate(d, src, p);
        let pp = predicates_of(d, src);
        let ps = predicates_of(rels, src);
        if target_refs(d, src, p).len() > 0 {
            let i = choose|i: int| 0 <= i < pp.len() && pp[i] == p;
            assert(ps[i] == pp[i]);
        } else if target_refs(rels, src, p).len() > 0 {
            if pp.contains(p) {
                let i = choose|i: int| 0 <= i < pp.len() && pp[i] == p;
                assert(ps[i] == pp[i]);
            } else {
                assert(ps[pp.len() as int] == p);
            }
        }
    }
}

/// A last relation that leaves another entity changes nothing for `src`.
proof fn lemma_grouped_other(rels: Seq<RelationExport>, src: Seq<char>, preds: Seq<Seq<char>>)
    requires
        rels.len() > 0,
        rels.last().source@ != src,
    ensures
        grouped_relations(rels, src, preds) == grouped_relations(rels.drop_last(), src, preds),
    decreases preds.len(),
{
    if preds.len() > 0 {
        lemma_grouped_other(rels, src, preds.drop_last());
        assert(target_refs(rels, src, preds.last()) == target_refs(rels.drop_last(), src, preds.last()));
    }
}

/// A last relation leaving `src` adds itself once to the groups of the
/// (distinct) relation types `preds`, when its type is among them.
proof fn lemma_grouped_step(rels: Seq<RelationExport>, src: Seq<char>, preds: Seq<Seq<char>>)
    requires
        rels.len() > 0,
        rels.last().source@ == src,
        forall|a: int, b: int| 0 <= a < b < preds.len() ==> preds[a] != preds[b],
    ensures
        grouped_relations(rels, src, preds).to_multiset() == if preds.contains(
            rels.last().relation_type@,
        ) {
            grouped_relations(rels.drop_last(), src, preds).to_multiset().insert(
                relation_read_back(rels.last()),
            )
        } else {
            grouped_relations(rels.drop_last(), src, preds).to_multiset()
        },
    decreases preds.len(),
{
    broadcast use group_to_multiset_ensures, vstd::multiset::group_multiset_axioms;

    let d = rels.drop_last();
    let r = rels.last();
    let q = r.relation_type@;
    if preds.len() > 0 {
        let dp = preds.drop_last();
        let p = preds.last();
        assert forall|a: int, b: int| 0 <= a < b < dp.len() implies dp[a] != dp[b] by {
            assert(dp[a] == preds[a] && dp[b] == preds[b]);
        }
        lemma_grouped_step(rels, src, dp);
        let g = grouped_relations(rels, src, dp);
        let gd = grouped_relations(d, src, dp);
        let o = relations_of_pred(rels, src, p);
        let od = relations_of_pred(d, src, p);
        lemma_multiset_commutative(g, o);
        lemma_multiset_commutative(gd, od);
        if p == q {
            assert(target_refs(rels, src, p) == target_refs(d, src, p).push(r.target@));
            assert(o =~= od.push(read_back(p, src, r.target@)));
            assert(!dp.contains(q)) by {
                if dp.contains(q) {
                    let a = choose|a: int| 0 <= a < dp.len() && dp[a] == q;
                    assert(preds[a] == preds[preds.len() - 1]);
                }
            }
            assert(preds.contains(q)) by {
                assert(preds[preds.len() - 1] == q);
            }
        } else {
            assert(target_refs(rels, src, p) == target_refs(d, src, p));
            assert(preds.contains(q) == dp.contains(q)) by {
                if preds.contains(q) {
                    let a = choose|a: int| 0 <= a < preds.len() && preds[a] == q;
                    assert(dp[a] == q);
                }
                if dp.contains(q) {
                    let a = choose|a: int| 0 <= a < dp.len() && dp[a] == q;
                    assert(preds[a] == q);
                }
            }
        }
    }
}

/// The relations the node of `src` states are those leaving `src`.
proof fn lemma_grouped_is_leaving(rels: Seq<RelationExport>, src: Seq<char>)
    ensures
        grouped_relations(rels, src, predicates_of(rels, src)).to_multiset() == leaving(
            rels,
            src,
        ).to_multiset(),
    decreases rels.len(),
{
    broadcast use group_to_multiset_ensures, vstd::multiset::group_multiset_axioms;

    if rels.len() > 0 {
        let d = rels.drop_last();
        let r = rels.last();
        let q = r.relation_type@;
        lemma_grouped_is_leaving(d, src);
        let pd = predicates_of(d, src);
        let p = predicates_of(rels, src);
        lemma_predicates_distinct(rels, src);
        lemma_predicates_distinct(d, src);
        if r.source@ != src {
            lemma_grouped_other(rels, src, pd);
        } else {
            lemma_grouped_step(rels, src, p);
            if pd.contains(q) {
                assert(p == pd);
            } else {
                assert(p == pd.push(q));
                assert(p.contains(q)) by {
                    assert(p[pd.len() as int] == q);
                }
                assert(p.drop_last() =~= pd);
                lemma_target_refs_predicate(d, src, q);
                assert(target_refs(d, src, q).len() == 0);
                assert(relations_of_pred(d, src, q) =~= Seq::<RelationImportView>::empty());
                assert(grouped_relations(d, src, p) =~= grouped_relations(d, src, pd));
            }
        }
    }
}

/// The relations stated by all nodes are those leaving each entity.
proof fn lemma_stated_is_leaving(ents: Seq<EntityExport>, rels: Seq<RelationExport>)
    ensures
        stated_relations(ents, rels).to_multiset() == leaving_all(ents, rels).to_multiset(),
    decreases ents.len(),
{
    if ents.len() > 0 {
        let d = ents.drop_last();
        let s = entity_ref(ents.last());
        lemma_stated_is_leaving(d, rels);
        lemma_grouped_is_leaving(rels, s);
        lemma_multiset_commutative(
            stated_relations(d, rels),
            grouped_relations(rels, s, predicates_of(rels, s)),
        );
        lemma_multiset_commutative(leaving_all(d, rels), leaving(rels, s));
    }
}

/// One more relation is left by each entity it leaves.
proof fn lemma_leaving_all_push(ents: Seq<EntityExport>, rels: Seq<RelationExport>, r: RelationExport)
    requires
        ref_count(ents, r.source@) <= 1,
    ensures
        leaving_all(ents, rels.push(r)).to_multiset() == if ref_count(ents, r.source@) == 1 {
            leaving_all(ents, rels).to_multiset().insert(relation_read_back(r))
        } else {
            leaving_all(ents, rels).to_multiset()
        },
    decreases ents.len(),
{
    broadcast use group_to_multiset_ensures, vstd::multiset::group_multiset_axioms;

    if ents.len() > 0 {
        let d = ents.drop_last();
        let s = entity_ref(ents.last());
        lemma_leaving_all_push(d, rels, r);
        let rp = rels.push(r);
        assert(rp.drop_last() =~= rels);
        assert(rp.last() == r);
        lemma_multiset_commutative(leaving_all(d, rp), leaving(rp, s));
        lemma_multiset_commutative(leaving_all(d, rels), leaving(rels, s));
    }
}

/// Distinct references, one of them `s`: exactly one entity has it.
proof fn lemma_ref_count_one(ents: Seq<EntityExport>, s: Seq<char>)
    requires
        forall|i: int, j: int|
            0 <= i < j < ents.len() ==> entity_ref(#[trigger] ents[i]) != entity_ref(#[trigger] ents[j]),
    ensures
        ref_count(ents, s) <= 1,
        (exists|i: int| 0 <= i < ents.len() && entity_ref(#[trigger] ents[i]) == s) ==> ref_count(ents, s)
            == 1,
        (forall|i: int| 0 <= i < ents.len() ==> entity_ref(#[trigger] ents[i]) != s) ==> ref_count(ents, s)
            == 0,
    decreases ents.len(),
{
    if ents.len() > 0 {
        let d = ents.drop_last();
        let n = ents.len() - 1;
        assert forall|i: int, j: int| 0 <= i < j < d.len() implies entity_ref(#[trigger] d[i]) != entity_ref(
            #[trigger] d[j],
        ) by {
            assert(d[i] == ents[i] && d[j] == ents[j]);
        }
        lemma_ref_count_one(d, s);
        assert(ents.last() == ents[n]);
        if entity_ref(ents[n]) == s {
            assert forall|i: int| 0 <= i < d.len() implies entity_ref(#[trigger] d[i]) != s by {
                assert(d[i] == ents[i]);
            }
        }
        if exists|i: int| 0 <= i < ents.len() && entity_ref(#[trigger] ents[i]) == s {
            let i = choose|i: int| 0 <= i < ents.len() && entity_ref(#[trigger] ents[i]) == s;
            if i < n {
                assert(d[i] == ents[i]);
            }
        }
        if forall|i: int| 0 <= i < ents.len() ==> entity_ref(#[trigger] ents[i]) != s {
            assert forall|i: int| 0 <= i < d.len() implies entity_ref(#[trigger] d[i]) != s by {
                assert(d[i] == ents[i]);
            }
        }
    }
}

/// Every entity's reference is its own.
pub open spec fn refs_distinct(ents: Seq<EntityExport>) -> bool {
    forall|i: int, j: int|
        0 <= i < j < ents.len() ==> entity_ref(#[trigger] ents[i]) != entity_ref(#[trigger] ents[j])
}

/// A reference splits back into its type and name when the type holds no
/// `:`.
proof fn lemma_ref_splits(t: Seq<char>, n: Seq<char>)
    requires
        !t.contains(':'),
    ensures
        split_once(t + ":"@ + n, ':') == Some((t, n)),
{
    reveal_strlit(":");
    let r = t + ":"@ + n;
    assert(r[t.len() as int] == ':');
    assert forall|j: int| 0 <= j < t.len() implies r[j] != ':' by {
        assert(r[j] == t[j]);
    }
    lemma_first_index_of_unique(r, ':', t.len() as int);
    assert(r.subrange(0, t.len() as int) =~= t);
    assert(r.subrange((t.len() + 1) as int, r.len() as int) =~= n);
}

/// Entities with distinct (type, name) pairs and no `:` in a type have
/// distinct references.
pub proof fn lemma_refs_distinct(ents: Seq<EntityExport>)
    requires
        forall|i: int, j: int|
            0 <= i < j < ents.len() ==> ((#[trigger] ents[i]).entity_type@, ents[i].name@) != (
                (#[trigger] ents[j]).entity_type@,
                ents[j].name@,
            ),
        forall|i: int| 0 <= i < ents.len() ==> !(#[trigger] ents[i]).entity_type@.contains(':'),
    ensures
        refs_distinct(ents),
{
    assert forall|i: int, j: int| 0 <= i < j < ents.len() implies entity_ref(#[trigger] ents[i])
        != entity_ref(#[trigger] ents[j]) by {
        lemma_ref_splits(ents[i].entity_type@, ents[i].name@);
        lemma_ref_splits(ents[j].entity_type@, ents[j].name@);
    }
}

/// Every relation leaves one of the entities.
pub open spec fn sources_exported(ents: Seq<EntityExport>, rels: Seq<RelationExport>) -> bool {
    forall|k: int|
        0 <= k < rels.len() ==> exists|i: int|
            0 <= i < ents.len() && entity_ref(#[trigger] ents[i]) == (#[trigger] rels[k]).source@
}

proof fn lemma_leaving_all_is_all(ents: Seq<EntityExport>, rels: Seq<RelationExport>)
    requires
        refs_distinct(ents),
        sources_exported(ents, rels),
    ensures
        leaving_all(ents, rels).to_multiset() == relations_read_back(rels).to_multiset(),
    decreases rels.len(),
{
    broadcast use group_to_multiset_ensures;

    if rels.len() == 0 {
        assert(relations_read_back(rels) =~= Seq::<RelationImportView>::empty());
        lemma_leaving_all_empty(ents, rels);
    } else {
        let d = rels.drop_last();
        let n = rels.len() - 1;
        let r = rels.last();
        assert forall|k: int| 0 <= k < d.len() implies exists|i: int|
            0 <= i < ents.len() && entity_ref(#[trigger] ents[i]) == (#[trigger] d[k]).source@ by {
            assert(d[k] == rels[k]);
        }
        lemma_leaving_all_is_all(ents, d);
        assert(r == rels[n]);
        lemma_ref_count_one(ents, r.source@);
        lemma_leaving_all_push(ents, d, r);
        assert(d.push(r) =~= rels);
        assert(relations_read_back(rels) =~= relations_read_back(d).push(relation_read_back(r)));
    }
}

proof fn lemma_leaving_all_empty(ents: Seq<EntityExport>, rels: Seq<RelationExport>)
    requires
        rels.len() == 0,
    ensures
        leaving_all(ents, rels) =~= Seq::<RelationImportView>::empty(),
    decreases ents.len(),
{
    if ents.len() > 0 {
        lemma_leaving_all_empty(ents.drop_last(), rels);
        assert(leaving(rels, entity_ref(ents.last())) =~= Seq::<RelationImportView>::empty());
    }
}

/// Every exported relation is stated exactly once by the nodes of the
/// export: the relations the nodes state are the exported relations
/// (counted with repetition), when no two entities share a reference and
/// every relation leaves an exported entity.
pub proof fn lemma_stated_relations_are_the_export(ents: Seq<EntityExport>, rels: Seq<RelationExport>)
    requires
        refs_distinct(ents),
        sources_exported(ents, rels),
    ensures
        stated_relations(ents, rels).to_multiset() == relations_read_back(rels).to_multiset(),
{
    lemma_stated_is_leaving(ents, rels);
    lemma_leaving_all_is_all(ents, rels);
}

/// Export then import: a document written for the exported entities and
/// relations, as a JSON writer gives it (the context and graph in either
/// order, each node's members in any order), reads back as an import in the
/// default `skip` mode of every exported entity, in order, and of every
/// exported relation (type, source and target, counted with repetition);
/// when no two entities share a type and name, no type holds `:`, every
/// relation leaves an exported entity, and every entity's node reads back
/// (see `entity_readable_any_order`).
pub proof fn lemma_export_then_import(ents: Seq<EntityExport>, rels: Seq<RelationExport>, j: Json)
    requires
        match j {
            Json::Object(es, _) => es@.len() == 2 && ((es@[0].0@ == "@graph"@ && es@[1].0@
                == "@context"@) || (es@[0].0@ == "@context"@ && es@[1].0@ == "@graph"@))
                && match entry_get(es@, "@graph"@) {
                Some(Json::Array(items, _)) => items@.len() == ents.len() && forall|i: int|
                    0 <= i < ents.len() ==> node_repr_any_order(
                        #[trigger] items@[i],
                        node_of(ents[i], rels),
                    ),
                _ => false,
            },
            _ => false,
        },
        forall|i: int| 0 <= i < ents.len() ==> entity_readable_any_order(#[trigger] ents[i], rels),
        forall|a: int, b: int|
            0 <= a < b < ents.len() ==> ((#[trigger] ents[a]).entity_type@, ents[a].name@) != (
                (#[trigger] ents[b]).entity_type@,
                ents[b].name@,
            ),
        forall|i: int| 0 <= i < ents.len() ==> !(#[trigger] ents[i]).entity_type@.contains(':'),
        sources_exported(ents, rels),
    ensures
        crate::jsonld::jsonld_payload(j) matches Ok(p) && p.conflict_mode
            == crate::data_manager::ConflictMode::Skip && p.entities == ents.map_values(
            |e: EntityExport| entity_read_back(e),
        ) && p.relations.to_multiset() == relations_read_back(rels).to_multiset(),
{
    lemma_exported_document_reads_back_any_order(ents, rels, j);
    lemma_refs_distinct(ents);
    lemma_stated_relations_are_the_export(ents, rels);
}

} // verus!
