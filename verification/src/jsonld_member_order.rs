//! Reading a JSON-LD node does not depend on the order of its members.
//!
//! A JSON writer may give an object's members in any order (`serde_json`
//! without `preserve_order` sorts them by key). Each member of a node is
//! read on its own: it adds at most one property and some relations, so
//! when no two members name the same key or the same property, every order
//! gives the same entity and the same relations, up to their order.
use vstd::prelude::*;
use vstd::seq_lib::*;
use crate::text::strip_prefix_or_keep;
use crate::json::{Json, entry_get, literal_text, json_str};
use crate::jsonld::{
    member_step, members_result, node_members_result, skipped_key, ahlt_prefix, array_relations,
    all_have_id, iri_type_name, read_relation,
};
use crate::data_manager::RelationImportView;

verus! {

/// What one member gives when read on its own: at most one property and
/// the relations it names.
pub open spec fn member_effect(m: (String, Json), source: Seq<char>) -> Result<
    (Map<Seq<char>, Seq<char>>, Seq<RelationImportView>),
    Seq<char>,
> {
    member_step((Map::empty(), Seq::empty()), m.0@, m.1, source)
}

/// The property a member gives (none when it fails).
pub open spec fn effect_map(m: (String, Json), source: Seq<char>) -> Map<Seq<char>, Seq<char>> {
    match member_effect(m, source) {
        Ok(r) => r.0,
        Err(_) => Map::empty(),
    }
}

/// The relations a member gives (none when it fails).
pub open spec fn effect_rels(m: (String, Json), source: Seq<char>) -> Seq<RelationImportView> {
    match member_effect(m, source) {
        Ok(r) => r.1,
        Err(_) => Seq::empty(),
    }
}

/// The properties of the members, a later one replacing an earlier one.
pub open spec fn effects_map(es: Seq<(String, Json)>, source: Seq<char>) -> Map<Seq<char>, Seq<char>>
    decreases es.len(),
{
    if es.len() == 0 {
        Map::empty()
    } else {
        effects_map(es.drop_last(), source).union_prefer_right(effect_map(es.last(), source))
    }
}

/// The relations of the members, member by member.
pub open spec fn effects_rels(es: Seq<(String, Json)>, source: Seq<char>) -> Seq<RelationImportView>
    decreases es.len(),
{
    if es.len() == 0 {
        Seq::empty()
    } else {
        effects_rels(es.drop_last(), source) + effect_rels(es.last(), source)
    }
}

/// No two members share a key, and no two read members (those whose key
/// is not passed over) name the same property.
pub open spec fn members_distinct(es: Seq<(String, Json)>) -> bool {
    forall|i: int, j: int|
        0 <= i < es.len() && 0 <= j < es.len() && i != j ==> {
            &&& (#[trigger] es[i]).0@ != (#[trigger] es[j]).0@
            &&& (!skipped_key(es[i].0@) && !skipped_key(es[j].0@)) ==> strip_prefix_or_keep(
                es[i].0@,
                ahlt_prefix(),
            ) != strip_prefix_or_keep(es[j].0@, ahlt_prefix())
        }
}

/// Reading a member after others adds its own property and relations to
/// what was read; its property is named by its key.
proof fn lemma_step_shape(
    acc: (Map<Seq<char>, Seq<char>>, Seq<RelationImportView>),
    key: Seq<char>,
    val: Json,
    source: Seq<char>,
)
    ensures
        member_step(acc, key, val, source) == match member_step(
            (Map::empty(), Seq::empty()),
            key,
            val,
            source,
        ) {
            Err(e) => Err(e),
            Ok(r) => Ok((acc.0.union_prefer_right(r.0), acc.1 + r.1)),
        },
        member_step((Map::empty(), Seq::empty()), key, val, source) matches Ok(r) ==> forall|k: Seq<char>|
            #[trigger] r.0.dom().contains(k) ==> !skipped_key(key) && k == strip_prefix_or_keep(
                key,
                ahlt_prefix(),
            ),
{
    let e0 = (Map::<Seq<char>, Seq<char>>::empty(), Seq::<RelationImportView>::empty());
    assert(acc.0.union_prefer_right(Map::empty()) =~= acc.0);
    assert(acc.1 + Seq::<RelationImportView>::empty() =~= acc.1);
    if !skipped_key(key) {
        let prop = strip_prefix_or_keep(key, ahlt_prefix());
        let t = literal_text(val);
        assert(acc.0.union_prefer_right(Map::empty().insert(prop, t)) =~= acc.0.insert(prop, t));
        assert(Map::<Seq<char>, Seq<char>>::empty().insert(prop, t).dom() =~= set![prop]);
        match val {
            Json::Object(es, _) => match json_str(entry_get(es@, "@id"@)) {
                Some(id) => match iri_type_name(id) {
                    Ok((tt, tn)) => {
                        let r = read_relation(prop, source, tt, tn);
                        assert(acc.1.push(r) =~= acc.1 + Seq::empty().push(r));
                    },
                    Err(_) => {},
                },
                None => {},
            },
            Json::Array(items, _) => {
                if items@.len() > 0 && all_have_id(items@) {
                    match array_relations(items@, prop, source) {
                        Ok(rs) => {
                            assert(Seq::<RelationImportView>::empty() + rs =~= rs);
                        },
                        Err(_) => {},
                    }
                }
            },
            _ => {},
        }
    }
}

/// The members read without failure exactly when each one does, and then
/// give the properties and relations of the members one by one.
proof fn lemma_members_effects(es: Seq<(String, Json)>, source: Seq<char>)
    ensures
        members_result(es, source) is Ok <==> (forall|i: int|
            0 <= i < es.len() ==> #[trigger] member_effect(es[i], source) is Ok),
        members_result(es, source) is Ok ==> members_result(es, source) == Ok::<_, Seq<char>>(
            (effects_map(es, source), effects_rels(es, source)),
        ),
    decreases es.len(),
{
    if es.len() > 0 {
        let d = es.drop_last();
        let n = es.len() - 1;
        lemma_members_effects(d, source);
        assert forall|i: int| 0 <= i < d.len() implies d[i] == es[i] by {}
        assert(es.last() == es[n]);
        match members_result(d, source) {
            Ok(acc) => {
                lemma_step_shape(acc, es.last().0@, es.last().1, source);
                if members_result(es, source) is Ok {
                    assert forall|i: int| 0 <= i < es.len() implies #[trigger] member_effect(
                        es[i],
                        source,
                    ) is Ok by {
                        if i < n {
                            assert(member_effect(d[i], source) is Ok);
                        }
                    }
                } else {
                    assert(member_effect(es[n], source) is Err);
                }
            },
            Err(_) => {
                let i = choose|i: int| 0 <= i < d.len() && #[trigger] member_effect(d[i], source) is Err;
                assert(member_effect(es[i], source) is Err);
            },
        }
    }
}

proof fn lemma_effects_rels_concat(a: Seq<(String, Json)>, b: Seq<(String, Json)>, source: Seq<char>)
    ensures
        effects_rels(a + b, source) == effects_rels(a, source) + effects_rels(b, source),
    decreases b.len(),
{
    if b.len() == 0 {
        assert(a + b =~= a);
        assert(effects_rels(a, source) + Seq::<RelationImportView>::empty() =~= effects_rels(a, source));
    } else {
        lemma_effects_rels_concat(a, b.drop_last(), source);
        assert((a + b).drop_last() =~= a + b.drop_last());
        assert((a + b).last() == b.last());
        assert(effects_rels(a, source) + effects_rels(b.drop_last(), source) + effect_rels(
            b.last(),
            source,
        ) =~= effects_rels(a, source) + (effects_rels(b.drop_last(), source) + effect_rels(
            b.last(),
            source,
        )));
    }
}

/// The relations of members given in another order are the same, counted
/// with repetition.
proof fn lemma_effects_rels_permuted(
    es1: Seq<(String, Json)>,
    es2: Seq<(String, Json)>,
    source: Seq<char>,
)
    requires
        es1.to_multiset() == es2.to_multiset(),
    ensures
        effects_rels(es1, source).to_multiset() == effects_rels(es2, source).to_multiset(),
    decreases es1.len(),
{
    broadcast use group_to_multiset_ensures, vstd::multiset::group_multiset_axioms;

    if es1.len() == 0 {
        assert(es2.to_multiset().len() == 0);
        assert(es2 =~= Seq::<(String, Json)>::empty());
    } else {
        let x = es1.last();
        let d = es1.drop_last();
        assert(es1 =~= d.push(x));
        assert(es1.to_multiset() == d.to_multiset().insert(x));
        assert(es2.to_multiset().count(x) > 0);
        assert(es2.contains(x));
        let j = choose|j: int| 0 <= j < es2.len() && es2[j] == x;
        let r = es2.remove(j);
        assert(r.to_multiset() == es2.to_multiset().remove(x));
        assert(r.to_multiset() =~= d.to_multiset());
        lemma_effects_rels_permuted(d, r, source);
        let a = es2.subrange(0, j);
        let b = es2.subrange(j + 1, es2.len() as int);
        assert(es2 =~= a + seq![x] + b);
        assert(r =~= a + b);
        lemma_effects_rels_concat(a + seq![x], b, source);
        lemma_effects_rels_concat(a, seq![x], source);
        lemma_effects_rels_concat(a, b, source);
        assert(seq![x].drop_last() =~= Seq::<(String, Json)>::empty());
        assert(seq![x].last() == x);
        assert(effects_rels(Seq::<(String, Json)>::empty(), source) =~= Seq::<RelationImportView>::empty());
        assert(effects_rels(seq![x], source) =~= Seq::<RelationImportView>::empty() + effect_rels(x, source));
        assert(effects_rels(seq![x], source) =~= effect_rels(x, source));
        let ra = effects_rels(a, source);
        let rb = effects_rels(b, source);
        let rx = effect_rels(x, source);
        lemma_multiset_commutative(ra + rx, rb);
        lemma_multiset_commutative(ra, rx);
        lemma_multiset_commutative(ra, rb);
        lemma_multiset_commutative(effects_rels(d, source), rx);
        assert(effects_rels(es2, source).to_multiset() =~= effects_rels(r, source).to_multiset().add(
            rx.to_multiset(),
        ));
    }
}

/// The properties of the members: a property is there when some member
/// gives it, with the value one such member gives.
proof fn lemma_effects_map_entries(es: Seq<(String, Json)>, source: Seq<char>, k: Seq<char>)
    ensures
        effects_map(es, source).dom().contains(k) <==> exists|i: int|
            0 <= i < es.len() && #[trigger] effect_map(es[i], source).dom().contains(k),
        effects_map(es, source).dom().contains(k) ==> exists|i: int|
            0 <= i < es.len() && #[trigger] effect_map(es[i], source).dom().contains(k)
                && effects_map(es, source)[k] == effect_map(es[i], source)[k],
    decreases es.len(),
{
    if es.len() > 0 {
        let d = es.drop_last();
        let n = es.len() - 1;
        lemma_effects_map_entries(d, source, k);
        assert forall|i: int| 0 <= i < d.len() implies d[i] == es[i] by {}
        assert(es.last() == es[n]);
        if effect_map(es[n], source).dom().contains(k) {
        } else if effects_map(d, source).dom().contains(k) {
            let i = choose|i: int|
                0 <= i < d.len() && #[trigger] effect_map(d[i], source).dom().contains(k)
                    && effects_map(d, source)[k] == effect_map(d[i], source)[k];
            assert(effect_map(es[i], source).dom().contains(k));
        } else {
            if exists|i: int| 0 <= i < es.len() && #[trigger] effect_map(es[i], source).dom().contains(k) {
                let i = choose|i: int|
                    0 <= i < es.len() && #[trigger] effect_map(es[i], source).dom().contains(k);
                assert(i < n);
                assert(effect_map(d[i], source).dom().contains(k));
            }
        }
    }
}

/// The property a member gives is named by its key, and passed-over
/// members give none.
proof fn lemma_effect_key(m: (String, Json), source: Seq<char>, k: Seq<char>)
    requires
        effect_map(m, source).dom().contains(k),
    ensures
        !skipped_key(m.0@),
        k == strip_prefix_or_keep(m.0@, ahlt_prefix()),
{
    lemma_step_shape((Map::empty(), Seq::empty()), m.0@, m.1, source);
}

/// Members given in another order give the same properties, when no two
/// members name the same property.
proof fn lemma_effects_map_permuted(
    es1: Seq<(String, Json)>,
    es2: Seq<(String, Json)>,
    source: Seq<char>,
)
    requires
        es1.to_multiset() == es2.to_multiset(),
        members_distinct(es1),
    ensures
        effects_map(es1, source) == effects_map(es2, source),
{
    broadcast use group_to_multiset_ensures;

    assert forall|k: Seq<char>| #[trigger] effects_map(es1, source).dom().contains(k)
        == effects_map(es2, source).dom().contains(k) by {
        lemma_effects_map_entries(es1, source, k);
        lemma_effects_map_entries(es2, source, k);
        if effects_map(es1, source).dom().contains(k) {
            let i = choose|i: int|
                0 <= i < es1.len() && #[trigger] effect_map(es1[i], source).dom().contains(k);
            assert(es1.contains(es1[i]));
            assert(es2.to_multiset().count(es1[i]) > 0);
            assert(es2.contains(es1[i]));
            let j = choose|j: int| 0 <= j < es2.len() && es2[j] == es1[i];
            assert(effect_map(es2[j], source).dom().contains(k));
        }
        if effects_map(es2, source).dom().contains(k) {
            let i = choose|i: int|
                0 <= i < es2.len() && #[trigger] effect_map(es2[i], source).dom().contains(k);
            assert(es2.contains(es2[i]));
            assert(es1.to_multiset().count(es2[i]) > 0);
            assert(es1.contains(es2[i]));
            let j = choose|j: int| 0 <= j < es1.len() && es1[j] == es2[i];
            assert(effect_map(es1[j], source).dom().contains(k));
        }
    }
    assert forall|k: Seq<char>| #[trigger] effects_map(es1, source).dom().contains(k) implies effects_map(
        es1,
        source,
    )[k] == effects_map(es2, source)[k] by {
        lemma_effects_map_entries(es1, source, k);
        lemma_effects_map_entries(es2, source, k);
        let i1 = choose|i: int|
            0 <= i < es1.len() && #[trigger] effect_map(es1[i], source).dom().contains(k)
                && effects_map(es1, source)[k] == effect_map(es1[i], source)[k];
        let i2 = choose|i: int|
            0 <= i < es2.len() && #[trigger] effect_map(es2[i], source).dom().contains(k)
                && effects_map(es2, source)[k] == effect_map(es2[i], source)[k];
        assert(es2.contains(es2[i2]));
        assert(es1.to_multiset().count(es2[i2]) > 0);
        assert(es1.contains(es2[i2]));
        let a = choose|a: int| 0 <= a < es1.len() && es1[a] == es2[i2];
        lemma_effect_key(es1[a], source, k);
        lemma_effect_key(es1[i1], source, k);
        if a != i1 {
            assert(es1[a].0@ != es1[i1].0@);
        }
    }
    assert(effects_map(es1, source) =~= effects_map(es2, source));
}

/// A member found by its key is one with that key; none is found when no
/// member has it.
proof fn lemma_entry_get_found(es: Seq<(String, Json)>, key: Seq<char>)
    ensures
        entry_get(es, key) matches Some(v) ==> exists|i: int|
            0 <= i < es.len() && (#[trigger] es[i]).0@ == key && es[i].1 == v,
        entry_get(es, key) is None ==> forall|i: int| 0 <= i < es.len() ==> (#[trigger] es[i]).0@ != key,
    decreases es.len(),
{
    if es.len() > 0 {
        let t = es.drop_first();
        lemma_entry_get_found(t, key);
        assert forall|i: int| 0 <= i < t.len() implies t[i] == es[i + 1] by {}
        if es[0].0@ != key {
            if entry_get(t, key) is Some {
                let i = choose|i: int|
                    0 <= i < t.len() && (#[trigger] t[i]).0@ == key && t[i].1 == entry_get(t, key)->0;
                assert(es[i + 1] == t[i]);
            } else {
                assert forall|i: int| 0 <= i < es.len() implies (#[trigger] es[i]).0@ != key by {
                    if i > 0 {
                        assert(es[i] == t[i - 1]);
                    }
                }
            }
        }
    }
}

/// Members given in another order find the same member by key, when no
/// two members share a key.
proof fn lemma_entry_get_permuted(es1: Seq<(String, Json)>, es2: Seq<(String, Json)>, key: Seq<char>)
    requires
        es1.to_multiset() == es2.to_multiset(),
        members_distinct(es1),
    ensures
        entry_get(es1, key) == entry_get(es2, key),
{
    broadcast use group_to_multiset_ensures;

    lemma_entry_get_found(es1, key);
    lemma_entry_get_found(es2, key);
    if entry_get(es2, key) is Some {
        let i2 = choose|i: int|
            0 <= i < es2.len() && (#[trigger] es2[i]).0@ == key && es2[i].1 == entry_get(es2, key)->0;
        assert(es2.contains(es2[i2]));
        assert(es1.to_multiset().count(es2[i2]) > 0);
        assert(es1.contains(es2[i2]));
        let a = choose|a: int| 0 <= a < es1.len() && es1[a] == es2[i2];
        assert(es1[a].0@ == key);
        if entry_get(es1, key) is Some {
            let i1 = choose|i: int|
                0 <= i < es1.len() && (#[trigger] es1[i]).0@ == key && es1[i].1 == entry_get(
                    es1,
                    key,
                )->0;
            if a != i1 {
                assert(es1[a].0@ != es1[i1].0@);
            }
        }
    } else if entry_get(es1, key) is Some {
        let i1 = choose|i: int|
            0 <= i < es1.len() && (#[trigger] es1[i]).0@ == key && es1[i].1 == entry_get(es1, key)->0;
        assert(es1.contains(es1[i1]));
        assert(es2.to_multiset().count(es1[i1]) > 0);
        assert(es2.contains(es1[i1]));
        let b = choose|b: int| 0 <= b < es2.len() && es2[b] == es1[i1];
        assert(es2[b].0@ == key);
    }
}

/// Reading a node does not depend on the order of its members: the same
/// members in any order, no two of them sharing a key or naming the same
/// property, read as the same entity and the same relations (counted with
/// repetition, in the order their members come).
pub proof fn lemma_node_reading_ignores_member_order(
    es1: Seq<(String, Json)>,
    es2: Seq<(String, Json)>,
)
    requires
        es1.to_multiset() == es2.to_multiset(),
        members_distinct(es1),
        node_members_result(es1) is Ok,
    ensures
        match (node_members_result(es1), node_members_result(es2)) {
            (Ok(r1), Ok(r2)) => r1.0 == r2.0 && r1.1.to_multiset() == r2.1.to_multiset(),
            _ => false,
        },
{
    broadcast use group_to_multiset_ensures;

    lemma_entry_get_permuted(es1, es2, "@id"@);
    lemma_entry_get_permuted(es1, es2, "ahlt:label"@);
    lemma_entry_get_permuted(es1, es2, "ahlt:sort_order"@);
    let id = json_str(entry_get(es1, "@id"@))->0;
    let (et, name) = iri_type_name(id)->Ok_0;
    let source = et + ":"@ + name;
    lemma_members_effects(es1, source);
    lemma_members_effects(es2, source);
    assert forall|i: int| 0 <= i < es2.len() implies #[trigger] member_effect(es2[i], source) is Ok by {
        assert(es2.contains(es2[i]));
        assert(es1.to_multiset().count(es2[i]) > 0);
        assert(es1.contains(es2[i]));
        let a = choose|a: int| 0 <= a < es1.len() && es1[a] == es2[i];
        assert(member_effect(es1[a], source) is Ok);
    }
    lemma_effects_map_permuted(es1, es2, source);
    lemma_effects_rels_permuted(es1, es2, source);
}

} // verus!
