//! Writing the exported entity graph as SQL `INSERT` statements.
use vstd::prelude::*;
use crate::text::{
    chars_of, text_of, push_chars, push_str, replace_char, replace_char_exec, split_once,
    split_once_exec, decimal, decimal_chars,
};
use crate::data_manager::{EntityExport, RelationExport, ExportPayload};

verus! {

/// A string literal's characters with every `'` doubled.
pub open spec fn sql_escaped(s: Seq<char>) -> Seq<char> {
    replace_char(s, '\'', seq!['\'', '\''])
}

/// Escapes single quotes for SQL string literals.
pub fn escape_sql(s: &str) -> (r: String)
    ensures
        r@ == sql_escaped(s@),
{
    let c = chars_of(s);
    let out = escape_chars(c.as_slice());
    text_of(out.as_slice())
}

fn escape_chars(s: &[char]) -> (r: Vec<char>)
    ensures
        r@ == sql_escaped(s@),
{
    let mut q: Vec<char> = Vec::new();
    q.push('\'');
    q.push('\'');
    assert(q@ =~= seq!['\'', '\'']);
    replace_char_exec(s, '\'', q.as_slice())
}

/// Reading an escaped literal back: each doubled `'` stands for one.
pub open spec fn sql_unescaped(t: Seq<char>) -> Seq<char>
    decreases t.len(),
{
    if t.len() >= 2 && t.last() == '\'' && t[t.len() - 2] == '\'' {
        sql_unescaped(t.subrange(0, t.len() - 2)).push('\'')
    } else if t.len() > 0 {
        sql_unescaped(t.drop_last()).push(t.last())
    } else {
        Seq::empty()
    }
}

/// Escaping loses nothing: reading the escaped literal back gives the
/// unescaped text, so distinct texts are written as distinct literals.
pub proof fn lemma_sql_escape_round_trip(s: Seq<char>)
    ensures
        sql_unescaped(sql_escaped(s)) == s,
    decreases s.len(),
{
    if s.len() > 0 {
        let t = s.drop_last();
        lemma_sql_escape_round_trip(t);
        let e = sql_escaped(s);
        let et = sql_escaped(t);
        if s.last() == '\'' {
            assert(e =~= et + seq!['\'', '\'']);
            assert(e.subrange(0, e.len() - 2) =~= et);
        } else {
            assert(e =~= et.push(s.last()));
            assert(e.drop_last() =~= et);
        }
        assert(t.push(s.last()) =~= s);
    }
}

/// How many times `c` occurs in `s`.
pub open spec fn count_char(s: Seq<char>, c: char) -> nat
    decreases s.len(),
{
    if s.len() == 0 {
        0
    } else {
        count_char(s.drop_last(), c) + (if s.last() == c {
            1nat
        } else {
            0nat
        })
    }
}

/// `s` with every `c` removed.
pub open spec fn without_char(s: Seq<char>, c: char) -> Seq<char>
    decreases s.len(),
{
    if s.len() == 0 {
        Seq::empty()
    } else if s.last() == c {
        without_char(s.drop_last(), c)
    } else {
        without_char(s.drop_last(), c).push(s.last())
    }
}

proof fn lemma_count_without_concat(a: Seq<char>, b: Seq<char>, c: char)
    ensures
        count_char(a + b, c) == count_char(a, c) + count_char(b, c),
        without_char(a + b, c) == without_char(a, c) + without_char(b, c),
    decreases b.len(),
{
    if b.len() == 0 {
        assert(a + b =~= a);
    } else {
        lemma_count_without_concat(a, b.drop_last(), c);
        assert((a + b).drop_last() =~= a + b.drop_last());
        assert((a + b).last() == b.last());
        assert(without_char(a, c) + without_char(b.drop_last(), c).push(b.last()) =~= (without_char(
            a,
            c,
        ) + without_char(b.drop_last(), c)).push(b.last()));
    }
}

/// Escaping doubles every quote and leaves the other characters as they
/// were: the escaped text holds twice as many quotes, and with the quotes
/// taken out both texts are the same.
pub proof fn lemma_sql_escape_quotes(s: Seq<char>)
    ensures
        count_char(sql_escaped(s), '\'') == 2 * count_char(s, '\''),
        without_char(sql_escaped(s), '\'') == without_char(s, '\''),
    decreases s.len(),
{
    if s.len() > 0 {
        let t = s.drop_last();
        lemma_sql_escape_quotes(t);
        let tail = if s.last() == '\'' {
            seq!['\'', '\'']
        } else {
            seq![s.last()]
        };
        assert(sql_escaped(s) == sql_escaped(t) + tail);
        lemma_count_without_concat(sql_escaped(t), tail, '\'');
        reveal_with_fuel(without_char, 3);
        reveal_with_fuel(count_char, 3);
        if s.last() == '\'' {
            assert(tail.drop_last() =~= seq!['\'']);
            assert(seq!['\''].drop_last() =~= Seq::<char>::empty());
            assert(without_char(tail, '\'') =~= Seq::<char>::empty());
            assert(count_char(tail, '\'') == 2);
            assert(without_char(sql_escaped(t), '\'') + Seq::<char>::empty() =~= without_char(sql_escaped(t), '\''));
        } else {
            assert(tail.drop_last() =~= Seq::<char>::empty());
            assert(without_char(tail, '\'') =~= seq![s.last()]);
            assert(without_char(sql_escaped(t), '\'') + seq![s.last()] =~= without_char(sql_escaped(t), '\'').push(s.last()));
        }
    }
}

/// A `"type:name"` reference split into its parts; `("unknown", r)` when
/// there is no `:`.
pub open spec fn ref_parts(r: Seq<char>) -> (Seq<char>, Seq<char>) {
    match split_once(r, ':') {
        Some(p) => p,
        None => ("unknown"@, r),
    }
}

/// Splits a `"type:name"` reference into `(type, name)`.
pub fn split_ref(ref_str: &str) -> (r: (String, String))
    ensures
        (r.0@, r.1@) == ref_parts(ref_str@),
{
    let c = chars_of(ref_str);
    match split_once_exec(c.as_slice(), ':') {
        Some((t, n)) => (text_of(t.as_slice()), text_of(n.as_slice())),
        None => (String::from_str("unknown"), String::from_str(ref_str)),
    }
}

/// The statement inserting one entity.
pub open spec fn entity_insert(e: EntityExport) -> Seq<char> {
    "INSERT INTO entities (entity_type, name, label, sort_order) VALUES ('"@ + sql_escaped(
        e.entity_type@,
    ) + "', '"@ + sql_escaped(e.name@) + "', '"@ + sql_escaped(e.label@) + "', "@ + decimal(
        e.sort_order as int,
    ) + ") ON CONFLICT DO NOTHING;\n"@
}

/// The statement inserting one property of an entity.
pub open spec fn property_insert(e: EntityExport, key: Seq<char>, value: Seq<char>) -> Seq<char> {
    "INSERT INTO entity_properties (entity_id, key, value) VALUES ((SELECT id FROM entities WHERE entity_type='"@
        + sql_escaped(e.entity_type@) + "' AND name='"@ + sql_escaped(e.name@) + "'), '"@
        + sql_escaped(key) + "', '"@ + sql_escaped(value) + "') ON CONFLICT DO NOTHING;\n"@
}

/// The subquery selecting the entity `t`/`n`.
pub open spec fn entity_select(t: Seq<char>, n: Seq<char>) -> Seq<char> {
    "(SELECT id FROM entities WHERE entity_type='"@ + sql_escaped(t) + "' AND name='"@
        + sql_escaped(n) + "')"@
}

/// The subquery selecting the relation type named `rt`.
pub open spec fn relation_type_select(rt: Seq<char>) -> Seq<char> {
    "(SELECT id FROM entities WHERE entity_type='relation_type' AND name='"@ + sql_escaped(rt)
        + "')"@
}

/// The statement inserting one relation.
pub open spec fn relation_insert(r: RelationExport) -> Seq<char> {
    let (st, sn) = ref_parts(r.source@);
    let (tt, tn) = ref_parts(r.target@);
    "INSERT INTO relations (relation_type_id, source_id, target_id) VALUES ("@
        + relation_type_select(r.relation_type@) + ", "@ + entity_select(st, sn) + ", "@
        + entity_select(tt, tn) + ") ON CONFLICT DO NOTHING;\n"@
}

/// The statement inserting one property of a relation.
pub open spec fn relation_property_insert(r: RelationExport, key: Seq<char>, value: Seq<char>) -> Seq<
    char,
> {
    let (st, sn) = ref_parts(r.source@);
    let (tt, tn) = ref_parts(r.target@);
    "INSERT INTO relation_properties (relation_id, key, value) VALUES ((SELECT id FROM relations WHERE relation_type_id="@
        + relation_type_select(r.relation_type@) + " AND source_id="@ + entity_select(st, sn)
        + " AND target_id="@ + entity_select(tt, tn) + "), '"@ + sql_escaped(key) + "', '"@
        + sql_escaped(value) + "') ON CONFLICT DO NOTHING;\n"@
}

/// The entity statements, in order.
pub open spec fn entity_inserts(es: Seq<EntityExport>) -> Seq<char>
    decreases es.len(),
{
    if es.len() == 0 {
        Seq::empty()
    } else {
        entity_inserts(es.drop_last()) + entity_insert(es.last())
    }
}

/// The statements for the first `k` properties of `e`.
pub open spec fn properties_of(e: EntityExport, ps: Seq<(String, String)>) -> Seq<char>
    decreases ps.len(),
{
    if ps.len() == 0 {
        Seq::empty()
    } else {
        properties_of(e, ps.drop_last()) + property_insert(e, ps.last().0@, ps.last().1@)
    }
}

/// The property statements of all entities, in order.
pub open spec fn property_inserts(es: Seq<EntityExport>) -> Seq<char>
    decreases es.len(),
{
    if es.len() == 0 {
        Seq::empty()
    } else {
        property_inserts(es.drop_last()) + properties_of(es.last(), es.last().properties@)
    }
}

/// The relation statements, in order.
pub open spec fn relation_inserts(rs: Seq<RelationExport>) -> Seq<char>
    decreases rs.len(),
{
    if rs.len() == 0 {
        Seq::empty()
    } else {
        relation_inserts(rs.drop_last()) + relation_insert(rs.last())
    }
}

/// The statements for the properties `ps` of relation `r`.
pub open spec fn relation_properties_of(r: RelationExport, ps: Seq<(String, String)>) -> Seq<char>
    decreases ps.len(),
{
    if ps.len() == 0 {
        Seq::empty()
    } else {
        relation_properties_of(r, ps.drop_last()) + relation_property_insert(
            r,
            ps.last().0@,
            ps.last().1@,
        )
    }
}

/// The relation property statements of all relations, in order.
pub open spec fn relation_property_inserts(rs: Seq<RelationExport>) -> Seq<char>
    decreases rs.len(),
{
    if rs.len() == 0 {
        Seq::empty()
    } else {
        relation_property_inserts(rs.drop_last()) + relation_properties_of(
            rs.last(),
            rs.last().properties@,
        )
    }
}

/// Some relation carries properties.
pub open spec fn has_relation_properties(rs: Seq<RelationExport>) -> bool {
    exists|i: int| 0 <= i < rs.len() && rs[i].properties@.len() > 0
}

/// The full SQL script for an export payload.
pub open spec fn sql_script(p: ExportPayload) -> Seq<char> {
    "-- Data Manager export\n"@ + "-- Generated by ahlt\n\n"@ + "-- Entities\n"@ + entity_inserts(
        p.entities@,
    ) + "\n-- Entity properties\n"@ + property_inserts(p.entities@) + "\n-- Relations\n"@
        + relation_inserts(p.relations@) + (if has_relation_properties(p.relations@) {
        "\n-- Relation properties\n"@ + relation_property_inserts(p.relations@)
    } else {
        Seq::empty()
    })
}

fn push_escaped(out: &mut Vec<char>, s: &str)
    ensures
        final(out)@ == old(out)@ + sql_escaped(s@),
{
    let e = escape_chars(chars_of(s).as_slice());
    push_chars(out, e.as_slice());
}

fn push_escaped_chars(out: &mut Vec<char>, s: &[char])
    ensures
        final(out)@ == old(out)@ + sql_escaped(s@),
{
    let e = escape_chars(s);
    push_chars(out, e.as_slice());
}

fn write_entity_insert(out: &mut Vec<char>, e: &EntityExport)
    ensures
        final(out)@ == old(out)@ + entity_insert(*e),
{
    let ghost start = out@;
    push_str(out, "INSERT INTO entities (entity_type, name, label, sort_order) VALUES ('");
    push_escaped(out, e.entity_type.as_str());
    push_str(out, "', '");
    push_escaped(out, e.name.as_str());
    push_str(out, "', '");
    push_escaped(out, e.label.as_str());
    push_str(out, "', ");
    let d = decimal_chars(e.sort_order);
    push_chars(out, d.as_slice());
    push_str(out, ") ON CONFLICT DO NOTHING;\n");
    assert(out@ =~= start + entity_insert(*e));
}

fn write_property_insert(out: &mut Vec<char>, e: &EntityExport, key: &str, value: &str)
    ensures
        final(out)@ == old(out)@ + property_insert(*e, key@, value@),
{
    let ghost start = out@;
    push_str(
        out,
        "INSERT INTO entity_properties (entity_id, key, value) VALUES ((SELECT id FROM entities WHERE entity_type='",
    );
    push_escaped(out, e.entity_type.as_str());
    push_str(out, "' AND name='");
    push_escaped(out, e.name.as_str());
    push_str(out, "'), '");
    push_escaped(out, key);
    push_str(out, "', '");
    push_escaped(out, value);
    push_str(out, "') ON CONFLICT DO NOTHING;\n");
    assert(out@ =~= start + property_insert(*e, key@, value@));
}

fn write_entity_select(out: &mut Vec<char>, t: &[char], n: &[char])
    ensures
        final(out)@ == old(out)@ + entity_select(t@, n@),
{
    let ghost start = out@;
    push_str(out, "(SELECT id FROM entities WHERE entity_type='");
    push_escaped_chars(out, t);
    push_str(out, "' AND name='");
    push_escaped_chars(out, n);
    push_str(out, "')");
    assert(out@ =~= start + entity_select(t@, n@));
}

fn write_relation_type_select(out: &mut Vec<char>, rt: &str)
    ensures
        final(out)@ == old(out)@ + relation_type_select(rt@),
{
    let ghost start = out@;
    push_str(out, "(SELECT id FROM entities WHERE entity_type='relation_type' AND name='");
    push_escaped(out, rt);
    push_str(out, "')");
    assert(out@ =~= start + relation_type_select(rt@));
}

fn ref_parts_exec(s: &str) -> (r: (Vec<char>, Vec<char>))
    ensures
        (r.0@, r.1@) == ref_parts(s@),
{
    let c = chars_of(s);
    match split_once_exec(c.as_slice(), ':') {
        Some(p) => p,
        None => (chars_of("unknown"), c),
    }
}

fn write_relation_insert(out: &mut Vec<char>, r: &RelationExport)
    ensures
        final(out)@ == old(out)@ + relation_insert(*r),
{
    let ghost start = out@;
    let (st, sn) = ref_parts_exec(r.source.as_str());
    let (tt, tn) = ref_parts_exec(r.target.as_str());
    push_str(out, "INSERT INTO relations (relation_type_id, source_id, target_id) VALUES (");
    write_relation_type_select(out, r.relation_type.as_str());
    push_str(out, ", ");
    write_entity_select(out, st.as_slice(), sn.as_slice());
    push_str(out, ", ");
    write_entity_select(out, tt.as_slice(), tn.as_slice());
    push_str(out, ") ON CONFLICT DO NOTHING;\n");
    assert(out@ =~= start + relation_insert(*r));
}

fn write_relation_property_insert(out: &mut Vec<char>, r: &RelationExport, key: &str, value: &str)
    ensures
        final(out)@ == old(out)@ + relation_property_insert(*r, key@, value@),
{
    let ghost start = out@;
    let (st, sn) = ref_parts_exec(r.source.as_str());
    let (tt, tn) = ref_parts_exec(r.target.as_str());
    push_str(
        out,
        "INSERT INTO relation_properties (relation_id, key, value) VALUES ((SELECT id FROM relations WHERE relation_type_id=",
    );
    write_relation_type_select(out, r.relation_type.as_str());
    push_str(out, " AND source_id=");
    write_entity_select(out, st.as_slice(), sn.as_slice());
    push_str(out, " AND target_id=");
    write_entity_select(out, tt.as_slice(), tn.as_slice());
    push_str(out, "), '");
    push_escaped(out, key);
    push_str(out, "', '");
    push_escaped(out, value);
    push_str(out, "') ON CONFLICT DO NOTHING;\n");
    assert(out@ =~= start + relation_property_insert(*r, key@, value@));
}

/// Writes the SQL script of an export payload.
pub fn export_sql_text(payload: &ExportPayload) -> (r: String)
    ensures
        r@ == sql_script(*payload),
{
    let mut out: Vec<char> = Vec::new();
    push_str(&mut out, "-- Data Manager export\n");
    push_str(&mut out, "-- Generated by ahlt\n\n");
    push_str(&mut out, "-- Entities\n");
    let ghost head = out@;
    let es = &payload.entities;
    let n = es.len();
    for i in 0..n
        invariant
            n == es@.len(),
            out@ == head + entity_inserts(es@.subrange(0, i as int)),
    {
        assert(es@.subrange(0, i + 1).drop_last() =~= es@.subrange(0, i as int));
        write_entity_insert(&mut out, &es[i]);
        assert(out@ =~= head + entity_inserts(es@.subrange(0, i + 1)));
    }
    assert(es@.subrange(0, n as int) =~= es@);
    push_str(&mut out, "\n-- Entity properties\n");
    let ghost head2 = out@;
    for i in 0..n
        invariant
            n == es@.len(),
            out@ == head2 + property_inserts(es@.subrange(0, i as int)),
    {
        assert(es@.subrange(0, i + 1).drop_last() =~= es@.subrange(0, i as int));
        let e = &es[i];
        let ps = &e.properties;
        let m = ps.len();
        let ghost mid = out@;
        for j in 0..m
            invariant
                m == ps@.len(),
                out@ == mid + properties_of(*e, ps@.subrange(0, j as int)),
        {
            assert(ps@.subrange(0, j + 1).drop_last() =~= ps@.subrange(0, j as int));
            write_property_insert(&mut out, e, ps[j].0.as_str(), ps[j].1.as_str());
            assert(out@ =~= mid + properties_of(*e, ps@.subrange(0, j + 1)));
        }
        assert(ps@.subrange(0, m as int) =~= ps@);
        assert(out@ =~= head2 + property_inserts(es@.subrange(0, i + 1)));
    }
    push_str(&mut out, "\n-- Relations\n");
    let ghost head3 = out@;
    let rs = &payload.relations;
    let k = rs.len();
    let mut any_props = false;
    for i in 0..k
        invariant
            k == rs@.len(),
            out@ == head3 + relation_inserts(rs@.subrange(0, i as int)),
            any_props == exists|j: int| 0 <= j < i && rs@[j].properties@.len() > 0,
    {
        assert(rs@.subrange(0, i + 1).drop_last() =~= rs@.subrange(0, i as int));
        write_relation_insert(&mut out, &rs[i]);
        assert(out@ =~= head3 + relation_inserts(rs@.subrange(0, i + 1)));
        if rs[i].properties.len() > 0 {
            any_props = true;
        }
    }
    assert(rs@.subrange(0, k as int) =~= rs@);
    assert(any_props == has_relation_properties(rs@));
    if any_props {
        push_str(&mut out, "\n-- Relation properties\n");
        let ghost head4 = out@;
        for i in 0..k
            invariant
                k == rs@.len(),
                out@ == head4 + relation_property_inserts(rs@.subrange(0, i as int)),
        {
            assert(rs@.subrange(0, i + 1).drop_last() =~= rs@.subrange(0, i as int));
            let r = &rs[i];
            let ps = &r.properties;
            let m = ps.len();
            let ghost mid = out@;
            for j in 0..m
                invariant
                    m == ps@.len(),
                    out@ == mid + relation_properties_of(*r, ps@.subrange(0, j as int)),
            {
                assert(ps@.subrange(0, j + 1).drop_last() =~= ps@.subrange(0, j as int));
                write_relation_property_insert(&mut out, r, ps[j].0.as_str(), ps[j].1.as_str());
                assert(out@ =~= mid + relation_properties_of(*r, ps@.subrange(0, j + 1)));
            }
            assert(ps@.subrange(0, m as int) =~= ps@);
            assert(out@ =~= head4 + relation_property_inserts(rs@.subrange(0, i + 1)));
        }
    }
    assert(out@ =~= sql_script(*payload));
    text_of(out.as_slice())
}

// ---------------------------------------------------------------------
// What the relation statements say
// ---------------------------------------------------------------------

/// A text as an SQL string literal: quoted, its quotes doubled.
pub open spec fn sql_literal(s: Seq<char>) -> Seq<char> {
    "'"@ + sql_escaped(s) + "'"@
}

/// The subquery giving the id of the row of `entities` with type `t` and
/// name `n`.
pub open spec fn row_id_query(t: Seq<char>, n: Seq<char>) -> Seq<char> {
    "(SELECT id FROM entities WHERE entity_type="@ + sql_literal(t) + " AND name="@ + sql_literal(n)
        + ")"@
}

proof fn lemma_relation_inserts_concat(a: Seq<RelationExport>, b: Seq<RelationExport>)
    ensures
        relation_inserts(a + b) == relation_inserts(a) + relation_inserts(b),
    decreases b.len(),
{
    if b.len() == 0 {
        assert(a + b =~= a);
        assert(relation_inserts(a) + Seq::<char>::empty() =~= relation_inserts(a));
    } else {
        lemma_relation_inserts_concat(a, b.drop_last());
        assert((a + b).drop_last() =~= a + b.drop_last());
        assert((a + b).last() == b.last());
        assert(relation_inserts(a) + relation_inserts(b.drop_last()) + relation_insert(b.last())
            =~= relation_inserts(a) + (relation_inserts(b.drop_last()) + relation_insert(b.last())));
    }
}

/// A reference to an entity whose type holds no `:` splits back into the
/// entity's type and name.
proof fn lemma_reference_parts(t: Seq<char>, n: Seq<char>)
    requires
        !t.contains(':'),
    ensures
        ref_parts(t + ":"@ + n) == (t, n),
{
    reveal_strlit(":");
    let r = t + ":"@ + n;
    assert(r[t.len() as int] == ':');
    assert forall|j: int| 0 <= j < t.len() implies r[j] != ':' by {
        assert(r[j] == t[j]);
    }
    crate::text::lemma_first_index_of_unique(r, ':', t.len() as int);
    assert(r.subrange(0, t.len() as int) =~= t);
    assert(r.subrange((t.len() + 1) as int, r.len() as int) =~= n);
}

/// Every relation of an export has its own statement in the SQL script,
/// which fills the columns `relation_type_id`, `source_id` and `target_id`
/// in that order with the ids of the relation type, of the entity its
/// source names, and of the entity its target names. When the source (or
/// target) is the reference `type:name` of an exported entity whose type
/// holds no `:`, the id is that of the row the entity's own statement
/// inserts. Returns the script's text before the statement, the statement
/// and the text after it.
pub proof fn lemma_script_relation_statement(p: ExportPayload, k: int) -> (parts: (
    Seq<char>,
    Seq<char>,
    Seq<char>,
))
    requires
        0 <= k < p.relations@.len(),
    ensures
        sql_script(p) == parts.0 + parts.1 + parts.2,
        parts.1 == "INSERT INTO relations (relation_type_id, source_id, target_id) VALUES ("@
            + row_id_query("relation_type"@, p.relations@[k].relation_type@) + ", "@ + row_id_query(
            ref_parts(p.relations@[k].source@).0,
            ref_parts(p.relations@[k].source@).1,
        ) + ", "@ + row_id_query(
            ref_parts(p.relations@[k].target@).0,
            ref_parts(p.relations@[k].target@).1,
        ) + ") ON CONFLICT DO NOTHING;\n"@,
        forall|i: int|
            0 <= i < p.entities@.len() && !(#[trigger] p.entities@[i]).entity_type@.contains(':')
                ==> {
                let e = p.entities@[i];
                &&& e.entity_type@ + ":"@ + e.name@ == p.relations@[k].source@ ==> ref_parts(
                    p.relations@[k].source@,
                ) == (e.entity_type@, e.name@)
                &&& e.entity_type@ + ":"@ + e.name@ == p.relations@[k].target@ ==> ref_parts(
                    p.relations@[k].target@,
                ) == (e.entity_type@, e.name@)
            },
{
    let rs = p.relations@;
    let r = rs[k];
    lemma_relation_inserts_split(rs, k);
    lemma_relation_statement(r);
    let head = "-- Data Manager export\n"@ + "-- Generated by ahlt\n\n"@ + "-- Entities\n"@
        + entity_inserts(p.entities@) + "\n-- Entity properties\n"@ + property_inserts(p.entities@)
        + "\n-- Relations\n"@;
    let tail = if has_relation_properties(rs) {
        "\n-- Relation properties\n"@ + relation_property_inserts(rs)
    } else {
        Seq::<char>::empty()
    };
    let a = relation_inserts(rs.take(k));
    let i = relation_insert(r);
    let b = relation_inserts(rs.skip(k + 1));
    assert(sql_script(p) == head + relation_inserts(rs) + tail);
    vstd::seq_lib::lemma_concat_associative(head, a + i, b);
    vstd::seq_lib::lemma_concat_associative(head, a, i);
    vstd::seq_lib::lemma_concat_associative(head + a + i, b, tail);
    lemma_entity_references(p, k);
    (head + a, i, b + tail)
}

/// The statements of relations are those of the relations before `k`,
/// then that of relation `k`, then those after it.
proof fn lemma_relation_inserts_split(rs: Seq<RelationExport>, k: int)
    requires
        0 <= k < rs.len(),
    ensures
        relation_inserts(rs) == relation_inserts(rs.take(k)) + relation_insert(rs[k])
            + relation_inserts(rs.skip(k + 1)),
{
    let r = rs[k];
    let a = rs.take(k);
    let b = rs.skip(k + 1);
    assert(rs =~= a + seq![r] + b);
    lemma_relation_inserts_concat(a + seq![r], b);
    lemma_relation_inserts_concat(a, seq![r]);
    assert(seq![r].drop_last() =~= Seq::<RelationExport>::empty());
    assert(seq![r].last() == r);
    assert(relation_inserts(Seq::<RelationExport>::empty()) =~= Seq::<char>::empty());
    assert(Seq::<char>::empty() + relation_insert(r) =~= relation_insert(r));
    assert(relation_inserts(seq![r]) =~= relation_insert(r));
}

/// The statement of a relation fills its three columns with the ids of
/// its type, its source and its target.
proof fn lemma_relation_statement(r: RelationExport)
    ensures
        relation_insert(r) == "INSERT INTO relations (relation_type_id, source_id, target_id) VALUES ("@
            + row_id_query("relation_type"@, r.relation_type@) + ", "@ + row_id_query(
            ref_parts(r.source@).0,
            ref_parts(r.source@).1,
        ) + ", "@ + row_id_query(ref_parts(r.target@).0, ref_parts(r.target@).1)
            + ") ON CONFLICT DO NOTHING;\n"@,
{
    lemma_type_query(r.relation_type@);
    lemma_entity_query(ref_parts(r.source@).0, ref_parts(r.source@).1);
    lemma_entity_query(ref_parts(r.target@).0, ref_parts(r.target@).1);
}

proof fn lemma_entity_references(p: ExportPayload, k: int)
    requires
        0 <= k < p.relations@.len(),
    ensures
        forall|i: int|
            0 <= i < p.entities@.len() && !(#[trigger] p.entities@[i]).entity_type@.contains(':')
                ==> {
                let e = p.entities@[i];
                &&& e.entity_type@ + ":"@ + e.name@ == p.relations@[k].source@ ==> ref_parts(
                    p.relations@[k].source@,
                ) == (e.entity_type@, e.name@)
                &&& e.entity_type@ + ":"@ + e.name@ == p.relations@[k].target@ ==> ref_parts(
                    p.relations@[k].target@,
                ) == (e.entity_type@, e.name@)
            },
{
    assert forall|i: int|
        0 <= i < p.entities@.len() && !(#[trigger] p.entities@[i]).entity_type@.contains(':') implies {
        let e = p.entities@[i];
        &&& e.entity_type@ + ":"@ + e.name@ == p.relations@[k].source@ ==> ref_parts(
            p.relations@[k].source@,
        ) == (e.entity_type@, e.name@)
        &&& e.entity_type@ + ":"@ + e.name@ == p.relations@[k].target@ ==> ref_parts(
            p.relations@[k].target@,
        ) == (e.entity_type@, e.name@)
    } by {
        lemma_reference_parts(p.entities@[i].entity_type@, p.entities@[i].name@);
    }
}

/// The subquery of an entity is the id query of its row.
proof fn lemma_entity_query(t: Seq<char>, n: Seq<char>)
    ensures
        entity_select(t, n) == row_id_query(t, n),
{
    reveal_strlit("'");
    reveal_strlit("(SELECT id FROM entities WHERE entity_type='");
    reveal_strlit("(SELECT id FROM entities WHERE entity_type=");
    reveal_strlit("' AND name='");
    reveal_strlit(" AND name=");
    reveal_strlit("')");
    reveal_strlit(")");
    assert(entity_select(t, n) =~= row_id_query(t, n));
}

/// The subquery of a relation type is the id query of its row.
proof fn lemma_type_query(rt: Seq<char>)
    ensures
        relation_type_select(rt) == row_id_query("relation_type"@, rt),
{
    reveal_strlit("'");
    reveal_strlit("relation_type");
    reveal_strlit("(SELECT id FROM entities WHERE entity_type='relation_type' AND name='");
    reveal_strlit("(SELECT id FROM entities WHERE entity_type=");
    reveal_strlit(" AND name=");
    reveal_strlit("')");
    reveal_strlit(")");
    lemma_escape_plain("relation_type"@);
    assert(relation_type_select(rt) =~= row_id_query("relation_type"@, rt));
}

/// A text without quotes is written unchanged.
proof fn lemma_escape_plain(s: Seq<char>)
    requires
        forall|i: int| 0 <= i < s.len() ==> s[i] != '\'',
    ensures
        sql_escaped(s) == s,
    decreases s.len(),
{
    if s.len() > 0 {
        lemma_escape_plain(s.drop_last());
        assert(s.drop_last().push(s.last()) =~= s);
        assert(sql_escaped(s.drop_last()) + seq![s.last()] =~= s);
    }
}

proof fn lemma_entity_inserts_concat(a: Seq<EntityExport>, b: Seq<EntityExport>)
    ensures
        entity_inserts(a + b) == entity_inserts(a) + entity_inserts(b),
    decreases b.len(),
{
    if b.len() == 0 {
        assert(a + b =~= a);
        assert(entity_inserts(a) + Seq::<char>::empty() =~= entity_inserts(a));
    } else {
        lemma_entity_inserts_concat(a, b.drop_last());
        assert((a + b).drop_last() =~= a + b.drop_last());
        assert((a + b).last() == b.last());
        vstd::seq_lib::lemma_concat_associative(
            entity_inserts(a),
            entity_inserts(b.drop_last()),
            entity_insert(b.last()),
        );
    }
}

proof fn lemma_property_inserts_concat(a: Seq<EntityExport>, b: Seq<EntityExport>)
    ensures
        property_inserts(a + b) == property_inserts(a) + property_inserts(b),
    decreases b.len(),
{
    if b.len() == 0 {
        assert(a + b =~= a);
        assert(property_inserts(a) + Seq::<char>::empty() =~= property_inserts(a));
    } else {
        lemma_property_inserts_concat(a, b.drop_last());
        assert((a + b).drop_last() =~= a + b.drop_last());
        assert((a + b).last() == b.last());
        vstd::seq_lib::lemma_concat_associative(
            property_inserts(a),
            property_inserts(b.drop_last()),
            properties_of(b.last(), b.last().properties@),
        );
    }
}

proof fn lemma_properties_of_concat(e: EntityExport, a: Seq<(String, String)>, b: Seq<(String, String)>)
    ensures
        properties_of(e, a + b) == properties_of(e, a) + properties_of(e, b),
    decreases b.len(),
{
    if b.len() == 0 {
        assert(a + b =~= a);
        assert(properties_of(e, a) + Seq::<char>::empty() =~= properties_of(e, a));
    } else {
        lemma_properties_of_concat(e, a, b.drop_last());
        assert((a + b).drop_last() =~= a + b.drop_last());
        assert((a + b).last() == b.last());
        vstd::seq_lib::lemma_concat_associative(
            properties_of(e, a),
            properties_of(e, b.drop_last()),
            property_insert(e, b.last().0@, b.last().1@),
        );
    }
}

/// The statement of an entity fills its four columns with its own type,
/// name, label and sort order, in that order.
proof fn lemma_entity_statement(e: EntityExport)
    ensures
        entity_insert(e) == "INSERT INTO entities (entity_type, name, label, sort_order) VALUES ("@
            + sql_literal(e.entity_type@) + ", "@ + sql_literal(e.name@) + ", "@ + sql_literal(
            e.label@,
        ) + ", "@ + decimal(e.sort_order as int) + ") ON CONFLICT DO NOTHING;\n"@,
{
    reveal_strlit("'");
    reveal_strlit("INSERT INTO entities (entity_type, name, label, sort_order) VALUES ('");
    reveal_strlit("INSERT INTO entities (entity_type, name, label, sort_order) VALUES (");
    reveal_strlit("', '");
    reveal_strlit(", ");
    reveal_strlit("', ");
    assert(entity_insert(e) =~= "INSERT INTO entities (entity_type, name, label, sort_order) VALUES ("@
        + sql_literal(e.entity_type@) + ", "@ + sql_literal(e.name@) + ", "@ + sql_literal(e.label@)
        + ", "@ + decimal(e.sort_order as int) + ") ON CONFLICT DO NOTHING;\n"@);
}

/// The statement of a property attaches the key and value to the row of
/// its own entity.
proof fn lemma_property_statement(e: EntityExport, key: Seq<char>, value: Seq<char>)
    ensures
        property_insert(e, key, value) == "INSERT INTO entity_properties (entity_id, key, value) VALUES ("@
            + row_id_query(e.entity_type@, e.name@) + ", "@ + sql_literal(key) + ", "@ + sql_literal(
            value,
        ) + ") ON CONFLICT DO NOTHING;\n"@,
{
    reveal_strlit("'");
    reveal_strlit("INSERT INTO entity_properties (entity_id, key, value) VALUES ((SELECT id FROM entities WHERE entity_type='");
    reveal_strlit("INSERT INTO entity_properties (entity_id, key, value) VALUES (");
    reveal_strlit("(SELECT id FROM entities WHERE entity_type=");
    reveal_strlit("' AND name='");
    reveal_strlit(" AND name=");
    reveal_strlit("'), '");
    reveal_strlit(")");
    reveal_strlit(", ");
    reveal_strlit("', '");
    reveal_strlit("') ON CONFLICT DO NOTHING;\n");
    reveal_strlit(") ON CONFLICT DO NOTHING;\n");
    assert(property_insert(e, key, value) =~= "INSERT INTO entity_properties (entity_id, key, value) VALUES ("@
        + row_id_query(e.entity_type@, e.name@) + ", "@ + sql_literal(key) + ", "@ + sql_literal(value)
        + ") ON CONFLICT DO NOTHING;\n"@);
}

/// Every exported entity has its own statement in the SQL script, which
/// fills the columns `entity_type`, `name`, `label` and `sort_order` with
/// the entity's own type, name, label and sort order. Returns the text
/// before the statement, the statement and the text after it.
pub proof fn lemma_script_entity_statement(p: ExportPayload, k: int) -> (parts: (
    Seq<char>,
    Seq<char>,
    Seq<char>,
))
    requires
        0 <= k < p.entities@.len(),
    ensures
        sql_script(p) == parts.0 + parts.1 + parts.2,
        parts.1 == "INSERT INTO entities (entity_type, name, label, sort_order) VALUES ("@
            + sql_literal(p.entities@[k].entity_type@) + ", "@ + sql_literal(p.entities@[k].name@)
            + ", "@ + sql_literal(p.entities@[k].label@) + ", "@ + decimal(
            p.entities@[k].sort_order as int,
        ) + ") ON CONFLICT DO NOTHING;\n"@,
{
    let es = p.entities@;
    let e = es[k];
    let a = es.take(k);
    let b = es.skip(k + 1);
    assert(es =~= a + seq![e] + b);
    lemma_entity_inserts_concat(a + seq![e], b);
    lemma_entity_inserts_concat(a, seq![e]);
    assert(seq![e].drop_last() =~= Seq::<EntityExport>::empty());
    assert(seq![e].last() == e);
    assert(entity_inserts(Seq::<EntityExport>::empty()) =~= Seq::<char>::empty());
    assert(Seq::<char>::empty() + entity_insert(e) =~= entity_insert(e));
    lemma_entity_statement(e);
    let head = "-- Data Manager export\n"@ + "-- Generated by ahlt\n\n"@ + "-- Entities\n"@;
    let rest = "\n-- Entity properties\n"@ + property_inserts(es) + "\n-- Relations\n"@
        + relation_inserts(p.relations@) + (if has_relation_properties(p.relations@) {
        "\n-- Relation properties\n"@ + relation_property_inserts(p.relations@)
    } else {
        Seq::<char>::empty()
    });
    let ea = entity_inserts(a);
    let i = entity_insert(e);
    let eb = entity_inserts(b);
    assert(sql_script(p) =~= head + entity_inserts(es) + rest);
    vstd::seq_lib::lemma_concat_associative(head, ea + i, eb);
    vstd::seq_lib::lemma_concat_associative(head, ea, i);
    vstd::seq_lib::lemma_concat_associative(head + ea + i, eb, rest);
    (head + ea, i, eb + rest)
}

proof fn lemma_property_inserts_split(es: Seq<EntityExport>, k: int, j: int)
    requires
        0 <= k < es.len(),
        0 <= j < es[k].properties@.len(),
    ensures
        property_inserts(es) == property_inserts(es.take(k)) + properties_of(
            es[k],
            es[k].properties@.take(j),
        ) + property_insert(es[k], es[k].properties@[j].0@, es[k].properties@[j].1@)
            + properties_of(es[k], es[k].properties@.skip(j + 1)) + property_inserts(es.skip(k + 1)),
{
    let e = es[k];
    let ps = e.properties@;
    let pr = ps[j];
    let a = es.take(k);
    let b = es.skip(k + 1);
    assert(es =~= a + seq![e] + b);
    lemma_property_inserts_concat(a + seq![e], b);
    lemma_property_inserts_concat(a, seq![e]);
    assert(seq![e].drop_last() =~= Seq::<EntityExport>::empty());
    assert(seq![e].last() == e);
    assert(property_inserts(Seq::<EntityExport>::empty()) =~= Seq::<char>::empty());
    assert(Seq::<char>::empty() + properties_of(e, ps) =~= properties_of(e, ps));
    let pa = ps.take(j);
    let pb = ps.skip(j + 1);
    assert(ps =~= pa + seq![pr] + pb);
    lemma_properties_of_concat(e, pa + seq![pr], pb);
    lemma_properties_of_concat(e, pa, seq![pr]);
    assert(seq![pr].drop_last() =~= Seq::<(String, String)>::empty());
    assert(seq![pr].last() == pr);
    assert(properties_of(e, Seq::<(String, String)>::empty()) =~= Seq::<char>::empty());
    let i = property_insert(e, pr.0@, pr.1@);
    assert(Seq::<char>::empty() + i =~= i);
    let pia = property_inserts(a);
    let pib = property_inserts(b);
    let poa = properties_of(e, pa);
    let pob = properties_of(e, pb);
    assert(properties_of(e, ps) == poa + i + pob);
    assert(property_inserts(es) == pia + (poa + i + pob) + pib);
    assert(pia + (poa + i + pob) + pib =~= pia + poa + i + pob + pib);
}

/// Every property of every exported entity has its own statement in the
/// SQL script, which attaches the property's key and value to the row of
/// that entity. Returns the text before the statement, the statement and
/// the text after it.
pub proof fn lemma_script_property_statement(p: ExportPayload, k: int, j: int) -> (parts: (
    Seq<char>,
    Seq<char>,
    Seq<char>,
))
    requires
        0 <= k < p.entities@.len(),
        0 <= j < p.entities@[k].properties@.len(),
    ensures
        sql_script(p) == parts.0 + parts.1 + parts.2,
        parts.1 == "INSERT INTO entity_properties (entity_id, key, value) VALUES ("@ + row_id_query(
            p.entities@[k].entity_type@,
            p.entities@[k].name@,
        ) + ", "@ + sql_literal(p.entities@[k].properties@[j].0@) + ", "@ + sql_literal(
            p.entities@[k].properties@[j].1@,
        ) + ") ON CONFLICT DO NOTHING;\n"@,
{
    let es = p.entities@;
    let e = es[k];
    let ps = e.properties@;
    let pr = ps[j];
    let i = property_insert(e, pr.0@, pr.1@);
    let xa = property_inserts(es.take(k)) + properties_of(e, ps.take(j));
    let xb = properties_of(e, ps.skip(j + 1)) + property_inserts(es.skip(k + 1));
    lemma_property_inserts_split(es, k, j);
    lemma_property_statement(e, pr.0@, pr.1@);
    let head = "-- Data Manager export\n"@ + "-- Generated by ahlt\n\n"@ + "-- Entities\n"@
        + entity_inserts(es) + "\n-- Entity properties\n"@;
    let rest = "\n-- Relations\n"@ + relation_inserts(p.relations@) + (if has_relation_properties(
        p.relations@,
    ) {
        "\n-- Relation properties\n"@ + relation_property_inserts(p.relations@)
    } else {
        Seq::<char>::empty()
    });
    assert(sql_script(p) =~= head + property_inserts(es) + rest);
    vstd::seq_lib::lemma_concat_associative(head, xa + i, xb);
    vstd::seq_lib::lemma_concat_associative(head, xa, i);
    vstd::seq_lib::lemma_concat_associative(head + xa + i, xb, rest);
    (head + xa, i, xb + rest)
}

proof fn lemma_relation_property_inserts_concat(a: Seq<RelationExport>, b: Seq<RelationExport>)
    ensures
        relation_property_inserts(a + b) == relation_property_inserts(a) + relation_property_inserts(b),
    decreases b.len(),
{
    if b.len() == 0 {
        assert(a + b =~= a);
        assert(relation_property_inserts(a) + Seq::<char>::empty() =~= relation_property_inserts(a));
    } else {
        lemma_relation_property_inserts_concat(a, b.drop_last());
        assert((a + b).drop_last() =~= a + b.drop_last());
        assert((a + b).last() == b.last());
        vstd::seq_lib::lemma_concat_associative(
            relation_property_inserts(a),
            relation_property_inserts(b.drop_last()),
            relation_properties_of(b.last(), b.last().properties@),
        );
    }
}

proof fn lemma_relation_properties_of_concat(
    r: RelationExport,
    a: Seq<(String, String)>,
    b: Seq<(String, String)>,
)
    ensures
        relation_properties_of(r, a + b) == relation_properties_of(r, a) + relation_properties_of(r, b),
    decreases b.len(),
{
    if b.len() == 0 {
        assert(a + b =~= a);
        assert(relation_properties_of(r, a) + Seq::<char>::empty() =~= relation_properties_of(r, a));
    } else {
        lemma_relation_properties_of_concat(r, a, b.drop_last());
        assert((a + b).drop_last() =~= a + b.drop_last());
        assert((a + b).last() == b.last());
        vstd::seq_lib::lemma_concat_associative(
            relation_properties_of(r, a),
            relation_properties_of(r, b.drop_last()),
            relation_property_insert(r, b.last().0@, b.last().1@),
        );
    }
}

proof fn lemma_relation_property_inserts_split(rs: Seq<RelationExport>, k: int, j: int)
    requires
        0 <= k < rs.len(),
        0 <= j < rs[k].properties@.len(),
    ensures
        relation_property_inserts(rs) == relation_property_inserts(rs.take(k)) + relation_properties_of(
            rs[k],
            rs[k].properties@.take(j),
        ) + relation_property_insert(rs[k], rs[k].properties@[j].0@, rs[k].properties@[j].1@)
            + relation_properties_of(rs[k], rs[k].properties@.skip(j + 1))
            + relation_property_inserts(rs.skip(k + 1)),
{
    let r = rs[k];
    let ps = r.properties@;
    let pr = ps[j];
    let a = rs.take(k);
    let b = rs.skip(k + 1);
    assert(rs =~= a + seq![r] + b);
    lemma_relation_property_inserts_concat(a + seq![r], b);
    lemma_relation_property_inserts_concat(a, seq![r]);
    assert(seq![r].drop_last() =~= Seq::<RelationExport>::empty());
    assert(seq![r].last() == r);
    assert(relation_property_inserts(Seq::<RelationExport>::empty()) =~= Seq::<char>::empty());
    assert(Seq::<char>::empty() + relation_properties_of(r, ps) =~= relation_properties_of(r, ps));
    let pa = ps.take(j);
    let pb = ps.skip(j + 1);
    assert(ps =~= pa + seq![pr] + pb);
    lemma_relation_properties_of_concat(r, pa + seq![pr], pb);
    lemma_relation_properties_of_concat(r, pa, seq![pr]);
    assert(seq![pr].drop_last() =~= Seq::<(String, String)>::empty());
    assert(seq![pr].last() == pr);
    assert(relation_properties_of(r, Seq::<(String, String)>::empty()) =~= Seq::<char>::empty());
    let i = relation_property_insert(r, pr.0@, pr.1@);
    assert(Seq::<char>::empty() + i =~= i);
    let pia = relation_property_inserts(a);
    let pib = relation_property_inserts(b);
    let poa = relation_properties_of(r, pa);
    let pob = relation_properties_of(r, pb);
    assert(relation_properties_of(r, ps) == poa + i + pob);
    assert(relation_property_inserts(rs) == pia + (poa + i + pob) + pib);
    assert(pia + (poa + i + pob) + pib =~= pia + poa + i + pob + pib);
}

/// The statement of a relation's property attaches the key and value to
/// the relation with that type, source and target.
proof fn lemma_relation_property_statement(r: RelationExport, key: Seq<char>, value: Seq<char>)
    ensures
        relation_property_insert(r, key, value) == "INSERT INTO relation_properties (relation_id, key, value) VALUES ((SELECT id FROM relations WHERE relation_type_id="@
            + row_id_query("relation_type"@, r.relation_type@) + " AND source_id="@ + row_id_query(
            ref_parts(r.source@).0,
            ref_parts(r.source@).1,
        ) + " AND target_id="@ + row_id_query(ref_parts(r.target@).0, ref_parts(r.target@).1)
            + "), "@ + sql_literal(key) + ", "@ + sql_literal(value) + ") ON CONFLICT DO NOTHING;\n"@,
{
    lemma_type_query(r.relation_type@);
    lemma_entity_query(ref_parts(r.source@).0, ref_parts(r.source@).1);
    lemma_entity_query(ref_parts(r.target@).0, ref_parts(r.target@).1);
    reveal_strlit("'");
    reveal_strlit("), '");
    reveal_strlit("), ");
    reveal_strlit("', '");
    reveal_strlit(", ");
    reveal_strlit("') ON CONFLICT DO NOTHING;\n");
    reveal_strlit(") ON CONFLICT DO NOTHING;\n");
    let (st, sn) = ref_parts(r.source@);
    let (tt, tn) = ref_parts(r.target@);
    assert(relation_property_insert(r, key, value) =~= "INSERT INTO relation_properties (relation_id, key, value) VALUES ((SELECT id FROM relations WHERE relation_type_id="@
        + row_id_query("relation_type"@, r.relation_type@) + " AND source_id="@ + row_id_query(st, sn)
        + " AND target_id="@ + row_id_query(tt, tn) + "), "@ + sql_literal(key) + ", "@ + sql_literal(
        value,
    ) + ") ON CONFLICT DO NOTHING;\n"@);
}

/// Every property of every exported relation has its own statement in the
/// SQL script, which attaches the property's key and value to the relation
/// with that relation's type, source and target (each found as the row it
/// names). Returns the text before the statement, the statement and the
/// text after it.
pub proof fn lemma_script_relation_property_statement(p: ExportPayload, k: int, j: int) -> (parts: (
    Seq<char>,
    Seq<char>,
    Seq<char>,
))
    requires
        0 <= k < p.relations@.len(),
        0 <= j < p.relations@[k].properties@.len(),
    ensures
        sql_script(p) == parts.0 + parts.1 + parts.2,
        parts.1 == "INSERT INTO relation_properties (relation_id, key, value) VALUES ((SELECT id FROM relations WHERE relation_type_id="@
            + row_id_query("relation_type"@, p.relations@[k].relation_type@) + " AND source_id="@
            + row_id_query(ref_parts(p.relations@[k].source@).0, ref_parts(p.relations@[k].source@).1)
            + " AND target_id="@ + row_id_query(
            ref_parts(p.relations@[k].target@).0,
            ref_parts(p.relations@[k].target@).1,
        ) + "), "@ + sql_literal(p.relations@[k].properties@[j].0@) + ", "@ + sql_literal(
            p.relations@[k].properties@[j].1@,
        ) + ") ON CONFLICT DO NOTHING;\n"@,
{
    let rs = p.relations@;
    let r = rs[k];
    let ps = r.properties@;
    let pr = ps[j];
    let i = relation_property_insert(r, pr.0@, pr.1@);
    let xa = relation_property_inserts(rs.take(k)) + relation_properties_of(r, ps.take(j));
    let xb = relation_properties_of(r, ps.skip(j + 1)) + relation_property_inserts(rs.skip(k + 1));
    lemma_relation_property_inserts_split(rs, k, j);
    lemma_relation_property_statement(r, pr.0@, pr.1@);
    assert(has_relation_properties(rs)) by {
        assert(rs[k].properties@.len() > 0);
    }
    let head = "-- Data Manager export\n"@ + "-- Generated by ahlt\n\n"@ + "-- Entities\n"@
        + entity_inserts(p.entities@) + "\n-- Entity properties\n"@ + property_inserts(p.entities@)
        + "\n-- Relations\n"@ + relation_inserts(rs) + "\n-- Relation properties\n"@;
    assert(sql_script(p) =~= head + relation_property_inserts(rs));
    assert(relation_property_inserts(rs) =~= xa + i + xb);
    vstd::seq_lib::lemma_concat_associative(head, xa + i, xb);
    vstd::seq_lib::lemma_concat_associative(head, xa, i);
    (head + xa, i, xb)
}

} // verus!
