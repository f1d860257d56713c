//! Key/value property lists: the library's stand-in for the string maps
//! that entities and relations carry.
//!
//! A list is read as a map built by inserting its pairs in order (a later
//! pair overrides an earlier one with the same key); lists built by
//! `props_insert` never hold a key twice.
use vstd::prelude::*;
use crate::text::{chars_eq, chars_of, text_of};

verus! {

/// The map obtained by inserting the pairs of `s` in order.
pub open spec fn props_map(s: Seq<(String, String)>) -> Map<Seq<char>, Seq<char>>
    decreases s.len(),
{
    if s.len() == 0 {
        Map::empty()
    } else {
        props_map(s.drop_last()).insert(s.last().0@, s.last().1@)
    }
}

/// The pairs of `s`, each taken as a pair of character sequences.
pub open spec fn pair_views(s: Seq<(String, String)>) -> Seq<(Seq<char>, Seq<char>)> {
    s.map_values(|p: (String, String)| (p.0@, p.1@))
}

/// No key occurs twice.
pub open spec fn distinct_keys(s: Seq<(String, String)>) -> bool {
    forall|i: int, j: int| 0 <= i < j < s.len() ==> s[i].0@ != s[j].0@
}

/// The keys of `s` are exactly the domain of its map.
pub proof fn lemma_props_domain(s: Seq<(String, String)>)
    ensures
        forall|k: Seq<char>|
            props_map(s).dom().contains(k) <==> exists|i: int| 0 <= i < s.len() && s[i].0@ == k,
    decreases s.len(),
{
    if s.len() > 0 {
        let t = s.drop_last();
        lemma_props_domain(t);
        assert forall|k: Seq<char>|
            props_map(s).dom().contains(k) <==> exists|i: int|
                0 <= i < s.len() && s[i].0@ == k by {
            if props_map(s).dom().contains(k) {
                if k == s.last().0@ {
                    assert(s[s.len() - 1].0@ == k);
                } else {
                    assert(props_map(t).dom().contains(k));
                    let i = choose|i: int| 0 <= i < t.len() && t[i].0@ == k;
                    assert(s[i] == t[i]);
                }
            }
            if exists|i: int| 0 <= i < s.len() && s[i].0@ == k {
                let i = choose|i: int| 0 <= i < s.len() && s[i].0@ == k;
                if i < s.len() - 1 {
                    assert(t[i] == s[i]);
                    assert(exists|j: int| 0 <= j < t.len() && t[j].0@ == k);
                    assert(props_map(t).dom().contains(k));
                }
                assert(props_map(s).dom().contains(k));
            }
        }
    }
}

/// Replacing the value of an existing key updates that key of the map.
pub proof fn lemma_props_replace(s: Seq<(String, String)>, i: int, v: String)
    requires
        distinct_keys(s),
        0 <= i < s.len(),
    ensures
        props_map(s.update(i, (s[i].0, v))) == props_map(s).insert(s[i].0@, v@),
        distinct_keys(s.update(i, (s[i].0, v))),
    decreases s.len(),
{
    let s2 = s.update(i, (s[i].0, v));
    if i == s.len() - 1 {
        assert(s2.drop_last() =~= s.drop_last());
        assert(props_map(s2) =~= props_map(s).insert(s[i].0@, v@));
    } else {
        let t = s.drop_last();
        assert(distinct_keys(t));
        lemma_props_replace(t, i, v);
        assert(s2.drop_last() =~= t.update(i, (t[i].0, v)));
        assert(s[i].0@ != s.last().0@);
        assert(props_map(s2) =~= props_map(s).insert(s[i].0@, v@));
    }
}

/// Inserts `key -> value`, replacing the value when the key is present.
pub fn props_insert(props: &mut Vec<(String, String)>, key: String, value: String)
    requires
        distinct_keys(old(props)@),
    ensures
        distinct_keys(final(props)@),
        props_map(final(props)@) == props_map(old(props)@).insert(key@, value@),
{
    let n = props.len();
    let kc = chars_of(key.as_str());
    for i in 0..n
        invariant
            n == props@.len(),
            props@ == old(props)@,
            distinct_keys(props@),
            kc@ == key@,
            forall|j: int| 0 <= j < i ==> props@[j].0@ != key@,
    {
        let pc = chars_of(props[i].0.as_str());
        if chars_eq(pc.as_slice(), kc.as_slice()) {
            proof {
                lemma_props_replace(props@, i as int, value);
            }
            let k2 = props[i].0.clone();
            props.set(i, (k2, value));
            return;
        }
    }
    let ghost before = props@;
    props.push((key, value));
    assert(props@.drop_last() =~= before);
}

/// Reading back what was written: after setting `key` to `value` (the
/// map of the new list is that of the old one with `key` set), the list
/// holds `value` under `key` and every other key is unchanged.
pub proof fn lemma_read_after_write(
    before: Seq<(String, String)>,
    after: Seq<(String, String)>,
    key: Seq<char>,
    value: Seq<char>,
)
    requires
        props_map(after) == props_map(before).insert(key, value),
    ensures
        props_map(after).dom().contains(key),
        props_map(after)[key] == value,
        forall|k: Seq<char>|
            k != key ==> (props_map(after).dom().contains(k) == props_map(before).dom().contains(k)
                && (props_map(before).dom().contains(k) ==> props_map(after)[k] == props_map(
                before,
            )[k])),
{
}

/// Reads the value stored under `key`, if any.
pub fn props_get(props: &Vec<(String, String)>, key: &str) -> (r: Option<String>)
    requires
        distinct_keys(props@),
    ensures
        r matches Some(v) ==> props_map(props@).dom().contains(key@) && props_map(props@)[key@]
            == v@,
        r is None ==> !props_map(props@).dom().contains(key@),
{
    let n = props.len();
    let kc = chars_of(key);
    for i in 0..n
        invariant
            n == props@.len(),
            kc@ == key@,
            distinct_keys(props@),
            forall|j: int| 0 <= j < i ==> props@[j].0@ != key@,
    {
        let pc = chars_of(props[i].0.as_str());
        if chars_eq(pc.as_slice(), kc.as_slice()) {
            proof {
                lemma_props_value(props@, i as int);
            }
            return Some(props[i].1.clone());
        }
    }
    proof {
        lemma_props_domain(props@);
    }
    None
}

/// In a list without repeated keys, the map holds the value at the key's position.
pub proof fn lemma_props_value(s: Seq<(String, String)>, i: int)
    requires
        distinct_keys(s),
        0 <= i < s.len(),
    ensures
        props_map(s).dom().contains(s[i].0@),
        props_map(s)[s[i].0@] == s[i].1@,
    decreases s.len(),
{
    if i < s.len() - 1 {
        let t = s.drop_last();
        assert(distinct_keys(t));
        lemma_props_value(t, i);
        assert(t[i] == s[i]);
    }
}

/// Lists with the same pairs read as the same map.
pub proof fn lemma_props_map_views(a: Seq<(String, String)>, b: Seq<(String, String)>)
    requires
        pair_views(a) == pair_views(b),
    ensures
        props_map(a) == props_map(b),
    decreases a.len(),
{
    assert(a.len() == pair_views(a).len() && b.len() == pair_views(b).len());
    if a.len() > 0 {
        let n = a.len() - 1;
        assert(pair_views(a.drop_last()) =~= pair_views(a).drop_last());
        assert(pair_views(b.drop_last()) =~= pair_views(b).drop_last());
        lemma_props_map_views(a.drop_last(), b.drop_last());
        assert(pair_views(a)[n] == pair_views(b)[n]);
    }
}

/// A copy of a property list: the same pairs, so the same map.
pub fn copy_props(p: &Vec<(String, String)>) -> (r: Vec<(String, String)>)
    ensures
        pair_views(r@) == pair_views(p@),
        props_map(r@) == props_map(p@),
{
    let mut r: Vec<(String, String)> = Vec::new();
    let n = p.len();
    for i in 0..n
        invariant
            n == p@.len(),
            pair_views(r@) == pair_views(p@.subrange(0, i as int)),
    {
        let k = text_of(chars_of(p[i].0.as_str()).as_slice());
        let v = text_of(chars_of(p[i].1.as_str()).as_slice());
        let ghost before = r@;
        r.push((k, v));
        assert(r@ == before.push((k, v)));
        assert(pair_views(p@.subrange(0, i + 1)) =~= pair_views(p@.subrange(0, i as int)).push(
            (p@[i as int].0@, p@[i as int].1@),
        ));
        assert(pair_views(r@) =~= pair_views(before).push((k@, v@)));
    }
    assert(p@.subrange(0, n as int) =~= p@);
    proof {
        lemma_props_map_views(r@, p@);
    }
    r
}

} // verus!
