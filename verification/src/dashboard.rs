//! The dashboard: the user's next meetings and the pending items panel.
use vstd::prelude::*;
use crate::text::{chars_of, text_of, push_chars, push_str, decimal, decimal_chars};

verus! {

/// A compact upcoming meeting for the dashboard.
#[derive(Debug)]
pub struct UpcomingMeeting {
    pub tor_id: i64,
    pub tor_label: String,
    /// YYYY-MM-DD
    pub date: String,
    /// HH:MM
    pub start_time: String,
    pub duration_minutes: i64,
    pub location: String,
    pub meeting_id: Option<i64>,
}

/// An unread warning of the user.
#[derive(Debug)]
pub struct PendingWarning {
    pub warning_id: i64,
    pub receipt_id: i64,
    pub severity: String,
    pub message: String,
    pub created_at: String,
}

/// A proposal awaiting a decision.
#[derive(Debug)]
pub struct PendingProposal {
    pub id: i64,
    pub title: String,
    pub status: String,
    pub tor_label: String,
    pub submitted_by: String,
}

/// An open suggestion.
#[derive(Debug)]
pub struct PendingSuggestion {
    pub id: i64,
    pub description_preview: String,
    pub tor_label: String,
    pub submitted_by: String,
}

/// The "needs attention" panel.
#[derive(Debug)]
pub struct PendingItems {
    pub unread_warnings: Vec<PendingWarning>,
    pub pending_proposals: Vec<PendingProposal>,
    pub open_suggestions: Vec<PendingSuggestion>,
}

/// Lexicographic order of character sequences, the order of `String`'s
/// `cmp` (UTF-8 byte order is code point order).
pub open spec fn text_lt(a: Seq<char>, b: Seq<char>) -> bool
    decreases a.len(),
{
    if a.len() == 0 {
        b.len() > 0
    } else if b.len() == 0 {
        false
    } else if a[0] != b[0] {
        a[0] < b[0]
    } else {
        text_lt(a.drop_first(), b.drop_first())
    }
}

/// Whether meeting `a` comes strictly before `b`: by date, then by time.
pub open spec fn meeting_before(a: UpcomingMeeting, b: UpcomingMeeting) -> bool {
    text_lt(a.date@, b.date@) || (a.date@ == b.date@ && text_lt(a.start_time@, b.start_time@))
}

/// `s` with `x` inserted after every meeting that does not come after it.
pub open spec fn insert_by_time(s: Seq<UpcomingMeeting>, x: UpcomingMeeting) -> Seq<
    UpcomingMeeting,
>
    decreases s.len(),
{
    if s.len() == 0 {
        seq![x]
    } else if meeting_before(x, s[0]) {
        seq![x] + s
    } else {
        seq![s[0]] + insert_by_time(s.drop_first(), x)
    }
}

/// The meetings ordered by date and time, equal ones in their given order.
pub open spec fn sorted_by_time(s: Seq<UpcomingMeeting>) -> Seq<UpcomingMeeting>
    decreases s.len(),
{
    if s.len() == 0 {
        Seq::empty()
    } else {
        insert_by_time(sorted_by_time(s.drop_last()), s.last())
    }
}

/// The meetings of the given ToRs, in order.
pub open spec fn of_tors(s: Seq<UpcomingMeeting>, tor_ids: Seq<i64>) -> Seq<UpcomingMeeting>
    decreases s.len(),
{
    if s.len() == 0 {
        Seq::empty()
    } else if tor_ids.contains(s.last().tor_id) {
        of_tors(s.drop_last(), tor_ids).push(s.last())
    } else {
        of_tors(s.drop_last(), tor_ids)
    }
}

/// How many upcoming meetings the dashboard shows.
pub open spec fn upcoming_limit() -> int {
    8
}

/// The dashboard's meetings: those of the user's ToRs, by date and time,
/// at most eight.
pub open spec fn upcoming_spec(events: Seq<UpcomingMeeting>, tor_ids: Seq<i64>) -> Seq<
    UpcomingMeeting,
> {
    let s = sorted_by_time(of_tors(events, tor_ids));
    if s.len() > upcoming_limit() {
        s.take(upcoming_limit())
    } else {
        s
    }
}

/// Whether `a` comes before `b` in character order.
fn text_lt_exec(a: &[char], b: &[char]) -> (r: bool)
    ensures
        r == text_lt(a@, b@),
{
    let n = a.len();
    let m = b.len();
    let mut i: usize = 0;
    assert(a@.subrange(0, n as int) =~= a@ && b@.subrange(0, m as int) =~= b@);
    while i < n && i < m && a[i] == b[i]
        invariant
            i <= n,
            i <= m,
            n == a@.len(),
            m == b@.len(),
            text_lt(a@, b@) == text_lt(a@.subrange(i as int, n as int), b@.subrange(
                i as int,
                m as int,
            )),
        decreases n - i,
    {
        let ghost sa = a@.subrange(i as int, n as int);
        let ghost sb = b@.subrange(i as int, m as int);
        assert(sa.drop_first() =~= a@.subrange(i + 1, n as int));
        assert(sb.drop_first() =~= b@.subrange(i + 1, m as int));
        i = i + 1;
    }
    let ghost sa = a@.subrange(i as int, n as int);
    let ghost sb = b@.subrange(i as int, m as int);
    if i == n {
        i < m
    } else if i == m {
        false
    } else {
        assert(sa[0] == a@[i as int] && sb[0] == b@[i as int]);
        a[i] < b[i]
    }
}

/// Whether meeting `a` comes strictly before `b`.
fn before_exec(a: &UpcomingMeeting, b: &UpcomingMeeting) -> (r: bool)
    ensures
        r == meeting_before(*a, *b),
{
    let ad = chars_of(a.date.as_str());
    let bd = chars_of(b.date.as_str());
    if text_lt_exec(ad.as_slice(), bd.as_slice()) {
        return true;
    }
    if !crate::text::chars_eq(ad.as_slice(), bd.as_slice()) {
        return false;
    }
    let at = chars_of(a.start_time.as_str());
    let bt = chars_of(b.start_time.as_str());
    text_lt_exec(at.as_slice(), bt.as_slice())
}

/// Inserting at the first position whose meeting comes after `x`.
proof fn lemma_insert_at(s: Seq<UpcomingMeeting>, x: UpcomingMeeting, k: int)
    requires
        0 <= k <= s.len(),
        forall|j: int| 0 <= j < k ==> !meeting_before(x, #[trigger] s[j]),
        k < s.len() ==> meeting_before(x, s[k]),
    ensures
        insert_by_time(s, x) == s.insert(k, x),
    decreases k,
{
    if k == 0 {
        if s.len() == 0 {
            assert(s.insert(0, x) =~= seq![x]);
        } else {
            assert(s.insert(0, x) =~= seq![x] + s);
        }
    } else {
        let t = s.drop_first();
        assert forall|j: int| 0 <= j < k - 1 implies !meeting_before(x, #[trigger] t[j]) by {
            assert(t[j] == s[j + 1]);
        }
        lemma_insert_at(t, x, k - 1);
        assert(s.insert(k, x) =~= seq![s[0]] + t.insert(k - 1, x));
    }
}

/// Inserts `x` into the ordered list.
fn insert_meeting(out: &mut Vec<UpcomingMeeting>, x: UpcomingMeeting)
    ensures
        final(out)@ == insert_by_time(old(out)@, x),
{
    let n = out.len();
    let mut k: usize = 0;
    while k < n && !before_exec(&x, &out[k])
        invariant
            k <= n,
            n == out@.len(),
            forall|j: int| 0 <= j < k ==> !meeting_before(x, #[trigger] out@[j]),
        decreases n - k,
    {
        k = k + 1;
    }
    proof {
        lemma_insert_at(out@, x, k as int);
    }
    out.insert(k, x);
}

/// Whether `id` is among `ids`.
fn holds_id(ids: &[i64], id: i64) -> (r: bool)
    ensures
        r == ids@.contains(id),
{
    let n = ids.len();
    for i in 0..n
        invariant
            n == ids@.len(),
            forall|j: int| 0 <= j < i ==> ids@[j] != id,
    {
        if ids[i] == id {
            assert(ids@[i as int] == id);
            return true;
        }
    }
    false
}

/// The upcoming meetings of the user's ToRs for the dashboard: ordered by
/// date, then start time (meetings at the same moment keep their order),
/// and at most eight of them.
pub fn upcoming_for_tors(events: Vec<UpcomingMeeting>, tor_ids: &[i64]) -> (r: Vec<
    UpcomingMeeting,
>)
    ensures
        r@ == upcoming_spec(events@, tor_ids@),
{
    let ghost all = events@;
    let mut rest = events;
    let mut out: Vec<UpcomingMeeting> = Vec::new();
    let n = rest.len();
    let mut i: usize = 0;
    while i < n
        invariant
            i <= n,
            n == all.len(),
            rest@ == all.subrange(i as int, n as int),
            out@ == sorted_by_time(of_tors(all.subrange(0, i as int), tor_ids@)),
        decreases n - i,
    {
        let e = rest.remove(0);
        let ghost prefix = all.subrange(0, i + 1);
        assert(prefix.drop_last() =~= all.subrange(0, i as int));
        assert(prefix.last() == e);
        if holds_id(tor_ids, e.tor_id) {
            insert_meeting(&mut out, e);
            assert(of_tors(prefix, tor_ids@) == of_tors(all.subrange(0, i as int), tor_ids@).push(
                e,
            ));
            let ghost f = of_tors(prefix, tor_ids@);
            assert(f.drop_last() =~= of_tors(all.subrange(0, i as int), tor_ids@));
        }
        assert(rest@ =~= all.subrange(i + 1, n as int));
        i = i + 1;
    }
    assert(all.subrange(0, n as int) =~= all);
    if out.len() > 8 {
        out.truncate(8);
    }
    out
}

/// Where `insert_by_time` puts `x`: after the leading meetings that do not
/// come after it.
pub open spec fn insert_pos(s: Seq<UpcomingMeeting>, x: UpcomingMeeting) -> int
    decreases s.len(),
{
    if s.len() == 0 || meeting_before(x, s[0]) {
        0
    } else {
        1 + insert_pos(s.drop_first(), x)
    }
}

proof fn lemma_insert_pos(s: Seq<UpcomingMeeting>, x: UpcomingMeeting)
    ensures
        0 <= insert_pos(s, x) <= s.len(),
        forall|j: int| 0 <= j < insert_pos(s, x) ==> !meeting_before(x, #[trigger] s[j]),
        insert_pos(s, x) < s.len() ==> meeting_before(x, s[insert_pos(s, x)]),
        insert_by_time(s, x) == s.insert(insert_pos(s, x), x),
    decreases s.len(),
{
    if s.len() > 0 && !meeting_before(x, s[0]) {
        let t = s.drop_first();
        lemma_insert_pos(t, x);
        assert forall|j: int| 0 <= j < insert_pos(s, x) implies !meeting_before(
            x,
            #[trigger] s[j],
        ) by {
            if j > 0 {
                assert(s[j] == t[j - 1]);
            }
        }
    }
    lemma_insert_at(s, x, insert_pos(s, x));
}

proof fn lemma_text_lt_irreflexive(a: Seq<char>)
    ensures
        !text_lt(a, a),
    decreases a.len(),
{
    if a.len() > 0 {
        lemma_text_lt_irreflexive(a.drop_first());
    }
}

proof fn lemma_text_lt_transitive(a: Seq<char>, b: Seq<char>, c: Seq<char>)
    requires
        text_lt(a, b),
        text_lt(b, c),
    ensures
        text_lt(a, c),
    decreases a.len(),
{
    if a.len() > 0 && b.len() > 0 && c.len() > 0 && a[0] == b[0] && b[0] == c[0] {
        lemma_text_lt_transitive(a.drop_first(), b.drop_first(), c.drop_first());
    }
}

proof fn lemma_before_irreflexive(a: UpcomingMeeting)
    ensures
        !meeting_before(a, a),
{
    lemma_text_lt_irreflexive(a.date@);
    lemma_text_lt_irreflexive(a.start_time@);
}

proof fn lemma_before_transitive(a: UpcomingMeeting, b: UpcomingMeeting, c: UpcomingMeeting)
    requires
        meeting_before(a, b),
        meeting_before(b, c),
    ensures
        meeting_before(a, c),
{
    if text_lt(a.date@, b.date@) && text_lt(b.date@, c.date@) {
        lemma_text_lt_transitive(a.date@, b.date@, c.date@);
    }
    lemma_text_lt_irreflexive(a.date@);
    lemma_text_lt_irreflexive(b.date@);
    if a.date@ == b.date@ && b.date@ == c.date@ {
        lemma_text_lt_transitive(a.start_time@, b.start_time@, c.start_time@);
    }
}

/// No meeting of the list comes before an earlier one.
pub open spec fn ordered_by_time(s: Seq<UpcomingMeeting>) -> bool {
    forall|i: int, j: int| 0 <= i < j < s.len() ==> !meeting_before(#[trigger] s[j], #[trigger] s[i])
}

proof fn lemma_insert_keeps_order(s: Seq<UpcomingMeeting>, x: UpcomingMeeting)
    requires
        ordered_by_time(s),
    ensures
        ordered_by_time(insert_by_time(s, x)),
{
    lemma_insert_pos(s, x);
    let p = insert_pos(s, x);
    let r = s.insert(p, x);
    assert forall|i: int, j: int| 0 <= i < j < r.len() implies !meeting_before(
        #[trigger] r[j],
        #[trigger] r[i],
    ) by {
        if i < p && j == p {
            assert(r[i] == s[i]);
        } else if i == p && j > p {
            assert(r[j] == s[j - 1]);
            if meeting_before(s[j - 1], x) {
                lemma_before_transitive(s[j - 1], x, s[p]);
                if j - 1 == p {
                    lemma_before_irreflexive(s[p]);
                }
            }
        } else if j < p {
            assert(r[i] == s[i] && r[j] == s[j]);
        } else if i < p {
            assert(r[i] == s[i] && r[j] == s[j - 1]);
        } else {
            assert(r[i] == s[i - 1] && r[j] == s[j - 1]);
        }
    }
}

proof fn lemma_sorted_by_time(s: Seq<UpcomingMeeting>)
    ensures
        ordered_by_time(sorted_by_time(s)),
        sorted_by_time(s).to_multiset() == s.to_multiset(),
    decreases s.len(),
{
    broadcast use vstd::seq_lib::group_to_multiset_ensures;

    if s.len() > 0 {
        let t = sorted_by_time(s.drop_last());
        lemma_sorted_by_time(s.drop_last());
        lemma_insert_keeps_order(t, s.last());
        lemma_insert_pos(t, s.last());
        assert(s.drop_last().push(s.last()) =~= s);
    }
}

proof fn lemma_of_tors_members(s: Seq<UpcomingMeeting>, tor_ids: Seq<i64>)
    ensures
        forall|i: int|
            0 <= i < of_tors(s, tor_ids).len() ==> tor_ids.contains(
                #[trigger] of_tors(s, tor_ids)[i].tor_id,
            ),
    decreases s.len(),
{
    if s.len() > 0 {
        lemma_of_tors_members(s.drop_last(), tor_ids);
    }
}

/// The dashboard's meetings are ordered by date and time, belong to the
/// user's ToRs, number at most eight, and are exactly the first meetings
/// of that order.
pub proof fn lemma_upcoming_properties(events: Seq<UpcomingMeeting>, tor_ids: Seq<i64>)
    ensures
        ordered_by_time(upcoming_spec(events, tor_ids)),
        upcoming_spec(events, tor_ids).len() <= upcoming_limit(),
        forall|i: int|
            0 <= i < upcoming_spec(events, tor_ids).len() ==> tor_ids.contains(
                #[trigger] upcoming_spec(events, tor_ids)[i].tor_id,
            ),
        upcoming_spec(events, tor_ids).len() < upcoming_limit() ==> upcoming_spec(
            events,
            tor_ids,
        ).to_multiset() == of_tors(events, tor_ids).to_multiset(),
{
    broadcast use vstd::seq_lib::group_to_multiset_ensures;

    let f = of_tors(events, tor_ids);
    let s = sorted_by_time(f);
    lemma_sorted_by_time(f);
    lemma_of_tors_members(events, tor_ids);
    let r = upcoming_spec(events, tor_ids);
    assert forall|i: int| 0 <= i < r.len() implies tor_ids.contains(#[trigger] r[i].tor_id) by {
        assert(r[i] == s[i]);
        assert(s.to_multiset().count(s[i]) > 0);
        assert(f.contains(s[i]));
        let k = choose|k: int| 0 <= k < f.len() && f[k] == s[i];
        assert(tor_ids.contains(f[k].tor_id));
    }
    assert forall|i: int, j: int| 0 <= i < j < r.len() implies !meeting_before(
        #[trigger] r[j],
        #[trigger] r[i],
    ) by {
        assert(r[i] == s[i] && r[j] == s[j]);
    }
}

/// The numbered placeholders `$1, $2, ..., $n` of an IN list.
pub open spec fn placeholders(n: nat) -> Seq<char>
    decreases n,
{
    if n == 0 {
        Seq::empty()
    } else if n == 1 {
        "$1"@
    } else {
        placeholders((n - 1) as nat) + ", $"@ + decimal(n as int)
    }
}

/// The placeholders of an IN list of `n` values.
pub fn in_placeholders(n: usize) -> (r: String)
    requires
        n < i64::MAX,
    ensures
        r@ == placeholders(n as nat),
{
    let mut out: Vec<char> = Vec::new();
    let mut i: usize = 0;
    while i < n
        invariant
            i <= n,
            n < i64::MAX,
            out@ == placeholders(i as nat),
        decreases n - i,
    {
        if i == 0 {
            push_str(&mut out, "$1");
        } else {
            push_str(&mut out, ", $");
            let d = decimal_chars((i + 1) as i64);
            push_chars(&mut out, d.as_slice());
        }
        i = i + 1;
    }
    text_of(out.as_slice())
}

/// The pending proposals query, before and after the IN list.
pub open spec fn pending_proposals_head() -> Seq<char> {
    "SELECT p.id, p.label AS title, COALESCE(p_status.value, '') AS status, COALESCE(tor.label, '') AS tor_label, COALESCE(p_sub.value, '') AS submitted_by FROM entities p LEFT JOIN entity_properties p_status ON p.id = p_status.entity_id AND p_status.key = 'status' LEFT JOIN relations r_tor ON p.id = r_tor.source_id AND r_tor.relation_type_id = (SELECT id FROM entities WHERE entity_type = 'relation_type' AND name = 'submitted_to') LEFT JOIN entities tor ON r_tor.target_id = tor.id LEFT JOIN entity_properties p_sub ON p.id = p_sub.entity_id AND p_sub.key = 'submitted_by_name' WHERE p.entity_type = 'proposal' AND COALESCE(p_status.value, '') IN ('submitted', 'under_review') AND tor.id IN ("@
}

/// The open suggestions query, before the IN list.
pub open spec fn open_suggestions_head() -> Seq<char> {
    "SELECT s.id, COALESCE(LEFT(p_desc.value, 80), s.label) AS description_preview, COALESCE(tor.label, '') AS tor_label, COALESCE(p_sub.value, '') AS submitted_by FROM entities s LEFT JOIN entity_properties p_status ON s.id = p_status.entity_id AND p_status.key = 'status' LEFT JOIN entity_properties p_desc ON s.id = p_desc.entity_id AND p_desc.key = 'description' LEFT JOIN relations r_tor ON s.id = r_tor.source_id AND r_tor.relation_type_id = (SELECT id FROM entities WHERE entity_type = 'relation_type' AND name = 'suggested_to') LEFT JOIN entities tor ON r_tor.target_id = tor.id LEFT JOIN entity_properties p_sub ON s.id = p_sub.entity_id AND p_sub.key = 'submitted_by_name' WHERE s.entity_type = 'suggestion' AND COALESCE(p_status.value, '') = 'open' AND tor.id IN ("@
}

/// The query of the pending proposals of `n` ToRs, their ids bound as
/// `$1` to `$n`; `None` when there are no ToRs (nothing is queried).
pub fn pending_proposals_sql(n: usize) -> (r: Option<String>)
    requires
        n < i64::MAX,
    ensures
        n == 0 ==> r is None,
        n > 0 ==> (r matches Some(q) && q@ == pending_proposals_head() + placeholders(n as nat)
            + ") ORDER BY p.created_at DESC LIMIT 5"@),
{
    if n == 0 {
        return None;
    }
    let mut s = chars_of(
        "SELECT p.id, p.label AS title, COALESCE(p_status.value, '') AS status, COALESCE(tor.label, '') AS tor_label, COALESCE(p_sub.value, '') AS submitted_by FROM entities p LEFT JOIN entity_properties p_status ON p.id = p_status.entity_id AND p_status.key = 'status' LEFT JOIN relations r_tor ON p.id = r_tor.source_id AND r_tor.relation_type_id = (SELECT id FROM entities WHERE entity_type = 'relation_type' AND name = 'submitted_to') LEFT JOIN entities tor ON r_tor.target_id = tor.id LEFT JOIN entity_properties p_sub ON p.id = p_sub.entity_id AND p_sub.key = 'submitted_by_name' WHERE p.entity_type = 'proposal' AND COALESCE(p_status.value, '') IN ('submitted', 'under_review') AND tor.id IN (",
    );
    let ph = in_placeholders(n);
    push_str(&mut s, ph.as_str());
    push_str(&mut s, ") ORDER BY p.created_at DESC LIMIT 5");
    Some(text_of(s.as_slice()))
}

/// The query of the open suggestions of `n` ToRs, their ids bound as `$1`
/// to `$n`; `None` when there are no ToRs (nothing is queried).
pub fn open_suggestions_sql(n: usize) -> (r: Option<String>)
    requires
        n < i64::MAX,
    ensures
        n == 0 ==> r is None,
        n > 0 ==> (r matches Some(q) && q@ == open_suggestions_head() + placeholders(n as nat)
            + ") ORDER BY s.created_at DESC LIMIT 5"@),
{
    if n == 0 {
        return None;
    }
    let mut s = chars_of(
        "SELECT s.id, COALESCE(LEFT(p_desc.value, 80), s.label) AS description_preview, COALESCE(tor.label, '') AS tor_label, COALESCE(p_sub.value, '') AS submitted_by FROM entities s LEFT JOIN entity_properties p_status ON s.id = p_status.entity_id AND p_status.key = 'status' LEFT JOIN entity_properties p_desc ON s.id = p_desc.entity_id AND p_desc.key = 'description' LEFT JOIN relations r_tor ON s.id = r_tor.source_id AND r_tor.relation_type_id = (SELECT id FROM entities WHERE entity_type = 'relation_type' AND name = 'suggested_to') LEFT JOIN entities tor ON r_tor.target_id = tor.id LEFT JOIN entity_properties p_sub ON s.id = p_sub.entity_id AND p_sub.key = 'submitted_by_name' WHERE s.entity_type = 'suggestion' AND COALESCE(p_status.value, '') = 'open' AND tor.id IN (",
    );
    let ph = in_placeholders(n);
    push_str(&mut s, ph.as_str());
    push_str(&mut s, ") ORDER BY s.created_at DESC LIMIT 5");
    Some(text_of(s.as_slice()))
}

} // verus!
