//! The audit log: the paging window, the filter clause with its numbered
//! parameters, the page count and the properties of a new entry.
use vstd::prelude::*;
use crate::text::{
    chars_of, text_of, push_chars, push_str, trim, trim_exec, chars_eq_str, decimal,
    decimal_chars, join_with, join_exec, char_vec_views,
};
use crate::props::pair_views;

verus! {

/// One audit entry as displayed.
#[derive(Debug)]
pub struct AuditEntry {
    pub id: i64,
    pub user_id: i64,
    pub username: String,
    pub action: String,
    pub target_type: String,
    pub target_id: i64,
    pub summary: String,
    pub created_at: String,
}

/// One page of the audit log.
#[derive(Debug)]
pub struct AuditEntryPage {
    pub entries: Vec<AuditEntry>,
    pub page: i64,
    pub per_page: i64,
    pub total_count: i64,
    pub total_pages: i64,
}

/// The page actually shown: at least the first.
pub open spec fn clamp_page(page: int) -> int {
    if page < 1 {
        1
    } else {
        page
    }
}

/// The page size actually used: between 1 and 100.
pub open spec fn clamp_per_page(per_page: int) -> int {
    if per_page < 1 {
        1
    } else if per_page > 100 {
        100
    } else {
        per_page
    }
}

/// The page, the page size and the number of rows skipped.
#[derive(Debug)]
pub struct PageWindow {
    pub page: i64,
    pub per_page: i64,
    pub offset: i64,
}

/// The window of a requested page: the page is at least 1, the size is
/// clamped to 1..=100, and the offset skips the earlier pages.
pub fn page_window(page: i64, per_page: i64) -> (r: PageWindow)
    requires
        (clamp_page(page as int) - 1) * clamp_per_page(per_page as int) <= i64::MAX,
    ensures
        r.page == clamp_page(page as int),
        r.per_page == clamp_per_page(per_page as int),
        r.offset == (r.page - 1) * r.per_page,
{
    let p: i64 = if page < 1 {
        1
    } else {
        page
    };
    let s: i64 = if per_page < 1 {
        1
    } else if per_page > 100 {
        100
    } else {
        per_page
    };
    PageWindow { page: p, per_page: s, offset: (p - 1) * s }
}

/// Whether the search text is used: present and not blank.
pub open spec fn search_active(search: Option<Seq<char>>) -> bool {
    search matches Some(q) && trim(q).len() > 0
}

/// Whether a select filter is used: present and not "all".
pub open spec fn select_active(f: Option<Seq<char>>) -> bool {
    f matches Some(v) && v != "all"@
}

/// The page shown is the page asked for when that is a page (1 or more),
/// and the first page otherwise; the page size is the size asked for when
/// it lies in 1..=100, 1 below that range and 100 above it; and a window
/// skips exactly the rows of the pages before it.
pub proof fn lemma_page_window_bounds(page: int, per_page: int)
    ensures
        clamp_page(page) >= 1,
        page >= 1 ==> clamp_page(page) == page,
        page < 1 ==> clamp_page(page) == 1,
        1 <= clamp_per_page(per_page) <= 100,
        1 <= per_page <= 100 ==> clamp_per_page(per_page) == per_page,
        per_page < 1 ==> clamp_per_page(per_page) == 1,
        per_page > 100 ==> clamp_per_page(per_page) == 100,
{
}

/// The conditions and the bound values of the filters, numbered `$1`,
/// `$2`, ... in the order the values are bound.
pub open spec fn audit_conditions(
    search: Option<Seq<char>>,
    action: Option<Seq<char>>,
    target_type: Option<Seq<char>>,
) -> (Seq<Seq<char>>, Seq<Seq<char>>) {
    let c1: (Seq<Seq<char>>, Seq<Seq<char>>) = if search_active(search) {
        let pattern = "%"@ + trim(search->0) + "%"@;
        (seq!["(u.name LIKE $1 OR p_summary.value LIKE $2)"@], seq![pattern, pattern])
    } else {
        (Seq::empty(), Seq::empty())
    };
    let c2: (Seq<Seq<char>>, Seq<Seq<char>>) = if select_active(action) {
        (
            c1.0.push("p_action.value LIKE $"@ + decimal((c1.1.len() + 1) as int)),
            c1.1.push(action->0 + "%"@),
        )
    } else {
        c1
    };
    if select_active(target_type) {
        (
            c2.0.push("p_target_type.value = $"@ + decimal((c2.1.len() + 1) as int)),
            c2.1.push(target_type->0),
        )
    } else {
        c2
    }
}

/// Every filter in use adds one condition, in the order search, action,
/// target type, and binds its values after those of the filters before it;
/// each condition's placeholders name the positions (from 1) of its own
/// values: the search pattern `%<trimmed search>%` at `$1` and `$2`, the
/// action prefix `<action>%`, and the target type itself. Filters not in
/// use add nothing.
pub proof fn lemma_audit_placeholders(
    search: Option<Seq<char>>,
    action: Option<Seq<char>>,
    target_type: Option<Seq<char>>,
)
    ensures
        ({
            let (conds, params) = audit_conditions(search, action, target_type);
            let ns: int = if search_active(search) { 2 } else { 0 };
            let na: int = if select_active(action) { 1 } else { 0 };
            let nt: int = if select_active(target_type) { 1 } else { 0 };
            let cs: int = if search_active(search) { 1 } else { 0 };
            &&& params.len() == ns + na + nt
            &&& conds.len() == cs + na + nt
            &&& search_active(search) ==> {
                &&& conds[0] == "(u.name LIKE $1 OR p_summary.value LIKE $2)"@
                &&& params[0] == "%"@ + trim(search->0) + "%"@
                &&& params[1] == "%"@ + trim(search->0) + "%"@
            }
            &&& select_active(action) ==> {
                &&& conds[cs] == "p_action.value LIKE $"@ + decimal(ns + 1)
                &&& params[ns] == action->0 + "%"@
            }
            &&& select_active(target_type) ==> {
                &&& conds[cs + na] == "p_target_type.value = $"@ + decimal(ns + na + 1)
                &&& params[ns + na] == target_type->0
            }
        }),
{
}

/// The text appended to the WHERE clause: nothing, or " AND " and the
/// conditions joined by " AND ".
pub open spec fn filter_clause(conditions: Seq<Seq<char>>) -> Seq<char> {
    if conditions.len() == 0 {
        Seq::empty()
    } else {
        " AND "@ + join_with(conditions, " AND "@)
    }
}

/// The filters of an audit query: the text added to the WHERE clause and
/// the values bound to its parameters, in order.
#[derive(Debug)]
pub struct AuditFilter {
    pub clause: String,
    pub params: Vec<String>,
}

/// The views of a list of strings.
pub open spec fn string_views(v: Seq<String>) -> Seq<Seq<char>> {
    v.map_values(|s: String| s@)
}

/// The optional text, viewed.
pub open spec fn opt_view(o: Option<&str>) -> Option<Seq<char>> {
    match o {
        Some(s) => Some(s@),
        None => None,
    }
}

/// Whether a select filter is used.
fn select_used(f: Option<&str>) -> (r: bool)
    ensures
        r == select_active(opt_view(f)),
{
    match f {
        Some(v) => {
            let c = chars_of(v);
            !chars_eq_str(c.as_slice(), "all")
        },
        None => false,
    }
}

/// Builds the filter of the audit log from the search text and the action
/// and target type selections.
pub fn audit_filter(search: Option<&str>, action: Option<&str>, target_type: Option<&str>) -> (r:
    AuditFilter)
    ensures
        ({
            let (conds, params) = audit_conditions(
                opt_view(search),
                opt_view(action),
                opt_view(target_type),
            );
            r.clause@ == filter_clause(conds) && string_views(r.params@) == params
        }),
{
    let ghost spec = audit_conditions(opt_view(search), opt_view(action), opt_view(target_type));
    let mut conds: Vec<Vec<char>> = Vec::new();
    let mut params: Vec<String> = Vec::new();
    let ghost c1: (Seq<Seq<char>>, Seq<Seq<char>>) = (Seq::empty(), Seq::empty());
    match search {
        Some(q) => {
            let qc = chars_of(q);
            let t = trim_exec(qc.as_slice());
            if t.len() > 0 {
                let mut pat = chars_of("%");
                push_chars(&mut pat, t.as_slice());
                push_str(&mut pat, "%");
                conds.push(chars_of("(u.name LIKE $1 OR p_summary.value LIKE $2)"));
                params.push(text_of(pat.as_slice()));
                params.push(text_of(pat.as_slice()));
                proof {
                    c1 = (seq!["(u.name LIKE $1 OR p_summary.value LIKE $2)"@], seq![pat@, pat@]);
                }
            }
        },
        None => {},
    }
    assert(char_vec_views(conds@) =~= c1.0 && string_views(params@) =~= c1.1);
    let ghost c2 = c1;
    if select_used(action) {
        let a = action.unwrap();
        let n = params.len();
        let mut cond = chars_of("p_action.value LIKE $");
        let d = decimal_chars((n + 1) as i64);
        push_chars(&mut cond, d.as_slice());
        let ghost cv = cond@;
        conds.push(cond);
        let mut v = chars_of(a);
        push_str(&mut v, "%");
        params.push(text_of(v.as_slice()));
        proof {
            c2 = (c1.0.push(cv), c1.1.push(v@));
        }
    }
    assert(char_vec_views(conds@) =~= c2.0 && string_views(params@) =~= c2.1);
    let ghost c3 = c2;
    if select_used(target_type) {
        let t = target_type.unwrap();
        let n = params.len();
        let mut cond = chars_of("p_target_type.value = $");
        let d = decimal_chars((n + 1) as i64);
        push_chars(&mut cond, d.as_slice());
        let ghost cv = cond@;
        conds.push(cond);
        let v = chars_of(t);
        params.push(text_of(v.as_slice()));
        proof {
            c3 = (c2.0.push(cv), c2.1.push(v@));
        }
    }
    assert(char_vec_views(conds@) =~= c3.0 && string_views(params@) =~= c3.1);
    assert(c3 == spec);
    let clause = if conds.len() == 0 {
        String::new()
    } else {
        let mut c = chars_of(" AND ");
        let j = join_exec(&conds, " AND ");
        push_chars(&mut c, j.as_slice());
        text_of(c.as_slice())
    };
    AuditFilter { clause, params }
}

/// The columns and joins that display audit entries.
pub open spec fn audit_select() -> Seq<char> {
    "SELECT e.id, COALESCE(p_user_id.value, '0')::BIGINT AS user_id, COALESCE(u.name, 'unknown') AS username, COALESCE(p_action.value, '') AS action, COALESCE(p_target_type.value, '') AS target_type, COALESCE(p_target_id.value, '0')::BIGINT AS target_id, COALESCE(p_summary.value, '') AS summary, e.created_at::TEXT AS created_at FROM entities e LEFT JOIN entity_properties p_user_id ON e.id = p_user_id.entity_id AND p_user_id.key = 'user_id' LEFT JOIN entity_properties p_action ON e.id = p_action.entity_id AND p_action.key = 'action' LEFT JOIN entity_properties p_target_type ON e.id = p_target_type.entity_id AND p_target_type.key = 'target_type' LEFT JOIN entity_properties p_target_id ON e.id = p_target_id.entity_id AND p_target_id.key = 'target_id' LEFT JOIN entity_properties p_summary ON e.id = p_summary.entity_id AND p_summary.key = 'summary' LEFT JOIN entities u ON CAST(p_user_id.value AS BIGINT) = u.id AND u.entity_type = 'user' WHERE e.entity_type = 'audit_entry'"@
}

/// The count of the audit entries, before the filter clause.
pub open spec fn audit_count_select() -> Seq<char> {
    "SELECT COUNT(*) FROM entities e LEFT JOIN entity_properties p_user_id ON e.id = p_user_id.entity_id AND p_user_id.key = 'user_id' LEFT JOIN entity_properties p_action ON e.id = p_action.entity_id AND p_action.key = 'action' LEFT JOIN entity_properties p_target_type ON e.id = p_target_type.entity_id AND p_target_type.key = 'target_type' LEFT JOIN entity_properties p_summary ON e.id = p_summary.entity_id AND p_summary.key = 'summary' LEFT JOIN entities u ON CAST(p_user_id.value AS BIGINT) = u.id AND u.entity_type = 'user' WHERE e.entity_type = 'audit_entry'"@
}

/// The query that counts the filtered entries.
pub fn audit_count_sql(filter: &AuditFilter) -> (r: String)
    ensures
        r@ == audit_count_select() + filter.clause@,
{
    let mut s = chars_of(
        "SELECT COUNT(*) FROM entities e LEFT JOIN entity_properties p_user_id ON e.id = p_user_id.entity_id AND p_user_id.key = 'user_id' LEFT JOIN entity_properties p_action ON e.id = p_action.entity_id AND p_action.key = 'action' LEFT JOIN entity_properties p_target_type ON e.id = p_target_type.entity_id AND p_target_type.key = 'target_type' LEFT JOIN entity_properties p_summary ON e.id = p_summary.entity_id AND p_summary.key = 'summary' LEFT JOIN entities u ON CAST(p_user_id.value AS BIGINT) = u.id AND u.entity_type = 'user' WHERE e.entity_type = 'audit_entry'",
    );
    push_str(&mut s, filter.clause.as_str());
    text_of(s.as_slice())
}

/// The query of one page: the filtered entries, newest first, with the page
/// size and the offset bound after the filter values.
pub fn audit_page_sql(filter: &AuditFilter) -> (r: String)
    requires
        filter.params.len() + 2 <= i64::MAX,
    ensures
        r@ == audit_select() + filter.clause@ + " ORDER BY e.created_at DESC LIMIT $"@ + decimal(
            filter.params.len() + 1,
        ) + " OFFSET $"@ + decimal(filter.params.len() + 2),
{
    let mut s = audit_select_chars();
    push_str(&mut s, filter.clause.as_str());
    push_str(&mut s, " ORDER BY e.created_at DESC LIMIT $");
    let n = filter.params.len();
    let a = decimal_chars((n as i64) + 1);
    push_chars(&mut s, a.as_slice());
    push_str(&mut s, " OFFSET $");
    let b = decimal_chars((n as i64) + 2);
    push_chars(&mut s, b.as_slice());
    text_of(s.as_slice())
}

/// The display query's text as characters.
fn audit_select_chars() -> (r: Vec<char>)
    ensures
        r@ == audit_select(),
{
    chars_of(
        "SELECT e.id, COALESCE(p_user_id.value, '0')::BIGINT AS user_id, COALESCE(u.name, 'unknown') AS username, COALESCE(p_action.value, '') AS action, COALESCE(p_target_type.value, '') AS target_type, COALESCE(p_target_id.value, '0')::BIGINT AS target_id, COALESCE(p_summary.value, '') AS summary, e.created_at::TEXT AS created_at FROM entities e LEFT JOIN entity_properties p_user_id ON e.id = p_user_id.entity_id AND p_user_id.key = 'user_id' LEFT JOIN entity_properties p_action ON e.id = p_action.entity_id AND p_action.key = 'action' LEFT JOIN entity_properties p_target_type ON e.id = p_target_type.entity_id AND p_target_type.key = 'target_type' LEFT JOIN entity_properties p_target_id ON e.id = p_target_id.entity_id AND p_target_id.key = 'target_id' LEFT JOIN entity_properties p_summary ON e.id = p_summary.entity_id AND p_summary.key = 'summary' LEFT JOIN entities u ON CAST(p_user_id.value AS BIGINT) = u.id AND u.entity_type = 'user' WHERE e.entity_type = 'audit_entry'",
    )
}

/// The query of the most recent entries, the limit bound as `$1`.
pub fn recent_audit_sql() -> (r: String)
    ensures
        r@ == audit_select() + " ORDER BY e.created_at DESC LIMIT $1"@,
{
    let mut s = audit_select_chars();
    push_str(&mut s, " ORDER BY e.created_at DESC LIMIT $1");
    text_of(s.as_slice())
}

/// The number of pages that hold `total` entries, `per_page` to a page: the
/// total divided by the page size, rounded up.
pub fn total_pages(total: i64, per_page: i64) -> (r: i64)
    requires
        per_page >= 1,
    ensures
        (r - 1) * per_page < total <= r * per_page,
{
    let per: u64 = per_page as u64;
    if total > 0 {
        let a: u64 = total as u64;
        let q: u64 = a / per;
        let m: u64 = a % per;
        assert(q * per + m == a && m < per && q <= a) by (nonlinear_arith)
            requires
                per >= 1,
                q == a / per,
                m == a % per,
        {
        }
        if m != 0 {
            assert(q * per < a <= (q + 1) * per && q < a) by (nonlinear_arith)
                requires
                    q * per + m == a,
                    0 < m < per,
                    per >= 1,
            {
            }
            (q + 1) as i64
        } else {
            assert((q - 1) * per < a <= q * per) by (nonlinear_arith)
                requires
                    q * per == a,
                    per >= 1,
            {
            }
            q as i64
        }
    } else {
        let a: u64 = if total == i64::MIN {
            9223372036854775808u64
        } else {
            (-total) as u64
        };
        assert(a == -total);
        let q: u64 = a / per;
        let m: u64 = a % per;
        assert(q * per + m == a && m < per && q <= a) by (nonlinear_arith)
            requires
                per >= 1,
                q == a / per,
                m == a % per,
        {
        }
        assert((-(q as int) - 1) * per < -(a as int) <= -(q as int) * per) by (nonlinear_arith)
            requires
                q * per + m == a,
                0 <= m < per,
        {
        }
        let neg: i128 = 0i128 - (q as i128);
        neg as i64
    }
}

/// A page of entries with its numbers.
pub fn audit_page(entries: Vec<AuditEntry>, window: &PageWindow, total_count: i64) -> (r:
    AuditEntryPage)
    requires
        window.per_page >= 1,
    ensures
        r.entries@ == entries@,
        r.page == window.page,
        r.per_page == window.per_page,
        r.total_count == total_count,
        (r.total_pages - 1) * r.per_page < total_count <= r.total_pages * r.per_page,
{
    let pages = total_pages(total_count, window.per_page);
    AuditEntryPage {
        entries,
        page: window.page,
        per_page: window.per_page,
        total_count,
        total_pages: pages,
    }
}

/// The properties stored on a new audit entry.
pub open spec fn audit_properties_spec(
    user_id: i64,
    action: Seq<char>,
    target_type: Seq<char>,
    target_id: i64,
    summary: Seq<char>,
) -> Seq<(Seq<char>, Seq<char>)> {
    seq![
        ("user_id"@, decimal(user_id as int)),
        ("action"@, action),
        ("target_type"@, target_type),
        ("target_id"@, decimal(target_id as int)),
        ("summary"@, summary),
    ]
}

/// The properties of a new audit entry, in the order they are stored (the
/// entry itself is named by the action and labelled by the summary).
pub fn audit_properties(
    user_id: i64,
    action: &str,
    target_type: &str,
    target_id: i64,
    summary: &str,
) -> (r: Vec<(String, String)>)
    ensures
        pair_views(r@) == audit_properties_spec(user_id, action@, target_type@, target_id, summary@),
{
    let mut v: Vec<(String, String)> = Vec::new();
    v.push((String::from_str("user_id"), crate::text::decimal_string(user_id)));
    v.push((String::from_str("action"), text_of(chars_of(action).as_slice())));
    v.push((String::from_str("target_type"), text_of(chars_of(target_type).as_slice())));
    v.push((String::from_str("target_id"), crate::text::decimal_string(target_id)));
    v.push((String::from_str("summary"), text_of(chars_of(summary).as_slice())));
    assert(pair_views(v@) =~= audit_properties_spec(
        user_id,
        action@,
        target_type@,
        target_id,
        summary@,
    ));
    v
}

} // verus!
