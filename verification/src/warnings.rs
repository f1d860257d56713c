//! Warnings: the list filters, receipts and forwarding, and the messages
//! pushed to connected users.
use vstd::prelude::*;
use crate::text::{chars_of, chars_eq_str, text_of, push_chars, decimal, decimal_chars};
use crate::json_text::{
    JsonScalar, JsonScalarView, json_object_text, member_views, object_text,
};

verus! {

/// The form that acts on a receipt.
#[derive(Debug)]
pub struct ReceiptForm {
    pub csrf_token: String,
    pub receipt_id: i64,
}

/// The form that forwards a warning to another user.
#[derive(Debug)]
pub struct ForwardForm {
    pub csrf_token: String,
    pub target_user_id: i64,
}

/// The query of the warnings list.
#[derive(Debug)]
pub struct WarningQuery {
    pub page: Option<i64>,
    pub per_page: Option<i64>,
    pub category: Option<String>,
    pub severity: Option<String>,
    pub show_read: Option<String>,
    pub show_deleted: Option<String>,
}

/// The list settings read from the query.
#[derive(Debug)]
pub struct WarningListSettings {
    pub page: i64,
    pub per_page: i64,
    pub show_read: bool,
    pub show_deleted: bool,
}

/// Whether an optional field holds "true".
fn is_true(v: &Option<String>) -> (r: bool)
    ensures
        r == (v matches Some(s) && s@ == "true"@),
{
    match v {
        Some(s) => {
            let c = chars_of(s.as_str());
            chars_eq_str(c.as_slice(), "true")
        },
        None => false,
    }
}

/// The list settings: page 1 and 25 per page unless asked otherwise, and
/// read or deleted warnings shown only when the query says "true".
pub fn warning_list_settings(q: &WarningQuery) -> (r: WarningListSettings)
    ensures
        r.page == q.page.unwrap_or(1),
        r.per_page == q.per_page.unwrap_or(25),
        r.show_read == (q.show_read matches Some(s) && s@ == "true"@),
        r.show_deleted == (q.show_deleted matches Some(s) && s@ == "true"@),
{
    WarningListSettings {
        page: match q.page {
            Some(p) => p,
            None => 1,
        },
        per_page: match q.per_page {
            Some(p) => p,
            None => 25,
        },
        show_read: is_true(&q.show_read),
        show_deleted: is_true(&q.show_deleted),
    }
}

/// Viewing a warning marks the user's receipt read when it is unread; a
/// user without a receipt (id 0) changes nothing.
pub fn marks_read_on_view(receipt_id: i64, current_status: &str) -> (r: bool)
    ensures
        r == (receipt_id > 0 && current_status@ == "unread"@),
{
    if receipt_id <= 0 {
        return false;
    }
    let c = chars_of(current_status);
    chars_eq_str(c.as_slice(), "unread")
}

/// The page of a warning, where forwarding returns.
pub fn warning_location(warning_id: i64) -> (r: String)
    ensures
        r@ == "/warnings/"@ + decimal(warning_id as int),
{
    let mut v = chars_of("/warnings/");
    let d = decimal_chars(warning_id);
    push_chars(&mut v, d.as_slice());
    text_of(v.as_slice())
}

/// The members of the message about a new warning.
pub open spec fn new_warning_members(
    warning_id: i64,
    severity: Seq<char>,
    title: Seq<char>,
    unread_count: i64,
) -> Seq<(Seq<char>, JsonScalarView)> {
    seq![
        ("type"@, JsonScalarView::Text("new_warning"@)),
        ("warning_id"@, JsonScalarView::Integer(warning_id)),
        ("severity"@, JsonScalarView::Text(severity)),
        ("title"@, JsonScalarView::Text(title)),
        ("unread_count"@, JsonScalarView::Integer(unread_count)),
    ]
}

/// Copies a string slice.
fn owned(s: &str) -> (r: String)
    ensures
        r@ == s@,
{
    text_of(chars_of(s).as_slice())
}

/// The message pushed to a connected user about a new warning, with the
/// user's unread count: a JSON object of type "new_warning".
pub fn new_warning_notice(warning_id: i64, severity: &str, title: &str, unread_count: i64) -> (r:
    String)
    ensures
        r@ == json_object_text(new_warning_members(warning_id, severity@, title@, unread_count)),
{
    let mut m: Vec<(String, JsonScalar)> = Vec::new();
    m.push((String::from_str("type"), JsonScalar::Text(String::from_str("new_warning"))));
    m.push((String::from_str("warning_id"), JsonScalar::Integer(warning_id)));
    m.push((String::from_str("severity"), JsonScalar::Text(owned(severity))));
    m.push((String::from_str("title"), JsonScalar::Text(owned(title))));
    m.push((String::from_str("unread_count"), JsonScalar::Integer(unread_count)));
    assert(member_views(m@) =~= new_warning_members(warning_id, severity@, title@, unread_count));
    object_text(&m)
}

/// The members of the message about a changed unread count.
pub open spec fn count_update_members(unread_count: i64) -> Seq<(Seq<char>, JsonScalarView)> {
    seq![
        ("type"@, JsonScalarView::Text("count_update"@)),
        ("unread_count"@, JsonScalarView::Integer(unread_count)),
    ]
}

/// The message pushed to a connected user when their unread count changed:
/// a JSON object of type "count_update".
pub fn count_update_notice(unread_count: i64) -> (r: String)
    ensures
        r@ == json_object_text(count_update_members(unread_count)),
{
    let mut m: Vec<(String, JsonScalar)> = Vec::new();
    m.push((String::from_str("type"), JsonScalar::Text(String::from_str("count_update"))));
    m.push((String::from_str("unread_count"), JsonScalar::Integer(unread_count)));
    assert(member_views(m@) =~= count_update_members(unread_count));
    object_text(&m)
}

} // verus!
