//! The workflow pages and the workflow builder: reading the submitted
//! status and transition forms, and the messages shown afterwards.
use vstd::prelude::*;
use crate::text::{chars_of, text_of, chars_eq_str, push_str, parse_i64_spec, parse_i64_or_zero};

verus! {

/// Copies a string slice.
fn owned(s: &str) -> (r: String)
    ensures
        r@ == s@,
{
    text_of(chars_of(s).as_slice())
}

/// A number typed in a form: its value, or 0 when it is not a number.
pub open spec fn number_or_zero(s: Seq<char>) -> i64 {
    match parse_i64_spec(s) {
        Some(v) => v as i64,
        None => 0,
    }
}

/// A new or edited workflow status.
#[derive(Debug)]
pub struct StatusInput {
    pub status_code: String,
    pub label: String,
    pub order: i64,
    pub is_initial: bool,
    pub is_terminal: bool,
}

/// Reads the status form: the order as a number (0 when it is not one),
/// the two flags set when their field is "true". A status needs a code and
/// a label; without them the form is refused with a message.
pub fn status_input(
    status_code: &str,
    label: &str,
    order: &str,
    is_initial: &str,
    is_terminal: &str,
) -> (r: Result<StatusInput, String>)
    ensures
        (status_code@.len() == 0 || label@.len() == 0) ==> (r matches Err(m) && m@
            == "Status code and label are required."@),
        (status_code@.len() > 0 && label@.len() > 0) ==> (r matches Ok(s) && s.status_code@
            == status_code@ && s.label@ == label@ && s.order == number_or_zero(order@)
            && s.is_initial == (is_initial@ == "true"@) && s.is_terminal == (is_terminal@
            == "true"@)),
{
    if status_code.is_empty() || label.is_empty() {
        return Err(String::from_str("Status code and label are required."));
    }
    let i = chars_of(is_initial);
    let t = chars_of(is_terminal);
    Ok(
        StatusInput {
            status_code: owned(status_code),
            label: owned(label),
            order: parse_i64_or_zero(order),
            is_initial: chars_eq_str(i.as_slice(), "true"),
            is_terminal: chars_eq_str(t.as_slice(), "true"),
        },
    )
}

/// A new workflow transition.
#[derive(Debug)]
pub struct TransitionInput {
    pub from_status_id: i64,
    pub to_status_id: i64,
    pub label: String,
    pub required_permission: String,
    pub requires_outcome: bool,
    pub condition: String,
}

/// Reads the transition form: the status ids as numbers (0 when they are
/// not), the outcome flag set when its field is "true". A transition needs
/// both statuses and a label; without them the form is refused.
pub fn transition_input(
    from_status_id: &str,
    to_status_id: &str,
    label: &str,
    required_permission: &str,
    requires_outcome: &str,
    condition: &str,
) -> (r: Result<TransitionInput, String>)
    ensures
        ({
            let from = number_or_zero(from_status_id@);
            let to = number_or_zero(to_status_id@);
            &&& (from == 0 || to == 0 || label@.len() == 0) ==> (r matches Err(m) && m@
                == "From status, to status, and label are required."@)
            &&& (from != 0 && to != 0 && label@.len() > 0) ==> (r matches Ok(t) && t.from_status_id
                == from && t.to_status_id == to && t.label@ == label@ && t.required_permission@
                == required_permission@ && t.requires_outcome == (requires_outcome@ == "true"@)
                && t.condition@ == condition@)
        }),
{
    let from = parse_i64_or_zero(from_status_id);
    let to = parse_i64_or_zero(to_status_id);
    if from == 0 || to == 0 || label.is_empty() {
        return Err(String::from_str("From status, to status, and label are required."));
    }
    let o = chars_of(requires_outcome);
    Ok(
        TransitionInput {
            from_status_id: from,
            to_status_id: to,
            label: owned(label),
            required_permission: owned(required_permission),
            requires_outcome: chars_eq_str(o.as_slice(), "true"),
            condition: owned(condition),
        },
    )
}

/// Where the builder returns after a change: the page of the scope.
pub fn builder_location(scope: &str) -> (r: String)
    ensures
        r@ == "/workflow/builder/"@ + scope@,
{
    let mut v = chars_of("/workflow/builder/");
    push_str(&mut v, scope);
    text_of(v.as_slice())
}

/// `<noun> '<label>' <done>.`, the flash message after a change.
pub fn builder_flash(noun: &str, label: &str, done: &str) -> (r: String)
    ensures
        r@ == noun@ + " '"@ + label@ + "' "@ + done@ + "."@,
{
    let mut v = chars_of(noun);
    push_str(&mut v, " '");
    push_str(&mut v, label);
    push_str(&mut v, "' ");
    push_str(&mut v, done);
    push_str(&mut v, ".");
    text_of(v.as_slice())
}

/// `<action> workflow <item> '<label>'`, the summary written to the audit
/// log.
pub fn builder_summary(action: &str, item: &str, label: &str) -> (r: String)
    ensures
        r@ == action@ + " workflow "@ + item@ + " '"@ + label@ + "'"@,
{
    let mut v = chars_of(action);
    push_str(&mut v, " workflow ");
    push_str(&mut v, item);
    push_str(&mut v, " '");
    push_str(&mut v, label);
    push_str(&mut v, "'");
    text_of(v.as_slice())
}

/// The message when a status cannot be deleted.
pub fn delete_refused(error_text: &str) -> (r: String)
    ensures
        r@ == "Cannot delete: "@ + error_text@,
{
    let mut v = chars_of("Cannot delete: ");
    push_str(&mut v, error_text);
    text_of(v.as_slice())
}

/// The tab shown: the requested one, or "suggestions".
pub fn active_tab(tab: Option<&str>) -> (r: String)
    ensures
        tab matches Some(t) ==> r@ == t@,
        tab is None ==> r@ == "suggestions"@,
{
    match tab {
        Some(t) => owned(t),
        None => String::from_str("suggestions"),
    }
}

/// Whose ToRs the workflow index covers: every ToR for a workflow manager
/// (`None`), otherwise those of the user.
pub fn index_scope(manages_workflow: bool, user_id: i64) -> (r: Option<i64>)
    ensures
        manages_workflow ==> r is None,
        !manages_workflow ==> r == Some(user_id),
{
    if manages_workflow {
        None
    } else {
        Some(user_id)
    }
}

} // verus!
