//! Administration records: roles and permissions, settings, presentation
//! templates, meeting protocol steps and plain entities.
use vstd::prelude::*;
use crate::text::{chars_of, text_of, decimal, decimal_string};
use crate::props::pair_views;
use crate::meetings::when_filled;

verus! {

/// A plain entity row.
#[derive(Debug)]
pub struct Entity {
    pub id: i64,
    pub entity_type: String,
    pub name: String,
    pub label: String,
    pub sort_order: i64,
    pub is_active: bool,
    pub created_at: String,
    pub updated_at: String,
}

/// A role for dropdowns and display.
#[derive(Debug)]
pub struct RoleDisplay {
    pub id: i64,
    pub name: String,
    pub label: String,
}

/// A role on the roles list page, with its counts and description.
#[derive(Debug)]
pub struct RoleListItem {
    pub id: i64,
    pub name: String,
    pub label: String,
    pub description: String,
    pub user_count: i64,
    pub permission_count: i64,
}

/// A role as edited.
#[derive(Debug)]
pub struct RoleDetail {
    pub id: i64,
    pub name: String,
    pub label: String,
    pub description: String,
}

/// A permission with its checked state for the role form.
#[derive(Debug)]
pub struct PermissionCheckbox {
    pub id: i64,
    pub code: String,
    pub label: String,
    pub group_name: String,
    pub checked: bool,
}

/// A user assigned to a role.
#[derive(Debug)]
pub struct RoleMember {
    pub user_id: i64,
    pub username: String,
    pub display_name: String,
}

/// A permission for the matrix display.
#[derive(Debug)]
pub struct PermissionInfo {
    pub id: i64,
    pub code: String,
    pub label: String,
    pub group_name: String,
    pub description: String,
}

/// A setting for display and editing.
#[derive(Debug)]
pub struct SettingDisplay {
    pub id: i64,
    pub name: String,
    pub label: String,
    pub value: String,
    pub description: String,
    /// "text", "number" or "boolean".
    pub setting_type: String,
}

/// A presentation template of a ToR.
#[derive(Debug)]
pub struct PresentationTemplate {
    pub id: i64,
    pub name: String,
    pub label: String,
    pub description: String,
    pub slide_count: i64,
}

/// A slide of a presentation template.
#[derive(Debug)]
pub struct TemplateSlide {
    pub id: i64,
    pub name: String,
    pub label: String,
    pub slide_order: i64,
    /// What this slide should contain.
    pub required_content: String,
    pub notes: String,
}

/// Copies a string slice.
fn owned(s: &str) -> (r: String)
    ensures
        r@ == s@,
{
    text_of(chars_of(s).as_slice())
}

/// Appends the pair when the value is not empty.
fn push_filled(out: &mut Vec<(String, String)>, key: &str, value: String)
    ensures
        pair_views(final(out)@) == pair_views(old(out)@) + when_filled(key@, value@),
{
    let ghost before = out@;
    let ghost v = value@;
    if !value.as_str().is_empty() {
        out.push((owned(key), value));
    }
    assert(pair_views(out@) =~= pair_views(before) + when_filled(key@, v));
}

/// The checkbox of a permission: checked when the role holds it (the
/// store answers 1).
pub fn permission_checkbox(id: i64, code: String, label: String, group_name: String, checked: i64) -> (r:
    PermissionCheckbox)
    ensures
        r.id == id && r.code == code && r.label == label && r.group_name == group_name,
        r.checked == (checked == 1),
{
    PermissionCheckbox { id, code, label, group_name, checked: checked == 1 }
}

/// The description property of a new role or template: stored only when
/// not empty.
pub fn description_property(description: &str) -> (r: Vec<(String, String)>)
    ensures
        pair_views(r@) == when_filled("description"@, description@),
{
    let mut v: Vec<(String, String)> = Vec::new();
    assert(pair_views(v@) =~= Seq::empty());
    push_filled(&mut v, "description", owned(description));
    assert(pair_views(v@) =~= when_filled("description"@, description@));
    v
}

/// The `has_permission` relations of a role as (source, target) pairs: the
/// role to each selected permission, in order.
pub fn role_grants(role_id: i64, permission_ids: &[i64]) -> (r: Vec<(i64, i64)>)
    ensures
        r@.len() == permission_ids@.len(),
        forall|i: int|
            0 <= i < r@.len() ==> (#[trigger] r@[i]) == (role_id, permission_ids@[i]),
{
    let mut out: Vec<(i64, i64)> = Vec::new();
    let n = permission_ids.len();
    for i in 0..n
        invariant
            n == permission_ids@.len(),
            out@.len() == i,
            forall|j: int| 0 <= j < i ==> (#[trigger] out@[j]) == (role_id, permission_ids@[j]),
    {
        out.push((role_id, permission_ids[i]));
    }
    out
}

/// "true" or "false".
pub open spec fn flag_text(b: bool) -> Seq<char> {
    if b {
        "true"@
    } else {
        "false"@
    }
}

/// The fields of a new protocol step.
#[derive(Debug)]
pub struct StepFields {
    pub step_type: String,
    pub sequence_order: i64,
    pub description: String,
    pub is_required: bool,
    pub responsible: String,
    pub default_duration_minutes: Option<i64>,
}

/// The properties stored on a new protocol step: type, order, description,
/// the required flag and the responsible, each only when not empty, then
/// the default duration when given.
pub open spec fn step_stored(f: StepFields) -> Seq<(Seq<char>, Seq<char>)> {
    when_filled("step_type"@, f.step_type@) + when_filled(
        "sequence_order"@,
        decimal(f.sequence_order as int),
    ) + when_filled("description"@, f.description@) + when_filled(
        "is_required"@,
        flag_text(f.is_required),
    ) + when_filled("responsible"@, f.responsible@) + match f.default_duration_minutes {
        Some(d) => seq![("default_duration_minutes"@, decimal(d as int))],
        None => Seq::empty(),
    }
}

/// The properties to store for a new protocol step (see `step_stored`).
pub fn step_properties(f: &StepFields) -> (r: Vec<(String, String)>)
    ensures
        pair_views(r@) == step_stored(*f),
{
    let mut v: Vec<(String, String)> = Vec::new();
    assert(pair_views(v@) =~= Seq::empty());
    push_filled(&mut v, "step_type", owned(f.step_type.as_str()));
    push_filled(&mut v, "sequence_order", decimal_string(f.sequence_order));
    push_filled(&mut v, "description", owned(f.description.as_str()));
    let flag = if f.is_required {
        String::from_str("true")
    } else {
        String::from_str("false")
    };
    push_filled(&mut v, "is_required", flag);
    push_filled(&mut v, "responsible", owned(f.responsible.as_str()));
    let ghost before = v@;
    match f.default_duration_minutes {
        Some(d) => {
            v.push((String::from_str("default_duration_minutes"), decimal_string(d)));
        },
        None => {},
    }
    assert(pair_views(v@) =~= step_stored(*f));
    v
}

/// The properties stored on a new slide: order, required content and
/// notes, each only when not empty.
pub fn slide_properties(slide_order: i64, required_content: &str, notes: &str) -> (r: Vec<
    (String, String),
>)
    ensures
        pair_views(r@) == when_filled("slide_order"@, decimal(slide_order as int)) + when_filled(
            "required_content"@,
            required_content@,
        ) + when_filled("notes"@, notes@),
{
    let mut v: Vec<(String, String)> = Vec::new();
    assert(pair_views(v@) =~= Seq::empty());
    push_filled(&mut v, "slide_order", decimal_string(slide_order));
    push_filled(&mut v, "required_content", owned(required_content));
    push_filled(&mut v, "notes", owned(notes));
    assert(pair_views(v@) =~= when_filled("slide_order"@, decimal(slide_order as int))
        + when_filled("required_content"@, required_content@) + when_filled("notes"@, notes@));
    v
}

/// The writes that swap the order values of two items: `a` gets the value
/// read for `b`, then `b` the value read for `a`.
pub fn swap_orders(a_id: i64, b_id: i64, order_a: String, order_b: String) -> (r: Vec<
    (i64, String),
>)
    ensures
        r@ == seq![(a_id, order_b), (b_id, order_a)],
{
    let mut v: Vec<(i64, String)> = Vec::new();
    v.push((a_id, order_b));
    v.push((b_id, order_a));
    v
}

/// The order values of the items after applying `writes` in turn, each
/// write setting the value of one item.
pub open spec fn apply_writes(writes: Seq<(i64, String)>, orders: Map<i64, String>) -> Map<
    i64,
    String,
>
    decreases writes.len(),
{
    if writes.len() == 0 {
        orders
    } else {
        let w = writes.last();
        apply_writes(writes.drop_last(), orders).insert(w.0, w.1)
    }
}

/// Swapping the order values of two items, each read from the store,
/// exchanges them and changes no other item; swapping again with the values
/// then read restores every value. This holds for one item swapped with
/// itself too.
pub proof fn lemma_swap_orders_exchanges(a_id: i64, b_id: i64, orders: Map<i64, String>)
    requires
        orders.dom().contains(a_id),
        orders.dom().contains(b_id),
    ensures
        ({
            let once = apply_writes(seq![(a_id, orders[b_id]), (b_id, orders[a_id])], orders);
            &&& once.dom() == orders.dom()
            &&& once[a_id] == orders[b_id]
            &&& once[b_id] == orders[a_id]
            &&& forall|k: i64| k != a_id && k != b_id ==> #[trigger] once.index(k) == orders.index(k)
            &&& apply_writes(seq![(a_id, once[b_id]), (b_id, once[a_id])], once) == orders
        }),
{
    reveal_with_fuel(apply_writes, 3);
    let w1 = seq![(a_id, orders[b_id]), (b_id, orders[a_id])];
    assert(w1.drop_last() =~= seq![(a_id, orders[b_id])]);
    assert(seq![(a_id, orders[b_id])].drop_last() =~= Seq::<(i64, String)>::empty());
    let once = apply_writes(w1, orders);
    assert(once == orders.insert(a_id, orders[b_id]).insert(b_id, orders[a_id]));
    assert(once.dom() =~= orders.dom());
    let w2 = seq![(a_id, once[b_id]), (b_id, once[a_id])];
    assert(w2.drop_last() =~= seq![(a_id, once[b_id])]);
    assert(seq![(a_id, once[b_id])].drop_last() =~= Seq::<(i64, String)>::empty());
    assert(apply_writes(w2, once) =~= orders);
}

} // verus!
