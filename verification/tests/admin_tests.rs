use ahlt::admin::{
    description_property, permission_checkbox, role_grants, slide_properties, step_properties,
    swap_orders, StepFields,
};
use ahlt::warnings::{
    count_update_notice, marks_read_on_view, new_warning_notice, warning_list_settings,
    warning_location, WarningQuery,
};
use ahlt::workflow::{
    active_tab, builder_flash, builder_location, builder_summary, delete_refused, index_scope,
    status_input, transition_input,
};

fn pairs(v: &[(String, String)]) -> Vec<(&str, &str)> {
    v.iter().map(|(k, v)| (k.as_str(), v.as_str())).collect()
}

#[test]
fn role_records() {
    assert!(permission_checkbox(1, "c".into(), "l".into(), "g".into(), 1).checked);
    assert!(!permission_checkbox(1, "c".into(), "l".into(), "g".into(), 0).checked);
    assert!(description_property("").is_empty());
    assert_eq!(pairs(&description_property("D")), vec![("description", "D")]);
    assert_eq!(role_grants(4, &[7, 8]), vec![(4, 7), (4, 8)]);
}

#[test]
fn protocol_step_properties_skip_empty_values() {
    let f = StepFields {
        step_type: "procedural".into(),
        sequence_order: 2,
        description: "".into(),
        is_required: false,
        responsible: "".into(),
        default_duration_minutes: Some(10),
    };
    assert_eq!(
        pairs(&step_properties(&f)),
        vec![("step_type", "procedural"), ("sequence_order", "2"), ("is_required", "false"), ("default_duration_minutes", "10")]
    );
}

#[test]
fn slide_properties_skip_empty_values() {
    assert_eq!(pairs(&slide_properties(1, "", "n")), vec![("slide_order", "1"), ("notes", "n")]);
}

#[test]
fn swapping_orders_exchanges_values() {
    assert_eq!(
        swap_orders(1, 2, "10".into(), "20".into()),
        vec![(1, "20".to_string()), (2, "10".to_string())]
    );
}

#[test]
fn status_form() {
    assert_eq!(status_input("", "L", "1", "true", "").unwrap_err(), "Status code and label are required.");
    let s = status_input("draft", "Draft", "x", "true", "no").unwrap();
    assert_eq!((s.order, s.is_initial, s.is_terminal), (0, true, false));
    assert_eq!(s.label, "Draft");
}

#[test]
fn transition_form() {
    assert_eq!(
        transition_input("0", "2", "Go", "", "", "").unwrap_err(),
        "From status, to status, and label are required."
    );
    assert!(transition_input("1", "2", "", "", "", "").is_err());
    let t = transition_input("1", "2", "Go", "p.x", "true", "c").unwrap();
    assert_eq!((t.from_status_id, t.to_status_id, t.requires_outcome), (1, 2, true));
    assert_eq!(t.required_permission, "p.x");
}

#[test]
fn builder_messages() {
    assert_eq!(builder_location("proposal"), "/workflow/builder/proposal");
    assert_eq!(builder_flash("Status", "Draft", "created"), "Status 'Draft' created.");
    assert_eq!(builder_summary("Created", "status", "Draft"), "Created workflow status 'Draft'");
    assert_eq!(delete_refused("in use"), "Cannot delete: in use");
    assert_eq!(active_tab(None), "suggestions");
    assert_eq!(active_tab(Some("proposals")), "proposals");
    assert_eq!(index_scope(true, 5), None);
    assert_eq!(index_scope(false, 5), Some(5));
}

#[test]
fn warning_list_defaults() {
    let q = WarningQuery { page: None, per_page: None, category: None, severity: None, show_read: Some("true".into()), show_deleted: None };
    let s = warning_list_settings(&q);
    assert_eq!((s.page, s.per_page, s.show_read, s.show_deleted), (1, 25, true, false));
}

#[test]
fn viewing_marks_unread_receipts_read() {
    assert!(marks_read_on_view(3, "unread"));
    assert!(!marks_read_on_view(3, "read"));
    assert!(!marks_read_on_view(0, "unread"));
    assert_eq!(warning_location(12), "/warnings/12");
}

#[test]
fn pushed_messages_are_json_objects() {
    let m: serde_json::Value = serde_json::from_str(&new_warning_notice(5, "high", "Fire", 2)).unwrap();
    assert_eq!(m["type"], "new_warning");
    assert_eq!(m["warning_id"], 5);
    assert_eq!(m["severity"], "high");
    assert_eq!(m["title"], "Fire");
    assert_eq!(m["unread_count"], 2);
    let c: serde_json::Value = serde_json::from_str(&count_update_notice(0)).unwrap();
    assert_eq!(c["type"], "count_update");
    assert_eq!(c["unread_count"], 0);
}
