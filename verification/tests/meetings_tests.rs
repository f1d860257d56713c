use ahlt::meetings::{
    scaffold_sections, minutes_properties, scaffold_section_properties,
    generate_attendance_content, generate_protocol_content, meeting_identity, meeting_properties,
    minutes_identity, MeetingDetail, MeetingFields, Minutes, PositionHolder, ProtocolStep,
};

fn detail(roll_call: &str) -> MeetingDetail {
    MeetingDetail {
        id: 1,
        name: "n".into(),
        label: "l".into(),
        meeting_date: "2024-01-01".into(),
        status: "projected".into(),
        location: "".into(),
        notes: "".into(),
        tor_id: 1,
        tor_name: "t".into(),
        tor_label: "T".into(),
        meeting_number: "".into(),
        classification: "".into(),
        vtc_details: "".into(),
        chair_user_id: "".into(),
        secretary_user_id: "".into(),
        roll_call_data: roll_call.into(),
    }
}

#[test]
fn roll_call_keeps_complete_entries() {
    let d = detail(r#"[{"username":"alice","status":"present"},{"username":"bob"},{"status":"absent","username":"carol","x":1}]"#);
    let r = d.roll_call_list();
    assert_eq!(r.len(), 2);
    assert_eq!((r[0].username.as_str(), r[0].status.as_str()), ("alice", "present"));
    assert_eq!((r[1].username.as_str(), r[1].status.as_str()), ("carol", "absent"));
}

#[test]
fn roll_call_of_invalid_json_is_empty() {
    assert!(detail("not json").roll_call_list().is_empty());
    assert!(detail("").roll_call_list().is_empty());
}

fn minutes(dist: &str, att: &str, actions: &str) -> Minutes {
    Minutes {
        id: 1,
        name: "m".into(),
        label: "M".into(),
        status: "draft".into(),
        generated_date: "".into(),
        meeting_id: 1,
        meeting_name: "n".into(),
        approved_by: "".into(),
        approved_date: "".into(),
        distribution_list: dist.into(),
        structured_attendance: att.into(),
        structured_action_items: actions.into(),
    }
}

#[test]
fn minutes_json_fields() {
    let m = minutes(
        r#"["a@x", "b@x"]"#,
        r#"[{"name":"Ann","status":"present","delegation_to":"Bo"},{"name":"Cy","status":"absent"}]"#,
        r#"[{"description":"Do","responsible":"Ann","due_date":"2024-02-01","status":"open"}]"#,
    );
    assert_eq!(m.distribution_items(), vec!["a@x".to_string(), "b@x".to_string()]);
    let att = m.attendance_list();
    assert_eq!(att.len(), 2);
    assert_eq!(att[0].delegation_to, "Bo");
    assert_eq!(att[1].delegation_to, "");
    let acts = m.action_items_list();
    assert_eq!(acts.len(), 1);
    assert_eq!(acts[0].due_date, "2024-02-01");
    assert!(minutes("x", "y", "z").distribution_items().is_empty());
}

#[test]
fn attendance_section() {
    let members = vec![
        PositionHolder { position_label: "Chair".into(), holder_label: Some("Ann".into()), membership_type: "mandatory".into() },
        PositionHolder { position_label: "Scribe".into(), holder_label: None, membership_type: "mandatory".into() },
        PositionHolder { position_label: "Guest".into(), holder_label: None, membership_type: "optional".into() },
    ];
    assert_eq!(
        generate_attendance_content(&members),
        "## Attendance\n\n- Chair — **Ann** [M]\n- Scribe — **VACANT — mandatory position** [M]\n- Guest — _Vacant_"
    );
}

#[test]
fn protocol_section() {
    let steps = vec![ProtocolStep {
        id: 1,
        name: "open".into(),
        label: "Opening".into(),
        step_type: "procedural".into(),
        sequence_order: 1,
        default_duration_minutes: Some(5),
        description: "".into(),
        is_required: true,
        responsible: "".into(),
    }];
    let text = generate_protocol_content(&steps);
    assert!(text.ends_with("\n1. Opening (5 min) *"));
}

#[test]
fn meeting_names_and_properties() {
    let (name, label) = meeting_identity("Budget Board", "2024-04-01");
    assert_eq!(name, "budget-board-2024-04-01");
    assert_eq!(label, "Budget Board — 2024-04-01");
    let (mname, _) = minutes_identity("budget-board-2024-04-01");
    assert!(mname.contains("budget-board-2024-04-01"));
    let f = MeetingFields {
        meeting_date: "2024-04-01".into(),
        location: "Room 1".into(),
        notes: "".into(),
        meeting_number: "".into(),
        classification: "".into(),
        vtc_details: "".into(),
        chair_user_id: "3".into(),
        secretary_user_id: "".into(),
    };
    let props: Vec<(String, String)> = meeting_properties(&f);
    let keys: Vec<&str> = props.iter().map(|p| p.0.as_str()).collect();
    assert_eq!(keys, vec!["meeting_date", "status", "location", "chair_user_id"]);
    assert_eq!(props[1].1, "projected");
}

#[test]
fn minutes_scaffold_has_five_sections() {
    let r = scaffold_sections("present".to_string(), "steps".to_string(), 42);
    let names: Vec<&str> = r.iter().map(|s| s.name.as_str()).collect();
    assert_eq!(
        names,
        vec!["attendance_42", "protocol_42", "agenda_items_42", "decisions_42", "action_items_42"]
    );
    let labels: Vec<&str> = r.iter().map(|s| s.label.as_str()).collect();
    assert_eq!(labels, vec!["Attendance", "Meeting Protocol", "Agenda Items", "Decisions", "Action Items"]);
    let orders: Vec<i64> = r.iter().map(|s| s.sequence_order).collect();
    assert_eq!(orders, vec![1, 2, 3, 4, 5]);
    assert_eq!(r[0].content, "present");
    assert_eq!(r[1].content, "steps");
    assert_eq!(r[2].content, "No agenda items recorded.");
    assert_eq!(r[3].content, "No decisions recorded.");
    assert_eq!(r[4].content, "No action items recorded.");
    assert_eq!(r[0].section_type, "attendance");
}

#[test]
fn generated_minutes_and_sections_properties() {
    let p = minutes_properties("2024-05-06");
    assert_eq!(
        p,
        vec![
            ("status".to_string(), "draft".to_string()),
            ("generated_date".to_string(), "2024-05-06".to_string())
        ]
    );
    let r = scaffold_sections("present".to_string(), "steps".to_string(), 7);
    let props = scaffold_section_properties(&r[3]);
    assert_eq!(
        props,
        vec![
            ("section_type".to_string(), "decisions".to_string()),
            ("sequence_order".to_string(), "4".to_string()),
            ("content".to_string(), "No decisions recorded.".to_string()),
            ("is_auto_generated".to_string(), "true".to_string())
        ]
    );
}
