use ahlt::records::{
    agenda_point_detail, agenda_point_list_item, cross_tor_suggestion_item, cross_tor_tail,
    AgendaPointRow, CrossTorSuggestionRow,
    agenda_point_name, agenda_point_properties, coa_name, coa_properties, coa_section_from_row,
    coa_section_name, decision_name, decision_properties, document_filter, document_properties,
    make_preview, name_from_title, opinion_counts, opinion_name, opinion_properties,
    opinion_relations, proposal_from_suggestion, proposal_list_item, proposal_properties,
    proposal_reason_change, suggestion_list_item, suggestion_name, suggestion_properties,
    suggestion_status_properties, AgendaPointFields, ProposalRow, ReasonChange, SectionRow,
    SuggestionDetail, SuggestionRow,
};

fn pairs(v: &[(String, String)]) -> Vec<(&str, &str)> {
    v.iter().map(|(k, v)| (k.as_str(), v.as_str())).collect()
}

#[test]
fn previews_cut_long_texts() {
    assert_eq!(make_preview("hello world", 5), "hello...");
    assert_eq!(make_preview("hi", 5), "hi");
    assert_eq!(make_preview("exact", 5), "exact");
    // the cut counts characters, not bytes
    assert_eq!(make_preview("éa", 2), "éa");
    assert_eq!(make_preview("ééé", 2), "éé...");
}

#[test]
fn names_from_titles() {
    assert_eq!(name_from_title("Budget Review 2024!"), "budget_review_2024");
    assert_eq!(name_from_title("Ünïcode Title"), "ünïcode_title");
    assert_eq!(name_from_title("a-b c"), "ab_c");
}

#[test]
fn suggestion_records() {
    assert_eq!(suggestion_name("2024-01-15", 3), "suggestion_2024_01_15_3");
    assert_eq!(
        pairs(&suggestion_properties("Do X", "2024-01-15", 12)),
        vec![("description", "Do X"), ("submitted_date", "2024-01-15"), ("status", "open"), ("submitted_by_id", "12")]
    );
    assert_eq!(pairs(&suggestion_status_properties("accepted", None)), vec![("status", "accepted")]);
    assert_eq!(
        pairs(&suggestion_status_properties("rejected", Some("dup"))),
        vec![("status", "rejected"), ("rejection_reason", "dup")]
    );
}

#[test]
fn suggestion_rows_become_list_items() {
    let row = SuggestionRow {
        id: 1,
        description: "x".repeat(120),
        submitted_date: "d".into(),
        status: "open".into(),
        submitted_by_id: "not a number".into(),
        submitted_by_name: "n".into(),
        rejection_reason: None,
        spawned_proposal_id: Some(4),
    };
    let item = suggestion_list_item(row);
    assert_eq!(item.submitted_by_id, 0);
    assert_eq!(item.description_preview, format!("{}...", "x".repeat(100)));
    assert_eq!(item.spawned_proposal_id, Some(4));
}

#[test]
fn proposal_records() {
    assert_eq!(
        pairs(&proposal_properties("T", "D", "R", "2024-02-02", 5)),
        vec![("title", "T"), ("description", "D"), ("rationale", "R"), ("submitted_date", "2024-02-02"), ("status", "draft"), ("submitted_by_id", "5")]
    );
    assert!(matches!(proposal_reason_change("rejected", None), ReasonChange::Keep));
    assert!(matches!(proposal_reason_change("approved", None), ReasonChange::Clear));
    assert!(matches!(proposal_reason_change("approved", Some("old reason")), ReasonChange::Clear));
    match proposal_reason_change("rejected", Some("too costly")) {
        ReasonChange::Store(r) => assert_eq!(r, "too costly"),
        _ => panic!("expected the reason to be stored"),
    }
    let item = proposal_list_item(ProposalRow {
        id: 3,
        title: "T".into(),
        submitted_date: "d".into(),
        status: "draft".into(),
        submitted_by_id: "42".into(),
        submitted_by_name: "N".into(),
        rejection_reason: None,
        related_suggestion_id: None,
    });
    assert_eq!(item.submitted_by_id, 42);
}

#[test]
fn proposals_from_suggestions_take_a_short_title() {
    let s = SuggestionDetail {
        id: 9,
        description: "ab".repeat(80),
        submitted_by_id: 2,
        submitted_by_name: "N".into(),
        submitted_date: "2024-05-05".into(),
        status: "accepted".into(),
        rejection_reason: None,
        spawned_proposal_id: None,
    };
    let p = proposal_from_suggestion(&s);
    assert_eq!(p.title.chars().count(), 100);
    assert_eq!(p.description, s.description);
    assert_eq!(p.rationale, "Auto-created from accepted suggestion");
    assert_eq!(p.related_suggestion_id, Some(9));
}

#[test]
fn agenda_point_records() {
    assert_eq!(agenda_point_name("2024-03-10", 4), "agenda_2024_03_10_4");
    let f = AgendaPointFields {
        tor_id: 4,
        title: "T".into(),
        description: "D".into(),
        item_type: "decision".into(),
        scheduled_date: "2024-03-10".into(),
        time_allocation_minutes: 15,
        created_by_id: 2,
        created_date: "2024-03-01T10:00:00".into(),
        presenter: "".into(),
        priority: "high".into(),
        pre_read_url: "".into(),
    };
    let v = agenda_point_properties(&f);
    assert_eq!(
        pairs(&v),
        vec![
            ("title", "T"), ("description", "D"), ("item_type", "decision"), ("scheduled_date", "2024-03-10"),
            ("time_allocation_minutes", "15"), ("created_by", "2"), ("created_date", "2024-03-01T10:00:00"),
            ("status", "scheduled"), ("tor_id", "4"), ("priority", "high"),
        ]
    );
}

#[test]
fn coa_records() {
    assert_eq!(coa_name("My COA", "2024-01-01T10:20:30"), "coa_my_coa_2024-01-01T10_20_30");
    assert_eq!(coa_section_name(5, 2, "Intro Part"), "coa_section_5_2_intro_part");
    assert_eq!(
        pairs(&coa_properties("T", "D", "simple", 3, "now")),
        vec![("title", "T"), ("description", "D"), ("coa_type", "simple"), ("created_by", "3"), ("created_date", "now")]
    );
    let s = coa_section_from_row(SectionRow { id: 1, title: "t".into(), content: "c".into(), order_num: "x".into() }, vec![]);
    assert_eq!(s.order, 0);
    let s = coa_section_from_row(SectionRow { id: 1, title: "t".into(), content: "c".into(), order_num: "3".into() }, vec![]);
    assert_eq!(s.order, 3);
}

#[test]
fn document_records() {
    let f = document_filter(Some(3), Some("plan"));
    assert_eq!(f.clause, " AND r.target_id = $1 AND (p_title.value LIKE $2 OR p_type.value LIKE $3)");
    assert_eq!(f.search_pattern, Some("%plan%".to_string()));
    let f = document_filter(None, Some("q"));
    assert_eq!(f.clause, " AND (p_title.value LIKE $1 OR p_type.value LIKE $2)");
    let f = document_filter(Some(1), None);
    assert_eq!(f.clause, " AND r.target_id = $1");
    assert!(f.search_pattern.is_none());
    assert_eq!(
        pairs(&document_properties("T", "memo", "B", 8, "2024-06-01")),
        vec![("title", "T"), ("doc_type", "memo"), ("body", "B"), ("created_by_id", "8"), ("created_date", "2024-06-01")]
    );
}

#[test]
fn opinion_and_decision_records() {
    assert_eq!(opinion_name(7, 9), "opinion_ap7_by9");
    assert_eq!(decision_name(7, 1), "decision_ap7_by1");
    assert_eq!(
        pairs(&opinion_properties(7, 9, 3, "ok", "2024-01-01 10:00:00")),
        vec![("agenda_point_id", "7"), ("recorded_by_id", "9"), ("preferred_coa_id", "3"), ("commentary", "ok"), ("created_date", "2024-01-01 10:00:00")]
    );
    assert_eq!(
        pairs(&decision_properties(7, 1, 3, "best", "now")),
        vec![("agenda_point_id", "7"), ("decided_by_id", "1"), ("selected_coa_id", "3"), ("decision_rationale", "best"), ("decided_date", "now")]
    );
    let rels = opinion_relations(50, 7, 9, 3);
    assert_eq!(rels[0], ("opinion_by".to_string(), 9, 50));
    assert_eq!(rels[1], ("opinion_on".to_string(), 50, 7));
    assert_eq!(rels[2], ("prefers_coa".to_string(), 50, 3));
    assert_eq!(opinion_counts(&vec![(1, 4), (2, 5_000_000_000)]), vec![(1, 4), (2, 705_032_704)]);
}

fn agenda_row(tor: &str, by: &str, minutes: &str) -> AgendaPointRow {
    AgendaPointRow {
        id: 9,
        title: "Budget".to_string(),
        description: "Review".to_string(),
        status: "scheduled".to_string(),
        item_type: "decision".to_string(),
        tor_id: tor.to_string(),
        created_by: by.to_string(),
        created_date: "2024-02-01".to_string(),
        scheduled_date: "2024-03-01".to_string(),
        time_allocation_minutes: minutes.to_string(),
    }
}

#[test]
fn agenda_point_rows_read_their_numbers() {
    let d = agenda_point_detail(agenda_row("12", "7", "15"), vec![3, 4]);
    assert_eq!(d.id, 9);
    assert_eq!(d.tor_id, 12);
    assert_eq!(d.created_by, 7);
    assert_eq!(d.time_allocation_minutes, 15);
    assert_eq!(d.coa_ids, vec![3, 4]);
    assert_eq!(d.item_type, "decision");
    assert_eq!(d.scheduled_date, "2024-03-01");

    let d = agenda_point_detail(agenda_row("x", "", "ten"), vec![]);
    assert_eq!(d.tor_id, 0);
    assert_eq!(d.created_by, 0);
    assert_eq!(d.time_allocation_minutes, 0);
    assert!(d.coa_ids.is_empty());

    let item = agenda_point_list_item(agenda_row("-3", "1", "5"));
    assert_eq!(item.id, 9);
    assert_eq!(item.tor_id, -3);
    assert_eq!(item.title, "Budget");
    assert_eq!(item.status, "scheduled");
}

#[test]
fn cross_tor_suggestions_carry_their_tor() {
    let row = SuggestionRow {
        id: 5,
        description: "Short idea".to_string(),
        submitted_date: "2024-01-02".to_string(),
        status: "open".to_string(),
        submitted_by_id: "41".to_string(),
        submitted_by_name: "Bea".to_string(),
        rejection_reason: None,
        spawned_proposal_id: Some(8),
    };
    let item = cross_tor_suggestion_item(CrossTorSuggestionRow {
        tor_id: 2,
        tor_name: "Board".to_string(),
        row,
    });
    assert_eq!(item.tor_id, 2);
    assert_eq!(item.tor_name, "Board");
    assert_eq!(item.id, 5);
    assert_eq!(item.description_preview, "Short idea");
    assert_eq!(item.submitted_by_id, 41);
    assert_eq!(item.spawned_proposal_id, Some(8));
}

#[test]
fn cross_tor_query_tails() {
    assert_eq!(cross_tor_tail(false, "e.id DESC"), " ORDER BY tor.label ASC, e.id DESC");
    let t = cross_tor_tail(true, "e.id DESC");
    assert!(t.starts_with(" AND EXISTS (SELECT 1 FROM relations r_fills"));
    assert!(t.contains("r_fills.source_id = $1"));
    assert!(t.ends_with(") ORDER BY tor.label ASC, e.id DESC"));
}
