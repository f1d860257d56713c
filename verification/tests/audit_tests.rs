use ahlt::audit::{
    audit_count_sql, audit_filter, audit_page, audit_page_sql, audit_properties, page_window,
    recent_audit_sql, total_pages,
};

#[test]
fn page_window_clamps_page_and_size() {
    let w = page_window(0, 500);
    assert_eq!((w.page, w.per_page, w.offset), (1, 100, 0));
    let w = page_window(3, 10);
    assert_eq!((w.page, w.per_page, w.offset), (3, 10, 20));
    let w = page_window(2, 0);
    assert_eq!((w.page, w.per_page, w.offset), (2, 1, 1));
}

#[test]
fn filter_numbers_its_parameters() {
    let f = audit_filter(Some("  bob "), Some("user."), Some("all"));
    assert_eq!(
        f.clause,
        " AND (u.name LIKE $1 OR p_summary.value LIKE $2) AND p_action.value LIKE $3"
    );
    assert_eq!(f.params, vec!["%bob%".to_string(), "%bob%".to_string(), "user.%".to_string()]);

    let f = audit_filter(Some("   "), Some("all"), Some("user"));
    assert_eq!(f.clause, " AND p_target_type.value = $1");
    assert_eq!(f.params, vec!["user".to_string()]);

    let f = audit_filter(None, None, None);
    assert_eq!(f.clause, "");
    assert!(f.params.is_empty());
}

#[test]
fn page_query_binds_limit_and_offset_after_filters() {
    let f = audit_filter(Some("x"), Some("a"), None);
    let sql = audit_page_sql(&f);
    assert!(sql.starts_with("SELECT e.id, COALESCE(p_user_id.value, '0')::BIGINT AS user_id"));
    assert!(sql.ends_with(
        "WHERE e.entity_type = 'audit_entry' AND (u.name LIKE $1 OR p_summary.value LIKE $2) AND p_action.value LIKE $3 ORDER BY e.created_at DESC LIMIT $4 OFFSET $5"
    ));
    let count = audit_count_sql(&f);
    assert!(count.starts_with("SELECT COUNT(*) FROM entities e"));
    assert!(count.ends_with("AND p_action.value LIKE $3"));
    assert!(recent_audit_sql().ends_with(" ORDER BY e.created_at DESC LIMIT $1"));
}

#[test]
fn total_pages_rounds_up() {
    assert_eq!(total_pages(0, 25), 0);
    assert_eq!(total_pages(1, 25), 1);
    assert_eq!(total_pages(50, 25), 2);
    assert_eq!(total_pages(51, 25), 3);
    assert_eq!(total_pages(i64::MAX, 1), i64::MAX);
}

#[test]
fn page_carries_its_numbers() {
    let w = page_window(2, 10);
    let p = audit_page(Vec::new(), &w, 35);
    assert_eq!((p.page, p.per_page, p.total_count, p.total_pages), (2, 10, 35, 4));
}

#[test]
fn audit_entry_properties() {
    let v = audit_properties(3, "user.created", "user", 9, "Created user 'bob'");
    let pairs: Vec<(&str, &str)> = v.iter().map(|(k, v)| (k.as_str(), v.as_str())).collect();
    assert_eq!(
        pairs,
        vec![
            ("user_id", "3"),
            ("action", "user.created"),
            ("target_type", "user"),
            ("target_id", "9"),
            ("summary", "Created user 'bob'"),
        ]
    );
}
