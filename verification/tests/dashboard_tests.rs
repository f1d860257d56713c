use ahlt::dashboard::{
    in_placeholders, open_suggestions_sql, pending_proposals_sql, upcoming_for_tors, UpcomingMeeting,
};

fn meeting(tor: i64, date: &str, time: &str, location: &str) -> UpcomingMeeting {
    UpcomingMeeting {
        tor_id: tor,
        tor_label: format!("ToR {}", tor),
        date: date.to_string(),
        start_time: time.to_string(),
        duration_minutes: 60,
        location: location.to_string(),
        meeting_id: None,
    }
}

#[test]
fn upcoming_meetings_are_filtered_ordered_and_limited() {
    let events = vec![
        meeting(1, "2024-03-05", "10:00", "a"),
        meeting(2, "2024-03-01", "09:00", "other tor"),
        meeting(1, "2024-03-01", "14:00", "b"),
        meeting(3, "2024-03-01", "08:00", "c"),
        meeting(1, "2024-03-01", "09:30", "d"),
    ];
    let r = upcoming_for_tors(events, &[1, 3]);
    let order: Vec<&str> = r.iter().map(|m| m.location.as_str()).collect();
    assert_eq!(order, vec!["c", "d", "b", "a"]);
}

#[test]
fn equal_times_keep_their_order_and_at_most_eight_are_kept() {
    let mut events = Vec::new();
    for i in 0..10 {
        events.push(meeting(1, "2024-01-01", "10:00", &format!("m{}", i)));
    }
    let r = upcoming_for_tors(events, &[1]);
    assert_eq!(r.len(), 8);
    let order: Vec<String> = r.iter().map(|m| m.location.clone()).collect();
    let expected: Vec<String> = (0..8).map(|i| format!("m{}", i)).collect();
    assert_eq!(order, expected);
}

#[test]
fn no_tors_means_no_meetings() {
    let r = upcoming_for_tors(vec![meeting(1, "2024-01-01", "10:00", "x")], &[]);
    assert!(r.is_empty());
}

#[test]
fn in_list_placeholders() {
    assert_eq!(in_placeholders(0), "");
    assert_eq!(in_placeholders(1), "$1");
    assert_eq!(in_placeholders(3), "$1, $2, $3");
}

#[test]
fn pending_queries_need_tors() {
    assert!(pending_proposals_sql(0).is_none());
    assert!(open_suggestions_sql(0).is_none());
    let p = pending_proposals_sql(2).unwrap();
    assert!(p.ends_with("AND tor.id IN ($1, $2) ORDER BY p.created_at DESC LIMIT 5"));
    let s = open_suggestions_sql(1).unwrap();
    assert!(s.ends_with("AND tor.id IN ($1) ORDER BY s.created_at DESC LIMIT 5"));
}
