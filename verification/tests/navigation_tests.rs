use ahlt::navigation::{accessible_nav_items, build_navigation, find_active_module, NavItemRow, NavRow};

fn row(name: &str, label: &str, url: &str, perm: &str, parent: &str, permitted: bool) -> NavRow {
    NavRow {
        nav_name: name.into(),
        label: label.into(),
        url: url.into(),
        permission_code: perm.into(),
        parent: parent.into(),
        permitted,
    }
}

fn rows() -> Vec<NavRow> {
    vec![
        row("dashboard", "Dashboard", "/dashboard", "", "", false),
        row("admin", "Admin", "/admin", "", "", false),
        row("governance", "Governance", "/tor", "", "", false),
        row("users", "Users", "/users", "users.list", "admin", true),
        row("roles", "Roles", "/roles", "roles.manage", "admin", false),
        row("tors", "ToRs", "/tor", "", "governance", false),
        row("tor_workflow", "Workflow", "/tor/workflow", "", "governance", false),
    ]
}

#[test]
fn active_module_comes_from_children_first() {
    assert_eq!(find_active_module("/users/3", &rows()), Some("admin".to_string()));
    assert_eq!(find_active_module("/dashboard", &rows()), Some("dashboard".to_string()));
    assert_eq!(find_active_module("/tor/workflow/1", &rows()), Some("governance".to_string()));
    assert_eq!(find_active_module("/nowhere", &rows()), None);
}

#[test]
fn header_shows_modules_with_a_permitted_child() {
    let (modules, sidebar) = build_navigation(&rows(), "/users/3");
    let labels: Vec<(&str, bool)> = modules.iter().map(|m| (m.label.as_str(), m.is_active)).collect();
    assert_eq!(labels, vec![("Dashboard", false), ("Admin", true), ("Governance", false)]);
    let items: Vec<(&str, bool)> = sidebar.iter().map(|s| (s.label.as_str(), s.is_active)).collect();
    assert_eq!(items, vec![("Users", true)]);
}

#[test]
fn sidebar_marks_the_longest_matching_url() {
    let (_, sidebar) = build_navigation(&rows(), "/tor/workflow/5");
    let items: Vec<(&str, bool)> = sidebar.iter().map(|s| (s.label.as_str(), s.is_active)).collect();
    assert_eq!(items, vec![("ToRs", false), ("Workflow", true)]);
}

#[test]
fn module_hidden_without_permitted_children() {
    let mut r = rows();
    r[3].permitted = false;
    let (modules, _) = build_navigation(&r, "/dashboard");
    let labels: Vec<&str> = modules.iter().map(|m| m.label.as_str()).collect();
    assert_eq!(labels, vec!["Dashboard", "Governance"]);
}

fn item(id: i64, name: &str, label: &str, url: &str, perm: &str, parent: &str) -> NavItemRow {
    NavItemRow {
        id,
        name: name.into(),
        label: label.into(),
        url: url.into(),
        permission_code: perm.into(),
        parent: parent.into(),
    }
}

#[test]
fn menu_preview_lists_reachable_items() {
    let items = vec![
        item(1, "dashboard", "Dashboard", "/dashboard", "dashboard.view", ""),
        item(2, "admin", "Admin", "/admin", "", ""),
        item(3, "users", "Users", "/users", "users.list", "admin"),
        item(4, "roles", "Roles", "/roles", "roles.manage", "admin"),
        item(5, "help", "Help", "/help", "", ""),
    ];
    let codes = vec!["users.list".to_string()];
    let r = accessible_nav_items(&items, &codes);
    let got: Vec<(i64, &str, &str, &str)> = r
        .iter()
        .map(|p| (p.id, p.label.as_str(), p.path.as_str(), p.module_name.as_str()))
        .collect();
    assert_eq!(got, vec![(3, "Users", "/users", "Admin"), (5, "Help", "/help", "Help")]);
}
