use ahlt::users::{
    saves_user, user_notice, UserEvent, bulk_deletes_user, new_password,
    list_paging, ListQuery,
    bulk_attempts, bulk_delete_ids, bulk_delete_summary, columns_redirect, deletion_refusal,
    escape_csv, last_admin, last_admin_bulk, new_tally, sanitize_columns, save_error, saves_global,
    tally_user, user_fields, users_csv, validate_user_form, SaveColumnsForm, UserCsvRow, UserForm,
};

fn form(password: &str) -> UserForm {
    UserForm {
        username: "  alice ".to_string(),
        email: " a@x.org".to_string(),
        display_name: "Alice ".to_string(),
        password: password.to_string(),
        csrf_token: "t".to_string(),
    }
}

fn errs(v: &[&str]) -> Vec<String> {
    v.iter().map(|s| s.to_string()).collect()
}

#[test]
fn validation_collects_messages_in_order() {
    let r = validate_user_form(&form(""), true, errs(&["u"]), errs(&["e"]), errs(&[]), errs(&["p"]));
    assert_eq!(r, errs(&["u", "e", "p"]));
}

#[test]
fn password_is_optional_on_edit() {
    let r = validate_user_form(&form(""), false, errs(&[]), errs(&[]), errs(&["d"]), errs(&["p"]));
    assert_eq!(r, errs(&["d"]));
    let r = validate_user_form(&form("x"), false, errs(&[]), errs(&[]), errs(&[]), errs(&["p"]));
    assert_eq!(r, errs(&["p"]));
}

#[test]
fn stored_fields_are_trimmed() {
    let f = user_fields(&form(""));
    assert_eq!(f.username, "alice");
    assert_eq!(f.email, "a@x.org");
    assert_eq!(f.display_name, "Alice");
}

#[test]
fn save_errors_name_duplicates() {
    assert_eq!(save_error("UNIQUE constraint failed", true), "Username already exists");
    assert_eq!(save_error("boom", true), "Error creating user: boom");
    assert_eq!(save_error("boom", false), "Error updating user: boom");
}

#[test]
fn last_admin_rules() {
    assert!(last_admin(true, 1));
    assert!(!last_admin(true, 2));
    assert!(!last_admin(false, 0));
    assert!(last_admin_bulk(None, None));
    assert!(!last_admin_bulk(Some(false), None));
    assert!(!last_admin_bulk(Some(true), Some(3)));
    assert!(last_admin_bulk(Some(true), None));
}

#[test]
fn single_deletion_refusals() {
    assert_eq!(deletion_refusal(1, 1, false).unwrap(), "You cannot delete your own account");
    assert_eq!(deletion_refusal(2, 1, true).unwrap(), "Cannot delete the last administrator");
    assert!(deletion_refusal(2, 1, false).is_none());
}

#[test]
fn bulk_ids_are_read_from_json() {
    assert_eq!(bulk_delete_ids("[1, 2, 3]").unwrap(), vec![1, 2, 3]);
    assert_eq!(bulk_delete_ids("not json").unwrap_err(), "Invalid user IDs");
    assert_eq!(bulk_delete_ids("[]").unwrap_err(), "No users selected");
}

#[test]
fn bulk_deletion_tally_and_summary() {
    assert!(!bulk_attempts(5, 5, false));
    assert!(!bulk_attempts(6, 5, true));
    assert!(bulk_attempts(6, 5, false));

    let mut t = new_tally();
    tally_user(&mut t, true);
    assert_eq!(bulk_delete_summary(&t), "Deleted 1 user");
    tally_user(&mut t, true);
    assert_eq!(bulk_delete_summary(&t), "Deleted 2 users");
    tally_user(&mut t, false);
    assert_eq!(bulk_delete_summary(&t), "Deleted 2 users (1 failed)");
    assert_eq!(t.deleted + t.failed, 3);

    let mut f = new_tally();
    tally_user(&mut f, false);
    assert_eq!(bulk_delete_summary(&f), "Could not delete selected users");
}

#[test]
fn csv_fields_are_quoted_when_needed() {
    assert_eq!(escape_csv("plain"), "plain");
    assert_eq!(escape_csv("a,b"), "\"a,b\"");
    assert_eq!(escape_csv("say \"hi\""), "\"say \"\"hi\"\"\"");
    assert_eq!(escape_csv("two\nlines"), "\"two\nlines\"");
}

#[test]
fn csv_export_has_header_and_rows() {
    let rows = vec![UserCsvRow {
        id: 7,
        username: "bob".to_string(),
        display_name: "Bob, Jr.".to_string(),
        email: "b@x.org".to_string(),
        role_labels: "Admin".to_string(),
        created_at: "2024-01-01".to_string(),
        updated_at: "2024-02-01".to_string(),
    }];
    assert_eq!(
        users_csv(&rows),
        "id,username,display_name,email,role,created_at,updated_at\n7,bob,\"Bob, Jr.\",b@x.org,Admin,2024-01-01,2024-02-01\n"
    );
}

#[test]
fn column_preference_keeps_user_and_actions() {
    assert_eq!(sanitize_columns("email, status ,bogus"), "user,email,status,actions");
    assert_eq!(sanitize_columns("user,actions"), "user,actions");
    assert_eq!(sanitize_columns("actions,user"), "actions,user");
    assert_eq!(sanitize_columns("updated_at"), "user,updated_at,actions");
    assert_eq!(sanitize_columns(""), "user,,actions");
}

#[test]
fn column_form_redirect_and_global_flag() {
    let f = SaveColumnsForm {
        columns: "user".to_string(),
        set_global: Some("true".to_string()),
        csrf_token: "t".to_string(),
        redirect_to: None,
    };
    assert_eq!(columns_redirect(&f), "/users");
    assert!(saves_global(&f));
    let g = SaveColumnsForm { set_global: Some("yes".to_string()), redirect_to: Some("/x".to_string()), ..f };
    assert_eq!(columns_redirect(&g), "/x");
    assert!(!saves_global(&g));
}

#[test]
fn user_list_paging_defaults() {
    let q = ListQuery { page: None, per_page: None, filter: None, sort: None, dir: None };
    assert_eq!(list_paging(&q), (1, 25));
    let q = ListQuery {
        page: Some(3),
        per_page: Some(50),
        filter: Some("a".to_string()),
        sort: None,
        dir: None,
    };
    assert_eq!(list_paging(&q), (3, 50));
}

#[test]
fn user_events_record_their_texts() {
    assert!(saves_user(&vec![]));
    assert!(!saves_user(&vec!["Username is required".to_string()]));

    let n = user_notice(UserEvent::Created, "bob");
    assert_eq!(n.action, "user.created");
    assert_eq!(n.summary, "Created user 'bob'");
    assert_eq!(
        n.warning,
        Some(("info".to_string(), "event.user.created".to_string(), "User 'bob' was created".to_string()))
    );
    assert_eq!(n.flash.as_deref(), Some("User created successfully"));

    let n = user_notice(UserEvent::Updated, "bob");
    assert_eq!(n.action, "user.updated");
    assert_eq!(n.summary, "Updated user 'bob'");
    assert_eq!(n.warning, None);
    assert_eq!(n.flash.as_deref(), Some("User updated successfully"));

    let n = user_notice(UserEvent::Deleted, "bob");
    assert_eq!(n.action, "user.deleted");
    assert_eq!(n.summary, "Deleted user 'bob'");
    assert_eq!(
        n.warning,
        Some(("medium".to_string(), "event.user.deleted".to_string(), "User 'bob' was deleted".to_string()))
    );
    assert_eq!(n.flash.as_deref(), Some("User deleted"));

    let n = user_notice(UserEvent::BulkDeleted, "bob");
    assert_eq!(n.summary, "Deleted user 'bob' (bulk delete)");
    assert_eq!(n.flash, None);
}

#[test]
fn bulk_deletion_spares_self_and_last_admin() {
    assert!(!bulk_deletes_user(4, 4, Some(false), Some(3)));
    assert!(!bulk_deletes_user(5, 4, Some(true), Some(1)));
    assert!(bulk_deletes_user(5, 4, Some(true), Some(2)));
    assert!(bulk_deletes_user(5, 4, Some(false), Some(1)));
    assert!(bulk_deletes_user(5, 4, None, Some(5)));
    assert!(!bulk_deletes_user(5, 4, None, None));
    assert!(!bulk_deletes_user(5, 4, Some(true), None));
}

#[test]
fn an_empty_password_keeps_the_stored_one() {
    assert_eq!(new_password(&form("")), None);
    assert_eq!(new_password(&form("s3cret!pw")), Some("s3cret!pw".to_string()));
}
