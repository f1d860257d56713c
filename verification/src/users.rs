//! User administration: form validation, deletion rules, bulk deletion,
//! the CSV export and the saved column preference of the user list.
use vstd::prelude::*;
use crate::text::{
    join_with, join_exec, char_vec_views, chars_of, text_of, push_chars, push_str, chars_eq_str, contains_str, contains_seq, occurs_at,
    trim, trim_exec, decimal, decimal_chars, replace_char, replace_char_exec,
};
use crate::json_text::{json_integer_list, parse_json_integer_list};

verus! {

/// The fields of the create / edit user form.
#[derive(Debug)]
pub struct UserForm {
    pub username: String,
    pub email: String,
    pub display_name: String,
    pub password: String,
    pub csrf_token: String,
}

/// Whether the password is validated: always on creation, and on an edit
/// only when a new password was typed.
pub open spec fn password_checked(form: UserForm, require_password: bool) -> bool {
    require_password || form.password@.len() > 0
}

/// The messages of the form's validation, in the order the checks run: the
/// username's, the email's, the display name's, then the password's when
/// the password is checked. Each check's messages are computed by the
/// field's validator and handed in.
pub fn validate_user_form(
    form: &UserForm,
    require_password: bool,
    username_errors: Vec<String>,
    email_errors: Vec<String>,
    display_name_errors: Vec<String>,
    password_errors: Vec<String>,
) -> (r: Vec<String>)
    ensures
        r@ == username_errors@ + email_errors@ + display_name_errors@ + if password_checked(
            *form,
            require_password,
        ) {
            password_errors@
        } else {
            Seq::empty()
        },
{
    let mut errors: Vec<String> = Vec::new();
    let mut u = username_errors;
    let mut e = email_errors;
    let mut d = display_name_errors;
    errors.append(&mut u);
    errors.append(&mut e);
    errors.append(&mut d);
    if require_password || !form.password.as_str().is_empty() {
        let mut p = password_errors;
        errors.append(&mut p);
    }
    errors
}

/// The password to store on an edit: none when the field was left empty
/// (the stored password stays as it is), the typed password otherwise
/// (to be hashed and stored in place of the old one).
pub fn new_password(form: &UserForm) -> (r: Option<String>)
    ensures
        form.password@.len() == 0 <==> r is None,
        r matches Some(p) ==> p@ == form.password@,
{
    let chars = chars_of(form.password.as_str());
    if chars.len() == 0 {
        None
    } else {
        Some(text_of(chars.as_slice()))
    }
}

/// The stored fields of a user: username, email and display name, trimmed.
#[derive(Debug)]
pub struct UserFields {
    pub username: String,
    pub email: String,
    pub display_name: String,
}

/// The fields to store from a submitted form, each trimmed of white space.
pub fn user_fields(form: &UserForm) -> (r: UserFields)
    ensures
        r.username@ == trim(form.username@),
        r.email@ == trim(form.email@),
        r.display_name@ == trim(form.display_name@),
{
    let u = chars_of(form.username.as_str());
    let e = chars_of(form.email.as_str());
    let d = chars_of(form.display_name.as_str());
    let tu = trim_exec(u.as_slice());
    let te = trim_exec(e.as_slice());
    let td = trim_exec(d.as_slice());
    UserFields {
        username: text_of(tu.as_slice()),
        email: text_of(te.as_slice()),
        display_name: text_of(td.as_slice()),
    }
}

/// The message shown when storing a user failed with `error_text`.
pub open spec fn save_error_message(error_text: Seq<char>, creating: bool) -> Seq<char> {
    if contains_seq(error_text, "UNIQUE"@) {
        "Username already exists"@
    } else if creating {
        "Error creating user: "@ + error_text
    } else {
        "Error updating user: "@ + error_text
    }
}

/// The message shown when creating (or updating) a user failed.
pub fn save_error(error_text: &str, creating: bool) -> (r: String)
    ensures
        r@ == save_error_message(error_text@, creating),
{
    let t = chars_of(error_text);
    if contains_str(t.as_slice(), "UNIQUE") {
        return String::from_str("Username already exists");
    }
    let mut out = if creating {
        chars_of("Error creating user: ")
    } else {
        chars_of("Error updating user: ")
    };
    push_chars(&mut out, t.as_slice());
    text_of(out.as_slice())
}

/// A user is stored only when the form's validation gave no message.
pub fn saves_user(errors: &Vec<String>) -> (r: bool)
    ensures
        r == (errors@.len() == 0),
{
    errors.len() == 0
}

/// What happened to a user.
#[derive(Debug, Clone, Copy, PartialEq, Eq, Structural)]
pub enum UserEvent {
    Created,
    Updated,
    Deleted,
    /// Deleted as one of a bulk deletion.
    BulkDeleted,
}

/// The audit action of an event.
pub open spec fn event_action(e: UserEvent) -> Seq<char> {
    match e {
        UserEvent::Created => "user.created"@,
        UserEvent::Updated => "user.updated"@,
        UserEvent::Deleted | UserEvent::BulkDeleted => "user.deleted"@,
    }
}

/// The summary written to the audit log for an event on `username`.
pub open spec fn event_summary(e: UserEvent, username: Seq<char>) -> Seq<char> {
    match e {
        UserEvent::Created => "Created user '"@ + username + "'"@,
        UserEvent::Updated => "Updated user '"@ + username + "'"@,
        UserEvent::Deleted => "Deleted user '"@ + username + "'"@,
        UserEvent::BulkDeleted => "Deleted user '"@ + username + "' (bulk delete)"@,
    }
}

/// The warning raised for an event on `username`, as (severity, event
/// type, message): none for an update.
pub open spec fn event_warning(e: UserEvent, username: Seq<char>) -> Option<
    (Seq<char>, Seq<char>, Seq<char>),
> {
    match e {
        UserEvent::Created => Some(
            ("info"@, "event.user.created"@, "User '"@ + username + "' was created"@),
        ),
        UserEvent::Updated => None,
        UserEvent::Deleted | UserEvent::BulkDeleted => Some(
            ("medium"@, "event.user.deleted"@, "User '"@ + username + "' was deleted"@),
        ),
    }
}

/// The flash message after a single create, update or delete succeeded;
/// a bulk deletion ends with its summary instead (`bulk_delete_summary`).
pub open spec fn event_flash(e: UserEvent) -> Option<Seq<char>> {
    match e {
        UserEvent::Created => Some("User created successfully"@),
        UserEvent::Updated => Some("User updated successfully"@),
        UserEvent::Deleted => Some("User deleted"@),
        UserEvent::BulkDeleted => None,
    }
}

/// The records of an event on a user: the audit action and summary, the
/// warning for administrators, and the flash message.
#[derive(Debug)]
pub struct UserNotice {
    pub action: String,
    pub summary: String,
    pub warning: Option<(String, String, String)>,
    pub flash: Option<String>,
}

/// `"<head>'<name><tail>"`.
fn quoted(head: &str, name: &str, tail: &str) -> (r: String)
    ensures
        r@ == head@ + name@ + tail@,
{
    let mut v = chars_of(head);
    push_str(&mut v, name);
    push_str(&mut v, tail);
    text_of(v.as_slice())
}

/// The audit record, warning and flash message of an event on `username`.
pub fn user_notice(e: UserEvent, username: &str) -> (r: UserNotice)
    ensures
        r.action@ == event_action(e),
        r.summary@ == event_summary(e, username@),
        match (r.flash, event_flash(e)) {
            (Some(f), Some(x)) => f@ == x,
            (None, None) => true,
            _ => false,
        },
        match (r.warning, event_warning(e, username@)) {
            (Some(w), Some(x)) => w.0@ == x.0 && w.1@ == x.1 && w.2@ == x.2,
            (None, None) => true,
            _ => false,
        },
{
    match e {
        UserEvent::Created => UserNotice {
            action: String::from_str("user.created"),
            summary: quoted("Created user '", username, "'"),
            warning: Some(
                (
                    String::from_str("info"),
                    String::from_str("event.user.created"),
                    quoted("User '", username, "' was created"),
                ),
            ),
            flash: Some(String::from_str("User created successfully")),
        },
        UserEvent::Updated => UserNotice {
            action: String::from_str("user.updated"),
            summary: quoted("Updated user '", username, "'"),
            warning: None,
            flash: Some(String::from_str("User updated successfully")),
        },
        UserEvent::Deleted => UserNotice {
            action: String::from_str("user.deleted"),
            summary: quoted("Deleted user '", username, "'"),
            warning: Some(
                (
                    String::from_str("medium"),
                    String::from_str("event.user.deleted"),
                    quoted("User '", username, "' was deleted"),
                ),
            ),
            flash: Some(String::from_str("User deleted")),
        },
        UserEvent::BulkDeleted => UserNotice {
            action: String::from_str("user.deleted"),
            summary: quoted("Deleted user '", username, "' (bulk delete)"),
            warning: Some(
                (
                    String::from_str("medium"),
                    String::from_str("event.user.deleted"),
                    quoted("User '", username, "' was deleted"),
                ),
            ),
            flash: None,
        },
    }
}

/// Whether a user is the last administrator: they hold the admin role and
/// at most one user holds it.
pub fn last_admin(has_admin_role: bool, admin_count: i64) -> (r: bool)
    ensures
        r == (has_admin_role && admin_count <= 1),
{
    has_admin_role && admin_count <= 1
}

/// The last-administrator test of bulk deletion, where a failed lookup
/// counts as "holds the admin role" and a failed count as one admin.
pub fn last_admin_bulk(has_admin_role: Option<bool>, admin_count: Option<i64>) -> (r: bool)
    ensures
        r == (has_admin_role.unwrap_or(true) && admin_count.unwrap_or(1) <= 1),
{
    let holds_role = match has_admin_role {
        Some(b) => b,
        None => true,
    };
    if !holds_role {
        return false;
    }
    let count = match admin_count {
        Some(c) => c,
        None => 1,
    };
    count <= 1
}

/// Why a single deletion is refused, if it is.
pub open spec fn deletion_refusal_spec(id: i64, current_user_id: i64, is_last_admin: bool) -> Option<
    Seq<char>,
> {
    if id == current_user_id {
        Some("You cannot delete your own account"@)
    } else if is_last_admin {
        Some("Cannot delete the last administrator"@)
    } else {
        None
    }
}

/// The flash message that refuses deleting user `id`, if any: a user cannot
/// delete their own account, nor the last administrator.
pub fn deletion_refusal(id: i64, current_user_id: i64, is_last_admin: bool) -> (r: Option<String>)
    ensures
        r matches Some(m) ==> deletion_refusal_spec(id, current_user_id, is_last_admin) == Some(
            m@,
        ),
        r is None ==> deletion_refusal_spec(id, current_user_id, is_last_admin) is None,
{
    if id == current_user_id {
        Some(String::from_str("You cannot delete your own account"))
    } else if is_last_admin {
        Some(String::from_str("Cannot delete the last administrator"))
    } else {
        None
    }
}

/// The form of the bulk deletion: the ids as a JSON array of integers.
#[derive(Debug)]
pub struct BulkDeleteForm {
    pub csrf_token: String,
    pub user_ids: String,
}

/// The ids to delete, or the flash message that ends the request: the text
/// must be a JSON array of integers, and not an empty one.
pub fn bulk_delete_ids(user_ids: &str) -> (r: Result<Vec<i64>, String>)
    ensures
        json_integer_list(user_ids@) is None ==> (r matches Err(m) && m@ == "Invalid user IDs"@),
        json_integer_list(user_ids@) matches Some(ids) ==> (ids.len() == 0 ==> (r matches Err(m)
            && m@ == "No users selected"@)) && (ids.len() > 0 ==> (r matches Ok(v) && v@ == ids)),
{
    match parse_json_integer_list(user_ids) {
        None => Err(String::from_str("Invalid user IDs")),
        Some(ids) => {
            if ids.len() == 0 {
                Err(String::from_str("No users selected"))
            } else {
                Ok(ids)
            }
        },
    }
}

/// Whether bulk deletion attempts to delete user `id` (it skips, and counts
/// as failed, the current user and the last administrator).
pub fn bulk_attempts(id: i64, current_user_id: i64, is_last_admin: bool) -> (r: bool)
    ensures
        r == (id != current_user_id && !is_last_admin),
{
    id != current_user_id && !is_last_admin
}

/// One user of a bulk deletion as it runs: the id, what the role lookup
/// and the admin count gave (`None` when the lookup failed), and whether
/// the store deleted the user when asked.
pub type BulkStep = (i64, Option<bool>, Option<i64>, bool);

/// Whether bulk deletion asks the store to delete the user of a step
/// (`bulk_attempts` with `last_admin_bulk`).
pub open spec fn bulk_deletes(step: BulkStep, current_user_id: i64) -> bool {
    step.0 != current_user_id && !(step.1.unwrap_or(true) && step.2.unwrap_or(1) <= 1)
}

/// Whether bulk deletion asks the store to delete user `id`, given what the
/// role lookup and the admin count gave (`None` when a lookup failed).
pub fn bulk_deletes_user(
    id: i64,
    current_user_id: i64,
    has_admin_role: Option<bool>,
    admin_count: Option<i64>,
) -> (r: bool)
    ensures
        r == bulk_deletes((id, has_admin_role, admin_count, true), current_user_id),
{
    let last = last_admin_bulk(has_admin_role, admin_count);
    bulk_attempts(id, current_user_id, last)
}

/// The administrators left after the steps of a bulk deletion.
pub open spec fn admins_after(admins: Set<i64>, steps: Seq<BulkStep>, current_user_id: i64) -> Set<
    i64,
>
    decreases steps.len(),
{
    if steps.len() == 0 {
        admins
    } else {
        let before = admins_after(admins, steps.drop_last(), current_user_id);
        let step = steps.last();
        if bulk_deletes(step, current_user_id) && step.3 {
            before.remove(step.0)
        } else {
            before
        }
    }
}

/// The lookups of a step read the store as it then is: the role lookup
/// tells whether the user is an administrator and the count is the number
/// of administrators, when they succeed.
pub open spec fn lookups_read(step: BulkStep, admins: Set<i64>) -> bool {
    &&& (step.1 matches Some(b) ==> b == admins.contains(step.0))
    &&& (step.2 matches Some(c) ==> c == admins.len())
}

/// A bulk deletion never removes the last administrator: if there is one
/// before, one is left after, whichever users are listed and whichever
/// lookups or deletions fail.
pub proof fn lemma_bulk_delete_keeps_an_admin(
    admins: Set<i64>,
    steps: Seq<BulkStep>,
    current_user_id: i64,
)
    requires
        admins.finite(),
        admins.len() > 0,
        forall|i: int|
            0 <= i < steps.len() ==> lookups_read(
                #[trigger] steps[i],
                admins_after(admins, steps.take(i), current_user_id),
            ),
    ensures
        admins_after(admins, steps, current_user_id).finite(),
        admins_after(admins, steps, current_user_id).len() > 0,
    decreases steps.len(),
{
    if steps.len() > 0 {
        let prefix = steps.drop_last();
        assert forall|i: int| 0 <= i < prefix.len() implies lookups_read(
            #[trigger] prefix[i],
            admins_after(admins, prefix.take(i), current_user_id),
        ) by {
            assert(prefix.take(i) =~= steps.take(i));
            assert(prefix[i] == steps[i]);
        }
        lemma_bulk_delete_keeps_an_admin(admins, prefix, current_user_id);
        let before = admins_after(admins, prefix, current_user_id);
        let n = (steps.len() - 1) as int;
        assert(steps.take(n) =~= prefix);
        assert(lookups_read(steps[n], before));
        let step = steps.last();
        if bulk_deletes(step, current_user_id) && step.3 && before.contains(step.0) {
            assert(before.len() > 1);
            assert(before.remove(step.0).len() == before.len() - 1);
        }
    }
}

/// The running count of a bulk deletion.
#[derive(Debug)]
pub struct BulkDeleteTally {
    pub deleted: u32,
    pub failed: u32,
}

/// A tally with nothing counted.
pub fn new_tally() -> (r: BulkDeleteTally)
    ensures
        r.deleted == 0,
        r.failed == 0,
{
    BulkDeleteTally { deleted: 0, failed: 0 }
}

/// Counts one user of the bulk deletion: deleted, or failed (skipped or an
/// error while deleting).
pub fn tally_user(t: &mut BulkDeleteTally, deleted: bool)
    requires
        old(t).deleted + old(t).failed < u32::MAX,
    ensures
        deleted ==> final(t).deleted == old(t).deleted + 1 && final(t).failed == old(t).failed,
        !deleted ==> final(t).failed == old(t).failed + 1 && final(t).deleted == old(t).deleted,
        final(t).deleted + final(t).failed == old(t).deleted + old(t).failed + 1,
{
    if deleted {
        t.deleted = t.deleted + 1;
    } else {
        t.failed = t.failed + 1;
    }
}

/// "user" or "users" after a count.
pub open spec fn user_noun(n: int) -> Seq<char> {
    if n == 1 {
        "user"@
    } else {
        "users"@
    }
}

/// The flash message that ends a bulk deletion.
pub open spec fn bulk_summary_spec(deleted: int, failed: int) -> Seq<char> {
    if failed == 0 {
        "Deleted "@ + decimal(deleted) + " "@ + user_noun(deleted)
    } else if deleted == 0 {
        "Could not delete selected users"@
    } else {
        "Deleted "@ + decimal(deleted) + " "@ + user_noun(deleted) + " ("@ + decimal(failed)
            + " failed)"@
    }
}

/// The flash message that ends a bulk deletion.
pub fn bulk_delete_summary(t: &BulkDeleteTally) -> (r: String)
    ensures
        r@ == bulk_summary_spec(t.deleted as int, t.failed as int),
{
    if t.failed != 0 && t.deleted == 0 {
        return String::from_str("Could not delete selected users");
    }
    let mut out = chars_of("Deleted ");
    let d = decimal_chars(t.deleted as i64);
    push_chars(&mut out, d.as_slice());
    push_str(&mut out, " ");
    if t.deleted == 1 {
        push_str(&mut out, "user");
    } else {
        push_str(&mut out, "users");
    }
    if t.failed != 0 {
        push_str(&mut out, " (");
        let f = decimal_chars(t.failed as i64);
        push_chars(&mut out, f.as_slice());
        push_str(&mut out, " failed)");
    }
    assert(out@ =~= bulk_summary_spec(t.deleted as int, t.failed as int));
    text_of(out.as_slice())
}

/// The query of the CSV export.
#[derive(Debug)]
pub struct ExportQuery {
    pub filter: Option<String>,
    pub sort: Option<String>,
    pub dir: Option<String>,
}

/// Whether a CSV field must be quoted: it holds a comma, a quote or a line
/// break.
pub open spec fn needs_quoting(s: Seq<char>) -> bool {
    s.contains(',') || s.contains('"') || s.contains('\n')
}

/// A CSV field: quoted, with inner quotes doubled, when it needs quoting;
/// as it is otherwise.
pub open spec fn csv_field(s: Seq<char>) -> Seq<char> {
    if needs_quoting(s) {
        "\""@ + replace_char(s, '"', "\"\""@) + "\""@
    } else {
        s
    }
}

/// Whether `s` holds a comma, a quote or a line break.
fn needs_quoting_exec(s: &[char]) -> (r: bool)
    ensures
        r == needs_quoting(s@),
{
    let n = s.len();
    for i in 0..n
        invariant
            n == s@.len(),
            forall|j: int| 0 <= j < i ==> s@[j] != ',' && s@[j] != '"' && s@[j] != '\n',
    {
        if s[i] == ',' || s[i] == '"' || s[i] == '\n' {
            assert(s@[i as int] == s@[i as int]);
            return true;
        }
    }
    false
}

/// Escapes a value for a CSV field.
pub fn escape_csv(s: &str) -> (r: String)
    ensures
        r@ == csv_field(s@),
{
    let v = chars_of(s);
    let mut out: Vec<char> = Vec::new();
    push_csv_field(&mut out, v.as_slice());
    text_of(out.as_slice())
}

/// Appends the CSV field of `s`.
fn push_csv_field(out: &mut Vec<char>, s: &[char])
    ensures
        final(out)@ == old(out)@ + csv_field(s@),
{
    if needs_quoting_exec(s) {
        out.push('"');
        let q = chars_of("\"\"");
        let esc = replace_char_exec(s, '"', q.as_slice());
        push_chars(out, esc.as_slice());
        out.push('"');
        assert(final(out)@ =~= old(out)@ + csv_field(s@)) by {
            reveal_strlit("\"");
        }
    } else {
        push_chars(out, s);
    }
}

/// One user as exported to CSV.
#[derive(Debug)]
pub struct UserCsvRow {
    pub id: i64,
    pub username: String,
    pub display_name: String,
    pub email: String,
    pub role_labels: String,
    pub created_at: String,
    pub updated_at: String,
}

/// The CSV line of one user, with its line break.
pub open spec fn csv_line(u: UserCsvRow) -> Seq<char> {
    decimal(u.id as int) + ","@ + csv_field(u.username@) + ","@ + csv_field(u.display_name@) + ","@
        + csv_field(u.email@) + ","@ + csv_field(u.role_labels@) + ","@ + u.created_at@ + ","@
        + u.updated_at@ + "\n"@
}

/// The CSV lines of several users.
pub open spec fn csv_lines(us: Seq<UserCsvRow>) -> Seq<char>
    decreases us.len(),
{
    if us.len() == 0 {
        Seq::empty()
    } else {
        csv_lines(us.drop_last()) + csv_line(us.last())
    }
}

/// The header line of the export.
pub open spec fn csv_header() -> Seq<char> {
    "id,username,display_name,email,role,created_at,updated_at\n"@
}

/// Appends the CSV line of one user.
fn push_csv_line(out: &mut Vec<char>, u: &UserCsvRow)
    ensures
        final(out)@ == old(out)@ + csv_line(*u),
{
    let ghost before = out@;
    let id = decimal_chars(u.id);
    push_chars(out, id.as_slice());
    out.push(',');
    let a = chars_of(u.username.as_str());
    push_csv_field(out, a.as_slice());
    out.push(',');
    let b = chars_of(u.display_name.as_str());
    push_csv_field(out, b.as_slice());
    out.push(',');
    let c = chars_of(u.email.as_str());
    push_csv_field(out, c.as_slice());
    out.push(',');
    let d = chars_of(u.role_labels.as_str());
    push_csv_field(out, d.as_slice());
    out.push(',');
    push_str(out, u.created_at.as_str());
    out.push(',');
    push_str(out, u.updated_at.as_str());
    out.push('\n');
    assert(out@ =~= before + csv_line(*u)) by {
        reveal_strlit(",");
        reveal_strlit("\n");
    }
}

/// The CSV export of the user list: a header, then one line per user.
pub fn users_csv(users: &Vec<UserCsvRow>) -> (r: String)
    ensures
        r@ == csv_header() + csv_lines(users@),
{
    let mut out = chars_of("id,username,display_name,email,role,created_at,updated_at\n");
    let ghost head = out@;
    let n = users.len();
    for i in 0..n
        invariant
            n == users@.len(),
            head == csv_header(),
            out@ == head + csv_lines(users@.subrange(0, i as int)),
    {
        assert(users@.subrange(0, i + 1).drop_last() =~= users@.subrange(0, i as int));
        push_csv_line(&mut out, &users[i]);
        assert(out@ =~= head + csv_lines(users@.subrange(0, i + 1)));
    }
    assert(users@.subrange(0, n as int) =~= users@);
    text_of(out.as_slice())
}

/// The form that saves the visible columns of the user list.
#[derive(Debug)]
pub struct SaveColumnsForm {
    pub columns: String,
    pub set_global: Option<String>,
    pub csrf_token: String,
    pub redirect_to: Option<String>,
}

/// The query of the user list page.
#[derive(Debug)]
pub struct ListQuery {
    pub page: Option<i64>,
    pub per_page: Option<i64>,
    pub filter: Option<String>,
    pub sort: Option<String>,
    pub dir: Option<String>,
}

/// The page of the user list and its size: page 1 and 25 users unless the
/// query asks otherwise.
pub fn list_paging(q: &ListQuery) -> (r: (i64, i64))
    ensures
        r.0 == q.page.unwrap_or(1),
        r.1 == q.per_page.unwrap_or(25),
{
    let page = match q.page {
        Some(p) => p,
        None => 1,
    };
    let per_page = match q.per_page {
        Some(p) => p,
        None => 25,
    };
    (page, per_page)
}

/// The pieces of `s` between the separators `c`, as `str::split` yields
/// them (an empty text gives one empty piece).
pub open spec fn split_fields(s: Seq<char>, c: char) -> Seq<Seq<char>>
    decreases s.len(),
{
    if s.len() == 0 {
        seq![Seq::empty()]
    } else {
        let p = split_fields(s.drop_last(), c);
        if s.last() == c {
            p.push(Seq::empty())
        } else {
            p.update(p.len() - 1, p.last().push(s.last()))
        }
    }
}

/// The column keys that can be saved.
pub open spec fn valid_column(k: Seq<char>) -> bool {
    k == "user"@ || k == "email"@ || k == "status"@ || k == "created_at"@ || k == "updated_at"@
        || k == "actions"@
}

/// The trimmed pieces that are valid column keys, in order.
pub open spec fn valid_columns(ps: Seq<Seq<char>>) -> Seq<Seq<char>>
    decreases ps.len(),
{
    if ps.len() == 0 {
        Seq::empty()
    } else if valid_column(trim(ps.last())) {
        valid_columns(ps.drop_last()).push(trim(ps.last()))
    } else {
        valid_columns(ps.drop_last())
    }
}

/// The requested columns that are known, joined by commas.
pub open spec fn sanitized_columns(columns: Seq<char>) -> Seq<char> {
    join_with(valid_columns(split_fields(columns, ',')), ","@)
}

/// The saved preference: the known requested columns, with "user" put in
/// front and "actions" added at the end when the text does not hold them.
pub open spec fn column_preference(columns: Seq<char>) -> Seq<char> {
    let s = sanitized_columns(columns);
    let p = if !contains_seq(s, "user"@) {
        "user,"@ + s
    } else {
        s
    };
    if !contains_seq(p, "actions"@) {
        p + ",actions"@
    } else {
        p
    }
}

/// Whether `k` is one of the known column keys.
fn is_valid_column(k: &[char]) -> (r: bool)
    ensures
        r == valid_column(k@),
{
    chars_eq_str(k, "user") || chars_eq_str(k, "email") || chars_eq_str(k, "status")
        || chars_eq_str(k, "created_at") || chars_eq_str(k, "updated_at") || chars_eq_str(
        k,
        "actions",
    )
}

/// Keeps the trimmed piece when it is a known column.
fn keep_piece(kept: &mut Vec<Vec<char>>, piece: &[char], Ghost(done): Ghost<Seq<Seq<char>>>)
    requires
        char_vec_views(old(kept)@) == valid_columns(done),
    ensures
        char_vec_views(final(kept)@) == valid_columns(done.push(piece@)),
{
    let t = trim_exec(piece);
    assert(done.push(piece@).drop_last() =~= done);
    if is_valid_column(t.as_slice()) {
        let ghost before = kept@;
        kept.push(t);
        assert(char_vec_views(kept@) =~= char_vec_views(before).push(trim(piece@)));
    }
}

/// The column preference saved for the requested `columns` (see
/// `column_preference`).
pub fn sanitize_columns(columns: &str) -> (r: String)
    ensures
        r@ == column_preference(columns@),
{
    let s = chars_of(columns);
    let n = s.len();
    let mut kept: Vec<Vec<char>> = Vec::new();
    let mut current: Vec<char> = Vec::new();
    let ghost mut done: Seq<Seq<char>> = Seq::empty();
    assert(char_vec_views(kept@) =~= Seq::empty());
    for i in 0..n
        invariant
            n == s@.len(),
            split_fields(s@.subrange(0, i as int), ',') == done.push(current@),
            char_vec_views(kept@) == valid_columns(done),
    {
        assert(s@.subrange(0, i + 1).drop_last() =~= s@.subrange(0, i as int));
        if s[i] == ',' {
            keep_piece(&mut kept, current.as_slice(), Ghost(done));
            proof {
                done = done.push(current@);
            }
            current = Vec::new();
            assert(split_fields(s@.subrange(0, i + 1), ',') =~= done.push(current@));
        } else {
            let ghost old_current = current@;
            current.push(s[i]);
            assert(split_fields(s@.subrange(0, i + 1), ',') =~= done.push(current@)) by {
                let p = split_fields(s@.subrange(0, i as int), ',');
                assert(p == done.push(old_current));
            }
        }
    }
    keep_piece(&mut kept, current.as_slice(), Ghost(done));
    assert(s@.subrange(0, n as int) =~= s@);
    let sanitized = join_exec(&kept, ",");
    let mut pref = if !contains_str(sanitized.as_slice(), "user") {
        let mut p = chars_of("user,");
        push_chars(&mut p, sanitized.as_slice());
        p
    } else {
        sanitized
    };
    if !contains_str(pref.as_slice(), "actions") {
        push_str(&mut pref, ",actions");
    }
    text_of(pref.as_slice())
}

/// The saved column preference always shows the "user" and "actions"
/// columns.
pub proof fn lemma_column_preference_keeps_fixed_columns(columns: Seq<char>)
    ensures
        contains_seq(column_preference(columns), "user"@),
        contains_seq(column_preference(columns), "actions"@),
{
    reveal_strlit("user");
    let s = sanitized_columns(columns);
    let p = if !contains_seq(s, "user"@) {
        "user,"@ + s
    } else {
        s
    };
    assert(contains_seq(p, "user"@)) by {
        if !contains_seq(s, "user"@) {
            reveal_strlit("user,");
            reveal_strlit("user");
            assert(p.subrange(0, 4) =~= "user"@);
            assert(occurs_at(p, "user"@, 0));
        }
    }
    if !contains_seq(p, "actions"@) {
        let q = p + ",actions"@;
        reveal_strlit(",actions");
        reveal_strlit("actions");
        let k: int = (p.len() + 1) as int;
        assert(q.subrange(k, k + 7) =~= "actions"@);
        assert(occurs_at(q, "actions"@, k));
        let i = choose|i: int| occurs_at(p, "user"@, i);
        assert(q.subrange(i, i + 4) =~= p.subrange(i, i + 4));
        assert(occurs_at(q, "user"@, i));
    }
}

/// Where the save redirects: the requested page, or the user list.
pub fn columns_redirect(form: &SaveColumnsForm) -> (r: String)
    ensures
        form.redirect_to matches Some(t) ==> r@ == t@,
        form.redirect_to is None ==> r@ == "/users"@,
{
    match &form.redirect_to {
        Some(t) => {
            let v = chars_of(t.as_str());
            text_of(v.as_slice())
        },
        None => String::from_str("/users"),
    }
}

/// Whether the preference is also saved as the global default (the form's
/// `set_global` is "true").
pub fn saves_global(form: &SaveColumnsForm) -> (r: bool)
    ensures
        r == (form.set_global matches Some(g) && g@ == "true"@),
{
    match &form.set_global {
        Some(g) => {
            let v = chars_of(g.as_str());
            chars_eq_str(v.as_slice(), "true")
        },
        None => false,
    }
}

} // verus!
