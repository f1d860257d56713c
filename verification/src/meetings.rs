//! Meetings, their roll call, minutes and the generated minutes scaffold.
use vstd::prelude::*;
use crate::text::{
    chars_of, text_of, push_chars, push_str, decimal, decimal_chars, decimal_string, lowercase_of, to_lowercase,
    replace_char, replace_char_exec,
};
use crate::props::pair_views;
use crate::json_text::{
    json_records, key_views, records_view, parse_json_records, json_string_list,
    parse_json_string_list,
};

verus! {

/// A meeting on the meeting list page.
#[derive(Debug)]
pub struct MeetingListItem {
    pub id: i64,
    pub name: String,
    pub label: String,
    pub meeting_date: String,
    pub status: String,
    pub tor_id: i64,
    pub tor_name: String,
    pub tor_label: String,
    pub agenda_count: i64,
    pub has_minutes: bool,
}

/// A meeting for the detail and edit pages.
#[derive(Debug)]
pub struct MeetingDetail {
    pub id: i64,
    pub name: String,
    pub label: String,
    pub meeting_date: String,
    pub status: String,
    pub location: String,
    pub notes: String,
    pub tor_id: i64,
    pub tor_name: String,
    pub tor_label: String,
    pub meeting_number: String,
    pub classification: String,
    pub vtc_details: String,
    pub chair_user_id: String,
    pub secretary_user_id: String,
    /// JSON: `[{username, status}]`.
    pub roll_call_data: String,
}

/// An agenda point scheduled for a meeting.
#[derive(Debug)]
pub struct MeetingAgendaPoint {
    pub id: i64,
    pub name: String,
    pub label: String,
    pub item_type: String,
    pub status: String,
}

/// One roll call entry: `status` is "present", "absent" or "excused".
#[derive(Debug)]
pub struct RollCallEntry {
    pub username: String,
    pub status: String,
}

/// A record field read from JSON, as a view.
pub open spec fn field(r: Seq<Option<Seq<char>>>, i: int) -> Option<Seq<char>> {
    if 0 <= i < r.len() {
        r[i]
    } else {
        None
    }
}

/// The records of a parse, an empty list when the text did not parse.
pub open spec fn records_or_empty(p: Option<Seq<Seq<Option<Seq<char>>>>>) -> Seq<
    Seq<Option<Seq<char>>>,
> {
    match p {
        Some(v) => v,
        None => Seq::empty(),
    }
}

/// Roll call entries from `(username, status)` records: the records with
/// both fields, in order.
pub open spec fn roll_call_entries(recs: Seq<Seq<Option<Seq<char>>>>) -> Seq<(Seq<char>, Seq<char>)>
    decreases recs.len(),
{
    if recs.len() == 0 {
        Seq::empty()
    } else {
        let r = recs.last();
        roll_call_entries(recs.drop_last()) + match (field(r, 0), field(r, 1)) {
            (Some(u), Some(s)) => seq![(u, s)],
            _ => Seq::empty(),
        }
    }
}

/// The views of roll call entries.
pub open spec fn roll_call_view(v: Seq<RollCallEntry>) -> Seq<(Seq<char>, Seq<char>)> {
    v.map_values(|e: RollCallEntry| (e.username@, e.status@))
}

fn opt_field(r: &Vec<Option<String>>, i: usize) -> (f: Option<String>)
    ensures
        match f {
            Some(s) => field(
                r@.map_values(
                    |f: Option<String>|
                        match f {
                            Some(s) => Some(s@),
                            None => None,
                        },
                ),
                i as int,
            ) == Some(s@),
            None => field(
                r@.map_values(
                    |f: Option<String>|
                        match f {
                            Some(s) => Some(s@),
                            None => None,
                        },
                ),
                i as int,
            ) is None,
        },
{
    if i < r.len() {
        match &r[i] {
            Some(s) => Some(s.clone()),
            None => None,
        }
    } else {
        None
    }
}

/// The roll call entries of parsed `(username, status)` records (an empty
/// list when the text did not parse).
pub fn roll_call_from_records(records: Option<Vec<Vec<Option<String>>>>) -> (r: Vec<RollCallEntry>)
    ensures
        roll_call_view(r@) == roll_call_entries(
            records_or_empty(
                match records {
                    Some(v) => Some(records_view(v@)),
                    None => None,
                },
            ),
        ),
{
    let recs = match records {
        Some(v) => v,
        None => Vec::new(),
    };
    let ghost rv = records_view(recs@);
    assert(records_or_empty(
        match records {
            Some(v) => Some(records_view(v@)),
            None => None,
        },
    ) == rv);
    let mut out: Vec<RollCallEntry> = Vec::new();
    let n = recs.len();
    for i in 0..n
        invariant
            n == recs@.len(),
            rv == records_view(recs@),
            roll_call_view(out@) == roll_call_entries(rv.subrange(0, i as int)),
    {
        assert(rv.subrange(0, i + 1).drop_last() =~= rv.subrange(0, i as int));
        let ghost before = out@;
        let u = opt_field(&recs[i], 0);
        let s = opt_field(&recs[i], 1);
        match (u, s) {
            (Some(u), Some(s)) => {
                out.push(RollCallEntry { username: u, status: s });
                assert(roll_call_view(out@) =~= roll_call_view(before).push((u@, s@)));
            },
            _ => {},
        }
        assert(roll_call_view(out@) =~= roll_call_entries(rv.subrange(0, i + 1)));
    }
    assert(rv.subrange(0, n as int) =~= rv);
    out
}

/// The field names of a roll call record.
pub open spec fn roll_call_keys() -> Seq<Seq<char>> {
    seq!["username"@, "status"@]
}

impl MeetingDetail {
    /// The roll call: entries of the stored JSON that have a string
    /// `username` and `status`; none when the JSON does not parse.
    pub fn roll_call_list(&self) -> (r: Vec<RollCallEntry>)
        ensures
            roll_call_view(r@) == roll_call_entries(
                records_or_empty(json_records(self.roll_call_data@, roll_call_keys())),
            ),
    {
        let keys: [&str; 2] = ["username", "status"];
        proof {
            reveal_strlit("username");
            reveal_strlit("status");
        }
        assert(key_views(keys@) =~= roll_call_keys());
        let parsed = parse_json_records(self.roll_call_data.as_str(), keys.as_slice());
        roll_call_from_records(parsed)
    }
}

/// Minutes of a meeting.
#[derive(Debug)]
pub struct Minutes {
    pub id: i64,
    pub name: String,
    pub label: String,
    /// "draft", "pending_approval" or "approved".
    pub status: String,
    pub generated_date: String,
    pub meeting_id: i64,
    pub meeting_name: String,
    pub approved_by: String,
    pub approved_date: String,
    /// JSON: `["name/email"]`.
    pub distribution_list: String,
    /// JSON: `[{user_id, name, status, delegation_to}]`.
    pub structured_attendance: String,
    /// JSON: `[{description, responsible, due_date, status}]`.
    pub structured_action_items: String,
}

/// One attendance record of the minutes.
#[derive(Debug)]
pub struct AttendanceEntry {
    pub name: String,
    pub status: String,
    pub delegation_to: String,
}

/// One action item of the minutes.
#[derive(Debug)]
pub struct ActionItem {
    pub description: String,
    pub responsible: String,
    pub due_date: String,
    pub status: String,
}

/// A section of the minutes.
#[derive(Debug)]
pub struct MinutesSection {
    pub id: i64,
    pub name: String,
    pub label: String,
    pub section_type: String,
    pub sequence_order: i64,
    pub content: String,
    pub is_auto_generated: bool,
}

/// An optional field, empty text when absent.
pub open spec fn or_empty(f: Option<Seq<char>>) -> Seq<char> {
    match f {
        Some(s) => s,
        None => Seq::empty(),
    }
}

/// Attendance from `(name, status, delegation_to)` records: those with a
/// name and a status, the delegation empty when absent.
pub open spec fn attendance_entries(recs: Seq<Seq<Option<Seq<char>>>>) -> Seq<
    (Seq<char>, Seq<char>, Seq<char>),
>
    decreases recs.len(),
{
    if recs.len() == 0 {
        Seq::empty()
    } else {
        let r = recs.last();
        attendance_entries(recs.drop_last()) + match (field(r, 0), field(r, 1)) {
            (Some(n), Some(s)) => seq![(n, s, or_empty(field(r, 2)))],
            _ => Seq::empty(),
        }
    }
}

/// Action items from `(description, responsible, due_date, status)`
/// records: those with a description, a responsible and a status, the due
/// date empty when absent.
pub open spec fn action_entries(recs: Seq<Seq<Option<Seq<char>>>>) -> Seq<
    (Seq<char>, Seq<char>, Seq<char>, Seq<char>),
>
    decreases recs.len(),
{
    if recs.len() == 0 {
        Seq::empty()
    } else {
        let r = recs.last();
        action_entries(recs.drop_last()) + match (field(r, 0), field(r, 1), field(r, 3)) {
            (Some(d), Some(p), Some(s)) => seq![(d, p, or_empty(field(r, 2)), s)],
            _ => Seq::empty(),
        }
    }
}

/// The views of attendance entries.
pub open spec fn attendance_view(v: Seq<AttendanceEntry>) -> Seq<(Seq<char>, Seq<char>, Seq<char>)> {
    v.map_values(|e: AttendanceEntry| (e.name@, e.status@, e.delegation_to@))
}

/// The views of action items.
pub open spec fn action_view(v: Seq<ActionItem>) -> Seq<(Seq<char>, Seq<char>, Seq<char>, Seq<char>)> {
    v.map_values(|e: ActionItem| (e.description@, e.responsible@, e.due_date@, e.status@))
}

/// The field names of an attendance record.
pub open spec fn attendance_keys() -> Seq<Seq<char>> {
    seq!["name"@, "status"@, "delegation_to"@]
}

/// The field names of an action item record.
pub open spec fn action_keys() -> Seq<Seq<char>> {
    seq!["description"@, "responsible"@, "due_date"@, "status"@]
}

fn string_or_empty(f: Option<String>) -> (r: String)
    ensures
        r@ == match f {
            Some(s) => s@,
            None => Seq::<char>::empty(),
        },
{
    match f {
        Some(s) => s,
        None => String::new(),
    }
}

/// Attendance entries of parsed records.
pub fn attendance_from_records(records: Option<Vec<Vec<Option<String>>>>) -> (r: Vec<
    AttendanceEntry,
>)
    ensures
        attendance_view(r@) == attendance_entries(
            records_or_empty(
                match records {
                    Some(v) => Some(records_view(v@)),
                    None => None,
                },
            ),
        ),
{
    let recs = match records {
        Some(v) => v,
        None => Vec::new(),
    };
    let ghost rv = records_view(recs@);
    let mut out: Vec<AttendanceEntry> = Vec::new();
    let n = recs.len();
    for i in 0..n
        invariant
            n == recs@.len(),
            rv == records_view(recs@),
            attendance_view(out@) == attendance_entries(rv.subrange(0, i as int)),
    {
        assert(rv.subrange(0, i + 1).drop_last() =~= rv.subrange(0, i as int));
        let ghost before = out@;
        let a = opt_field(&recs[i], 0);
        let b = opt_field(&recs[i], 1);
        let c = opt_field(&recs[i], 2);
        match (a, b) {
            (Some(a), Some(b)) => {
                let d = string_or_empty(c);
                out.push(AttendanceEntry { name: a, status: b, delegation_to: d });
                assert(attendance_view(out@) =~= attendance_view(before).push((a@, b@, d@)));
            },
            _ => {},
        }
        assert(attendance_view(out@) =~= attendance_entries(rv.subrange(0, i + 1)));
    }
    assert(rv.subrange(0, n as int) =~= rv);
    out
}

/// Action items of parsed records.
pub fn action_items_from_records(records: Option<Vec<Vec<Option<String>>>>) -> (r: Vec<ActionItem>)
    ensures
        action_view(r@) == action_entries(
            records_or_empty(
                match records {
                    Some(v) => Some(records_view(v@)),
                    None => None,
                },
            ),
        ),
{
    let recs = match records {
        Some(v) => v,
        None => Vec::new(),
    };
    let ghost rv = records_view(recs@);
    let mut out: Vec<ActionItem> = Vec::new();
    let n = recs.len();
    for i in 0..n
        invariant
            n == recs@.len(),
            rv == records_view(recs@),
            action_view(out@) == action_entries(rv.subrange(0, i as int)),
    {
        assert(rv.subrange(0, i + 1).drop_last() =~= rv.subrange(0, i as int));
        let ghost before = out@;
        let a = opt_field(&recs[i], 0);
        let b = opt_field(&recs[i], 1);
        let c = opt_field(&recs[i], 2);
        let d = opt_field(&recs[i], 3);
        match (a, b, d) {
            (Some(a), Some(b), Some(d)) => {
                let due = string_or_empty(c);
                out.push(ActionItem { description: a, responsible: b, due_date: due, status: d });
                assert(action_view(out@) =~= action_view(before).push((a@, b@, due@, d@)));
            },
            _ => {},
        }
        assert(action_view(out@) =~= action_entries(rv.subrange(0, i + 1)));
    }
    assert(rv.subrange(0, n as int) =~= rv);
    out
}

impl Minutes {
    /// The distribution list; empty when the stored JSON is not a list of strings.
    pub fn distribution_items(&self) -> (r: Vec<String>)
        ensures
            r@.map_values(|s: String| s@) == match json_string_list(self.distribution_list@) {
                Some(v) => v,
                None => Seq::empty(),
            },
    {
        match parse_json_string_list(self.distribution_list.as_str()) {
            Some(v) => v,
            None => {
                let v: Vec<String> = Vec::new();
                assert(v@.map_values(|s: String| s@) =~= Seq::empty());
                v
            },
        }
    }

    /// The attendance records that have a name and a status.
    pub fn attendance_list(&self) -> (r: Vec<AttendanceEntry>)
        ensures
            attendance_view(r@) == attendance_entries(
                records_or_empty(json_records(self.structured_attendance@, attendance_keys())),
            ),
    {
        let keys: [&str; 3] = ["name", "status", "delegation_to"];
        assert(key_views(keys@) =~= attendance_keys());
        let parsed = parse_json_records(self.structured_attendance.as_str(), keys.as_slice());
        attendance_from_records(parsed)
    }

    /// The action items that have a description, a responsible and a status.
    pub fn action_items_list(&self) -> (r: Vec<ActionItem>)
        ensures
            action_view(r@) == action_entries(
                records_or_empty(json_records(self.structured_action_items@, action_keys())),
            ),
    {
        let keys: [&str; 4] = ["description", "responsible", "due_date", "status"];
        assert(key_views(keys@) =~= action_keys());
        let parsed = parse_json_records(self.structured_action_items.as_str(), keys.as_slice());
        action_items_from_records(parsed)
    }
}

/// A position of a ToR and who holds it, for the attendance section.
#[derive(Debug)]
pub struct PositionHolder {
    pub position_label: String,
    pub holder_label: Option<String>,
    /// "mandatory" or "optional".
    pub membership_type: String,
}

/// A step of a ToR's meeting protocol.
#[derive(Debug)]
pub struct ProtocolStep {
    pub id: i64,
    pub name: String,
    pub label: String,
    /// "procedural", "agenda_slot" or "fixed".
    pub step_type: String,
    pub sequence_order: i64,
    pub default_duration_minutes: Option<i64>,
    pub description: String,
    pub is_required: bool,
    pub responsible: String,
}

/// The attendance line of one position.
pub open spec fn attendance_line(p: PositionHolder) -> Seq<char> {
    let mandatory = p.membership_type@ == "mandatory"@;
    let holder = match p.holder_label {
        Some(l) => "**"@ + l@ + "**"@,
        None => if mandatory {
            "**VACANT — mandatory position**"@
        } else {
            "_Vacant_"@
        },
    };
    "- "@ + p.position_label@ + " — "@ + holder + (if mandatory {
        " [M]"@
    } else {
        Seq::empty()
    })
}

/// The attendance lines, each preceded by a line break.
pub open spec fn attendance_lines(ps: Seq<PositionHolder>) -> Seq<char>
    decreases ps.len(),
{
    if ps.len() == 0 {
        Seq::empty()
    } else {
        attendance_lines(ps.drop_last()) + "\n"@ + attendance_line(ps.last())
    }
}

/// The generated attendance section: a heading, then one line per position.
pub open spec fn attendance_content(ps: Seq<PositionHolder>) -> Seq<char> {
    "## Attendance\n"@ + attendance_lines(ps)
}

/// The attendance section is the heading `## Attendance` and then, for each
/// position in order, a new line `- <position> — <holder>`: the holder's
/// name in bold, or for a vacant position `**VACANT — mandatory position**`
/// when the position is mandatory and `_Vacant_` otherwise; the line ends
/// with ` [M]` exactly when the position is mandatory.
pub proof fn lemma_attendance_section(ps: Seq<PositionHolder>, p: PositionHolder)
    ensures
        attendance_content(Seq::empty()) == "## Attendance\n"@,
        attendance_content(ps.push(p)) == attendance_content(ps) + "\n- "@ + p.position_label@
            + " — "@ + (match p.holder_label {
            Some(l) => "**"@ + l@ + "**"@,
            None => if p.membership_type@ == "mandatory"@ {
                "**VACANT — mandatory position**"@
            } else {
                "_Vacant_"@
            },
        }) + (if p.membership_type@ == "mandatory"@ {
            " [M]"@
        } else {
            Seq::empty()
        }),
{
    reveal_strlit("\n");
    reveal_strlit("- ");
    reveal_strlit("\n- ");
    assert(attendance_lines(Seq::<PositionHolder>::empty()) =~= Seq::<char>::empty());
    assert("## Attendance\n"@ + Seq::<char>::empty() =~= "## Attendance\n"@);
    assert(ps.push(p).drop_last() =~= ps);
    assert(ps.push(p).last() == p);
    let mandatory = p.membership_type@ == "mandatory"@;
    let holder = match p.holder_label {
        Some(l) => "**"@ + l@ + "**"@,
        None => if mandatory {
            "**VACANT — mandatory position**"@
        } else {
            "_Vacant_"@
        },
    };
    let badge = if mandatory {
        " [M]"@
    } else {
        Seq::<char>::empty()
    };
    assert(attendance_content(ps.push(p)) =~= attendance_content(ps) + "\n- "@ + p.position_label@
        + " — "@ + holder + badge);
}

/// Appends a line break and the attendance line of one position.
fn push_attendance_line(out: &mut Vec<char>, m: &PositionHolder)
    ensures
        final(out)@ == old(out)@ + "\n"@ + attendance_line(*m),
{
    let ghost before = out@;
    let mt = chars_of(m.membership_type.as_str());
    let mandatory = crate::text::chars_eq_str(mt.as_slice(), "mandatory");
    push_str(out, "\n");
    push_str(out, "- ");
    push_str(out, m.position_label.as_str());
    push_str(out, " — ");
    match &m.holder_label {
        Some(l) => {
            push_str(out, "**");
            push_str(out, l.as_str());
            push_str(out, "**");
        },
        None => {
            if mandatory {
                push_str(out, "**VACANT — mandatory position**");
            } else {
                push_str(out, "_Vacant_");
            }
        },
    }
    if mandatory {
        push_str(out, " [M]");
    }
    assert(out@ =~= before + "\n"@ + attendance_line(*m));
}

/// Writes the attendance section for the positions of a ToR.
pub fn generate_attendance_content(members: &Vec<PositionHolder>) -> (r: String)
    ensures
        r@ == attendance_content(members@),
{
    let mut out = chars_of("## Attendance\n");
    let ghost head = out@;
    let n = members.len();
    for i in 0..n
        invariant
            n == members@.len(),
            out@ == head + attendance_lines(members@.subrange(0, i as int)),
            head == "## Attendance\n"@,
    {
        assert(members@.subrange(0, i + 1).drop_last() =~= members@.subrange(0, i as int));
        push_attendance_line(&mut out, &members[i]);
        assert(out@ =~= head + attendance_lines(members@.subrange(0, i + 1)));
    }
    assert(members@.subrange(0, n as int) =~= members@);
    text_of(out.as_slice())
}

/// The protocol line of one step.
pub open spec fn protocol_line(s: ProtocolStep) -> Seq<char> {
    decimal(s.sequence_order as int) + ". "@ + s.label@ + (match s.default_duration_minutes {
        Some(d) => " ("@ + decimal(d as int) + " min)"@,
        None => Seq::empty(),
    }) + (if s.is_required {
        " *"@
    } else {
        Seq::empty()
    })
}

/// The protocol lines, each preceded by a line break.
pub open spec fn protocol_lines(ss: Seq<ProtocolStep>) -> Seq<char>
    decreases ss.len(),
{
    if ss.len() == 0 {
        Seq::empty()
    } else {
        protocol_lines(ss.drop_last()) + "\n"@ + protocol_line(ss.last())
    }
}

/// The generated protocol section: a heading, then one numbered line per step.
pub open spec fn protocol_content(ss: Seq<ProtocolStep>) -> Seq<char> {
    "## Meeting Protocol\n"@ + protocol_lines(ss)
}

/// The protocol section is the heading `## Meeting Protocol` and then, for
/// each step in order, a new line `<order>. <label>`, followed by
/// ` (<minutes> min)` when the step has a default duration and by ` *`
/// exactly when the step is required.
pub proof fn lemma_protocol_section(steps: Seq<ProtocolStep>, s: ProtocolStep)
    ensures
        protocol_content(Seq::empty()) == "## Meeting Protocol\n"@,
        protocol_content(steps.push(s)) == protocol_content(steps) + "\n"@ + decimal(
            s.sequence_order as int,
        ) + ". "@ + s.label@ + (match s.default_duration_minutes {
            Some(m) => " ("@ + decimal(m as int) + " min)"@,
            None => Seq::empty(),
        }) + (if s.is_required {
            " *"@
        } else {
            Seq::empty()
        }),
{
    assert(protocol_lines(Seq::<ProtocolStep>::empty()) =~= Seq::<char>::empty());
    assert("## Meeting Protocol\n"@ + Seq::<char>::empty() =~= "## Meeting Protocol\n"@);
    assert(steps.push(s).drop_last() =~= steps);
    assert(steps.push(s).last() == s);
    let l = protocol_line(s);
    vstd::seq_lib::lemma_concat_associative("## Meeting Protocol\n"@, protocol_lines(steps) + "\n"@, l);
    vstd::seq_lib::lemma_concat_associative("## Meeting Protocol\n"@, protocol_lines(steps), "\n"@);
    let d = decimal(s.sequence_order as int);
    let dur = match s.default_duration_minutes {
        Some(m) => " ("@ + decimal(m as int) + " min)"@,
        None => Seq::<char>::empty(),
    };
    let star = if s.is_required {
        " *"@
    } else {
        Seq::<char>::empty()
    };
    let h = protocol_content(steps) + "\n"@;
    assert(h + l =~= h + d + ". "@ + s.label@ + dur + star);
}

/// Writes the protocol section for the protocol steps of a ToR.
pub fn generate_protocol_content(steps: &Vec<ProtocolStep>) -> (r: String)
    ensures
        r@ == protocol_content(steps@),
{
    let mut out = chars_of("## Meeting Protocol\n");
    let ghost head = out@;
    let n = steps.len();
    for i in 0..n
        invariant
            n == steps@.len(),
            out@ == head + protocol_lines(steps@.subrange(0, i as int)),
    {
        assert(steps@.subrange(0, i + 1).drop_last() =~= steps@.subrange(0, i as int));
        let ghost before = out@;
        let s = &steps[i];
        push_str(&mut out, "\n");
        let d = decimal_chars(s.sequence_order);
        push_chars(&mut out, d.as_slice());
        push_str(&mut out, ". ");
        push_str(&mut out, s.label.as_str());
        match s.default_duration_minutes {
            Some(m) => {
                push_str(&mut out, " (");
                let md = decimal_chars(m);
                push_chars(&mut out, md.as_slice());
                push_str(&mut out, " min)");
            },
            None => {},
        }
        if s.is_required {
            push_str(&mut out, " *");
        }
        assert(out@ =~= before + "\n"@ + protocol_line(*s));
        assert(out@ =~= head + protocol_lines(steps@.subrange(0, i + 1)));
    }
    assert(steps@.subrange(0, n as int) =~= steps@);
    text_of(out.as_slice())
}

/// The entity name of the minutes of a meeting.
pub open spec fn minutes_name(meeting_name: Seq<char>) -> Seq<char> {
    "minutes_"@ + replace_char(lowercase_of(meeting_name), ' ', seq!['_'])
}

/// The entity label of the minutes of a meeting.
pub open spec fn minutes_label(meeting_name: Seq<char>) -> Seq<char> {
    "Minutes — "@ + meeting_name
}

/// The name and label of the minutes generated for a meeting.
pub fn minutes_identity(meeting_name: &str) -> (r: (String, String))
    ensures
        r.0@ == minutes_name(meeting_name@),
        r.1@ == minutes_label(meeting_name@),
{
    let low = to_lowercase(meeting_name);
    let lc = chars_of(low.as_str());
    let mut us: Vec<char> = Vec::new();
    us.push('_');
    let replaced = replace_char_exec(lc.as_slice(), ' ', us.as_slice());
    let mut name = chars_of("minutes_");
    push_chars(&mut name, replaced.as_slice());
    assert(us@ =~= seq!['_']);
    let mut label = chars_of("Minutes — ");
    push_str(&mut label, meeting_name);
    (text_of(name.as_slice()), text_of(label.as_slice()))
}

/// A section of a generated minutes scaffold.
#[derive(Debug)]
pub struct ScaffoldSection {
    pub name: String,
    pub label: String,
    pub section_type: String,
    pub sequence_order: i64,
    pub content: String,
}

/// The sections of the scaffold of minutes `minutes_id`: type, label and
/// content of each, in order.
pub open spec fn scaffold_plan(attendance: Seq<char>, protocol: Seq<char>) -> Seq<
    (Seq<char>, Seq<char>, Seq<char>),
> {
    seq![
        ("attendance"@, "Attendance"@, attendance),
        ("protocol"@, "Meeting Protocol"@, protocol),
        ("agenda_items"@, "Agenda Items"@, "No agenda items recorded."@),
        ("decisions"@, "Decisions"@, "No decisions recorded."@),
        ("action_items"@, "Action Items"@, "No action items recorded."@),
    ]
}

/// The scaffold sections match the plan: names `<type>_<minutes id>`,
/// sequence numbers from 1.
pub open spec fn scaffold_of(
    attendance: Seq<char>,
    protocol: Seq<char>,
    minutes_id: i64,
    r: Seq<ScaffoldSection>,
) -> bool {
    let plan = scaffold_plan(attendance, protocol);
    &&& r.len() == plan.len()
    &&& forall|i: int|
        0 <= i < plan.len() ==> {
            &&& (#[trigger] r[i]).section_type@ == plan[i].0
            &&& r[i].label@ == plan[i].1
            &&& r[i].content@ == plan[i].2
            &&& r[i].name@ == plan[i].0 + "_"@ + decimal(minutes_id as int)
            &&& r[i].sequence_order == i + 1
        }
}

fn scaffold_section(section_type: &str, label: &str, content: String, order: i64, id_text: &[char]) -> (r:
    ScaffoldSection)
    ensures
        r.section_type@ == section_type@,
        r.label@ == label@,
        r.content@ == content@,
        r.name@ == section_type@ + "_"@ + id_text@,
        r.sequence_order == order,
{
    let mut name = chars_of(section_type);
    push_str(&mut name, "_");
    push_chars(&mut name, id_text);
    ScaffoldSection {
        name: text_of(name.as_slice()),
        label: String::from_str(label),
        section_type: String::from_str(section_type),
        sequence_order: order,
        content,
    }
}

/// The five auto-generated sections of new minutes.
pub fn scaffold_sections(attendance: String, protocol: String, minutes_id: i64) -> (r: Vec<
    ScaffoldSection,
>)
    ensures
        scaffold_of(attendance@, protocol@, minutes_id, r@),
{
    let id_text = decimal_chars(minutes_id);
    let mut r: Vec<ScaffoldSection> = Vec::new();
    r.push(scaffold_section("attendance", "Attendance", attendance, 1, id_text.as_slice()));
    r.push(scaffold_section("protocol", "Meeting Protocol", protocol, 2, id_text.as_slice()));
    r.push(
        scaffold_section(
            "agenda_items",
            "Agenda Items",
            String::from_str("No agenda items recorded."),
            3,
            id_text.as_slice(),
        ),
    );
    r.push(
        scaffold_section(
            "decisions",
            "Decisions",
            String::from_str("No decisions recorded."),
            4,
            id_text.as_slice(),
        ),
    );
    r.push(
        scaffold_section(
            "action_items",
            "Action Items",
            String::from_str("No action items recorded."),
            5,
            id_text.as_slice(),
        ),
    );
    r
}

/// The properties stored on newly generated minutes: status "draft" and
/// the date they were generated.
pub fn minutes_properties(generated_date: &str) -> (r: Vec<(String, String)>)
    ensures
        pair_views(r@) == seq![("status"@, "draft"@), ("generated_date"@, generated_date@)],
{
    let mut out: Vec<(String, String)> = Vec::new();
    out.push((String::from_str("status"), String::from_str("draft")));
    out.push((String::from_str("generated_date"), text_of(chars_of(generated_date).as_slice())));
    assert(pair_views(out@) =~= seq![("status"@, "draft"@), ("generated_date"@, generated_date@)]);
    out
}

/// The properties stored on a generated section: its type, its place, its
/// content, and the mark that it was generated.
pub open spec fn section_stored(s: ScaffoldSection) -> Seq<(Seq<char>, Seq<char>)> {
    seq![
        ("section_type"@, s.section_type@),
        ("sequence_order"@, decimal(s.sequence_order as int)),
        ("content"@, s.content@),
        ("is_auto_generated"@, "true"@),
    ]
}

/// The properties stored on a section of a generated minutes scaffold.
pub fn scaffold_section_properties(s: &ScaffoldSection) -> (r: Vec<(String, String)>)
    ensures
        pair_views(r@) == section_stored(*s),
{
    let mut out: Vec<(String, String)> = Vec::new();
    out.push((String::from_str("section_type"), text_of(chars_of(s.section_type.as_str()).as_slice())));
    out.push((String::from_str("sequence_order"), decimal_string(s.sequence_order)));
    out.push((String::from_str("content"), text_of(chars_of(s.content.as_str()).as_slice())));
    out.push((String::from_str("is_auto_generated"), String::from_str("true")));
    assert(pair_views(out@) =~= section_stored(*s));
    out
}

/// The generated minutes have five sections, in this order: attendance
/// (with the generated attendance text), the meeting protocol (with the
/// generated protocol text), then empty agenda items, decisions and action
/// items sections; each is named `<type>_<minutes id>` and numbered from 1.
pub proof fn lemma_scaffold_sections(
    attendance: Seq<char>,
    protocol: Seq<char>,
    minutes_id: i64,
    r: Seq<ScaffoldSection>,
)
    requires
        scaffold_of(attendance, protocol, minutes_id, r),
    ensures
        r.len() == 5,
        r[0].section_type@ == "attendance"@ && r[0].label@ == "Attendance"@ && r[0].content@
            == attendance,
        r[1].section_type@ == "protocol"@ && r[1].label@ == "Meeting Protocol"@ && r[1].content@
            == protocol,
        r[2].section_type@ == "agenda_items"@ && r[2].label@ == "Agenda Items"@ && r[2].content@
            == "No agenda items recorded."@,
        r[3].section_type@ == "decisions"@ && r[3].label@ == "Decisions"@ && r[3].content@
            == "No decisions recorded."@,
        r[4].section_type@ == "action_items"@ && r[4].label@ == "Action Items"@ && r[4].content@
            == "No action items recorded."@,
        forall|i: int|
            0 <= i < 5 ==> (#[trigger] r[i]).name@ == r[i].section_type@ + "_"@ + decimal(
                minutes_id as int,
            ) && r[i].sequence_order == i + 1,
{
    assert(scaffold_plan(attendance, protocol).len() == 5);
}

/// The entity name of a meeting of a ToR on a date.
pub open spec fn meeting_name(tor_name: Seq<char>, meeting_date: Seq<char>) -> Seq<char> {
    replace_char(lowercase_of(tor_name), ' ', seq!['-']) + "-"@ + meeting_date
}

/// The entity label of a meeting of a ToR on a date.
pub open spec fn meeting_label(tor_name: Seq<char>, meeting_date: Seq<char>) -> Seq<char> {
    tor_name + " — "@ + meeting_date
}

/// The name and label of a new meeting.
pub fn meeting_identity(tor_name: &str, meeting_date: &str) -> (r: (String, String))
    ensures
        r.0@ == meeting_name(tor_name@, meeting_date@),
        r.1@ == meeting_label(tor_name@, meeting_date@),
{
    let low = to_lowercase(tor_name);
    let lc = chars_of(low.as_str());
    let mut dash: Vec<char> = Vec::new();
    dash.push('-');
    assert(dash@ =~= seq!['-']);
    let mut name = replace_char_exec(lc.as_slice(), ' ', dash.as_slice());
    push_str(&mut name, "-");
    push_str(&mut name, meeting_date);
    let mut label = chars_of(tor_name);
    push_str(&mut label, " — ");
    push_str(&mut label, meeting_date);
    (text_of(name.as_slice()), text_of(label.as_slice()))
}

/// The optional fields of a new meeting, in the order they are stored.
#[derive(Debug)]
pub struct MeetingFields {
    pub meeting_date: String,
    pub location: String,
    pub notes: String,
    pub meeting_number: String,
    pub classification: String,
    pub vtc_details: String,
    pub chair_user_id: String,
    pub secretary_user_id: String,
}

/// One property when its value is not empty, none otherwise.
pub open spec fn when_filled(key: Seq<char>, value: Seq<char>) -> Seq<(Seq<char>, Seq<char>)> {
    if value.len() > 0 {
        seq![(key, value)]
    } else {
        Seq::empty()
    }
}

/// The properties stored for a new meeting: `meeting_date` and `status`
/// ("projected") always, then each other field in order when it is not empty.
pub open spec fn meeting_stored(f: MeetingFields) -> Seq<(Seq<char>, Seq<char>)> {
    seq![("meeting_date"@, f.meeting_date@), ("status"@, "projected"@)]
        + when_filled("location"@, f.location@)
        + when_filled("notes"@, f.notes@)
        + when_filled("meeting_number"@, f.meeting_number@)
        + when_filled("classification"@, f.classification@)
        + when_filled("vtc_details"@, f.vtc_details@)
        + when_filled("chair_user_id"@, f.chair_user_id@)
        + when_filled("secretary_user_id"@, f.secretary_user_id@)
}

/// Appends the pair when `always` holds or the value is not empty.
fn push_if(out: &mut Vec<(String, String)>, key: &str, value: &String, always: bool)
    ensures
        pair_views(final(out)@) == pair_views(old(out)@) + if always {
            seq![(key@, value@)]
        } else {
            when_filled(key@, value@)
        },
{
    let ghost before = out@;
    if always || !value.as_str().is_empty() {
        out.push((String::from_str(key), value.clone()));
    }
    assert(pair_views(out@) =~= pair_views(before) + if always {
        seq![(key@, value@)]
    } else {
        when_filled(key@, value@)
    });
}

/// The properties to store for a new meeting (see `meeting_stored`).
pub fn meeting_properties(f: &MeetingFields) -> (r: Vec<(String, String)>)
    ensures
        pair_views(r@) == meeting_stored(*f),
{
    let mut out: Vec<(String, String)> = Vec::new();
    assert(pair_views(out@) =~= Seq::empty());
    let status = String::from_str("projected");
    push_if(&mut out, "meeting_date", &f.meeting_date, true);
    push_if(&mut out, "status", &status, true);
    push_if(&mut out, "location", &f.location, false);
    push_if(&mut out, "notes", &f.notes, false);
    push_if(&mut out, "meeting_number", &f.meeting_number, false);
    push_if(&mut out, "classification", &f.classification, false);
    push_if(&mut out, "vtc_details", &f.vtc_details, false);
    push_if(&mut out, "chair_user_id", &f.chair_user_id, false);
    push_if(&mut out, "secretary_user_id", &f.secretary_user_id, false);
    assert(pair_views(out@) =~= meeting_stored(*f));
    out
}

} // verus!
