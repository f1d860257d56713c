//! The governance records of a ToR: suggestions, proposals, agenda points,
//! courses of action, documents, opinions and decisions.
//!
//! Each record is an entity with string properties; this module computes
//! the names, labels and properties that are stored, and reads list rows
//! back into display items.
use vstd::prelude::*;
use vstd::string::*;
use crate::text::{
    chars_of, text_of, push_chars, push_str, decimal, decimal_chars, decimal_string, lowercase_of,
    to_lowercase, alphanumeric, is_alphanumeric, replace_char, replace_char_exec, parse_i64_spec,
    parse_i64_or_zero, parse_i32_spec, parse_i32_or_zero, head_of,
};
use crate::props::pair_views;
use crate::meetings::when_filled;

verus! {

/// Suggestion as shown in the workflow list view.
#[derive(Debug)]
pub struct SuggestionListItem {
    pub id: i64,
    pub description: String,
    pub description_preview: String,
    pub submitted_by_id: i64,
    pub submitted_by_name: String,
    pub submitted_date: String,
    pub status: String,
    pub rejection_reason: Option<String>,
    pub spawned_proposal_id: Option<i64>,
}

/// Suggestion as shown in the cross-ToR workflow index view.
#[derive(Debug)]
pub struct CrossTorSuggestionItem {
    pub tor_id: i64,
    pub tor_name: String,
    pub id: i64,
    pub description: String,
    pub description_preview: String,
    pub submitted_by_id: i64,
    pub submitted_by_name: String,
    pub submitted_date: String,
    pub status: String,
    pub rejection_reason: Option<String>,
    pub spawned_proposal_id: Option<i64>,
}

/// Full suggestion detail.
#[derive(Debug)]
pub struct SuggestionDetail {
    pub id: i64,
    pub description: String,
    pub submitted_by_id: i64,
    pub submitted_by_name: String,
    pub submitted_date: String,
    pub status: String,
    pub rejection_reason: Option<String>,
    pub spawned_proposal_id: Option<i64>,
}

/// Form input for creating a suggestion.
#[derive(Debug)]
pub struct SuggestionForm {
    pub description: String,
    pub csrf_token: String,
}

/// Proposal as shown in the workflow list view.
#[derive(Debug)]
pub struct ProposalListItem {
    pub id: i64,
    pub title: String,
    pub submitted_by_id: i64,
    pub submitted_by_name: String,
    pub submitted_date: String,
    pub status: String,
    pub rejection_reason: Option<String>,
    pub related_suggestion_id: Option<i64>,
}

/// Proposal as shown in the cross-ToR workflow index view.
#[derive(Debug)]
pub struct CrossTorProposalItem {
    pub tor_id: i64,
    pub tor_name: String,
    pub id: i64,
    pub title: String,
    pub submitted_by_id: i64,
    pub submitted_by_name: String,
    pub submitted_date: String,
    pub status: String,
    pub rejection_reason: Option<String>,
    pub related_suggestion_id: Option<i64>,
}

/// Full proposal detail.
#[derive(Debug)]
pub struct ProposalDetail {
    pub id: i64,
    pub title: String,
    pub description: String,
    pub rationale: String,
    pub submitted_by_id: i64,
    pub submitted_by_name: String,
    pub submitted_date: String,
    pub status: String,
    pub rejection_reason: Option<String>,
    pub related_suggestion_id: Option<i64>,
}

/// Form input for creating/editing a proposal.
#[derive(Debug)]
pub struct ProposalForm {
    pub title: String,
    pub description: String,
    pub rationale: String,
    pub related_suggestion_id: Option<String>,
    pub csrf_token: String,
}

/// Agenda point as shown in the workflow list view.
#[derive(Debug)]
pub struct AgendaPointListItem {
    pub id: i64,
    pub title: String,
    pub description: String,
    pub status: String,
    pub scheduled_date: String,
    /// "informative" or "decision"
    pub item_type: String,
    pub tor_id: i64,
}

/// Agenda point as shown in the cross-ToR workflow index view.
#[derive(Debug)]
pub struct CrossTorAgendaItem {
    pub tor_id: i64,
    pub tor_name: String,
    pub id: i64,
    pub title: String,
    pub description: String,
    pub status: String,
    pub scheduled_date: String,
    pub item_type: String,
}

/// Full agenda point detail.
#[derive(Debug)]
pub struct AgendaPointDetail {
    pub id: i64,
    pub title: String,
    pub description: String,
    pub status: String,
    pub item_type: String,
    pub tor_id: i64,
    pub created_by: i64,
    pub created_date: String,
    pub scheduled_date: String,
    pub time_allocation_minutes: i32,
    /// The courses of action considered for a decision item.
    pub coa_ids: Vec<i64>,
}

/// Form input for creating/editing an agenda point.
#[derive(Debug)]
pub struct AgendaPointForm {
    pub title: String,
    pub description: String,
    pub item_type: String,
    pub scheduled_date: String,
    pub time_allocation_minutes: String,
    pub csrf_token: String,
}

/// Course of action as shown in the list view.
#[derive(Debug)]
pub struct CoaListItem {
    pub id: i64,
    pub title: String,
    /// "simple" or "complex"
    pub coa_type: String,
    pub created_by: i64,
    pub created_date: String,
}

/// Full course of action detail with nested sections.
#[derive(Debug)]
pub struct CoaDetail {
    pub id: i64,
    pub title: String,
    pub description: String,
    pub coa_type: String,
    pub created_by: i64,
    pub created_date: String,
    pub sections: Vec<CoaSection>,
}

/// A section of a complex course of action.
#[derive(Debug)]
pub struct CoaSection {
    pub id: i64,
    pub title: String,
    pub content: String,
    pub order: i32,
    pub subsections: Vec<CoaSubsection>,
}

/// A subsection nested within a section.
#[derive(Debug)]
pub struct CoaSubsection {
    pub id: i64,
    pub title: String,
    pub content: String,
    pub order: i32,
}

/// Form input for creating/editing a course of action.
#[derive(Debug)]
pub struct CoaForm {
    pub title: String,
    pub description: String,
    pub coa_type: String,
    pub csrf_token: String,
}

/// Document as shown in the list view.
#[derive(Debug)]
pub struct DocumentListItem {
    pub id: i64,
    pub title: String,
    pub doc_type: String,
    pub created_by_id: i64,
    pub created_by_name: String,
    pub created_date: String,
    pub tor_id: Option<i64>,
    pub tor_name: Option<String>,
}

/// Full document detail.
#[derive(Debug)]
pub struct DocumentDetail {
    pub id: i64,
    pub title: String,
    pub doc_type: String,
    pub body: String,
    pub created_by_id: i64,
    pub created_by_name: String,
    pub created_date: String,
    /// Empty when never updated.
    pub updated_date: String,
    /// 0 when not scoped to a ToR.
    pub tor_id: i64,
    /// Empty when not scoped to a ToR.
    pub tor_name: String,
}

/// Form input for creating/editing a document.
#[derive(Debug)]
pub struct DocumentForm {
    pub title: String,
    pub doc_type: String,
    pub body: String,
    pub tor_id: Option<String>,
    pub csrf_token: String,
}

/// Opinion as shown in the list view for an agenda point.
#[derive(Debug)]
pub struct OpinionListItem {
    pub id: i64,
    pub recorded_by: i64,
    pub recorded_by_name: String,
    pub preferred_coa_id: i64,
    pub commentary: String,
    pub created_date: String,
}

/// Full opinion detail.
#[derive(Debug)]
pub struct OpinionDetail {
    pub id: i64,
    pub agenda_point_id: i64,
    pub recorded_by: i64,
    pub recorded_by_name: String,
    pub preferred_coa_id: i64,
    pub coa_title: String,
    pub commentary: String,
    pub created_date: String,
}

/// Form input for recording an opinion on an agenda item.
#[derive(Debug)]
pub struct OpinionForm {
    pub preferred_coa_id: i64,
    pub commentary: String,
    pub csrf_token: String,
}

/// Opinions grouped by preferred course of action.
#[derive(Debug)]
pub struct OpinionSummary {
    pub coa_id: i64,
    pub coa_title: String,
    pub preference_count: i32,
    pub opinions: Vec<OpinionListItem>,
}

/// The final decision on an agenda item.
#[derive(Debug)]
pub struct DecisionRecord {
    pub id: i64,
    pub agenda_point_id: i64,
    pub decided_by: i64,
    pub decided_by_name: String,
    pub selected_coa_id: i64,
    pub decision_rationale: String,
    pub decided_date: String,
    pub opinion_count: i32,
    pub opinions_summary: String,
}

// ---------------------------------------------------------------------
// Previews and slugs
// ---------------------------------------------------------------------

/// The preview of a text: its first `max_len` characters and "..." when it
/// is longer than that, the text itself otherwise.
pub open spec fn preview_spec(s: Seq<char>, max_len: usize) -> Seq<char> {
    if s.len() > max_len {
        s.take(max_len as int) + "..."@
    } else {
        s
    }
}

/// Truncates a text to `max_len` characters, appending "..." when it was
/// cut.
pub fn make_preview(s: &str, max_len: usize) -> (r: String)
    ensures
        r@ == preview_spec(s@, max_len),
{
    let chars = chars_of(s);
    if chars.len() > max_len {
        let mut v = head_of(chars.as_slice(), max_len);
        push_str(&mut v, "...");
        text_of(v.as_slice())
    } else {
        text_of(chars.as_slice())
    }
}

/// A character of a slug: a space becomes `_`.
pub open spec fn slug_char(c: char) -> char {
    if c == ' ' {
        '_'
    } else {
        c
    }
}

/// The slug of an already lowercased text: spaces become underscores and
/// only alphanumeric characters and underscores are kept.
pub open spec fn slug(s: Seq<char>) -> Seq<char>
    decreases s.len(),
{
    if s.len() == 0 {
        Seq::empty()
    } else {
        let c = slug_char(s.last());
        if alphanumeric(c) || c == '_' {
            slug(s.drop_last()).push(c)
        } else {
            slug(s.drop_last())
        }
    }
}

/// A slug holds only alphanumeric characters and underscores.
pub proof fn lemma_slug_characters(s: Seq<char>)
    ensures
        forall|i: int|
            0 <= i < slug(s).len() ==> alphanumeric(#[trigger] slug(s)[i]) || slug(s)[i] == '_',
    decreases s.len(),
{
    if s.len() > 0 {
        let t = s.drop_last();
        lemma_slug_characters(t);
        let c = slug_char(s.last());
        assert forall|i: int| 0 <= i < slug(s).len() implies alphanumeric(#[trigger] slug(s)[i])
            || slug(s)[i] == '_' by {
            if i < slug(t).len() {
                assert(slug(s)[i] == slug(t)[i]);
            }
        }
    }
}

/// The entity name derived from a title: lowercased, spaces to
/// underscores, keeping only alphanumeric characters and underscores.
pub fn name_from_title(title: &str) -> (r: String)
    ensures
        r@ == slug(lowercase_of(title@)),
{
    let lower = to_lowercase(title);
    let v = chars_of(lower.as_str());
    let mut out: Vec<char> = Vec::new();
    let n = v.len();
    for i in 0..n
        invariant
            n == v@.len(),
            out@ == slug(v@.subrange(0, i as int)),
    {
        assert(v@.subrange(0, i + 1).drop_last() =~= v@.subrange(0, i as int));
        let c = if v[i] == ' ' {
            '_'
        } else {
            v[i]
        };
        if is_alphanumeric(c) || c == '_' {
            out.push(c);
        }
    }
    assert(v@.subrange(0, n as int) =~= v@);
    text_of(out.as_slice())
}

/// `prefix`, the date with dashes turned into underscores, `_` and the id.
pub open spec fn dated_name(prefix: Seq<char>, date: Seq<char>, tor_id: i64) -> Seq<char> {
    prefix + replace_char(date, '-', "_"@) + "_"@ + decimal(tor_id as int)
}

/// Builds a dated entity name.
fn dated_name_exec(prefix: &str, date: &str, tor_id: i64) -> (r: String)
    ensures
        r@ == dated_name(prefix@, date@, tor_id),
{
    let mut out = chars_of(prefix);
    let d = chars_of(date);
    let us = chars_of("_");
    let dd = replace_char_exec(d.as_slice(), '-', us.as_slice());
    push_chars(&mut out, dd.as_slice());
    push_str(&mut out, "_");
    let id = decimal_chars(tor_id);
    push_chars(&mut out, id.as_slice());
    text_of(out.as_slice())
}

/// Copies a string slice.
fn owned(s: &str) -> (r: String)
    ensures
        r@ == s@,
{
    text_of(chars_of(s).as_slice())
}

// ---------------------------------------------------------------------
// Suggestions
// ---------------------------------------------------------------------

/// The entity name of a suggestion: `suggestion_<date>_<tor>`.
pub fn suggestion_name(submitted_date: &str, tor_id: i64) -> (r: String)
    ensures
        r@ == dated_name("suggestion_"@, submitted_date@, tor_id),
{
    dated_name_exec("suggestion_", submitted_date, tor_id)
}

/// The properties stored on a new suggestion, which starts "open".
pub fn suggestion_properties(description: &str, submitted_date: &str, submitted_by_id: i64) -> (r:
    Vec<(String, String)>)
    ensures
        pair_views(r@) == seq![
            ("description"@, description@),
            ("submitted_date"@, submitted_date@),
            ("status"@, "open"@),
            ("submitted_by_id"@, decimal(submitted_by_id as int)),
        ],
{
    let mut v: Vec<(String, String)> = Vec::new();
    v.push((String::from_str("description"), owned(description)));
    v.push((String::from_str("submitted_date"), owned(submitted_date)));
    v.push((String::from_str("status"), String::from_str("open")));
    v.push((String::from_str("submitted_by_id"), decimal_string(submitted_by_id)));
    assert(pair_views(v@) =~= seq![
        ("description"@, description@),
        ("submitted_date"@, submitted_date@),
        ("status"@, "open"@),
        ("submitted_by_id"@, decimal(submitted_by_id as int)),
    ]);
    v
}

/// The properties written when a suggestion changes status: the status,
/// and the rejection reason when one is given.
pub fn suggestion_status_properties(new_status: &str, rejection_reason: Option<&str>) -> (r: Vec<
    (String, String),
>)
    ensures
        pair_views(r@) == seq![("status"@, new_status@)] + match rejection_reason {
            Some(reason) => seq![("rejection_reason"@, reason@)],
            None => Seq::empty(),
        },
{
    let mut v: Vec<(String, String)> = Vec::new();
    v.push((String::from_str("status"), owned(new_status)));
    match rejection_reason {
        Some(reason) => {
            v.push((String::from_str("rejection_reason"), owned(reason)));
        },
        None => {},
    }
    assert(pair_views(v@) =~= seq![("status"@, new_status@)] + match rejection_reason {
        Some(reason) => seq![("rejection_reason"@, reason@)],
        None => Seq::<(Seq<char>, Seq<char>)>::empty(),
    });
    v
}

/// A suggestion row as read from the store.
#[derive(Debug)]
pub struct SuggestionRow {
    pub id: i64,
    pub description: String,
    pub submitted_date: String,
    pub status: String,
    pub submitted_by_id: String,
    pub submitted_by_name: String,
    pub rejection_reason: Option<String>,
    pub spawned_proposal_id: Option<i64>,
}

/// An id read from text: the number, or 0 when the text is not one.
pub open spec fn id_or_zero(s: Seq<char>) -> i64 {
    match parse_i64_spec(s) {
        Some(v) => v as i64,
        None => 0,
    }
}

/// The list item of a suggestion row: the submitter id read as a number
/// (0 when it is not one) and a preview of the first 100 bytes.
pub fn suggestion_list_item(row: SuggestionRow) -> (r: SuggestionListItem)
    ensures
        r.id == row.id,
        r.description == row.description,
        r.description_preview@ == preview_spec(row.description@, 100),
        r.submitted_by_id == id_or_zero(row.submitted_by_id@),
        r.submitted_by_name == row.submitted_by_name,
        r.submitted_date == row.submitted_date,
        r.status == row.status,
        r.rejection_reason == row.rejection_reason,
        r.spawned_proposal_id == row.spawned_proposal_id,
{
    let by = parse_i64_or_zero(row.submitted_by_id.as_str());
    let preview = make_preview(row.description.as_str(), 100);
    SuggestionListItem {
        id: row.id,
        description: row.description,
        description_preview: preview,
        submitted_by_id: by,
        submitted_by_name: row.submitted_by_name,
        submitted_date: row.submitted_date,
        status: row.status,
        rejection_reason: row.rejection_reason,
        spawned_proposal_id: row.spawned_proposal_id,
    }
}

/// A suggestion row of the cross-ToR index, with its ToR.
#[derive(Debug)]
pub struct CrossTorSuggestionRow {
    pub tor_id: i64,
    pub tor_name: String,
    pub row: SuggestionRow,
}

/// The cross-ToR item of a suggestion row, read as `suggestion_list_item`
/// reads it.
pub fn cross_tor_suggestion_item(r: CrossTorSuggestionRow) -> (item: CrossTorSuggestionItem)
    ensures
        item.tor_id == r.tor_id,
        item.tor_name == r.tor_name,
        item.id == r.row.id,
        item.description == r.row.description,
        item.description_preview@ == preview_spec(r.row.description@, 100),
        item.submitted_by_id == id_or_zero(r.row.submitted_by_id@),
        item.submitted_by_name == r.row.submitted_by_name,
        item.submitted_date == r.row.submitted_date,
        item.status == r.row.status,
        item.rejection_reason == r.row.rejection_reason,
        item.spawned_proposal_id == r.row.spawned_proposal_id,
{
    let l = suggestion_list_item(r.row);
    CrossTorSuggestionItem {
        tor_id: r.tor_id,
        tor_name: r.tor_name,
        id: l.id,
        description: l.description,
        description_preview: l.description_preview,
        submitted_by_id: l.submitted_by_id,
        submitted_by_name: l.submitted_by_name,
        submitted_date: l.submitted_date,
        status: l.status,
        rejection_reason: l.rejection_reason,
        spawned_proposal_id: l.spawned_proposal_id,
    }
}

/// The end of a cross-ToR query: limited to the ToRs where user `$1` fills
/// a position when the index is filtered, then ordered by ToR and `order`.
pub open spec fn cross_tor_tail_spec(filtered: bool, order: Seq<char>) -> Seq<char> {
    (if filtered {
        " AND EXISTS (SELECT 1 FROM relations r_fills JOIN relations r_tor ON r_fills.target_id = r_tor.source_id WHERE r_fills.source_id = $1 AND r_tor.target_id = tor.id AND r_fills.relation_type_id = (SELECT id FROM entities WHERE entity_type = 'relation_type' AND name = 'fills_position') AND r_tor.relation_type_id = (SELECT id FROM entities WHERE entity_type = 'relation_type' AND name = 'belongs_to_tor'))"@
    } else {
        Seq::empty()
    }) + " ORDER BY tor.label ASC, "@ + order
}

/// The end of a cross-ToR query (see `cross_tor_tail_spec`); the user id is
/// bound as `$1` when the index is filtered.
pub fn cross_tor_tail(filtered: bool, order: &str) -> (r: String)
    ensures
        r@ == cross_tor_tail_spec(filtered, order@),
{
    let mut v: Vec<char> = Vec::new();
    if filtered {
        push_str(
            &mut v,
            " AND EXISTS (SELECT 1 FROM relations r_fills JOIN relations r_tor ON r_fills.target_id = r_tor.source_id WHERE r_fills.source_id = $1 AND r_tor.target_id = tor.id AND r_fills.relation_type_id = (SELECT id FROM entities WHERE entity_type = 'relation_type' AND name = 'fills_position') AND r_tor.relation_type_id = (SELECT id FROM entities WHERE entity_type = 'relation_type' AND name = 'belongs_to_tor'))",
        );
    }
    push_str(&mut v, " ORDER BY tor.label ASC, ");
    push_str(&mut v, order);
    assert(v@ =~= cross_tor_tail_spec(filtered, order@));
    text_of(v.as_slice())
}

// ---------------------------------------------------------------------
// Proposals
// ---------------------------------------------------------------------

/// The properties stored on a new proposal, which starts as a draft.
pub fn proposal_properties(
    title: &str,
    description: &str,
    rationale: &str,
    submitted_date: &str,
    submitted_by_id: i64,
) -> (r: Vec<(String, String)>)
    ensures
        pair_views(r@) == seq![
            ("title"@, title@),
            ("description"@, description@),
            ("rationale"@, rationale@),
            ("submitted_date"@, submitted_date@),
            ("status"@, "draft"@),
            ("submitted_by_id"@, decimal(submitted_by_id as int)),
        ],
{
    let mut v: Vec<(String, String)> = Vec::new();
    v.push((String::from_str("title"), owned(title)));
    v.push((String::from_str("description"), owned(description)));
    v.push((String::from_str("rationale"), owned(rationale)));
    v.push((String::from_str("submitted_date"), owned(submitted_date)));
    v.push((String::from_str("status"), String::from_str("draft")));
    v.push((String::from_str("submitted_by_id"), decimal_string(submitted_by_id)));
    assert(pair_views(v@) =~= seq![
        ("title"@, title@),
        ("description"@, description@),
        ("rationale"@, rationale@),
        ("submitted_date"@, submitted_date@),
        ("status"@, "draft"@),
        ("submitted_by_id"@, decimal(submitted_by_id as int)),
    ]);
    v
}

/// What happens to a proposal's rejection reason on a status change.
#[derive(Debug)]
pub enum ReasonChange {
    /// The given reason is stored.
    Store(String),
    /// A stored reason is removed.
    Clear,
    /// A stored reason stays.
    Keep,
}

/// A status change to "rejected" stores the given reason (and keeps a
/// stored one when none is given); any other status clears the reason.
pub fn proposal_reason_change(new_status: &str, rejection_reason: Option<&str>) -> (r: ReasonChange)
    ensures
        new_status@ != "rejected"@ ==> r is Clear,
        new_status@ == "rejected"@ ==> match rejection_reason {
            Some(reason) => r matches ReasonChange::Store(s) && s@ == reason@,
            None => r is Keep,
        },
{
    let s = chars_of(new_status);
    if crate::text::chars_eq_str(s.as_slice(), "rejected") {
        match rejection_reason {
            Some(reason) => ReasonChange::Store(owned(reason)),
            None => ReasonChange::Keep,
        }
    } else {
        ReasonChange::Clear
    }
}

/// A proposal to be created.
#[derive(Debug)]
pub struct ProposalDraft {
    pub title: String,
    pub description: String,
    pub rationale: String,
    pub submitted_by_id: i64,
    pub submitted_date: String,
    pub related_suggestion_id: Option<i64>,
}

/// How many characters of a suggestion become the title of its proposal.
pub open spec fn title_chars() -> int {
    100
}

/// The proposal made from an accepted suggestion: its first 100
/// characters as title, its description, a fixed rationale, and its
/// submitter and date, linked back to the suggestion.
pub fn proposal_from_suggestion(s: &SuggestionDetail) -> (r: ProposalDraft)
    ensures
        r.title@ == if s.description@.len() > title_chars() {
            s.description@.take(title_chars())
        } else {
            s.description@
        },
        r.description@ == s.description@,
        r.rationale@ == "Auto-created from accepted suggestion"@,
        r.submitted_by_id == s.submitted_by_id,
        r.submitted_date@ == s.submitted_date@,
        r.related_suggestion_id == Some(s.id),
{
    let d = chars_of(s.description.as_str());
    let title = if d.len() > 100 {
        let h = head_of(d.as_slice(), 100);
        assert(h@ =~= d@.take(100));
        text_of(h.as_slice())
    } else {
        text_of(d.as_slice())
    };
    ProposalDraft {
        title,
        description: text_of(d.as_slice()),
        rationale: String::from_str("Auto-created from accepted suggestion"),
        submitted_by_id: s.submitted_by_id,
        submitted_date: owned(s.submitted_date.as_str()),
        related_suggestion_id: Some(s.id),
    }
}

/// A proposal row as read from the store.
#[derive(Debug)]
pub struct ProposalRow {
    pub id: i64,
    pub title: String,
    pub submitted_date: String,
    pub status: String,
    pub submitted_by_id: String,
    pub submitted_by_name: String,
    pub rejection_reason: Option<String>,
    pub related_suggestion_id: Option<i64>,
}

/// The list item of a proposal row, the submitter id read as a number
/// (0 when it is not one).
pub fn proposal_list_item(row: ProposalRow) -> (r: ProposalListItem)
    ensures
        r.id == row.id,
        r.title == row.title,
        r.submitted_by_id == id_or_zero(row.submitted_by_id@),
        r.submitted_by_name == row.submitted_by_name,
        r.submitted_date == row.submitted_date,
        r.status == row.status,
        r.rejection_reason == row.rejection_reason,
        r.related_suggestion_id == row.related_suggestion_id,
{
    let by = parse_i64_or_zero(row.submitted_by_id.as_str());
    ProposalListItem {
        id: row.id,
        title: row.title,
        submitted_by_id: by,
        submitted_by_name: row.submitted_by_name,
        submitted_date: row.submitted_date,
        status: row.status,
        rejection_reason: row.rejection_reason,
        related_suggestion_id: row.related_suggestion_id,
    }
}

// ---------------------------------------------------------------------
// Agenda points
// ---------------------------------------------------------------------

/// The entity name of an agenda point: `agenda_<date>_<tor>`.
pub fn agenda_point_name(scheduled_date: &str, tor_id: i64) -> (r: String)
    ensures
        r@ == dated_name("agenda_"@, scheduled_date@, tor_id),
{
    dated_name_exec("agenda_", scheduled_date, tor_id)
}

/// The fields of a new agenda point.
#[derive(Debug)]
pub struct AgendaPointFields {
    pub tor_id: i64,
    pub title: String,
    pub description: String,
    pub item_type: String,
    pub scheduled_date: String,
    pub time_allocation_minutes: i32,
    pub created_by_id: i64,
    pub created_date: String,
    pub presenter: String,
    pub priority: String,
    pub pre_read_url: String,
}

/// The properties stored on a new agenda point: the fixed ones (it starts
/// "scheduled"), then presenter, priority and pre-read link when filled.
pub open spec fn agenda_point_stored(f: AgendaPointFields) -> Seq<(Seq<char>, Seq<char>)> {
    seq![
        ("title"@, f.title@),
        ("description"@, f.description@),
        ("item_type"@, f.item_type@),
        ("scheduled_date"@, f.scheduled_date@),
        ("time_allocation_minutes"@, decimal(f.time_allocation_minutes as int)),
        ("created_by"@, decimal(f.created_by_id as int)),
        ("created_date"@, f.created_date@),
        ("status"@, "scheduled"@),
        ("tor_id"@, decimal(f.tor_id as int)),
    ] + when_filled("presenter"@, f.presenter@) + when_filled("priority"@, f.priority@)
        + when_filled("pre_read_url"@, f.pre_read_url@)
}

/// Appends the pair when the value is not empty.
fn push_filled(out: &mut Vec<(String, String)>, key: &str, value: &String)
    ensures
        pair_views(final(out)@) == pair_views(old(out)@) + when_filled(key@, value@),
{
    let ghost before = out@;
    if !value.as_str().is_empty() {
        out.push((owned(key), owned(value.as_str())));
    }
    assert(pair_views(out@) =~= pair_views(before) + when_filled(key@, value@));
}

/// The properties to store for a new agenda point (see `agenda_point_stored`).
pub fn agenda_point_properties(f: &AgendaPointFields) -> (r: Vec<(String, String)>)
    ensures
        pair_views(r@) == agenda_point_stored(*f),
{
    let mut v: Vec<(String, String)> = Vec::new();
    v.push((String::from_str("title"), owned(f.title.as_str())));
    v.push((String::from_str("description"), owned(f.description.as_str())));
    v.push((String::from_str("item_type"), owned(f.item_type.as_str())));
    v.push((String::from_str("scheduled_date"), owned(f.scheduled_date.as_str())));
    v.push(
        (
            String::from_str("time_allocation_minutes"),
            decimal_string(f.time_allocation_minutes as i64),
        ),
    );
    v.push((String::from_str("created_by"), decimal_string(f.created_by_id)));
    v.push((String::from_str("created_date"), owned(f.created_date.as_str())));
    v.push((String::from_str("status"), String::from_str("scheduled")));
    v.push((String::from_str("tor_id"), decimal_string(f.tor_id)));
    let ghost fixed = pair_views(v@);
    push_filled(&mut v, "presenter", &f.presenter);
    push_filled(&mut v, "priority", &f.priority);
    push_filled(&mut v, "pre_read_url", &f.pre_read_url);
    assert(pair_views(v@) =~= agenda_point_stored(*f));
    v
}

/// An agenda point row: the ToR id, creator and time allocation as text.
#[derive(Debug)]
pub struct AgendaPointRow {
    pub id: i64,
    pub title: String,
    pub description: String,
    pub status: String,
    pub item_type: String,
    pub tor_id: String,
    pub created_by: String,
    pub created_date: String,
    pub scheduled_date: String,
    pub time_allocation_minutes: String,
}

/// A 32-bit number read from text, 0 when it is not one.
pub open spec fn small_or_zero(s: Seq<char>) -> i32 {
    match parse_i32_spec(s) {
        Some(v) => v as i32,
        None => 0,
    }
}

/// The detail of an agenda point row with the courses of action it
/// considers; the numbers read from text (0 when they are not numbers).
pub fn agenda_point_detail(row: AgendaPointRow, coa_ids: Vec<i64>) -> (r: AgendaPointDetail)
    ensures
        r.id == row.id,
        r.title == row.title,
        r.description == row.description,
        r.status == row.status,
        r.item_type == row.item_type,
        r.tor_id == id_or_zero(row.tor_id@),
        r.created_by == id_or_zero(row.created_by@),
        r.created_date == row.created_date,
        r.scheduled_date == row.scheduled_date,
        r.time_allocation_minutes == small_or_zero(row.time_allocation_minutes@),
        r.coa_ids@ == coa_ids@,
{
    let tor_id = parse_i64_or_zero(row.tor_id.as_str());
    let created_by = parse_i64_or_zero(row.created_by.as_str());
    let minutes = parse_i32_or_zero(row.time_allocation_minutes.as_str());
    AgendaPointDetail {
        id: row.id,
        title: row.title,
        description: row.description,
        status: row.status,
        item_type: row.item_type,
        tor_id,
        created_by,
        created_date: row.created_date,
        scheduled_date: row.scheduled_date,
        time_allocation_minutes: minutes,
        coa_ids,
    }
}

/// The list item of an agenda point row.
pub fn agenda_point_list_item(row: AgendaPointRow) -> (r: AgendaPointListItem)
    ensures
        r.id == row.id,
        r.title == row.title,
        r.description == row.description,
        r.status == row.status,
        r.scheduled_date == row.scheduled_date,
        r.item_type == row.item_type,
        r.tor_id == id_or_zero(row.tor_id@),
{
    let tor_id = parse_i64_or_zero(row.tor_id.as_str());
    AgendaPointListItem {
        id: row.id,
        title: row.title,
        description: row.description,
        status: row.status,
        scheduled_date: row.scheduled_date,
        item_type: row.item_type,
        tor_id,
    }
}

// ---------------------------------------------------------------------
// Courses of action
// ---------------------------------------------------------------------

/// The entity name of a course of action: `coa_`, the lowercased title with
/// spaces as underscores, `_`, and the creation time with colons as
/// underscores.
pub open spec fn coa_name_spec(title: Seq<char>, now: Seq<char>) -> Seq<char> {
    "coa_"@ + lowercase_of(replace_char(title, ' ', "_"@)) + "_"@ + replace_char(now, ':', "_"@)
}

/// The entity name of a course of action created at `now`.
pub fn coa_name(title: &str, now: &str) -> (r: String)
    ensures
        r@ == coa_name_spec(title@, now@),
{
    let us = chars_of("_");
    let t = chars_of(title);
    let t1 = replace_char_exec(t.as_slice(), ' ', us.as_slice());
    let t1s = text_of(t1.as_slice());
    let lower = to_lowercase(t1s.as_str());
    let n = chars_of(now);
    let n1 = replace_char_exec(n.as_slice(), ':', us.as_slice());
    let mut out = chars_of("coa_");
    push_str(&mut out, lower.as_str());
    push_str(&mut out, "_");
    push_chars(&mut out, n1.as_slice());
    text_of(out.as_slice())
}

/// The properties stored on a new course of action.
pub fn coa_properties(
    title: &str,
    description: &str,
    coa_type: &str,
    created_by_id: i64,
    now: &str,
) -> (r: Vec<(String, String)>)
    ensures
        pair_views(r@) == seq![
            ("title"@, title@),
            ("description"@, description@),
            ("coa_type"@, coa_type@),
            ("created_by"@, decimal(created_by_id as int)),
            ("created_date"@, now@),
        ],
{
    let mut v: Vec<(String, String)> = Vec::new();
    v.push((String::from_str("title"), owned(title)));
    v.push((String::from_str("description"), owned(description)));
    v.push((String::from_str("coa_type"), owned(coa_type)));
    v.push((String::from_str("created_by"), decimal_string(created_by_id)));
    v.push((String::from_str("created_date"), owned(now)));
    assert(pair_views(v@) =~= seq![
        ("title"@, title@),
        ("description"@, description@),
        ("coa_type"@, coa_type@),
        ("created_by"@, decimal(created_by_id as int)),
        ("created_date"@, now@),
    ]);
    v
}

/// The entity name of a section: `coa_section_<coa>_<order>_` and the
/// lowercased title with spaces as underscores.
pub fn coa_section_name(coa_id: i64, order: i32, title: &str) -> (r: String)
    ensures
        r@ == "coa_section_"@ + decimal(coa_id as int) + "_"@ + decimal(order as int) + "_"@
            + lowercase_of(replace_char(title@, ' ', "_"@)),
{
    let us = chars_of("_");
    let t = chars_of(title);
    let t1 = replace_char_exec(t.as_slice(), ' ', us.as_slice());
    let t1s = text_of(t1.as_slice());
    let lower = to_lowercase(t1s.as_str());
    let mut out = chars_of("coa_section_");
    let c = decimal_chars(coa_id);
    push_chars(&mut out, c.as_slice());
    push_str(&mut out, "_");
    let o = decimal_chars(order as i64);
    push_chars(&mut out, o.as_slice());
    push_str(&mut out, "_");
    push_str(&mut out, lower.as_str());
    text_of(out.as_slice())
}

/// A section row: the order as stored text.
#[derive(Debug)]
pub struct SectionRow {
    pub id: i64,
    pub title: String,
    pub content: String,
    pub order_num: String,
}

/// A section read back, its order as a number (0 when it is not one).
pub fn coa_section_from_row(row: SectionRow, subsections: Vec<CoaSubsection>) -> (r: CoaSection)
    ensures
        r.id == row.id,
        r.title == row.title,
        r.content == row.content,
        r.order == match parse_i32_spec(row.order_num@) {
            Some(v) => v as i32,
            None => 0i32,
        },
        r.subsections@ == subsections@,
{
    let order = parse_i32_or_zero(row.order_num.as_str());
    CoaSection { id: row.id, title: row.title, content: row.content, order, subsections }
}

// ---------------------------------------------------------------------
// Documents
// ---------------------------------------------------------------------

/// The filters of the document list: the text added to the WHERE clause
/// and the search pattern, bound after the ToR id.
#[derive(Debug)]
pub struct DocumentFilter {
    pub clause: String,
    pub search_pattern: Option<String>,
}

/// The WHERE text of the document list: the ToR condition (`$1`) when a
/// ToR is given, then the search condition on the next two parameters.
pub open spec fn document_clause(has_tor: bool, has_search: bool) -> Seq<char> {
    let first = if has_tor {
        " AND r.target_id = $1"@
    } else {
        Seq::empty()
    };
    let k: int = if has_tor {
        2
    } else {
        1
    };
    first + if has_search {
        " AND (p_title.value LIKE $"@ + decimal(k) + " OR p_type.value LIKE $"@ + decimal(k + 1)
            + ")"@
    } else {
        Seq::empty()
    }
}

/// Builds the filter of the document list.
pub fn document_filter(tor_id: Option<i64>, search: Option<&str>) -> (r: DocumentFilter)
    ensures
        r.clause@ == document_clause(tor_id is Some, search is Some),
        search matches Some(q) ==> (r.search_pattern matches Some(p) && p@ == "%"@ + q@ + "%"@),
        search is None ==> r.search_pattern is None,
{
    let mut c: Vec<char> = Vec::new();
    let k: i64 = if tor_id.is_some() {
        push_str(&mut c, " AND r.target_id = $1");
        2
    } else {
        1
    };
    let pattern = match search {
        Some(q) => {
            push_str(&mut c, " AND (p_title.value LIKE $");
            let a = decimal_chars(k);
            push_chars(&mut c, a.as_slice());
            push_str(&mut c, " OR p_type.value LIKE $");
            let b = decimal_chars(k + 1);
            push_chars(&mut c, b.as_slice());
            push_str(&mut c, ")");
            let mut p = chars_of("%");
            push_str(&mut p, q);
            push_str(&mut p, "%");
            Some(text_of(p.as_slice()))
        },
        None => None,
    };
    assert(c@ =~= document_clause(tor_id is Some, search is Some));
    DocumentFilter { clause: text_of(c.as_slice()), search_pattern: pattern }
}

/// The properties stored on a new document.
pub fn document_properties(
    title: &str,
    doc_type: &str,
    body: &str,
    created_by_id: i64,
    today: &str,
) -> (r: Vec<(String, String)>)
    ensures
        pair_views(r@) == seq![
            ("title"@, title@),
            ("doc_type"@, doc_type@),
            ("body"@, body@),
            ("created_by_id"@, decimal(created_by_id as int)),
            ("created_date"@, today@),
        ],
{
    let mut v: Vec<(String, String)> = Vec::new();
    v.push((String::from_str("title"), owned(title)));
    v.push((String::from_str("doc_type"), owned(doc_type)));
    v.push((String::from_str("body"), owned(body)));
    v.push((String::from_str("created_by_id"), decimal_string(created_by_id)));
    v.push((String::from_str("created_date"), owned(today)));
    assert(pair_views(v@) =~= seq![
        ("title"@, title@),
        ("doc_type"@, doc_type@),
        ("body"@, body@),
        ("created_by_id"@, decimal(created_by_id as int)),
        ("created_date"@, today@),
    ]);
    v
}

// ---------------------------------------------------------------------
// Opinions and decisions
// ---------------------------------------------------------------------

/// `<kind>_ap<agenda point>_by<user>`.
pub open spec fn vote_name(kind: Seq<char>, agenda_point_id: i64, user_id: i64) -> Seq<char> {
    kind + "_ap"@ + decimal(agenda_point_id as int) + "_by"@ + decimal(user_id as int)
}

/// Builds `<kind>_ap<agenda point>_by<user>`.
fn vote_name_exec(kind: &str, agenda_point_id: i64, user_id: i64) -> (r: String)
    ensures
        r@ == vote_name(kind@, agenda_point_id, user_id),
{
    let mut out = chars_of(kind);
    push_str(&mut out, "_ap");
    let a = decimal_chars(agenda_point_id);
    push_chars(&mut out, a.as_slice());
    push_str(&mut out, "_by");
    let b = decimal_chars(user_id);
    push_chars(&mut out, b.as_slice());
    text_of(out.as_slice())
}

/// The entity name (and label) of an opinion.
pub fn opinion_name(agenda_point_id: i64, recorded_by_id: i64) -> (r: String)
    ensures
        r@ == vote_name("opinion"@, agenda_point_id, recorded_by_id),
{
    vote_name_exec("opinion", agenda_point_id, recorded_by_id)
}

/// The entity name (and label) of a decision.
pub fn decision_name(agenda_point_id: i64, decided_by_id: i64) -> (r: String)
    ensures
        r@ == vote_name("decision"@, agenda_point_id, decided_by_id),
{
    vote_name_exec("decision", agenda_point_id, decided_by_id)
}

/// The properties stored on a new opinion recorded at `now`.
pub fn opinion_properties(
    agenda_point_id: i64,
    recorded_by_id: i64,
    preferred_coa_id: i64,
    commentary: &str,
    now: &str,
) -> (r: Vec<(String, String)>)
    ensures
        pair_views(r@) == seq![
            ("agenda_point_id"@, decimal(agenda_point_id as int)),
            ("recorded_by_id"@, decimal(recorded_by_id as int)),
            ("preferred_coa_id"@, decimal(preferred_coa_id as int)),
            ("commentary"@, commentary@),
            ("created_date"@, now@),
        ],
{
    let mut v: Vec<(String, String)> = Vec::new();
    v.push((String::from_str("agenda_point_id"), decimal_string(agenda_point_id)));
    v.push((String::from_str("recorded_by_id"), decimal_string(recorded_by_id)));
    v.push((String::from_str("preferred_coa_id"), decimal_string(preferred_coa_id)));
    v.push((String::from_str("commentary"), owned(commentary)));
    v.push((String::from_str("created_date"), owned(now)));
    assert(pair_views(v@) =~= seq![
        ("agenda_point_id"@, decimal(agenda_point_id as int)),
        ("recorded_by_id"@, decimal(recorded_by_id as int)),
        ("preferred_coa_id"@, decimal(preferred_coa_id as int)),
        ("commentary"@, commentary@),
        ("created_date"@, now@),
    ]);
    v
}

/// The relations of a new opinion as (type, source, target): the user gave
/// it, it is on the agenda point, and it prefers the course of action.
pub fn opinion_relations(
    opinion_id: i64,
    agenda_point_id: i64,
    recorded_by_id: i64,
    preferred_coa_id: i64,
) -> (r: Vec<(String, i64, i64)>)
    ensures
        r@.len() == 3,
        r@[0].0@ == "opinion_by"@ && r@[0].1 == recorded_by_id && r@[0].2 == opinion_id,
        r@[1].0@ == "opinion_on"@ && r@[1].1 == opinion_id && r@[1].2 == agenda_point_id,
        r@[2].0@ == "prefers_coa"@ && r@[2].1 == opinion_id && r@[2].2 == preferred_coa_id,
{
    let mut v: Vec<(String, i64, i64)> = Vec::new();
    v.push((String::from_str("opinion_by"), recorded_by_id, opinion_id));
    v.push((String::from_str("opinion_on"), opinion_id, agenda_point_id));
    v.push((String::from_str("prefers_coa"), opinion_id, preferred_coa_id));
    v
}

/// The properties stored on a new decision taken at `now`.
pub fn decision_properties(
    agenda_point_id: i64,
    decided_by_id: i64,
    selected_coa_id: i64,
    decision_rationale: &str,
    now: &str,
) -> (r: Vec<(String, String)>)
    ensures
        pair_views(r@) == seq![
            ("agenda_point_id"@, decimal(agenda_point_id as int)),
            ("decided_by_id"@, decimal(decided_by_id as int)),
            ("selected_coa_id"@, decimal(selected_coa_id as int)),
            ("decision_rationale"@, decision_rationale@),
            ("decided_date"@, now@),
        ],
{
    let mut v: Vec<(String, String)> = Vec::new();
    v.push((String::from_str("agenda_point_id"), decimal_string(agenda_point_id)));
    v.push((String::from_str("decided_by_id"), decimal_string(decided_by_id)));
    v.push((String::from_str("selected_coa_id"), decimal_string(selected_coa_id)));
    v.push((String::from_str("decision_rationale"), owned(decision_rationale)));
    v.push((String::from_str("decided_date"), owned(now)));
    assert(pair_views(v@) =~= seq![
        ("agenda_point_id"@, decimal(agenda_point_id as int)),
        ("decided_by_id"@, decimal(decided_by_id as int)),
        ("selected_coa_id"@, decimal(selected_coa_id as int)),
        ("decision_rationale"@, decision_rationale@),
        ("decided_date"@, now@),
    ]);
    v
}

/// The opinion counts per course of action, each count narrowed to 32 bits
/// as the summary stores it.
pub fn opinion_counts(rows: &Vec<(i64, i64)>) -> (r: Vec<(i64, i32)>)
    ensures
        r@.len() == rows@.len(),
        forall|i: int|
            0 <= i < rows@.len() ==> (#[trigger] r@[i]).0 == rows@[i].0 && r@[i].1 == rows@[i].1 as i32,
{
    let mut out: Vec<(i64, i32)> = Vec::new();
    let n = rows.len();
    for i in 0..n
        invariant
            n == rows@.len(),
            out@.len() == i,
            forall|j: int|
                0 <= j < i ==> (#[trigger] out@[j]).0 == rows@[j].0 && out@[j].1 == rows@[j].1 as i32,
    {
        let (coa, count) = rows[i];
        out.push((coa, count as i32));
    }
    out
}

} // verus!
