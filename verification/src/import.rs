//! The decisions of an import: what to do with each entity under the
//! conflict mode, and the tally of outcomes.
//!
//! The store is consulted between the steps, so the caller drives the
//! loop: for each entity it reports whether one with the same type and
//! name exists, performs the step chosen here, and records the outcome;
//! then it does the same for each relation.
use vstd::prelude::*;
use crate::text::{chars_of, text_of, push_chars, push_str, split_once, split_once_exec};
use crate::data_manager::{
    ConflictMode, ImportItem, ImportItemView, ImportError, ImportResult, EntityImport, RelationImport,
    copy_entity, copy_relation,
};

verus! {

/// Reading a `"type:name"` reference.
pub open spec fn ref_type_name(r: Seq<char>) -> Result<(Seq<char>, Seq<char>), Seq<char>> {
    match split_once(r, ':') {
        Some(p) => Ok(p),
        None => Err("invalid entity reference '"@ + r + "' — expected 'type:name'"@),
    }
}

/// Parses a `"type:name"` reference into `(entity_type, name)`.
pub fn parse_ref(ref_str: &str) -> (r: Result<(String, String), String>)
    ensures
        match r {
            Ok((t, n)) => ref_type_name(ref_str@) == Ok::<_, Seq<char>>((t@, n@)),
            Err(e) => ref_type_name(ref_str@) == Err::<(Seq<char>, Seq<char>), _>(e@),
        },
{
    let c = chars_of(ref_str);
    match split_once_exec(c.as_slice(), ':') {
        Some((t, n)) => Ok((text_of(t.as_slice()), text_of(n.as_slice()))),
        None => {
            let mut m = chars_of("invalid entity reference '");
            push_chars(&mut m, c.as_slice());
            push_str(&mut m, "' — expected 'type:name'");
            Err(text_of(m.as_slice()))
        },
    }
}

/// The reading of a reference on import agrees with its splitting on
/// export: a reference with a `:` gives the same type and name; one without
/// is refused on import and exported as the name of an `unknown` type.
pub proof fn lemma_reference_readings_agree(r: Seq<char>)
    ensures
        ref_type_name(r) is Ok ==> ref_type_name(r) == Ok::<_, Seq<char>>(
            crate::sql_export::ref_parts(r),
        ),
        ref_type_name(r) is Err ==> crate::sql_export::ref_parts(r) == ("unknown"@, r),
{
}

/// What to do with an entity to import.
#[derive(Clone, Copy, Debug, PartialEq, Eq, Structural)]
pub enum EntityStep {
    /// Leave the existing entity as it is.
    Skip,
    /// Update the existing entity with this id and replace its properties.
    Upsert(i64),
    /// Insert a new entity with its properties.
    Insert,
}

/// The outcome of a completed entity step.
#[derive(Clone, Copy, Debug, PartialEq, Eq, Structural)]
pub enum EntityOutcome {
    Created,
    Updated,
    Skipped,
}

/// The step for an entity, given the id of an existing entity with the same
/// type and name (if any): insert when there is none; otherwise skip,
/// upsert, or refuse as the conflict mode says.
pub open spec fn entity_step_spec(
    existing: Option<i64>,
    mode: ConflictMode,
    entity_type: Seq<char>,
    name: Seq<char>,
) -> Result<EntityStep, Seq<char>> {
    match existing {
        None => Ok(EntityStep::Insert),
        Some(id) => match mode {
            ConflictMode::Skip => Ok(EntityStep::Skip),
            ConflictMode::Upsert => Ok(EntityStep::Upsert(id)),
            ConflictMode::Fail => Err("entity already exists: "@ + entity_type + ":"@ + name),
        },
    }
}

/// An entity no stored entity shares a type and name with is inserted,
/// whatever the conflict mode; one that exists already is left alone in
/// `skip` mode, updated in place (the stored entity's id) in `upsert` mode,
/// and refused with "entity already exists: <type>:<name>" in `fail` mode.
/// The mode decides only for entities that exist: two modes give the same
/// step for a new entity.
pub proof fn lemma_entity_step_modes(
    existing: Option<i64>,
    mode: ConflictMode,
    other: ConflictMode,
    entity_type: Seq<char>,
    name: Seq<char>,
)
    ensures
        existing is None ==> entity_step_spec(existing, mode, entity_type, name) == Ok::<_, Seq<char>>(
            EntityStep::Insert,
        ),
        existing is None ==> entity_step_spec(existing, mode, entity_type, name) == entity_step_spec(
            existing,
            other,
            entity_type,
            name,
        ),
        existing matches Some(id) ==> match mode {
            ConflictMode::Skip => entity_step_spec(existing, mode, entity_type, name) == Ok::<
                _,
                Seq<char>,
            >(EntityStep::Skip),
            ConflictMode::Upsert => entity_step_spec(existing, mode, entity_type, name) == Ok::<
                _,
                Seq<char>,
            >(EntityStep::Upsert(id)),
            ConflictMode::Fail => entity_step_spec(existing, mode, entity_type, name) == Err::<
                EntityStep,
                _,
            >("entity already exists: "@ + entity_type + ":"@ + name),
        },
{
}

/// Decides the step for an entity (see `entity_step_spec`).
pub fn entity_step(existing: Option<i64>, mode: ConflictMode, entity_type: &str, name: &str) -> (r:
    Result<EntityStep, String>)
    ensures
        match r {
            Ok(s) => entity_step_spec(existing, mode, entity_type@, name@) == Ok::<_, Seq<char>>(s),
            Err(e) => entity_step_spec(existing, mode, entity_type@, name@) == Err::<EntityStep, _>(
                e@,
            ),
        },
{
    match existing {
        None => Ok(EntityStep::Insert),
        Some(id) => match mode {
            ConflictMode::Skip => Ok(EntityStep::Skip),
            ConflictMode::Upsert => Ok(EntityStep::Upsert(id)),
            ConflictMode::Fail => {
                let mut m = chars_of("entity already exists: ");
                push_str(&mut m, entity_type);
                push_str(&mut m, ":");
                push_str(&mut m, name);
                Err(text_of(m.as_slice()))
            },
        },
    }
}

/// The outcome of a step that the store carried out.
pub fn step_outcome(step: EntityStep) -> (r: EntityOutcome)
    ensures
        r == match step {
            EntityStep::Skip => EntityOutcome::Skipped,
            EntityStep::Upsert(_) => EntityOutcome::Updated,
            EntityStep::Insert => EntityOutcome::Created,
        },
{
    match step {
        EntityStep::Skip => EntityOutcome::Skipped,
        EntityStep::Upsert(_) => EntityOutcome::Updated,
        EntityStep::Insert => EntityOutcome::Created,
    }
}

/// Why a relation could not be imported.
pub enum RelationFailure {
    /// No relation type has this name.
    UnknownType(String),
    /// No entity matches this reference.
    NotFound(String),
}

/// The reason text of a relation failure.
pub open spec fn failure_reason(f: RelationFailure) -> Seq<char> {
    match f {
        RelationFailure::UnknownType(t) => "unknown relation type: "@ + t@,
        RelationFailure::NotFound(r) => "entity not found: "@ + r@,
    }
}

impl RelationFailure {
    /// The reason recorded for this failure.
    pub fn reason(&self) -> (r: String)
        ensures
            r@ == failure_reason(*self),
    {
        match self {
            RelationFailure::UnknownType(t) => {
                let mut m = chars_of("unknown relation type: ");
                push_str(&mut m, t.as_str());
                text_of(m.as_slice())
            },
            RelationFailure::NotFound(r) => {
                let mut m = chars_of("entity not found: ");
                push_str(&mut m, r.as_str());
                text_of(m.as_slice())
            },
        }
    }
}

/// A stored relation: its type, source and target ids.
pub type RelationKey = (i64, i64, i64);

/// The relation to insert for `rel` when `already` tells whether an equal
/// relation is stored: none when it is.
pub open spec fn relation_write(already: bool, rel: RelationKey) -> Option<RelationKey> {
    if already {
        None
    } else {
        Some(rel)
    }
}

/// The relation to insert for (`relation_type_id`, `source_id`,
/// `target_id`) when `count` equal relations are already stored: none when
/// there is one.
pub fn relation_to_insert(count: i64, relation_type_id: i64, source_id: i64, target_id: i64) -> (r:
    Option<RelationKey>)
    ensures
        r == relation_write(count > 0, (relation_type_id, source_id, target_id)),
{
    if count > 0 {
        None
    } else {
        Some((relation_type_id, source_id, target_id))
    }
}

/// The stored relations after importing `rel` into `stored`, the count of
/// equal relations being read from `stored`.
pub open spec fn stored_after(stored: Set<RelationKey>, rel: RelationKey) -> Set<RelationKey> {
    match relation_write(stored.contains(rel), rel) {
        Some(k) => stored.insert(k),
        None => stored,
    }
}

/// Importing a relation stores it once: afterwards it is stored, nothing
/// else is added, and importing it a second time changes nothing.
pub proof fn lemma_relation_import_idempotent(stored: Set<RelationKey>, rel: RelationKey)
    ensures
        stored_after(stored, rel) == stored.insert(rel),
        stored_after(stored_after(stored, rel), rel) == stored_after(stored, rel),
{
    if stored.contains(rel) {
        assert(stored.insert(rel) =~= stored);
    }
    assert(stored.insert(rel).contains(rel));
}

/// The mathematical content of an import error.
pub open spec fn error_view(e: ImportError) -> (ImportItemView, Seq<char>) {
    (e.item@, e.reason@)
}

/// The errors of a result, as views.
pub open spec fn errors_view(r: ImportResult) -> Seq<(ImportItemView, Seq<char>)> {
    r.errors@.map_values(|e: ImportError| error_view(e))
}

/// The number of items an import result accounts for.
pub open spec fn accounted(r: ImportResult) -> int {
    r.created + r.updated + r.skipped + r.errors@.len()
}

/// A fresh tally: all counters zero, no errors.
pub fn new_result() -> (r: ImportResult)
    ensures
        r.created == 0,
        r.updated == 0,
        r.skipped == 0,
        r.errors@.len() == 0,
{
    ImportResult { created: 0, updated: 0, skipped: 0, errors: Vec::new() }
}

/// Records the outcome of importing `entity`. A success bumps its counter;
/// a failure is recorded with the entity and the reason. Returns whether the import must
/// stop: exactly when an entity failed in `Fail` mode (the caller then
/// rolls back and reports the result as it stands).
pub fn record_entity(
    result: &mut ImportResult,
    entity: &EntityImport,
    outcome: Result<EntityOutcome, String>,
    mode: ConflictMode,
) -> (stop: bool)
    requires
        old(result).created < usize::MAX,
        old(result).updated < usize::MAX,
        old(result).skipped < usize::MAX,
    ensures
        stop == (outcome is Err && mode == ConflictMode::Fail),
        accounted(*final(result)) == accounted(*old(result)) + 1,
        match outcome {
            Ok(EntityOutcome::Created) => final(result).created == old(result).created + 1
                && final(result).updated == old(result).updated && final(result).skipped == old(
                result,
            ).skipped && errors_view(*final(result)) == errors_view(*old(result)),
            Ok(EntityOutcome::Updated) => final(result).created == old(result).created
                && final(result).updated == old(result).updated + 1 && final(result).skipped
                == old(result).skipped && errors_view(*final(result)) == errors_view(*old(result)),
            Ok(EntityOutcome::Skipped) => final(result).created == old(result).created
                && final(result).updated == old(result).updated && final(result).skipped == old(
                result,
            ).skipped + 1 && errors_view(*final(result)) == errors_view(*old(result)),
            Err(reason) => final(result).created == old(result).created && final(result).updated
                == old(result).updated && final(result).skipped == old(result).skipped
                && errors_view(*final(result)) == errors_view(*old(result)).push(
                (ImportItemView::Entity(entity@), reason@),
            ),
        },
{
    let ghost before = errors_view(*result);
    match outcome {
        Ok(EntityOutcome::Created) => {
            result.created = result.created + 1;
            false
        },
        Ok(EntityOutcome::Updated) => {
            result.updated = result.updated + 1;
            false
        },
        Ok(EntityOutcome::Skipped) => {
            result.skipped = result.skipped + 1;
            false
        },
        Err(reason) => {
            result.errors.push(ImportError { item: ImportItem::Entity(copy_entity(entity)), reason });
            assert(errors_view(*result) =~= before.push((ImportItemView::Entity(entity@), reason@)));
            mode == ConflictMode::Fail
        },
    }
}

/// Records the outcome of importing `relation`: a failure is recorded with
/// the relation and the reason, a success changes nothing.
pub fn record_relation(result: &mut ImportResult, relation: &RelationImport, outcome: Result<(), String>)
    ensures
        final(result).created == old(result).created,
        final(result).updated == old(result).updated,
        final(result).skipped == old(result).skipped,
        match outcome {
            Ok(_) => errors_view(*final(result)) == errors_view(*old(result)),
            Err(reason) => errors_view(*final(result)) == errors_view(*old(result)).push(
                (ImportItemView::Relation(relation@), reason@),
            ),
        },
{
    let ghost before = errors_view(*result);
    match outcome {
        Ok(_) => {},
        Err(reason) => {
            result.errors.push(ImportError { item: ImportItem::Relation(copy_relation(relation)), reason });
            assert(errors_view(*result) =~= before.push((ImportItemView::Relation(relation@), reason@)));
        },
    }
}

} // verus!
